//! Audio files: the primitive tag fields, the audio properties and the
//! property map, and the rules that reconcile them for compound fields.

use vstd::prelude::*;
use crate::decimal::{
    decimal_digits, decimal_to_padding_string, lemma_padded_decimal_parses, padded_decimal,
    parse_decimal, parse_u32,
};
use crate::pair::{
    encode_number_pair, get_number_pair, get_text_pair, join_pair, lemma_decimal_is_clean,
    lemma_half_after_slash_has_no_first, lemma_half_alone_has_no_second,
    lemma_number_pair_round_trip,
    lemma_text_pair_clean, lemma_text_pair_first_alone, lemma_text_pair_second_alone,
    num_pair_to_string, number_pair, opt_view, text_pair, text_pair_to_string, u32_to_option,
};
use crate::properties::{
    first_value, lemma_with_values, lemma_with_values_twice, lemma_without_key, lookup,
    with_appended, with_values, without_key, Entries, PropertyMap,
};

verus! {

/// The model of a tag's primitive fields.
pub struct TagModel {
    pub title: Seq<char>,
    pub artist: Seq<char>,
    pub album: Seq<char>,
    pub comment: Seq<char>,
    pub genre: Seq<char>,
    pub year: u32,
    pub track: u32,
}

/// A text field as callers see it: empty text means "absent".
pub open spec fn text_field(s: Seq<char>) -> Option<Seq<char>> {
    if s.len() == 0 {
        None
    } else {
        Some(s)
    }
}

/// A number field as callers see it: zero means "absent".
pub open spec fn number_field(n: u32) -> Option<u32> {
    if n == 0 {
        None
    } else {
        Some(n)
    }
}

/// A tag whose fields are all absent.
pub open spec fn empty_tag() -> TagModel {
    TagModel {
        title: Seq::empty(),
        artist: Seq::empty(),
        album: Seq::empty(),
        comment: Seq::empty(),
        genre: Seq::empty(),
        year: 0,
        track: 0,
    }
}

/// The fixed fields that every tag format stores natively. Empty text and
/// the number zero stand for an absent field.
pub struct Tag {
    title: String,
    artist: String,
    album: String,
    comment: String,
    genre: String,
    year: u32,
    track: u32,
}

impl View for Tag {
    type V = TagModel;

    closed spec fn view(&self) -> TagModel {
        TagModel {
            title: self.title@,
            artist: self.artist@,
            album: self.album@,
            comment: self.comment@,
            genre: self.genre@,
            year: self.year,
            track: self.track,
        }
    }
}

fn text_of(s: &String) -> (r: Option<String>)
    ensures
        opt_view(r) == text_field(s@),
{
    if s.as_str().unicode_len() == 0 {
        None
    } else {
        Some(s.clone())
    }
}

impl Tag {
    /// A tag whose fields are all absent.
    pub fn new() -> (r: Tag)
        ensures
            r@ == empty_tag(),
    {
        Tag {
            title: String::new(),
            artist: String::new(),
            album: String::new(),
            comment: String::new(),
            genre: String::new(),
            year: 0,
            track: 0,
        }
    }

    /// Returns the track name, if any.
    pub fn title(&self) -> (r: Option<String>)
        ensures
            opt_view(r) == text_field(self@.title),
    {
        text_of(&self.title)
    }

    /// Sets the track name.
    pub fn set_title(&mut self, title: &str)
        ensures
            final(self)@ == (TagModel { title: title@, ..old(self)@ }),
    {
        self.title = title.to_owned();
    }

    /// Returns the artist name, if any.
    pub fn artist(&self) -> (r: Option<String>)
        ensures
            opt_view(r) == text_field(self@.artist),
    {
        text_of(&self.artist)
    }

    /// Sets the artist name.
    pub fn set_artist(&mut self, artist: &str)
        ensures
            final(self)@ == (TagModel { artist: artist@, ..old(self)@ }),
    {
        self.artist = artist.to_owned();
    }

    /// Returns the album name, if any.
    pub fn album(&self) -> (r: Option<String>)
        ensures
            opt_view(r) == text_field(self@.album),
    {
        text_of(&self.album)
    }

    /// Sets the album name.
    pub fn set_album(&mut self, album: &str)
        ensures
            final(self)@ == (TagModel { album: album@, ..old(self)@ }),
    {
        self.album = album.to_owned();
    }

    /// Returns the track comment, if any.
    pub fn comment(&self) -> (r: Option<String>)
        ensures
            opt_view(r) == text_field(self@.comment),
    {
        text_of(&self.comment)
    }

    /// Sets the track comment.
    pub fn set_comment(&mut self, comment: &str)
        ensures
            final(self)@ == (TagModel { comment: comment@, ..old(self)@ }),
    {
        self.comment = comment.to_owned();
    }

    /// Returns the genre name, if any.
    pub fn genre(&self) -> (r: Option<String>)
        ensures
            opt_view(r) == text_field(self@.genre),
    {
        text_of(&self.genre)
    }

    /// Sets the genre name.
    pub fn set_genre(&mut self, genre: &str)
        ensures
            final(self)@ == (TagModel { genre: genre@, ..old(self)@ }),
    {
        self.genre = genre.to_owned();
    }

    /// Returns the year, if any.
    pub fn year(&self) -> (r: Option<u32>)
        ensures
            r == number_field(self@.year),
    {
        u32_to_option(self.year)
    }

    /// Sets the year; zero clears it.
    pub fn set_year(&mut self, year: u32)
        ensures
            final(self)@ == (TagModel { year, ..old(self)@ }),
    {
        self.year = year;
    }

    /// Returns the track number, if any.
    pub fn track(&self) -> (r: Option<u32>)
        ensures
            r == number_field(self@.track),
    {
        u32_to_option(self.track)
    }

    /// Sets the track number; zero clears it.
    pub fn set_track(&mut self, track: u32)
        ensures
            final(self)@ == (TagModel { track, ..old(self)@ }),
    {
        self.track = track;
    }
}

/// The model of the audio properties of a file.
pub struct AudioModel {
    pub length: u32,
    pub bitrate: u32,
    pub samplerate: u32,
    pub channels: u32,
}

/// Common audio file properties.
#[derive(Clone, Copy, Debug)]
pub struct AudioProperties {
    length: u32,
    bitrate: u32,
    samplerate: u32,
    channels: u32,
}

impl View for AudioProperties {
    type V = AudioModel;

    closed spec fn view(&self) -> AudioModel {
        AudioModel {
            length: self.length,
            bitrate: self.bitrate,
            samplerate: self.samplerate,
            channels: self.channels,
        }
    }
}

impl AudioProperties {
    /// Audio properties with the given length (seconds), bit rate (kB/s),
    /// sample rate (Hz) and number of channels.
    pub fn new(length: u32, bitrate: u32, samplerate: u32, channels: u32) -> (r: AudioProperties)
        ensures
            r@ == (AudioModel { length, bitrate, samplerate, channels }),
    {
        AudioProperties { length, bitrate, samplerate, channels }
    }

    /// Returns the length, in seconds, of the track.
    pub fn length(&self) -> (r: u32)
        ensures
            r == self@.length,
    {
        self.length
    }

    /// Returns the most appropriate bit rate for the track, in kB/s.
    pub fn bitrate(&self) -> (r: u32)
        ensures
            r == self@.bitrate,
    {
        self.bitrate
    }

    /// Returns the sample rate, in Hz.
    pub fn samplerate(&self) -> (r: u32)
        ensures
            r == self@.samplerate,
    {
        self.samplerate
    }

    /// Returns the number of audio channels.
    pub fn channels(&self) -> (r: u32)
        ensures
            r == self@.channels,
    {
        self.channels
    }
}

/// The model of a file.
pub struct FileModel {
    pub tag: Option<TagModel>,
    pub audio: Option<AudioModel>,
    pub properties: Entries,
}

/// Why a file or one of its parts is not available.
#[derive(Clone, Copy, Debug, PartialEq, Eq, Structural)]
pub enum FileError {
    /// The file is an invalid or an unrecognized audio container
    InvalidFile,
    /// The file name is invalid
    InvalidFileName,
    /// No meta-data is available
    NoAvailableTag,
    /// No audio properties are available
    NoAvailableAudioProperties,
}

/// Property key of the album artist.
pub const KEY_ALBUM_ARTIST: &'static str = "ALBUMARTIST";
/// Property key of the composer.
pub const KEY_COMPOSER: &'static str = "COMPOSER";
/// Property key of the copyright notice.
pub const KEY_COPYRIGHT: &'static str = "COPYRIGHT";
/// Property key of the lyrics.
pub const KEY_LYRICS: &'static str = "LYRICS";
/// Property key of the date.
pub const KEY_DATE: &'static str = "DATE";
/// Property key of the disc pair, as in "01/02": disc number, then disc total.
pub const KEY_DISC_NUMBER: &'static str = "DISCNUMBER";
/// Property key of the track pair, as in "01/10": track number, then track total.
pub const KEY_TRACK_NUMBER: &'static str = "TRACKNUMBER";
/// Property key that holds the track total alone, as in "10".
pub const KEY_TRACK_TOTAL: &'static str = "TRACKTOTAL";

/// The textual pair stored in the first value of `key`.
pub open spec fn text_pair_at(e: Entries, key: Seq<char>) -> (Option<Seq<char>>, Option<Seq<char>>) {
    match first_value(e, key) {
        Some(v) => text_pair(v),
        None => (None, None),
    }
}

/// The numeric pair stored in the first value of `key`.
pub open spec fn number_pair_at(e: Entries, key: Seq<char>) -> (Option<u32>, Option<u32>) {
    match first_value(e, key) {
        Some(v) => number_pair(v),
        None => (None, None),
    }
}

/// `e` with the text of a pair stored under `key`, or without `key` when the
/// pair has no text (both halves absent).
pub open spec fn store_pair(e: Entries, key: Seq<char>, text: Option<Seq<char>>) -> Entries {
    match text {
        Some(t) => with_values(e, key, seq![t]),
        None => without_key(e, key),
    }
}

/// The track total: the `TRACKTOTAL` value when it is a number, else the
/// second half of the `TRACKNUMBER` pair.
pub open spec fn track_total_in(e: Entries) -> Option<u32> {
    match first_value(e, KEY_TRACK_TOTAL@) {
        Some(v) => if parse_u32(v) is Some {
            parse_u32(v)
        } else {
            number_pair_at(e, KEY_TRACK_NUMBER@).1
        },
        None => number_pair_at(e, KEY_TRACK_NUMBER@).1,
    }
}

/// The track total as text: the `TRACKTOTAL` value when the key has one,
/// else the second half of the `TRACKNUMBER` pair.
pub open spec fn track_total_text_in(e: Entries) -> Option<Seq<char>> {
    match first_value(e, KEY_TRACK_TOTAL@) {
        Some(v) => Some(v),
        None => text_pair_at(e, KEY_TRACK_NUMBER@).1,
    }
}

/// The track number held by the primitive field.
pub open spec fn primitive_track(m: FileModel) -> Option<u32> {
    match m.tag {
        Some(t) => number_field(t.track),
        None => None,
    }
}

/// The tag with its primitive track field set to `n` (when there is a tag).
pub open spec fn tag_with_track(m: FileModel, n: u32) -> Option<TagModel> {
    match m.tag {
        Some(t) => Some(TagModel { track: n, ..t }),
        None => None,
    }
}

/// The track number as text: the first half of the `TRACKNUMBER` pair when
/// it denotes the same number as the primitive field (so that its padding is
/// kept), else the plain decimal text of the primitive field.
pub open spec fn track_number_text(m: FileModel) -> Option<Seq<char>> {
    match primitive_track(m) {
        None => None,
        Some(t) => match text_pair_at(m.properties, KEY_TRACK_NUMBER@).0 {
            Some(s) => if parse_u32(s) == Some(t) {
                Some(s)
            } else {
                Some(decimal_digits(t as nat))
            },
            None => Some(decimal_digits(t as nat)),
        },
    }
}

/// The state after setting the track number.
pub open spec fn after_set_track_number(m: FileModel, value: u32, padding: nat) -> FileModel {
    FileModel {
        tag: tag_with_track(m, value),
        properties: store_pair(
            m.properties,
            KEY_TRACK_NUMBER@,
            encode_number_pair(Some(value), track_total_in(m.properties), padding),
        ),
        ..m
    }
}

/// The state after removing the track number.
pub open spec fn after_remove_track_number(m: FileModel) -> FileModel {
    FileModel {
        tag: tag_with_track(m, 0),
        properties: store_pair(
            m.properties,
            KEY_TRACK_NUMBER@,
            join_pair(None, track_total_text_in(m.properties)),
        ),
        ..m
    }
}

/// The state after setting the track total.
pub open spec fn after_set_track_total(m: FileModel, value: u32, padding: nat) -> FileModel {
    let e = with_values(m.properties, KEY_TRACK_TOTAL@, seq![padded_decimal(value as nat, padding)]);
    FileModel {
        properties: store_pair(
            e,
            KEY_TRACK_NUMBER@,
            encode_number_pair(primitive_track(m), Some(value), padding),
        ),
        ..m
    }
}

/// The state after removing the track total.
pub open spec fn after_remove_track_total(m: FileModel) -> FileModel {
    let m1 = FileModel { properties: without_key(m.properties, KEY_TRACK_TOTAL@), ..m };
    FileModel {
        properties: store_pair(
            m1.properties,
            KEY_TRACK_NUMBER@,
            join_pair(track_number_text(m1), None),
        ),
        ..m1
    }
}

/// The state after setting the disc number.
pub open spec fn after_set_disc_number(m: FileModel, value: u32, padding: nat) -> FileModel {
    let e = m.properties;
    FileModel {
        properties: store_pair(
            e,
            KEY_DISC_NUMBER@,
            encode_number_pair(Some(value), number_pair_at(e, KEY_DISC_NUMBER@).1, padding),
        ),
        ..m
    }
}

/// The state after removing the disc number.
pub open spec fn after_remove_disc_number(m: FileModel) -> FileModel {
    let e = m.properties;
    FileModel {
        properties: store_pair(
            e,
            KEY_DISC_NUMBER@,
            join_pair(None, text_pair_at(e, KEY_DISC_NUMBER@).1),
        ),
        ..m
    }
}

/// The state after setting the disc total.
pub open spec fn after_set_disc_total(m: FileModel, value: u32, padding: nat) -> FileModel {
    let e = m.properties;
    FileModel {
        properties: store_pair(
            e,
            KEY_DISC_NUMBER@,
            encode_number_pair(number_pair_at(e, KEY_DISC_NUMBER@).0, Some(value), padding),
        ),
        ..m
    }
}

/// The state after removing the disc total.
pub open spec fn after_remove_disc_total(m: FileModel) -> FileModel {
    let e = m.properties;
    FileModel {
        properties: store_pair(
            e,
            KEY_DISC_NUMBER@,
            join_pair(text_pair_at(e, KEY_DISC_NUMBER@).0, None),
        ),
        ..m
    }
}

/// Rewriting a pair key with a half that another rewrite produced: the key
/// then holds exactly that text, and storing it once more changes nothing.
proof fn lemma_store_pair_settles(e: Entries, key: Seq<char>, text: Option<Seq<char>>)
    ensures
        first_value(store_pair(e, key, text), key) == text,
        store_pair(store_pair(e, key, text), key, text) == store_pair(e, key, text),
{
    match text {
        Some(t) => {
            lemma_with_values(e, key, seq![t]);
            lemma_with_values_twice(e, key, seq![t]);
        },
        None => {
            lemma_without_key(e, key);
            let e1 = without_key(e, key);
            lemma_without_key(e1, key);
        },
    }
}

/// Removing the disc number twice leaves the file as removing it once does.
pub proof fn lemma_remove_disc_number_idempotent(m: FileModel)
    ensures
        after_remove_disc_number(after_remove_disc_number(m)) == after_remove_disc_number(m),
{
    let e = m.properties;
    let key = KEY_DISC_NUMBER@;
    let text = join_pair(None, text_pair_at(e, key).1);
    lemma_store_pair_settles(e, key, text);
    match first_value(e, key) {
        Some(v) => lemma_text_pair_clean(v),
        None => {},
    }
    match text_pair_at(e, key).1 {
        Some(h) => lemma_text_pair_second_alone(h),
        None => {},
    }
    assert(join_pair(None, text_pair_at(store_pair(e, key, text), key).1) == text);
}

/// Removing the disc total twice leaves the file as removing it once does.
pub proof fn lemma_remove_disc_total_idempotent(m: FileModel)
    ensures
        after_remove_disc_total(after_remove_disc_total(m)) == after_remove_disc_total(m),
{
    let e = m.properties;
    let key = KEY_DISC_NUMBER@;
    let text = join_pair(text_pair_at(e, key).0, None);
    lemma_store_pair_settles(e, key, text);
    match first_value(e, key) {
        Some(v) => lemma_text_pair_clean(v),
        None => {},
    }
    match text_pair_at(e, key).0 {
        Some(h) => lemma_text_pair_first_alone(h),
        None => {},
    }
    assert(join_pair(text_pair_at(store_pair(e, key, text), key).0, None) == text);
}

proof fn lemma_keys_distinct()
    ensures
        KEY_TRACK_NUMBER@ != KEY_TRACK_TOTAL@,
        KEY_TRACK_NUMBER@ != KEY_DISC_NUMBER@,
        KEY_TRACK_TOTAL@ != KEY_DISC_NUMBER@,
{
    reveal_strlit("TRACKNUMBER");
    reveal_strlit("TRACKTOTAL");
    reveal_strlit("DISCNUMBER");
    assert(KEY_TRACK_NUMBER@.len() != KEY_TRACK_TOTAL@.len());
    assert(KEY_TRACK_NUMBER@[0] != KEY_DISC_NUMBER@[0]);
    assert(KEY_TRACK_TOTAL@[0] != KEY_DISC_NUMBER@[0]);
}

/// Writing a numeric pair under a key: the key then reads back as that pair.
proof fn lemma_store_number_pair(
    e: Entries,
    key: Seq<char>,
    first: Option<u32>,
    second: Option<u32>,
    padding: nat,
)
    ensures
        number_pair_at(store_pair(e, key, encode_number_pair(first, second, padding)), key) == (
            first,
            second,
        ),
{
    let text = encode_number_pair(first, second, padding);
    lemma_store_pair_settles(e, key, text);
    lemma_number_pair_round_trip(first, second, padding);
    if text is None {
        assert(number_pair(Seq::empty()) == (None::<u32>, None::<u32>)) by {
            lemma_number_pair_round_trip(None, None, 0);
        }
    }
}

/// Setting the disc number keeps the disc total.
pub proof fn lemma_set_disc_number_keeps_total(m: FileModel, value: u32, padding: nat)
    ensures
        number_pair_at(after_set_disc_number(m, value, padding).properties, KEY_DISC_NUMBER@)
            == (Some(value), number_pair_at(m.properties, KEY_DISC_NUMBER@).1),
{
    lemma_store_number_pair(
        m.properties,
        KEY_DISC_NUMBER@,
        Some(value),
        number_pair_at(m.properties, KEY_DISC_NUMBER@).1,
        padding,
    );
}

/// Setting the disc total keeps the disc number.
pub proof fn lemma_set_disc_total_keeps_number(m: FileModel, value: u32, padding: nat)
    ensures
        number_pair_at(after_set_disc_total(m, value, padding).properties, KEY_DISC_NUMBER@)
            == (number_pair_at(m.properties, KEY_DISC_NUMBER@).0, Some(value)),
{
    lemma_store_number_pair(
        m.properties,
        KEY_DISC_NUMBER@,
        number_pair_at(m.properties, KEY_DISC_NUMBER@).0,
        Some(value),
        padding,
    );
}

/// Setting the track number keeps the track total, and the `TRACKNUMBER`
/// pair then starts with the new number.
pub proof fn lemma_set_track_number_keeps_total(m: FileModel, value: u32, padding: nat)
    ensures
        track_total_in(after_set_track_number(m, value, padding).properties) == track_total_in(
            m.properties,
        ),
        number_pair_at(after_set_track_number(m, value, padding).properties, KEY_TRACK_NUMBER@).0
            == Some(value),
{
    let e = m.properties;
    let total = track_total_in(e);
    let text = encode_number_pair(Some(value), total, padding);
    let e2 = store_pair(e, KEY_TRACK_NUMBER@, text);
    lemma_keys_distinct();
    lemma_store_number_pair(e, KEY_TRACK_NUMBER@, Some(value), total, padding);
    match text {
        Some(x) => lemma_with_values(e, KEY_TRACK_NUMBER@, seq![x]),
        None => lemma_without_key(e, KEY_TRACK_NUMBER@),
    }
    assert(first_value(e2, KEY_TRACK_TOTAL@) == first_value(e, KEY_TRACK_TOTAL@));
}

/// Setting the track total keeps the primitive track number, and the track
/// total then reads as the new value.
pub proof fn lemma_set_track_total_keeps_number(m: FileModel, value: u32, padding: nat)
    ensures
        primitive_track(after_set_track_total(m, value, padding)) == primitive_track(m),
        track_total_in(after_set_track_total(m, value, padding).properties) == Some(value),
        number_pair_at(after_set_track_total(m, value, padding).properties, KEY_TRACK_NUMBER@)
            == (primitive_track(m), Some(value)),
{
    let e = m.properties;
    let t = padded_decimal(value as nat, padding);
    let e1 = with_values(e, KEY_TRACK_TOTAL@, seq![t]);
    let text = encode_number_pair(primitive_track(m), Some(value), padding);
    let e2 = store_pair(e1, KEY_TRACK_NUMBER@, text);
    lemma_keys_distinct();
    lemma_with_values(e, KEY_TRACK_TOTAL@, seq![t]);
    lemma_padded_decimal_parses(value, padding);
    lemma_store_number_pair(e1, KEY_TRACK_NUMBER@, primitive_track(m), Some(value), padding);
    match text {
        Some(x) => lemma_with_values(e1, KEY_TRACK_NUMBER@, seq![x]),
        None => lemma_without_key(e1, KEY_TRACK_NUMBER@),
    }
    assert(first_value(e2, KEY_TRACK_TOTAL@) == Some(t));
}

/// After the track total is removed, no track total remains: the
/// `TRACKTOTAL` key is gone and the `TRACKNUMBER` pair has no second half.
pub proof fn lemma_remove_track_total_clears_total(m: FileModel)
    ensures
        first_value(after_remove_track_total(m).properties, KEY_TRACK_TOTAL@) is None,
        track_total_in(after_remove_track_total(m).properties) is None,
        track_total_text_in(after_remove_track_total(m).properties) is None,
{
    let e1 = without_key(m.properties, KEY_TRACK_TOTAL@);
    let m1 = FileModel { properties: e1, ..m };
    let text = join_pair(track_number_text(m1), None);
    let e2 = store_pair(e1, KEY_TRACK_NUMBER@, text);
    lemma_keys_distinct();
    lemma_without_key(m.properties, KEY_TRACK_TOTAL@);
    lemma_store_pair_settles(e1, KEY_TRACK_NUMBER@, text);
    match text {
        Some(x) => lemma_with_values(e1, KEY_TRACK_NUMBER@, seq![x]),
        None => lemma_without_key(e1, KEY_TRACK_NUMBER@),
    }
    assert(lookup(e1, KEY_TRACK_TOTAL@) is None);
    assert(lookup(e2, KEY_TRACK_TOTAL@) == lookup(e1, KEY_TRACK_TOTAL@));
    assert(first_value(e2, KEY_TRACK_TOTAL@) is None);
    match primitive_track(m1) {
        Some(t) => {
            lemma_decimal_is_clean(t);
            match first_value(e1, KEY_TRACK_NUMBER@) {
                Some(v) => lemma_text_pair_clean(v),
                None => {},
            }
            let h = track_number_text(m1)->Some_0;
            lemma_half_alone_has_no_second(h);
        },
        None => {
            assert(number_pair_at(e2, KEY_TRACK_NUMBER@) == (None::<u32>, None::<u32>));
        },
    }
}

/// After the track number is removed, neither the primitive field nor the
/// `TRACKNUMBER` pair holds a track number.
pub proof fn lemma_remove_track_number_clears_number(m: FileModel)
    ensures
        primitive_track(after_remove_track_number(m)) is None,
        number_pair_at(after_remove_track_number(m).properties, KEY_TRACK_NUMBER@).0 is None,
        text_pair_at(after_remove_track_number(m).properties, KEY_TRACK_NUMBER@).0 is None,
        track_number_text(after_remove_track_number(m)) is None,
{
    let e = m.properties;
    let text = join_pair(None, track_total_text_in(e));
    lemma_store_pair_settles(e, KEY_TRACK_NUMBER@, text);
    match track_total_text_in(e) {
        Some(h) => lemma_half_after_slash_has_no_first(h),
        None => {},
    }
}

/// An audio file's meta-data: its primitive tag fields, its audio
/// properties and its property map.
pub struct File {
    tag: Option<Tag>,
    audio: Option<AudioProperties>,
    properties: PropertyMap,
}

impl View for File {
    type V = FileModel;

    closed spec fn view(&self) -> FileModel {
        FileModel {
            tag: match self.tag {
                Some(t) => Some(t@),
                None => None,
            },
            audio: match self.audio {
                Some(a) => Some(a@),
                None => None,
            },
            properties: self.properties@,
        }
    }
}

impl File {
    /// A file with an empty tag, no audio properties and no properties.
    pub fn new() -> (r: File)
        ensures
            r@.tag == Some(empty_tag()),
            r@.audio is None,
            r@.properties == Seq::<(Seq<char>, Seq<Seq<char>>)>::empty(),
    {
        File { tag: Some(Tag::new()), audio: None, properties: PropertyMap::new() }
    }

    /// A file with the given tag and audio properties and no properties.
    pub fn from_parts(tag: Option<Tag>, audio: Option<AudioProperties>) -> (r: File)
        ensures
            r@.tag == (match tag {
                Some(t) => Some(t@),
                None => None,
            }),
            r@.audio == (match audio {
                Some(a) => Some(a@),
                None => None::<AudioModel>,
            }),
            r@.properties == Seq::<(Seq<char>, Seq<Seq<char>>)>::empty(),
    {
        File { tag, audio, properties: PropertyMap::new() }
    }

    /// Returns the tag of the file.
    pub fn tag(&self) -> (r: Result<&Tag, FileError>)
        ensures
            match r {
                Ok(t) => self@.tag == Some(t@),
                Err(e) => self@.tag is None && e == FileError::NoAvailableTag,
            },
    {
        match &self.tag {
            Some(t) => Ok(t),
            None => Err(FileError::NoAvailableTag),
        }
    }

    /// Returns the tag of the file for changing its fields.
    pub fn tag_mut(&mut self) -> (r: Result<&mut Tag, FileError>)
        ensures
            old(self)@.tag is None ==> r is Err && r->Err_0 == FileError::NoAvailableTag
                && final(self)@ == old(self)@,
            old(self)@.tag is Some ==> r is Ok && (*r->Ok_0)@ == old(self)@.tag->Some_0
                && final(self)@ == (FileModel { tag: Some((*final(r->Ok_0))@), ..old(self)@ }),
    {
        match &mut self.tag {
            Some(t) => Ok(t),
            None => Err(FileError::NoAvailableTag),
        }
    }

    /// Returns the audio properties of the file.
    pub fn audioproperties(&self) -> (r: Result<AudioProperties, FileError>)
        ensures
            match r {
                Ok(a) => self@.audio == Some(a@),
                Err(e) => self@.audio is None && e == FileError::NoAvailableAudioProperties,
            },
    {
        match self.audio {
            Some(a) => Ok(a),
            None => Err(FileError::NoAvailableAudioProperties),
        }
    }

    /// The first value of the property `key`, if any.
    pub fn get_first_property(&self, key: &str) -> (r: Option<String>)
        ensures
            opt_view(r) == first_value(self@.properties, key@),
    {
        self.properties.first(key)
    }

    /// All values of the property `key`, in order; empty when it is unset.
    pub fn get_property(&self, key: &str) -> (r: Vec<String>)
        ensures
            r@.map_values(|v: String| v@) == match lookup(self@.properties, key@) {
                Some(values) => values,
                None => Seq::empty(),
            },
    {
        self.properties.get(key)
    }

    /// The property keys, in the order in which they were first stored.
    pub fn keys(&self) -> (r: Vec<String>)
        ensures
            r@.map_values(|v: String| v@) == self@.properties.map_values(
                |p: (Seq<char>, Seq<Seq<char>>)| p.0,
            ),
    {
        self.properties.keys()
    }

    /// Replaces the values of the property `key` by `value`.
    pub fn set_property(&mut self, key: &str, value: &str)
        ensures
            final(self)@ == (FileModel {
                properties: with_values(old(self)@.properties, key@, seq![value@]),
                ..old(self)@
            }),
    {
        self.properties.set(key, value);
    }

    /// Adds `value` after the values of the property `key`.
    pub fn set_append_property(&mut self, key: &str, value: &str)
        ensures
            final(self)@ == (FileModel {
                properties: with_appended(old(self)@.properties, key@, value@),
                ..old(self)@
            }),
    {
        self.properties.append(key, value);
    }

    /// Removes the property `key` with all its values.
    pub fn remove_property(&mut self, key: &str)
        ensures
            final(self)@ == (FileModel {
                properties: without_key(old(self)@.properties, key@),
                ..old(self)@
            }),
    {
        self.properties.remove(key);
    }
    /// Returns the album artist, if any.
    pub fn album_artist(&self) -> (r: Option<String>)
        ensures
            opt_view(r) == first_value(self@.properties, KEY_ALBUM_ARTIST@),
    {
        self.get_first_property(KEY_ALBUM_ARTIST)
    }

    /// Sets the album artist.
    pub fn set_album_artist(&mut self, value: &str)
        ensures
            final(self)@ == (FileModel {
                properties: with_values(old(self)@.properties, KEY_ALBUM_ARTIST@, seq![value@]),
                ..old(self)@
            }),
    {
        self.set_property(KEY_ALBUM_ARTIST, value);
    }

    /// Removes the album artist.
    pub fn remove_album_artist(&mut self)
        ensures
            final(self)@ == (FileModel {
                properties: without_key(old(self)@.properties, KEY_ALBUM_ARTIST@),
                ..old(self)@
            }),
    {
        self.remove_property(KEY_ALBUM_ARTIST);
    }

    /// Returns the composer, if any.
    pub fn composer(&self) -> (r: Option<String>)
        ensures
            opt_view(r) == first_value(self@.properties, KEY_COMPOSER@),
    {
        self.get_first_property(KEY_COMPOSER)
    }

    /// Sets the composer.
    pub fn set_composer(&mut self, value: &str)
        ensures
            final(self)@ == (FileModel {
                properties: with_values(old(self)@.properties, KEY_COMPOSER@, seq![value@]),
                ..old(self)@
            }),
    {
        self.set_property(KEY_COMPOSER, value);
    }

    /// Removes the composer.
    pub fn remove_composer(&mut self)
        ensures
            final(self)@ == (FileModel {
                properties: without_key(old(self)@.properties, KEY_COMPOSER@),
                ..old(self)@
            }),
    {
        self.remove_property(KEY_COMPOSER);
    }

    /// Returns the copyright notice, if any.
    pub fn copyright(&self) -> (r: Option<String>)
        ensures
            opt_view(r) == first_value(self@.properties, KEY_COPYRIGHT@),
    {
        self.get_first_property(KEY_COPYRIGHT)
    }

    /// Sets the copyright notice.
    pub fn set_copyright(&mut self, value: &str)
        ensures
            final(self)@ == (FileModel {
                properties: with_values(old(self)@.properties, KEY_COPYRIGHT@, seq![value@]),
                ..old(self)@
            }),
    {
        self.set_property(KEY_COPYRIGHT, value);
    }

    /// Removes the copyright notice.
    pub fn remove_copyright(&mut self)
        ensures
            final(self)@ == (FileModel {
                properties: without_key(old(self)@.properties, KEY_COPYRIGHT@),
                ..old(self)@
            }),
    {
        self.remove_property(KEY_COPYRIGHT);
    }

    /// Returns the lyrics, if any.
    pub fn lyrics(&self) -> (r: Option<String>)
        ensures
            opt_view(r) == first_value(self@.properties, KEY_LYRICS@),
    {
        self.get_first_property(KEY_LYRICS)
    }

    /// Sets the lyrics.
    pub fn set_lyrics(&mut self, value: &str)
        ensures
            final(self)@ == (FileModel {
                properties: with_values(old(self)@.properties, KEY_LYRICS@, seq![value@]),
                ..old(self)@
            }),
    {
        self.set_property(KEY_LYRICS, value);
    }

    /// Removes the lyrics.
    pub fn remove_lyrics(&mut self)
        ensures
            final(self)@ == (FileModel {
                properties: without_key(old(self)@.properties, KEY_LYRICS@),
                ..old(self)@
            }),
    {
        self.remove_property(KEY_LYRICS);
    }

    /// Returns the date, if any.
    pub fn date(&self) -> (r: Option<String>)
        ensures
            opt_view(r) == first_value(self@.properties, KEY_DATE@),
    {
        self.get_first_property(KEY_DATE)
    }

    /// Sets the date.
    pub fn set_date(&mut self, value: &str)
        ensures
            final(self)@ == (FileModel {
                properties: with_values(old(self)@.properties, KEY_DATE@, seq![value@]),
                ..old(self)@
            }),
    {
        self.set_property(KEY_DATE, value);
    }

    /// Removes the date.
    pub fn remove_date(&mut self)
        ensures
            final(self)@ == (FileModel {
                properties: without_key(old(self)@.properties, KEY_DATE@),
                ..old(self)@
            }),
    {
        self.remove_property(KEY_DATE);
    }

    fn set_primitive_track(&mut self, value: u32)
        ensures
            final(self)@ == (FileModel { tag: tag_with_track(old(self)@, value), ..old(self)@ }),
    {
        match &mut self.tag {
            Some(t) => t.set_track(value),
            None => {},
        }
    }

    /// Stores the text of a textual pair under `key`, or removes `key` when
    /// both halves are absent.
    fn set_property_split_text(&mut self, key: &str, first: &Option<String>, last: &Option<String>)
        ensures
            final(self)@ == (FileModel {
                properties: store_pair(
                    old(self)@.properties,
                    key@,
                    join_pair(opt_view(*first), opt_view(*last)),
                ),
                ..old(self)@
            }),
    {
        match text_pair_to_string(first, last) {
            Some(value) => self.set_property(key, value.as_str()),
            None => self.remove_property(key),
        }
    }

    /// Stores the text of a numeric pair under `key`, or removes `key` when
    /// both halves are absent.
    fn set_property_split_num(
        &mut self,
        key: &str,
        first: &Option<u32>,
        last: &Option<u32>,
        padding: usize,
    )
        ensures
            final(self)@ == (FileModel {
                properties: store_pair(
                    old(self)@.properties,
                    key@,
                    encode_number_pair(*first, *last, padding as nat),
                ),
                ..old(self)@
            }),
    {
        match num_pair_to_string(first, last, padding) {
            Some(value) => self.set_property(key, value.as_str()),
            None => self.remove_property(key),
        }
    }

    fn number_pair_by_key(&self, key: &str) -> (r: (Option<u32>, Option<u32>))
        ensures
            r == number_pair_at(self@.properties, key@),
    {
        match self.get_first_property(key) {
            Some(text) => get_number_pair(text.as_str()),
            None => (None, None),
        }
    }

    fn text_pair_by_key(&self, key: &str) -> (r: (Option<String>, Option<String>))
        ensures
            (opt_view(r.0), opt_view(r.1)) == text_pair_at(self@.properties, key@),
    {
        match self.get_first_property(key) {
            Some(text) => get_text_pair(text.as_str()),
            None => (None, None),
        }
    }

    /// Returns the track number held by the primitive field.
    pub fn track_number(&self) -> (r: Option<u32>)
        ensures
            r == primitive_track(self@),
    {
        match &self.tag {
            Some(t) => t.track(),
            None => None,
        }
    }

    fn track_number_string_from_prop(&self) -> (r: Option<String>)
        ensures
            opt_view(r) == text_pair_at(self@.properties, KEY_TRACK_NUMBER@).0,
    {
        let (track_number, _) = self.text_pair_by_key(KEY_TRACK_NUMBER);
        track_number
    }

    fn track_total_from_prop_track_number(&self) -> (r: Option<u32>)
        ensures
            r == number_pair_at(self@.properties, KEY_TRACK_NUMBER@).1,
    {
        let (_, track_total) = self.number_pair_by_key(KEY_TRACK_NUMBER);
        track_total
    }

    fn track_total_string_from_prop_track_number(&self) -> (r: Option<String>)
        ensures
            opt_view(r) == text_pair_at(self@.properties, KEY_TRACK_NUMBER@).1,
    {
        let (_, track_total) = self.text_pair_by_key(KEY_TRACK_NUMBER);
        track_total
    }

    /// Returns the track number as text. The primitive field decides whether
    /// there is one; when the first half of the `TRACKNUMBER` pair denotes the
    /// same number, its text (with its padding, as in "03") is returned, else
    /// the plain decimal text of the field.
    pub fn track_number_string(&self) -> (r: Option<String>)
        ensures
            opt_view(r) == track_number_text(self@),
    {
        if let Some(track) = self.track_number() {
            if let Some(track_string_from_prop) = self.track_number_string_from_prop() {
                if let Some(track_from_prop) = parse_decimal(track_string_from_prop.as_str()) {
                    if track_from_prop == track {
                        return Some(track_string_from_prop);
                    }
                }
            }
            return Some(decimal_to_padding_string(track, 0));
        }
        None
    }

    /// Sets the primitive track field to `value` and rewrites the
    /// `TRACKNUMBER` pair as `value` over the current track total, each half
    /// padded to `padding` digits. A `TRACKTOTAL` key is left as it is.
    pub fn set_track_number(&mut self, value: u32, padding: usize)
        ensures
            final(self)@ == after_set_track_number(old(self)@, value, padding as nat),
    {
        self.set_primitive_track(value);
        let track_total = self.track_total();
        self.set_property_split_num(KEY_TRACK_NUMBER, &Some(value), &track_total, padding);
    }

    /// Clears the primitive track field and rewrites the `TRACKNUMBER` pair
    /// with the track total alone ("/12"), removing the key when there is no
    /// total either.
    pub fn remove_track_number(&mut self)
        ensures
            final(self)@ == after_remove_track_number(old(self)@),
    {
        self.set_primitive_track(0);
        let track_total = self.track_total_string();
        self.set_property_split_text(KEY_TRACK_NUMBER, &None, &track_total);
    }

    /// Returns the track total: the `TRACKTOTAL` value when it is a number,
    /// else the second half of the `TRACKNUMBER` pair.
    pub fn track_total(&self) -> (r: Option<u32>)
        ensures
            r == track_total_in(self@.properties),
    {
        if let Some(track_total_string) = self.get_first_property(KEY_TRACK_TOTAL) {
            let track_total = parse_decimal(track_total_string.as_str());
            if track_total.is_some() {
                return track_total;
            }
        }
        self.track_total_from_prop_track_number()
    }

    /// Returns the track total as text: the `TRACKTOTAL` value when the key
    /// has one, else the second half of the `TRACKNUMBER` pair.
    pub fn track_total_string(&self) -> (r: Option<String>)
        ensures
            opt_view(r) == track_total_text_in(self@.properties),
    {
        let track_total = self.get_first_property(KEY_TRACK_TOTAL);
        if track_total.is_some() {
            track_total
        } else {
            self.track_total_string_from_prop_track_number()
        }
    }

    /// Stores `value` under `TRACKTOTAL` and rewrites the `TRACKNUMBER` pair as
    /// the primitive track number over `value`, padded to `padding` digits.
    pub fn set_track_total(&mut self, value: u32, padding: usize)
        ensures
            final(self)@ == after_set_track_total(old(self)@, value, padding as nat),
    {
        let total = decimal_to_padding_string(value, padding);
        self.set_property(KEY_TRACK_TOTAL, total.as_str());
        let track_number = self.track_number();
        self.set_property_split_num(KEY_TRACK_NUMBER, &track_number, &Some(value), padding);
    }

    /// Removes `TRACKTOTAL` and rewrites the `TRACKNUMBER` pair with the track
    /// number alone ("03"), removing the key when there is no number either.
    pub fn remove_track_total(&mut self)
        ensures
            final(self)@ == after_remove_track_total(old(self)@),
    {
        self.remove_property(KEY_TRACK_TOTAL);
        let track_number = self.track_number_string();
        self.set_property_split_text(KEY_TRACK_NUMBER, &track_number, &None);
    }

    /// Returns the disc number: the first half of the `DISCNUMBER` pair.
    pub fn disc_number(&self) -> (r: Option<u32>)
        ensures
            r == number_pair_at(self@.properties, KEY_DISC_NUMBER@).0,
    {
        let (disc_number, _) = self.number_pair_by_key(KEY_DISC_NUMBER);
        disc_number
    }

    /// Returns the disc number as stored, trimmed.
    pub fn disc_number_string(&self) -> (r: Option<String>)
        ensures
            opt_view(r) == text_pair_at(self@.properties, KEY_DISC_NUMBER@).0,
    {
        let (disc_number, _) = self.text_pair_by_key(KEY_DISC_NUMBER);
        disc_number
    }

    /// Rewrites the `DISCNUMBER` pair as `value` over the current disc total.
    pub fn set_disc_number(&mut self, value: u32, padding: usize)
        ensures
            final(self)@ == after_set_disc_number(old(self)@, value, padding as nat),
    {
        let disc_total = self.disc_total();
        self.set_property_split_num(KEY_DISC_NUMBER, &Some(value), &disc_total, padding);
    }

    /// Rewrites the `DISCNUMBER` pair with the disc total alone, removing the
    /// key when there is no total either.
    pub fn remove_disc_number(&mut self)
        ensures
            final(self)@ == after_remove_disc_number(old(self)@),
    {
        let (_, disc_total) = self.text_pair_by_key(KEY_DISC_NUMBER);
        self.set_property_split_text(KEY_DISC_NUMBER, &None, &disc_total);
    }

    /// Returns the disc total: the second half of the `DISCNUMBER` pair.
    pub fn disc_total(&self) -> (r: Option<u32>)
        ensures
            r == number_pair_at(self@.properties, KEY_DISC_NUMBER@).1,
    {
        let (_, disc_total) = self.number_pair_by_key(KEY_DISC_NUMBER);
        disc_total
    }

    /// Returns the disc total as stored, trimmed.
    pub fn disc_total_string(&self) -> (r: Option<String>)
        ensures
            opt_view(r) == text_pair_at(self@.properties, KEY_DISC_NUMBER@).1,
    {
        let (_, disc_total) = self.text_pair_by_key(KEY_DISC_NUMBER);
        disc_total
    }

    /// Rewrites the `DISCNUMBER` pair as the current disc number over `total_disc`.
    pub fn set_disc_total(&mut self, total_disc: u32, padding: usize)
        ensures
            final(self)@ == after_set_disc_total(old(self)@, total_disc, padding as nat),
    {
        let disc_number = self.disc_number();
        self.set_property_split_num(KEY_DISC_NUMBER, &disc_number, &Some(total_disc), padding);
    }

    /// Rewrites the `DISCNUMBER` pair with the disc number alone, removing the
    /// key when there is no number either.
    pub fn remove_disc_total(&mut self)
        ensures
            final(self)@ == after_remove_disc_total(old(self)@),
    {
        let (disc_number, _) = self.text_pair_by_key(KEY_DISC_NUMBER);
        self.set_property_split_text(KEY_DISC_NUMBER, &disc_number, &None);
    }
}

} // verus!
