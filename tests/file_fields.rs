use taglib::{
    AudioProperties, File, FileError, PropertyMap, Tag, KEY_DISC_NUMBER, KEY_TRACK_NUMBER,
    KEY_TRACK_TOTAL,
};

fn first(file: &File, key: &str) -> Option<String> {
    file.get_first_property(key)
}

#[test]
fn set_track_number_on_a_fresh_file() {
    let mut file = File::new();
    file.set_track_number(3, 2);
    assert_eq!(first(&file, KEY_TRACK_NUMBER), Some("03".to_owned()));
    assert_eq!(file.track_total(), None);
    assert_eq!(file.track_number(), Some(3));
    assert_eq!(file.tag().unwrap().track(), Some(3));
    assert_eq!(file.track_number_string(), Some("03".to_owned()));
    assert_eq!(first(&file, KEY_TRACK_TOTAL), None);
}

#[test]
fn set_track_total_after_track_number() {
    let mut file = File::new();
    file.set_track_number(3, 2);
    file.set_track_total(12, 2);
    assert_eq!(first(&file, KEY_TRACK_TOTAL), Some("12".to_owned()));
    assert_eq!(first(&file, KEY_TRACK_NUMBER), Some("03/12".to_owned()));
    assert_eq!(file.track_total(), Some(12));
    assert_eq!(file.track_total_string(), Some("12".to_owned()));
}

#[test]
fn remove_track_total_leaves_number_alone() {
    let mut file = File::new();
    file.set_track_number(3, 2);
    file.set_track_total(12, 2);
    file.remove_track_total();
    assert_eq!(first(&file, KEY_TRACK_TOTAL), None);
    assert!(file.get_property(KEY_TRACK_TOTAL).is_empty());
    assert_eq!(first(&file, KEY_TRACK_NUMBER), Some("03".to_owned()));
    assert_eq!(file.track_total(), None);
}

#[test]
fn remove_track_number_keeps_total() {
    let mut file = File::new();
    file.set_track_number(3, 2);
    file.set_property(KEY_TRACK_NUMBER, "03/12");
    file.remove_track_number();
    assert_eq!(file.track_number(), None);
    assert_eq!(file.tag().unwrap().track(), None);
    assert_eq!(first(&file, KEY_TRACK_NUMBER), Some("/12".to_owned()));
    assert_eq!(file.track_total(), Some(12));
}

#[test]
fn remove_track_number_without_total_removes_key() {
    let mut file = File::new();
    file.set_track_number(5, 0);
    file.remove_track_number();
    assert_eq!(first(&file, KEY_TRACK_NUMBER), None);
    assert!(file.keys().is_empty());
}

#[test]
fn remove_disc_number_twice_is_the_same_as_once() {
    let mut once = File::new();
    once.set_property(KEY_DISC_NUMBER, " 1 / 2 ");
    let mut twice = File::new();
    twice.set_property(KEY_DISC_NUMBER, " 1 / 2 ");
    once.remove_disc_number();
    twice.remove_disc_number();
    twice.remove_disc_number();
    assert_eq!(first(&once, KEY_DISC_NUMBER), Some("/2".to_owned()));
    assert_eq!(once.keys(), twice.keys());
    assert_eq!(once.get_property(KEY_DISC_NUMBER), twice.get_property(KEY_DISC_NUMBER));

    let mut gone = File::new();
    gone.set_property(KEY_DISC_NUMBER, "4");
    gone.remove_disc_number();
    assert!(gone.keys().is_empty());
    gone.remove_disc_number();
    assert!(gone.keys().is_empty());
}

#[test]
fn disc_halves_are_kept_by_writes() {
    let mut file = File::new();
    file.set_disc_total(3, 2);
    assert_eq!(first(&file, KEY_DISC_NUMBER), Some("/03".to_owned()));
    assert_eq!(file.disc_number(), None);
    file.set_disc_number(1, 2);
    assert_eq!(first(&file, KEY_DISC_NUMBER), Some("01/03".to_owned()));
    assert_eq!(file.disc_number(), Some(1));
    assert_eq!(file.disc_total(), Some(3));
    assert_eq!(file.disc_number_string(), Some("01".to_owned()));
    assert_eq!(file.disc_total_string(), Some("03".to_owned()));
    file.remove_disc_total();
    assert_eq!(first(&file, KEY_DISC_NUMBER), Some("01".to_owned()));
    file.remove_disc_number();
    assert_eq!(first(&file, KEY_DISC_NUMBER), None);
}

#[test]
fn track_number_string_keeps_matching_padding_only() {
    let mut file = File::new();
    file.tag_mut().unwrap().set_track(3);
    file.set_property(KEY_TRACK_NUMBER, "003/10");
    assert_eq!(file.track_number_string(), Some("003".to_owned()));
    file.set_property(KEY_TRACK_NUMBER, "04/10");
    assert_eq!(file.track_number_string(), Some("3".to_owned()));
    file.tag_mut().unwrap().set_track(0);
    assert_eq!(file.track_number_string(), None);
}

#[test]
fn track_total_prefers_a_numeric_total_key() {
    let mut file = File::new();
    file.set_property(KEY_TRACK_NUMBER, "2/9");
    assert_eq!(file.track_total(), Some(9));
    file.set_property(KEY_TRACK_TOTAL, "11");
    assert_eq!(file.track_total(), Some(11));
    file.set_property(KEY_TRACK_TOTAL, "eleven");
    assert_eq!(file.track_total(), Some(9));
    assert_eq!(file.track_total_string(), Some("eleven".to_owned()));
}

#[test]
fn set_track_number_keeps_total_and_total_key() {
    let mut file = File::new();
    file.set_property(KEY_TRACK_TOTAL, "7");
    file.set_property(KEY_TRACK_NUMBER, "1/9");
    file.set_track_number(2, 2);
    assert_eq!(first(&file, KEY_TRACK_NUMBER), Some("02/07".to_owned()));
    assert_eq!(first(&file, KEY_TRACK_TOTAL), Some("7".to_owned()));
    assert_eq!(file.track_total(), Some(7));
}

#[test]
fn file_without_tag() {
    let mut file = File::from_parts(None, None);
    assert_eq!(file.tag().err(), Some(FileError::NoAvailableTag));
    assert!(file.tag_mut().is_err());
    assert_eq!(file.audioproperties().err(), Some(FileError::NoAvailableAudioProperties));
    file.set_track_number(4, 1);
    assert_eq!(file.track_number(), None);
    assert_eq!(first(&file, KEY_TRACK_NUMBER), Some("4".to_owned()));
    file.set_track_total(9, 1);
    assert_eq!(first(&file, KEY_TRACK_NUMBER), Some("/9".to_owned()));
}

#[test]
fn audio_properties_are_reported() {
    let file = File::from_parts(Some(Tag::new()), Some(AudioProperties::new(185, 320, 44100, 2)));
    let audio = file.audioproperties().unwrap();
    assert_eq!(audio.length(), 185);
    assert_eq!(audio.bitrate(), 320);
    assert_eq!(audio.samplerate(), 44100);
    assert_eq!(audio.channels(), 2);
}

#[test]
fn tag_fields() {
    let mut tag = Tag::new();
    assert_eq!(tag.title(), None);
    assert_eq!(tag.year(), None);
    tag.set_title("Song");
    tag.set_artist("Artist");
    tag.set_album("Album");
    tag.set_comment("Comment");
    tag.set_genre("Genre");
    tag.set_year(1999);
    tag.set_track(4);
    assert_eq!(tag.title(), Some("Song".to_owned()));
    assert_eq!(tag.artist(), Some("Artist".to_owned()));
    assert_eq!(tag.album(), Some("Album".to_owned()));
    assert_eq!(tag.comment(), Some("Comment".to_owned()));
    assert_eq!(tag.genre(), Some("Genre".to_owned()));
    assert_eq!(tag.year(), Some(1999));
    assert_eq!(tag.track(), Some(4));
    tag.set_artist("");
    assert_eq!(tag.artist(), None);
}

#[test]
fn named_properties() {
    let mut file = File::new();
    file.set_album_artist("Band");
    file.set_composer("Writer");
    file.set_copyright("2001");
    file.set_lyrics("la la");
    file.set_date("2001-02-03");
    assert_eq!(file.album_artist(), Some("Band".to_owned()));
    assert_eq!(file.composer(), Some("Writer".to_owned()));
    assert_eq!(file.copyright(), Some("2001".to_owned()));
    assert_eq!(file.lyrics(), Some("la la".to_owned()));
    assert_eq!(file.date(), Some("2001-02-03".to_owned()));
    assert_eq!(
        file.keys(),
        vec!["ALBUMARTIST", "COMPOSER", "COPYRIGHT", "LYRICS", "DATE"]
    );
    file.remove_album_artist();
    file.remove_composer();
    file.remove_copyright();
    file.remove_lyrics();
    file.remove_date();
    assert!(file.keys().is_empty());
}

#[test]
fn property_map_operations() {
    let mut map = PropertyMap::new();
    map.set("GENRE", "Rock");
    map.append("GENRE", "Pop");
    map.append("ARTIST", "A");
    assert_eq!(map.get("GENRE"), vec!["Rock".to_owned(), "Pop".to_owned()]);
    assert_eq!(map.first("GENRE"), Some("Rock".to_owned()));
    assert_eq!(map.keys(), vec!["GENRE".to_owned(), "ARTIST".to_owned()]);
    assert_eq!(map.get("genre"), Vec::<String>::new());
    map.set("GENRE", "Jazz");
    assert_eq!(map.get("GENRE"), vec!["Jazz".to_owned()]);
    assert_eq!(map.keys(), vec!["GENRE".to_owned(), "ARTIST".to_owned()]);
    map.remove("GENRE");
    assert_eq!(map.first("GENRE"), None);
    assert_eq!(map.keys(), vec!["ARTIST".to_owned()]);
    map.remove("MISSING");
    assert_eq!(map.keys(), vec!["ARTIST".to_owned()]);
}

#[test]
fn file_append_property() {
    let mut file = File::new();
    file.set_append_property("PERFORMER", "One");
    file.set_append_property("PERFORMER", "Two");
    assert_eq!(file.get_property("PERFORMER"), vec!["One".to_owned(), "Two".to_owned()]);
    file.remove_property("PERFORMER");
    assert!(file.get_property("PERFORMER").is_empty());
}
