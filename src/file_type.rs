//! The audio container formats and the file-name suffixes of each.

use vstd::prelude::*;

verus! {

/// An audio container format.
#[derive(Clone, Copy, Debug, PartialEq, Eq, Structural)]
pub enum FileType {
    /// MPEG file
    MPEG,
    /// Ogg/Vorbis file
    OggVorbis,
    /// FLAC file
    FLAC,
    /// MPC file
    MPC,
    /// Ogg/FLAC file
    OggFlac,
    /// WavPack file
    WavPack,
    /// Ogg/Speex file
    Speex,
    /// TrueAudio file
    TrueAudio,
    /// MP4 file
    MP4,
    /// ASF file
    ASF,
    /// AIFF file
    AIFF,
    /// WAV file
    WAV,
    /// APE file
    APE,
    /// IT file
    IT,
    /// MOD file
    MOD,
    /// S3M file
    S3M,
    /// XM file
    XM,
    /// OPUS file
    OPUS,
    /// DSF file
    DSF,
    /// DSDIFF file
    DFF,
}

/// The name of a file type.
pub open spec fn file_type_name(t: FileType) -> Seq<char> {
    match t {
        FileType::MPEG => "MPEG"@,
        FileType::OggVorbis => "OggVorbis"@,
        FileType::FLAC => "FLAC"@,
        FileType::MPC => "MPC"@,
        FileType::OggFlac => "OggFlac"@,
        FileType::WavPack => "WavPack"@,
        FileType::Speex => "Speex"@,
        FileType::TrueAudio => "TrueAudio"@,
        FileType::MP4 => "MP4"@,
        FileType::ASF => "ASF"@,
        FileType::AIFF => "AIFF"@,
        FileType::WAV => "WAV"@,
        FileType::APE => "APE"@,
        FileType::IT => "IT"@,
        FileType::MOD => "MOD"@,
        FileType::S3M => "S3M"@,
        FileType::XM => "XM"@,
        FileType::OPUS => "OPUS"@,
        FileType::DSF => "DSF"@,
        FileType::DFF => "DFF"@,
    }
}

/// The file-name suffixes of a file type.
pub open spec fn file_type_suffixes(t: FileType) -> Seq<Seq<char>> {
    match t {
        FileType::MPEG => seq![".mp3"@, ".aac"@],
        FileType::OggVorbis => seq![".ogg"@],
        FileType::FLAC => seq![".flac"@],
        FileType::MPC => seq![".mpc"@],
        FileType::OggFlac => seq![".flac"@, ".oga"@],
        FileType::WavPack => seq![".wv"@],
        FileType::Speex => seq![".spx"@],
        FileType::TrueAudio => seq![".tta"@],
        FileType::MP4 => seq![".mp4"@, ".m4a"@, "m4b"@, "m4p"@, "m4v"@, "isom"@, "3g2"@],
        FileType::ASF => seq![".asf"@, ".wma"@],
        FileType::AIFF => seq![".aif"@, ".aiff"@, ".aifc"@],
        FileType::WAV => seq![".wav"@],
        FileType::APE => seq![".ape"@],
        FileType::IT => seq![".it"@],
        FileType::MOD => seq![".mod"@],
        FileType::S3M => seq![".s3m"@],
        FileType::XM => seq![".xm"@],
        FileType::OPUS => seq![".opus"@],
        FileType::DSF => seq![".dsf"@],
        FileType::DFF => seq![".dff"@],
    }
}

/// Every suffix of every file type, each once.
pub open spec fn all_suffixes() -> Seq<Seq<char>> {
    seq![
        ".mp3"@, ".aac"@, ".ogg"@, ".flac"@, ".mpc"@, ".oga"@,
        ".wv"@, ".spx"@, ".tta"@, ".mp4"@, ".m4a"@, "m4b"@,
        "m4p"@, "m4v"@, "isom"@, "3g2"@, ".asf"@, ".wma"@,
        ".aif"@, ".aiff"@, ".aifc"@, ".wav"@, ".ape"@, ".it"@,
        ".mod"@, ".s3m"@, ".xm"@, ".opus"@, ".dsf"@, ".dff"@,
    ]
}

impl FileType {
    /// The name of the file type.
    pub fn name(&self) -> (r: &'static str)
        ensures
            r@ == file_type_name(*self),
    {
        match self {
            FileType::MPEG => "MPEG",
            FileType::OggVorbis => "OggVorbis",
            FileType::FLAC => "FLAC",
            FileType::MPC => "MPC",
            FileType::OggFlac => "OggFlac",
            FileType::WavPack => "WavPack",
            FileType::Speex => "Speex",
            FileType::TrueAudio => "TrueAudio",
            FileType::MP4 => "MP4",
            FileType::ASF => "ASF",
            FileType::AIFF => "AIFF",
            FileType::WAV => "WAV",
            FileType::APE => "APE",
            FileType::IT => "IT",
            FileType::MOD => "MOD",
            FileType::S3M => "S3M",
            FileType::XM => "XM",
            FileType::OPUS => "OPUS",
            FileType::DSF => "DSF",
            FileType::DFF => "DFF",
        }
    }

    /// The file-name suffixes of the file type.
    pub fn suffix(&self) -> (r: Vec<&'static str>)
        ensures
            r@.map_values(|s: &str| s@) == file_type_suffixes(*self),
    {
        let r = match self {
            FileType::MPEG => vec![".mp3", ".aac"],
            FileType::OggVorbis => vec![".ogg"],
            FileType::FLAC => vec![".flac"],
            FileType::MPC => vec![".mpc"],
            FileType::OggFlac => vec![".flac", ".oga"],
            FileType::WavPack => vec![".wv"],
            FileType::Speex => vec![".spx"],
            FileType::TrueAudio => vec![".tta"],
            FileType::MP4 => vec![".mp4", ".m4a", "m4b", "m4p", "m4v", "isom", "3g2"],
            FileType::ASF => vec![".asf", ".wma"],
            FileType::AIFF => vec![".aif", ".aiff", ".aifc"],
            FileType::WAV => vec![".wav"],
            FileType::APE => vec![".ape"],
            FileType::IT => vec![".it"],
            FileType::MOD => vec![".mod"],
            FileType::S3M => vec![".s3m"],
            FileType::XM => vec![".xm"],
            FileType::OPUS => vec![".opus"],
            FileType::DSF => vec![".dsf"],
            FileType::DFF => vec![".dff"],
        };
        assert(r@.map_values(|s: &str| s@) =~= file_type_suffixes(*self));
        r
    }

    /// Every suffix of every file type, each once.
    pub fn all_suffix() -> (r: Vec<&'static str>)
        ensures
            r@.map_values(|s: &str| s@) == all_suffixes(),
    {
        let r = vec![
            ".mp3", ".aac", ".ogg", ".flac", ".mpc", ".oga",
            ".wv", ".spx", ".tta", ".mp4", ".m4a", "m4b",
            "m4p", "m4v", "isom", "3g2", ".asf", ".wma",
            ".aif", ".aiff", ".aifc", ".wav", ".ape", ".it",
            ".mod", ".s3m", ".xm", ".opus", ".dsf", ".dff",
        ];
        assert(r@.map_values(|s: &str| s@) =~= all_suffixes());
        r
    }
}

/// Each suffix of each file type is among all the suffixes.
pub proof fn lemma_all_suffixes_cover(t: FileType, i: int)
    requires
        0 <= i < file_type_suffixes(t).len(),
    ensures
        all_suffixes().contains(file_type_suffixes(t)[i]),
{
    let all = all_suffixes();
    let x = file_type_suffixes(t)[i];
    let k: int = if t == FileType::MPEG && i == 0 {
        0
    } else if t == FileType::MPEG && i == 1 {
        1
    } else if t == FileType::OggVorbis && i == 0 {
        2
    } else if t == FileType::FLAC && i == 0 {
        3
    } else if t == FileType::MPC && i == 0 {
        4
    } else if t == FileType::OggFlac && i == 0 {
        3
    } else if t == FileType::OggFlac && i == 1 {
        5
    } else if t == FileType::WavPack && i == 0 {
        6
    } else if t == FileType::Speex && i == 0 {
        7
    } else if t == FileType::TrueAudio && i == 0 {
        8
    } else if t == FileType::MP4 && i == 0 {
        9
    } else if t == FileType::MP4 && i == 1 {
        10
    } else if t == FileType::MP4 && i == 2 {
        11
    } else if t == FileType::MP4 && i == 3 {
        12
    } else if t == FileType::MP4 && i == 4 {
        13
    } else if t == FileType::MP4 && i == 5 {
        14
    } else if t == FileType::MP4 && i == 6 {
        15
    } else if t == FileType::ASF && i == 0 {
        16
    } else if t == FileType::ASF && i == 1 {
        17
    } else if t == FileType::AIFF && i == 0 {
        18
    } else if t == FileType::AIFF && i == 1 {
        19
    } else if t == FileType::AIFF && i == 2 {
        20
    } else if t == FileType::WAV && i == 0 {
        21
    } else if t == FileType::APE && i == 0 {
        22
    } else if t == FileType::IT && i == 0 {
        23
    } else if t == FileType::MOD && i == 0 {
        24
    } else if t == FileType::S3M && i == 0 {
        25
    } else if t == FileType::XM && i == 0 {
        26
    } else if t == FileType::OPUS && i == 0 {
        27
    } else if t == FileType::DSF && i == 0 {
        28
    } else if t == FileType::DFF && i == 0 {
        29
    } else {
        0
    };
    assert(all[k] == x);
}

} // verus!
