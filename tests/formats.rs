use taglib::{acp_encode, FileType};

#[test]
fn file_type_names_and_suffixes() {
    assert_eq!(FileType::MPEG.name(), "MPEG");
    assert_eq!(FileType::DFF.name(), "DFF");
    assert_eq!(FileType::MPEG.suffix(), vec![".mp3", ".aac"]);
    assert_eq!(FileType::OggFlac.suffix(), vec![".flac", ".oga"]);
    assert_eq!(FileType::DSF.suffix(), vec![".dsf"]);
    assert_eq!(FileType::DFF.suffix(), vec![".dff"]);
}

#[test]
fn all_suffixes_cover_every_type_once() {
    let all = FileType::all_suffix();
    assert_eq!(all.len(), 30);
    let types = [
        FileType::MPEG,
        FileType::OggVorbis,
        FileType::FLAC,
        FileType::MPC,
        FileType::OggFlac,
        FileType::WavPack,
        FileType::Speex,
        FileType::TrueAudio,
        FileType::MP4,
        FileType::ASF,
        FileType::AIFF,
        FileType::WAV,
        FileType::APE,
        FileType::IT,
        FileType::MOD,
        FileType::S3M,
        FileType::XM,
        FileType::OPUS,
        FileType::DSF,
        FileType::DFF,
    ];
    for t in types.iter() {
        for s in t.suffix() {
            assert!(all.contains(&s));
        }
    }
    for (i, a) in all.iter().enumerate() {
        for b in all.iter().skip(i + 1) {
            assert_ne!(a, b);
        }
    }
}

#[test]
fn acp_encode_ascii_and_unsupported() {
    assert_eq!(acp_encode(1252, "song.mp3"), Some(b"song.mp3".to_vec()));
    assert_eq!(acp_encode(1, "song.mp3"), None);
}

#[test]
fn acp_encode_uses_the_code_page() {
    assert_eq!(acp_encode(1252, "caf\u{e9}"), Some(vec![0x63, 0x61, 0x66, 0xE9]));
    assert_eq!(acp_encode(65001, "caf\u{e9}"), Some(vec![0x63, 0x61, 0x66, 0xC3, 0xA9]));
    assert_eq!(acp_encode(1252, "\u{65e5}\u{672c}"), None);
}
