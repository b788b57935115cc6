use zz::format::{detect_format, ArchiveFormat, FormatClass, FormatType, StreamFormat};

#[test]
fn stream_tokens_are_recognized() {
    assert_eq!(detect_format("gz"), Some(FormatType::Stream(StreamFormat::Gz)));
    assert_eq!(detect_format("lz4"), Some(FormatType::Stream(StreamFormat::Lz4)));
    assert_eq!(detect_format("sz"), Some(FormatType::Stream(StreamFormat::Sz)));
}

#[test]
fn archive_tokens_are_recognized() {
    let expected = [
        ("a", ArchiveFormat::A),
        ("ar", ArchiveFormat::Ar),
        ("tar", ArchiveFormat::Tar),
        ("iso", ArchiveFormat::Iso),
        ("bz2", ArchiveFormat::Bz2),
        ("lzma", ArchiveFormat::Lzma),
        ("xz", ArchiveFormat::Xz),
        ("p7z", ArchiveFormat::P7z),
        ("alz", ArchiveFormat::Alz),
        ("egg", ArchiveFormat::Egg),
        ("apk", ArchiveFormat::Apk),
        ("cab", ArchiveFormat::Cab),
        ("dmg", ArchiveFormat::Dmg),
        ("rar", ArchiveFormat::Rar),
        ("zip", ArchiveFormat::Zip),
    ];
    for (token, format) in expected {
        assert_eq!(detect_format(token), Some(FormatType::Archive(format)));
    }
}

#[test]
fn letter_case_does_not_count() {
    assert_eq!(detect_format("GZ"), Some(FormatType::Stream(StreamFormat::Gz)));
    assert_eq!(detect_format("Lz4"), Some(FormatType::Stream(StreamFormat::Lz4)));
    assert_eq!(detect_format("Tar"), Some(FormatType::Archive(ArchiveFormat::Tar)));
    assert_eq!(detect_format("ZIP"), Some(FormatType::Archive(ArchiveFormat::Zip)));
    assert_eq!(detect_format("P7Z"), Some(FormatType::Archive(ArchiveFormat::P7z)));
}

#[test]
fn other_tokens_are_not_recognized() {
    for token in ["", "7z", "gzip", "tgz", "g z", "gz ", " gz", "txt", "z", "lz", "tar.gz", "ｇｚ"] {
        assert_eq!(detect_format(token), None);
    }
}

#[test]
fn every_name_leads_back_to_its_format() {
    for format in [StreamFormat::Gz, StreamFormat::Lz4, StreamFormat::Sz] {
        assert_eq!(detect_format(format.token()), Some(FormatType::Stream(format)));
    }
    let archives = [
        ArchiveFormat::A,
        ArchiveFormat::Ar,
        ArchiveFormat::Tar,
        ArchiveFormat::Iso,
        ArchiveFormat::Bz2,
        ArchiveFormat::Lzma,
        ArchiveFormat::Xz,
        ArchiveFormat::P7z,
        ArchiveFormat::Alz,
        ArchiveFormat::Egg,
        ArchiveFormat::Apk,
        ArchiveFormat::Cab,
        ArchiveFormat::Dmg,
        ArchiveFormat::Rar,
        ArchiveFormat::Zip,
    ];
    for format in archives {
        assert_eq!(detect_format(format.token()), Some(FormatType::Archive(format)));
    }
}

#[test]
fn no_name_is_shared_between_the_two_kinds() {
    let streams = [StreamFormat::Gz, StreamFormat::Lz4, StreamFormat::Sz];
    let archives = [
        ArchiveFormat::A,
        ArchiveFormat::Ar,
        ArchiveFormat::Tar,
        ArchiveFormat::Iso,
        ArchiveFormat::Bz2,
        ArchiveFormat::Lzma,
        ArchiveFormat::Xz,
        ArchiveFormat::P7z,
        ArchiveFormat::Alz,
        ArchiveFormat::Egg,
        ArchiveFormat::Apk,
        ArchiveFormat::Cab,
        ArchiveFormat::Dmg,
        ArchiveFormat::Rar,
        ArchiveFormat::Zip,
    ];
    for s in streams {
        for a in archives {
            assert_ne!(s.token(), a.token());
        }
    }
}

#[test]
fn class_follows_the_kind() {
    assert_eq!(FormatType::Stream(StreamFormat::Sz).class(), FormatClass::Stream);
    assert_eq!(FormatType::Archive(ArchiveFormat::Cab).class(), FormatClass::Archive);
}

#[test]
fn no_capability_is_offered() {
    assert!(!ArchiveFormat::is_support_streaming());
    assert!(!ArchiveFormat::is_support_seekable_streaming());
    assert!(!ArchiveFormat::is_support_memory());
}
