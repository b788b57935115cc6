use zz::format::StreamFormat;

const HELLO_GZ: [u8; 25] = [
    31, 139, 8, 0, 0, 0, 0, 0, 0, 255, 203, 72, 205, 201, 201, 7, 0, 134, 166, 16, 54, 5, 0, 0, 0,
];

const HELLO_SZ: [u8; 23] = [
    255, 6, 0, 0, 115, 78, 97, 80, 112, 89, 1, 9, 0, 0, 187, 31, 28, 25, 104, 101, 108, 108, 111,
];

const HELLO_LZ4: [u8; 20] = [4, 34, 77, 24, 96, 64, 130, 5, 0, 0, 128, 104, 101, 108, 108, 111, 0, 0, 0, 0];

const FORMATS: [StreamFormat; 3] = [StreamFormat::Gz, StreamFormat::Lz4, StreamFormat::Sz];

fn sample() -> Vec<u8> {
    let mut data: Vec<u8> = Vec::new();
    for i in 0..20000u32 {
        data.push((i % 251) as u8);
        data.push((i / 7 % 13) as u8);
    }
    data
}

#[test]
fn gz_decodes_a_known_stream() {
    assert_eq!(StreamFormat::Gz.decode(&HELLO_GZ), Ok(b"hello".to_vec()));
}

#[test]
fn sz_decodes_a_known_stream() {
    assert_eq!(StreamFormat::Sz.decode(&HELLO_SZ), Ok(b"hello".to_vec()));
}

#[test]
fn lz4_decodes_a_known_stream() {
    assert_eq!(StreamFormat::Lz4.decode(&HELLO_LZ4), Ok(b"hello".to_vec()));
}

#[test]
fn gz_encodes_with_a_reproducible_header() {
    let encoded = StreamFormat::Gz.encode(b"hello").unwrap();
    assert_eq!(&encoded[..4], &[31, 139, 8, 0]);
    assert_eq!(&encoded[4..8], &[0, 0, 0, 0]);
    assert_eq!(encoded[9], 255);
    assert_eq!(&encoded[encoded.len() - 8..], &[134, 166, 16, 54, 5, 0, 0, 0]);
}

#[test]
fn sz_encodes_with_the_stream_identifier() {
    let encoded = StreamFormat::Sz.encode(b"hello").unwrap();
    assert_eq!(&encoded[..10], &HELLO_SZ[..10]);
}

#[test]
fn lz4_encodes_with_the_frame_magic() {
    let encoded = StreamFormat::Lz4.encode(b"hello").unwrap();
    assert_eq!(&encoded[..4], &[4, 34, 77, 24]);
}

#[test]
fn decoding_gives_back_what_was_encoded() {
    let inputs: [Vec<u8>; 4] = [Vec::new(), b"a".to_vec(), b"hello hello hello hello".to_vec(), sample()];
    for format in FORMATS {
        for input in &inputs {
            let encoded = format.encode(input).unwrap();
            assert_eq!(format.decode(&encoded), Ok(input.clone()));
        }
    }
}

#[test]
fn encoding_changes_the_bytes() {
    let input = sample();
    for format in FORMATS {
        let encoded = format.encode(&input).unwrap();
        assert_ne!(encoded, input);
        assert!(encoded.len() < input.len());
    }
}

#[test]
fn encoding_the_same_input_twice_gives_the_same_stream() {
    let input = sample();
    for format in FORMATS {
        assert_eq!(format.encode(&input), format.encode(&input));
    }
}

#[test]
fn a_stream_of_one_format_is_not_one_of_another() {
    let input = sample();
    for made_by in FORMATS {
        let encoded = made_by.encode(&input).unwrap();
        for read_by in FORMATS {
            if read_by != made_by {
                let error = read_by.decode(&encoded).unwrap_err();
                assert_eq!(error.format, read_by);
            }
        }
    }
}

#[test]
fn text_that_is_no_stream_is_refused() {
    for format in FORMATS {
        let error = format.decode(b"this is plainly not a compressed stream").unwrap_err();
        assert_eq!(error.format, format);
        assert!(!error.cause.is_empty());
    }
}

#[test]
fn a_stream_cut_short_is_refused() {
    let input = sample();
    for format in FORMATS {
        let encoded = format.encode(&input).unwrap();
        let cut = &encoded[..encoded.len() / 2];
        assert!(format.decode(cut).is_err());
        let nearly = &encoded[..encoded.len() - 1];
        assert!(format.decode(nearly).is_err());
    }
}

#[test]
fn a_damaged_stream_is_refused() {
    let mut gz = HELLO_GZ.to_vec();
    gz[18] ^= 0x01;
    assert!(StreamFormat::Gz.decode(&gz).is_err());
    let mut sz = HELLO_SZ.to_vec();
    sz[15] ^= 0x01;
    assert!(StreamFormat::Sz.decode(&sz).is_err());
    let mut lz4 = HELLO_LZ4.to_vec();
    lz4[6] ^= 0x01;
    assert!(StreamFormat::Lz4.decode(&lz4).is_err());
}

#[test]
fn nothing_at_all_is_no_gz_or_lz4_stream() {
    assert!(StreamFormat::Gz.decode(&[]).is_err());
    assert!(StreamFormat::Lz4.decode(&[]).is_err());
}

#[test]
fn a_data_chunk_too_short_for_its_checksum_is_refused() {
    for kind in [0u8, 1u8] {
        for len in 0..4u8 {
            let mut stream = HELLO_SZ[..10].to_vec();
            stream.extend_from_slice(&[kind, len, 0, 0]);
            stream.extend_from_slice(&[0; 8]);
            let error = StreamFormat::Sz.decode(&stream).unwrap_err();
            assert_eq!(error.format, StreamFormat::Sz);
            assert_eq!(error.cause, "a data chunk is too short for its checksum");
        }
    }
}

#[test]
fn a_short_data_chunk_after_good_ones_is_refused() {
    let mut stream = HELLO_SZ.to_vec();
    stream.extend_from_slice(&[0xfe, 3, 0, 0, 9, 9, 9]);
    stream.extend_from_slice(&[1, 3, 0, 0, 1, 2, 3, 4, 5]);
    let error = StreamFormat::Sz.decode(&stream).unwrap_err();
    assert_eq!(error.cause, "a data chunk is too short for its checksum");
}

#[test]
fn a_data_chunk_of_the_checksum_alone_holds_nothing() {
    let mut stream = HELLO_SZ[..10].to_vec();
    stream.extend_from_slice(&[1, 4, 0, 0, 0xd8, 0xea, 0x82, 0xa2]);
    assert_eq!(StreamFormat::Sz.decode(&stream), Ok(Vec::new()));
}

#[test]
fn padding_between_chunks_is_passed_over() {
    let mut stream = HELLO_SZ[..10].to_vec();
    stream.extend_from_slice(&[0xfe, 2, 0, 0, 7, 7]);
    stream.extend_from_slice(&HELLO_SZ[10..]);
    assert_eq!(StreamFormat::Sz.decode(&stream), Ok(b"hello".to_vec()));
}
