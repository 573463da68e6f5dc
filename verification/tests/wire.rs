use spl_token_metadata_interface::wire::{
    read_bool, read_bytes32, read_option_u64, read_string, write_bool, write_option_u64,
    write_string,
};

#[test]
fn string_encoding_matches_borsh() {
    for s in ["", "abc", "héllo wörld", "日本語", "🦀"] {
        let mut out = vec![9u8];
        write_string(&mut out, &s.to_string());
        assert_eq!(out[0], 9);
        assert_eq!(&out[1..], borsh::to_vec(&s.to_string()).unwrap().as_slice());
        let (read, end) = read_string(&out, 1).unwrap();
        assert_eq!(read, s);
        assert_eq!(end, out.len());
    }
}

#[test]
fn read_string_refuses_bad_input() {
    // invalid UTF-8 body
    assert_eq!(read_string(&[2, 0, 0, 0, 0xc3, 0x28], 0), None);
    // surrogate half encoded in UTF-8
    assert_eq!(read_string(&[3, 0, 0, 0, 0xed, 0xa0, 0x80], 0), None);
    // length runs past the end
    assert_eq!(read_string(&[5, 0, 0, 0, b'a'], 0), None);
    // prefix cut short, or position past the end
    assert_eq!(read_string(&[1, 0, 0], 0), None);
    assert_eq!(read_string(&[0, 0, 0, 0], 5), None);
    // a two-byte character is decoded to one char
    let (s, end) = read_string(&[2, 0, 0, 0, 0xc3, 0xa9, 7], 0).unwrap();
    assert_eq!(s, "é");
    assert_eq!(end, 6);
}

#[test]
fn bool_and_option_encodings_match_borsh() {
    for b in [false, true] {
        let mut out = vec![];
        write_bool(&mut out, b);
        assert_eq!(out, borsh::to_vec(&b).unwrap());
        assert_eq!(read_bool(&out, 0), Some((b, 1)));
    }
    assert_eq!(read_bool(&[2], 0), None);
    for o in [None, Some(0u64), Some(10), Some(u64::MAX)] {
        let mut out = vec![];
        write_option_u64(&mut out, o);
        assert_eq!(out, borsh::to_vec(&o).unwrap());
        assert_eq!(read_option_u64(&out, 0), Some((o, out.len())));
    }
    assert_eq!(read_option_u64(&[2], 0), None);
}

#[test]
fn read_bytes32_takes_exactly_32_bytes() {
    let input: Vec<u8> = (0u8..40).collect();
    let (a, end) = read_bytes32(&input, 3).unwrap();
    assert_eq!(end, 35);
    assert_eq!(a[0], 3);
    assert_eq!(a[31], 34);
    assert_eq!(read_bytes32(&input, 9), None);
}
