use openthread::carve::{
    align_min, c_str_at, contains_nul, padding_needed, store_data, store_str, ElemLayout,
};
use openthread::error::{OtError, OT_ERROR_INVALID_ARGS, OT_ERROR_NO_BUFS};

#[test]
fn store_str_writes_the_string_and_a_nul() {
    let mut buf = [0xffu8; 8];
    let (stored, rest) = store_str("abc", &mut buf).unwrap();
    assert_eq!(stored, b"abc\0");
    assert_eq!(rest.len(), 4);
    assert_eq!(buf, [b'a', b'b', b'c', 0, 0xff, 0xff, 0xff, 0xff]);
}

#[test]
fn store_str_needs_room_for_the_nul() {
    let mut buf = [0u8; 3];
    assert_eq!(store_str("abc", &mut buf).err(), Some(OtError::new(OT_ERROR_NO_BUFS)));
    assert_eq!(buf, [0, 0, 0]);
    let mut buf = [0u8; 4];
    assert!(store_str("abc", &mut buf).is_ok());
}

#[test]
fn store_str_reads_back() {
    let mut buf = [0x55u8; 16];
    {
        let (_, rest) = store_str("héllo", &mut buf).unwrap();
        store_str("x", rest).unwrap();
    }
    let first = c_str_at(&buf, 0).unwrap();
    assert_eq!(core::str::from_utf8(first).unwrap(), "héllo");
    let second = c_str_at(&buf, first.len() + 1).unwrap();
    assert_eq!(second, b"x");
}

#[test]
fn store_data_has_no_sentinel() {
    let mut buf = [9u8; 4];
    let (stored, rest) = store_data(&[1, 2, 3, 4], &mut buf).unwrap();
    assert_eq!(stored, &[1, 2, 3, 4]);
    assert!(rest.is_empty());
    let mut buf = [9u8; 3];
    assert_eq!(store_data(&[1, 2, 3, 4], &mut buf).err(), Some(OtError::new(OT_ERROR_NO_BUFS)));
}

#[test]
fn align_min_skips_to_the_alignment() {
    let mut buf = [0u8; 32];
    let layout = ElemLayout { size: 8, align: 8 };
    let (start, region, rest) = align_min(layout, 0x1003, &mut buf, 2).unwrap();
    assert_eq!(start, 0x1008);
    assert_eq!(region.len(), 16);
    assert_eq!(rest.len(), 32 - 5 - 16);
}

#[test]
fn align_min_fails_without_room() {
    let mut buf = [0u8; 20];
    let layout = ElemLayout { size: 8, align: 8 };
    assert_eq!(align_min(layout, 0x1003, &mut buf, 2).err(), Some(OtError::new(OT_ERROR_NO_BUFS)));
    assert!(align_min(layout, 0x1004, &mut buf, 2).is_ok());
}

#[test]
fn align_min_of_nothing_consumes_nothing() {
    let mut buf = [0u8; 5];
    let (start, region, rest) = align_min(ElemLayout { size: 4, align: 4 }, 0x1001, &mut buf, 0).unwrap();
    assert_eq!(start, 4);
    assert!(region.is_empty());
    assert_eq!(rest.len(), 5);
    let (_, region, rest) = align_min(ElemLayout { size: 0, align: 1 }, 0x1001, &mut buf, 7).unwrap();
    assert!(region.is_empty());
    assert_eq!(rest.len(), 5);
}

#[test]
fn padding_reaches_the_next_multiple() {
    assert_eq!(padding_needed(0x1000, 8), 0);
    assert_eq!(padding_needed(0x1001, 8), 7);
    assert_eq!(padding_needed(0x1007, 8), 1);
    assert_eq!(padding_needed(0x1003, 4), 1);
    assert_eq!(padding_needed(0x1003, 1), 0);
    assert_eq!(padding_needed(usize::MAX, 16), 1);
    assert_eq!(padding_needed(10, 3), 2);
}

#[test]
fn carves_follow_each_other_without_overlap() {
    let mut buf = [0u8; 24];
    {
        let (start, region, rest) =
            align_min(ElemLayout { size: 4, align: 4 }, 0x1001, &mut buf, 2).unwrap();
        assert_eq!(start, 0x1004);
        region.fill(0xaa);
        let (stored, rest) = store_str("ab", rest).unwrap();
        assert_eq!(stored, b"ab\0");
        let (stored, rest) = store_data(&[1, 2], rest).unwrap();
        assert_eq!(stored, &[1, 2]);
        assert_eq!(rest.len(), 24 - 3 - 8 - 3 - 2);
        rest.fill(0xbb);
    }
    assert_eq!(
        buf,
        [
            0, 0, 0, 0xaa, 0xaa, 0xaa, 0xaa, 0xaa, 0xaa, 0xaa, 0xaa, b'a', b'b', 0, 1, 2, 0xbb,
            0xbb, 0xbb, 0xbb, 0xbb, 0xbb, 0xbb, 0xbb
        ]
    );
}

#[test]
fn c_string_ends_at_the_first_nul() {
    let buf = [b'a', 0, b'b', b'c', 0, b'd'];
    assert_eq!(c_str_at(&buf, 0), Some(&b"a"[..]));
    assert_eq!(c_str_at(&buf, 1), Some(&b""[..]));
    assert_eq!(c_str_at(&buf, 2), Some(&b"bc"[..]));
    assert_eq!(c_str_at(&buf, 4), Some(&b""[..]));
    assert_eq!(c_str_at(&buf, 5), None);
    assert_eq!(c_str_at(&buf, 6), None);
    assert_eq!(c_str_at(&buf, usize::MAX), None);
    assert_eq!(c_str_at(&[], 0), None);
}

#[test]
fn nul_is_found_wherever_it_stands() {
    assert!(!contains_nul(b""));
    assert!(!contains_nul(b"abc"));
    assert!(contains_nul(b"\0abc"));
    assert!(contains_nul(b"ab\0c"));
    assert!(contains_nul(b"abc\0"));
}

#[test]
fn empty_string_takes_one_byte() {
    let mut buf = [9u8; 1];
    let (stored, rest) = store_str("", &mut buf).unwrap();
    assert_eq!(stored, b"\0");
    assert!(rest.is_empty());
    let mut none: [u8; 0] = [];
    assert_eq!(store_str("", &mut none).err(), Some(OtError::new(OT_ERROR_NO_BUFS)));
    let (stored, rest) = store_data(&[], &mut none).unwrap();
    assert!(stored.is_empty() && rest.is_empty());
}

#[test]
fn string_with_a_nul_inside_is_refused_where_it_finds_room() {
    for text in ["a\0b", "\0", "ab\0", "\0ab"] {
        let mut buf = [7u8; 8];
        assert_eq!(store_str(text, &mut buf).err(), Some(OtError::new(OT_ERROR_INVALID_ARGS)));
        assert_eq!(buf, [7u8; 8]);
        let mut exact = vec![7u8; text.len() + 1];
        assert_eq!(store_str(text, &mut exact).err(), Some(OtError::new(OT_ERROR_INVALID_ARGS)));
        assert!(exact.iter().all(|&b| b == 7));
        let mut small = vec![7u8; text.len()];
        assert_eq!(store_str(text, &mut small).err(), Some(OtError::new(OT_ERROR_NO_BUFS)));
        assert!(small.iter().all(|&b| b == 7));
        let mut none: [u8; 0] = [];
        assert_eq!(store_str(text, &mut none).err(), Some(OtError::new(OT_ERROR_NO_BUFS)));
    }
}
