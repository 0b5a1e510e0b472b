use scop::obj::index::{resolve, VertexIndices, MISSING_INDEX};
use scop::obj::number::parse_signed;
use scop::obj::text::{find_byte, is_whitespace, next_field, skip_whitespace, skip_word, trim_end};

#[test]
fn negative_index_counts_back_from_the_last_position() {
    let v = VertexIndices::parse(b"-1", 5, 0, 0).unwrap();
    assert_eq!(v.v, 4);
    assert_eq!(v.vt, MISSING_INDEX);
    assert_eq!(v.vn, MISSING_INDEX);
    assert_eq!(resolve(-1, 5), 4);
}

#[test]
fn positive_index_is_one_based() {
    let v = VertexIndices::parse(b"7/2/3", 10, 10, 10).unwrap();
    assert_eq!(v, VertexIndices { v: 6, vt: 1, vn: 2 });
    assert_eq!(resolve(1, 0), 0);
    assert_eq!(resolve(12, 3), 11);
}

#[test]
fn each_slot_is_resolved_against_its_own_count() {
    let v = VertexIndices::parse(b"-1/-2/-3", 10, 20, 30).unwrap();
    assert_eq!(v, VertexIndices { v: 9, vt: 18, vn: 27 });
}

#[test]
fn empty_component_leaves_the_slot_missing() {
    let v = VertexIndices::parse(b"3//4", 5, 5, 5).unwrap();
    assert_eq!(v, VertexIndices { v: 2, vt: MISSING_INDEX, vn: 3 });
    let v = VertexIndices::parse(b"3/4", 5, 5, 5).unwrap();
    assert_eq!(v, VertexIndices { v: 2, vt: 3, vn: MISSING_INDEX });
    let v = VertexIndices::parse(b"3/4/", 5, 5, 5).unwrap();
    assert_eq!(v, VertexIndices { v: 2, vt: 3, vn: MISSING_INDEX });
    let v = VertexIndices::parse(b"", 5, 5, 5).unwrap();
    assert_eq!(v, VertexIndices { v: MISSING_INDEX, vt: MISSING_INDEX, vn: MISSING_INDEX });
}

#[test]
fn a_fourth_component_must_be_empty() {
    assert_eq!(VertexIndices::parse(b"1/2/3/4", 5, 5, 5), None);
    assert_eq!(
        VertexIndices::parse(b"1/2/3/", 5, 5, 5),
        Some(VertexIndices { v: 0, vt: 1, vn: 2 })
    );
    assert_eq!(
        VertexIndices::parse(b"1///", 5, 5, 5),
        Some(VertexIndices { v: 0, vt: MISSING_INDEX, vn: MISSING_INDEX })
    );
}

#[test]
fn a_component_that_is_no_integer_fails_the_vertex() {
    assert_eq!(VertexIndices::parse(b"a", 5, 5, 5), None);
    assert_eq!(VertexIndices::parse(b"1/x/3", 5, 5, 5), None);
    assert_eq!(VertexIndices::parse(b"1.5", 5, 5, 5), None);
    assert_eq!(VertexIndices::parse(b"1/2/-", 5, 5, 5), None);
    assert_eq!(VertexIndices::parse(b"1 ", 5, 5, 5), None);
}

#[test]
fn zero_and_far_negative_indices_wrap() {
    assert_eq!(resolve(0, 5), MISSING_INDEX);
    assert_eq!(resolve(-6, 5), usize::MAX);
    assert_eq!(resolve(-7, 5), usize::MAX - 1);
    assert_eq!(resolve(-5, 5), 0);
    assert_eq!(resolve(isize::MIN, 0), (isize::MAX as usize) + 1);
    assert_eq!(resolve(isize::MAX, 0), (isize::MAX as usize) - 1);
    let v = VertexIndices::parse(b"0", 5, 5, 5).unwrap();
    assert_eq!(v.v, MISSING_INDEX);
}

#[test]
fn signed_integers_are_read_as_std_reads_them() {
    let cases: [&str; 22] = [
        "0", "1", "-1", "+1", "007", "-007", "+", "-", "", "12a", "a12", "1 2", " 1", "1 ", "--1",
        "+-1", "9223372036854775807", "9223372036854775808", "-9223372036854775808",
        "-9223372036854775809", "99999999999999999999999999", "000000000000000000000000001",
    ];
    for text in cases.iter() {
        let expected = isize::from_str_radix(text, 10).ok();
        assert_eq!(parse_signed(text.as_bytes()), expected, "{:?}", text);
    }
    assert_eq!(parse_signed(b"42"), Some(42));
    assert_eq!(parse_signed(b"-42"), Some(-42));
    assert_eq!(parse_signed(b"4 2"), None);
}

#[test]
fn whitespace_is_the_ascii_whitespace() {
    for b in 0u8..=255 {
        let expected = b == b' ' || (9..=13).contains(&b);
        assert_eq!(is_whitespace(b), expected);
        if b < 128 {
            assert_eq!(is_whitespace(b), (b as char).is_whitespace());
        }
    }
}

#[test]
fn fields_are_runs_of_bytes_that_are_not_whitespace() {
    let line = b"  v \t1.0  2.0\r";
    assert_eq!(skip_whitespace(line, 0), 2);
    assert_eq!(skip_word(line, 2), 3);
    assert_eq!(next_field(line, 0), Some((2, 3)));
    assert_eq!(next_field(line, 3), Some((5, 8)));
    assert_eq!(next_field(line, 8), Some((10, 13)));
    assert_eq!(next_field(line, 13), None);
    assert_eq!(next_field(b"", 0), None);
    assert_eq!(next_field(b"   ", 1), None);
    assert_eq!(trim_end(line), 13);
    assert_eq!(trim_end(b" \t "), 0);
    assert_eq!(trim_end(b"ab"), 2);
}

#[test]
fn find_byte_gives_the_length_when_the_byte_is_absent() {
    assert_eq!(find_byte(b"a/b/c", b'/', 0), 1);
    assert_eq!(find_byte(b"a/b/c", b'/', 1), 1);
    assert_eq!(find_byte(b"a/b/c", b'/', 2), 3);
    assert_eq!(find_byte(b"a/b/c", b'/', 4), 5);
    assert_eq!(find_byte(b"", b'/', 0), 0);
}
