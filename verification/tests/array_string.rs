use arraystring::ArrayString;
use arraystring::CapacityError;
use std::borrow::Borrow;
use std::fmt::Write;

#[test]
fn new_is_empty() {
    let string = ArrayString::<16>::new();
    assert_eq!(&string[..], "");
    assert_eq!(string.len(), 0);
    assert_eq!(string.capacity(), 16);
}

#[test]
fn push_str_then_read() {
    let mut string = ArrayString::<16>::new();
    assert!(string.push_str("foo").is_ok());
    assert_eq!(&string[..], "foo");
    assert_eq!(string.len(), 3);
    assert_eq!(string.capacity(), 16);
}

#[test]
fn capacity_is_the_type_parameter() {
    let string = ArrayString::<3>::new();
    assert_eq!(string.capacity(), 3);
    let mut other = ArrayString::<3>::new();
    other.push_str("ab").unwrap();
    assert_eq!(other.capacity(), 3);
    let _ = other.push_str("cd");
    assert_eq!(other.capacity(), 3);
    other.clear();
    assert_eq!(other.capacity(), 3);
    let copy = other;
    assert_eq!(copy.capacity(), 3);
}

#[test]
fn push_until_full() {
    let mut string = ArrayString::<2>::new();
    string.push('a').unwrap();
    string.push('b').unwrap();
    let overflow = string.push('c');
    assert_eq!(&string[..], "ab");
    assert_eq!(overflow.err().map(|e| e.element), Some('c'));
}

#[test]
fn push_str_all_or_nothing() {
    let mut string = ArrayString::<2>::new();
    string.push_str("a").unwrap();
    assert_eq!(&string[..], "a");
    let overflow1 = string.push_str("bc");
    assert_eq!(&string[..], "a");
    string.push_str("d").unwrap();
    assert_eq!(&string[..], "ad");
    let overflow2 = string.push_str("ef");
    assert_eq!(&string[..], "ad");
    assert_eq!(overflow1.err().map(|e| e.element), Some("bc"));
    assert_eq!(overflow2.err().map(|e| e.element), Some("ef"));
}

#[test]
fn failed_push_str_writes_no_prefix() {
    let mut string = ArrayString::<4>::new();
    string.push_str("ab").unwrap();
    let before = string;
    assert_eq!(string.push_str("cde"), Err(CapacityError::new("cde")));
    assert_eq!(&string[..], "ab");
    assert_eq!(string.len(), 2);
    assert_eq!(&before[..], &string[..]);
    string.push_str("cd").unwrap();
    assert_eq!(&string[..], "abcd");
}

#[test]
fn failed_push_of_wide_char_changes_nothing() {
    let mut string = ArrayString::<4>::new();
    string.push_str("ab").unwrap();
    assert_eq!(string.push('€'), Err(CapacityError::new('€')));
    assert_eq!(&string[..], "ab");
    assert_eq!(string.len(), 2);
    assert_eq!(string.push('é'), Ok(()));
    assert_eq!(&string[..], "abé");
    assert_eq!(string.len(), 4);
    assert_eq!(string.push('x'), Err(CapacityError::new('x')));
    assert_eq!(&string[..], "abé");
}

#[test]
fn push_str_of_exactly_the_room_left() {
    let mut string = ArrayString::<5>::new();
    assert_eq!(string.push_str("hello"), Ok(()));
    assert_eq!(&string[..], "hello");
    assert_eq!(string.len(), string.capacity());
    assert_eq!(string.push_str(""), Ok(()));
    assert_eq!(string.push_str("!"), Err(CapacityError::new("!")));
    assert_eq!(string.push('!'), Err(CapacityError::new('!')));
    assert_eq!(&string[..], "hello");
}

#[test]
fn zero_capacity_takes_only_the_empty_string() {
    let mut string = ArrayString::<0>::new();
    assert_eq!(string.capacity(), 0);
    assert_eq!(string.push_str(""), Ok(()));
    assert_eq!(string.push_str("a"), Err(CapacityError::new("a")));
    assert_eq!(string.push('a'), Err(CapacityError::new('a')));
    assert_eq!(&string[..], "");
}

#[test]
fn length_is_the_sum_of_the_encoded_lengths() {
    let mut string = ArrayString::<32>::new();
    string.push('a').unwrap();
    assert_eq!(string.len(), 1);
    string.push('é').unwrap();
    assert_eq!(string.len(), 3);
    string.push('€').unwrap();
    assert_eq!(string.len(), 6);
    string.push('😀').unwrap();
    assert_eq!(string.len(), 10);
    string.push_str("añ😀").unwrap();
    assert_eq!(string.len(), 10 + 1 + 2 + 4);
    assert_eq!(&string[..], "aé€😀añ😀");
}

#[test]
fn chars_one_at_a_time_equal_one_push_str() {
    let text = "héllo, wörld €😀";
    let mut each = ArrayString::<32>::new();
    for c in text.chars() {
        each.push(c).unwrap();
    }
    let mut whole = ArrayString::<32>::new();
    whole.push_str(text).unwrap();
    assert_eq!(&each[..], &whole[..]);
    assert_eq!(&each[..], text);
    assert_eq!(each.len(), whole.len());
}

#[test]
fn clear_then_push_str_gives_the_pushed_text() {
    let mut string = ArrayString::<8>::new();
    string.push_str("previous").unwrap();
    string.clear();
    assert_eq!(&string[..], "");
    assert_eq!(string.len(), 0);
    string.push_str("new").unwrap();
    assert_eq!(&string[..], "new");
    string.clear();
    string.push_str("12345678").unwrap();
    assert_eq!(&string[..], "12345678");
}

#[test]
fn set_len_truncates_and_restores() {
    let mut string = ArrayString::<8>::new();
    string.push_str("abcdef").unwrap();
    string.set_len(3);
    assert_eq!(&string[..], "abc");
    assert_eq!(string.len(), 3);
    string.set_len(6);
    assert_eq!(&string[..], "abcdef");
    string.set_len(0);
    assert_eq!(&string[..], "");
}

#[test]
fn copy_is_independent() {
    let mut string = ArrayString::<4>::new();
    string.push_str("ab").unwrap();
    let mut copy = string.clone();
    copy.push('c').unwrap();
    assert_eq!(&string[..], "ab");
    assert_eq!(&copy[..], "abc");
    assert_eq!(copy.capacity(), string.capacity());
}

#[test]
fn reads_as_str_through_each_trait() {
    let mut string = ArrayString::<8>::new();
    string.push_str("añb").unwrap();
    let by_deref: &str = &string;
    let by_as_ref: &str = string.as_ref();
    let by_borrow: &str = string.borrow();
    assert_eq!(by_deref, "añb");
    assert_eq!(by_as_ref, "añb");
    assert_eq!(by_borrow, "añb");
    assert_eq!(by_deref.as_bytes(), &[0x61, 0xC3, 0xB1, 0x62]);
    assert_eq!(string.chars().count(), 3);
}

#[test]
fn as_bytes_is_the_encoding_of_the_text() {
    let mut string = ArrayString::<8>::new();
    assert_eq!(string.as_bytes(), &[] as &[u8]);
    string.push_str("a€").unwrap();
    assert_eq!(string.as_bytes(), &[0x61, 0xE2, 0x82, 0xAC]);
    assert_eq!(string.as_bytes(), "a€".as_bytes());
    string.clear();
    assert_eq!(string.as_bytes(), &[] as &[u8]);
}

#[test]
fn debug_renders_the_text() {
    let mut string = ArrayString::<8>::new();
    string.push_str("a\"b\n").unwrap();
    assert_eq!(format!("{:?}", string), format!("{:?}", "a\"b\n"));
    assert_eq!(format!("{:?}", string), "\"a\\\"b\\n\"");
}

#[test]
fn formatted_write_appends_or_fails_whole() {
    let mut string = ArrayString::<4>::new();
    assert!(string.write_str("ab").is_ok());
    assert!(string.write_char('c').is_ok());
    assert_eq!(&string[..], "abc");
    assert_eq!(string.write_str("de"), Err(std::fmt::Error));
    assert_eq!(&string[..], "abc");
    assert_eq!(string.write_char('é'), Err(std::fmt::Error));
    assert_eq!(&string[..], "abc");
    assert!(string.write_char('d').is_ok());
    assert_eq!(&string[..], "abcd");
}

#[test]
fn formatted_write_keeps_the_fragments_that_fit() {
    let mut string = ArrayString::<8>::new();
    let fragments = ["12", "-", "ab", "xy", "zzzz", "!"];
    let mut failed = Vec::new();
    for fragment in fragments {
        if string.write_str(fragment).is_err() {
            failed.push(fragment);
        }
    }
    assert_eq!(&string[..], "12-abxy!");
    assert_eq!(failed, vec!["zzzz"]);
}

#[test]
fn capacity_error_hands_back_the_element() {
    let e = CapacityError::new("rest");
    assert_eq!(e.element, "rest");
    assert_eq!(e.element(), "rest");
    let unit = CapacityError::new('x').simplify();
    assert_eq!(unit, CapacityError::new(()));
}
