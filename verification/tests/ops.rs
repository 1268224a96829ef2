use wcstr::WCStr;
use wcstr::WCString;

#[test]
fn to_owned_round_trip() {
    let a: &[u16] = &[97, 98, 0];
    let view = WCStr::from_slice_with_nul(a).unwrap();
    let owned = view.to_owned();
    assert_eq!(owned.as_wcstr().to_slice_with_nul(), view.to_slice_with_nul());
    assert_eq!(owned.as_slice_with_nul(), &[97u16, 98, 0]);
}

#[test]
fn push_appends_view() {
    let mut s = WCString::new();
    let t = WCString::from_str("test").unwrap();
    s.push(&t.as_wcstr());
    s.push(&t.as_wcstr());
    assert_eq!(s.len(), 8);
    assert_eq!(s.as_slice(), &[116u16, 101, 115, 116, 116, 101, 115, 116]);
}

#[test]
fn push_slice_ok() {
    let mut s = WCString::from_str("ab").unwrap();
    s.push_slice(&[99u16, 100]).unwrap();
    assert_eq!(s.as_slice(), &[97u16, 98, 99, 100]);
    assert_eq!(s.as_slice_with_nul().last(), Some(&0u16));
}

#[test]
fn push_slice_nul_leaves_buffer_unchanged() {
    let mut s = WCString::from_str("ab").unwrap();
    let before = s.as_slice_with_nul().to_vec();
    let e = s.push_slice(&[99u16, 0, 100]).unwrap_err();
    assert_eq!(e.nul_position(), 1);
    assert_eq!(e.into_vec(), None);
    assert_eq!(s.as_slice_with_nul(), before.as_slice());
}

#[test]
fn push_slice_with_nul_truncates() {
    let mut s = WCString::from_str("ab").unwrap();
    s.push_slice_with_nul(&[99u16, 0, 100]).unwrap();
    assert_eq!(s.as_slice(), &[97u16, 98, 99]);
}

#[test]
fn push_slice_with_nul_missing_leaves_buffer_unchanged() {
    let mut s = WCString::from_str("ab").unwrap();
    let before = s.as_slice_with_nul().to_vec();
    let e = s.push_slice_with_nul(&[99u16, 100]).unwrap_err();
    assert_eq!(e.into_vec(), None);
    assert_eq!(s.as_slice_with_nul(), before.as_slice());
}

#[test]
fn push_str_ok() {
    let mut s = WCString::new();
    s.push_str("test1").unwrap();
    s.push_str("test2").unwrap();
    assert_eq!(s.len(), 10);
}

#[test]
fn push_str_rollback_on_nul() {
    let mut s = WCString::from_str("start").unwrap();
    let before = s.as_slice_with_nul().to_vec();
    let e = s.push_str("abc\0def").unwrap_err();
    assert_eq!(e.nul_position(), 3);
    assert_eq!(s.as_slice_with_nul(), before.as_slice());
}

#[test]
fn push_str_with_nul_keeps_through_nul() {
    let mut s = WCString::new();
    s.push_str_with_nul("test1\0everything after nul will be ignored").unwrap();
    assert_eq!(s.len(), 5);
    s.push_str_with_nul("test2\0").unwrap();
    assert_eq!(s.len(), 10);
}

#[test]
fn push_str_with_nul_missing_leaves_buffer_unchanged() {
    let mut s = WCString::from_str("ab").unwrap();
    let before = s.as_slice_with_nul().to_vec();
    let e = s.push_str_with_nul("cd").unwrap_err();
    assert_eq!(e.into_vec(), None);
    assert_eq!(s.as_slice_with_nul(), before.as_slice());
}

#[test]
fn split_five_segments() {
    let s = WCString::from_str("a;b;c;d;e").unwrap();
    let mut it = s.split(b';' as u16).iter();
    let mut count = 0;
    while let Some(w) = it.next() {
        count += 1;
        assert_eq!(w.len(), 1);
        assert_eq!(w.as_slice_with_nul().last(), Some(&0u16));
    }
    assert_eq!(count, 5);
    assert!(it.next().is_none());
}

#[test]
fn split_segments_in_order() {
    let s = WCString::from_str("ab;c").unwrap();
    let mut it = s.split(b';' as u16);
    let first = it.next().unwrap();
    assert_eq!(first.as_slice(), &[97u16, 98]);
    let second = it.next().unwrap();
    assert_eq!(second.as_slice(), &[99u16]);
    assert!(it.next().is_none());
}

#[test]
fn split_empty_middle_segment() {
    let s = WCString::from_str("a;;b").unwrap();
    let mut it = s.split(b';' as u16);
    assert_eq!(it.next().unwrap().as_slice(), &[97u16]);
    assert_eq!(it.next().unwrap().as_slice(), &[] as &[u16]);
    assert_eq!(it.next().unwrap().as_slice(), &[98u16]);
    assert!(it.next().is_none());
}

#[test]
fn split_on_nul_yields_whole_string() {
    let s = WCString::from_str("ab").unwrap();
    let mut it = s.split(0);
    let w = it.next().unwrap();
    assert_eq!(w.as_slice(), &[97u16, 98]);
    assert!(it.next().is_none());
}

#[test]
fn split_empty_string() {
    let s = WCString::new();
    let mut it = s.split(b';' as u16);
    let w = it.next().unwrap();
    assert_eq!(w.len(), 0);
    assert!(it.next().is_none());
}

#[test]
fn starts_with_views() {
    let s = WCString::from_str("abcefg").unwrap();
    let t = WCString::from_str("abc").unwrap();
    let u = WCString::from_str("efg").unwrap();
    let v = WCString::from_str("abcefgh").unwrap();
    assert!(s.as_wcstr().starts_with(&t.as_wcstr()));
    assert!(!s.as_wcstr().starts_with(&u.as_wcstr()));
    assert!(!s.as_wcstr().starts_with(&v.as_wcstr()));
    assert!(s.as_wcstr().starts_with(&s.as_wcstr()));
}

#[test]
fn starts_with_str_text() {
    let s = WCString::from_str("abcefg").unwrap();
    assert!(s.as_wcstr().starts_with_str("abc"));
    assert!(!s.as_wcstr().starts_with_str("efg"));
    assert!(!s.as_wcstr().starts_with_str("abcefgh"));
    assert!(s.as_wcstr().starts_with_str(""));
}

#[test]
fn to_string_strict_decodes() {
    let s = WCString::from_vec(vec![97u16, 98]).unwrap();
    assert_eq!(s.as_wcstr().to_string().unwrap(), "ab");
}

#[test]
fn to_string_strict_rejects_lone_surrogate() {
    let s = WCString::from_vec(vec![97u16, 0xD800, 98]).unwrap();
    assert!(s.as_wcstr().to_string().is_err());
}

#[test]
fn to_string_strict_accepts_surrogate_pair() {
    let s = WCString::from_vec(vec![0xD834u16, 0xDD1E]).unwrap();
    assert_eq!(s.as_wcstr().to_string().unwrap(), "\u{1D11E}");
}

#[test]
fn to_string_lossy_replaces_lone_surrogate() {
    let s = WCString::from_vec(vec![97u16, 0xD800, 98]).unwrap();
    assert_eq!(s.as_wcstr().to_string_lossy(), "a\u{FFFD}b");
}

#[test]
fn encode_wide_units() {
    let v = wcstr::encode_wide("a\u{1D11E}");
    assert_eq!(v, vec![0x61u16, 0xD834, 0xDD1E]);
}

#[test]
fn debug_lone_surrogate_renders_hex() {
    let s = WCString::from_vec(vec![0xD800u16]).unwrap();
    assert_eq!(s.to_debug_string(), "\"\\u{D800}\"");
}

#[test]
fn debug_hex_digits_uppercase() {
    let s = WCString::from_vec(vec![0xDEADu16]).unwrap();
    assert_eq!(s.to_debug_string(), "\"\\u{DEAD}\"");
}

#[test]
fn debug_escapes_and_plain_text() {
    let s = WCString::from_str("a\nb").unwrap();
    assert_eq!(s.to_debug_string(), "\"a\\nb\"");
    let v = WCString::from_str("test").unwrap();
    assert_eq!(v.as_wcstr().to_debug_string(), "\"test\"");
}

#[test]
fn split_without_delimiter_yields_whole_string() {
    let s = WCString::from_str("abc").unwrap();
    let mut it = s.split(b';' as u16);
    assert_eq!(it.next().unwrap().as_slice(), &[97u16, 98, 99]);
    assert!(it.next().is_none());
}

#[test]
fn to_string_empty() {
    let s = WCString::new();
    assert_eq!(s.as_wcstr().to_string().unwrap(), "");
    assert_eq!(s.as_wcstr().to_string_lossy(), "");
    assert_eq!(s.to_debug_string(), "\"\"");
}
