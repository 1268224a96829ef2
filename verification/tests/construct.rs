use wcstr::WCStr;
use wcstr::WCString;

#[test]
fn new_is_empty() {
    let s = WCString::new();
    assert_eq!(s.len(), 0);
    assert_eq!(s.as_slice(), &[] as &[u16]);
    assert_eq!(s.as_slice_with_nul(), &[0u16]);
}

#[test]
fn from_vec_round_trip() {
    let v: Vec<u16> = vec![1, 2, 3];
    let s = WCString::from_vec(v).unwrap();
    assert_eq!(s.len(), 3);
    assert_eq!(s.into_vec(), vec![1u16, 2, 3]);
}

#[test]
fn from_vec_empty() {
    let s = WCString::from_vec(Vec::new()).unwrap();
    assert_eq!(s.len(), 0);
    assert_eq!(s.into_vec_with_nul(), vec![0u16]);
}

#[test]
fn from_vec_interior_nul() {
    let v: Vec<u16> = vec![7, 0, 9];
    let e = WCString::from_vec(v).unwrap_err();
    assert_eq!(e.nul_position(), 1);
    assert_eq!(e.into_vec(), Some(vec![7u16, 0, 9]));
}

#[test]
fn from_vec_trailing_nul_rejected() {
    let v: Vec<u16> = vec![1, 2, 0];
    let e = WCString::from_vec(v).unwrap_err();
    assert_eq!(e.nul_position(), 2);
    assert_eq!(e.into_vec(), Some(vec![1u16, 2, 0]));
}

#[test]
fn from_vec_with_nul_truncates() {
    let v: Vec<u16> = vec![1, 2, 0, 55, 66];
    let s = WCString::from_vec_with_nul(v).unwrap();
    assert_eq!(s.len(), 2);
    assert_eq!(s.as_slice(), &[1u16, 2]);
    assert_eq!(s.as_slice_with_nul(), &[1u16, 2, 0]);
}

#[test]
fn from_vec_with_nul_missing() {
    let v: Vec<u16> = vec![1, 2, 3];
    let e = WCString::from_vec_with_nul(v).unwrap_err();
    assert_eq!(e.into_vec(), Some(vec![1u16, 2, 3]));
}

#[test]
fn from_vec_unchecked_appends_nul() {
    let s = WCString::from_vec_unchecked(vec![116u16, 101, 115, 116]);
    assert_eq!(s.len(), 4);
    assert_eq!(s.as_slice_with_nul(), &[116u16, 101, 115, 116, 0]);
}

#[test]
fn from_vec_with_nul_unchecked_keeps_units() {
    let s = WCString::from_vec_with_nul_unchecked(vec![116u16, 101, 115, 116, 0]);
    assert_eq!(s.len(), 4);
}

#[test]
fn from_str_encodes() {
    let s = WCString::from_str("testing").unwrap();
    assert_eq!(s.len(), 7);
    assert_eq!(s.as_slice(), &[116u16, 101, 115, 116, 105, 110, 103]);
}

#[test]
fn from_str_surrogate_pair() {
    let s = WCString::from_str("\u{1D11E}").unwrap();
    assert_eq!(s.len(), 2);
    assert_eq!(s.as_slice(), &[0xD834u16, 0xDD1E]);
}

#[test]
fn from_str_interior_nul() {
    let e = WCString::from_str("ab\0cd").unwrap_err();
    assert_eq!(e.nul_position(), 2);
    assert_eq!(e.into_vec(), Some(vec![97u16, 98, 0, 99, 100]));
}

#[test]
fn from_str_with_nul_truncates() {
    let s = WCString::from_str_with_nul("testing\0junk").unwrap();
    assert_eq!(s.len(), 7);
}

#[test]
fn from_str_with_nul_missing() {
    let e = WCString::from_str_with_nul("testing").unwrap_err();
    assert!(e.into_vec().is_some());
}

#[test]
fn from_slice_with_nul_scans() {
    let a: &[u16] = &[116, 101, 115, 116, 0];
    let s = WCStr::from_slice_with_nul(a).unwrap();
    assert_eq!(s.len(), 4);
    assert_eq!(s.to_slice(), &[116u16, 101, 115, 116]);
    assert_eq!(s.to_slice_with_nul(), a);
}

#[test]
fn from_slice_with_nul_stops_at_first_nul() {
    let a: &[u16] = &[5, 0, 6, 0];
    let s = WCStr::from_slice_with_nul(a).unwrap();
    assert_eq!(s.len(), 1);
    assert_eq!(s.to_slice_with_nul(), &[5u16, 0]);
}

#[test]
fn from_slice_with_nul_missing() {
    let a: &[u16] = &[5, 6];
    let e = WCStr::from_slice_with_nul(a).unwrap_err();
    assert_eq!(e.into_vec(), None);
}

#[test]
fn error_descriptions() {
    let e = WCString::from_vec(vec![0u16]).unwrap_err();
    assert_eq!(e.description(), "nul found");
    let e = WCString::from_vec_with_nul(vec![1u16]).unwrap_err();
    assert_eq!(e.description(), "no nul found");
}

#[test]
fn error_constructors() {
    let e = wcstr::nul(3, None);
    assert_eq!(e.nul_position(), 3);
    assert_eq!(e.into_vec(), None);
    let e = wcstr::no_nul(Some(vec![1u16, 2]));
    assert_eq!(e.into_vec(), Some(vec![1u16, 2]));
}
