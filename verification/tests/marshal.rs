use rust_url::marshal::{CVec, JSSearchParam, SpecSlice, SpecString};

#[test]
fn spec_string_from_text() {
    let s = SpecString::from("h\u{e9}llo".to_string());
    assert_eq!(s.len(), 6);
    assert_eq!(s.as_bytes(), "h\u{e9}llo".as_bytes());
    assert_eq!(s.as_str(), Some("h\u{e9}llo"));
    assert_eq!(s.into_string(), Some("h\u{e9}llo".to_string()));
}

#[test]
fn spec_string_empty() {
    let s = SpecString::from(String::new());
    assert_eq!(s.len(), 0);
    assert_eq!(s.as_str(), Some(""));
}

#[test]
fn spec_string_that_is_not_text() {
    let s = SpecString::from_bytes(vec![0x61, 0xff]);
    assert_eq!(s.len(), 2);
    assert_eq!(s.as_bytes(), &[0x61, 0xff]);
    assert_eq!(s.as_str(), None);
    assert_eq!(s.into_string(), None);
}

#[test]
fn spec_string_rejects_overlong_and_surrogates() {
    assert_eq!(SpecString::from_bytes(vec![0xc0, 0x80]).as_str(), None);
    assert_eq!(SpecString::from_bytes(vec![0xed, 0xa0, 0x80]).as_str(), None);
    assert_eq!(SpecString::from_bytes(vec![0xe2, 0x82]).as_str(), None);
    assert_eq!(
        SpecString::from_bytes(vec![0xf0, 0x90, 0x80, 0x80]).as_str(),
        Some("\u{10000}")
    );
}

#[test]
fn spec_slice_of_text() {
    let v = SpecSlice::from("abc");
    assert!(!v.is_missing());
    assert_eq!(v.len(), 3);
    assert_eq!(v.as_bytes(), b"abc");
    assert_eq!(v.as_str(), Some("abc"));
}

#[test]
fn spec_slice_of_empty_text_is_null() {
    let v = SpecSlice::from("");
    assert!(v.is_missing());
    assert_eq!(v.len(), 0);
    assert_eq!(v.as_str(), Some(""));
}

#[test]
fn spec_slice_new() {
    let null = SpecSlice::new(None);
    assert!(null.is_missing());
    assert_eq!(null.len(), 0);
    assert_eq!(null.as_bytes(), b"");
    let bytes = [0xffu8, 0x01];
    let v = SpecSlice::new(Some(&bytes));
    assert!(!v.is_missing());
    assert_eq!(v.len(), 2);
    assert_eq!(v.as_bytes(), &bytes);
    assert_eq!(v.as_str(), None);
    let empty: [u8; 0] = [];
    let e = SpecSlice::new(Some(&empty));
    assert!(!e.is_missing());
    assert_eq!(e.len(), 0);
}

#[test]
fn cvec_holds_items_in_order() {
    let v = CVec::from_vec(vec![3u8, 1, 2]);
    assert_eq!(v.len(), 3);
    assert_eq!(v.get(0), Some(&3));
    assert_eq!(v.get(2), Some(&2));
    assert_eq!(v.get(3), None);
    assert_eq!(v.into_vec(), vec![3u8, 1, 2]);
}

#[test]
fn cvec_empty() {
    let v: CVec<u8> = CVec::from_vec(Vec::new());
    assert_eq!(v.len(), 0);
    assert_eq!(v.get(0), None);
}

#[test]
fn search_param_is_plain_data() {
    let p = JSSearchParam {
        name: SpecSlice::from("n"),
        value: SpecSlice::from("v"),
        done: false,
    };
    let q = p;
    assert_eq!(p.name.as_str(), Some("n"));
    assert_eq!(q.value.as_str(), Some("v"));
    assert!(!q.done);
}
