use rust_url::order::{encode_utf16, name_le_exec, units_le_exec};
use rust_url::pairs::{find_first, remove_named_from};
use rust_url::sorting::sort_by_name;

fn owned(pairs: &[(&str, &str)]) -> Vec<(String, String)> {
    pairs.iter().map(|(n, v)| (n.to_string(), v.to_string())).collect()
}

#[test]
fn encode_utf16_agrees_with_std() {
    for text in ["", "a", "h\u{e9}llo", "\u{ffff}", "\u{10000}", "\u{10ffff}", "a\u{1f600}b", "\u{d7ff}\u{e000}"] {
        let expected: Vec<u16> = text.encode_utf16().collect();
        assert_eq!(encode_utf16(text), expected);
    }
}

#[test]
fn encode_utf16_exact_units() {
    assert_eq!(encode_utf16("A"), vec![0x41]);
    assert_eq!(encode_utf16("\u{10000}"), vec![0xd800, 0xdc00]);
    assert_eq!(encode_utf16("\u{1f600}"), vec![0xd83d, 0xde00]);
    assert_eq!(encode_utf16("\u{10ffff}"), vec![0xdbff, 0xdfff]);
}

#[test]
fn units_le_is_lexicographic() {
    assert!(units_le_exec(&vec![], &vec![]));
    assert!(units_le_exec(&vec![], &vec![1]));
    assert!(!units_le_exec(&vec![1], &vec![]));
    assert!(units_le_exec(&vec![1, 2], &vec![1, 2]));
    assert!(units_le_exec(&vec![1, 2], &vec![1, 3]));
    assert!(!units_le_exec(&vec![1, 3], &vec![1, 2]));
    assert!(units_le_exec(&vec![1], &vec![1, 0]));
    assert!(!units_le_exec(&vec![2], &vec![1, 9]));
}

#[test]
fn name_le_orders_names() {
    assert!(name_le_exec("A", "a"));
    assert!(!name_le_exec("a", "A"));
    assert!(name_le_exec("a", "a"));
    assert!(name_le_exec("", "a"));
    assert!(name_le_exec("\u{10000}", "\u{ff61}"));
    assert!(!name_le_exec("\u{ff61}", "\u{10000}"));
    assert!(name_le_exec("\u{d7ff}", "\u{10000}"));
}

#[test]
fn find_first_gives_the_first_index() {
    let list = owned(&[("a", "1"), ("b", "2"), ("a", "3")]);
    assert_eq!(find_first(&list, &"a".to_string()), Some(0));
    assert_eq!(find_first(&list, &"b".to_string()), Some(1));
    assert_eq!(find_first(&list, &"c".to_string()), None);
    assert_eq!(find_first(&Vec::new(), &"a".to_string()), None);
}

#[test]
fn remove_named_from_spares_the_head() {
    let mut list = owned(&[("a", "1"), ("b", "2"), ("a", "3"), ("c", "4"), ("a", "5")]);
    remove_named_from(&mut list, &"a".to_string(), 1);
    assert_eq!(list, owned(&[("a", "1"), ("b", "2"), ("c", "4")]));
    remove_named_from(&mut list, &"a".to_string(), 0);
    assert_eq!(list, owned(&[("b", "2"), ("c", "4")]));
    remove_named_from(&mut list, &"b".to_string(), 2);
    assert_eq!(list, owned(&[("b", "2"), ("c", "4")]));
}

#[test]
fn sort_by_name_is_stable_and_sorted() {
    let mut list = owned(&[("c", "1"), ("a", "1"), ("b", "1"), ("a", "2"), ("c", "2"), ("a", "3")]);
    sort_by_name(&mut list);
    assert_eq!(
        list,
        owned(&[("a", "1"), ("a", "2"), ("a", "3"), ("b", "1"), ("c", "1"), ("c", "2")])
    );
}

#[test]
fn sort_by_name_agrees_with_std_stable_sort() {
    let mut list = owned(&[
        ("\u{ff61}", "1"), ("z", "2"), ("\u{10000}", "3"), ("Z", "4"), ("", "5"),
        ("z", "6"), ("\u{e9}", "7"), ("zz", "8"), ("\u{10000}", "9"),
    ]);
    let mut expected = list.clone();
    expected.sort_by(|(a, _), (b, _)| a.encode_utf16().cmp(b.encode_utf16()));
    sort_by_name(&mut list);
    assert_eq!(list, expected);
}
