use rust_url::jsurl::{
    new_params, params_append, params_at, params_delete, params_get, params_get_all, params_has,
    params_init, params_set, params_sort, params_to_string, JSUrlSearchParams,
};
use rust_url::marshal::{JSSearchParam, SpecSlice, SpecString};

fn s(text: &str) -> SpecString {
    SpecString::from(text.to_string())
}

fn listed(params: &JSUrlSearchParams) -> Vec<(String, String)> {
    let mut out = Vec::new();
    let mut index = 0;
    loop {
        let mut step = JSSearchParam {
            name: SpecSlice::new(None),
            value: SpecSlice::new(None),
            done: false,
        };
        params_at(params, index, &mut step);
        if step.done {
            return out;
        }
        out.push((
            step.name.as_str().unwrap().to_string(),
            step.value.as_str().unwrap().to_string(),
        ));
        index += 1;
    }
}

fn from_pairs(pairs: &[(&str, &str)]) -> JSUrlSearchParams {
    let mut params = new_params();
    for (name, value) in pairs {
        params_append(&mut params, s(name), s(value));
    }
    params
}

fn owned(pairs: &[(&str, &str)]) -> Vec<(String, String)> {
    pairs.iter().map(|(n, v)| (n.to_string(), v.to_string())).collect()
}

fn text(params: &JSUrlSearchParams) -> String {
    params_to_string(params).as_str().unwrap().to_string()
}

#[test]
fn new_params_is_empty() {
    let params = new_params();
    assert_eq!(listed(&params), owned(&[]));
    assert_eq!(text(&params), "");
    assert!(params_to_string(&params).is_missing());
}

#[test]
fn append_keeps_insertion_order() {
    let params = from_pairs(&[("b", "1"), ("a", "2"), ("b", "3")]);
    assert_eq!(listed(&params), owned(&[("b", "1"), ("a", "2"), ("b", "3")]));
    assert_eq!(text(&params), "b=1&a=2&b=3");
}

#[test]
fn set_overwrites_first_and_drops_later() {
    let mut params = from_pairs(&[("a", "1"), ("b", "2"), ("a", "3")]);
    params_set(&mut params, s("a"), s("9"));
    assert_eq!(listed(&params), owned(&[("a", "9"), ("b", "2")]));
    assert_eq!(text(&params), "a=9&b=2");
}

#[test]
fn set_keeps_the_place_of_the_first() {
    let mut params = from_pairs(&[("x", "0"), ("a", "1"), ("b", "2"), ("a", "3"), ("c", "4"), ("a", "5")]);
    params_set(&mut params, s("a"), s("9"));
    assert_eq!(
        listed(&params),
        owned(&[("x", "0"), ("a", "9"), ("b", "2"), ("c", "4")])
    );
}

#[test]
fn set_appends_when_absent() {
    let mut params = from_pairs(&[("a", "1")]);
    params_set(&mut params, s("b"), s("2"));
    assert_eq!(listed(&params), owned(&[("a", "1"), ("b", "2")]));
    assert_eq!(text(&params), "a=1&b=2");
}

#[test]
fn set_on_empty_list() {
    let mut params = new_params();
    params_set(&mut params, s("k"), s("v"));
    assert_eq!(listed(&params), owned(&[("k", "v")]));
}

#[test]
fn delete_removes_every_match() {
    let mut params = from_pairs(&[("a", "1"), ("b", "2"), ("a", "3")]);
    params_delete(&mut params, &s("a"));
    assert_eq!(listed(&params), owned(&[("b", "2")]));
    assert_eq!(text(&params), "b=2");
}

#[test]
fn delete_is_exact_on_names() {
    let mut params = from_pairs(&[("a", "1"), ("A", "2"), ("aa", "3"), ("", "4")]);
    params_delete(&mut params, &s("a"));
    assert_eq!(listed(&params), owned(&[("A", "2"), ("aa", "3"), ("", "4")]));
    params_delete(&mut params, &s(""));
    assert_eq!(listed(&params), owned(&[("A", "2"), ("aa", "3")]));
}

#[test]
fn delete_of_absent_name_keeps_list() {
    let mut params = from_pairs(&[("a", "1")]);
    params_delete(&mut params, &s("zz"));
    assert_eq!(listed(&params), owned(&[("a", "1")]));
    assert_eq!(text(&params), "a=1");
}

#[test]
fn has_tells_presence() {
    let params = from_pairs(&[("a", "1"), ("b", "")]);
    assert!(params_has(&params, &s("a")));
    assert!(params_has(&params, &s("b")));
    assert!(!params_has(&params, &s("c")));
    assert!(!params_has(&params, &s("A")));
    assert!(!params_has(&new_params(), &s("a")));
}

#[test]
fn get_gives_first_value() {
    let params = from_pairs(&[("a", "1"), ("b", "2"), ("a", "3")]);
    assert_eq!(params_get(&params, &s("a")).as_str(), Some("1"));
    assert_eq!(params_get(&params, &s("b")).as_str(), Some("2"));
}

#[test]
fn get_of_absent_name_is_missing() {
    let params = from_pairs(&[("a", "1")]);
    let view = params_get(&params, &s("nope"));
    assert!(view.is_missing());
    assert_eq!(view.len(), 0);
}

#[test]
fn get_tells_an_empty_value_from_a_missing_name() {
    let params = from_pairs(&[("a", ""), ("b", "x")]);
    let view = params_get(&params, &s("a"));
    assert!(params_has(&params, &s("a")));
    assert!(!view.is_missing());
    assert_eq!(view.len(), 0);
    assert_eq!(view.as_str(), Some(""));
    let none = params_get(&params, &s("c"));
    assert!(!params_has(&params, &s("c")));
    assert!(none.is_missing());
}

#[test]
fn get_is_missing_exactly_where_has_is_false() {
    let params = from_pairs(&[("a", ""), ("", ""), ("b", "1"), ("a", "2")]);
    for name in ["a", "", "b", "c", "A", " "] {
        assert_eq!(params_get(&params, &s(name)).is_missing(), !params_has(&params, &s(name)));
    }
}

#[test]
fn get_all_in_list_order() {
    let params = from_pairs(&[("a", "1"), ("b", "2"), ("a", "3"), ("a", "")]);
    let all = params_get_all(&params, &s("a"));
    assert_eq!(all.len(), 3);
    assert_eq!(all.get(0).unwrap().as_str(), Some("1"));
    assert_eq!(all.get(1).unwrap().as_str(), Some("3"));
    assert_eq!(all.get(2).unwrap().as_str(), Some(""));
    assert!(all.get(3).is_none());
}

#[test]
fn get_all_without_match_is_empty() {
    let params = from_pairs(&[("a", "1")]);
    let all = params_get_all(&params, &s("b"));
    assert_eq!(all.len(), 0);
    assert!(all.get(0).is_none());
    assert_eq!(params_get_all(&new_params(), &s("a")).len(), 0);
}

#[test]
fn at_walks_the_list() {
    let params = from_pairs(&[("a", "1"), ("b", "2")]);
    let mut step = JSSearchParam {
        name: SpecSlice::new(None),
        value: SpecSlice::new(None),
        done: true,
    };
    params_at(&params, 1, &mut step);
    assert!(!step.done);
    assert_eq!(step.name.as_str(), Some("b"));
    assert_eq!(step.value.as_str(), Some("2"));
    params_at(&params, 2, &mut step);
    assert!(step.done);
    assert_eq!(step.name.as_str(), Some("b"));
    assert_eq!(step.value.as_str(), Some("2"));
}

#[test]
fn sort_orders_by_code_units() {
    let mut params = from_pairs(&[("B", "2"), ("b", "3"), ("A", "4"), ("a", "1")]);
    params_sort(&mut params);
    assert_eq!(
        listed(&params),
        owned(&[("A", "4"), ("B", "2"), ("a", "1"), ("b", "3")])
    );
    assert_eq!(text(&params), "A=4&B=2&a=1&b=3");
}

#[test]
fn sort_is_stable() {
    let mut params = from_pairs(&[("b", "1"), ("a", "1"), ("b", "2"), ("a", "2"), ("b", "3"), ("a", "3")]);
    params_sort(&mut params);
    assert_eq!(
        listed(&params),
        owned(&[("a", "1"), ("a", "2"), ("a", "3"), ("b", "1"), ("b", "2"), ("b", "3")])
    );
}

#[test]
fn sort_puts_surrogates_before_high_bmp() {
    let mut params = from_pairs(&[("\u{ff61}", "bmp"), ("\u{10000}", "astral"), ("z", "ascii")]);
    params_sort(&mut params);
    assert_eq!(
        listed(&params),
        owned(&[("z", "ascii"), ("\u{10000}", "astral"), ("\u{ff61}", "bmp")])
    );
}

#[test]
fn sort_puts_prefix_first() {
    let mut params = from_pairs(&[("ab", "1"), ("a", "2"), ("", "3")]);
    params_sort(&mut params);
    assert_eq!(listed(&params), owned(&[("", "3"), ("a", "2"), ("ab", "1")]));
}

#[test]
fn sort_of_empty_and_single() {
    let mut params = new_params();
    params_sort(&mut params);
    assert_eq!(listed(&params), owned(&[]));
    let mut one = from_pairs(&[("k", "v")]);
    params_sort(&mut one);
    assert_eq!(listed(&one), owned(&[("k", "v")]));
}

#[test]
fn init_strips_one_question_mark() {
    let mut with_mark = new_params();
    params_init(&mut with_mark, &s("?a=1&b=2"));
    let mut without = new_params();
    params_init(&mut without, &s("a=1&b=2"));
    assert_eq!(listed(&with_mark), owned(&[("a", "1"), ("b", "2")]));
    assert_eq!(listed(&without), owned(&[("a", "1"), ("b", "2")]));
}

#[test]
fn init_strips_only_one_question_mark() {
    let mut params = new_params();
    params_init(&mut params, &s("??a=1"));
    assert_eq!(listed(&params), owned(&[("?a", "1")]));
}

#[test]
fn init_replaces_the_list() {
    let mut params = from_pairs(&[("old", "1")]);
    params_init(&mut params, &s("new=2"));
    assert_eq!(listed(&params), owned(&[("new", "2")]));
    assert_eq!(text(&params), "new=2");
    params_init(&mut params, &s(""));
    assert_eq!(listed(&params), owned(&[]));
    assert_eq!(text(&params), "");
}

#[test]
fn init_decodes_percent_and_plus() {
    let mut params = new_params();
    params_init(&mut params, &s("%23first=%25try%25&a+b=c+d&&novalue&=x"));
    assert_eq!(
        listed(&params),
        owned(&[("#first", "%try%"), ("a b", "c d"), ("novalue", ""), ("", "x")])
    );
}

#[test]
fn init_takes_bytes_that_are_not_text() {
    let mut params = new_params();
    params_init(&mut params, &SpecString::from_bytes(vec![b'a', b'=', 0xff]));
    assert_eq!(listed(&params), owned(&[("a", "\u{fffd}")]));
}

#[test]
fn to_string_forms() {
    assert_eq!(text(&new_params()), "");
    assert_eq!(text(&from_pairs(&[("a", "1")])), "a=1");
    assert_eq!(text(&from_pairs(&[("a", " ")])), "a=+");
}

#[test]
fn to_string_percent_encodes() {
    let params = from_pairs(&[("foo", "bar & baz"), ("saison", "\u{c9}t\u{e9}+hiver")]);
    assert_eq!(text(&params), "foo=bar+%26+baz&saison=%C3%89t%C3%A9%2Bhiver");
}

#[test]
fn names_that_are_not_text_match_nothing() {
    let mut params = from_pairs(&[("a", "1")]);
    let bad = SpecString::from_bytes(vec![0xff, 0xfe]);
    assert!(!params_has(&params, &bad));
    assert!(params_get(&params, &bad).is_missing());
    assert_eq!(params_get_all(&params, &bad).len(), 0);
    params_delete(&mut params, &bad);
    assert_eq!(listed(&params), owned(&[("a", "1")]));
}

#[test]
fn append_and_set_ignore_what_is_not_text() {
    let mut params = from_pairs(&[("a", "1")]);
    params_append(&mut params, SpecString::from_bytes(vec![0xc0]), s("v"));
    params_append(&mut params, s("n"), SpecString::from_bytes(vec![0xc0]));
    params_set(&mut params, s("a"), SpecString::from_bytes(vec![0x80]));
    params_set(&mut params, SpecString::from_bytes(vec![0x80]), s("v"));
    assert_eq!(listed(&params), owned(&[("a", "1")]));
    assert_eq!(text(&params), "a=1");
}
