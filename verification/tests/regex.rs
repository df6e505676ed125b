use rust_url::regex::{precompile, RegexLiteral};

const OPENING: &str = ";{\n// Precompiled regular expressions\nconst precompile = (r) => { r.exec('a'); r.exec('\\u1000'); }\n";

#[test]
fn precompile_without_literals() {
    assert_eq!(precompile(&[]), format!("{}}}\n", OPENING));
}

#[test]
fn precompile_one_literal() {
    let lits = [RegexLiteral { pattern: "a+b", flags: "gi" }];
    assert_eq!(precompile(&lits), format!("{}precompile(/a+b/gi);\n}}\n", OPENING));
}

#[test]
fn precompile_keeps_order_and_empty_flags() {
    let lits = [
        RegexLiteral { pattern: "\\d+", flags: "" },
        RegexLiteral { pattern: "[a-z]", flags: "u" },
    ];
    assert_eq!(
        precompile(&lits),
        format!("{}precompile(/\\d+/);\nprecompile(/[a-z]/u);\n}}\n", OPENING)
    );
}

fn found(text: &str) -> Vec<(String, String)> {
    rust_url::regex::find_literals(text)
        .iter()
        .map(|l| (l.pattern.to_string(), l.flags.to_string()))
        .collect()
}

fn pairs(items: &[(&str, &str)]) -> Vec<(String, String)> {
    items.iter().map(|(p, f)| (p.to_string(), f.to_string())).collect()
}

#[test]
fn find_literals_in_a_script() {
    let text = "const a = /ab+c/gi;\nlet b = x.match(/\\d+/);\nconst s = 'not /a/ regex';\n";
    assert_eq!(found(text), pairs(&[("ab+c", "gi"), ("\\d+", "")]));
}

#[test]
fn find_literals_without_any() {
    assert_eq!(found("let x = 1 / 2 / 3;"), pairs(&[]));
    assert_eq!(found(""), pairs(&[]));
}

#[test]
fn find_literals_with_text_beyond_ascii() {
    let text = "// \u{e9}t\u{e9}\nconst r = /\u{1f600}+/u;";
    assert_eq!(found(text), pairs(&[("\u{1f600}+", "u")]));
}

#[test]
fn literals_of_reads_ranges() {
    let text = "xx/ab/g";
    let matches = vec![vec![(3, 5), (6, 7)], vec![(3, 5)], vec![], vec![(5, 3)], vec![(0, 99)]];
    let lits: Vec<(String, String)> = rust_url::regex::literals_of(text, &matches)
        .iter()
        .map(|l| (l.pattern.to_string(), l.flags.to_string()))
        .collect();
    assert_eq!(lits, pairs(&[("ab", "g"), ("ab", "")]));
}

#[test]
fn literals_of_skips_ranges_that_split_a_character() {
    let text = "\u{e9}a";
    let matches = vec![vec![(1, 3)], vec![(2, 3)], vec![(0, 2), (0, 1)]];
    let lits: Vec<(String, String)> = rust_url::regex::literals_of(text, &matches)
        .iter()
        .map(|l| (l.pattern.to_string(), l.flags.to_string()))
        .collect();
    assert_eq!(lits, pairs(&[("a", "")]));
}

#[test]
fn find_then_precompile() {
    let text = "if (/^a$/m.test(s)) {}";
    let lits = rust_url::regex::find_literals(text);
    assert_eq!(precompile(&lits), format!("{}precompile(/^a$/m);\n}}\n", OPENING));
}
