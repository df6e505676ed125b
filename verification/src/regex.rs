//! The regular expression literals of a script, and the block of
//! JavaScript that compiles them ahead of time.
//!
//! The engine interns regular expressions, so running each literal once at
//! the top level, on an ASCII and on a non-ASCII subject, keeps it from being
//! compiled again later.
use crate::outside::{captures_in_javascript, javascript_captures, text_of_bytes, view_ranges};
use vstd::prelude::*;
use vstd::slice::slice_subrange;
use vstd::string::StringExecFns;
use vstd::string::StringSliceAdditionalSpecFns;
use vstd::utf8::{decode_utf8, encode_utf8, valid_utf8};

verus! {

/// A regular expression literal of a script: what stands between the slashes,
/// and the flags after them.
pub struct RegexLiteral<'a> {
    pub pattern: &'a str,
    pub flags: &'a str,
}

impl<'a> RegexLiteral<'a> {
    /// The pattern and the flags, as text.
    pub open spec fn view(&self) -> (Seq<char>, Seq<char>) {
        (self.pattern@, self.flags@)
    }
}

/// The literals of a slice, as text.
pub open spec fn view_literals(literals: Seq<RegexLiteral<'_>>) -> Seq<(Seq<char>, Seq<char>)> {
    Seq::new(literals.len(), |i: int| literals[i].view())
}

/// The opening of the block, which defines the helper that runs a literal.
pub open spec fn preamble() -> Seq<char> {
    ";{\n// Precompiled regular expressions\nconst precompile = (r) => { r.exec('a'); r.exec('\\u1000'); }\n"@
}

/// The line that runs the literal `/pattern/flags`.
pub open spec fn precompile_line(literal: (Seq<char>, Seq<char>)) -> Seq<char> {
    "precompile(/"@ + literal.0 + "/"@ + literal.1 + ");\n"@
}

/// The lines that run `literals`, in order.
pub open spec fn precompile_lines(literals: Seq<(Seq<char>, Seq<char>)>) -> Seq<char>
    decreases literals.len(),
{
    if literals.len() == 0 {
        Seq::empty()
    } else {
        precompile_lines(literals.drop_last()) + precompile_line(literals.last())
    }
}

/// The whole block: the opening, one line for each literal, and the closing
/// brace on a line of its own.
pub open spec fn precompile_text(literals: Seq<(Seq<char>, Seq<char>)>) -> Seq<char> {
    preamble() + precompile_lines(literals) + "}\n"@
}

/// The block of JavaScript that runs each of `literals` once, in the order
/// given.
pub fn precompile(literals: &[RegexLiteral]) -> (r: String)
    ensures
        r@ == precompile_text(view_literals(literals@)),
{
    let ghost lits = view_literals(literals@);
    let mut out = String::from_str(
        ";{\n// Precompiled regular expressions\nconst precompile = (r) => { r.exec('a'); r.exec('\\u1000'); }\n",
    );
    let mut i: usize = 0;
    assert(lits.take(0) == Seq::<(Seq<char>, Seq<char>)>::empty());
    assert(out@ == preamble() + precompile_lines(lits.take(0)));
    while i < literals.len()
        invariant
            i <= literals.len(),
            lits == view_literals(literals@),
            out@ == preamble() + precompile_lines(lits.take(i as int)),
        decreases literals.len() - i,
    {
        let ghost before = out@;
        out.append("precompile(/");
        out.append(literals[i].pattern);
        out.append("/");
        out.append(literals[i].flags);
        out.append(");\n");
        proof {
            assert(lits.take(i + 1).drop_last() == lits.take(i as int));
            assert(lits.take(i + 1).last() == lits[i as int]);
            assert(out@ == before + precompile_line(lits[i as int]));
        }
        i += 1;
    }
    assert(lits.take(i as int) == lits);
    out.append("}\n");
    out
}

/// The text of the bytes of `source` from `span.0` up to `span.1`; `None`
/// where that is no range of `source` or the bytes in it are not text.
pub open spec fn span_text(source: Seq<u8>, span: (usize, usize)) -> Option<Seq<char>> {
    if span.0 <= span.1 <= source.len() && valid_utf8(
        source.subrange(span.0 as int, span.1 as int),
    ) {
        Some(decode_utf8(source.subrange(span.0 as int, span.1 as int)))
    } else {
        None
    }
}

/// The literal that one match of the query stands for: the first capture is
/// the pattern; a match of two captures has the flags second, any other has
/// no flags. There is none where the match captures nothing or a capture it
/// reads is no text of `source`.
pub open spec fn literal_of(source: Seq<u8>, captures: Seq<(usize, usize)>) -> Option<
    (Seq<char>, Seq<char>),
> {
    if captures.len() == 0 {
        None
    } else {
        match span_text(source, captures[0]) {
            None => None,
            Some(pattern) => if captures.len() == 2 {
                match span_text(source, captures[1]) {
                    None => None,
                    Some(flags) => Some((pattern, flags)),
                }
            } else {
                Some((pattern, Seq::empty()))
            },
        }
    }
}

/// The literals that `matches` stand for, in order.
pub open spec fn literals_in(source: Seq<u8>, matches: Seq<Seq<(usize, usize)>>) -> Seq<
    (Seq<char>, Seq<char>),
>
    decreases matches.len(),
{
    if matches.len() == 0 {
        Seq::empty()
    } else {
        match literal_of(source, matches.last()) {
            Some(literal) => literals_in(source, matches.drop_last()).push(literal),
            None => literals_in(source, matches.drop_last()),
        }
    }
}

/// The text of `source` in the byte range `span`, where there is one.
fn text_in<'a>(source: &'a str, span: (usize, usize)) -> (r: Option<&'a str>)
    ensures
        r is Some == span_text(encode_utf8(source@), span) is Some,
        r matches Some(s) ==> span_text(encode_utf8(source@), span) == Some(s@),
{
    let bytes = source.as_bytes();
    if span.0 <= span.1 && span.1 <= bytes.len() {
        let r = text_of_bytes(slice_subrange(bytes, span.0, span.1));
        proof {
            if let Some(s) = r {
                vstd::utf8::encode_utf8_decode_utf8(s@);
            }
        }
        r
    } else {
        None
    }
}

/// Reads the literals of `text` off the matches of the literal query, given
/// as byte ranges into `text`.
pub fn literals_of<'a>(text: &'a str, matches: &Vec<Vec<(usize, usize)>>) -> (r: Vec<
    RegexLiteral<'a>,
>)
    ensures
        view_literals(r@) == literals_in(encode_utf8(text@), view_ranges(matches@)),
{
    let ghost source = encode_utf8(text@);
    let ghost all = view_ranges(matches@);
    let mut out: Vec<RegexLiteral<'a>> = Vec::new();
    let mut i: usize = 0;
    assert(all.take(0) == Seq::<Seq<(usize, usize)>>::empty());
    assert(view_literals(out@) =~= Seq::<(Seq<char>, Seq<char>)>::empty());
    while i < matches.len()
        invariant
            i <= matches.len(),
            source == encode_utf8(text@),
            all == view_ranges(matches@),
            view_literals(out@) == literals_in(source, all.take(i as int)),
        decreases matches.len() - i,
    {
        let captures = &matches[i];
        let ghost before = view_literals(out@);
        proof {
            assert(all.take(i + 1).drop_last() == all.take(i as int));
            assert(all.take(i + 1).last() == captures@);
        }
        if captures.len() > 0 {
            if let Some(pattern) = text_in(text, captures[0]) {
                if captures.len() == 2 {
                    if let Some(flags) = text_in(text, captures[1]) {
                        out.push(RegexLiteral { pattern, flags });
                        assert(view_literals(out@) =~= before.push((pattern@, flags@)));
                    }
                } else {
                    proof {
                        reveal_strlit("");
                        assert(""@ =~= Seq::<char>::empty());
                    }
                    out.push(RegexLiteral { pattern, flags: "" });
                    assert(view_literals(out@) =~= before.push((pattern@, ""@)));
                }
            }
        }
        i += 1;
    }
    assert(all.take(i as int) == all);
    out
}

/// The tree-sitter query that finds a regular expression literal: its
/// pattern, and its flags where it has any.
pub open spec fn literal_query() -> Seq<char> {
    "(regex pattern: (regex_pattern) @pattern flags: (regex_flags)? @flags)"@
}

/// The regular expression literals of the JavaScript text `text`, in the
/// order in which they stand.
pub fn find_literals<'a>(text: &'a str) -> (r: Vec<RegexLiteral<'a>>)
    ensures
        view_literals(r@) == literals_in(
            encode_utf8(text@),
            javascript_captures(text@, literal_query()),
        ),
{
    let matches = captures_in_javascript(
        text,
        "(regex pattern: (regex_pattern) @pattern flags: (regex_flags)? @flags)",
    );
    literals_of(text, &matches)
}

} // verus!
