//! Character-level vocabulary shared by the stages: white space, trimming and
//! the annotation markers.
use vstd::prelude::*;

verus! {

/// The Unicode `White_Space` property, which both `char::is_whitespace` and the
/// regex class `\s` follow.
pub open spec fn is_white(c: char) -> bool {
    let u = c as u32;
    (0x09 <= u && u <= 0x0d) || u == 0x20 || u == 0x85 || u == 0xa0 || u == 0x1680
        || (0x2000 <= u && u <= 0x200a) || u == 0x2028 || u == 0x2029 || u == 0x202f
        || u == 0x205f || u == 0x3000
}

/// `s` without its leading white space.
pub open spec fn trim_start_spec(s: Seq<char>) -> Seq<char>
    decreases s.len(),
{
    if s.len() > 0 && is_white(s[0]) {
        trim_start_spec(s.drop_first())
    } else {
        s
    }
}

/// `s` without its trailing white space.
pub open spec fn trim_end_spec(s: Seq<char>) -> Seq<char>
    decreases s.len(),
{
    if s.len() > 0 && is_white(s.last()) {
        trim_end_spec(s.drop_last())
    } else {
        s
    }
}

/// `s` without leading and trailing white space.
pub open spec fn trim_spec(s: Seq<char>) -> Seq<char> {
    trim_end_spec(trim_start_spec(s))
}

pub open spec fn has_prefix(s: Seq<char>, p: Seq<char>) -> bool {
    p.len() <= s.len() && s.subrange(0, p.len() as int) == p
}

/// The three characters that open every annotation line.
pub open spec fn annotation_prefix() -> Seq<char> {
    seq!['/', '/', '@']
}

/// A line is an annotation when, after its leading white space, it starts with the prefix.
pub open spec fn is_annotation(line: Seq<char>) -> bool {
    has_prefix(trim_start_spec(line), annotation_prefix())
}

/// The characters allowed right after the prefix: title, prose, region open, region close.
pub open spec fn is_marker(c: char) -> bool {
    c == '@' || c == ' ' || c == '{' || c == '}'
}

/// `t` has the marker `m`: the character right after the prefix.
pub open spec fn has_marker(t: Seq<char>, m: char) -> bool {
    t.len() > 3 && t[3] == m
}

pub open spec fn is_title(t: Seq<char>) -> bool {
    has_prefix(t, seq!['/', '/', '@', '@'])
}

pub open spec fn is_prose(t: Seq<char>) -> bool {
    has_prefix(t, seq!['/', '/', '@', ' '])
}

pub open spec fn is_open(t: Seq<char>) -> bool {
    has_prefix(t, seq!['/', '/', '@', '{'])
}

pub open spec fn is_close(t: Seq<char>) -> bool {
    has_prefix(t, seq!['/', '/', '@', '}'])
}

/// Relies on `str::trim`: the slice without leading and trailing White_Space.
#[verifier::external_body]
pub(crate) fn trim<'a>(s: &'a str) -> (r: &'a str)
    ensures
        r@ == trim_spec(s@),
{
    s.trim()
}

/// Relies on `str::trim_start`: the slice without leading White_Space.
#[verifier::external_body]
pub(crate) fn trim_start<'a>(s: &'a str) -> (r: &'a str)
    ensures
        r@ == trim_start_spec(s@),
{
    s.trim_start()
}

/// Whether `s` starts with the four characters `a b c d`.
pub fn starts_with4(s: &str, a: char, b: char, c: char, d: char) -> (r: bool)
    ensures
        r == has_prefix(s@, seq![a, b, c, d]),
{
    let n = s.unicode_len();
    if n < 4 {
        return false;
    }
    let r = s.get_char(0) == a && s.get_char(1) == b && s.get_char(2) == c && s.get_char(3) == d;
    assert(r == (s@.subrange(0, 4) =~= seq![a, b, c, d]));
    r
}

} // verus!
