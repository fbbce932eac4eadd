//! Regular expressions, as the `regex` crate compiles and matches them.

use vstd::prelude::*;

use crate::text;

verus! {

/// A compiled regular expression of the `regex` crate.
#[verifier::external_type_specification]
#[verifier::external_body]
pub struct ExRegex(regex::Regex);

/// What `regex::Regex::new` says against a pattern: the text of its error, or `None` where
/// the pattern compiles.
pub uninterp spec fn regex_error(pattern: Seq<char>) -> Option<Seq<char>>;

/// The pattern that a compiled regular expression holds.
pub uninterp spec fn regex_source(re: regex::Regex) -> Seq<char>;

/// Whether `regex::Regex::is_match` finds the pattern in the text.
pub uninterp spec fn regex_matches(pattern: Seq<char>, text: Seq<char>) -> bool;

/// The characters that have no other meaning in a pattern than themselves: here the ASCII
/// letters and digits, `-`, `_` and `/`.
pub open spec fn is_plain(c: char) -> bool {
    ('a' <= c && c <= 'z') || ('A' <= c && c <= 'Z') || ('0' <= c && c <= '9') || c == '-' || c
        == '_' || c == '/'
}

/// A pattern that stands for itself.
pub open spec fn plain(s: Seq<char>) -> bool {
    forall|i: int| 0 <= i < s.len() ==> is_plain(#[trigger] s[i])
}

/// Patterns that stand for themselves, at least one.
pub open spec fn plain_texts(alternatives: Seq<Seq<char>>) -> bool {
    alternatives.len() > 0 && forall|i: int|
        0 <= i < alternatives.len() ==> plain(#[trigger] alternatives[i])
}

/// The longest pattern that is known to stay below the crate's limit on the size of a compiled
/// form, which is ten megabytes.
pub const SHORT_PATTERN: usize = 1000;

/// A pattern that is known to compile: at most a thousand characters of alternatives that stand for
/// themselves.
pub open spec fn short_alternatives(pattern: Seq<char>, alternatives: Seq<Seq<char>>) -> bool {
    &&& plain_texts(alternatives)
    &&& pattern == text::joined(alternatives, "|"@)
    &&& pattern.len() <= SHORT_PATTERN
}

/// Calls `regex::Regex::new`. A pattern either compiles, and the compiled form holds that
/// pattern, or is refused with the text of the crate's error. The pattern `.*` compiles, and so do
/// short patterns of plain alternatives, with `^` in front or not.
#[verifier::external_body]
pub(crate) fn compile(pattern: &str) -> (res: Result<regex::Regex, String>)
    ensures
        match res {
            Ok(re) => regex_error(pattern@) is None && regex_source(re) == pattern@,
            Err(message) => regex_error(pattern@) == Some(message@),
        },
        pattern@ == ".*"@ ==> res is Ok,
        forall|alternatives: Seq<Seq<char>>, short: Seq<char>| #[trigger]
            short_alternatives(short, alternatives) && (pattern@ == short || pattern@ == "^"@
                + short) ==> res is Ok,
{
    regex::Regex::new(pattern).map_err(|e| e.to_string())
}

/// Calls `regex::Regex::is_match`: whether the pattern that `re` holds is found in `text`
/// is a function of the two texts. A plain pattern is found where it occurs.
#[verifier::external_body]
pub(crate) fn is_match(re: &regex::Regex, text: &str) -> (res: bool)
    ensures
        res == regex_matches(regex_source(*re), text@),
        plain(regex_source(*re)) ==> res == text::occurs(text@, regex_source(*re)),
{
    re.is_match(text)
}

/// The byte at which the leftmost match that `regex::Regex::find` finds in a text begins.
pub uninterp spec fn regex_found(pattern: Seq<char>, text: Seq<char>) -> Option<int>;

/// The text begins with one of the alternatives.
pub open spec fn begins_with_any(text: Seq<char>, alternatives: Seq<Seq<char>>) -> bool {
    exists|i: int|
        0 <= i < alternatives.len() && text::occurs_at(text, #[trigger] alternatives[i], 0)
}

/// Calls `regex::Regex::find` and takes the byte at which the match begins, which is a function
/// of the pattern that `re` holds and of the text. The match is the leftmost one: for `.*` it
/// begins at the start of every text, and for `^` with plain alternatives behind it at the start
/// of exactly those texts that begin with one of the alternatives.
#[verifier::external_body]
pub(crate) fn find(re: &regex::Regex, text: &str) -> (res: Option<usize>)
    ensures
        match res {
            Some(at) => regex_found(regex_source(*re), text@) == Some(at as int),
            None => regex_found(regex_source(*re), text@) is None,
        },
        regex_source(*re) == ".*"@ ==> res == Some(0usize),
        forall|alternatives: Seq<Seq<char>>| #[trigger]
            plain_texts(alternatives) && regex_source(*re) == "^"@ + text::joined(
                alternatives,
                "|"@,
            ) ==> (res == Some(0usize)) == begins_with_any(text@, alternatives),
{
    re.find(text).map(|m| m.start())
}

/// `c` is an ASCII character.
pub open spec fn is_ascii(c: char) -> bool {
    c as u32 <= 127
}

/// The characters that `\d` stands for: the ASCII digits, and beyond ASCII what the `regex`
/// crate counts as a decimal digit. Whitespace is none.
pub open spec fn is_decimal(c: char) -> bool {
    if is_ascii(c) {
        '0' <= c <= '9'
    } else if text::is_space(c) {
        false
    } else {
        regex_error("^\\d$"@) is None && regex_matches("^\\d$"@, seq![c])
    }
}

/// Whether `\d` stands for `c`.
pub fn decimal_digit(c: char) -> (res: bool)
    ensures
        res == is_decimal(c),
{
    if (c as u32) <= 127 {
        '0' <= c && c <= '9'
    } else if text::is_whitespace(c) {
        false
    } else {
        match compile("^\\d$") {
            Ok(re) => {
                let mut one = String::new();
                one.push(c);
                assert(one@ == seq![c]);
                is_match(&re, one.as_str())
            },
            Err(_) => false,
        }
    }
}

/// Of the ASCII characters, exactly the ten digits are decimal digits; whitespace never is one.
pub proof fn law_decimal_digits(c: char)
    ensures
        c as u32 <= 127 ==> (is_decimal(c) <==> 48 <= c as u32 <= 57),
        c == '\u{a0}' || c == '\u{2003}' || c == '\u{3000}' ==> !is_decimal(c),
{
}

/// Letters, ASCII digits and three signs stand for themselves in a pattern; what has a meaning of
/// its own there does not.
pub proof fn law_plain_characters(c: char)
    ensures
        is_plain(c) ==> c != '.' && c != '*' && c != '+' && c != '?' && c != '|' && c != '^' && c
            != '$' && c != '(' && c != ')' && c != '[' && c != ']' && c != '{' && c != '}' && c
            != '\\' && c as u32 <= 127,
{
}

/// A text begins with one of several texts exactly where it begins with the first of them or with
/// one of the others.
pub proof fn law_begins_with_any(text: Seq<char>, first: Seq<char>, others: Seq<Seq<char>>)
    ensures
        begins_with_any(text, seq![first] + others) <==> text::occurs_at(text, first, 0)
            || begins_with_any(text, others),
        !begins_with_any(text, Seq::empty()),
{
    let all = seq![first] + others;
    if text::occurs_at(text, first, 0) {
        assert(text::occurs_at(text, all[0], 0));
    }
    if begins_with_any(text, others) {
        let i = choose|i: int|
            0 <= i < others.len() && text::occurs_at(text, #[trigger] others[i], 0);
        assert(text::occurs_at(text, all[i + 1], 0));
    }
    if begins_with_any(text, all) {
        let i = choose|i: int| 0 <= i < all.len() && text::occurs_at(text, #[trigger] all[i], 0);
        if i > 0 {
            assert(text::occurs_at(text, others[i - 1], 0));
        }
    }
}

/// Text stands for itself where each of its characters does, and alternatives do where there is one
/// and each does. A pattern of them is short up to a thousand characters.
pub proof fn law_plain_texts(s: Seq<char>, c: char, alternatives: Seq<Seq<char>>)
    ensures
        plain(Seq::empty()),
        plain(s.push(c)) == (plain(s) && is_plain(c)),
        plain_texts(seq![s]) == plain(s),
        !plain_texts(Seq::empty()),
        alternatives.len() > 0 ==> plain_texts(alternatives.push(s)) == (plain_texts(alternatives)
            && plain(s)),
        short_alternatives(s, alternatives) == (plain_texts(alternatives) && s == text::joined(
            alternatives,
            "|"@,
        ) && s.len() <= 1000),
{
    if plain(s.push(c)) {
        assert forall|i: int| 0 <= i < s.len() implies is_plain(#[trigger] s[i]) by {
            assert(s.push(c)[i] == s[i]);
        }
        assert(s.push(c)[s.len() as int] == c);
    }
    assert(seq![s][0] == s);
    if alternatives.len() > 0 && plain_texts(alternatives.push(s)) {
        let more = alternatives.push(s);
        assert forall|i: int| 0 <= i < alternatives.len() implies plain(
            #[trigger] alternatives[i],
        ) by {
            assert(more[i] == alternatives[i]);
        }
        assert(more[alternatives.len() as int] == s);
    }
}

} // verus!
