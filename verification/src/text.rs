//! Character-level text operations over strings.

use vstd::prelude::*;

verus! {

/// `String::push` adds one character at the end.
pub assume_specification[ String::push ](s: &mut String, c: char)
    ensures
        final(s)@ == old(s)@.push(c),
;

/// `String::pop` takes the last character off, or answers `None` on an empty text.
pub assume_specification[ String::pop ](s: &mut String) -> (res: Option<char>)
    ensures
        old(s)@.len() == 0 ==> res is None && final(s)@ == old(s)@,
        old(s)@.len() > 0 ==> res == Some(old(s)@.last()) && final(s)@ == old(s)@.drop_last(),
;

/// The texts that a sequence of strings holds.
pub open spec fn texts(s: Seq<String>) -> Seq<Seq<char>> {
    s.map_values(|t: String| t@)
}

/// The text of an optional string.
pub open spec fn opt_text(s: Option<String>) -> Option<Seq<char>> {
    match s {
        Some(t) => Some(t@),
        None => None,
    }
}

/// A copy of an optional string.
pub fn copy_opt(s: &Option<String>) -> (res: Option<String>)
    ensures
        res == *s,
{
    match s {
        Some(t) => Some(t.clone()),
        None => None,
    }
}

/// A copy of an optional string, empty where there is none.
pub fn copy_or_empty(s: &Option<String>) -> (res: String)
    ensures
        res@ == match *s {
            Some(t) => t@,
            None => Seq::empty(),
        },
{
    match s {
        Some(t) => t.clone(),
        None => String::new(),
    }
}

/// A copy of a list of strings.
pub fn copy_all(v: &Vec<String>) -> (res: Vec<String>)
    ensures
        res@ == v@,
{
    let mut out: Vec<String> = Vec::new();
    let mut i: usize = 0;
    while i < v.len()
        invariant
            i <= v@.len(),
            out@ == v@.take(i as int),
        decreases v.len() - i,
    {
        out.push(v[i].clone());
        i += 1;
    }
    out
}

/// The characters with Unicode's `White_Space` property.
pub open spec fn is_space(c: char) -> bool {
    ||| '\u{9}' <= c <= '\u{d}'
    ||| c == '\u{20}'
    ||| c == '\u{85}'
    ||| c == '\u{a0}'
    ||| c == '\u{1680}'
    ||| '\u{2000}' <= c <= '\u{200a}'
    ||| c == '\u{2028}'
    ||| c == '\u{2029}'
    ||| c == '\u{202f}'
    ||| c == '\u{205f}'
    ||| c == '\u{3000}'
}

pub fn is_whitespace(c: char) -> (res: bool)
    ensures
        res == is_space(c),
{
    ('\u{9}' <= c && c <= '\u{d}') || c == '\u{20}' || c == '\u{85}' || c == '\u{a0}'
        || c == '\u{1680}' || ('\u{2000}' <= c && c <= '\u{200a}') || c == '\u{2028}'
        || c == '\u{2029}' || c == '\u{202f}' || c == '\u{205f}' || c == '\u{3000}'
}

/// The characters of `s`, in order.
pub fn chars_of(s: &str) -> (res: Vec<char>)
    ensures
        res@ == s@,
{
    let mut out: Vec<char> = Vec::new();
    for c in it: s.chars()
        invariant
            out@ == it.seq().take(it.index() as int),
            it.seq() == s@,
    {
        out.push(c);
    }
    out
}

/// Whether two strings spell the same text.
pub fn same_text(a: &str, b: &str) -> (res: bool)
    ensures
        res == (a@ == b@),
{
    let x = chars_of(a);
    let y = chars_of(b);
    if x.len() != y.len() {
        return false;
    }
    let mut i: usize = 0;
    while i < x.len()
        invariant
            i <= x.len(),
            x@.len() == y@.len(),
            x@ == a@,
            y@ == b@,
            x@.take(i as int) == y@.take(i as int),
        decreases x.len() - i,
    {
        if x[i] != y[i] {
            assert(a@[i as int] != b@[i as int]);
            return false;
        }
        assert(x@.take(i + 1) == x@.take(i as int).push(x@[i as int]));
        assert(y@.take(i + 1) == y@.take(i as int).push(y@[i as int]));
        i += 1;
    }
    assert(x@.take(i as int) == x@);
    assert(y@.take(i as int) == y@);
    true
}

/// How many bytes a text takes in UTF-8.
pub open spec fn byte_count(s: Seq<char>) -> int {
    vstd::utf8::encode_utf8(s).len() as int
}

/// How many bytes `s` takes in UTF-8.
pub fn byte_length(s: &str) -> (res: usize)
    ensures
        res == byte_count(s@),
{
    s.as_bytes().len()
}

/// Whether `s` begins with the character `c`.
pub fn starts_with(s: &str, c: char) -> (res: bool)
    ensures
        res == (s@.len() > 0 && s@[0] == c),
{
    !s.is_empty() && s.get_char(0) == c
}

/// `pat` stands in `s` at position `at`.
pub open spec fn occurs_at(s: Seq<char>, pat: Seq<char>, at: int) -> bool {
    0 <= at && at + pat.len() <= s.len() && s.subrange(at, at + pat.len() as int) == pat
}

/// `pat` stands somewhere in `s`.
pub open spec fn occurs(s: Seq<char>, pat: Seq<char>) -> bool {
    exists|at: int| occurs_at(s, pat, at)
}

fn stands_at(s: &Vec<char>, pat: &Vec<char>, at: usize) -> (res: bool)
    requires
        at + pat@.len() <= s@.len(),
    ensures
        res == occurs_at(s@, pat@, at as int),
{
    let mut j: usize = 0;
    while j < pat.len()
        invariant
            j <= pat.len(),
            at + pat.len() <= s.len(),
            forall|k: int| 0 <= k < j ==> s@[at + k] == pat@[k],
        decreases pat.len() - j,
    {
        if s[at + j] != pat[j] {
            assert(s@.subrange(at as int, at + pat@.len())[j as int] != pat@[j as int]);
            return false;
        }
        j += 1;
    }
    assert(s@.subrange(at as int, at + pat@.len()) == pat@);
    true
}

/// Whether the text `s` begins with the text `pat`.
pub fn has_prefix(s: &str, pat: &str) -> (res: bool)
    ensures
        res == occurs_at(s@, pat@, 0),
{
    let text = chars_of(s);
    let sought = chars_of(pat);
    sought.len() <= text.len() && stands_at(&text, &sought, 0)
}

/// Whether the text `pat` stands somewhere in the text `s`.
pub fn contains(s: &str, pat: &str) -> (res: bool)
    ensures
        res == occurs(s@, pat@),
{
    let text = chars_of(s);
    let sought = chars_of(pat);
    if sought.len() > text.len() {
        return false;
    }
    let last: usize = text.len() - sought.len();
    let mut at: usize = 0;
    loop
        invariant
            at <= last,
            last == text@.len() - sought@.len(),
            text@ == s@,
            sought@ == pat@,
            forall|k: int| 0 <= k < at ==> !occurs_at(s@, pat@, k),
        decreases last - at,
    {
        if stands_at(&text, &sought, at) {
            return true;
        }
        if at == last {
            assert(forall|k: int| !occurs_at(s@, pat@, k));
            return false;
        }
        at += 1;
    }
}

/// The parts in order, with `sep` between neighbours.
pub open spec fn joined(parts: Seq<Seq<char>>, sep: Seq<char>) -> Seq<char>
    decreases parts.len(),
{
    if parts.len() == 0 {
        Seq::empty()
    } else if parts.len() == 1 {
        parts[0]
    } else {
        joined(parts.drop_last(), sep) + sep + parts.last()
    }
}

/// The strings in order, with `sep` between neighbours.
pub fn join(parts: &[String], sep: &str) -> (res: String)
    ensures
        res@ == joined(texts(parts@), sep@),
{
    let mut out = String::new();
    let mut i: usize = 0;
    assert(texts(parts@.take(0)) == Seq::<Seq<char>>::empty());
    while i < parts.len()
        invariant
            i <= parts@.len(),
            out@ == joined(texts(parts@.take(i as int)), sep@),
        decreases parts.len() - i,
    {
        if i > 0 {
            out.append(sep);
        }
        out.append(parts[i].as_str());
        assert(texts(parts@.take(i + 1)).drop_last() == texts(parts@.take(i as int)));
        assert(texts(parts@.take(i + 1)).last() == parts@[i as int]@);
        i += 1;
    }
    assert(parts@.take(i as int) == parts@);
    out
}

/// `s` without the whitespace at its end.
pub open spec fn trimmed_end(s: Seq<char>) -> Seq<char>
    decreases s.len(),
{
    if s.len() > 0 && is_space(s.last()) {
        trimmed_end(s.drop_last())
    } else {
        s
    }
}

/// `s` without the whitespace at its start.
pub open spec fn trimmed_start(s: Seq<char>) -> Seq<char>
    decreases s.len(),
{
    if s.len() > 0 && is_space(s[0]) {
        trimmed_start(s.drop_first())
    } else {
        s
    }
}

/// What `trimmed_end` leaves is a prefix that does not end in whitespace, and what it
/// takes off is whitespace only.
pub proof fn lemma_trimmed_end(s: Seq<char>)
    ensures
        trimmed_end(s).len() <= s.len(),
        trimmed_end(s) == s.take(trimmed_end(s).len() as int),
        trimmed_end(s).len() > 0 ==> !is_space(trimmed_end(s).last()),
        forall|i: int| trimmed_end(s).len() <= i < s.len() ==> is_space(#[trigger] s[i]),
    decreases s.len(),
{
    if s.len() > 0 && is_space(s.last()) {
        lemma_trimmed_end(s.drop_last());
        assert(trimmed_end(s) == s.take(trimmed_end(s).len() as int));
        assert forall|i: int| trimmed_end(s).len() <= i < s.len() implies is_space(
            #[trigger] s[i],
        ) by {
            if i < s.len() - 1 {
                assert(s.drop_last()[i] == s[i]);
            }
        }
    } else {
        assert(s.take(s.len() as int) == s);
    }
}

/// `s` without the whitespace at its end.
pub fn trim_end(s: &str) -> (res: &str)
    ensures
        res@ == trimmed_end(s@),
{
    let chars = chars_of(s);
    let mut n: usize = chars.len();
    assert(s@.take(n as int) == s@);
    while n > 0 && is_whitespace(chars[n - 1])
        invariant
            n <= chars@.len(),
            chars@ == s@,
            trimmed_end(s@.take(n as int)) == trimmed_end(s@),
        decreases n,
    {
        assert(s@.take(n as int).drop_last() == s@.take(n - 1));
        n -= 1;
    }
    s.substring_char(0, n)
}

/// `s` without the whitespace at both ends.
pub fn trim(s: &str) -> (res: &str)
    ensures
        res@ == trimmed_end(trimmed_start(s@)),
{
    let chars = chars_of(s);
    let mut n: usize = 0;
    assert(s@.skip(0) == s@);
    while n < chars.len() && is_whitespace(chars[n])
        invariant
            n <= chars@.len(),
            chars@ == s@,
            trimmed_start(s@.skip(n as int)) == trimmed_start(s@),
        decreases chars.len() - n,
    {
        assert(s@.skip(n as int).drop_first() == s@.skip(n + 1));
        n += 1;
    }
    let rest = s.substring_char(n, chars.len());
    assert(rest@ == s@.skip(n as int));
    trim_end(rest)
}

/// The character of the decimal digit `d`.
pub open spec fn digit_char(d: int) -> char {
    (48 + d) as char
}

/// `c` is one of the ten ASCII digits.
pub open spec fn is_ascii_digit(c: char) -> bool {
    '0' <= c <= '9'
}

/// The value of an ASCII digit.
pub open spec fn digit_value(c: char) -> int {
    c as int - 48
}

fn digit(d: u64) -> (res: char)
    requires
        d < 10,
    ensures
        res == digit_char(d as int),
{
    match d {
        0 => '0',
        1 => '1',
        2 => '2',
        3 => '3',
        4 => '4',
        5 => '5',
        6 => '6',
        7 => '7',
        8 => '8',
        _ => '9',
    }
}

/// `n` in decimal, without leading zeros.
pub open spec fn decimal_text(n: nat) -> Seq<char>
    decreases n,
{
    if n < 10 {
        seq![digit_char(n as int)]
    } else {
        decimal_text(n / 10).push(digit_char((n % 10) as int))
    }
}

/// `n` in decimal, without leading zeros.
pub fn decimal(n: u64) -> (res: String)
    ensures
        res@ == decimal_text(n as nat),
    decreases n,
{
    if n < 10 {
        let mut out = String::new();
        out.push(digit(n));
        out
    } else {
        let mut out = decimal(n / 10);
        out.push(digit(n % 10));
        out
    }
}

/// The last `width` decimal digits of `n`, zeros in front where `n` is shorter.
pub open spec fn padded_text(n: nat, width: nat) -> Seq<char>
    decreases width,
{
    if width == 0 {
        Seq::empty()
    } else {
        padded_text(n / 10, (width - 1) as nat).push(digit_char((n % 10) as int))
    }
}

/// The text that `String::from_utf8_lossy` makes of bytes.
pub uninterp spec fn lossy_text(bytes: Seq<u8>) -> Seq<char>;

/// Calls `String::from_utf8_lossy`. Bytes that are UTF-8 give the text that they spell. Of other
/// bytes, those that are no UTF-8 are replaced by U+FFFD, so the text begins with `{` exactly
/// where the bytes do.
#[verifier::external_body]
pub(crate) fn decode_lossy(bytes: &Vec<u8>) -> (res: String)
    ensures
        res@ == lossy_text(bytes@),
        vstd::utf8::valid_utf8(bytes@) ==> res@ == vstd::utf8::decode_utf8(bytes@),
        (res@.len() > 0 && res@[0] == '{') == (bytes@.len() > 0 && bytes@[0] == 0x7bu8),
{
    String::from_utf8_lossy(bytes).into_owned()
}

/// A number padded to a width takes that many characters, each a digit.
pub proof fn lemma_padded_text(n: nat, width: nat)
    ensures
        padded_text(n, width).len() == width,
        forall|i: int| 0 <= i < width ==> is_ascii_digit(#[trigger] padded_text(n, width)[i]),
    decreases width,
{
    if width > 0 {
        lemma_padded_text(n / 10, (width - 1) as nat);
        let front = padded_text(n / 10, (width - 1) as nat);
        assert forall|i: int| 0 <= i < width implies is_ascii_digit(
            #[trigger] padded_text(n, width)[i],
        ) by {
            if i < width - 1 {
                assert(padded_text(n, width)[i] == front[i]);
            }
        }
    }
}

/// Ten to a power.
pub open spec fn ten_to(width: nat) -> nat
    decreases width,
{
    if width == 0 {
        1
    } else {
        10 * ten_to((width - 1) as nat)
    }
}

/// Numbers that fit a width are told apart by their digits.
pub proof fn lemma_padded_unique(n: nat, m: nat, width: nat)
    requires
        n < ten_to(width),
        m < ten_to(width),
        padded_text(n, width) == padded_text(m, width),
    ensures
        n == m,
    decreases width,
{
    if width > 0 {
        let w = (width - 1) as nat;
        let a = padded_text(n, width);
        let b = padded_text(m, width);
        assert(a.drop_last() == padded_text(n / 10, w));
        assert(b.drop_last() == padded_text(m / 10, w));
        assert(a.last() == digit_char((n % 10) as int));
        assert(b.last() == digit_char((m % 10) as int));
        lemma_padded_unique(n / 10, m / 10, w);
    }
}

// ── laws ────────────────────────────────────────────────────────────────────
/// `at` holds, in order, exactly the positions below `n` that are kept.
pub open spec fn picks(at: Seq<int>, n: int, keep: spec_fn(int) -> bool) -> bool {
    &&& forall|k: int| 0 <= k < at.len() ==> 0 <= #[trigger] at[k] < n && keep(at[k])
    &&& forall|j: int, k: int| 0 <= j < k < at.len() ==> #[trigger] at[j] < #[trigger] at[k]
    &&& forall|i: int| 0 <= i < n && #[trigger] keep(i) ==> at.contains(i)
}

/// One more position is kept or not.
pub proof fn lemma_picks_next(at: Seq<int>, n: int, keep: spec_fn(int) -> bool)
    requires
        0 <= n,
        picks(at, n, keep),
    ensures
        keep(n) ==> picks(at.push(n), n + 1, keep),
        !keep(n) ==> picks(at, n + 1, keep),
{
    if keep(n) {
        let more = at.push(n);
        assert forall|i: int| 0 <= i < n + 1 && #[trigger] keep(i) implies more.contains(i) by {
            if i < n {
                assert(at.contains(i));
                let k = choose|k: int| 0 <= k < at.len() && at[k] == i;
                assert(more[k] == i);
            } else {
                assert(more[at.len() as int] == i);
            }
        }
    }
}

/// What is kept of a sequence stands in the order of the sequence.
pub proof fn lemma_picks_filter<A>(s: Seq<A>, keep: spec_fn(A) -> bool) -> (at: Seq<int>)
    ensures
        picks(at, s.len() as int, |i: int| keep(s[i])),
        s.filter(keep).len() == at.len(),
        forall|k: int| 0 <= k < at.len() ==> #[trigger] s.filter(keep)[k] == s[at[k]],
{
    let at = lemma_picks_filter_to(s, keep, s.len() as int);
    assert(s.take(s.len() as int) == s);
    at
}

proof fn lemma_picks_filter_to<A>(s: Seq<A>, keep: spec_fn(A) -> bool, n: int) -> (at: Seq<int>)
    requires
        0 <= n <= s.len(),
    ensures
        picks(at, n, |i: int| keep(s[i])),
        s.take(n).filter(keep).len() == at.len(),
        forall|k: int| 0 <= k < at.len() ==> #[trigger] s.take(n).filter(keep)[k] == s[at[k]],
    decreases n,
{
    reveal(Seq::filter);
    if n == 0 {
        Seq::empty()
    } else {
        let before = lemma_picks_filter_to(s, keep, n - 1);
        lemma_picks_next(before, n - 1, |i: int| keep(s[i]));
        assert(s.take(n).drop_last() == s.take(n - 1));
        assert(s.take(n).last() == s[n - 1]);
        if keep(s[n - 1]) {
            before.push(n - 1)
        } else {
            before
        }
    }
}

/// Strings are told by what they spell, one by one.
pub proof fn law_strings_are_texts(s: Seq<String>, one: Option<String>)
    ensures
        texts(s).len() == s.len(),
        forall|i: int| 0 <= i < s.len() ==> #[trigger] texts(s)[i] == s[i]@,
        one is None <==> opt_text(one) is None,
        one matches Some(t) ==> opt_text(one) == Some(t@),
{
}

/// Joining puts the separator between neighbours and nowhere else: nothing joins to nothing, one
/// part to itself, and two lists to their joins with one separator between.
pub proof fn law_joins(a: Seq<Seq<char>>, b: Seq<Seq<char>>, part: Seq<char>, sep: Seq<char>)
    ensures
        joined(Seq::empty(), sep).len() == 0,
        joined(seq![part], sep) == part,
        a.len() > 0 && b.len() > 0 ==> joined(a + b, sep) == joined(a, sep) + sep + joined(b, sep),
    decreases b.len(),
{
    if a.len() > 0 && b.len() > 0 {
        assert((a + b).drop_last() == a + b.drop_last());
        assert((a + b).last() == b.last());
        if b.len() == 1 {
            assert(a + b.drop_last() == a);
        } else {
            law_joins(a, b.drop_last(), part, sep);
            let front = joined(b.drop_last(), sep);
            assert(joined(a, sep) + sep + front + sep + b.last() == joined(a, sep) + sep + (front
                + sep + b.last()));
        }
    }
}

/// Of the ASCII characters, the space and the five controls from tab to carriage return are
/// whitespace; letters, digits and punctuation are not.
pub proof fn law_spaces(c: char)
    requires
        c as u32 <= 127,
    ensures
        is_space(c) <==> c == ' ' || 9 <= c as u32 <= 13,
{
}

/// Stripping takes off the whitespace at the ends, and nothing else.
pub proof fn law_stripping(front: Seq<char>, core: Seq<char>, back: Seq<char>)
    requires
        forall|i: int| 0 <= i < front.len() ==> is_space(#[trigger] front[i]),
        forall|i: int| 0 <= i < back.len() ==> is_space(#[trigger] back[i]),
        core.len() > 0 ==> !is_space(core[0]) && !is_space(core.last()),
    ensures
        trimmed_end(core + back) == core,
        trimmed_end(trimmed_start(front + core + back)) == core,
{
    lemma_strip_back(core, back);
    if core.len() > 0 {
        lemma_strip_front(front, core + back);
        assert(front + core + back == front + (core + back));
        assert((core + back)[0] == core[0]);
    } else {
        let s = front + core + back;
        assert forall|i: int| 0 <= i < s.len() implies is_space(#[trigger] s[i]) by {
            if i < front.len() {
                assert(s[i] == front[i]);
            } else {
                assert(s[i] == back[i - front.len()]);
            }
        }
        lemma_strip_front(s, Seq::empty());
        assert(s + Seq::<char>::empty() == s);
        assert(core == Seq::<char>::empty());
    }
}

proof fn lemma_strip_back(core: Seq<char>, back: Seq<char>)
    requires
        forall|i: int| 0 <= i < back.len() ==> is_space(#[trigger] back[i]),
        core.len() > 0 ==> !is_space(core.last()),
    ensures
        trimmed_end(core + back) == core,
    decreases back.len(),
{
    if back.len() > 0 {
        assert((core + back).drop_last() == core + back.drop_last());
        assert((core + back).last() == back[back.len() - 1]);
        lemma_strip_back(core, back.drop_last());
    } else {
        assert(core + back == core);
    }
}

proof fn lemma_strip_front(front: Seq<char>, rest: Seq<char>)
    requires
        forall|i: int| 0 <= i < front.len() ==> is_space(#[trigger] front[i]),
        rest.len() > 0 ==> !is_space(rest[0]),
    ensures
        trimmed_start(front + rest) == rest,
    decreases front.len(),
{
    if front.len() > 0 {
        assert((front + rest).drop_first() == front.drop_first() + rest);
        assert((front + rest)[0] == front[0]);
        lemma_strip_front(front.drop_first(), rest);
    } else {
        assert(front + rest == rest);
    }
}

/// A number is written digit by digit: its last digit stands behind what the number without it is
/// written as, and a number of one digit is that digit.
pub proof fn law_numbers_in_decimal(n: nat, d: nat, width: nat)
    requires
        d < 10,
    ensures
        decimal_text(d) == seq![(48 + d) as char],
        n > 0 ==> decimal_text(10 * n + d) == decimal_text(n).push((48 + d) as char),
        padded_text(n, 0).len() == 0,
        padded_text(10 * n + d, width + 1) == padded_text(n, width).push((48 + d) as char),
{
    assert((10 * n + d) / 10 == n && (10 * n + d) % 10 == d);
}

/// A text is found where its characters stand one behind the other, wherever that is.
pub proof fn law_texts_are_found(a: Seq<char>, pat: Seq<char>, b: Seq<char>, s: Seq<char>, at: int)
    ensures
        occurs(a + pat + b, pat),
        occurs_at(pat + b, pat, 0),
        occurs_at(s, pat, at) <==> 0 <= at && at + pat.len() <= s.len() && forall|k: int|
            0 <= k < pat.len() ==> s[at + k] == #[trigger] pat[k],
        occurs(s, pat) <==> exists|i: int|
            0 <= i <= s.len() - pat.len() && #[trigger] s.subrange(i, i + pat.len()) == pat,
{
    assert((a + pat + b).subrange(a.len() as int, (a.len() + pat.len()) as int) == pat);
    assert(occurs_at(a + pat + b, pat, a.len() as int));
    assert((pat + b).subrange(0, pat.len() as int) == pat);
    if 0 <= at && at + pat.len() <= s.len() {
        let part = s.subrange(at, at + pat.len());
        if forall|k: int| 0 <= k < pat.len() ==> s[at + k] == #[trigger] pat[k] {
            assert(part == pat);
        }
        if part == pat {
            assert forall|k: int| 0 <= k < pat.len() implies s[at + k] == #[trigger] pat[k] by {
                assert(part[k] == pat[k]);
            }
        }
    }
    if exists|i: int| 0 <= i <= s.len() - pat.len() && #[trigger] s.subrange(i, i + pat.len()) == pat {
        let i = choose|i: int|
            0 <= i <= s.len() - pat.len() && #[trigger] s.subrange(i, i + pat.len()) == pat;
        assert(occurs_at(s, pat, i));
    }
    if occurs(s, pat) {
        let i = choose|i: int| occurs_at(s, pat, i);
        assert(s.subrange(i, i + pat.len()) == pat);
    }
}

/// The bytes of a text are those of its UTF-8 form.
pub proof fn law_bytes_are_utf8(s: Seq<char>)
    ensures
        byte_count(s) == vstd::utf8::encode_utf8(s).len(),
{
}

/// The ten digits are those from `0` to `9`, and each stands for its distance from `0`.
pub proof fn law_digits(c: char, d: int)
    ensures
        is_ascii_digit(c) == ('0' <= c <= '9'),
        digit_value(c) == c as int - '0' as int,
        0 <= d < 10 ==> is_ascii_digit(digit_char(d)) && digit_value(digit_char(d)) == d,
{
}

} // verus!
