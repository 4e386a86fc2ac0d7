//! Text primitives over the character view (`Seq<char>`) of strings.
//!
//! Contracts throughout the crate speak of strings by their sequence of
//! characters. This module holds the vocabulary those contracts share and the
//! executable functions that compute it.

use vstd::prelude::*;
use vstd::string::StringSliceAdditionalSpecFns;
use vstd::utf8::{
    decode_utf8, decode_utf8_encode_utf8, encode_utf8, encode_utf8_decode_utf8,
    encode_utf8_valid_utf8, is_char_boundary, is_char_boundary_start_end_of_seq, valid_utf8_split,
};

verus! {

// ---------------------------------------------------------------------------
// Vocabulary
// ---------------------------------------------------------------------------

/// `pattern` occurs in `s` starting at character index `at`.
pub open spec fn occurs_at(s: Seq<char>, pattern: Seq<char>, at: int) -> bool {
    0 <= at && at + pattern.len() <= s.len() && s.subrange(at, at + pattern.len()) == pattern
}

/// `pattern` occurs somewhere in `s`.
pub open spec fn has_substring(s: Seq<char>, pattern: Seq<char>) -> bool {
    exists|at: int| occurs_at(s, pattern, at)
}

/// The strings that a sequence of `String`s stands for.
pub open spec fn texts(strings: Seq<String>) -> Seq<Seq<char>> {
    Seq::new(strings.len(), |i: int| strings[i]@)
}

/// An absolute URI is a string that begins with `http://` or `https://`.
pub open spec fn is_absolute_uri(s: Seq<char>) -> bool {
    "http://"@.is_prefix_of(s) || "https://"@.is_prefix_of(s)
}

/// `c` as a small letter where it is one of the capital letters `A` to `Z`,
/// and `c` itself where it is not.
pub open spec fn lower_ascii(c: char) -> char {
    if 'A' <= c && c <= 'Z' {
        ((c as u8) + 32) as char
    } else {
        c
    }
}

/// `s` with its capital letters `A` to `Z` made small.
pub open spec fn fold_ascii(s: Seq<char>) -> Seq<char> {
    Seq::new(s.len(), |i: int| lower_ascii(s[i]))
}

/// The last place at or before byte `limit` where `bytes`, a text in UTF-8,
/// can be cut between two characters.
pub open spec fn boundary_at_or_before(bytes: Seq<u8>, limit: int) -> int
    decreases limit,
{
    if limit <= 0 {
        0
    } else if is_char_boundary(bytes, limit) {
        limit
    } else {
        boundary_at_or_before(bytes, limit - 1)
    }
}

/// The beginning of `s` that fits in `limit` bytes of UTF-8: all of `s`
/// where it has no more bytes than that, and otherwise its first `limit`
/// bytes, less the bytes of a character that byte `limit` would cut in two.
pub open spec fn byte_prefix(s: Seq<char>, limit: int) -> Seq<char> {
    let bytes = encode_utf8(s);
    if bytes.len() <= limit {
        s
    } else {
        decode_utf8(bytes.subrange(0, boundary_at_or_before(bytes, limit)))
    }
}

/// Where byte `limit` of a longer text stands between two characters, the
/// beginning that fits is exactly the first `limit` bytes.
pub proof fn lemma_byte_prefix_on_a_boundary(s: Seq<char>, limit: int)
    requires
        0 <= limit < encode_utf8(s).len(),
        is_char_boundary(encode_utf8(s), limit),
    ensures
        encode_utf8(byte_prefix(s, limit)) == encode_utf8(s).subrange(0, limit),
{
    let bytes = encode_utf8(s);
    encode_utf8_valid_utf8(s);
    valid_utf8_split(bytes, limit);
    decode_utf8_encode_utf8(bytes.subrange(0, limit));
    if limit == 0 {
        assert(boundary_at_or_before(bytes, limit) == 0);
    }
}

/// `s` with every character `c` replaced by `f(c)`.
pub open spec fn substitute(s: Seq<char>, f: spec_fn(char) -> Seq<char>) -> Seq<char>
    decreases s.len(),
{
    if s.len() == 0 {
        Seq::empty()
    } else {
        substitute(s.drop_last(), f) + f(s.last())
    }
}

/// What a double quote becomes inside a quoted literal: a backslash and the
/// quote. Every other character stands for itself.
pub open spec fn quote_escape(c: char) -> Seq<char> {
    if c == '"' {
        seq!['\\', '"']
    } else {
        seq![c]
    }
}

/// `s` with a backslash put before every double quote.
pub open spec fn escape_quotes(s: Seq<char>) -> Seq<char> {
    substitute(s, |c: char| quote_escape(c))
}

/// What a character becomes in XML text: `&`, `<` and `>` become their
/// entities, every other character stands for itself.
pub open spec fn xml_text_entity(c: char) -> Seq<char> {
    if c == '&' {
        "&amp;"@
    } else if c == '<' {
        "&lt;"@
    } else if c == '>' {
        "&gt;"@
    } else {
        seq![c]
    }
}

/// `s` with `&`, `<` and `>` replaced by XML entities.
pub open spec fn escape_xml_text(s: Seq<char>) -> Seq<char> {
    substitute(s, |c: char| xml_text_entity(c))
}

/// The part of `s` after the last occurrence of `sep`; all of `s` when `sep`
/// does not occur.
pub open spec fn after_last(s: Seq<char>, sep: char) -> Seq<char>
    decreases s.len(),
{
    if s.len() == 0 {
        s
    } else if s.last() == sep {
        Seq::empty()
    } else {
        after_last(s.drop_last(), sep).push(s.last())
    }
}

/// The decimal digit for `d`, for `d` below ten.
pub open spec fn digit_char(d: nat) -> char {
    if d == 0 {
        '0'
    } else if d == 1 {
        '1'
    } else if d == 2 {
        '2'
    } else if d == 3 {
        '3'
    } else if d == 4 {
        '4'
    } else if d == 5 {
        '5'
    } else if d == 6 {
        '6'
    } else if d == 7 {
        '7'
    } else if d == 8 {
        '8'
    } else {
        '9'
    }
}

/// The decimal numeral of `n`, without leading zeros.
pub open spec fn decimal(n: nat) -> Seq<char>
    decreases n,
{
    if n < 10 {
        seq![digit_char(n)]
    } else {
        decimal(n / 10).push(digit_char(n % 10))
    }
}

/// Whether `c` is one of the digits `0` to `9`.
pub open spec fn is_digit(c: char) -> bool {
    '0' <= c && c <= '9'
}

/// The value of the digit `c`.
pub open spec fn digit_value(c: char) -> nat {
    ((c as u8) - 48) as nat
}

/// Whether `s` consists of digits only.
pub open spec fn all_digits(s: Seq<char>) -> bool {
    forall|i: int| 0 <= i < s.len() ==> is_digit(#[trigger] s[i])
}

/// The number that the digits of `s` write in decimal.
pub open spec fn digits_value(s: Seq<char>) -> nat
    decreases s.len(),
{
    if s.len() == 0 {
        0
    } else {
        digits_value(s.drop_last()) * 10 + digit_value(s.last())
    }
}

/// The integer that `s` writes: an optional sign, `+` or `-`, and at least
/// one digit, nothing else; there is none where the number does not fit in
/// 64 bits.
pub open spec fn integer_of(s: Seq<char>) -> Option<i64> {
    let negative = s.len() > 0 && s[0] == '-';
    let signed = s.len() > 0 && (s[0] == '-' || s[0] == '+');
    let digits = if signed {
        s.skip(1)
    } else {
        s
    };
    let magnitude = digits_value(digits);
    if digits.len() == 0 || !all_digits(digits) {
        None
    } else if negative {
        if magnitude <= 0x8000_0000_0000_0000 {
            Some((-(magnitude as int)) as i64)
        } else {
            None
        }
    } else {
        if magnitude <= 0x7fff_ffff_ffff_ffff {
            Some(magnitude as i64)
        } else {
            None
        }
    }
}

/// More digits never write a smaller number.
pub proof fn lemma_digits_value_grows(s: Seq<char>, n: int)
    requires
        0 <= n <= s.len(),
    ensures
        digits_value(s.take(n)) <= digits_value(s),
    decreases s.len() - n,
{
    if n < s.len() {
        lemma_digits_value_grows(s, n + 1);
        assert(s.take(n + 1).drop_last() == s.take(n));
    } else {
        assert(s.take(n) == s);
    }
}

/// The index of the first character of `s` at or after `from` that is not
/// white space; `s.len()` when there is none.
pub open spec fn skip_white_space(s: Seq<char>, from: int) -> int
    decreases s.len() - from,
{
    if 0 <= from < s.len() && is_white_space(s[from]) {
        skip_white_space(s, from + 1)
    } else {
        from
    }
}

/// The end of `s` once trailing white space is cut off, never before `floor`.
pub open spec fn cut_white_space(s: Seq<char>, floor: int, end: int) -> int
    decreases end,
{
    if 0 <= floor < end <= s.len() && is_white_space(s[end - 1]) {
        cut_white_space(s, floor, end - 1)
    } else {
        end
    }
}

/// `s` without leading and trailing white space.
pub open spec fn trim(s: Seq<char>) -> Seq<char> {
    let start = skip_white_space(s, 0);
    let end = cut_white_space(s, start, s.len() as int);
    s.subrange(start, end)
}

// ---------------------------------------------------------------------------
// What the standard library decides
// ---------------------------------------------------------------------------

/// Whether `c` has the Unicode property `White_Space`: the controls from tab
/// to carriage return, the space, next line, the no-break spaces, the Ogham
/// space mark, the spaces of fixed width, the line and paragraph
/// separators, the medium mathematical space and the ideographic space.
pub open spec fn is_white_space(c: char) -> bool {
    let point = c as u32;
    ||| 0x09 <= point <= 0x0D
    ||| point == 0x20
    ||| point == 0x85
    ||| point == 0xA0
    ||| point == 0x1680
    ||| 0x2000 <= point <= 0x200A
    ||| point == 0x2028
    ||| point == 0x2029
    ||| point == 0x202F
    ||| point == 0x205F
    ||| point == 0x3000
}

/// The lowercase form of a string, as `str::to_lowercase` computes it from the
/// Unicode derived core property `Lowercase`.
pub uninterp spec fn lowercase(s: Seq<char>) -> Seq<char>;

/// Whether `c` is white space.
///
/// Trusted: wraps `char::is_whitespace`, which tells whether a character
/// has the Unicode property `White_Space`; `is_white_space` lists the
/// characters that have it.
#[verifier::external_body]
pub(crate) fn char_is_white_space(c: char) -> (b: bool)
    ensures
        b == is_white_space(c),
{
    c.is_whitespace()
}

/// The lowercase form of `s`.
///
/// Trusted: wraps `str::to_lowercase`, which depends on the characters of `s`
/// alone; its result is what `lowercase` names.
#[verifier::external_body]
pub(crate) fn to_lowercase(s: &str) -> (r: String)
    ensures
        r@ == lowercase(s@),
{
    s.to_lowercase()
}

/// Appends one character to a string.
///
/// Trusted: wraps `String::push`, which appends the given `char` to the end
/// of the string and changes nothing else.
#[verifier::external_body]
pub(crate) fn push_char(s: &mut String, c: char)
    ensures
        final(s)@ == old(s)@.push(c),
{
    s.push(c)
}

// ---------------------------------------------------------------------------
// Lemmas
// ---------------------------------------------------------------------------

/// Substitution distributes over appending one character.
pub proof fn lemma_substitute_push(s: Seq<char>, c: char, f: spec_fn(char) -> Seq<char>)
    ensures
        substitute(s.push(c), f) == substitute(s, f) + f(c),
{
    assert(s.push(c).drop_last() == s);
    assert(s.push(c).last() == c);
}

// ---------------------------------------------------------------------------
// Executable functions
// ---------------------------------------------------------------------------

/// The characters of `s`, in order.
pub fn chars_of(s: &str) -> (v: Vec<char>)
    ensures
        v@ == s@,
{
    let mut v: Vec<char> = Vec::new();
    let it = s.chars();
    for c in iter: it
        invariant
            v@ == iter.seq().take(iter.index()),
            iter.seq() == s@,
    {
        v.push(c);
    }
    v
}

/// The string whose characters are `v[from..to]`.
pub fn text_of_range(v: &Vec<char>, from: usize, to: usize) -> (s: String)
    requires
        from <= to <= v.len(),
    ensures
        s@ == v@.subrange(from as int, to as int),
{
    let mut s = String::new();
    let mut i: usize = from;
    while i < to
        invariant
            from <= i <= to <= v.len(),
            s@ == v@.subrange(from as int, i as int),
        decreases to - i,
    {
        push_char(&mut s, v[i]);
        i += 1;
        assert(v@.subrange(from as int, i as int) == v@.subrange(from as int, i - 1).push(
            v@[i - 1],
        ));
    }
    s
}

/// The string whose characters are `v`.
pub fn text_of(v: &Vec<char>) -> (s: String)
    ensures
        s@ == v@,
{
    let s = text_of_range(v, 0, v.len());
    assert(v@.subrange(0, v@.len() as int) == v@);
    s
}

/// Whether two strings hold the same characters.
pub fn same_text(a: &str, b: &str) -> (r: bool)
    ensures
        r == (a@ == b@),
{
    let av = chars_of(a);
    let bv = chars_of(b);
    if av.len() != bv.len() {
        return false;
    }
    let mut i: usize = 0;
    while i < av.len()
        invariant
            i <= av.len() == bv.len(),
            av@ == a@,
            bv@ == b@,
            forall|j: int| 0 <= j < i ==> av@[j] == bv@[j],
        decreases av.len() - i,
    {
        if av[i] != bv[i] {
            assert(av@[i as int] != bv@[i as int]);
            return false;
        }
        i += 1;
    }
    assert(av@ =~= bv@);
    true
}

/// Whether `pattern` occurs in `s` at index `at`, on character vectors.
fn matches_at(s: &Vec<char>, pattern: &Vec<char>, at: usize) -> (r: bool)
    requires
        at + pattern.len() <= s.len(),
    ensures
        r == occurs_at(s@, pattern@, at as int),
{
    let mut j: usize = 0;
    while j < pattern.len()
        invariant
            j <= pattern.len(),
            at + pattern.len() <= s.len(),
            forall|k: int| 0 <= k < j ==> s@[at + k] == pattern@[k],
        decreases pattern.len() - j,
    {
        if s[at + j] != pattern[j] {
            assert(s@.subrange(at as int, at + pattern@.len())[j as int] != pattern@[j as int]);
            return false;
        }
        j += 1;
    }
    assert(s@.subrange(at as int, at + pattern@.len()) =~= pattern@);
    true
}

/// Whether `s` begins with `prefix`.
pub fn starts_with(s: &str, prefix: &str) -> (b: bool)
    ensures
        b == prefix@.is_prefix_of(s@),
{
    let sv = chars_of(s);
    let pv = chars_of(prefix);
    if pv.len() > sv.len() {
        return false;
    }
    matches_at(&sv, &pv, 0)
}

/// Whether `pattern` occurs in `s`.
pub fn contains(s: &str, pattern: &str) -> (b: bool)
    ensures
        b == has_substring(s@, pattern@),
{
    let sv = chars_of(s);
    let pv = chars_of(pattern);
    if pv.len() > sv.len() {
        assert(forall|at: int| !occurs_at(sv@, pv@, at));
        return false;
    }
    let last: usize = sv.len() - pv.len();
    let mut at: usize = 0;
    while at < last
        invariant
            at <= last,
            last == sv.len() - pv.len(),
            pv.len() <= sv.len(),
            sv@ == s@,
            pv@ == pattern@,
            forall|k: int| 0 <= k < at ==> !occurs_at(sv@, pv@, k),
        decreases last - at,
    {
        if matches_at(&sv, &pv, at) {
            assert(occurs_at(sv@, pv@, at as int));
            return true;
        }
        at += 1;
    }
    if matches_at(&sv, &pv, last) {
        assert(occurs_at(sv@, pv@, last as int));
        return true;
    }
    assert(forall|k: int| !occurs_at(sv@, pv@, k));
    false
}

/// Makes the capital letters `A` to `Z` of `s` small.
pub fn ascii_lowercase(s: &str) -> (r: String)
    ensures
        r@ == fold_ascii(s@),
{
    let sv = chars_of(s);
    let mut out = String::new();
    let mut i: usize = 0;
    while i < sv.len()
        invariant
            i <= sv.len(),
            out@ == fold_ascii(sv@.take(i as int)),
        decreases sv.len() - i,
    {
        let c = sv[i];
        if 'A' <= c && c <= 'Z' {
            push_char(&mut out, ((c as u8) + 32) as char);
        } else {
            push_char(&mut out, c);
        }
        i += 1;
        assert(out@ =~= fold_ascii(sv@.take(i as int)));
    }
    assert(sv@.take(sv@.len() as int) == sv@);
    out
}

/// Whether `pattern`, written in small letters, occurs in `s` whatever the
/// case of the letters `A` to `Z` in `s`.
pub fn contains_ignoring_ascii_case(s: &str, pattern: &str) -> (b: bool)
    ensures
        b == has_substring(fold_ascii(s@), pattern@),
{
    let folded = ascii_lowercase(s);
    contains(folded.as_str(), pattern)
}

/// Cuts `s` to the beginning that fits in `limit` bytes of UTF-8.
pub fn cut_to_bytes(s: &str, limit: usize) -> (r: String)
    ensures
        r@ == byte_prefix(s@, limit as int),
{
    let ghost bytes = s.spec_bytes();
    proof {
        encode_utf8_valid_utf8(s@);
    }
    if s.as_bytes().len() <= limit {
        return s.to_string();
    }
    let mut cut: usize = limit;
    while cut > 0 && !s.is_char_boundary(cut)
        invariant
            cut <= limit,
            bytes == s.spec_bytes(),
            boundary_at_or_before(bytes, limit as int) == boundary_at_or_before(bytes, cut as int),
        decreases cut,
    {
        cut -= 1;
    }
    proof {
        is_char_boundary_start_end_of_seq(bytes);
        assert(boundary_at_or_before(bytes, cut as int) == cut);
        assert(is_char_boundary(bytes, cut as int));
    }
    let (head, _) = s.split_at(cut);
    proof {
        encode_utf8_decode_utf8(head@);
        assert(head.spec_bytes() == bytes.subrange(0, cut as int));
    }
    head.to_string()
}

/// Whether `s` is an absolute URI.
pub fn is_absolute(s: &str) -> (b: bool)
    ensures
        b == is_absolute_uri(s@),
{
    starts_with(s, "http://") || starts_with(s, "https://")
}

/// `s` without its first `n` characters.
pub fn without_prefix(s: &str, n: usize) -> (r: String)
    requires
        n <= s@.len(),
    ensures
        r@ == s@.skip(n as int),
{
    let sv = chars_of(s);
    text_of_range(&sv, n, sv.len())
}

/// The number of characters of `s`.
pub fn char_count(s: &str) -> (n: usize)
    ensures
        n == s@.len(),
{
    s.unicode_len()
}

/// Puts a backslash before every double quote of `s`.
pub fn escape_double_quotes(s: &str) -> (r: String)
    ensures
        r@ == escape_quotes(s@),
{
    let sv = chars_of(s);
    let mut out = String::new();
    let ghost f = |c: char| quote_escape(c);
    let mut i: usize = 0;
    while i < sv.len()
        invariant
            i <= sv.len(),
            f == (|c: char| quote_escape(c)),
            out@ == substitute(sv@.take(i as int), f),
        decreases sv.len() - i,
    {
        let c = sv[i];
        proof {
            lemma_substitute_push(sv@.take(i as int), c, f);
            assert(sv@.take(i + 1) == sv@.take(i as int).push(c));
        }
        if c == '"' {
            push_char(&mut out, '\\');
            push_char(&mut out, '"');
            assert(out@ == substitute(sv@.take(i as int), f) + seq!['\\', '"']);
        } else {
            push_char(&mut out, c);
            assert(out@ == substitute(sv@.take(i as int), f) + seq![c]);
        }
        i += 1;
    }
    assert(sv@.take(sv@.len() as int) == sv@);
    out
}

/// The part of `s` after the last `sep`.
pub fn suffix_after_last(s: &str, sep: char) -> (r: String)
    ensures
        r@ == after_last(s@, sep),
{
    let sv = chars_of(s);
    let mut start: usize = 0;
    let mut i: usize = 0;
    while i < sv.len()
        invariant
            start <= i <= sv.len(),
            after_last(sv@.take(i as int), sep) == sv@.subrange(start as int, i as int),
        decreases sv.len() - i,
    {
        let ghost before = sv@.take(i as int);
        proof {
            let next = sv@.take(i + 1);
            assert(next.drop_last() == before);
            assert(next.last() == sv@[i as int]);
        }
        if sv[i] == sep {
            start = i + 1;
        } else {
            assert(sv@.subrange(start as int, i + 1) == sv@.subrange(start as int, i as int).push(
                sv@[i as int],
            ));
        }
        i += 1;
    }
    assert(sv@.take(sv@.len() as int) == sv@);
    text_of_range(&sv, start, sv.len())
}

/// The decimal digit of `d`.
fn digit_of(d: usize) -> (c: char)
    requires
        d < 10,
    ensures
        c == digit_char(d as nat),
{
    if d == 0 {
        '0'
    } else if d == 1 {
        '1'
    } else if d == 2 {
        '2'
    } else if d == 3 {
        '3'
    } else if d == 4 {
        '4'
    } else if d == 5 {
        '5'
    } else if d == 6 {
        '6'
    } else if d == 7 {
        '7'
    } else if d == 8 {
        '8'
    } else {
        '9'
    }
}

/// The decimal numeral of `n`.
pub fn decimal_text(n: usize) -> (r: String)
    ensures
        r@ == decimal(n as nat),
    decreases n,
{
    if n < 10 {
        let mut out = String::new();
        push_char(&mut out, digit_of(n));
        out
    } else {
        let mut out = decimal_text(n / 10);
        push_char(&mut out, digit_of(n % 10));
        out
    }
}

/// `s` without leading and trailing white space.
pub fn trimmed(s: &str) -> (r: String)
    ensures
        r@ == trim(s@),
{
    let sv = chars_of(s);
    let mut start: usize = 0;
    while start < sv.len() && char_is_white_space(sv[start])
        invariant
            start <= sv.len(),
            skip_white_space(sv@, 0) == skip_white_space(sv@, start as int),
        decreases sv.len() - start,
    {
        start += 1;
    }
    let mut end: usize = sv.len();
    while start < end && char_is_white_space(sv[end - 1])
        invariant
            start <= end <= sv.len(),
            cut_white_space(sv@, start as int, sv@.len() as int) == cut_white_space(
                sv@,
                start as int,
                end as int,
            ),
        decreases end,
    {
        end -= 1;
    }
    text_of_range(&sv, start, end)
}

/// Whether one of `strings` holds the characters of `s`.
pub fn contains_text(strings: &Vec<String>, s: &str) -> (found: bool)
    ensures
        found == texts(strings@).contains(s@),
{
    let mut i: usize = 0;
    while i < strings.len()
        invariant
            i <= strings.len(),
            forall|k: int| 0 <= k < i ==> texts(strings@)[k] != s@,
        decreases strings.len() - i,
    {
        if same_text(strings[i].as_str(), s) {
            assert(texts(strings@)[i as int] == s@);
            return true;
        }
        i += 1;
    }
    false
}

/// Whether the characters of `v` from `start` on are digits.
fn digits_only(v: &Vec<char>, start: usize) -> (b: bool)
    requires
        start <= v.len(),
    ensures
        b == all_digits(v@.skip(start as int)),
{
    let ghost digits = v@.skip(start as int);
    let mut i: usize = start;
    while i < v.len()
        invariant
            start <= i <= v.len(),
            digits == v@.skip(start as int),
            forall|j: int| 0 <= j < i - start ==> is_digit(#[trigger] digits[j]),
        decreases v.len() - i,
    {
        if !('0' <= v[i] && v[i] <= '9') {
            assert(!is_digit(digits[i - start]));
            return false;
        }
        i += 1;
    }
    true
}

/// Reads the integer that `s` writes.
#[verifier::loop_isolation(false)]
pub fn parse_integer(s: &str) -> (r: Option<i64>)
    ensures
        r == integer_of(s@),
{
    let v = chars_of(s);
    let n = v.len();
    let negative = n > 0 && v[0] == '-';
    let signed = n > 0 && (v[0] == '-' || v[0] == '+');
    let start: usize = if signed {
        1
    } else {
        0
    };
    let ghost digits = v@.skip(start as int);
    assert(v@.skip(0) =~= v@);
    if start == n || !digits_only(&v, start) {
        return None;
    }
    let limit: u64 = if negative {
        0x8000_0000_0000_0000
    } else {
        0x7fff_ffff_ffff_ffff
    };
    let mut magnitude: u64 = 0;
    let mut i: usize = start;
    assert(digits.take(0) =~= Seq::<char>::empty());
    while i < n
        invariant
            start <= i <= n,
            magnitude == digits_value(digits.take(i - start)),
            magnitude <= limit,
        decreases n - i,
    {
        let c = v[i];
        proof {
            let next = digits.take(i - start + 1);
            assert(next.drop_last() == digits.take(i - start));
            assert(next.last() == c);
            assert(is_digit(digits[i - start]));
        }
        let d: u64 = ((c as u8) - 48) as u64;
        if magnitude > (limit - d) / 10 {
            proof {
                assert(digits_value(digits.take(i - start + 1)) > limit);
                lemma_digits_value_grows(digits, i - start + 1);
            }
            return None;
        }
        magnitude = magnitude * 10 + d;
        i += 1;
    }
    assert(digits.take(n - start) == digits);
    if negative {
        if magnitude == 0x8000_0000_0000_0000 {
            Some(i64::MIN)
        } else {
            Some(-(magnitude as i64))
        }
    } else {
        Some(magnitude as i64)
    }
}

/// `a` followed by `b`.
pub fn join2(a: &str, b: &str) -> (r: String)
    ensures
        r@ == a@ + b@,
{
    let mut out = String::new();
    out.append(a);
    out.append(b);
    assert(Seq::<char>::empty() + a@ == a@);
    out
}

} // verus!
