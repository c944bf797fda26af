//! Text primitives: character sequences, decimal integers, decimal
//! floating-point literals, whitespace splitting and trimming.
use vstd::prelude::*;

verus! {

/// `String::push` appends exactly one character.
pub assume_specification[ String::push ](s: &mut String, c: char)
    ensures
        final(s)@ == old(s)@.push(c),
;

/// The characters with the Unicode `White_Space` property: the controls
/// from tab to carriage return, the space, the next-line control, the
/// no-break spaces, the Ogham space mark, the spaces of fixed width, the
/// line and paragraph separators, the medium mathematical space and the
/// ideographic space.
pub open spec fn is_white_space(c: char) -> bool {
    ||| '\u{9}' <= c <= '\u{d}'
    ||| c == ' '
    ||| c == '\u{85}'
    ||| c == '\u{a0}'
    ||| c == '\u{1680}'
    ||| '\u{2000}' <= c <= '\u{200a}'
    ||| c == '\u{2028}'
    ||| c == '\u{2029}'
    ||| c == '\u{202f}'
    ||| c == '\u{205f}'
    ||| c == '\u{3000}'
}

/// `char::is_whitespace`: whether `c` has the Unicode `White_Space`
/// property, which these characters have and no other.
#[verifier::external_body]
pub(crate) fn char_is_whitespace(c: char) -> (r: bool)
    ensures
        r == is_white_space(c),
{
    c.is_whitespace()
}

/// What `str::to_lowercase` returns: the Unicode lowercase form of a text.
pub uninterp spec fn lowercase_of(s: Seq<char>) -> Seq<char>;

/// `str::to_lowercase`: the Unicode lowercase equivalent, as a new string.
#[verifier::external_body]
pub(crate) fn to_lowercase(s: &str) -> (r: String)
    ensures
        r@ == lowercase_of(s@),
{
    s.to_lowercase()
}

/// The views of a sequence of strings.
pub open spec fn texts(v: Seq<String>) -> Seq<Seq<char>> {
    v.map_values(|s: String| s@)
}

pub fn chars_of(s: &str) -> (v: Vec<char>)
    ensures
        v@ == s@,
{
    let mut v: Vec<char> = Vec::new();
    for c in it: s.chars()
        invariant
            v@ == s@.take(it.index() as int),
            it.seq() == s@,
    {
        v.push(c);
        assert(s@.take(it.index() + 1) =~= s@.take(it.index() as int).push(c));
    }
    assert(s@.take(s@.len() as int) =~= s@);
    v
}

pub fn string_of(v: &Vec<char>) -> (s: String)
    ensures
        s@ == v@,
{
    string_of_range(v, 0, v.len())
}

/// The characters `v[from..to]` as a string.
pub fn string_of_range(v: &Vec<char>, from: usize, to: usize) -> (s: String)
    requires
        from <= to <= v.len(),
    ensures
        s@ == v@.subrange(from as int, to as int),
{
    let mut s = String::new();
    let mut i: usize = from;
    while i < to
        invariant
            from <= i <= to <= v.len(),
            s@ == v@.subrange(from as int, i as int),
        decreases to - i,
    {
        s.push(v[i]);
        assert(v@.subrange(from as int, i + 1) =~= v@.subrange(from as int, i as int).push(
            v@[i as int],
        ));
        i += 1;
    }
    s
}

pub fn same_chars(a: &Vec<char>, b: &Vec<char>) -> (r: bool)
    ensures
        r == (a@ == b@),
{
    if a.len() != b.len() {
        return false;
    }
    let mut i: usize = 0;
    while i < a.len()
        invariant
            i <= a.len(),
            a.len() == b.len(),
            forall|k: int| 0 <= k < i ==> a@[k] == b@[k],
        decreases a.len() - i,
    {
        if a[i] != b[i] {
            return false;
        }
        i += 1;
    }
    assert(a@ =~= b@);
    true
}

/// Whether two texts hold the same characters.
pub fn same_text(a: &str, b: &str) -> (r: bool)
    ensures
        r == (a@ == b@),
{
    let x = chars_of(a);
    let y = chars_of(b);
    same_chars(&x, &y)
}

pub fn copy_text(s: &str) -> (r: String)
    ensures
        r@ == s@,
{
    let v = chars_of(s);
    string_of(&v)
}

pub open spec fn is_digit(c: char) -> bool {
    '0' <= c <= '9'
}

pub open spec fn digit_value(c: char) -> nat {
    (c as u32 - '0' as u32) as nat
}

/// The number that a run of decimal digits denotes.
pub open spec fn digits_value(s: Seq<char>) -> nat
    decreases s.len(),
{
    if s.len() == 0 {
        0
    } else {
        digits_value(s.drop_last()) * 10 + digit_value(s.last())
    }
}

pub open spec fn all_digits(s: Seq<char>) -> bool {
    forall|i: int| 0 <= i < s.len() ==> is_digit(#[trigger] s[i])
}

/// The text of an unsigned 64-bit integer: an optional `+`, then one or more
/// decimal digits whose value fits.
pub open spec fn decimal_u64(s: Seq<char>) -> Option<u64> {
    let body = if s.len() > 0 && s[0] == '+' {
        s.skip(1)
    } else {
        s
    };
    if body.len() > 0 && all_digits(body) && digits_value(body) <= u64::MAX {
        Some(digits_value(body) as u64)
    } else {
        None
    }
}

/// The text of a signed 64-bit integer: an optional `+` or `-`, then one or
/// more decimal digits, the signed value in range.
pub open spec fn decimal_i64(s: Seq<char>) -> Option<i64> {
    let negative = s.len() > 0 && s[0] == '-';
    let body = if s.len() > 0 && (s[0] == '+' || s[0] == '-') {
        s.skip(1)
    } else {
        s
    };
    if body.len() > 0 && all_digits(body) {
        let magnitude = digits_value(body) as int;
        let value = if negative {
            -magnitude
        } else {
            magnitude
        };
        if i64::MIN <= value <= i64::MAX {
            Some(value as i64)
        } else {
            None
        }
    } else {
        None
    }
}

pub proof fn lemma_digits_value_monotone(s: Seq<char>, n: int)
    requires
        0 <= n <= s.len(),
    ensures
        digits_value(s.take(n)) <= digits_value(s),
    decreases s.len(),
{
    if n < s.len() {
        lemma_digits_value_monotone(s.drop_last(), n);
        assert(s.drop_last().take(n) =~= s.take(n));
    } else {
        assert(s.take(n) =~= s);
    }
}

/// Reads the digits `v[from..]`; `None` when there is none, when a character
/// is no digit, or when the value exceeds `limit`.
fn parse_digits(v: &Vec<char>, from: usize, limit: u64) -> (r: Option<u64>)
    requires
        from <= v.len(),
        limit >= 9,
    ensures
        ({
            let body = v@.skip(from as int);
            r == if body.len() > 0 && all_digits(body) && digits_value(body) <= limit {
                Some(digits_value(body) as u64)
            } else {
                None
            }
        }),
{
    let ghost body = v@.skip(from as int);
    if from == v.len() {
        return None;
    }
    let mut acc: u64 = 0;
    let mut i: usize = from;
    while i < v.len()
        invariant
            from <= i <= v.len(),
            body == v@.skip(from as int),
            all_digits(body.take(i - from)),
            acc == digits_value(body.take(i - from)),
            acc <= limit,
            limit >= 9,
        decreases v.len() - i,
    {
        let c = v[i];
        let ghost next = body.take(i - from + 1);
        proof {
            assert(next.drop_last() =~= body.take(i - from));
            assert(next.last() == c);
        }
        if !(c >= '0' && c <= '9') {
            proof {
                assert(body[i - from] == c);
            }
            return None;
        }
        let d: u64 = (c as u32 - '0' as u32) as u64;
        if acc > (limit - d) / 10 {
            proof {
                assert(digits_value(next) > limit);
                lemma_digits_value_monotone(body, i - from + 1);
            }
            return None;
        }
        acc = acc * 10 + d;
        proof {
            assert forall|k: int| 0 <= k < next.len() implies is_digit(#[trigger] next[k]) by {
                if k < i - from {
                    assert(body.take(i - from)[k] == next[k]);
                }
            }
        }
        i += 1;
    }
    proof {
        assert(body.take(i - from) =~= body);
    }
    Some(acc)
}

pub fn parse_u64(s: &str) -> (r: Option<u64>)
    ensures
        r == decimal_u64(s@),
{
    let v = chars_of(s);
    parse_u64_chars(&v)
}

pub fn parse_u64_chars(v: &Vec<char>) -> (r: Option<u64>)
    ensures
        r == decimal_u64(v@),
{
    let from: usize = if v.len() > 0 && v[0] == '+' {
        1
    } else {
        0
    };
    proof {
        assert(v@.skip(0) =~= v@);
    }
    parse_digits(v, from, u64::MAX)
}

pub fn parse_i64(s: &str) -> (r: Option<i64>)
    ensures
        r == decimal_i64(s@),
{
    let v = chars_of(s);
    proof {
        assert(v@.skip(0) =~= v@);
    }
    if v.len() > 0 && v[0] == '-' {
        match parse_digits(&v, 1, 9_223_372_036_854_775_808u64) {
            Some(m) => {
                if m == 9_223_372_036_854_775_808u64 {
                    Some(i64::MIN)
                } else {
                    Some(-(m as i64))
                }
            },
            None => None,
        }
    } else {
        let from: usize = if v.len() > 0 && v[0] == '+' {
            1
        } else {
            0
        };
        match parse_digits(&v, from, 9_223_372_036_854_775_807u64) {
            Some(m) => Some(m as i64),
            None => None,
        }
    }
}

/// The length of the longest prefix of `s` that holds no whitespace.
pub open spec fn word_len(s: Seq<char>) -> nat
    decreases s.len(),
{
    if s.len() == 0 || is_white_space(s[0]) {
        0
    } else {
        1 + word_len(s.skip(1))
    }
}

/// The maximal runs of characters without whitespace, in order: what
/// `str::split_whitespace` yields.
pub open spec fn words(s: Seq<char>) -> Seq<Seq<char>>
    decreases s.len(),
    via words_terminates
{
    if s.len() == 0 {
        Seq::empty()
    } else if is_white_space(s[0]) {
        words(s.skip(1))
    } else {
        let n = word_len(s) as int;
        seq![s.take(n)] + words(s.skip(n))
    }
}

#[via_fn]
proof fn words_terminates(s: Seq<char>) {
    lemma_word_len_bound(s);
}

pub proof fn lemma_word_len_bound(s: Seq<char>)
    ensures
        word_len(s) <= s.len(),
        forall|k: int| 0 <= k < word_len(s) ==> !is_white_space(#[trigger] s[k]),
        word_len(s) < s.len() ==> is_white_space(s[word_len(s) as int]),
    decreases s.len(),
{
    if s.len() == 0 || is_white_space(s[0]) {
    } else {
        lemma_word_len_bound(s.skip(1));
        assert forall|k: int| 0 <= k < word_len(s) implies !is_white_space(#[trigger] s[k]) by {
            if k > 0 {
                assert(s.skip(1)[k - 1] == s[k]);
            }
        }
        if word_len(s) < s.len() {
            assert(s.skip(1)[word_len(s.skip(1)) as int] == s[word_len(s) as int]);
        }
    }
}

/// The end of the word that starts at `start`.
fn word_end(v: &Vec<char>, start: usize) -> (end: usize)
    requires
        start <= v.len(),
    ensures
        start <= end <= v.len(),
        end - start == word_len(v@.skip(start as int)),
{
    let mut j: usize = start;
    let mut open = true;
    while open && j < v.len()
        invariant
            start <= j <= v.len(),
            word_len(v@.skip(start as int)) == (j - start) + word_len(v@.skip(j as int)),
            !open ==> word_len(v@.skip(j as int)) == 0,
        decreases v.len() - j + (if open { 1nat } else { 0nat }),
    {
        if char_is_whitespace(v[j]) {
            proof {
                assert(v@.skip(j as int)[0] == v@[j as int]);
            }
            open = false;
        } else {
            proof {
                assert(v@.skip(j as int)[0] == v@[j as int]);
                assert(v@.skip(j as int).skip(1) =~= v@.skip(j + 1));
            }
            j += 1;
        }
    }
    j
}

/// Splits a text at whitespace, as `str::split_whitespace` does.
pub fn split_whitespace(s: &str) -> (out: Vec<String>)
    ensures
        texts(out@) == words(s@),
{
    let v = chars_of(s);
    let mut out: Vec<String> = Vec::new();
    let mut i: usize = 0;
    proof {
        assert(v@.skip(0) =~= v@);
        assert(texts(out@) =~= Seq::<Seq<char>>::empty());
    }
    while i < v.len()
        invariant
            i <= v.len(),
            texts(out@) + words(v@.skip(i as int)) == words(v@),
        decreases v.len() - i,
    {
        let ghost rest = v@.skip(i as int);
        proof {
            assert(rest[0] == v@[i as int]);
        }
        if char_is_whitespace(v[i]) {
            proof {
                assert(rest.skip(1) =~= v@.skip(i + 1));
            }
            i += 1;
        } else {
            let end = word_end(&v, i);
            let word = string_of_range(&v, i, end);
            proof {
                let n = word_len(rest) as int;
                assert(rest.take(n) =~= v@.subrange(i as int, end as int));
                assert(rest.skip(n) =~= v@.skip(end as int));
                assert(texts(out@.push(word)) =~= texts(out@).push(word@));
                assert(texts(out@).push(word@) + words(v@.skip(end as int)) =~= texts(out@) + (
                seq![word@] + words(v@.skip(end as int))));
            }
            out.push(word);
            i = end;
        }
    }
    proof {
        assert(texts(out@) + Seq::<Seq<char>>::empty() =~= texts(out@));
    }
    out
}

/// The lowercase form of each text.
pub open spec fn lowercase_all(ws: Seq<Seq<char>>) -> Seq<Seq<char>> {
    ws.map_values(|w: Seq<char>| lowercase_of(w))
}

pub fn lowercase_each(ws: &Vec<String>) -> (out: Vec<String>)
    ensures
        texts(out@) == lowercase_all(texts(ws@)),
{
    let mut out: Vec<String> = Vec::new();
    let mut i: usize = 0;
    while i < ws.len()
        invariant
            i <= ws.len(),
            out.len() == i,
            forall|k: int| 0 <= k < i ==> (#[trigger] out@[k])@ == lowercase_of(ws@[k]@),
        decreases ws.len() - i,
    {
        let w = to_lowercase(ws[i].as_str());
        out.push(w);
        i += 1;
    }
    proof {
        assert(texts(out@) =~= lowercase_all(texts(ws@)));
    }
    out
}

/// How many characters at the start of `s` are whitespace.
pub open spec fn leading(s: Seq<char>) -> nat
    decreases s.len(),
{
    if s.len() == 0 || !is_white_space(s[0]) {
        0
    } else {
        1 + leading(s.skip(1))
    }
}

/// How many characters at the end of `s` are whitespace.
pub open spec fn trailing(s: Seq<char>) -> nat
    decreases s.len(),
{
    if s.len() == 0 || !is_white_space(s.last()) {
        0
    } else {
        1 + trailing(s.drop_last())
    }
}

/// `s` without the whitespace at both ends.
pub open spec fn trimmed(s: Seq<char>) -> Seq<char> {
    let rest = s.skip(leading(s) as int);
    rest.take(rest.len() - trailing(rest))
}

pub proof fn lemma_trailing_bound(s: Seq<char>)
    ensures
        trailing(s) <= s.len(),
    decreases s.len(),
{
    if s.len() == 0 || !is_white_space(s.last()) {
    } else {
        lemma_trailing_bound(s.drop_last());
    }
}

/// Removes the whitespace from both ends of `v`.
pub fn trim_chars(v: &Vec<char>) -> (out: Vec<char>)
    ensures
        out@ == trimmed(v@),
{
    let mut a: usize = 0;
    let mut open = true;
    proof {
        assert(v@.skip(0) =~= v@);
    }
    while open && a < v.len()
        invariant
            a <= v.len(),
            leading(v@) == a + leading(v@.skip(a as int)),
            !open ==> leading(v@.skip(a as int)) == 0,
        decreases v.len() - a + (if open { 1nat } else { 0nat }),
    {
        proof {
            assert(v@.skip(a as int)[0] == v@[a as int]);
            assert(v@.skip(a as int).skip(1) =~= v@.skip(a + 1));
        }
        if char_is_whitespace(v[a]) {
            a += 1;
        } else {
            open = false;
        }
    }
    let ghost rest = v@.skip(a as int);
    let mut b: usize = v.len();
    let mut open = true;
    proof {
        assert(rest.take(b - a) =~= rest);
    }
    while open && b > a
        invariant
            a <= b <= v.len(),
            rest == v@.skip(a as int),
            trailing(rest) == (v.len() - b) + trailing(rest.take(b - a)),
            !open ==> trailing(rest.take(b - a)) == 0,
        decreases b - a + (if open { 1nat } else { 0nat }),
    {
        proof {
            assert(rest.take(b - a).last() == v@[b - 1]);
            assert(rest.take(b - a).drop_last() =~= rest.take(b - a - 1));
        }
        if char_is_whitespace(v[b - 1]) {
            b -= 1;
        } else {
            open = false;
        }
    }
    let mut out: Vec<char> = Vec::new();
    let mut i: usize = a;
    while i < b
        invariant
            a <= i <= b <= v.len(),
            out@ == v@.subrange(a as int, i as int),
        decreases b - i,
    {
        out.push(v[i]);
        proof {
            assert(v@.subrange(a as int, i + 1) =~= v@.subrange(a as int, i as int).push(
                v@[i as int],
            ));
        }
        i += 1;
    }
    proof {
        lemma_trailing_bound(rest.take(b - a));
        assert(rest.take(rest.len() - trailing(rest)) =~= v@.subrange(a as int, b as int));
    }
    out
}

/// How many decimal digits stand in `s` from position `from` on.
pub open spec fn digit_run(s: Seq<char>, from: int) -> nat
    decreases s.len() - from,
{
    if 0 <= from < s.len() && is_digit(s[from]) {
        1 + digit_run(s, from + 1)
    } else {
        0
    }
}

pub open spec fn ascii_lower(c: char) -> char {
    if 'A' <= c <= 'Z' {
        ((c as u8) + 32) as char
    } else {
        c
    }
}

/// `inf`, `infinity` or `nan`, in any letter case.
pub open spec fn is_float_special(s: Seq<char>) -> bool {
    let low = s.map_values(|c: char| ascii_lower(c));
    low == seq!['i', 'n', 'f'] || low == seq!['i', 'n', 'f', 'i', 'n', 'i', 't', 'y'] || low
        == seq!['n', 'a', 'n']
}

/// Digits with an optional fraction point, at least one digit in all, then an
/// optional exponent: `e` or `E`, an optional sign, one or more digits.
pub open spec fn is_float_number(s: Seq<char>) -> bool {
    let a = digit_run(s, 0) as int;
    let dot = a < s.len() && s[a] == '.';
    let f = if dot {
        digit_run(s, a + 1) as int
    } else {
        0
    };
    let b = if dot {
        a + 1 + f
    } else {
        a
    };
    a + f >= 1 && (b == s.len() || ((s[b] == 'e' || s[b] == 'E') && {
        let c = if b + 1 < s.len() && (s[b + 1] == '+' || s[b + 1] == '-') {
            b + 2
        } else {
            b + 1
        };
        digit_run(s, c) >= 1 && c + digit_run(s, c) == s.len()
    }))
}

/// The texts that denote a double-precision number: an optional sign, then a
/// special value or a decimal number.
pub open spec fn is_float_literal(s: Seq<char>) -> bool {
    let body = if s.len() > 0 && (s[0] == '+' || s[0] == '-') {
        s.skip(1)
    } else {
        s
    };
    is_float_special(body) || is_float_number(body)
}

fn digits_end(v: &Vec<char>, from: usize) -> (end: usize)
    requires
        from <= v.len(),
    ensures
        from <= end <= v.len(),
        end - from == digit_run(v@, from as int),
{
    let mut j: usize = from;
    let mut open = true;
    while open && j < v.len()
        invariant
            from <= j <= v.len(),
            digit_run(v@, from as int) == (j - from) + digit_run(v@, j as int),
            !open ==> digit_run(v@, j as int) == 0,
        decreases v.len() - j + (if open { 1nat } else { 0nat }),
    {
        if v[j] >= '0' && v[j] <= '9' {
            j += 1;
        } else {
            open = false;
        }
    }
    j
}

fn lower_char(c: char) -> (r: char)
    ensures
        r == ascii_lower(c),
{
    if c >= 'A' && c <= 'Z' {
        ((c as u8) + 32) as char
    } else {
        c
    }
}

fn lowered_is(v: &Vec<char>, word: &Vec<char>) -> (r: bool)
    ensures
        r == (v@.map_values(|c: char| ascii_lower(c)) == word@),
{
    let ghost low = v@.map_values(|c: char| ascii_lower(c));
    if v.len() != word.len() {
        return false;
    }
    let mut i: usize = 0;
    while i < v.len()
        invariant
            i <= v.len(),
            v.len() == word.len(),
            low == v@.map_values(|c: char| ascii_lower(c)),
            forall|k: int| 0 <= k < i ==> low[k] == word@[k],
        decreases v.len() - i,
    {
        if lower_char(v[i]) != word[i] {
            proof {
                assert(low[i as int] != word@[i as int]);
            }
            return false;
        }
        i += 1;
    }
    proof {
        assert(low =~= word@);
    }
    true
}

fn float_special(v: &Vec<char>) -> (r: bool)
    ensures
        r == is_float_special(v@),
{
    let inf: Vec<char> = vec!['i', 'n', 'f'];
    let infinity: Vec<char> = vec!['i', 'n', 'f', 'i', 'n', 'i', 't', 'y'];
    let nan: Vec<char> = vec!['n', 'a', 'n'];
    proof {
        assert(inf@ =~= seq!['i', 'n', 'f']);
        assert(infinity@ =~= seq!['i', 'n', 'f', 'i', 'n', 'i', 't', 'y']);
        assert(nan@ =~= seq!['n', 'a', 'n']);
    }
    lowered_is(v, &inf) || lowered_is(v, &infinity) || lowered_is(v, &nan)
}

fn float_number(v: &Vec<char>) -> (r: bool)
    ensures
        r == is_float_number(v@),
{
    let a = digits_end(v, 0);
    let dot = a < v.len() && v[a] == '.';
    let b: usize = if dot {
        digits_end(v, a + 1)
    } else {
        a
    };
    let digits: usize = if dot {
        b - 1
    } else {
        a
    };
    if digits < 1 {
        return false;
    }
    if b == v.len() {
        return true;
    }
    if !(v[b] == 'e' || v[b] == 'E') {
        return false;
    }
    let c: usize = if b + 1 < v.len() && (v[b + 1] == '+' || v[b + 1] == '-') {
        b + 2
    } else {
        b + 1
    };
    let end = digits_end(v, c);
    end > c && end == v.len()
}

/// Whether `s` denotes a double-precision number.
pub fn float_literal(s: &str) -> (r: bool)
    ensures
        r == is_float_literal(s@),
{
    let v = chars_of(s);
    let from: usize = if v.len() > 0 && (v[0] == '+' || v[0] == '-') {
        1
    } else {
        0
    };
    let body = chars_from(&v, from);
    proof {
        assert(v@.skip(0) =~= v@);
    }
    float_special(&body) || float_number(&body)
}

/// The characters of `v` from `from` on.
pub fn chars_from(v: &Vec<char>, from: usize) -> (out: Vec<char>)
    requires
        from <= v.len(),
    ensures
        out@ == v@.skip(from as int),
{
    let mut out: Vec<char> = Vec::new();
    let mut i: usize = from;
    while i < v.len()
        invariant
            from <= i <= v.len(),
            out@ == v@.subrange(from as int, i as int),
        decreases v.len() - i,
    {
        out.push(v[i]);
        proof {
            assert(v@.subrange(from as int, i + 1) =~= v@.subrange(from as int, i as int).push(
                v@[i as int],
            ));
        }
        i += 1;
    }
    proof {
        assert(v@.subrange(from as int, v@.len() as int) =~= v@.skip(from as int));
    }
    out
}

pub open spec fn digit_char(d: nat) -> char {
    (('0' as u8) + (d % 10) as u8) as char
}

/// The decimal digits of `n`, without leading zeros.
pub open spec fn decimal_of(n: nat) -> Seq<char>
    decreases n,
{
    if n < 10 {
        seq![digit_char(n)]
    } else {
        decimal_of(n / 10).push(digit_char(n % 10))
    }
}

/// The decimal text of an integer, with `-` before a negative one.
pub open spec fn signed_decimal_of(i: int) -> Seq<char> {
    if i < 0 {
        seq!['-'] + decimal_of((-i) as nat)
    } else {
        decimal_of(i as nat)
    }
}

/// Appends the decimal digits of `n`.
pub fn push_decimal(out: &mut Vec<char>, n: u64)
    ensures
        final(out)@ == old(out)@ + decimal_of(n as nat),
    decreases n,
{
    if n >= 10 {
        push_decimal(out, n / 10);
    }
    let d: u8 = (n % 10) as u8;
    out.push((('0' as u8) + d) as char);
    proof {
        if n >= 10 {
            assert(final(out)@ =~= old(out)@ + decimal_of(n as nat));
        } else {
            assert(final(out)@ =~= old(out)@ + decimal_of(n as nat));
        }
    }
}

/// Appends the characters of `s`.
pub fn push_text(out: &mut Vec<char>, s: &str)
    ensures
        final(out)@ == old(out)@ + s@,
{
    let v = chars_of(s);
    let mut i: usize = 0;
    while i < v.len()
        invariant
            i <= v.len(),
            v@ == s@,
            out@ == old(out)@ + v@.take(i as int),
        decreases v.len() - i,
    {
        out.push(v[i]);
        proof {
            assert(old(out)@ + v@.take(i + 1) =~= (old(out)@ + v@.take(i as int)).push(
                v@[i as int],
            ));
        }
        i += 1;
    }
    proof {
        assert(v@.take(v@.len() as int) =~= v@);
    }
}

/// The decimal text of `n`.
pub fn u64_to_text(n: u64) -> (s: String)
    ensures
        s@ == decimal_of(n as nat),
{
    let mut out: Vec<char> = Vec::new();
    push_decimal(&mut out, n);
    proof {
        assert(Seq::<char>::empty() + decimal_of(n as nat) =~= decimal_of(n as nat));
    }
    string_of(&out)
}

/// The decimal text of `i`.
pub fn i64_to_text(i: i64) -> (s: String)
    ensures
        s@ == signed_decimal_of(i as int),
{
    let mut out: Vec<char> = Vec::new();
    if i < 0 {
        out.push('-');
        let m: u64 = if i == i64::MIN {
            9_223_372_036_854_775_808u64
        } else {
            (-i) as u64
        };
        push_decimal(&mut out, m);
    } else {
        push_decimal(&mut out, i as u64);
        proof {
            assert(Seq::<char>::empty() + decimal_of(i as nat) =~= decimal_of(i as nat));
        }
    }
    string_of(&out)
}

/// The lowercase words that stand for `true`.
pub open spec fn truthy(low: Seq<char>) -> bool {
    low == "true"@ || low == "t"@ || low == "1"@ || low == "yes"@ || low == "y"@
}

/// The lowercase words that stand for `false`.
pub open spec fn falsy(low: Seq<char>) -> bool {
    low == "false"@ || low == "f"@ || low == "0"@ || low == "no"@ || low == "n"@
}

/// The truth value that a text stands for, whatever its letter case.
pub open spec fn bool_of_text(s: Seq<char>) -> Option<bool> {
    let low = lowercase_of(s);
    if truthy(low) {
        Some(true)
    } else if falsy(low) {
        Some(false)
    } else {
        None
    }
}

/// The truth value that a lowercase word stands for.
pub open spec fn truth_of_word(low: Seq<char>) -> Option<bool> {
    if truthy(low) {
        Some(true)
    } else if falsy(low) {
        Some(false)
    } else {
        None
    }
}

/// Reads a word for a truth value, given in lowercase.
pub fn bool_from_word(l: &str) -> (r: Option<bool>)
    ensures
        r == truth_of_word(l@),
{
    if same_text(l, "true") || same_text(l, "t") || same_text(l, "1") || same_text(l, "yes")
        || same_text(l, "y") {
        Some(true)
    } else if same_text(l, "false") || same_text(l, "f") || same_text(l, "0") || same_text(l, "no")
        || same_text(l, "n") {
        Some(false)
    } else {
        None
    }
}

/// Reads a word for a truth value, whatever its letter case.
pub fn parse_bool(s: &str) -> (r: Option<bool>)
    ensures
        r == bool_of_text(s@),
{
    let low = to_lowercase(s);
    bool_from_word(low.as_str())
}

/// Nanoseconds in a second.
pub const NANOS_PER_SECOND: i64 = 1_000_000_000;

/// The nanosecond timestamp of a timestamp in seconds, where it fits.
pub open spec fn nanos_of_seconds(secs: i64) -> Option<i64> {
    if i64::MIN <= secs * NANOS_PER_SECOND <= i64::MAX {
        Some((secs * NANOS_PER_SECOND) as i64)
    } else {
        None
    }
}

pub fn seconds_to_nanos(secs: i64) -> (r: Option<i64>)
    ensures
        r == nanos_of_seconds(secs),
{
    if secs > 9_223_372_036 || secs < -9_223_372_036 {
        None
    } else {
        Some(secs * NANOS_PER_SECOND)
    }
}

/// The characters of a text that may be absent.
pub open spec fn opt_text(t: Option<String>) -> Option<Seq<char>> {
    match t {
        Some(s) => Some(s@),
        None => None,
    }
}

} // verus!
