//! Character-level text operations shared by the rest of the library:
//! escaping for single-quoted JavaScript string literals, decimal
//! rendering of integers, Unicode whitespace trimming, prefix and
//! substring search, and splitting into lines.

use vstd::prelude::*;
use vstd::string::*;

verus! {

// ---------------------------------------------------------------------
// Building strings
// ---------------------------------------------------------------------

/// Appends one character to a string: std's `String::push`, of which the
/// contract claims that the string afterwards holds the characters it held
/// before, followed by `c`.
#[verifier::external_body]
pub(crate) fn push_char(s: &mut String, c: char)
    ensures
        final(s)@ == old(s)@.push(c),
{
    s.push(c);
}

/// The characters of a string slice, in order.
pub fn chars_of(s: &str) -> (r: Vec<char>)
    ensures
        r@ == s@,
{
    let mut r: Vec<char> = Vec::new();
    for c in it: s.chars()
        invariant
            r@ == it.seq().take(it.index() as int),
            it.seq() == s@,
    {
        r.push(c);
    }
    r
}

/// Appends the characters `v[from..to]` to `out`.
pub fn push_chars(out: &mut String, v: &Vec<char>, from: usize, to: usize)
    requires
        from <= to <= v.len(),
    ensures
        final(out)@ == old(out)@ + v@.subrange(from as int, to as int),
{
    let mut i: usize = from;
    while i < to
        invariant
            from <= i <= to <= v.len(),
            out@ == old(out)@ + v@.subrange(from as int, i as int),
        decreases to - i,
    {
        push_char(out, v[i]);
        i += 1;
        assert(v@.subrange(from as int, i as int) =~= v@.subrange(from as int, (i - 1) as int).push(
            v@[i - 1],
        ));
    }
}

/// A new string holding the characters `v[from..to]`.
pub fn string_of(v: &Vec<char>, from: usize, to: usize) -> (r: String)
    requires
        from <= to <= v.len(),
    ensures
        r@ == v@.subrange(from as int, to as int),
{
    let mut r = String::new();
    push_chars(&mut r, v, from, to);
    r
}

// ---------------------------------------------------------------------
// Escaping for single-quoted JavaScript string literals
// ---------------------------------------------------------------------

/// How one character is written inside a single-quoted JavaScript literal:
/// a backslash and a single quote get a backslash in front; every other
/// character stands for itself.
pub open spec fn escape_char(c: char) -> Seq<char> {
    if c == '\\' {
        seq!['\\', '\\']
    } else if c == '\'' {
        seq!['\\', '\'']
    } else {
        seq![c]
    }
}

/// The text with backslashes doubled and single quotes preceded by a
/// backslash, character by character.
pub open spec fn js_escape(s: Seq<char>) -> Seq<char>
    decreases s.len(),
{
    if s.len() == 0 {
        seq![]
    } else {
        escape_char(s[0]) + js_escape(s.skip(1))
    }
}

/// Reads the body of a single-quoted JavaScript literal that uses only the
/// escapes `\\` and `\'`: `None` where the body holds a bare single quote (which
/// would end the literal), a dangling backslash, or any other escape.
pub open spec fn js_unescape(t: Seq<char>) -> Option<Seq<char>>
    decreases t.len(),
{
    if t.len() == 0 {
        Some(seq![])
    } else if t[0] == '\\' {
        if t.len() >= 2 && (t[1] == '\\' || t[1] == '\'') {
            match js_unescape(t.skip(2)) {
                Some(rest) => Some(seq![t[1]] + rest),
                None => None,
            }
        } else {
            None
        }
    } else if t[0] == '\'' {
        None
    } else {
        match js_unescape(t.skip(1)) {
            Some(rest) => Some(seq![t[0]] + rest),
            None => None,
        }
    }
}

/// Escaping distributes over concatenation.
pub proof fn lemma_js_escape_concat(a: Seq<char>, b: Seq<char>)
    ensures
        js_escape(a + b) == js_escape(a) + js_escape(b),
    decreases a.len(),
{
    if a.len() == 0 {
        assert(a + b =~= b);
    } else {
        assert((a + b).skip(1) =~= a.skip(1) + b);
        lemma_js_escape_concat(a.skip(1), b);
        assert(js_escape(a + b) == escape_char(a[0]) + js_escape(a.skip(1) + b));
    }
}

proof fn lemma_js_escape_snoc(s: Seq<char>, c: char)
    ensures
        js_escape(s.push(c)) == js_escape(s) + escape_char(c),
{
    lemma_js_escape_concat(s, seq![c]);
    assert(s.push(c) =~= s + seq![c]);
    assert(seq![c].skip(1) =~= Seq::<char>::empty());
    assert(js_escape(seq![c]) =~= escape_char(c) + js_escape(Seq::<char>::empty()));
}

/// Law: the escaped text, read back as the body of a single-quoted
/// JavaScript literal, denotes exactly the original text. In particular the
/// escaped text never holds a quote that would end the literal early.
pub proof fn lemma_js_escape_round_trip(s: Seq<char>)
    ensures
        js_unescape(js_escape(s)) == Some(s),
    decreases s.len(),
{
    if s.len() == 0 {
    } else {
        let c = s[0];
        let rest = js_escape(s.skip(1));
        lemma_js_escape_round_trip(s.skip(1));
        let t = escape_char(c) + rest;
        if c == '\\' || c == '\'' {
            assert(t.skip(2) =~= rest);
        } else {
            assert(t.skip(1) =~= rest);
        }
        assert(seq![c] + s.skip(1) =~= s);
    }
}

/// Law: escaping never maps two different texts to the same text.
pub proof fn lemma_js_escape_injective(a: Seq<char>, b: Seq<char>)
    requires
        js_escape(a) == js_escape(b),
    ensures
        a == b,
{
    lemma_js_escape_round_trip(a);
    lemma_js_escape_round_trip(b);
}

/// Escapes `s` for use inside a single-quoted JavaScript string literal:
/// every backslash is doubled, then every single quote gets a backslash.
pub fn escape_js(s: &str) -> (r: String)
    ensures
        r@ == js_escape(s@),
{
    let v = chars_of(s);
    let mut r = String::new();
    let mut i: usize = 0;
    while i < v.len()
        invariant
            0 <= i <= v.len(),
            v@ == s@,
            r@ == js_escape(v@.take(i as int)),
        decreases v.len() - i,
    {
        let c = v[i];
        proof {
            lemma_js_escape_snoc(v@.take(i as int), c);
            assert(v@.take(i as int).push(c) =~= v@.take(i + 1));
        }
        if c == '\\' {
            push_char(&mut r, '\\');
            push_char(&mut r, '\\');
        } else if c == '\'' {
            push_char(&mut r, '\\');
            push_char(&mut r, '\'');
        } else {
            push_char(&mut r, c);
        }
        i += 1;
    }
    assert(v@.take(v.len() as int) =~= v@);
    r
}

// ---------------------------------------------------------------------
// Decimal rendering of integers
// ---------------------------------------------------------------------

/// The ASCII digit for `d` (0 to 9).
pub open spec fn digit_char(d: nat) -> char {
    if d == 0 { '0' }
    else if d == 1 { '1' }
    else if d == 2 { '2' }
    else if d == 3 { '3' }
    else if d == 4 { '4' }
    else if d == 5 { '5' }
    else if d == 6 { '6' }
    else if d == 7 { '7' }
    else if d == 8 { '8' }
    else { '9' }
}

/// The decimal digits of `n`, most significant first, without leading zeros
/// (`0` is the single digit `0`).
pub open spec fn decimal_nat(n: nat) -> Seq<char>
    decreases n,
{
    if n < 10 {
        seq![digit_char(n)]
    } else {
        decimal_nat(n / 10).push(digit_char(n % 10))
    }
}

/// The decimal rendering of `i`, as Rust's `Display` writes an integer: a
/// minus sign before the digits of a negative number.
pub open spec fn decimal_int(i: int) -> Seq<char> {
    if i < 0 {
        seq!['-'] + decimal_nat((-i) as nat)
    } else {
        decimal_nat(i as nat)
    }
}

fn digit_of(d: u64) -> (c: char)
    requires
        d < 10,
    ensures
        c == digit_char(d as nat),
{
    if d == 0 { '0' }
    else if d == 1 { '1' }
    else if d == 2 { '2' }
    else if d == 3 { '3' }
    else if d == 4 { '4' }
    else if d == 5 { '5' }
    else if d == 6 { '6' }
    else if d == 7 { '7' }
    else if d == 8 { '8' }
    else { '9' }
}

/// Appends the decimal digits of `n`.
pub fn push_decimal_u64(out: &mut String, n: u64)
    ensures
        final(out)@ == old(out)@ + decimal_nat(n as nat),
    decreases n,
{
    if n < 10 {
        push_char(out, digit_of(n));
    } else {
        push_decimal_u64(out, n / 10);
        push_char(out, digit_of(n % 10));
    }
}

/// Appends the decimal rendering of `n`, with a minus sign when negative.
pub fn push_decimal_i64(out: &mut String, n: i64)
    ensures
        final(out)@ == old(out)@ + decimal_int(n as int),
{
    if n < 0 {
        push_char(out, '-');
        let m: u64 = ((-(n + 1)) as u64) + 1;
        assert(m as int == -(n as int));
        push_decimal_u64(out, m);
    } else {
        push_decimal_u64(out, n as u64);
    }
}

/// Whether `c` is one of the ASCII digits `0` to `9`.
pub open spec fn is_ascii_digit(c: char) -> bool {
    '0' <= c && c <= '9'
}

/// The number that a string of ASCII digits denotes, read most significant
/// digit first.
pub open spec fn digits_value(s: Seq<char>) -> nat
    decreases s.len(),
{
    if s.len() == 0 {
        0
    } else {
        digits_value(s.drop_last()) * 10 + ((s.last() as u32) - ('0' as u32)) as nat
    }
}

proof fn lemma_digit_char_value(d: nat)
    requires
        d < 10,
    ensures
        is_ascii_digit(digit_char(d)),
        (digit_char(d) as u32) - ('0' as u32) == d,
        d > 0 ==> digit_char(d) != '0',
{
    assert(('0' as u32) == 48u32);
    assert(('9' as u32) == 57u32);
    if d == 0 { assert(('0' as u32) == 48u32); }
    else if d == 1 { assert(('1' as u32) == 49u32); }
    else if d == 2 { assert(('2' as u32) == 50u32); }
    else if d == 3 { assert(('3' as u32) == 51u32); }
    else if d == 4 { assert(('4' as u32) == 52u32); }
    else if d == 5 { assert(('5' as u32) == 53u32); }
    else if d == 6 { assert(('6' as u32) == 54u32); }
    else if d == 7 { assert(('7' as u32) == 55u32); }
    else if d == 8 { assert(('8' as u32) == 56u32); }
    else { assert(('9' as u32) == 57u32); }
}

/// Law: the decimal rendering of `n` is a non-empty string of ASCII digits
/// with no leading zero (unless `n` is zero) that reads back as `n`.
pub proof fn lemma_decimal_reads_back(n: nat)
    ensures
        decimal_nat(n).len() > 0,
        forall|i: int| 0 <= i < decimal_nat(n).len() ==> #[trigger] is_ascii_digit(decimal_nat(n)[i]),
        n > 0 ==> decimal_nat(n)[0] != '0',
        digits_value(decimal_nat(n)) == n,
    decreases n,
{
    if n < 10 {
        lemma_digit_char_value(n);
        let s = decimal_nat(n);
        assert(s.drop_last() =~= Seq::<char>::empty());
        assert(digits_value(s.drop_last()) == 0);
        assert(s.last() == digit_char(n));
        assert(digits_value(s) == n);
    } else {
        lemma_decimal_reads_back(n / 10);
        lemma_digit_char_value(n % 10);
        let p = decimal_nat(n / 10);
        let s = decimal_nat(n);
        assert(s == p.push(digit_char(n % 10)));
        assert(s.drop_last() =~= p);
        assert(s[0] == p[0]);
        assert forall|i: int| 0 <= i < s.len() implies #[trigger] is_ascii_digit(s[i]) by {
            if i < p.len() {
                assert(s[i] == p[i]);
                assert(is_ascii_digit(p[i]));
            }
        }
        assert(digits_value(s) == (n / 10) * 10 + n % 10);
    }
}


// ---------------------------------------------------------------------
// Trimming
// ---------------------------------------------------------------------

/// Whether `c` has the Unicode `White_Space` property, which is what
/// `char::is_whitespace` and `str::trim` test.
pub open spec fn is_unicode_whitespace(c: char) -> bool {
    let n: u32 = c as u32;
    ||| 0x9 <= n <= 0xd
    ||| n == 0x20
    ||| n == 0x85
    ||| n == 0xa0
    ||| n == 0x1680
    ||| 0x2000 <= n <= 0x200a
    ||| n == 0x2028
    ||| n == 0x2029
    ||| n == 0x202f
    ||| n == 0x205f
    ||| n == 0x3000
}

/// A class of characters that a trim removes from both ends.
#[derive(Clone, Copy, PartialEq, Eq, Debug)]
pub enum CharClass {
    /// Unicode whitespace, as `str::trim` removes.
    Whitespace,
    /// The double quote `"`, as `trim_matches('"')` removes.
    DoubleQuote,
}

pub open spec fn in_class(c: char, k: CharClass) -> bool {
    match k {
        CharClass::Whitespace => is_unicode_whitespace(c),
        CharClass::DoubleQuote => c == '"',
    }
}

/// `s` without its leading characters of class `k`.
pub open spec fn trim_start_by(s: Seq<char>, k: CharClass) -> Seq<char>
    decreases s.len(),
{
    if s.len() > 0 && in_class(s[0], k) {
        trim_start_by(s.skip(1), k)
    } else {
        s
    }
}

/// `s` without its trailing characters of class `k`.
pub open spec fn trim_end_by(s: Seq<char>, k: CharClass) -> Seq<char>
    decreases s.len(),
{
    if s.len() > 0 && in_class(s.last(), k) {
        trim_end_by(s.drop_last(), k)
    } else {
        s
    }
}

/// `s` without the characters of class `k` at either end.
pub open spec fn trim_by(s: Seq<char>, k: CharClass) -> Seq<char> {
    trim_end_by(trim_start_by(s, k), k)
}

/// `s` without leading and trailing Unicode whitespace (`str::trim`).
pub open spec fn trim(s: Seq<char>) -> Seq<char> {
    trim_by(s, CharClass::Whitespace)
}

/// Whether `c` belongs to class `k`.
pub fn char_in_class(c: char, k: CharClass) -> (b: bool)
    ensures
        b == in_class(c, k),
{
    match k {
        CharClass::Whitespace => {
            let n: u32 = c as u32;
            (0x9 <= n && n <= 0xd) || n == 0x20 || n == 0x85 || n == 0xa0 || n == 0x1680 || (
            0x2000 <= n && n <= 0x200a) || n == 0x2028 || n == 0x2029 || n == 0x202f || n
                == 0x205f || n == 0x3000
        },
        CharClass::DoubleQuote => c == '"',
    }
}

/// The bounds of `v[from..to]` with the characters of class `k` removed from
/// both ends.
pub fn trim_bounds(v: &Vec<char>, from: usize, to: usize, k: CharClass) -> (r: (usize, usize))
    requires
        from <= to <= v.len(),
    ensures
        from <= r.0 <= r.1 <= to,
        v@.subrange(r.0 as int, r.1 as int) == trim_by(v@.subrange(from as int, to as int), k),
{
    let ghost s = v@.subrange(from as int, to as int);
    let mut i: usize = from;
    while i < to && char_in_class(v[i], k)
        invariant
            from <= i <= to <= v.len(),
            s == v@.subrange(from as int, to as int),
            trim_start_by(s, k) == trim_start_by(v@.subrange(i as int, to as int), k),
        decreases to - i,
    {
        assert(v@.subrange(i as int, to as int).skip(1) =~= v@.subrange(i + 1, to as int));
        i += 1;
    }
    assert(trim_start_by(s, k) == v@.subrange(i as int, to as int));
    let mut j: usize = to;
    while j > i && char_in_class(v[j - 1], k)
        invariant
            from <= i <= j <= to <= v.len(),
            trim_by(s, k) == trim_end_by(v@.subrange(i as int, j as int), k),
        decreases j - i,
    {
        assert(v@.subrange(i as int, j as int).drop_last() =~= v@.subrange(i as int, j - 1));
        j -= 1;
    }
    (i, j)
}

/// `s` without leading and trailing Unicode whitespace (`str::trim`).
pub fn trim_str(s: &str) -> (r: String)
    ensures
        r@ == trim(s@),
{
    let v = chars_of(s);
    let (a, b) = trim_bounds(&v, 0, v.len(), CharClass::Whitespace);
    assert(v@.subrange(0, v.len() as int) =~= v@);
    string_of(&v, a, b)
}

/// Whether `s` holds nothing but Unicode whitespace (`s.trim().is_empty()`).
pub fn is_blank(s: &str) -> (b: bool)
    ensures
        b == (trim(s@).len() == 0),
{
    let v = chars_of(s);
    let (a, b) = trim_bounds(&v, 0, v.len(), CharClass::Whitespace);
    assert(v@.subrange(0, v.len() as int) =~= v@);
    a == b
}

// ---------------------------------------------------------------------
// Prefixes and substrings
// ---------------------------------------------------------------------

/// Whether `s` begins with `p`.
pub open spec fn has_prefix(s: Seq<char>, p: Seq<char>) -> bool {
    p.len() <= s.len() && s.take(p.len() as int) == p
}

/// Whether `t` occurs in `s` starting at index `i`.
pub open spec fn occurs_at(s: Seq<char>, t: Seq<char>, i: int) -> bool {
    0 <= i && i + t.len() <= s.len() && s.subrange(i, i + t.len()) == t
}

/// Whether `t` occurs anywhere in `s` (`str::contains`).
pub open spec fn contains_seq(s: Seq<char>, t: Seq<char>) -> bool {
    exists|i: int| occurs_at(s, t, i)
}

/// Whether `v[at..]` begins with `t`, within `v[..to]`.
pub fn matches_at(v: &Vec<char>, to: usize, at: usize, t: &Vec<char>) -> (b: bool)
    requires
        at <= to <= v.len(),
    ensures
        b == occurs_at(v@.subrange(0, to as int), t@, at as int),
{
    if t.len() > to - at {
        return false;
    }
    let mut k: usize = 0;
    while k < t.len()
        invariant
            at <= to <= v.len(),
            t.len() <= to - at,
            0 <= k <= t.len(),
            forall|m: int| 0 <= m < k ==> v@[at + m] == t@[m],
        decreases t.len() - k,
    {
        if v[at + k] != t[k] {
            assert(v@.subrange(0, to as int).subrange(at as int, at + t.len())[k as int] != t@[k as int]);
            return false;
        }
        k += 1;
    }
    assert(v@.subrange(0, to as int).subrange(at as int, at + t.len()) =~= t@);
    true
}

/// The first index at which `t` occurs in `v`, if any (`str::find`).
pub fn find_seq(v: &Vec<char>, t: &Vec<char>) -> (r: Option<usize>)
    ensures
        match r {
            Some(i) => occurs_at(v@, t@, i as int) && forall|j: int|
                0 <= j < i ==> !occurs_at(v@, t@, j),
            None => !contains_seq(v@, t@),
        },
{
    assert(v@.subrange(0, v.len() as int) =~= v@);
    let mut i: usize = 0;
    while i < v.len()
        invariant
            0 <= i <= v.len(),
            v@.subrange(0, v.len() as int) == v@,
            forall|j: int| 0 <= j < i ==> !occurs_at(v@, t@, j),
        decreases v.len() - i,
    {
        if matches_at(v, v.len(), i, t) {
            return Some(i);
        }
        i += 1;
    }
    if matches_at(v, v.len(), i, t) {
        return Some(i);
    }
    assert forall|j: int| !occurs_at(v@, t@, j) by {
        if 0 <= j && j + t@.len() <= v@.len() {
            assert(j <= i);
        }
    }
    None
}

/// Whether `t` occurs in `s` (`str::contains`).
pub fn contains_str(s: &str, t: &str) -> (b: bool)
    ensures
        b == contains_seq(s@, t@),
{
    let v = chars_of(s);
    let w = chars_of(t);
    find_seq(&v, &w).is_some()
}

// ---------------------------------------------------------------------
// Lines
// ---------------------------------------------------------------------

/// The index of the first `c` in `s`, or `s.len()` where there is none.
pub open spec fn index_of_char(s: Seq<char>, c: char) -> int
    decreases s.len(),
{
    if s.len() == 0 {
        0
    } else if s[0] == c {
        0
    } else {
        1 + index_of_char(s.skip(1), c)
    }
}

pub proof fn lemma_index_of_char_bounds(s: Seq<char>, c: char)
    ensures
        0 <= index_of_char(s, c) <= s.len(),
        index_of_char(s, c) < s.len() ==> s[index_of_char(s, c)] == c,
        forall|j: int| 0 <= j < index_of_char(s, c) ==> s[j] != c,
    decreases s.len(),
{
    if s.len() > 0 && s[0] != c {
        lemma_index_of_char_bounds(s.skip(1), c);
        assert forall|j: int| 0 <= j < index_of_char(s, c) implies s[j] != c by {
            if j > 0 {
                assert(s[j] == s.skip(1)[j - 1]);
            }
        }
    }
}

proof fn lemma_index_of_char_is(s: Seq<char>, c: char, k: int)
    requires
        0 <= k <= s.len(),
        k < s.len() ==> s[k] == c,
        forall|j: int| 0 <= j < k ==> s[j] != c,
    ensures
        index_of_char(s, c) == k,
    decreases s.len(),
{
    if s.len() > 0 && k > 0 {
        assert forall|j: int| 0 <= j < k - 1 implies s.skip(1)[j] != c by {
            assert(s[j + 1] != c);
        }
        lemma_index_of_char_is(s.skip(1), c, k - 1);
    }
}

/// `l` without one carriage return at its end.
pub open spec fn strip_cr(l: Seq<char>) -> Seq<char> {
    if l.len() > 0 && l.last() == '\r' {
        l.drop_last()
    } else {
        l
    }
}

/// The lines of `s`, as `str::lines` gives them: split at `\n`, a `\r`
/// right before a `\n` dropped, and no empty line after a final `\n`.
pub open spec fn lines(s: Seq<char>) -> Seq<Seq<char>>
    decreases s.len(),
{
    if s.len() == 0 {
        seq![]
    } else {
        let k: int = index_of_char(s, '\n');
        if k < s.len() {
            proof {
                lemma_index_of_char_bounds(s, '\n');
            }
            seq![strip_cr(s.take(k))] + lines(s.skip(k + 1))
        } else {
            seq![s]
        }
    }
}

/// The bounds of each line of `v` (see `lines`).
pub fn line_bounds(v: &Vec<char>) -> (r: Vec<(usize, usize)>)
    ensures
        r.len() == lines(v@).len(),
        forall|k: int|
            #![trigger r@[k]]
            0 <= k < r.len() ==> r@[k].0 <= r@[k].1 <= v.len() && v@.subrange(
                r@[k].0 as int,
                r@[k].1 as int,
            ) == lines(v@)[k],
{
    let mut r: Vec<(usize, usize)> = Vec::new();
    let ghost mut done: Seq<Seq<char>> = seq![];
    let mut start: usize = 0;
    let mut i: usize = 0;
    assert(v@.skip(0) =~= v@);
    while i < v.len()
        invariant
            0 <= start <= i <= v.len(),
            lines(v@) == done + lines(v@.skip(start as int)),
            r.len() == done.len(),
            forall|k: int|
                #![trigger r@[k]]
                0 <= k < r.len() ==> r@[k].0 <= r@[k].1 <= v.len() && v@.subrange(
                    r@[k].0 as int,
                    r@[k].1 as int,
                ) == done[k],
            forall|j: int| start <= j < i ==> v@[j] != '\n',
        decreases v.len() - i,
    {
        if v[i] == '\n' {
            let ghost rest = v@.skip(start as int);
            proof {
                lemma_index_of_char_is(rest, '\n', i - start);
                assert(rest.skip(i - start + 1) =~= v@.skip(i + 1));
                assert(rest.take(i - start) =~= v@.subrange(start as int, i as int));
            }
            let end: usize = if i > start && v[i - 1] == '\r' {
                assert(v@.subrange(start as int, i as int).drop_last() =~= v@.subrange(
                    start as int,
                    i - 1,
                ));
                i - 1
            } else {
                i
            };
            let ghost line = strip_cr(v@.subrange(start as int, i as int));
            let ghost old_r = r@;
            let ghost old_done = done;
            assert(v@.subrange(start as int, end as int) == line);
            proof {
                assert(lines(rest) == seq![line] + lines(rest.skip(i - start + 1)));
                assert(done + lines(rest) =~= done.push(line) + lines(v@.skip(i + 1)));
                done = done.push(line);
            }
            r.push((start, end));
            assert forall|k: int| 0 <= k < r.len() implies #[trigger] r@[k].0 <= r@[k].1 <= v.len()
                && v@.subrange(r@[k].0 as int, r@[k].1 as int) == done[k] by {
                if k < old_r.len() {
                    assert(r@[k] == old_r[k]);
                    assert(done[k] == old_done[k]);
                    assert(v@.subrange(old_r[k].0 as int, old_r[k].1 as int) == old_done[k]);
                }
            }
            start = i + 1;
        }
        i += 1;
    }
    if start < v.len() {
        let ghost rest = v@.skip(start as int);
        proof {
            lemma_index_of_char_is(rest, '\n', rest.len() as int);
            assert(rest =~= v@.subrange(start as int, v.len() as int));
            assert(lines(rest) == seq![rest]);
            assert(done + lines(rest) =~= done.push(rest));
        }
        let ghost old_r = r@;
        let ghost old_done = done;
        proof {
            done = done.push(v@.skip(start as int));
        }
        r.push((start, v.len()));
        assert forall|k: int| 0 <= k < r.len() implies #[trigger] r@[k].0 <= r@[k].1 <= v.len()
            && v@.subrange(r@[k].0 as int, r@[k].1 as int) == done[k] by {
            if k < old_r.len() {
                assert(r@[k] == old_r[k]);
                assert(done[k] == old_done[k]);
                assert(v@.subrange(old_r[k].0 as int, old_r[k].1 as int) == old_done[k]);
            }
        }
    } else {
        assert(v@.skip(start as int).len() == 0);
        assert(done + lines(v@.skip(start as int)) =~= done);
    }
    assert(lines(v@) =~= done);
    r
}


// ---------------------------------------------------------------------
// Facts about trimming
// ---------------------------------------------------------------------

proof fn lemma_trim_start_shape(s: Seq<char>, k: CharClass)
    ensures
        exists|n: int|
            0 <= n <= s.len() && trim_start_by(s, k) == s.skip(n) && (forall|x: int|
                0 <= x < n ==> #[trigger] in_class(s[x], k)),
        trim_start_by(s, k).len() > 0 ==> !in_class(trim_start_by(s, k)[0], k),
    decreases s.len(),
{
    if s.len() > 0 && in_class(s[0], k) {
        lemma_trim_start_shape(s.skip(1), k);
        let t = s.skip(1);
        let n: int = choose|n: int|
            0 <= n <= t.len() && trim_start_by(t, k) == t.skip(n) && (forall|x: int|
                0 <= x < n ==> #[trigger] in_class(t[x], k));
        assert(t.skip(n) =~= s.skip(n + 1));
        assert forall|x: int| 0 <= x < n + 1 implies #[trigger] in_class(s[x], k) by {
            if x > 0 {
                assert(s[x] == t[x - 1]);
                assert(in_class(t[x - 1], k));
            }
        }
        assert(0 <= n + 1 <= s.len() && trim_start_by(s, k) == s.skip(n + 1));
    } else {
        assert(s.skip(0) =~= s);
        assert(0 <= 0 <= s.len() && trim_start_by(s, k) == s.skip(0) && (forall|x: int|
            0 <= x < 0 ==> #[trigger] in_class(s[x], k)));
    }
}

proof fn lemma_trim_end_shape(s: Seq<char>, k: CharClass)
    ensures
        exists|m: int|
            0 <= m <= s.len() && trim_end_by(s, k) == s.take(m) && (forall|x: int|
                m <= x < s.len() ==> #[trigger] in_class(s[x], k)),
        trim_end_by(s, k).len() > 0 ==> !in_class(trim_end_by(s, k).last(), k),
    decreases s.len(),
{
    if s.len() > 0 && in_class(s.last(), k) {
        lemma_trim_end_shape(s.drop_last(), k);
        let t = s.drop_last();
        let m: int = choose|m: int|
            0 <= m <= t.len() && trim_end_by(t, k) == t.take(m) && (forall|x: int|
                m <= x < t.len() ==> #[trigger] in_class(t[x], k));
        assert(t.take(m) =~= s.take(m));
        assert forall|x: int| m <= x < s.len() implies #[trigger] in_class(s[x], k) by {
            if x < t.len() {
                assert(s[x] == t[x]);
                assert(in_class(t[x], k));
            }
        }
        assert(0 <= m <= s.len() && trim_end_by(s, k) == s.take(m));
    } else {
        assert(s.take(s.len() as int) =~= s);
        assert(0 <= s.len() <= s.len() && trim_end_by(s, k) == s.take(s.len() as int) && (forall|x: int|
            s.len() <= x < s.len() ==> #[trigger] in_class(s[x], k)));
    }
}

/// A trimmed text is empty or neither begins nor ends with a character of
/// the trimmed class.
pub proof fn lemma_trim_by_ends(s: Seq<char>, k: CharClass)
    ensures
        trim_by(s, k).len() > 0 ==> !in_class(trim_by(s, k)[0], k) && !in_class(
            trim_by(s, k).last(),
            k,
        ),
{
    let u = trim_start_by(s, k);
    lemma_trim_start_shape(s, k);
    lemma_trim_end_shape(u, k);
    let m: int = choose|m: int| 0 <= m <= u.len() && trim_end_by(u, k) == u.take(m);
    if trim_by(s, k).len() > 0 {
        assert(trim_by(s, k)[0] == u[0]);
    }
}

/// Law: trimming twice is trimming once.
pub proof fn lemma_trim_by_idempotent(s: Seq<char>, k: CharClass)
    ensures
        trim_by(trim_by(s, k), k) == trim_by(s, k),
{
    let t = trim_by(s, k);
    lemma_trim_by_ends(s, k);
    assert(trim_start_by(t, k) == t);
    assert(trim_end_by(t, k) == t);
}

/// Law: trimming removes only characters of the class, and only at the
/// ends: the result is one contiguous stretch `s[i..j]` of the text, every
/// character before `i` and from `j` on is of the class, and the stretch
/// neither begins nor ends with one.
pub proof fn lemma_trim_by_removes_only_class(s: Seq<char>, k: CharClass)
    ensures
        exists|i: int, j: int|
            #![trigger s.subrange(i, j)]
            0 <= i <= j <= s.len() && trim_by(s, k) == s.subrange(i, j) && (forall|x: int|
                0 <= x < i ==> #[trigger] in_class(s[x], k)) && (forall|x: int|
                j <= x < s.len() ==> #[trigger] in_class(s[x], k)),
        trim_by(s, k).len() > 0 ==> !in_class(trim_by(s, k)[0], k) && !in_class(
            trim_by(s, k).last(),
            k,
        ),
{
    lemma_trim_by_ends(s, k);
    let u = trim_start_by(s, k);
    lemma_trim_start_shape(s, k);
    let i: int = choose|n: int|
        0 <= n <= s.len() && trim_start_by(s, k) == s.skip(n) && (forall|x: int|
            0 <= x < n ==> #[trigger] in_class(s[x], k));
    lemma_trim_end_shape(u, k);
    let m: int = choose|m: int|
        0 <= m <= u.len() && trim_end_by(u, k) == u.take(m) && (forall|x: int|
            m <= x < u.len() ==> #[trigger] in_class(u[x], k));
    let j: int = i + m;
    assert(u.take(m) =~= s.subrange(i, j));
    assert forall|x: int| j <= x < s.len() implies #[trigger] in_class(s[x], k) by {
        assert(s[x] == u[x - i]);
        assert(in_class(u[x - i], k));
    }
    assert(trim_by(s, k) == s.subrange(i, j));
}


// ---------------------------------------------------------------------
// Prefixes and suffixes of ranges, and the first line with a prefix
// ---------------------------------------------------------------------

/// Whether `s` ends with `p`.
pub open spec fn has_suffix(s: Seq<char>, p: Seq<char>) -> bool {
    p.len() <= s.len() && s.skip(s.len() - p.len()) == p
}

/// Whether `v[from..to]` begins with `p`.
pub fn range_has_prefix(v: &Vec<char>, from: usize, to: usize, p: &Vec<char>) -> (b: bool)
    requires
        from <= to <= v.len(),
    ensures
        b == has_prefix(v@.subrange(from as int, to as int), p@),
{
    let b = matches_at(v, to, from, p);
    if p.len() <= to - from {
        assert(v@.subrange(0, to as int).subrange(from as int, from + p@.len()) =~= v@.subrange(
            from as int,
            to as int,
        ).take(p@.len() as int));
    }
    b
}

/// Whether `v[from..to]` ends with `p`.
pub fn range_has_suffix(v: &Vec<char>, from: usize, to: usize, p: &Vec<char>) -> (b: bool)
    requires
        from <= to <= v.len(),
    ensures
        b == has_suffix(v@.subrange(from as int, to as int), p@),
{
    if p.len() > to - from {
        return false;
    }
    let at: usize = to - p.len();
    let b = matches_at(v, to, at, p);
    assert(v@.subrange(0, to as int).subrange(at as int, at + p@.len()) =~= v@.subrange(
        from as int,
        to as int,
    ).skip(to - from - p@.len()));
    b
}

/// The first of the lines `ls` that begins with `p`.
pub open spec fn first_with_prefix(ls: Seq<Seq<char>>, p: Seq<char>) -> Option<Seq<char>>
    decreases ls.len(),
{
    if ls.len() == 0 {
        None
    } else if has_prefix(ls[0], p) {
        Some(ls[0])
    } else {
        first_with_prefix(ls.skip(1), p)
    }
}

/// The line found begins with the prefix.
pub proof fn lemma_first_with_prefix_has_prefix(ls: Seq<Seq<char>>, p: Seq<char>)
    ensures
        first_with_prefix(ls, p) matches Some(l) ==> has_prefix(l, p),
    decreases ls.len(),
{
    if ls.len() > 0 && !has_prefix(ls[0], p) {
        lemma_first_with_prefix_has_prefix(ls.skip(1), p);
    }
}

/// The bounds in `v` of the first line of `v` that begins with `p`.
pub fn find_line_with_prefix(v: &Vec<char>, p: &Vec<char>) -> (r: Option<(usize, usize)>)
    ensures
        match r {
            Some((a, b)) => a <= b <= v.len() && first_with_prefix(lines(v@), p@) == Some(
                v@.subrange(a as int, b as int),
            ),
            None => first_with_prefix(lines(v@), p@) is None,
        },
{
    let bounds = line_bounds(v);
    let ghost ls = lines(v@);
    let mut k: usize = 0;
    assert(ls.skip(0) =~= ls);
    while k < bounds.len()
        invariant
            bounds.len() == ls.len(),
            ls == lines(v@),
            forall|m: int|
                #![trigger bounds@[m]]
                0 <= m < bounds.len() ==> bounds@[m].0 <= bounds@[m].1 <= v.len() && v@.subrange(
                    bounds@[m].0 as int,
                    bounds@[m].1 as int,
                ) == ls[m],
            0 <= k <= bounds.len(),
            first_with_prefix(ls, p@) == first_with_prefix(ls.skip(k as int), p@),
        decreases bounds.len() - k,
    {
        let (a, b) = bounds[k];
        assert(ls.skip(k as int)[0] == ls[k as int]);
        if range_has_prefix(v, a, b, p) {
            return Some((a, b));
        }
        assert(ls.skip(k as int).skip(1) =~= ls.skip(k + 1));
        k += 1;
    }
    None
}


// ---------------------------------------------------------------------
// Replacing a line
// ---------------------------------------------------------------------

/// `s` with its first line (see `lines`) that begins with `p` replaced by
/// `new`, the line ending kept; `s` itself where no line begins with `p`.
pub open spec fn replace_line_with_prefix(s: Seq<char>, p: Seq<char>, new: Seq<char>) -> Seq<char>
    decreases s.len(),
{
    if s.len() == 0 {
        s
    } else {
        let k = index_of_char(s, '\n');
        let line = if k < s.len() {
            strip_cr(s.take(k))
        } else {
            s
        };
        if has_prefix(line, p) {
            new + s.skip(line.len() as int)
        } else if k < s.len() {
            proof {
                lemma_index_of_char_bounds(s, '\n');
            }
            s.take(k + 1) + replace_line_with_prefix(s.skip(k + 1), p, new)
        } else {
            s
        }
    }
}

/// `v` with its first line that begins with `p` replaced by `new` (see
/// `replace_line_with_prefix`).
pub fn replace_line_with_prefix_vec(v: &Vec<char>, p: &Vec<char>, new: &str) -> (r: String)
    ensures
        r@ == replace_line_with_prefix(v@, p@, new@),
{
    let n = v.len();
    let mut start: usize = 0;
    assert(v@.skip(0) =~= v@);
    assert(v@.take(0) + replace_line_with_prefix(v@.skip(0), p@, new@) =~= replace_line_with_prefix(
        v@,
        p@,
        new@,
    ));
    loop
        invariant
            n == v.len(),
            0 <= start <= n,
            replace_line_with_prefix(v@, p@, new@) == v@.take(start as int) + replace_line_with_prefix(
                v@.skip(start as int),
                p@,
                new@,
            ),
        decreases n - start,
    {
        let ghost rest = v@.skip(start as int);
        if start == n {
            assert(rest.len() == 0);
            assert(v@.take(n as int) + rest =~= v@);
            return string_of(v, 0, n);
        }
        let mut i: usize = start;
        while i < n && v[i] != '\n'
            invariant
                n == v.len(),
                start <= i <= n,
                forall|j: int| start <= j < i ==> v@[j] != '\n',
            decreases n - i,
        {
            i += 1;
        }
        proof {
            lemma_index_of_char_is(rest, '\n', i - start);
        }
        let e: usize = if i < n && i > start && v[i - 1] == '\r' {
            i - 1
        } else {
            i
        };
        proof {
            if i < n {
                assert(rest.take(i - start) =~= v@.subrange(start as int, i as int));
                if i > start && v@[i - 1] == '\r' {
                    assert(v@.subrange(start as int, i as int).drop_last() =~= v@.subrange(
                        start as int,
                        e as int,
                    ));
                }
            } else {
                assert(rest =~= v@.subrange(start as int, n as int));
            }
            assert(rest.skip(e - start) =~= v@.skip(e as int));
        }
        if range_has_prefix(v, start, e, p) {
            let mut r = string_of(v, 0, start);
            r.append(new);
            push_chars(&mut r, v, e, n);
            assert(v@.subrange(e as int, n as int) =~= v@.skip(e as int));
            assert(v@.subrange(0, start as int) =~= v@.take(start as int));
            return r;
        }
        if i == n {
            assert(v@.take(start as int) + rest =~= v@);
            return string_of(v, 0, n);
        }
        assert(rest.take(i - start + 1) =~= v@.subrange(start as int, i + 1));
        assert(rest.skip(i - start + 1) =~= v@.skip(i + 1));
        assert(v@.take(start as int) + v@.subrange(start as int, i + 1) =~= v@.take(i + 1));
        start = i + 1;
    }
}


proof fn lemma_first_with_prefix_cons(l: Seq<char>, rest: Seq<Seq<char>>, p: Seq<char>)
    ensures
        first_with_prefix(seq![l] + rest, p) == if has_prefix(l, p) {
            Some(l)
        } else {
            first_with_prefix(rest, p)
        },
{
    assert((seq![l] + rest)[0] == l);
    assert((seq![l] + rest).skip(1) =~= rest);
}

/// After `replace_line_with_prefix`, the first line that begins with `p` is
/// `new`, when `new` is one line that begins with `p` and does not end with a
/// carriage return, and some line began with `p` before.
pub proof fn lemma_replace_line_with_prefix_first(s: Seq<char>, p: Seq<char>, new: Seq<char>)
    requires
        first_with_prefix(lines(s), p) is Some,
        has_prefix(new, p),
        new.len() > 0,
        new.last() != '\r',
        forall|i: int| 0 <= i < new.len() ==> #[trigger] new[i] != '\n',
    ensures
        first_with_prefix(lines(replace_line_with_prefix(s, p, new)), p) == Some(new),
    decreases s.len(),
{
    lemma_index_of_char_bounds(s, '\n');
    let k = index_of_char(s, '\n');
    let r = replace_line_with_prefix(s, p, new);
    if k < s.len() {
        let line = strip_cr(s.take(k));
        assert(lines(s) == seq![line] + lines(s.skip(k + 1)));
        lemma_first_with_prefix_cons(line, lines(s.skip(k + 1)), p);
        if has_prefix(line, p) {
            let tail = s.skip(line.len() as int);
            assert(r == new + tail);
            let m = (k - line.len()) as int;
            // `tail` is "\r\n..." or "\n...".
            assert(tail[m] == '\n');
            assert forall|j: int| 0 <= j < new.len() + m implies r[j] != '\n' by {
                if j >= new.len() {
                    assert(r[j] == s[line.len() + j - new.len()]);
                }
            }
            assert(r[new.len() + m] == '\n');
            lemma_index_of_char_is(r, '\n', new.len() + m);
            let first = strip_cr(r.take(new.len() + m));
            if m == 1 {
                assert(r.take(new.len() + m).drop_last() =~= new);
            } else {
                assert(r.take(new.len() + m) =~= new);
            }
            assert(first == new);
            assert(lines(r) == seq![first] + lines(r.skip(new.len() + m + 1)));
            lemma_first_with_prefix_cons(first, lines(r.skip(new.len() + m + 1)), p);
        } else {
            let rest = replace_line_with_prefix(s.skip(k + 1), p, new);
            assert(r == s.take(k + 1) + rest);
            lemma_replace_line_with_prefix_first(s.skip(k + 1), p, new);
            assert forall|j: int| 0 <= j < k implies r[j] != '\n' by {
                assert(r[j] == s[j]);
            }
            assert(r[k] == s[k]);
            lemma_index_of_char_is(r, '\n', k);
            assert(r.take(k) =~= s.take(k));
            assert(r.skip(k + 1) =~= rest);
            assert(lines(r) == seq![line] + lines(rest));
            lemma_first_with_prefix_cons(line, lines(rest), p);
        }
    } else {
        assert(lines(s) == seq![s]);
        lemma_first_with_prefix_cons(s, Seq::<Seq<char>>::empty(), p);
        assert(seq![s] + Seq::<Seq<char>>::empty() =~= seq![s]);
        assert(s.skip(s.len() as int) =~= Seq::<char>::empty());
        assert(r =~= new);
        lemma_index_of_char_is(r, '\n', r.len() as int);
        assert(lines(r) == seq![r]);
        assert(seq![r] + Seq::<Seq<char>>::empty() =~= seq![r]);
        lemma_first_with_prefix_cons(r, Seq::<Seq<char>>::empty(), p);
    }
}

/// Law: replacing the first line with a prefix keeps everything else: with
/// no such line the text is unchanged; otherwise that line, found at the
/// start of the text or right after a line break, is cut out and `new` put
/// in its place, and the text before and after it is kept as it was.
pub proof fn lemma_replace_line_with_prefix_keeps_rest(s: Seq<char>, p: Seq<char>, new: Seq<char>)
    ensures
        first_with_prefix(lines(s), p) is None ==> replace_line_with_prefix(s, p, new) == s,
        first_with_prefix(lines(s), p) matches Some(line) ==> exists|i: int|
            #![trigger s.take(i)]
            0 <= i && i + line.len() <= s.len() && (i == 0 || s[i - 1] == '\n')
                && s.subrange(i, i + line.len()) == line && replace_line_with_prefix(s, p, new)
                == s.take(i) + new + s.skip(i + line.len()),
    decreases s.len(),
{
    if s.len() == 0 {
        assert(lines(s) =~= Seq::<Seq<char>>::empty());
    } else {
        lemma_index_of_char_bounds(s, '\n');
        let k = index_of_char(s, '\n');
        let r = replace_line_with_prefix(s, p, new);
        if k < s.len() {
            let line = strip_cr(s.take(k));
            assert(lines(s) == seq![line] + lines(s.skip(k + 1)));
            lemma_first_with_prefix_cons(line, lines(s.skip(k + 1)), p);
            if has_prefix(line, p) {
                assert(s.take(0) =~= Seq::<char>::empty());
                assert(s.subrange(0, line.len() as int) =~= line);
                assert(r =~= s.take(0) + new + s.skip(line.len() as int));
            } else {
                let t = s.skip(k + 1);
                lemma_replace_line_with_prefix_keeps_rest(t, p, new);
                let rest = replace_line_with_prefix(t, p, new);
                assert(r == s.take(k + 1) + rest);
                if first_with_prefix(lines(t), p) is None {
                    assert(s.take(k + 1) + t =~= s);
                } else {
                    let l2 = first_with_prefix(lines(t), p)->0;
                    let i2: int = choose|i: int|
                        #![trigger t.take(i)]
                        0 <= i && i + l2.len() <= t.len() && (i == 0 || t[i - 1] == '\n')
                            && t.subrange(i, i + l2.len()) == l2 && replace_line_with_prefix(t, p, new)
                            == t.take(i) + new + t.skip(i + l2.len());
                    let i = k + 1 + i2;
                    assert(s.take(i) =~= s.take(k + 1) + t.take(i2));
                    assert(s.skip(i + l2.len()) =~= t.skip(i2 + l2.len()));
                    assert(s.subrange(i, i + l2.len()) =~= t.subrange(i2, i2 + l2.len()));
                    assert(s[i - 1] == '\n') by {
                        if i2 > 0 {
                            assert(s[i - 1] == t[i2 - 1]);
                        }
                    }
                    assert(r =~= s.take(i) + new + s.skip(i + l2.len()));
                }
            }
        } else {
            assert(lines(s) == seq![s]);
            lemma_first_with_prefix_cons(s, Seq::<Seq<char>>::empty(), p);
            assert(seq![s] + Seq::<Seq<char>>::empty() =~= seq![s]);
            if has_prefix(s, p) {
                assert(s.take(0) =~= Seq::<char>::empty());
                assert(s.subrange(0, s.len() as int) =~= s);
                assert(s.skip(s.len() as int) =~= Seq::<char>::empty());
                assert(r =~= s.take(0) + new + s.skip(s.len() as int));
            }
        }
    }
}

} // verus!
