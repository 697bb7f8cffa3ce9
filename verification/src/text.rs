//! Character-level text handling: decimal rendering and parsing, Unicode
//! trimming, ASCII case folding and lexicographic order.
use vstd::prelude::*;

verus! {

/// Appends one character to a string.
///
/// Trusted: calls `String::push`, which std documents as appending the given
/// `char` to the end of the string.
#[verifier::external_body]
pub(crate) fn push_char(s: &mut String, c: char)
    ensures
        final(s)@ == old(s)@.push(c),
{
    s.push(c);
}

/// The characters of a string slice, in order.
pub fn chars_of(s: &str) -> (v: Vec<char>)
    ensures
        v@ == s@,
{
    let mut v: Vec<char> = Vec::new();
    for c in it: s.chars()
        invariant
            v@ == it.seq().take(it.index() as int),
            it.seq() == s@,
    {
        v.push(c);
    }
    v
}

/// A string made of the given characters.
pub fn string_of(v: &[char]) -> (s: String)
    ensures
        s@ == v@,
{
    let mut s = String::new();
    let n = v.len();
    for i in 0..n
        invariant
            n == v@.len(),
            s@ == v@.take(i as int),
    {
        push_char(&mut s, v[i]);
        assert(v@.take(i + 1) == v@.take(i as int).push(v@[i as int]));
    }
    assert(v@.take(n as int) == v@);
    s
}


/// The decimal digit character for `d < 10`.
pub open spec fn spec_digit_char(d: nat) -> char {
    if d == 0 { '0' } else if d == 1 { '1' } else if d == 2 { '2' } else if d == 3 { '3' }
    else if d == 4 { '4' } else if d == 5 { '5' } else if d == 6 { '6' } else if d == 7 { '7' }
    else if d == 8 { '8' } else { '9' }
}

/// The decimal rendering of `n`: no sign, no leading zeros, "0" for zero.
pub open spec fn spec_decimal(n: nat) -> Seq<char>
    decreases n,
{
    if n < 10 {
        seq![spec_digit_char(n)]
    } else {
        spec_decimal(n / 10).push(spec_digit_char(n % 10))
    }
}

fn digit_char(d: u64) -> (c: char)
    requires
        d < 10,
    ensures
        c == spec_digit_char(d as nat),
{
    if d == 0 { '0' } else if d == 1 { '1' } else if d == 2 { '2' } else if d == 3 { '3' }
    else if d == 4 { '4' } else if d == 5 { '5' } else if d == 6 { '6' } else if d == 7 { '7' }
    else if d == 8 { '8' } else { '9' }
}

/// Whether `c` has the Unicode `White_Space` property, which is what
/// `char::is_whitespace` and `str::trim` go by.
pub open spec fn is_white_space(c: char) -> bool {
    ||| '\u{9}' <= c <= '\u{d}'
    ||| c == ' '
    ||| c == '\u{85}'
    ||| c == '\u{a0}'
    ||| c == '\u{1680}'
    ||| '\u{2000}' <= c <= '\u{200a}'
    ||| c == '\u{2028}'
    ||| c == '\u{2029}'
    ||| c == '\u{202f}'
    ||| c == '\u{205f}'
    ||| c == '\u{3000}'
}

fn white_space(c: char) -> (b: bool)
    ensures
        b == is_white_space(c),
{
    ('\u{9}' <= c && c <= '\u{d}') || c == ' ' || c == '\u{85}' || c == '\u{a0}' || c == '\u{1680}'
        || ('\u{2000}' <= c && c <= '\u{200a}') || c == '\u{2028}' || c == '\u{2029}' || c
        == '\u{202f}' || c == '\u{205f}' || c == '\u{3000}'
}

/// `s` without its leading white space.
pub open spec fn spec_trim_start(s: Seq<char>) -> Seq<char>
    decreases s.len(),
{
    if s.len() > 0 && is_white_space(s[0]) {
        spec_trim_start(s.drop_first())
    } else {
        s
    }
}

/// `s` without its trailing white space.
pub open spec fn spec_trim_end(s: Seq<char>) -> Seq<char>
    decreases s.len(),
{
    if s.len() > 0 && is_white_space(s.last()) {
        spec_trim_end(s.drop_last())
    } else {
        s
    }
}

/// `s` without leading and trailing white space, as `str::trim` gives it.
pub open spec fn spec_trim(s: Seq<char>) -> Seq<char> {
    spec_trim_end(spec_trim_start(s))
}

proof fn lemma_trim_start_cut(s: Seq<char>) -> (i: int)
    ensures
        0 <= i <= s.len(),
        spec_trim_start(s) == s.skip(i),
        forall|k: int| 0 <= k < i ==> is_white_space(#[trigger] s[k]),
        i < s.len() ==> !is_white_space(s[i]),
    decreases s.len(),
{
    if s.len() > 0 && is_white_space(s[0]) {
        let i0 = lemma_trim_start_cut(s.drop_first());
        assert(s.drop_first().skip(i0) =~= s.skip(i0 + 1));
        assert forall|k: int| 0 <= k < i0 + 1 implies is_white_space(#[trigger] s[k]) by {
            if k > 0 {
                assert(s[k] == s.drop_first()[k - 1]);
            }
        }
        assert(i0 + 1 < s.len() ==> s[i0 + 1] == s.drop_first()[i0]);
        i0 + 1
    } else {
        assert(s.skip(0) =~= s);
        0
    }
}

proof fn lemma_trim_end_cut(s: Seq<char>) -> (j: int)
    ensures
        0 <= j <= s.len(),
        spec_trim_end(s) == s.take(j),
        forall|k: int| j <= k < s.len() ==> is_white_space(#[trigger] s[k]),
        j > 0 ==> !is_white_space(s[j - 1]),
    decreases s.len(),
{
    if s.len() > 0 && is_white_space(s.last()) {
        let j0 = lemma_trim_end_cut(s.drop_last());
        assert(s.drop_last().take(j0) =~= s.take(j0));
        assert forall|k: int| j0 <= k < s.len() implies is_white_space(#[trigger] s[k]) by {
            if k < s.len() - 1 {
                assert(s[k] == s.drop_last()[k]);
            }
        }
        assert(j0 > 0 ==> s[j0 - 1] == s.drop_last()[j0 - 1]);
        j0
    } else {
        assert(s.take(s.len() as int) =~= s);
        s.len() as int
    }
}

/// Trimming removes white space from both ends and nothing else: the result
/// is the part of `s` from `i` to `j`, everything before `i` and from `j` on
/// is white space, and the result neither starts nor ends with white space.
pub proof fn lemma_trim(s: Seq<char>)
    ensures
        exists|i: int, j: int|
            0 <= i <= j <= s.len() && spec_trim(s) == s.subrange(i, j)
                && (forall|k: int| 0 <= k < i ==> is_white_space(#[trigger] s[k]))
                && (forall|k: int| j <= k < s.len() ==> is_white_space(#[trigger] s[k]))
                && (i < j ==> !is_white_space(s[i]) && !is_white_space(s[j - 1])),
{
    let i = lemma_trim_start_cut(s);
    let t = s.skip(i);
    let j0 = lemma_trim_end_cut(t);
    let j = i + j0;
    assert(t.take(j0) =~= s.subrange(i, j));
    assert forall|k: int| j <= k < s.len() implies is_white_space(#[trigger] s[k]) by {
        assert(s[k] == t[k - i]);
    }
    if i < j {
        assert(s[j - 1] == t[j0 - 1]);
    }
    assert(0 <= i <= j <= s.len() && spec_trim(s) == s.subrange(i, j)
        && (forall|k: int| 0 <= k < i ==> is_white_space(#[trigger] s[k]))
        && (forall|k: int| j <= k < s.len() ==> is_white_space(#[trigger] s[k]))
        && (i < j ==> !is_white_space(s[i]) && !is_white_space(s[j - 1])));
}

/// The characters of `v` without leading and trailing white space.
pub fn trim_slice(v: &[char]) -> (t: Vec<char>)
    ensures
        t@ == spec_trim(v@),
{
    let n = v.len();
    let mut i: usize = 0;
    assert(v@.skip(0) =~= v@);
    while i < n && white_space(v[i])
        invariant
            i <= n,
            n == v@.len(),
            spec_trim_start(v@) == spec_trim_start(v@.skip(i as int)),
        decreases n - i,
    {
        assert(v@.skip(i as int).drop_first() =~= v@.skip(i + 1));
        i = i + 1;
    }
    assert(spec_trim_start(v@) == v@.skip(i as int)) by {
        if i == n {
            assert(v@.skip(i as int).len() == 0);
        }
    }
    let mut j: usize = n;
    assert(v@.skip(i as int) =~= v@.subrange(i as int, n as int));
    while j > i && white_space(v[j - 1])
        invariant
            i <= j <= n,
            n == v@.len(),
            spec_trim_end(v@.skip(i as int)) == spec_trim_end(v@.subrange(i as int, j as int)),
        decreases j,
    {
        assert(v@.subrange(i as int, j as int).drop_last() =~= v@.subrange(i as int, j - 1));
        j = j - 1;
    }
    let mut t: Vec<char> = Vec::new();
    let mut k: usize = i;
    while k < j
        invariant
            i <= k <= j <= n,
            n == v@.len(),
            t@ == v@.subrange(i as int, k as int),
        decreases j - k,
    {
        t.push(v[k]);
        assert(v@.subrange(i as int, k + 1) =~= v@.subrange(i as int, k as int).push(v@[k as int]));
        k = k + 1;
    }
    t
}

/// The characters of `s` without leading and trailing white space.
pub fn trim_chars(s: &str) -> (t: Vec<char>)
    ensures
        t@ == spec_trim(s@),
{
    let v = chars_of(s);
    trim_slice(v.as_slice())
}

/// Appends the decimal rendering of `n` to a character buffer.
pub fn push_decimal_chars(v: &mut Vec<char>, n: u64)
    ensures
        final(v)@ == old(v)@ + spec_decimal(n as nat),
    decreases n,
{
    if n >= 10 {
        push_decimal_chars(v, n / 10);
    }
    v.push(digit_char(n % 10));
}

/// Appends the characters of a string slice to a character buffer.
pub fn push_str_chars(v: &mut Vec<char>, s: &str)
    ensures
        final(v)@ == old(v)@ + s@,
{
    let mut w = chars_of(s);
    v.append(&mut w);
}

/// `c` with an ASCII capital letter replaced by its small letter, as a code point.
pub open spec fn spec_ascii_fold(c: char) -> u32 {
    if 'A' <= c <= 'Z' {
        (c as u32 + 32) as u32
    } else {
        c as u32
    }
}

/// Whether two texts are equal when ASCII letters are compared without regard to
/// case, as `str::eq_ignore_ascii_case` decides (other characters must be equal).
pub open spec fn spec_eq_ignore_ascii_case(a: Seq<char>, b: Seq<char>) -> bool {
    &&& a.len() == b.len()
    &&& forall|i: int| 0 <= i < a.len() ==> spec_ascii_fold(#[trigger] a[i]) == spec_ascii_fold(b[i])
}

fn ascii_fold(c: char) -> (r: u32)
    ensures
        r == spec_ascii_fold(c),
{
    if 'A' <= c && c <= 'Z' {
        c as u32 + 32
    } else {
        c as u32
    }
}

/// Whether two texts are equal up to the case of ASCII letters.
pub fn eq_ignore_ascii_case(a: &str, b: &str) -> (r: bool)
    ensures
        r == spec_eq_ignore_ascii_case(a@, b@),
{
    let x = chars_of(a);
    let y = chars_of(b);
    if x.len() != y.len() {
        return false;
    }
    let n = x.len();
    for i in 0..n
        invariant
            n == x@.len(),
            n == y@.len(),
            x@ == a@,
            y@ == b@,
            forall|k: int| 0 <= k < i ==> spec_ascii_fold(#[trigger] x@[k]) == spec_ascii_fold(y@[k]),
    {
        if ascii_fold(x[i]) != ascii_fold(y[i]) {
            return false;
        }
    }
    true
}

/// Whether `c` is a decimal digit.
pub open spec fn is_digit(c: char) -> bool {
    '0' <= c <= '9'
}

/// The value of a decimal digit.
pub open spec fn spec_digit_value(c: char) -> nat {
    (c as u32 - '0' as u32) as nat
}

/// The number that a sequence of decimal digits denotes.
pub open spec fn spec_digits_value(d: Seq<char>) -> nat
    decreases d.len(),
{
    if d.len() == 0 {
        0
    } else {
        spec_digits_value(d.drop_last()) * 10 + spec_digit_value(d.last())
    }
}

/// The digits that `str::parse::<usize>` reads: all of `s` but one leading `+`.
pub open spec fn spec_unsigned_digits(s: Seq<char>) -> Seq<char> {
    if s.len() > 0 && s[0] == '+' {
        s.drop_first()
    } else {
        s
    }
}

/// What `str::parse::<usize>` gives: the number, where `s` is an optional `+`
/// followed by at least one decimal digit and nothing else, and the number
/// fits in a `usize`; `None` otherwise.
pub open spec fn spec_parse_usize(s: Seq<char>) -> Option<usize> {
    let d = spec_unsigned_digits(s);
    if d.len() > 0 && (forall|i: int| 0 <= i < d.len() ==> is_digit(#[trigger] d[i]))
        && spec_digits_value(d) <= usize::MAX {
        Some(spec_digits_value(d) as usize)
    } else {
        None
    }
}

proof fn lemma_digits_value_prefix(d: Seq<char>, k: int)
    requires
        0 <= k <= d.len(),
    ensures
        spec_digits_value(d.take(k)) <= spec_digits_value(d),
    decreases d.len(),
{
    if k < d.len() {
        assert(d.drop_last().take(k) =~= d.take(k));
        lemma_digits_value_prefix(d.drop_last(), k);
    } else {
        assert(d.take(k) =~= d);
    }
}

/// Parses a decimal `usize` the way `str::parse::<usize>` does.
pub fn parse_usize(s: &[char]) -> (r: Option<usize>)
    ensures
        r == spec_parse_usize(s@),
{
    let n = s.len();
    let start: usize = if n > 0 && s[0] == '+' { 1 } else { 0 };
    let ghost d = spec_unsigned_digits(s@);
    assert(d =~= s@.skip(start as int));
    if start == n {
        return None;
    }
    let mut acc: usize = 0;
    let mut k: usize = start;
    while k < n
        invariant
            start <= k <= n,
            n == s@.len(),
            d == s@.skip(start as int),
            d == spec_unsigned_digits(s@),
            d.len() > 0,
            forall|i: int| 0 <= i < k - start ==> is_digit(#[trigger] d[i]),
            acc == spec_digits_value(d.take(k - start)),
        decreases n - k,
    {
        let c = s[k];
        assert(c == d[k - start]);
        if !('0' <= c && c <= '9') {
            assert(!is_digit(d[k - start]));
            return None;
        }
        let ghost m: int = k - start;
        assert(d.take(m + 1).drop_last() =~= d.take(m));
        assert(d.take(m + 1).last() == c);
        let digit: usize = (c as u32 - '0' as u32) as usize;
        assert(digit == spec_digit_value(c));
        assert(spec_digits_value(d.take(m + 1)) == spec_digits_value(d.take(m)) * 10 + spec_digit_value(c));
        match acc.checked_mul(10) {
            Some(t) => match t.checked_add(digit) {
                Some(u) => {
                    acc = u;
                },
                None => {
                    proof {
                        if forall|i: int| 0 <= i < d.len() ==> is_digit(#[trigger] d[i]) {
                            lemma_digits_value_prefix(d, m + 1);
                        }
                    }
                    return None;
                },
            },
            None => {
                proof {
                    if forall|i: int| 0 <= i < d.len() ==> is_digit(#[trigger] d[i]) {
                        lemma_digits_value_prefix(d, m + 1);
                    }
                }
                return None;
            },
        }
        k = k + 1;
    }
    assert(d.take(n - start) =~= d);
    Some(acc)
}

proof fn lemma_digit_char(d: nat)
    requires
        d < 10,
    ensures
        is_digit(spec_digit_char(d)),
        spec_digit_value(spec_digit_char(d)) == d,
{
}

/// The decimal rendering of a number is made of digits only and reads back as
/// the number.
pub proof fn lemma_decimal_digits(n: nat)
    ensures
        spec_decimal(n).len() > 0,
        forall|i: int| 0 <= i < spec_decimal(n).len() ==> is_digit(#[trigger] spec_decimal(n)[i]),
        spec_digits_value(spec_decimal(n)) == n,
    decreases n,
{
    if n < 10 {
        lemma_digit_char(n);
        assert(spec_decimal(n).drop_last() =~= Seq::<char>::empty());
        assert(spec_digits_value(Seq::<char>::empty()) == 0);
        assert(spec_digits_value(spec_decimal(n)) == spec_digit_value(spec_digit_char(n)));
    } else {
        lemma_decimal_digits(n / 10);
        lemma_digit_char(n % 10);
        assert(spec_decimal(n).drop_last() =~= spec_decimal(n / 10));
        assert(spec_decimal(n).last() == spec_digit_char(n % 10));
        assert(spec_digits_value(spec_decimal(n)) == spec_digits_value(spec_decimal(n / 10)) * 10
            + spec_digit_value(spec_digit_char(n % 10)));
        assert(n == (n / 10) * 10 + n % 10);
    }
}

/// `str::parse::<usize>` reads back the decimal rendering of any `usize`.
pub proof fn lemma_parse_decimal(n: usize)
    ensures
        spec_parse_usize(spec_decimal(n as nat)) == Some(n),
{
    lemma_decimal_digits(n as nat);
    let d = spec_decimal(n as nat);
    assert(is_digit(d[0]));
    assert(spec_unsigned_digits(d) == d);
}

/// A decimal rendering has no white space to trim.
pub proof fn lemma_trim_decimal(n: nat)
    ensures
        spec_trim(spec_decimal(n)) == spec_decimal(n),
{
    lemma_decimal_digits(n);
    let d = spec_decimal(n);
    assert(is_digit(d[0]));
    assert(is_digit(d.last()));
}

/// Strict lexicographic order of texts by code point, which is the order of
/// `String` (its bytes compared in UTF-8 order the same way).
pub open spec fn lex_lt(a: Seq<char>, b: Seq<char>) -> bool
    decreases a.len(),
{
    if a.len() == 0 {
        b.len() > 0
    } else if b.len() == 0 {
        false
    } else if a[0] != b[0] {
        a[0] < b[0]
    } else {
        lex_lt(a.drop_first(), b.drop_first())
    }
}

/// No text comes before itself.
pub proof fn lemma_lex_irreflexive(a: Seq<char>)
    ensures
        !lex_lt(a, a),
    decreases a.len(),
{
    if a.len() > 0 {
        lemma_lex_irreflexive(a.drop_first());
    }
}

/// The order is transitive.
pub proof fn lemma_lex_transitive(a: Seq<char>, b: Seq<char>, c: Seq<char>)
    requires
        lex_lt(a, b),
        lex_lt(b, c),
    ensures
        lex_lt(a, c),
    decreases a.len(),
{
    if a.len() > 0 && b.len() > 0 && c.len() > 0 && a[0] == b[0] && b[0] == c[0] {
        lemma_lex_transitive(a.drop_first(), b.drop_first(), c.drop_first());
    }
}

/// Of two different texts one comes before the other, and not both.
pub proof fn lemma_lex_total(a: Seq<char>, b: Seq<char>)
    ensures
        a != b ==> (lex_lt(a, b) || lex_lt(b, a)),
        !(lex_lt(a, b) && lex_lt(b, a)),
    decreases a.len(),
{
    if a.len() > 0 && b.len() > 0 && a[0] == b[0] {
        lemma_lex_total(a.drop_first(), b.drop_first());
        if a.drop_first() == b.drop_first() {
            assert(a =~= seq![a[0]] + a.drop_first());
            assert(b =~= seq![b[0]] + b.drop_first());
        }
    }
    if a.len() == 0 && b.len() == 0 {
        assert(a =~= b);
    }
}

/// Whether `a` comes strictly before `b`.
pub fn lex_less(a: &[char], b: &[char]) -> (r: bool)
    ensures
        r == lex_lt(a@, b@),
{
    let mut i: usize = 0;
    assert(a@.skip(0) =~= a@);
    assert(b@.skip(0) =~= b@);
    while i < a.len() && i < b.len() && a[i] == b[i]
        invariant
            i <= a@.len(),
            i <= b@.len(),
            lex_lt(a@, b@) == lex_lt(a@.skip(i as int), b@.skip(i as int)),
        decreases a@.len() - i,
    {
        assert(a@.skip(i as int).drop_first() =~= a@.skip(i + 1));
        assert(b@.skip(i as int).drop_first() =~= b@.skip(i + 1));
        i = i + 1;
    }
    if i == a.len() {
        i < b.len()
    } else if i == b.len() {
        false
    } else {
        a[i] < b[i]
    }
}


/// The pieces of `s` between the occurrences of `sep`, as `str::split` gives
/// them: empty pieces included, and one empty piece for an empty text.
pub open spec fn spec_split(s: Seq<char>, sep: char) -> Seq<Seq<char>>
    decreases s.len(),
{
    if s.len() == 0 {
        seq![Seq::<char>::empty()]
    } else {
        let r = spec_split(s.drop_last(), sep);
        if s.last() == sep {
            r.push(Seq::<char>::empty())
        } else {
            r.update(r.len() - 1, r.last().push(s.last()))
        }
    }
}

/// Splitting gives at least one piece.
pub proof fn lemma_split_len(s: Seq<char>, sep: char)
    ensures
        spec_split(s, sep).len() >= 1,
    decreases s.len(),
{
    if s.len() > 0 {
        lemma_split_len(s.drop_last(), sep);
    }
}

/// The pieces joined back together with `sep` between each two.
pub open spec fn spec_join(pieces: Seq<Seq<char>>, sep: char) -> Seq<char>
    decreases pieces.len(),
{
    if pieces.len() <= 1 {
        if pieces.len() == 1 { pieces[0] } else { Seq::empty() }
    } else {
        spec_join(pieces.drop_last(), sep) + seq![sep] + pieces.last()
    }
}

/// Splitting cuts exactly at the separators: no piece holds the separator,
/// and joining the pieces with it gives the text back.
pub proof fn lemma_split_join(s: Seq<char>, sep: char)
    ensures
        spec_split(s, sep).len() >= 1,
        spec_join(spec_split(s, sep), sep) == s,
        forall|j: int| 0 <= j < spec_split(s, sep).len() ==> !(#[trigger] spec_split(s, sep)[j]).contains(sep),
    decreases s.len(),
{
    if s.len() == 0 {
        assert(!Seq::<char>::empty().contains(sep));
    } else {
        let p = s.drop_last();
        let r = spec_split(p, sep);
        lemma_split_join(p, sep);
        let c = s.last();
        assert(p.push(c) =~= s);
        if c == sep {
            let r2 = r.push(Seq::<char>::empty());
            assert(r2.drop_last() =~= r);
            assert(spec_join(r2, sep) =~= spec_join(r, sep) + seq![sep]);
            assert forall|j: int| 0 <= j < r2.len() implies !(#[trigger] r2[j]).contains(sep) by {
                if j < r.len() {
                    assert(r2[j] == r[j]);
                } else {
                    assert(!Seq::<char>::empty().contains(sep));
                }
            }
        } else {
            let n = r.len() - 1;
            let r2 = r.update(n, r.last().push(c));
            if r.len() > 1 {
                assert(r2.drop_last() =~= r.drop_last());
                assert(spec_join(r2, sep) =~= spec_join(r, sep).push(c));
            } else {
                assert(spec_join(r2, sep) =~= spec_join(r, sep).push(c));
            }
            assert forall|j: int| 0 <= j < r2.len() implies !(#[trigger] r2[j]).contains(sep) by {
                if j < n {
                    assert(r2[j] == r[j]);
                } else {
                    assert(!r[n].contains(sep));
                    if r2[j].contains(sep) {
                        let k = choose|k: int| 0 <= k < r2[j].len() && r2[j][k] == sep;
                        assert(k < r[n].len());
                        assert(r[n][k] == sep);
                    }
                }
            }
        }
    }
}

/// The views of a sequence of character buffers.
pub open spec fn views(v: Seq<Vec<char>>) -> Seq<Seq<char>> {
    v.map_values(|w: Vec<char>| w@)
}

/// The views of a sequence of strings.
pub open spec fn string_views(v: Seq<String>) -> Seq<Seq<char>> {
    v.map_values(|w: String| w@)
}

/// Pushing a string pushes its view.
pub proof fn lemma_string_views_push(v: Seq<String>, s: String)
    ensures
        string_views(v.push(s)) == string_views(v).push(s@),
{
    assert(string_views(v.push(s)) =~= string_views(v).push(s@));
}

/// Splits `s` at every `sep`.
pub fn split_chars(s: &str, sep: char) -> (pieces: Vec<Vec<char>>)
    ensures
        views(pieces@) == spec_split(s@, sep),
{
    let v = chars_of(s);
    let n = v.len();
    let mut done: Vec<Vec<char>> = Vec::new();
    let mut cur: Vec<char> = Vec::new();
    assert(v@.take(0) =~= Seq::<char>::empty());
    assert(views(done@).push(cur@) =~= spec_split(v@.take(0), sep));
    for i in 0..n
        invariant
            n == v@.len(),
            views(done@).push(cur@) == spec_split(v@.take(i as int), sep),
    {
        let c = v[i];
        let ghost prev = v@.take(i as int);
        assert(v@.take(i + 1).drop_last() =~= prev);
        assert(v@.take(i + 1).last() == c);
        proof {
            lemma_split_len(prev, sep);
        }
        if c == sep {
            let finished = cur;
            done.push(finished);
            cur = Vec::new();
            assert(views(done@).push(cur@) =~= spec_split(prev, sep).push(Seq::<char>::empty()));
        } else {
            cur.push(c);
            let ghost r = spec_split(prev, sep);
            assert(views(done@).push(cur@) =~= r.update(r.len() - 1, r.last().push(c)));
        }
    }
    assert(v@.take(n as int) =~= v@);
    done.push(cur);
    assert(views(done@) =~= spec_split(s@, sep));
    done
}

/// Every element comes strictly before every later one.
pub open spec fn strictly_sorted(s: Seq<Seq<char>>) -> bool {
    forall|i: int, j: int| 0 <= i < j < s.len() ==> lex_lt(#[trigger] s[i], #[trigger] s[j])
}

/// Inserts `x` into a strictly sorted list, unless it is there already.
pub fn insert_sorted_unique(v: &mut Vec<Vec<char>>, x: Vec<char>)
    requires
        strictly_sorted(views(old(v)@)),
    ensures
        strictly_sorted(views(final(v)@)),
        forall|t: Seq<char>| views(final(v)@).contains(t) <==> (views(old(v)@).contains(t) || t == x@),
{
    let n = v.len();
    let mut p: usize = 0;
    while p < n && lex_less(v[p].as_slice(), x.as_slice())
        invariant
            p <= n,
            n == v@.len(),
            forall|i: int| 0 <= i < p ==> lex_lt(#[trigger] views(v@)[i], x@),
        decreases n - p,
    {
        p = p + 1;
    }
    let ghost old_views = views(v@);
    if p < n && !lex_less(x.as_slice(), v[p].as_slice()) {
        proof {
            lemma_lex_total(old_views[p as int], x@);
            assert(old_views[p as int] == x@);
        }
        return;
    }
    proof {
        if p < n {
            lemma_lex_total(old_views[p as int], x@);
        }
    }
    assert(p < n ==> lex_lt(x@, old_views[p as int]));
    assert forall|k: int| p <= k < n implies lex_lt(x@, #[trigger] old_views[k]) by {
        if k > p {
            lemma_lex_transitive(x@, old_views[p as int], old_views[k]);
        }
    }
    v.insert(p, x);
    let ghost new_views = views(v@);
    assert(new_views =~= old_views.insert(p as int, x@));
    assert forall|i: int, j: int| 0 <= i < j < new_views.len() implies lex_lt(#[trigger] new_views[i], #[trigger] new_views[j]) by {
        if i < p && j > p {
            assert(lex_lt(x@, old_views[j - 1]));
            lemma_lex_transitive(old_views[i], x@, old_views[j - 1]);
        } else if i == p {
            assert(lex_lt(x@, old_views[j - 1]));
        }
    }
    assert forall|t: Seq<char>| new_views.contains(t) <==> (old_views.contains(t) || t == x@) by {
        if new_views.contains(t) {
            let k = choose|k: int| 0 <= k < new_views.len() && new_views[k] == t;
            if k < p {
                assert(old_views[k] == t);
            } else if k > p {
                assert(old_views[k - 1] == t);
            }
        }
        if old_views.contains(t) {
            let k = choose|k: int| 0 <= k < old_views.len() && old_views[k] == t;
            if k < p {
                assert(new_views[k] == t);
            } else {
                assert(new_views[k + 1] == t);
            }
        }
        if t == x@ {
            assert(new_views[p as int] == t);
        }
    }
}

} // verus!
