//! Text rules shared by the panel: trimming, line splitting, decimal numbers.

use vstd::arithmetic::div_mod::lemma_div_denominator;
use vstd::arithmetic::power::{lemma_pow0, lemma_pow1, lemma_pow_positive, pow};
use vstd::prelude::*;

verus! {

/// The characters with the Unicode property `White_Space`.
pub open spec fn is_white_space(c: char) -> bool {
    ||| '\u{9}' <= c && c <= '\u{d}'
    ||| c == ' '
    ||| c == '\u{85}'
    ||| c == '\u{a0}'
    ||| c == '\u{1680}'
    ||| '\u{2000}' <= c && c <= '\u{200a}'
    ||| c == '\u{2028}'
    ||| c == '\u{2029}'
    ||| c == '\u{202f}'
    ||| c == '\u{205f}'
    ||| c == '\u{3000}'
}

/// White space by its code points.
pub proof fn white_space_by_code_point(c: char)
    ensures
        is_white_space(c) <==> {
            let n = c as u32;
            ||| 9 <= n <= 13
            ||| n == 32
            ||| n == 133
            ||| n == 160
            ||| n == 5760
            ||| 8192 <= n <= 8202
            ||| n == 8232
            ||| n == 8233
            ||| n == 8239
            ||| n == 8287
            ||| n == 12288
        },
{
}

/// `s` without its longest prefix of characters that satisfy `p`.
pub open spec fn drop_leading(s: Seq<char>, p: spec_fn(char) -> bool) -> Seq<char>
    decreases s.len(),
{
    if s.len() > 0 && p(s[0]) {
        drop_leading(s.drop_first(), p)
    } else {
        s
    }
}

/// `s` without its longest suffix of characters that satisfy `p`.
pub open spec fn drop_trailing(s: Seq<char>, p: spec_fn(char) -> bool) -> Seq<char>
    decreases s.len(),
{
    if s.len() > 0 && p(s.last()) {
        drop_trailing(s.drop_last(), p)
    } else {
        s
    }
}

/// `s` without white space at either end.
pub open spec fn trimmed(s: Seq<char>) -> Seq<char> {
    drop_trailing(drop_leading(s, |c: char| is_white_space(c)), |c: char| is_white_space(c))
}

/// `s` without the slashes at its end.
pub open spec fn without_trailing_slashes(s: Seq<char>) -> Seq<char> {
    drop_trailing(s, |c: char| c == '/')
}

/// The number of characters before the first line feed.
pub open spec fn line_end(s: Seq<char>) -> nat
    decreases s.len(),
{
    if s.len() == 0 || s[0] == '\n' {
        0
    } else {
        1 + line_end(s.drop_first())
    }
}

/// The first line of `s`: what stands before the first line feed, less a
/// carriage return directly in front of that line feed. Without a line feed it
/// is the whole text, which then keeps a carriage return at its end.
pub open spec fn first_line(s: Seq<char>) -> Seq<char> {
    let n = line_end(s) as int;
    if 0 < n && n < s.len() && s[n - 1] == '\r' {
        s.take(n - 1)
    } else {
        s.take(n)
    }
}

/// The character of the decimal digit `d`.
pub open spec fn digit_char(d: nat) -> char {
    ('0' as nat + d) as char
}

/// `n` in decimal, without leading zeros.
pub open spec fn decimal(n: nat) -> Seq<char>
    decreases n,
{
    if n < 10 {
        seq![digit_char(n)]
    } else {
        decimal(n / 10).push(digit_char(n % 10))
    }
}

pub open spec fn is_digit(c: char) -> bool {
    '0' <= c && c <= '9'
}

/// The number that a sequence of decimal digits denotes.
pub open spec fn digits_value(s: Seq<char>) -> nat
    decreases s.len(),
{
    if s.len() == 0 {
        0
    } else {
        (digits_value(s.drop_last()) * 10 + (s.last() as int - '0' as int)) as nat
    }
}

pub open spec fn all_digits(s: Seq<char>) -> bool {
    forall|i: int| 0 <= i < s.len() ==> is_digit(#[trigger] s[i])
}

/// `s` without a plus sign at its start.
pub open spec fn without_plus(s: Seq<char>) -> Seq<char> {
    if s.len() > 0 && s[0] == '+' {
        s.drop_first()
    } else {
        s
    }
}

/// The number that `s` denotes: an optional `+`, then one digit or more and
/// nothing else.
pub open spec fn parse_decimal(s: Seq<char>) -> Option<nat> {
    let digits = without_plus(s);
    if digits.len() > 0 && all_digits(digits) {
        Some(digits_value(digits))
    } else {
        None
    }
}

/// A numeral of decimal digits, with a plus sign or without one, denotes a number;
/// nothing else does.
pub proof fn numerals_denote_numbers(s: Seq<char>)
    ensures
        parse_decimal(s) == if s.len() > 0 && forall|i: int|
            0 <= i < s.len() ==> '0' <= #[trigger] s[i] && s[i] <= '9' {
            Some(digits_value(s))
        } else if s.len() > 1 && s[0] == '+' && forall|i: int|
            1 <= i < s.len() ==> '0' <= #[trigger] s[i] && s[i] <= '9' {
            Some(digits_value(s.skip(1)))
        } else {
            None
        },
{
    assert(s.len() > 0 ==> s.drop_first() == s.skip(1));
    if s.len() > 0 && s[0] == '+' {
        assert(!('0' <= s[0]));
        if all_digits(s.skip(1)) {
            assert forall|i: int| 1 <= i < s.len() implies '0' <= #[trigger] s[i] && s[i] <= '9' by {
                assert(is_digit(s.skip(1)[i - 1]));
            }
        }
    }
}

/// The digits of a numeral, counted from the right, are those of the number that it
/// denotes.
pub proof fn numeral_by_places(s: Seq<char>, i: nat)
    requires
        forall|k: int| 0 <= k < s.len() ==> '0' <= #[trigger] s[k] && s[k] <= '9',
        i < s.len(),
    ensures
        digits_value(s) < pow(10, s.len()),
        (digits_value(s) as int / pow(10, i)) % 10 == s[s.len() - 1 - i] as int - '0' as int,
    decreases s.len(),
{
    let (t, d) = (s.drop_last(), s.last() as int - '0' as int);
    let v = digits_value(t) as int;
    assert('0' <= s[s.len() - 1] && s[s.len() - 1] <= '9');
    assert(digits_value(s) == v * 10 + d);
    reveal(pow);
    if t.len() > 0 {
        numeral_by_places(t, if i > 0 {
            (i - 1) as nat
        } else {
            0
        });
    } else {
        lemma_pow0(10);
        assert(v == 0);
    }
    assert(pow(10, s.len()) == 10 * pow(10, t.len()));
    if i == 0 {
        lemma_pow0(10);
    } else {
        let j = (i - 1) as nat;
        lemma_pow_positive(10, j);
        assert(pow(10, i) == 10 * pow(10, j));
        lemma_div_denominator(v * 10 + d, 10, pow(10, j));
        assert((v * 10 + d) / 10 == v);
        assert(t[t.len() - 1 - j] == s[s.len() - 1 - i]);
    }
}

/// A number written in decimal has the digits of the number, counted from the
/// right, and no more of them than it needs.
pub proof fn decimal_by_places(n: nat, i: nat)
    requires
        i < decimal(n).len(),
    ensures
        decimal(n)[decimal(n).len() - 1 - i] as int - '0' as int == (n as int / pow(10, i)) % 10,
        n < pow(10, decimal(n).len()),
        n == 0 ==> decimal(n).len() == 1,
        n > 0 ==> pow(10, (decimal(n).len() - 1) as nat) <= n,
    decreases n,
{
    reveal(pow);
    lemma_pow0(10);
    lemma_pow1(10);
    if n >= 10 {
        let s = decimal(n / 10);
        let j = if i > 0 {
            (i - 1) as nat
        } else {
            0
        };
        decimal_denotes(n / 10);
        decimal_by_places(n / 10, j);
        assert(pow(10, decimal(n).len()) == 10 * pow(10, s.len()));
        assert(pow(10, s.len()) == 10 * pow(10, (s.len() - 1) as nat));
        if i > 0 {
            lemma_pow_positive(10, j);
            assert(pow(10, i) == 10 * pow(10, j));
            lemma_div_denominator(n as int, 10, pow(10, j));
            assert(s[s.len() - 1 - j] == decimal(n)[decimal(n).len() - 1 - i]);
        }
    }
}

/// A number written in decimal consists of digits and denotes that number.
pub proof fn decimal_denotes(n: nat)
    ensures
        decimal(n).len() > 0,
        all_digits(decimal(n)),
        digits_value(decimal(n)) == n,
    decreases n,
{
    if n < 10 {
        reveal_with_fuel(digits_value, 2);
        assert(decimal(n).drop_last() == Seq::<char>::empty());
    } else {
        let s = decimal(n / 10);
        decimal_denotes(n / 10);
        assert(decimal(n).drop_last() == s);
        assert forall|i: int| 0 <= i < decimal(n).len() implies is_digit(#[trigger] decimal(n)[i]) by {
            if i < s.len() {
                assert(is_digit(s[i]));
            }
        }
    }
}

/// A number written in decimal is read back, and there is nothing to trim off it.
pub proof fn decimal_reads_back(n: nat)
    ensures
        parse_decimal(decimal(n)) == Some(n),
        trimmed(decimal(n)) == decimal(n),
{
    decimal_denotes(n);
    let s = decimal(n);
    assert(is_digit(s[0]));
    assert(is_digit(s[s.len() - 1]));
}

/// What is dropped anyway makes no difference at the start.
pub proof fn drop_leading_ignores_prefix(
    prefix: Seq<char>,
    s: Seq<char>,
    p: spec_fn(char) -> bool,
)
    requires
        forall|i: int| 0 <= i < prefix.len() ==> p(#[trigger] prefix[i]),
    ensures
        drop_leading(prefix + s, p) == drop_leading(s, p),
    decreases prefix.len(),
{
    if prefix.len() > 0 {
        assert((prefix + s)[0] == prefix[0]);
        assert((prefix + s).drop_first() == prefix.drop_first() + s);
        drop_leading_ignores_prefix(prefix.drop_first(), s, p);
    } else {
        assert(prefix + s == s);
    }
}

/// What is dropped anyway makes no difference at the end.
pub proof fn drop_trailing_ignores_suffix(
    s: Seq<char>,
    suffix: Seq<char>,
    p: spec_fn(char) -> bool,
)
    requires
        forall|i: int| 0 <= i < suffix.len() ==> p(#[trigger] suffix[i]),
    ensures
        drop_trailing(s + suffix, p) == drop_trailing(s, p),
    decreases suffix.len(),
{
    if suffix.len() > 0 {
        assert((s + suffix).last() == suffix[suffix.len() - 1]);
        assert((s + suffix).drop_last() == s + suffix.drop_last());
        drop_trailing_ignores_suffix(s, suffix.drop_last(), p);
    } else {
        assert(s + suffix == s);
    }
}

/// What is dropped at the start are the characters up to the first that is kept.
pub proof fn drop_leading_splits(s: Seq<char>, p: spec_fn(char) -> bool) -> (dropped: Seq<char>)
    ensures
        s == dropped + drop_leading(s, p),
        forall|i: int| 0 <= i < dropped.len() ==> p(#[trigger] dropped[i]),
        drop_leading(s, p).len() > 0 ==> !p(drop_leading(s, p)[0]),
    decreases s.len(),
{
    if s.len() > 0 && p(s[0]) {
        let rest = drop_leading_splits(s.drop_first(), p);
        let dropped = seq![s[0]] + rest;
        assert(s == dropped + drop_leading(s, p)) by {
            assert(s == seq![s[0]] + s.drop_first());
        }
        dropped
    } else {
        Seq::empty()
    }
}

/// What is dropped at the end are the characters behind the last that is kept.
pub proof fn drop_trailing_splits(s: Seq<char>, p: spec_fn(char) -> bool) -> (dropped: Seq<char>)
    ensures
        s == drop_trailing(s, p) + dropped,
        forall|i: int| 0 <= i < dropped.len() ==> p(#[trigger] dropped[i]),
        drop_trailing(s, p).len() > 0 ==> !p(drop_trailing(s, p).last()),
    decreases s.len(),
{
    if s.len() > 0 && p(s.last()) {
        let rest = drop_trailing_splits(s.drop_last(), p);
        let dropped = rest.push(s.last());
        assert(s == drop_trailing(s, p) + dropped) by {
            assert(s == s.drop_last().push(s.last()));
        }
        dropped
    } else {
        Seq::empty()
    }
}

/// A trimmed text is what stands between the white space at either end: it neither
/// begins nor ends with any.
pub proof fn trimmed_stands_between(s: Seq<char>) -> (r: (Seq<char>, Seq<char>))
    ensures
        s == r.0 + trimmed(s) + r.1,
        forall|i: int| 0 <= i < r.0.len() ==> is_white_space(#[trigger] r.0[i]),
        forall|i: int| 0 <= i < r.1.len() ==> is_white_space(#[trigger] r.1[i]),
        trimmed(s).len() > 0 ==> !is_white_space(trimmed(s)[0]) && !is_white_space(
            trimmed(s).last(),
        ),
{
    let white = |c: char| is_white_space(c);
    let before = drop_leading_splits(s, white);
    let kept = drop_leading(s, white);
    let after = drop_trailing_splits(kept, white);
    assert forall|i: int| 0 <= i < before.len() implies is_white_space(#[trigger] before[i]) by {
        assert(white(before[i]));
    }
    assert forall|i: int| 0 <= i < after.len() implies is_white_space(#[trigger] after[i]) by {
        assert(white(after[i]));
    }
    assert(trimmed(s) == drop_trailing(kept, white));
    assert(s == before + trimmed(s) + after);
    if trimmed(s).len() > 0 {
        assert(kept[0] == trimmed(s)[0]);
    }
    (before, after)
}

/// Nothing is left of a text exactly when it is white space throughout.
pub proof fn blank_is_white_throughout(s: Seq<char>)
    ensures
        trimmed(s).len() == 0 <==> forall|i: int|
            0 <= i < s.len() ==> is_white_space(#[trigger] s[i]),
{
    let (before, after) = trimmed_stands_between(s);
    if trimmed(s).len() == 0 {
        assert(s == before + after);
    } else {
        assert(s[before.len() as int] == trimmed(s)[0]);
    }
}

/// Without the slashes at its end a text ends in none, and nothing but slashes is
/// gone.
pub proof fn trailing_slashes_split(s: Seq<char>) -> (slashes: Seq<char>)
    ensures
        s == without_trailing_slashes(s) + slashes,
        forall|i: int| 0 <= i < slashes.len() ==> #[trigger] slashes[i] == '/',
        without_trailing_slashes(s).len() > 0 ==> without_trailing_slashes(s).last() != '/',
{
    let slash = |c: char| c == '/';
    let slashes = drop_trailing_splits(s, slash);
    assert forall|i: int| 0 <= i < slashes.len() implies #[trigger] slashes[i] == '/' by {
        assert(slash(slashes[i]));
    }
    slashes
}

proof fn lemma_line_end(s: Seq<char>)
    ensures
        line_end(s) <= s.len(),
        line_end(s) < s.len() ==> s[line_end(s) as int] == '\n',
        forall|i: int| 0 <= i < line_end(s) ==> #[trigger] s[i] != '\n',
    decreases s.len(),
{
    if s.len() > 0 && s[0] != '\n' {
        let t = s.drop_first();
        lemma_line_end(t);
        assert forall|i: int| 0 <= i < line_end(s) implies #[trigger] s[i] != '\n' by {
            if i > 0 {
                assert(t[i - 1] == s[i]);
            }
        }
    }
}

/// The first line of a text is its beginning up to the first line feed, or up to the
/// carriage return in front of that; it is all of a text without a line feed.
pub proof fn first_line_ends_at_line_feed(s: Seq<char>)
    ensures
        ({
            let line = first_line(s);
            let rest = s.skip(line.len() as int);
            &&& s == line + rest
            &&& forall|i: int| 0 <= i < line.len() ==> #[trigger] line[i] != '\n'
            &&& {
                ||| rest.len() == 0
                ||| rest[0] == '\n' && (line.len() > 0 ==> line.last() != '\r')
                ||| rest.len() > 1 && rest[0] == '\r' && rest[1] == '\n'
            }
        }),
{
    lemma_line_end(s);
    let n = line_end(s) as int;
    let line = first_line(s);
    assert(s == line + s.skip(line.len() as int));
}

/// A beginning without a line feed that ends in front of one, or at the end of the
/// text, is the first line.
pub proof fn first_line_of_parts(line: Seq<char>, rest: Seq<char>)
    requires
        forall|i: int| 0 <= i < line.len() ==> #[trigger] line[i] != '\n',
        rest.len() == 0 || (rest[0] == '\n' && (line.len() > 0 ==> line.last() != '\r')) || (
        rest.len() > 1 && rest[0] == '\r' && rest[1] == '\n'),
    ensures
        first_line(line + rest) == line,
{
    let s = line + rest;
    lemma_line_end(s);
    let (n, k) = (line_end(s) as int, line.len() as int);
    assert(s.take(k) == line);
    assert(n >= k) by {
        if n < k {
            assert(line[n] == s[n]);
        }
    }
    if rest.len() > 0 && rest[0] == '\n' {
        assert(s[k] == '\n');
        assert(n == k);
    } else if rest.len() > 0 {
        assert(s[k] == '\r' && s[k + 1] == '\n');
        assert(n == k + 1);
    }
}

proof fn lemma_trim_suffix(s: Seq<char>, suffix: Seq<char>, p: spec_fn(char) -> bool)
    requires
        forall|i: int| 0 <= i < suffix.len() ==> p(#[trigger] suffix[i]),
    ensures
        drop_trailing(drop_leading(s + suffix, p), p) == drop_trailing(drop_leading(s, p), p),
    decreases s.len(),
{
    if s.len() == 0 {
        assert(s + suffix == suffix + s);
        drop_leading_ignores_prefix(suffix, s, p);
    } else if p(s[0]) {
        assert((s + suffix).drop_first() == s.drop_first() + suffix);
        lemma_trim_suffix(s.drop_first(), suffix, p);
    } else {
        drop_trailing_ignores_suffix(s, suffix, p);
    }
}

/// White space put around a text is trimmed again.
pub proof fn trimmed_ignores_padding(before: Seq<char>, s: Seq<char>, after: Seq<char>)
    requires
        forall|i: int| 0 <= i < before.len() ==> is_white_space(#[trigger] before[i]),
        forall|i: int| 0 <= i < after.len() ==> is_white_space(#[trigger] after[i]),
    ensures
        trimmed(before + s + after) == trimmed(s),
{
    let white = |c: char| is_white_space(c);
    assert(before + s + after == before + (s + after));
    drop_leading_ignores_prefix(before, s + after, white);
    lemma_trim_suffix(s, after, white);
}

/// Slashes put at the end of a text are dropped again.
pub proof fn slashes_ignored(s: Seq<char>, slashes: Seq<char>)
    requires
        forall|i: int| 0 <= i < slashes.len() ==> #[trigger] slashes[i] == '/',
    ensures
        without_trailing_slashes(s + slashes) == without_trailing_slashes(s),
{
    drop_trailing_ignores_suffix(s, slashes, |c: char| c == '/');
}

/// Whether two texts are the same.
pub fn same(a: &str, b: &str) -> (r: bool)
    ensures
        r == (a@ == b@),
{
    a.to_owned() == b.to_owned()
}

/// The characters of a text.
pub(crate) fn chars_of(s: &str) -> (r: Vec<char>)
    ensures
        r@ == s@,
{
    let mut r: Vec<char> = Vec::new();
    for c in it: s.chars()
        invariant
            it.seq() == s@,
            r@ == s@.take(it.index() as int),
    {
        r.push(c);
    }
    assert(s@.take(s@.len() as int) == s@);
    r
}

/// Whether a text begins with another.
pub fn starts_with(s: &str, prefix: &str) -> (r: bool)
    ensures
        r == prefix@.is_prefix_of(s@),
{
    let chars = chars_of(s);
    let wanted = chars_of(prefix);
    let n: usize = wanted.len();
    if n > chars.len() {
        return false;
    }
    let mut i: usize = 0;
    while i < n
        invariant
            i <= n,
            n == prefix@.len(),
            n <= s@.len(),
            chars@ == s@,
            wanted@ == prefix@,
            forall|k: int| 0 <= k < i ==> s@[k] == prefix@[k],
        decreases n - i,
    {
        if chars[i] != wanted[i] {
            assert(s@.subrange(0, n as int)[i as int] != prefix@[i as int]);
            return false;
        }
        i = i + 1;
    }
    true
}

/// Whether `c` is white space.
pub fn white_space(c: char) -> (r: bool)
    ensures
        r == is_white_space(c),
        r == ({
            let n = c as u32;
            ||| 9 <= n <= 13
            ||| n == 32 || n == 133 || n == 160 || n == 5760
            ||| 8192 <= n <= 8202
            ||| n == 8232 || n == 8233 || n == 8239 || n == 8287 || n == 12288
        }),
{
    ('\u{9}' <= c && c <= '\u{d}') || c == ' ' || c == '\u{85}' || c == '\u{a0}' || c == '\u{1680}'
        || ('\u{2000}' <= c && c <= '\u{200a}') || c == '\u{2028}' || c == '\u{2029}' || c
        == '\u{202f}' || c == '\u{205f}' || c == '\u{3000}'
}

/// The text without white space at either end.
pub fn trim(s: &str) -> (r: &str)
    ensures
        r@ == trimmed(s@),
{
    let chars = chars_of(s);
    let n: usize = chars.len();
    let ghost white = |c: char| is_white_space(c);
    let mut i: usize = 0;
    proof {
        assert(s@.skip(0) == s@);
    }
    while i < n && white_space(chars[i])
        invariant
            i <= n,
            n == s@.len(),
            chars@ == s@,
            white == (|c: char| is_white_space(c)),
            drop_leading(s@, white) == drop_leading(s@.skip(i as int), white),
        decreases n - i,
    {
        proof {
            assert(s@.skip(i as int).drop_first() == s@.skip(i + 1));
        }
        i = i + 1;
    }
    let mut j: usize = n;
    proof {
        assert(s@.subrange(i as int, n as int) == s@.skip(i as int));
    }
    while j > i && white_space(chars[j - 1])
        invariant
            i <= j <= n,
            n == s@.len(),
            chars@ == s@,
            white == (|c: char| is_white_space(c)),
            trimmed(s@) == drop_trailing(s@.subrange(i as int, j as int), white),
        decreases j,
    {
        proof {
            assert(s@.subrange(i as int, j as int).drop_last() == s@.subrange(i as int, j - 1));
        }
        j = j - 1;
    }
    s.substring_char(i, j)
}

/// The text without the slashes at its end.
pub fn trim_slashes(s: &str) -> (r: &str)
    ensures
        r@ == without_trailing_slashes(s@),
{
    let chars = chars_of(s);
    let ghost slash = |c: char| c == '/';
    let mut n: usize = chars.len();
    proof {
        assert(s@.take(n as int) == s@);
    }
    while n > 0 && chars[n - 1] == '/'
        invariant
            n <= s@.len(),
            chars@ == s@,
            slash == (|c: char| c == '/'),
            without_trailing_slashes(s@) == drop_trailing(s@.take(n as int), slash),
        decreases n,
    {
        proof {
            assert(s@.take(n as int).drop_last() == s@.take(n - 1));
        }
        n = n - 1;
    }
    proof {
        assert(s@.subrange(0, n as int) == s@.take(n as int));
    }
    s.substring_char(0, n)
}

/// The first line of a text, `None` where there is no text at all.
pub fn leading_line(s: &str) -> (r: Option<&str>)
    ensures
        r is None <==> s@.len() == 0,
        r matches Some(line) ==> line@ == first_line(s@),
{
    let chars = chars_of(s);
    let n: usize = chars.len();
    if n == 0 {
        return None;
    }
    let mut i: usize = 0;
    proof {
        assert(s@.skip(0) == s@);
    }
    while i < n && chars[i] != '\n'
        invariant
            i <= n,
            n == s@.len(),
            chars@ == s@,
            line_end(s@) == i + line_end(s@.skip(i as int)),
        decreases n - i,
    {
        proof {
            assert(s@.skip(i as int).drop_first() == s@.skip(i + 1));
        }
        i = i + 1;
    }
    if 0 < i && i < n && chars[i - 1] == '\r' {
        i = i - 1;
    }
    proof {
        assert(s@.subrange(0, i as int) == s@.take(i as int));
    }
    Some(s.substring_char(0, i))
}

fn digit_text(d: u64) -> (r: &'static str)
    requires
        d < 10,
    ensures
        r@ == seq![digit_char(d as nat)],
{
    proof {
        reveal_strlit("0");
        reveal_strlit("1");
        reveal_strlit("2");
        reveal_strlit("3");
        reveal_strlit("4");
        reveal_strlit("5");
        reveal_strlit("6");
        reveal_strlit("7");
        reveal_strlit("8");
        reveal_strlit("9");
    }
    if d == 0 {
        "0"
    } else if d == 1 {
        "1"
    } else if d == 2 {
        "2"
    } else if d == 3 {
        "3"
    } else if d == 4 {
        "4"
    } else if d == 5 {
        "5"
    } else if d == 6 {
        "6"
    } else if d == 7 {
        "7"
    } else if d == 8 {
        "8"
    } else {
        "9"
    }
}

/// The number in decimal, without leading zeros.
pub fn number(n: u64) -> (r: String)
    ensures
        r@ == decimal(n as nat),
    decreases n,
{
    if n < 10 {
        digit_text(n).to_owned()
    } else {
        let mut r = number(n / 10);
        r.append(digit_text(n % 10));
        r
    }
}

/// Cutting digits off the end of a numeral never makes its value larger.
proof fn lemma_prefix_value(s: Seq<char>, n: int)
    requires
        0 <= n <= s.len(),
        all_digits(s),
    ensures
        digits_value(s.take(n)) <= digits_value(s),
    decreases s.len(),
{
    if n < s.len() {
        lemma_prefix_value(s.drop_last(), n);
        assert(s.drop_last().take(n) == s.take(n));
    } else {
        assert(s.take(n) == s);
    }
}

/// The number that a text denotes, `None` where it denotes none or one that
/// does not fit.
pub fn parse_u64(s: &str) -> (r: Option<u64>)
    ensures
        match r {
            Some(v) => parse_decimal(s@) == Some(v as nat),
            None => parse_decimal(s@) matches Some(n) ==> n > u64::MAX,
        },
{
    let chars = chars_of(s);
    let n: usize = chars.len();
    let start: usize = if n > 0 && chars[0] == '+' {
        1
    } else {
        0
    };
    let ghost digits = without_plus(s@);
    if start == n {
        return None;
    }
    let mut v: u64 = 0;
    let mut i: usize = start;
    while i < n
        invariant
            start <= i <= n,
            start <= 1,
            n == s@.len(),
            chars@ == s@,
            digits == s@.skip(start as int),
            digits == without_plus(s@),
            digits.len() > 0,
            forall|k: int| 0 <= k < i - start ==> is_digit(#[trigger] digits[k]),
            v == digits_value(digits.take(i - start)),
        decreases n - i,
    {
        let c = chars[i];
        if !('0' <= c && c <= '9') {
            assert(!is_digit(digits[i - start]));
            return None;
        }
        let d: u64 = (c as u32 - '0' as u32) as u64;
        proof {
            assert(digits.take(i + 1 - start).drop_last() == digits.take(i - start));
            if all_digits(digits) {
                lemma_prefix_value(digits, i + 1 - start);
            }
        }
        if v > (u64::MAX - d) / 10 {
            return None;
        }
        v = v * 10 + d;
        i = i + 1;
    }
    proof {
        assert(digits.take(digits.len() as int) == digits);
    }
    Some(v)
}

/// As [`parse_u64`], for a number of sixteen bits.
pub fn parse_u16(s: &str) -> (r: Option<u16>)
    ensures
        match r {
            Some(v) => parse_decimal(s@) == Some(v as nat),
            None => parse_decimal(s@) matches Some(n) ==> n > u16::MAX,
        },
{
    match parse_u64(s) {
        Some(v) => if v <= 0xffff {
            Some(v as u16)
        } else {
            None
        },
        None => None,
    }
}

} // verus!
