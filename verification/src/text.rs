//! Character-level helpers shared by the parsers of this crate: Unicode
//! white space, splitting into words, and unsigned decimal numbers.
use vstd::prelude::*;

verus! {

/// The text of an optional string.
pub open spec fn opt_string_text(o: Option<String>) -> Option<Seq<char>> {
    match o {
        Some(s) => Some(s@),
        None => None,
    }
}

/// The Unicode `White_Space` property, which `char::is_whitespace` tests.
pub open spec fn is_white_space(c: char) -> bool {
    let u = c as u32;
    ||| 0x09 <= u <= 0x0d
    ||| u == 0x20
    ||| u == 0x85
    ||| u == 0xa0
    ||| u == 0x1680
    ||| 0x2000 <= u <= 0x200a
    ||| u == 0x2028
    ||| u == 0x2029
    ||| u == 0x202f
    ||| u == 0x205f
    ||| u == 0x3000
}

/// Whether `c` has the Unicode `White_Space` property.
pub fn is_white_space_char(c: char) -> (r: bool)
    ensures
        r == is_white_space(c),
{
    let u = c as u32;
    (0x09 <= u && u <= 0x0d) || u == 0x20 || u == 0x85 || u == 0xa0 || u == 0x1680 || (0x2000
        <= u && u <= 0x200a) || u == 0x2028 || u == 0x2029 || u == 0x202f || u == 0x205f || u
        == 0x3000
}

/// The first index at or after `i` that holds no white space (or the length).
pub open spec fn word_start(s: Seq<char>, i: int) -> int
    decreases s.len() - i,
{
    if i >= s.len() || i < 0 || !is_white_space(s[i]) {
        i
    } else {
        word_start(s, i + 1)
    }
}

/// The first index at or after `i` that holds white space (or the length).
pub open spec fn word_end(s: Seq<char>, i: int) -> int
    decreases s.len() - i,
{
    if i >= s.len() || i < 0 || is_white_space(s[i]) {
        i
    } else {
        word_end(s, i + 1)
    }
}

pub proof fn lemma_word_start_bounds(s: Seq<char>, i: int)
    requires
        0 <= i <= s.len(),
    ensures
        i <= word_start(s, i) <= s.len(),
        word_start(s, i) < s.len() ==> !is_white_space(s[word_start(s, i)]),
        forall|k: int| i <= k < word_start(s, i) ==> is_white_space(#[trigger] s[k]),
    decreases s.len() - i,
{
    if i < s.len() && is_white_space(s[i]) {
        lemma_word_start_bounds(s, i + 1);
    }
}

pub proof fn lemma_word_end_bounds(s: Seq<char>, i: int)
    requires
        0 <= i <= s.len(),
    ensures
        i <= word_end(s, i) <= s.len(),
        word_end(s, i) < s.len() ==> is_white_space(s[word_end(s, i)]),
        forall|k: int| i <= k < word_end(s, i) ==> !is_white_space(#[trigger] s[k]),
        i < s.len() && !is_white_space(s[i]) ==> i < word_end(s, i),
    decreases s.len() - i,
{
    if i < s.len() && !is_white_space(s[i]) {
        lemma_word_end_bounds(s, i + 1);
    }
}

/// The words of `s` from index `i` on: the maximal runs of characters
/// without white space, in order, as `str::split_whitespace` yields them.
pub open spec fn words_from(s: Seq<char>, i: int) -> Seq<Seq<char>>
    decreases s.len() - i,
{
    if 0 <= i <= s.len() {
        let b = word_start(s, i);
        if b >= s.len() {
            seq![]
        } else {
            let e = word_end(s, b);
            proof {
                lemma_word_start_bounds(s, i);
                lemma_word_end_bounds(s, b);
            }
            seq![s.subrange(b, e)] + words_from(s, e)
        }
    } else {
        seq![]
    }
}

/// The words of `s`, as `str::split_whitespace` yields them.
pub open spec fn words(s: Seq<char>) -> Seq<Seq<char>> {
    words_from(s, 0)
}

/// The characters of `s`, in order.
pub fn chars_of(s: &str) -> (r: Vec<char>)
    ensures
        r@ == s@,
{
    let mut r: Vec<char> = Vec::new();
    for c in it: s.chars()
        invariant
            it.seq() == s@,
            r@ == it.seq().take(it.index() as int),
    {
        r.push(c);
    }
    r
}

/// The bounds `(b, e)` of the first word of `s` at or after `i`; `b` is the
/// length of `s` when there is none.
pub fn next_word(s: &Vec<char>, i: usize) -> (r: (usize, usize))
    requires
        i <= s.len(),
    ensures
        r.0 == word_start(s@, i as int),
        r.1 == word_end(s@, r.0 as int),
        i <= r.0 <= r.1 <= s.len(),
{
    let mut b = i;
    while b < s.len() && is_white_space_char(s[b])
        invariant
            i <= b <= s.len(),
            word_start(s@, b as int) == word_start(s@, i as int),
        decreases s.len() - b,
    {
        b = b + 1;
    }
    let mut e = b;
    while e < s.len() && !is_white_space_char(s[e])
        invariant
            b <= e <= s.len(),
            word_end(s@, e as int) == word_end(s@, b as int),
        decreases s.len() - e,
    {
        e = e + 1;
    }
    (b, e)
}

pub open spec fn is_digit(c: char) -> bool {
    0x30 <= c as u32 <= 0x39
}

pub open spec fn digit_value(c: char) -> nat {
    (c as u32 - 0x30) as nat
}

/// The number that a sequence of decimal digits stands for.
pub open spec fn decimal_value(d: Seq<char>) -> nat
    decreases d.len(),
{
    if d.len() == 0 {
        0
    } else {
        decimal_value(d.drop_last()) * 10 + digit_value(d.last())
    }
}

/// Whether every character of `d` is an ASCII digit.
pub open spec fn all_digits(d: Seq<char>) -> bool {
    forall|k: int| 0 <= k < d.len() ==> is_digit(#[trigger] d[k])
}

/// `s` without one leading `+`, if it has one.
pub open spec fn without_plus(s: Seq<char>) -> Seq<char> {
    if s.len() > 0 && s[0] == '+' {
        s.drop_first()
    } else {
        s
    }
}

/// The digits of an unsigned number in the syntax that `str::parse` accepts
/// for unsigned integers: an optional `+`, then one or more ASCII digits.
pub open spec fn unsigned_digits(s: Seq<char>) -> Option<Seq<char>> {
    if without_plus(s).len() > 0 && all_digits(without_plus(s)) {
        Some(without_plus(s))
    } else {
        None
    }
}

/// What `str::parse` gives for an unsigned integer type whose largest value
/// is `max`: the number, or `None` for bad syntax and for overflow.
pub open spec fn parse_unsigned(s: Seq<char>, max: int) -> Option<int> {
    match unsigned_digits(s) {
        Some(d) => if decimal_value(d) <= max {
            Some(decimal_value(d) as int)
        } else {
            None
        },
        None => None,
    }
}

proof fn lemma_decimal_value_grows(d: Seq<char>, j: int, k: int)
    requires
        0 <= j <= k <= d.len(),
    ensures
        decimal_value(d.take(j)) <= decimal_value(d.take(k)),
    decreases k - j,
{
    if j < k {
        lemma_decimal_value_grows(d, j, k - 1);
        assert(d.take(k).drop_last() =~= d.take(k - 1));
    }
}

/// Parses `s[b..e]` as `str::parse` does for an unsigned integer type whose
/// largest value is `max`.
pub fn parse_unsigned_range(s: &Vec<char>, b: usize, e: usize, max: u64) -> (r: Option<u64>)
    requires
        b <= e <= s.len(),
    ensures
        r matches Some(v) ==> parse_unsigned(s@.subrange(b as int, e as int), max as int) == Some(
            v as int,
        ),
        r is None ==> parse_unsigned(s@.subrange(b as int, e as int), max as int) is None,
{
    let ghost t = s@.subrange(b as int, e as int);
    let mut start = b;
    if b < e && s[b] == '+' {
        start = b + 1;
    }
    let ghost d = s@.subrange(start as int, e as int);
    assert(d =~= without_plus(t));
    if start == e {
        return None;
    }
    let mut acc: u64 = 0;
    let mut k = start;
    assert(d.take(0) =~= Seq::<char>::empty());
    while k < e
        invariant
            b <= start <= k <= e <= s.len(),
            d == s@.subrange(start as int, e as int),
            t == s@.subrange(b as int, e as int),
            d == without_plus(t),
            acc <= max,
            forall|j: int| 0 <= j < k - start ==> is_digit(#[trigger] d[j]),
            acc == decimal_value(d.take(k - start)),
        decreases e - k,
    {
        let u = s[k] as u32;
        assert(d[k - start] == s@[k as int]);
        if !(0x30 <= u && u <= 0x39) {
            assert(!is_digit(d[k - start]));
            return None;
        }
        let next: u128 = (acc as u128) * 10 + ((u - 0x30) as u128);
        assert(d.take(k - start + 1).drop_last() =~= d.take(k - start));
        if next > max as u128 {
            proof {
                let ghost n = (k - start + 1) as int;
                lemma_decimal_value_grows(d, n, d.len() as int);
                assert(d.take(d.len() as int) =~= d);
                if all_digits(d) {
                    assert(decimal_value(d) > max);
                }
            }
            return None;
        }
        acc = next as u64;
        k = k + 1;
    }
    assert(d.take(d.len() as int) =~= d);
    Some(acc)
}

/// Parses `s` as an unsigned 64-bit integer, as `str::parse::<u64>` does.
pub fn parse_u64(s: &str) -> (r: Option<u64>)
    ensures
        r matches Some(v) ==> parse_unsigned(s@, u64::MAX as int) == Some(v as int),
        r is None ==> parse_unsigned(s@, u64::MAX as int) is None,
{
    let cs = chars_of(s);
    assert(cs@.subrange(0, cs@.len() as int) =~= s@);
    parse_unsigned_range(&cs, 0, cs.len(), u64::MAX)
}

/// Parses `s` as an unsigned 16-bit integer, as `str::parse::<u16>` does.
pub fn parse_u16(s: &str) -> (r: Option<u16>)
    ensures
        r matches Some(v) ==> parse_unsigned(s@, u16::MAX as int) == Some(v as int),
        r is None ==> parse_unsigned(s@, u16::MAX as int) is None,
{
    let cs = chars_of(s);
    assert(cs@.subrange(0, cs@.len() as int) =~= s@);
    match parse_unsigned_range(&cs, 0, cs.len(), u16::MAX as u64) {
        Some(v) => Some(v as u16),
        None => None,
    }
}

/// `s` without the `/` characters at its end, as `str::trim_end_matches('/')`
/// leaves it.
pub open spec fn trim_trailing_slashes(s: Seq<char>) -> Seq<char>
    decreases s.len(),
{
    if s.len() > 0 && s.last() == '/' {
        trim_trailing_slashes(s.drop_last())
    } else {
        s
    }
}

/// `n` copies of `/`.
pub open spec fn slashes(n: nat) -> Seq<char> {
    Seq::new(n, |i: int| '/')
}

/// What trimming leaves is a prefix of `s` that does not end in `/`, and
/// the rest of `s` is made of `/` alone.
pub proof fn lemma_trim_trailing_slashes(s: Seq<char>)
    ensures
        trim_trailing_slashes(s).len() <= s.len(),
        trim_trailing_slashes(s) == s.take(trim_trailing_slashes(s).len() as int),
        trim_trailing_slashes(s).len() == 0 || trim_trailing_slashes(s).last() != '/',
        forall|k: int|
            trim_trailing_slashes(s).len() <= k < s.len() ==> #[trigger] s[k] == '/',
    decreases s.len(),
{
    if s.len() > 0 && s.last() == '/' {
        lemma_trim_trailing_slashes(s.drop_last());
        assert forall|k: int|
            trim_trailing_slashes(s).len() <= k < s.len() implies #[trigger] s[k] == '/' by {
            if k < s.len() - 1 {
                assert(s[k] == s.drop_last()[k]);
            }
        }
        assert(s.drop_last().take(trim_trailing_slashes(s).len() as int) =~= s.take(
            trim_trailing_slashes(s).len() as int,
        ));
    } else {
        assert(s.take(s.len() as int) =~= s);
    }
}

/// `s` without the `/` characters at its end.
pub fn trim_end_slashes(s: &str) -> (r: &str)
    ensures
        r@ == trim_trailing_slashes(s@),
{
    let cs = chars_of(s);
    let mut end = cs.len();
    assert(cs@.take(end as int) =~= s@);
    while end > 0 && cs[end - 1] == '/'
        invariant
            end <= cs.len(),
            trim_trailing_slashes(cs@.take(end as int)) == trim_trailing_slashes(s@),
            cs@ == s@,
        decreases end,
    {
        assert(cs@.take(end as int).drop_last() =~= cs@.take(end - 1));
        end = end - 1;
    }
    proof {
        assert(cs@.take(cs.len() as int) =~= cs@);
        if end == cs.len() {
            assert(trim_trailing_slashes(cs@.take(end as int)) == trim_trailing_slashes(s@));
        }
    }
    s.substring_char(0, end)
}

/// The ASCII digit for `d`, which must be below ten.
pub open spec fn digit_char(d: nat) -> char {
    ((d + 0x30) as u32) as char
}

/// The decimal digits of `n`, without leading zeros, as `format!` writes an
/// unsigned integer.
pub open spec fn decimal_text(n: nat) -> Seq<char>
    decreases n,
{
    if n < 10 {
        seq![digit_char(n)]
    } else {
        decimal_text(n / 10) + seq![digit_char(n % 10)]
    }
}

fn digit_str(d: u64) -> (r: &'static str)
    requires
        d < 10,
    ensures
        r@ == seq![digit_char(d as nat)],
{
    proof {
        reveal_strlit("0");
        reveal_strlit("1");
        reveal_strlit("2");
        reveal_strlit("3");
        reveal_strlit("4");
        reveal_strlit("5");
        reveal_strlit("6");
        reveal_strlit("7");
        reveal_strlit("8");
        reveal_strlit("9");
    }
    match d {
        0 => "0",
        1 => "1",
        2 => "2",
        3 => "3",
        4 => "4",
        5 => "5",
        6 => "6",
        7 => "7",
        8 => "8",
        _ => "9",
    }
}

/// Appends the decimal digits of `n` to `out`.
pub fn push_decimal(out: &mut String, n: u64)
    ensures
        final(out)@ == old(out)@ + decimal_text(n as nat),
    decreases n,
{
    if n >= 10 {
        push_decimal(out, n / 10);
    }
    out.append(digit_str(n % 10));
    proof {
        if n >= 10 {
            assert(old(out)@ + decimal_text(n as nat) =~= old(out)@ + decimal_text((n / 10) as nat)
                + seq![digit_char((n % 10) as nat)]);
        }
    }
}

proof fn lemma_decimal_text_digits(n: nat)
    ensures
        decimal_text(n).len() > 0,
        all_digits(decimal_text(n)),
        decimal_text(n)[0] != '+',
        decimal_value(decimal_text(n)) == n,
    decreases n,
{
    let t = decimal_text(n);
    if n >= 10 {
        lemma_decimal_text_digits(n / 10);
        assert(t.drop_last() =~= decimal_text(n / 10));
        assert(t.last() == digit_char(n % 10));
        assert(digit_value(digit_char(n % 10)) == n % 10);
        assert((n / 10) * 10 + n % 10 == n);
        assert(decimal_value(t) == decimal_value(t.drop_last()) * 10 + digit_value(t.last()));
        assert forall|k: int| 0 <= k < t.len() implies is_digit(#[trigger] t[k]) by {
            if k < t.len() - 1 {
                assert(t[k] == decimal_text(n / 10)[k]);
            }
        }
    } else {
        assert(t.drop_last() =~= Seq::<char>::empty());
        assert(decimal_value(t.drop_last()) == 0);
        assert(digit_value(digit_char(n)) == n);
        assert(decimal_value(t) == decimal_value(t.drop_last()) * 10 + digit_value(t.last()));
    }
}

/// What `format!` writes for an unsigned number, `str::parse` reads back as
/// that number, for any integer type that can hold it.
pub proof fn lemma_decimal_text_parses_back(n: nat, max: int)
    requires
        n <= max,
    ensures
        parse_unsigned(decimal_text(n), max) == Some(n as int),
{
    lemma_decimal_text_digits(n);
    assert(without_plus(decimal_text(n)) == decimal_text(n));
}

/// The white space that starts at `i` ends at `j`.
pub proof fn lemma_word_start_at(s: Seq<char>, i: int, j: int)
    requires
        0 <= i <= j <= s.len(),
        forall|k: int| i <= k < j ==> is_white_space(#[trigger] s[k]),
        j == s.len() || !is_white_space(s[j]),
    ensures
        word_start(s, i) == j,
    decreases j - i,
{
    if i < j {
        lemma_word_start_at(s, i + 1, j);
    }
}

/// The word that starts at `i` ends at `j`.
pub proof fn lemma_word_end_at(s: Seq<char>, i: int, j: int)
    requires
        0 <= i <= j <= s.len(),
        forall|k: int| i <= k < j ==> !is_white_space(#[trigger] s[k]),
        j == s.len() || is_white_space(s[j]),
    ensures
        word_end(s, i) == j,
    decreases j - i,
{
    if i < j {
        lemma_word_end_at(s, i + 1, j);
    }
}

/// No decimal digit is white space.
pub proof fn lemma_decimal_text_has_no_white_space(n: nat)
    ensures
        forall|k: int|
            0 <= k < decimal_text(n).len() ==> !is_white_space(#[trigger] decimal_text(n)[k]),
{
    lemma_decimal_text_digits(n);
}

/// Unfolds the words of `s` from `i` by one word.
pub proof fn lemma_words_from_step(s: Seq<char>, i: int)
    requires
        0 <= i <= s.len(),
    ensures
        word_start(s, i) >= s.len() ==> words_from(s, i) == Seq::<Seq<char>>::empty(),
        word_start(s, i) < s.len() ==> words_from(s, i) == seq![
            s.subrange(word_start(s, i), word_end(s, word_start(s, i))),
        ] + words_from(s, word_end(s, word_start(s, i))),
        i <= word_start(s, i) <= word_end(s, word_start(s, i)) <= s.len(),
{
    lemma_word_start_bounds(s, i);
    lemma_word_end_bounds(s, word_start(s, i));
}

/// Scanning `a + b` from inside `a` finds the same white space as scanning
/// `a`, up to the end of `a`.
proof fn lemma_word_start_prefix(a: Seq<char>, s: Seq<char>, i: int)
    requires
        0 <= i <= a.len() <= s.len(),
        s.take(a.len() as int) == a,
    ensures
        word_start(a, i) < a.len() ==> word_start(s, i) == word_start(a, i),
        word_start(a, i) >= a.len() ==> word_start(s, i) == word_start(s, a.len() as int),
    decreases a.len() - i,
{
    if i < a.len() {
        assert(s[i] == a[i]);
        if is_white_space(a[i]) {
            lemma_word_start_prefix(a, s, i + 1);
        }
    }
}

/// Scanning `a + b` from inside `a` finds the same word end as scanning
/// `a`, up to the end of `a`.
proof fn lemma_word_end_prefix(a: Seq<char>, s: Seq<char>, i: int)
    requires
        0 <= i <= a.len() <= s.len(),
        s.take(a.len() as int) == a,
    ensures
        word_end(a, i) < a.len() ==> word_end(s, i) == word_end(a, i),
        word_end(a, i) >= a.len() ==> word_end(s, i) == word_end(s, a.len() as int),
    decreases a.len() - i,
{
    if i < a.len() {
        assert(s[i] == a[i]);
        if !is_white_space(a[i]) {
            lemma_word_end_prefix(a, s, i + 1);
        }
    }
}

/// Scanning `p + b` past `p` is scanning `b`, shifted by the length of `p`.
proof fn lemma_words_from_shift(p: Seq<char>, b: Seq<char>, j: int)
    requires
        0 <= j <= b.len(),
    ensures
        words_from(p + b, p.len() + j) == words_from(b, j),
    decreases b.len() - j,
{
    let s = p + b;
    let n = p.len() as int;
    lemma_word_start_shift(p, b, j);
    lemma_words_from_step(s, n + j);
    lemma_words_from_step(b, j);
    let wb = word_start(b, j);
    if wb < b.len() {
        lemma_word_end_shift(p, b, wb);
        let we = word_end(b, wb);
        assert(s.subrange(n + wb, n + we) =~= b.subrange(wb, we));
        lemma_words_from_shift(p, b, we);
    }
}

proof fn lemma_word_start_shift(p: Seq<char>, b: Seq<char>, j: int)
    requires
        0 <= j <= b.len(),
    ensures
        word_start(p + b, p.len() + j) == p.len() + word_start(b, j),
    decreases b.len() - j,
{
    if j < b.len() {
        assert((p + b)[p.len() + j] == b[j]);
        if is_white_space(b[j]) {
            lemma_word_start_shift(p, b, j + 1);
        }
    }
}

proof fn lemma_word_end_shift(p: Seq<char>, b: Seq<char>, j: int)
    requires
        0 <= j <= b.len(),
    ensures
        word_end(p + b, p.len() + j) == p.len() + word_end(b, j),
    decreases b.len() - j,
{
    if j < b.len() {
        assert((p + b)[p.len() + j] == b[j]);
        if !is_white_space(b[j]) {
            lemma_word_end_shift(p, b, j + 1);
        }
    }
}

/// The words of `a`, from `i` on, followed by the words of what comes after
/// `a` in `s`, when `s` continues `a` with white space.
proof fn lemma_words_from_prefix(a: Seq<char>, s: Seq<char>, i: int)
    requires
        0 <= i <= a.len() < s.len(),
        s.take(a.len() as int) == a,
        is_white_space(s[a.len() as int]),
    ensures
        words_from(s, i) == words_from(a, i) + words_from(s, a.len() as int),
    decreases a.len() - i,
{
    let n = a.len() as int;
    lemma_words_from_step(s, i);
    lemma_words_from_step(a, i);
    lemma_word_start_prefix(a, s, i);
    lemma_words_from_step(s, n);
    let ba = word_start(a, i);
    if ba >= n {
        // Only white space is left in `a`: both scans start where `s` goes on.
        assert(words_from(a, i) == Seq::<Seq<char>>::empty());
        assert(words_from(s, i) =~= words_from(a, i) + words_from(s, n));
    } else {
        lemma_word_end_prefix(a, s, ba);
        lemma_word_end_at(s, n, n);
        let ea = word_end(a, ba);
        assert(word_end(s, ba) == ea);
        assert(s.subrange(ba, ea) =~= a.subrange(ba, ea)) by {
            assert forall|k: int| ba <= k < ea implies s[k] == a[k] by {
                assert(s.take(n)[k] == s[k]);
            }
        }
        lemma_words_from_prefix(a, s, ea);
        assert(words_from(s, i) =~= words_from(a, i) + words_from(s, n));
    }
}

/// The words of two texts joined by a white-space character are the words
/// of the first, then those of the second.
pub proof fn lemma_words_concat(a: Seq<char>, c: char, b: Seq<char>)
    requires
        is_white_space(c),
    ensures
        words(a + seq![c] + b) == words(a) + words(b),
{
    let s = a + seq![c] + b;
    let n = a.len() as int;
    assert(s.take(n) =~= a);
    assert(s[n] == c);
    lemma_words_from_prefix(a, s, 0);
    lemma_words_from_step(s, n);
    lemma_words_from_step(s, n + 1);
    lemma_word_start_bounds(s, n + 1);
    assert(word_start(s, n) == word_start(s, n + 1));
    assert(words_from(s, n) == words_from(s, n + 1));
    assert(s =~= (a + seq![c]) + b);
    lemma_words_from_shift(a + seq![c], b, 0);
}

/// A text that is not empty and holds no white space is one word.
pub proof fn lemma_words_of_word(w: Seq<char>)
    requires
        w.len() > 0,
        forall|k: int| 0 <= k < w.len() ==> !is_white_space(#[trigger] w[k]),
    ensures
        words(w) == seq![w],
{
    lemma_word_start_at(w, 0, 0);
    lemma_word_end_at(w, 0, w.len() as int);
    lemma_words_from_step(w, 0);
    lemma_word_start_at(w, w.len() as int, w.len() as int);
    lemma_words_from_step(w, w.len() as int);
    assert(w.subrange(0, w.len() as int) =~= w);
}

/// Every word is not empty and holds no white space.
pub proof fn lemma_words_from_are_words(s: Seq<char>, i: int)
    requires
        0 <= i <= s.len(),
    ensures
        forall|k: int|
            0 <= k < words_from(s, i).len() ==> #[trigger] words_from(s, i)[k].len() > 0,
        forall|k: int, m: int|
            0 <= k < words_from(s, i).len() && 0 <= m < words_from(s, i)[k].len()
                ==> !is_white_space(#[trigger] words_from(s, i)[k][m]),
    decreases s.len() - i,
{
    lemma_words_from_step(s, i);
    let b = word_start(s, i);
    if b < s.len() {
        let e = word_end(s, b);
        lemma_word_start_bounds(s, i);
        lemma_word_end_bounds(s, b);
        lemma_words_from_are_words(s, e);
        let w = words_from(s, i);
        assert forall|k: int| 0 <= k < w.len() implies #[trigger] w[k].len() > 0 by {
            if k > 0 {
                assert(w[k] == words_from(s, e)[k - 1]);
            }
        }
        assert forall|k: int, m: int| 0 <= k < w.len() && 0 <= m < w[k].len() implies !is_white_space(
            #[trigger] w[k][m],
        ) by {
            if k > 0 {
                assert(w[k] == words_from(s, e)[k - 1]);
            } else {
                assert(w[0][m] == s[b + m]);
            }
        }
    }
}

/// Words joined by single spaces.
pub open spec fn join_words(ws: Seq<Seq<char>>) -> Seq<char>
    decreases ws.len(),
{
    if ws.len() == 0 {
        seq![]
    } else if ws.len() == 1 {
        ws[0]
    } else {
        join_words(ws.drop_last()) + seq![' '] + ws.last()
    }
}

/// Joining the words of a text with single spaces keeps its words.
pub proof fn lemma_words_of_joined_words(s: Seq<char>)
    ensures
        words(join_words(words(s))) == words(s),
{
    lemma_words_from_are_words(s, 0);
    lemma_words_of_join(words(s));
}

proof fn lemma_words_of_join(ws: Seq<Seq<char>>)
    requires
        forall|k: int| 0 <= k < ws.len() ==> #[trigger] ws[k].len() > 0,
        forall|k: int, m: int|
            0 <= k < ws.len() && 0 <= m < ws[k].len() ==> !is_white_space(#[trigger] ws[k][m]),
    ensures
        words(join_words(ws)) == ws,
    decreases ws.len(),
{
    if ws.len() == 0 {
        lemma_word_start_at(Seq::<char>::empty(), 0, 0);
        lemma_words_from_step(Seq::<char>::empty(), 0);
        assert(words(join_words(ws)) =~= ws);
    } else if ws.len() == 1 {
        let w = ws[0];
        assert forall|m: int| 0 <= m < w.len() implies !is_white_space(#[trigger] w[m]) by {
            assert(ws[0][m] == w[m]);
        }
        lemma_words_of_word(w);
        assert(words(join_words(ws)) =~= ws);
    } else {
        let rest = ws.drop_last();
        let w = ws.last();
        assert forall|k: int, m: int|
            0 <= k < rest.len() && 0 <= m < rest[k].len() implies !is_white_space(
            #[trigger] rest[k][m],
        ) by {
            assert(rest[k] == ws[k]);
        }
        assert forall|k: int| 0 <= k < rest.len() implies #[trigger] rest[k].len() > 0 by {
            assert(rest[k] == ws[k]);
        }
        lemma_words_of_join(rest);
        assert forall|m: int| 0 <= m < w.len() implies !is_white_space(#[trigger] w[m]) by {
            assert(ws[ws.len() - 1][m] == w[m]);
        }
        assert(w.len() > 0) by {
            assert(ws[ws.len() - 1].len() > 0);
        }
        lemma_words_of_word(w);
        assert(is_white_space(' '));
        lemma_words_concat(join_words(rest), ' ', w);
        assert(words(join_words(ws)) =~= ws);
    }
}

/// Numbers are written without leading zeros: one digit below ten, and
/// otherwise a first digit other than `0`; each digit stands for its part
/// of the number.
pub proof fn lemma_decimal_text_canonical(n: nat)
    ensures
        n < 10 ==> decimal_text(n) == seq![digit_char(n)],
        n >= 10 ==> decimal_text(n)[0] != '0',
        all_digits(decimal_text(n)),
        decimal_value(decimal_text(n)) == n,
    decreases n,
{
    lemma_decimal_text_digits(n);
    if n >= 10 {
        lemma_decimal_text_canonical(n / 10);
        assert(decimal_text(n)[0] == decimal_text(n / 10)[0]);
        if n / 10 < 10 {
            assert(digit_value(digit_char(n / 10)) == n / 10);
        }
    }
}

} // verus!
