//! Text as sequences of characters: comparison, search, trimming and decimal
//! numerals.

use vstd::prelude::*;
use vstd::string::{StrSliceExecFns, StringExecFns};

verus! {

/// Whether `c` has the Unicode property `White_Space`.
pub open spec fn is_white_space(c: char) -> bool {
    ||| '\u{9}' <= c <= '\u{d}'
    ||| c == ' '
    ||| c == '\u{85}'
    ||| c == '\u{a0}'
    ||| c == '\u{1680}'
    ||| '\u{2000}' <= c <= '\u{200a}'
    ||| c == '\u{2028}'
    ||| c == '\u{2029}'
    ||| c == '\u{202f}'
    ||| c == '\u{205f}'
    ||| c == '\u{3000}'
}

/// `s` without its leading white space.
pub open spec fn trim_start(s: Seq<char>) -> Seq<char>
    decreases s.len(),
{
    if s.len() > 0 && is_white_space(s.first()) {
        trim_start(s.drop_first())
    } else {
        s
    }
}

/// `s` without its trailing white space.
pub open spec fn trim_end(s: Seq<char>) -> Seq<char>
    decreases s.len(),
{
    if s.len() > 0 && is_white_space(s.last()) {
        trim_end(s.drop_last())
    } else {
        s
    }
}

/// `s` without the white space at either end.
pub open spec fn trim(s: Seq<char>) -> Seq<char> {
    trim_end(trim_start(s))
}

/// Where `c` first stands in `s`, or the length of `s` where it does not occur.
pub open spec fn position(s: Seq<char>, c: char) -> int
    decreases s.len(),
{
    if s.len() == 0 || s.first() == c {
        0
    } else {
        1 + position(s.drop_first(), c)
    }
}

/// The part of `s` before the first `c`, all of `s` where there is none.
pub open spec fn before(s: Seq<char>, c: char) -> Seq<char> {
    s.take(position(s, c))
}

/// The part of `s` after the first `c`.
pub open spec fn after(s: Seq<char>, c: char) -> Seq<char>
    recommends
        s.contains(c),
{
    s.skip(position(s, c) + 1)
}

/// The pieces of `s` between one `sep` and the next.
pub open spec fn split(s: Seq<char>, sep: char) -> Seq<Seq<char>>
    decreases s.len(),
{
    let p = position(s, sep);
    if 0 <= p < s.len() {
        seq![s.take(p)] + split(s.skip(p + 1), sep)
    } else {
        seq![s]
    }
}

/// Whether `needle` stands somewhere in `s`.
pub open spec fn contains(s: Seq<char>, needle: Seq<char>) -> bool {
    exists|i: int| #[trigger] stands_at(s, needle, i)
}

/// Whether `needle` stands in `s` from index `i` on.
pub open spec fn stands_at(s: Seq<char>, needle: Seq<char>, i: int) -> bool {
    0 <= i && i + needle.len() <= s.len() && s.subrange(i, i + needle.len()) == needle
}

/// `c` with the upper-case ASCII letters taken for the lower-case ones.
pub open spec fn fold(c: char) -> int {
    if 'A' <= c <= 'Z' {
        c as int + 32
    } else {
        c as int
    }
}

/// The folded characters of `s`.
pub open spec fn folded(s: Seq<char>) -> Seq<int> {
    s.map_values(|c: char| fold(c))
}

/// Whether `a` and `b` differ at most in the case of ASCII letters.
pub open spec fn same_ignoring_case(a: Seq<char>, b: Seq<char>) -> bool {
    folded(a) == folded(b)
}

/// Whether `needle` stands somewhere in `s`, the case of ASCII letters aside.
pub open spec fn contains_ignoring_case(s: Seq<char>, needle: Seq<char>) -> bool {
    exists|i: int| #[trigger] stands_at_ignoring_case(s, needle, i)
}

/// Whether `needle` stands in `s` from index `i` on, the case of ASCII letters
/// aside.
pub open spec fn stands_at_ignoring_case(s: Seq<char>, needle: Seq<char>, i: int) -> bool {
    &&& 0 <= i
    &&& i + needle.len() <= s.len()
    &&& same_ignoring_case(s.subrange(i, i + needle.len()), needle)
}

/// The digit character of `d`.
pub open spec fn digit_char(d: int) -> char {
    if d == 0 {
        '0'
    } else if d == 1 {
        '1'
    } else if d == 2 {
        '2'
    } else if d == 3 {
        '3'
    } else if d == 4 {
        '4'
    } else if d == 5 {
        '5'
    } else if d == 6 {
        '6'
    } else if d == 7 {
        '7'
    } else if d == 8 {
        '8'
    } else {
        '9'
    }
}

/// The decimal numeral of `n`, without leading zeros.
pub open spec fn decimal(n: nat) -> Seq<char>
    decreases n,
{
    if n < 10 {
        seq![digit_char(n as int)]
    } else {
        decimal(n / 10).push(digit_char((n % 10) as int))
    }
}

/// Whether `c` is one of `0` to `9`.
pub open spec fn is_digit(c: char) -> bool {
    '0' <= c <= '9'
}

/// The longest prefix of `s` that holds digits only.
pub open spec fn leading_digits(s: Seq<char>) -> Seq<char>
    decreases s.len(),
{
    if s.len() > 0 && is_digit(s.first()) {
        seq![s.first()] + leading_digits(s.drop_first())
    } else {
        Seq::empty()
    }
}

/// The number that a run of digits writes.
pub open spec fn digits_value(s: Seq<char>) -> nat
    decreases s.len(),
{
    if s.len() == 0 {
        0
    } else {
        digits_value(s.drop_last()) * 10 + (s.last() as int - '0' as int) as nat
    }
}

pub proof fn lemma_position(s: Seq<char>, c: char)
    ensures
        0 <= position(s, c) <= s.len(),
        forall|i: int| 0 <= i < position(s, c) ==> s[i] != c,
        position(s, c) < s.len() ==> s[position(s, c)] == c,
        position(s, c) < s.len() <==> s.contains(c),
    decreases s.len(),
{
    if s.len() > 0 && s.first() != c {
        let rest = s.drop_first();
        lemma_position(rest, c);
        assert forall|i: int| 0 <= i < position(s, c) implies s[i] != c by {
            if i > 0 {
                assert(s[i] == rest[i - 1]);
            }
        }
        if s.contains(c) {
            let k = choose|k: int| 0 <= k < s.len() && s[k] == c;
            assert(rest[k - 1] == c);
        }
    }
}

/// An index with `c` at it and none before it is `position`.
pub proof fn lemma_position_is(s: Seq<char>, c: char, p: int)
    requires
        0 <= p <= s.len(),
        forall|i: int| 0 <= i < p ==> s[i] != c,
        p < s.len() ==> s[p] == c,
    ensures
        position(s, c) == p,
{
    lemma_position(s, c);
    let q = position(s, c);
    if q < p {
        assert(s[q] != c);
    }
}

proof fn lemma_trim_start_skips(s: Seq<char>, i: int)
    requires
        0 <= i <= s.len(),
        forall|k: int| 0 <= k < i ==> is_white_space(s[k]),
        i < s.len() ==> !is_white_space(s[i]),
    ensures
        trim_start(s) == s.skip(i),
    decreases s.len(),
{
    if i > 0 {
        assert(is_white_space(s[0]));
        let rest = s.drop_first();
        lemma_trim_start_skips(rest, i - 1);
        assert(rest.skip(i - 1) =~= s.skip(i));
    } else {
        assert(s.skip(0) =~= s);
    }
}

proof fn lemma_trim_end_takes(s: Seq<char>, i: int)
    requires
        0 <= i <= s.len(),
        forall|k: int| i <= k < s.len() ==> is_white_space(s[k]),
        i > 0 ==> !is_white_space(s[i - 1]),
    ensures
        trim_end(s) == s.take(i),
    decreases s.len(),
{
    if i < s.len() {
        assert(is_white_space(s[s.len() - 1]));
        let rest = s.drop_last();
        lemma_trim_end_takes(rest, i);
        assert(rest.take(i) =~= s.take(i));
    } else {
        assert(s.take(i) =~= s);
    }
}

proof fn lemma_leading_digits_takes(s: Seq<char>, i: int)
    requires
        0 <= i <= s.len(),
        forall|k: int| 0 <= k < i ==> is_digit(s[k]),
        i < s.len() ==> !is_digit(s[i]),
    ensures
        leading_digits(s) == s.take(i),
    decreases s.len(),
{
    if i > 0 {
        assert(is_digit(s[0]));
        let rest = s.drop_first();
        lemma_leading_digits_takes(rest, i - 1);
        assert(seq![s.first()] + rest.take(i - 1) =~= s.take(i));
    } else {
        assert(s.take(0) =~= Seq::<char>::empty());
    }
}

/// A decimal numeral is made of digits and writes its number.
pub proof fn lemma_decimal(n: nat)
    ensures
        decimal(n).len() > 0,
        forall|i: int| 0 <= i < decimal(n).len() ==> is_digit(#[trigger] decimal(n)[i]),
        digits_value(decimal(n)) == n,
    decreases n,
{
    reveal_with_fuel(digits_value, 2);
    if n >= 10 {
        lemma_decimal(n / 10);
        assert(decimal(n).drop_last() =~= decimal(n / 10));
        assert(decimal(n).last() == digit_char((n % 10) as int));
        assert forall|i: int| 0 <= i < decimal(n).len() implies is_digit(
            #[trigger] decimal(n)[i],
        ) by {
            if i < decimal(n / 10).len() {
                assert(decimal(n)[i] == decimal(n / 10)[i]);
            }
        }
    } else {
        assert(decimal(n).drop_last() =~= Seq::<char>::empty());
    }
}

/// All of a run of digits is its leading digits.
pub proof fn lemma_leading_digits_all(s: Seq<char>)
    requires
        forall|i: int| 0 <= i < s.len() ==> is_digit(#[trigger] s[i]),
    ensures
        leading_digits(s) == s,
{
    lemma_leading_digits_takes(s, s.len() as int);
    assert(s.take(s.len() as int) =~= s);
}

/// Decides [`is_white_space`].
pub fn white_space(c: char) -> (r: bool)
    ensures
        r == is_white_space(c),
{
    ('\u{9}' <= c && c <= '\u{d}') || c == ' ' || c == '\u{85}' || c == '\u{a0}' || c == '\u{1680}'
        || ('\u{2000}' <= c && c <= '\u{200a}') || c == '\u{2028}' || c == '\u{2029}'
        || c == '\u{202f}' || c == '\u{205f}' || c == '\u{3000}'
}

/// The characters of `s`, in order.
pub fn chars_of(s: &str) -> (r: Vec<char>)
    ensures
        r@ == s@,
{
    let mut out: Vec<char> = Vec::new();
    for c in it: s.chars()
        invariant
            it.seq() == s@,
            out@ == s@.subrange(0, it.index() as int),
    {
        out.push(c);
    }
    assert(s@.subrange(0, s@.len() as int) =~= s@);
    out
}

/// The characters of `s` from `from` up to, not with, `to`.
pub fn slice(s: &str, from: usize, to: usize) -> (r: String)
    requires
        from <= to <= s@.len(),
    ensures
        r@ == s@.subrange(from as int, to as int),
{
    s.substring_char(from, to).to_owned()
}

/// Whether `a` and `b` are the same text.
pub fn same(a: &str, b: &str) -> (r: bool)
    ensures
        r == (a@ == b@),
{
    let x: Vec<char> = chars_of(a);
    let y: Vec<char> = chars_of(b);
    if x.len() != y.len() {
        return false;
    }
    let mut i: usize = 0;
    while i < x.len()
        invariant
            i <= x.len(),
            x.len() == y.len(),
            x@ == a@,
            y@ == b@,
            forall|k: int| 0 <= k < i ==> x@[k] == y@[k],
        decreases x.len() - i,
    {
        if x[i] != y[i] {
            assert(a@[i as int] != b@[i as int]);
            return false;
        }
        i = i + 1;
    }
    assert(a@ =~= b@);
    true
}

fn folded_char(c: char) -> (r: u32)
    ensures
        r == fold(c),
{
    if 'A' <= c && c <= 'Z' {
        c as u32 + 32
    } else {
        c as u32
    }
}

/// Whether the characters of `y` stand in `x` from `at` on, the case of ASCII
/// letters aside.
fn matches_folded(x: &Vec<char>, at: usize, y: &Vec<char>) -> (r: bool)
    requires
        at + y.len() <= x.len(),
    ensures
        r == same_ignoring_case(x@.subrange(at as int, at + y.len()), y@),
{
    let ghost part = x@.subrange(at as int, at + y.len());
    let mut i: usize = 0;
    while i < y.len()
        invariant
            i <= y.len(),
            at + y.len() <= x.len(),
            part == x@.subrange(at as int, at + y.len()),
            forall|k: int| 0 <= k < i ==> folded(part)[k] == folded(y@)[k],
        decreases y.len() - i,
    {
        let p: u32 = folded_char(x[at + i]);
        let q: u32 = folded_char(y[i]);
        assert(folded(part)[i as int] == p);
        assert(folded(y@)[i as int] == q);
        if p != q {
            return false;
        }
        i = i + 1;
    }
    assert(folded(part) =~= folded(y@));
    true
}

/// Whether `a` and `b` differ at most in the case of ASCII letters.
pub fn eq_ignore_ascii_case(a: &str, b: &str) -> (r: bool)
    ensures
        r == same_ignoring_case(a@, b@),
{
    let x: Vec<char> = chars_of(a);
    let y: Vec<char> = chars_of(b);
    if x.len() != y.len() {
        assert(folded(a@).len() != folded(b@).len());
        return false;
    }
    assert(x@.subrange(0, 0 + y.len()) =~= a@);
    matches_folded(&x, 0, &y)
}

/// Whether the characters of `y` stand in `x` from `at` on.
fn matches_at(x: &Vec<char>, at: usize, y: &Vec<char>) -> (r: bool)
    requires
        at + y.len() <= x.len(),
    ensures
        r == stands_at(x@, y@, at as int),
{
    let ghost part = x@.subrange(at as int, at + y.len());
    let mut i: usize = 0;
    while i < y.len()
        invariant
            i <= y.len(),
            at + y.len() <= x.len(),
            part == x@.subrange(at as int, at + y.len()),
            forall|k: int| 0 <= k < i ==> part[k] == y@[k],
        decreases y.len() - i,
    {
        assert(part[i as int] == x@[at + i]);
        if x[at + i] != y[i] {
            return false;
        }
        i = i + 1;
    }
    assert(part =~= y@);
    true
}

/// Whether `needle` stands somewhere in `s`.
pub fn contains_text(s: &str, needle: &str) -> (r: bool)
    ensures
        r == contains(s@, needle@),
{
    let x: Vec<char> = chars_of(s);
    let y: Vec<char> = chars_of(needle);
    if y.len() > x.len() {
        return false;
    }
    let last: usize = x.len() - y.len();
    let mut i: usize = 0;
    while i <= last
        invariant
            i <= last + 1,
            last + y.len() == x.len(),
            x@ == s@,
            y@ == needle@,
            forall|k: int| 0 <= k < i ==> !stands_at(x@, y@, k),
        decreases last + 1 - i,
    {
        if matches_at(&x, i, &y) {
            assert(stands_at(s@, needle@, i as int));
            return true;
        }
        if i == last {
            return false;
        }
        i = i + 1;
    }
    false
}

/// Whether `needle` stands somewhere in `s`, the case of ASCII letters aside.
pub fn contains_ignore_ascii_case(s: &str, needle: &str) -> (r: bool)
    ensures
        r == contains_ignoring_case(s@, needle@),
{
    let x: Vec<char> = chars_of(s);
    let y: Vec<char> = chars_of(needle);
    if y.len() > x.len() {
        return false;
    }
    let last: usize = x.len() - y.len();
    let mut i: usize = 0;
    while i <= last
        invariant
            i <= last + 1,
            last + y.len() == x.len(),
            x@ == s@,
            y@ == needle@,
            forall|k: int| 0 <= k < i ==> !stands_at_ignoring_case(x@, y@, k),
        decreases last + 1 - i,
    {
        if matches_folded(&x, i, &y) {
            assert(stands_at_ignoring_case(s@, needle@, i as int));
            return true;
        }
        if i == last {
            return false;
        }
        i = i + 1;
    }
    false
}

/// Whether `s` begins with `prefix`.
pub fn starts_with(s: &str, prefix: &str) -> (r: bool)
    ensures
        r == prefix@.is_prefix_of(s@),
{
    let x: Vec<char> = chars_of(s);
    let y: Vec<char> = chars_of(prefix);
    if y.len() > x.len() {
        return false;
    }
    matches_at(&x, 0, &y)
}

/// Where `c` first stands in `s`, or the number of characters of `s`.
pub fn find_char(s: &str, c: char) -> (r: usize)
    ensures
        r == position(s@, c),
        r <= s@.len(),
        r < s@.len() <==> s@.contains(c),
{
    let x: Vec<char> = chars_of(s);
    let mut i: usize = 0;
    while i < x.len() && x[i] != c
        invariant
            i <= x.len(),
            x@ == s@,
            forall|k: int| 0 <= k < i ==> x@[k] != c,
        decreases x.len() - i,
    {
        i = i + 1;
    }
    proof {
        lemma_position_is(s@, c, i as int);
        lemma_position(s@, c);
    }
    i
}

/// `s` without its leading white space.
pub fn trim_start_of(s: &str) -> (r: &str)
    ensures
        r@ == trim_start(s@),
{
    let x: Vec<char> = chars_of(s);
    let mut i: usize = 0;
    while i < x.len() && white_space(x[i])
        invariant
            i <= x.len(),
            x@ == s@,
            forall|k: int| 0 <= k < i ==> is_white_space(x@[k]),
        decreases x.len() - i,
    {
        i = i + 1;
    }
    proof {
        lemma_trim_start_skips(s@, i as int);
        assert(s@.skip(i as int) =~= s@.subrange(i as int, s@.len() as int));
    }
    s.substring_char(i, x.len())
}

/// `s` without its trailing white space.
pub fn trim_end_of(s: &str) -> (r: &str)
    ensures
        r@ == trim_end(s@),
{
    let x: Vec<char> = chars_of(s);
    let mut i: usize = x.len();
    while i > 0 && white_space(x[i - 1])
        invariant
            i <= x.len(),
            x@ == s@,
            forall|k: int| i <= k < x.len() ==> is_white_space(x@[k]),
        decreases i,
    {
        i = i - 1;
    }
    proof {
        lemma_trim_end_takes(s@, i as int);
        assert(s@.take(i as int) =~= s@.subrange(0, i as int));
    }
    s.substring_char(0, i)
}

/// `s` without the white space at either end.
pub fn trim_of(s: &str) -> (r: &str)
    ensures
        r@ == trim(s@),
{
    trim_end_of(trim_start_of(s))
}

/// The pieces of `s` between one `sep` and the next.
pub fn split_at_char(s: &str, sep: char) -> (r: Vec<String>)
    ensures
        r@.map_values(|p: String| p@) == split(s@, sep),
{
    let mut out: Vec<String> = Vec::new();
    let n: usize = s.unicode_len();
    let mut from: usize = 0;
    assert(s@.skip(0) =~= s@);
    assert(out@.map_values(|p: String| p@) + split(s@, sep) =~= split(s@, sep));
    loop
        invariant
            from <= n,
            n == s@.len(),
            out@.map_values(|p: String| p@) + split(s@.skip(from as int), sep) == split(s@, sep),
        decreases n - from,
    {
        let ghost done = out@.map_values(|p: String| p@);
        let rest: &str = s.substring_char(from, n);
        assert(rest@ =~= s@.skip(from as int));
        let p: usize = find_char(rest, sep);
        let piece: String = slice(rest, 0, p);
        assert(piece@ =~= rest@.take(p as int));
        out.push(piece);
        assert(out@.map_values(|p: String| p@) =~= done.push(piece@));
        if p == n - from {
            assert(rest@.take(p as int) =~= rest@);
            assert(done + split(rest@, sep) =~= done.push(piece@));
            return out;
        }
        proof {
            assert(s@.skip(from as int).skip(p as int + 1) =~= s@.skip(from as int + p as int + 1));
            assert(done.push(piece@) + split(rest@.skip(p as int + 1), sep) =~= done + split(
                rest@,
                sep,
            ));
        }
        from = from + p + 1;
    }
}

fn digit_str(d: u64) -> (r: &'static str)
    requires
        d < 10,
    ensures
        r@ == seq![digit_char(d as int)],
{
    proof {
        reveal_strlit("0");
        reveal_strlit("1");
        reveal_strlit("2");
        reveal_strlit("3");
        reveal_strlit("4");
        reveal_strlit("5");
        reveal_strlit("6");
        reveal_strlit("7");
        reveal_strlit("8");
        reveal_strlit("9");
    }
    match d {
        0 => "0",
        1 => "1",
        2 => "2",
        3 => "3",
        4 => "4",
        5 => "5",
        6 => "6",
        7 => "7",
        8 => "8",
        _ => "9",
    }
}

/// The decimal numeral of `n`.
pub fn to_decimal(n: u64) -> (r: String)
    ensures
        r@ == decimal(n as nat),
    decreases n,
{
    if n < 10 {
        digit_str(n).to_owned()
    } else {
        let mut r: String = to_decimal(n / 10);
        r.append(digit_str(n % 10));
        assert(r@ =~= decimal(n as nat));
        r
    }
}

/// The number of the run of digits `s`, where it fits in 32 bits.
pub fn parse_digits(s: &str) -> (r: Option<u32>)
    requires
        forall|i: int| 0 <= i < s@.len() ==> is_digit(#[trigger] s@[i]),
    ensures
        r == (if digits_value(s@) <= u32::MAX {
            Some(digits_value(s@) as u32)
        } else {
            None::<u32>
        }),
{
    let x: Vec<char> = chars_of(s);
    let mut i: usize = 0;
    let mut value: u32 = 0;
    assert(s@.take(0) =~= Seq::<char>::empty());
    while i < x.len()
        invariant
            i <= x.len(),
            x@ == s@,
            value == digits_value(s@.take(i as int)),
            forall|k: int| 0 <= k < s@.len() ==> is_digit(#[trigger] s@[k]),
        decreases x.len() - i,
    {
        assert(is_digit(s@[i as int]));
        let d: u32 = x[i] as u32 - '0' as u32;
        let next: u64 = value as u64 * 10 + d as u64;
        proof {
            assert(s@.take(i + 1).drop_last() =~= s@.take(i as int));
            assert(digits_value(s@.take(i + 1)) == next);
            lemma_digits_value_grows(s@, i + 1);
        }
        if next > u32::MAX as u64 {
            return None;
        }
        value = next as u32;
        i = i + 1;
    }
    assert(s@.take(i as int) =~= s@);
    Some(value)
}

proof fn lemma_digits_value_grows(s: Seq<char>, i: int)
    requires
        0 <= i <= s.len(),
        forall|k: int| 0 <= k < s.len() ==> is_digit(#[trigger] s[k]),
    ensures
        digits_value(s.take(i)) <= digits_value(s),
    decreases s.len() - i,
{
    if i < s.len() {
        assert(is_digit(s[i]));
        assert(s.take(i + 1).drop_last() =~= s.take(i));
        lemma_digits_value_grows(s, i + 1);
    } else {
        assert(s.take(i) =~= s);
    }
}

/// The longest prefix of `s` that holds digits only.
pub fn leading_digits_of(s: &str) -> (r: &str)
    ensures
        r@ == leading_digits(s@),
        forall|i: int| 0 <= i < r@.len() ==> is_digit(#[trigger] r@[i]),
{
    let x: Vec<char> = chars_of(s);
    let mut i: usize = 0;
    while i < x.len() && '0' <= x[i] && x[i] <= '9'
        invariant
            i <= x.len(),
            x@ == s@,
            forall|k: int| 0 <= k < i ==> is_digit(x@[k]),
        decreases x.len() - i,
    {
        i = i + 1;
    }
    proof {
        lemma_leading_digits_takes(s@, i as int);
        assert(s@.take(i as int) =~= s@.subrange(0, i as int));
    }
    s.substring_char(0, i)
}

/// The text of `a` followed by that of `b`.
pub fn join(a: &str, b: &str) -> (r: String)
    ensures
        r@ == a@ + b@,
{
    let mut r: String = a.to_owned();
    r.append(b);
    r
}

/// Only the two cases of a letter of the alphabet are taken for the same.
pub proof fn law_case_is_all_that_is_ignored(a: char, b: char)
    ensures
        fold(a) == fold(b) <==> {
            ||| a == b
            ||| 'A' <= a <= 'Z' && b as int == a as int + 32
            ||| 'A' <= b <= 'Z' && a as int == b as int + 32
        },
{
}

/// Trimming takes the white space off both ends and nothing else.
pub proof fn law_trim_takes_white_space_off_both_ends(
    left: Seq<char>,
    middle: Seq<char>,
    right: Seq<char>,
)
    requires
        forall|i: int| 0 <= i < left.len() ==> is_white_space(#[trigger] left[i]),
        forall|i: int| 0 <= i < right.len() ==> is_white_space(#[trigger] right[i]),
        middle.len() > 0 ==> !is_white_space(middle.first()) && !is_white_space(middle.last()),
    ensures
        trim(left + middle + right) == middle,
{
    let s = left + middle + right;
    if middle.len() > 0 {
        let n = left.len() as int;
        assert(forall|k: int| 0 <= k < n ==> s[k] == left[k]);
        assert(s[n] == middle[0]);
        lemma_trim_start_skips(s, n);
        let t = s.skip(n);
        assert(t =~= middle + right);
        let m = middle.len() as int;
        assert forall|k: int| m <= k < t.len() implies is_white_space(t[k]) by {
            assert(t[k] == right[k - m]);
        }
        assert(t[m - 1] == middle.last());
        lemma_trim_end_takes(t, m);
        assert(t.take(m) =~= middle);
    } else {
        let n = s.len() as int;
        assert forall|k: int| 0 <= k < n implies is_white_space(s[k]) by {
            if k < left.len() {
                assert(s[k] == left[k]);
            } else {
                assert(s[k] == right[k - left.len()]);
            }
        }
        lemma_trim_start_skips(s, n);
        assert(s.skip(n) =~= Seq::<char>::empty());
        assert(middle =~= Seq::<char>::empty());
    }
}

/// A text without a separator is one piece, and the pieces of two texts with a separator
/// between them are those of the first and then those of the second.
pub proof fn law_pieces_stand_between_separators(a: Seq<char>, sep: char, b: Seq<char>)
    ensures
        !a.contains(sep) ==> split(a, sep) == seq![a],
        split(a + seq![sep] + b, sep) == split(a, sep) + split(b, sep),
    decreases a.len(),
{
    let s = a + seq![sep] + b;
    lemma_position(a, sep);
    let p = position(a, sep);
    if a.contains(sep) {
        assert(forall|i: int| 0 <= i < p ==> s[i] == a[i]);
        lemma_position_is(s, sep, p);
        let rest = a.skip(p + 1);
        law_pieces_stand_between_separators(rest, sep, b);
        assert(s.skip(p + 1) =~= rest + seq![sep] + b);
        assert(s.take(p) =~= a.take(p));
        assert(split(s, sep) =~= split(a, sep) + split(b, sep));
    } else {
        let n = a.len() as int;
        assert forall|i: int| 0 <= i < n implies s[i] != sep by {
            assert(a.contains(a[i]));
        }
        lemma_position_is(s, sep, n);
        assert(s.skip(n + 1) =~= b);
        assert(s.take(n) =~= a);
        assert(split(a, sep) =~= seq![a]);
    }
}

/// What stands before and after the first of a character, where it is the first.
pub proof fn law_text_parts_at_the_first(a: Seq<char>, c: char, b: Seq<char>)
    requires
        !a.contains(c),
    ensures
        before(a + seq![c] + b, c) == a,
        after(a + seq![c] + b, c) == b,
        before(a, c) == a,
{
    let s = a + seq![c] + b;
    let n = a.len() as int;
    assert forall|i: int| 0 <= i < n implies s[i] != c by {
        assert(a.contains(a[i]));
    }
    lemma_position_is(s, c, n);
    assert(s.take(n) =~= a);
    assert(s.skip(n + 1) =~= b);
    lemma_position(a, c);
    assert(a.take(n) =~= a);
}

/// A decimal numeral has no leading zero, but for that of zero itself.
pub proof fn law_decimal_has_no_leading_zero(n: nat)
    ensures
        n > 0 ==> decimal(n).first() != '0',
        n == 0 ==> decimal(n) == seq!['0'],
    decreases n,
{
    if n >= 10 {
        law_decimal_has_no_leading_zero(n / 10);
        lemma_decimal(n / 10);
        assert(decimal(n).first() == decimal(n / 10).first());
    }
}

/// The leading digits of a text stop at the first that is none.
pub proof fn law_leading_digits_stop_at_the_first_other(digits: Seq<char>, rest: Seq<char>)
    requires
        forall|i: int| 0 <= i < digits.len() ==> is_digit(#[trigger] digits[i]),
        rest.len() > 0 ==> !is_digit(rest.first()),
    ensures
        leading_digits(digits + rest) == digits,
{
    let s = digits + rest;
    let n = digits.len() as int;
    assert(forall|k: int| 0 <= k < n ==> s[k] == digits[k]);
    lemma_leading_digits_takes(s, n);
    assert(s.take(n) =~= digits);
}

/// Trimming the front takes the white space off the front and nothing else.
pub proof fn law_trim_start_takes_white_space_off(blank: Seq<char>, rest: Seq<char>)
    requires
        forall|i: int| 0 <= i < blank.len() ==> is_white_space(#[trigger] blank[i]),
        rest.len() > 0 ==> !is_white_space(rest.first()),
    ensures
        trim_start(blank + rest) == rest,
{
    let s = blank + rest;
    let n = blank.len() as int;
    assert(forall|k: int| 0 <= k < n ==> s[k] == blank[k]);
    lemma_trim_start_skips(s, n);
    assert(s.skip(n) =~= rest);
}

/// Trimming the end takes the white space off the end and nothing else.
pub proof fn law_trim_end_takes_white_space_off(rest: Seq<char>, blank: Seq<char>)
    requires
        forall|i: int| 0 <= i < blank.len() ==> is_white_space(#[trigger] blank[i]),
        rest.len() > 0 ==> !is_white_space(rest.last()),
    ensures
        trim_end(rest + blank) == rest,
{
    let s = rest + blank;
    let n = rest.len() as int;
    assert forall|k: int| n <= k < s.len() implies is_white_space(s[k]) by {
        assert(s[k] == blank[k - n]);
    }
    lemma_trim_end_takes(s, n);
    assert(s.take(n) =~= rest);
}

/// A text stands in another exactly where that is made of it with something before and
/// behind it.
pub proof fn law_contained_text_has_a_front_and_a_back(
    front: Seq<char>,
    needle: Seq<char>,
    back: Seq<char>,
    middle: Seq<char>,
)
    requires
        same_ignoring_case(middle, needle),
    ensures
        contains(front + needle + back, needle),
        contains_ignoring_case(front + middle + back, needle),
{
    let n = front.len() as int;
    assert((front + needle + back).subrange(n, n + needle.len()) =~= needle);
    assert(stands_at(front + needle + back, needle, n));
    assert(folded(middle).len() == folded(needle).len());
    assert((front + middle + back).subrange(n, n + needle.len()) =~= middle);
    assert(stands_at_ignoring_case(front + middle + back, needle, n));
}

/// What stands in a text stands there from some index on.
pub proof fn law_contained_text_stands_somewhere(s: Seq<char>, needle: Seq<char>)
    ensures
        contains(s, needle) ==> exists|i: int|
            0 <= i <= s.len() - needle.len() && #[trigger] s.subrange(i, i + needle.len())
                == needle,
        contains_ignoring_case(s, needle) ==> exists|i: int|
            0 <= i <= s.len() - needle.len() && same_ignoring_case(
                #[trigger] s.subrange(i, i + needle.len()),
                needle,
            ),
{
    if contains(s, needle) {
        let i = choose|i: int| #[trigger] stands_at(s, needle, i);
        assert(s.subrange(i, i + needle.len()) == needle);
    }
    if contains_ignoring_case(s, needle) {
        let i = choose|i: int| #[trigger] stands_at_ignoring_case(s, needle, i);
        assert(same_ignoring_case(s.subrange(i, i + needle.len()), needle));
    }
}

/// Which characters are white space: of those that ASCII can write, the blank and the
/// controls from the tab to the carriage return; and none that can be seen.
pub proof fn law_white_space_cannot_be_seen(c: char)
    ensures
        (c as int) < 128 ==> (is_white_space(c) <==> c as int == 32 || 9 <= c as int <= 13),
        (c as int) >= 128 ==> (is_white_space(c) <==> {
            ||| c as int == 133
            ||| c as int == 160
            ||| c as int == 5760
            ||| 8192 <= c as int <= 8202
            ||| c as int == 8232
            ||| c as int == 8233
            ||| c as int == 8239
            ||| c as int == 8287
            ||| c as int == 12288
        }),
{
}

/// A run of digits writes its number in tens: each further digit is worth its own value,
/// and ten times what stood before it.
pub proof fn law_digits_count_in_tens(s: Seq<char>, d: char)
    requires
        is_digit(d),
    ensures
        48 <= d as int <= 57,
        digits_value(Seq::empty()) == 0,
        digits_value(s.push(d)) == 10 * digits_value(s) + (d as int - 48),
{
    assert(s.push(d).drop_last() =~= s);
}

} // verus!
