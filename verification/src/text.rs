//! Character-level text utilities: conversion between `String` and
//! `Vec<char>`, decimal printing and scanning, trimming and line
//! splitting. All logic works on character sequences.
use vstd::prelude::*;
use vstd::std_specs::iter::IteratorSpec;

verus! {

/// The characters of a string slice, in order.
pub fn chars_vec(s: &str) -> (r: Vec<char>)
    ensures
        r@ == s@,
{
    broadcast use vstd::string::next_postcondition;

    let mut it = s.chars();
    proof {
        vstd::string::axiom_spec_iter(s);
    }
    let mut r: Vec<char> = Vec::new();
    loop
        invariant_except_break
            it.obeys_prophetic_iter_laws(),
            it.decrease() is Some,
            r@ + it.remaining() == s@,
        ensures
            r@ == s@,
        decreases it.decrease()->0,
    {
        let ghost prev = it;
        match it.next() {
            Some(c) => {
                r.push(c);
                proof {
                    assert(prev.remaining() =~= seq![c] + it.remaining());
                    assert(r@ + it.remaining() =~= s@);
                }
            },
            None => {
                proof {
                    assert(r@ =~= s@);
                }
                break ;
            },
        }
    }
    r
}

/// Relies on `String::push`: appends one character to the string.
#[verifier::external_body]
fn push_char(s: &mut String, c: char)
    ensures
        final(s)@ == old(s)@.push(c),
{
    s.push(c)
}

/// A string whose characters are exactly those of the vector.
pub fn string_from_chars(v: &Vec<char>) -> (r: String)
    ensures
        r@ == v@,
{
    let mut r = String::new();
    let mut i: usize = 0;
    while i < v.len()
        invariant
            i <= v@.len(),
            r@ == v@.subrange(0, i as int),
        decreases v@.len() - i,
    {
        push_char(&mut r, v[i]);
        i = i + 1;
        proof {
            assert(r@ =~= v@.subrange(0, i as int));
        }
    }
    proof {
        assert(v@.subrange(0, v@.len() as int) =~= v@);
    }
    r
}

/// Whether a character counts as trimmable whitespace: the blank, tab,
/// line feed and carriage return that command output and declared SQL
/// types carry. Unicode whitespace beyond these four is kept; the
/// trimming here is deliberately narrower than full Unicode trimming.
pub open spec fn spec_is_space(c: char) -> bool {
    c == ' ' || c == '\t' || c == '\n' || c == '\r'
}

/// The number of leading whitespace characters.
pub open spec fn spec_leading_spaces(s: Seq<char>) -> int
    decreases s.len(),
{
    if s.len() == 0 || !spec_is_space(s[0]) {
        0
    } else {
        1 + spec_leading_spaces(s.drop_first())
    }
}

/// The number of trailing whitespace characters.
pub open spec fn spec_trailing_spaces(s: Seq<char>) -> int
    decreases s.len(),
{
    if s.len() == 0 || !spec_is_space(s.last()) {
        0
    } else {
        1 + spec_trailing_spaces(s.drop_last())
    }
}

/// The string without leading and trailing whitespace.
pub open spec fn spec_trim(s: Seq<char>) -> Seq<char> {
    let a = spec_leading_spaces(s);
    let b = spec_trailing_spaces(s);
    if a + b <= s.len() {
        s.subrange(a, s.len() - b)
    } else {
        Seq::empty()
    }
}

/// Whether a character counts as trimmable whitespace.
pub fn is_space(c: char) -> (r: bool)
    ensures
        r == spec_is_space(c),
{
    c == ' ' || c == '\t' || c == '\n' || c == '\r'
}

/// The leading-space count is in range and marks the first non-space.
proof fn lemma_leading_spaces(s: Seq<char>)
    ensures
        0 <= spec_leading_spaces(s) <= s.len(),
        forall|i: int| 0 <= i < spec_leading_spaces(s) ==> spec_is_space(#[trigger] s[i]),
        spec_leading_spaces(s) < s.len() ==> !spec_is_space(s[spec_leading_spaces(s)]),
    decreases s.len(),
{
    if s.len() > 0 && spec_is_space(s[0]) {
        lemma_leading_spaces(s.drop_first());
        assert forall|i: int|
            0 <= i < spec_leading_spaces(s) implies spec_is_space(#[trigger] s[i]) by {
            if i > 0 {
                assert(s[i] == s.drop_first()[i - 1]);
            }
        }
        if spec_leading_spaces(s) < s.len() {
            assert(s[spec_leading_spaces(s)] == s.drop_first()[spec_leading_spaces(s) - 1]);
        }
    }
}

/// The trailing-space count is in range and marks the last non-space.
proof fn lemma_trailing_spaces(s: Seq<char>)
    ensures
        0 <= spec_trailing_spaces(s) <= s.len(),
        forall|i: int|
            s.len() - spec_trailing_spaces(s) <= i < s.len() ==> spec_is_space(#[trigger] s[i]),
        spec_trailing_spaces(s) < s.len() ==> !spec_is_space(
            s[s.len() - spec_trailing_spaces(s) - 1],
        ),
    decreases s.len(),
{
    if s.len() > 0 && spec_is_space(s.last()) {
        lemma_trailing_spaces(s.drop_last());
        assert forall|i: int|
            s.len() - spec_trailing_spaces(s) <= i < s.len() implies spec_is_space(
            #[trigger] s[i],
        ) by {
            if i < s.len() - 1 {
                assert(s[i] == s.drop_last()[i]);
            }
        }
        if spec_trailing_spaces(s) < s.len() {
            assert(s[s.len() - spec_trailing_spaces(s) - 1] == s.drop_last()[s.len()
                - spec_trailing_spaces(s) - 1]);
        }
    }
}

/// Leading and trailing whitespace never overlap on a string with a
/// non-space character; on an all-space string trimming yields nothing.
proof fn lemma_trim_bounds(s: Seq<char>)
    ensures
        spec_leading_spaces(s) + spec_trailing_spaces(s) > s.len() ==> forall|i: int|
            0 <= i < s.len() ==> spec_is_space(#[trigger] s[i]),
{
    lemma_leading_spaces(s);
    lemma_trailing_spaces(s);
    if spec_leading_spaces(s) + spec_trailing_spaces(s) > s.len() {
        assert forall|i: int| 0 <= i < s.len() implies spec_is_space(#[trigger] s[i]) by {
            if i < spec_leading_spaces(s) {
            } else {
                assert(i >= s.len() - spec_trailing_spaces(s));
            }
        }
    }
}

/// The characters without leading and trailing whitespace.
pub fn trim_chars(v: &Vec<char>) -> (r: Vec<char>)
    ensures
        r@ == spec_trim(v@),
{
    proof {
        lemma_leading_spaces(v@);
        lemma_trailing_spaces(v@);
        lemma_trim_bounds(v@);
    }
    let n = v.len();
    let mut a: usize = 0;
    while a < n && is_space(v[a])
        invariant
            0 <= a <= n,
            n == v@.len(),
            a <= spec_leading_spaces(v@),
            forall|i: int| 0 <= i < a ==> spec_is_space(#[trigger] v@[i]),
        decreases n - a,
    {
        proof {
            if a == spec_leading_spaces(v@) {
                lemma_leading_spaces(v@);
                assert(false);
            }
        }
        a = a + 1;
    }
    proof {
        lemma_leading_spaces(v@);
        assert(a == spec_leading_spaces(v@));
    }
    let mut b: usize = n;
    while b > a && is_space(v[b - 1])
        invariant
            a <= b <= n,
            n == v@.len(),
            a == spec_leading_spaces(v@),
            forall|i: int| b <= i < n ==> spec_is_space(#[trigger] v@[i]),
        decreases b,
    {
        b = b - 1;
    }
    proof {
        lemma_leading_spaces(v@);
        lemma_trailing_spaces(v@);
        lemma_spaces_suffix(v@, n - b);
        if b > a {
            // the loop stopped on a non-space, so the trailing run ends here
            assert(!spec_is_space(v@[b as int - 1]));
            if spec_trailing_spaces(v@) > n - b {
                assert(spec_is_space(v@[b as int - 1]));
            }
            assert(spec_trailing_spaces(v@) == n - b);
            assert(v@.subrange(a as int, b as int) =~= spec_trim(v@));
        } else {
            // everything from the leading run on is whitespace
            assert forall|i: int| 0 <= i < v@.len() implies spec_is_space(#[trigger] v@[i]) by {
                if i >= a {
                    assert(spec_is_space(v@[i]));
                }
            }
            lemma_spaces_suffix(v@, n as int);
            if n > 0 {
                assert(spec_trailing_spaces(v@) == n);
                if a + n <= n {
                    assert(a == 0);
                    assert(v@.subrange(0, 0) =~= spec_trim(v@));
                } else {
                    assert(Seq::<char>::empty() =~= spec_trim(v@));
                }
            } else {
                assert(v@.subrange(0, 0) =~= spec_trim(v@));
            }
            assert(v@.subrange(a as int, b as int) =~= spec_trim(v@));
        }
    }
    let mut r: Vec<char> = Vec::new();
    let mut i: usize = a;
    while i < b
        invariant
            a <= i <= b <= n,
            n == v@.len(),
            r@ =~= v@.subrange(a as int, i as int),
        decreases b - i,
    {
        r.push(v[i]);
        i = i + 1;
        proof {
            assert(r@ =~= v@.subrange(a as int, i as int));
        }
    }
    proof {
        assert(r@ =~= v@.subrange(a as int, b as int));
    }
    r
}

/// A whitespace suffix is counted by the trailing-space count.
proof fn lemma_spaces_suffix(s: Seq<char>, k: int)
    requires
        0 <= k <= s.len(),
        forall|i: int| s.len() - k <= i < s.len() ==> spec_is_space(#[trigger] s[i]),
    ensures
        spec_trailing_spaces(s) >= k,
    decreases k,
{
    lemma_trailing_spaces(s);
    if k > 0 {
        assert(spec_is_space(s.last()));
        assert forall|i: int|
            s.drop_last().len() - (k - 1) <= i < s.drop_last().len() implies spec_is_space(
            #[trigger] s.drop_last()[i],
        ) by {
            assert(s.drop_last()[i] == s[i]);
        }
        lemma_spaces_suffix(s.drop_last(), k - 1);
        assert(spec_trailing_spaces(s) == 1 + spec_trailing_spaces(s.drop_last()));
    }
}

/// The string without leading and trailing whitespace.
pub fn trim_text(s: &str) -> (r: String)
    ensures
        r@ == spec_trim(s@),
{
    let v = chars_vec(s);
    let t = trim_chars(&v);
    string_from_chars(&t)
}

/// The characters of each string, in order.
pub open spec fn str_views(s: Seq<String>) -> Seq<Seq<char>> {
    Seq::new(s.len(), |i: int| s[i]@)
}

/// The position of the first line feed, or the length when there is none.
pub open spec fn spec_find_nl(s: Seq<char>) -> int
    decreases s.len(),
{
    if s.len() == 0 {
        0
    } else if s[0] == '\n' {
        0
    } else {
        1 + spec_find_nl(s.drop_first())
    }
}

/// A line without its trailing carriage return.
pub open spec fn spec_strip_cr(l: Seq<char>) -> Seq<char> {
    if l.len() > 0 && l.last() == '\r' {
        l.drop_last()
    } else {
        l
    }
}

/// The lines of a text: split at each line feed, a carriage return
/// before the line feed stripped, the final line ending optional.
pub open spec fn spec_lines(s: Seq<char>) -> Seq<Seq<char>>
    decreases s.len(),
{
    if s.len() == 0 {
        Seq::empty()
    } else {
        let i = spec_find_nl(s);
        if 0 <= i && i < s.len() {
            seq![spec_strip_cr(s.take(i))] + spec_lines(s.skip(i + 1))
        } else {
            seq![s]
        }
    }
}

/// The first-line-feed position is in range, everything before it is not
/// a line feed, and in range it marks one.
proof fn lemma_find_nl(s: Seq<char>)
    ensures
        0 <= spec_find_nl(s) <= s.len(),
        forall|i: int| 0 <= i < spec_find_nl(s) ==> s[i] != '\n',
        spec_find_nl(s) < s.len() ==> s[spec_find_nl(s)] == '\n',
    decreases s.len(),
{
    if s.len() > 0 && s[0] != '\n' {
        lemma_find_nl(s.drop_first());
        assert forall|i: int| 0 <= i < spec_find_nl(s) implies s[i] != '\n' by {
            if i > 0 {
                assert(s[i] == s.drop_first()[i - 1]);
            }
        }
        if spec_find_nl(s) < s.len() {
            assert(s[spec_find_nl(s)] == s.drop_first()[spec_find_nl(s) - 1]);
        }
    }
}

/// The position of the first line feed at or after a start index.
fn find_nl(v: &Vec<char>, from: usize) -> (r: usize)
    requires
        from <= v@.len(),
    ensures
        from <= r <= v@.len(),
        r - from == spec_find_nl(v@.skip(from as int)),
{
    let mut i: usize = from;
    while i < v.len() && v[i] != '\n'
        invariant
            from <= i <= v@.len(),
            forall|j: int| from <= j < i ==> v@[j] != '\n',
        decreases v@.len() - i,
    {
        i = i + 1;
    }
    proof {
        let t = v@.skip(from as int);
        lemma_find_nl(t);
        let k = spec_find_nl(t);
        assert forall|j: int| 0 <= j < t.len() implies t[j] == v@[from + j] by {}
        if k < i - from {
            assert(v@[from + k] == '\n');
        }
        if k > i - from {
            assert(i < v@.len());
            assert(t[i - from] == '\n');
        }
    }
    i
}

/// The lines of a text, split at line feeds, carriage returns before a
/// line feed stripped, the final line ending optional.
pub fn split_lines(text: &str) -> (r: Vec<String>)
    ensures
        str_views(r@) == spec_lines(text@),
{
    let v = chars_vec(text);
    let mut r: Vec<String> = Vec::new();
    let mut pos: usize = 0;
    proof {
        assert(v@.skip(0) =~= v@);
        assert(str_views(r@) =~= Seq::<Seq<char>>::empty());
    }
    while pos < v.len()
        invariant
            pos <= v@.len(),
            v@ == text@,
            spec_lines(text@) =~= str_views(r@) + spec_lines(v@.skip(pos as int)),
        decreases v@.len() - pos,
    {
        let ghost old_r = r@;
        let ghost rest = v@.skip(pos as int);
        let i = find_nl(&v, pos);
        let mut line: Vec<char> = Vec::new();
        let mut k: usize = pos;
        let stop: usize = if i < v.len() && i > pos && v[i - 1] == '\r' {
            i - 1
        } else {
            i
        };
        while k < stop
            invariant
                pos <= k <= stop <= v@.len(),
                line@ =~= v@.subrange(pos as int, k as int),
            decreases stop - k,
        {
            line.push(v[k]);
            k = k + 1;
            proof {
                assert(line@ =~= v@.subrange(pos as int, k as int));
            }
        }
        r.push(string_from_chars(&line));
        proof {
            assert(rest.take(i - pos) =~= v@.subrange(pos as int, i as int));
            if i < v@.len() {
                assert(spec_lines(rest) =~= seq![spec_strip_cr(rest.take(i - pos))]
                    + spec_lines(rest.skip(i - pos + 1)));
                if i > pos && v@[i - 1] == '\r' {
                    assert(spec_strip_cr(rest.take(i - pos)) =~= v@.subrange(
                        pos as int,
                        i - 1,
                    ));
                } else {
                    assert(spec_strip_cr(rest.take(i - pos)) =~= v@.subrange(pos as int, i as int));
                }
                assert(rest.skip(i - pos + 1) =~= v@.skip(i + 1));
            } else {
                assert(i == v@.len());
                assert(rest.take(i - pos) =~= rest);
                assert(spec_lines(rest) =~= seq![rest]);
                assert(line@ =~= rest);
            }
            assert(str_views(r@) =~= str_views(old_r).push(line@));
        }
        if i < v.len() {
            pos = i + 1;
            proof {
                assert(spec_lines(text@) =~= str_views(r@) + spec_lines(v@.skip(pos as int)));
            }
        } else {
            pos = v.len();
            proof {
                assert(v@.skip(pos as int) =~= Seq::<char>::empty());
                assert(spec_lines(text@) =~= str_views(r@) + spec_lines(v@.skip(pos as int)));
            }
        }
    }
    proof {
        assert(v@.skip(pos as int) =~= Seq::<char>::empty());
        assert(spec_lines(text@) =~= str_views(r@));
    }
    r
}

/// Whether two string slices hold the same characters.
pub fn str_eq(a: &str, b: &str) -> (r: bool)
    ensures
        r == (a@ == b@),
{
    let va = chars_vec(a);
    let vb = chars_vec(b);
    if va.len() != vb.len() {
        proof {
            assert(a@.len() != b@.len());
        }
        return false;
    }
    let mut i: usize = 0;
    while i < va.len()
        invariant
            i <= va@.len(),
            va@.len() == vb@.len(),
            va@ == a@,
            vb@ == b@,
            forall|j: int| 0 <= j < i ==> va@[j] == vb@[j],
        decreases va@.len() - i,
    {
        if va[i] != vb[i] {
            return false;
        }
        i = i + 1;
    }
    proof {
        assert(a@ =~= b@);
    }
    true
}

/// Whether a character is a decimal digit.
pub open spec fn spec_is_digit(c: char) -> bool {
    c == '0' || c == '1' || c == '2' || c == '3' || c == '4' || c == '5' || c == '6' || c == '7'
        || c == '8' || c == '9'
}

/// The numeric value of a decimal digit character.
pub open spec fn spec_digit_val(c: char) -> int {
    if c == '0' {
        0
    } else if c == '1' {
        1
    } else if c == '2' {
        2
    } else if c == '3' {
        3
    } else if c == '4' {
        4
    } else if c == '5' {
        5
    } else if c == '6' {
        6
    } else if c == '7' {
        7
    } else if c == '8' {
        8
    } else {
        9
    }
}

/// The decimal digit character for a value below ten.
pub open spec fn spec_digit_char(d: int) -> char {
    if d == 0 {
        '0'
    } else if d == 1 {
        '1'
    } else if d == 2 {
        '2'
    } else if d == 3 {
        '3'
    } else if d == 4 {
        '4'
    } else if d == 5 {
        '5'
    } else if d == 6 {
        '6'
    } else if d == 7 {
        '7'
    } else if d == 8 {
        '8'
    } else {
        '9'
    }
}

/// The decimal digits of a natural number, most significant first.
pub open spec fn spec_digits(n: nat) -> Seq<char>
    decreases n,
{
    if n < 10 {
        seq![spec_digit_char(n as int)]
    } else {
        spec_digits(n / 10).push(spec_digit_char((n % 10) as int))
    }
}

/// The value of a digit sequence read as a decimal number.
pub open spec fn spec_digits_value(s: Seq<char>) -> int
    decreases s.len(),
{
    if s.len() == 0 {
        0
    } else {
        spec_digits_value(s.drop_last()) * 10 + spec_digit_val(s.last())
    }
}

/// Every character printed for a number is a decimal digit.
pub proof fn lemma_digits_are_digits(n: nat)
    ensures
        forall|i: int| 0 <= i < spec_digits(n).len() ==> spec_is_digit(#[trigger] spec_digits(n)[i]),
        spec_digits(n).len() >= 1,
    decreases n,
{
    if n >= 10 {
        lemma_digits_are_digits(n / 10);
    }
}

/// Reading back the printed digits of a number yields the number.
pub proof fn lemma_digits_round_trip(n: nat)
    ensures
        spec_digits_value(spec_digits(n)) == n,
    decreases n,
{
    if n < 10 {
        assert(spec_digits(n) =~= seq![spec_digit_char(n as int)]);
        assert(spec_digits(n).drop_last() =~= Seq::<char>::empty());
        assert(spec_digit_val(spec_digit_char(n as int)) == n);
        assert(spec_digits(n).last() == spec_digit_char(n as int));
        assert(spec_digits_value(Seq::<char>::empty()) == 0);
        assert(spec_digits_value(spec_digits(n)) == spec_digit_val(spec_digit_char(n as int)));
    } else {
        lemma_digits_round_trip(n / 10);
        assert(spec_digits(n).drop_last() =~= spec_digits(n / 10));
        assert(spec_digits(n).last() == spec_digit_char((n % 10) as int));
        assert(spec_digit_val(spec_digit_char((n % 10) as int)) == n % 10);
        assert(spec_digits_value(spec_digits(n)) == spec_digits_value(spec_digits(n / 10)) * 10 + (
        n % 10));
        assert(spec_digits_value(spec_digits(n)) == n) by {
            vstd::arithmetic::div_mod::lemma_fundamental_div_mod(n as int, 10);
        }
    }
}

/// The numeric value of a decimal digit character.
pub fn digit_val(c: char) -> (d: u32)
    requires
        spec_is_digit(c),
    ensures
        d == spec_digit_val(c),
        d < 10,
{
    if c == '0' {
        0
    } else if c == '1' {
        1
    } else if c == '2' {
        2
    } else if c == '3' {
        3
    } else if c == '4' {
        4
    } else if c == '5' {
        5
    } else if c == '6' {
        6
    } else if c == '7' {
        7
    } else if c == '8' {
        8
    } else {
        9
    }
}

/// The decimal digit character of a value below ten.
pub fn digit_char(d: u64) -> (c: char)
    requires
        d < 10,
    ensures
        c == spec_digit_char(d as int),
{
    if d == 0 {
        '0'
    } else if d == 1 {
        '1'
    } else if d == 2 {
        '2'
    } else if d == 3 {
        '3'
    } else if d == 4 {
        '4'
    } else if d == 5 {
        '5'
    } else if d == 6 {
        '6'
    } else if d == 7 {
        '7'
    } else if d == 8 {
        '8'
    } else {
        '9'
    }
}

/// The decimal digits of a number, most significant first.
pub fn to_decimal(n: u64) -> (r: Vec<char>)
    ensures
        r@ == spec_digits(n as nat),
{
    let mut rev: Vec<char> = Vec::new();
    let mut m: u64 = n;
    while m >= 10
        invariant
            spec_digits(n as nat) =~= spec_digits(m as nat) + rev@.reverse(),
        decreases m,
    {
        let ghost old_rev = rev@;
        let ghost old_m = m as nat;
        rev.push(digit_char(m % 10));
        m = m / 10;
        proof {
            assert(spec_digits(old_m) =~= spec_digits(old_m / 10).push(
                spec_digit_char((old_m % 10) as int),
            ));
            assert(rev@.reverse() =~= seq![spec_digit_char((old_m % 10) as int)]
                + old_rev.reverse());
            assert(spec_digits(m as nat) + rev@.reverse() =~= spec_digits(old_m)
                + old_rev.reverse());
        }
    }
    let ghost old_rev = rev@;
    rev.push(digit_char(m));
    proof {
        assert(spec_digits(m as nat) =~= seq![spec_digit_char(m as int)]);
        assert(rev@.reverse() =~= seq![spec_digit_char(m as int)] + old_rev.reverse());
        assert(spec_digits(n as nat) =~= rev@.reverse());
    }
    let mut r: Vec<char> = Vec::new();
    let mut i: usize = rev.len();
    while i > 0
        invariant
            i <= rev@.len(),
            r@ =~= rev@.subrange(i as int, rev@.len() as int).reverse(),
        decreases i,
    {
        i = i - 1;
        r.push(rev[i]);
        proof {
            assert(rev@.subrange(i as int, rev@.len() as int).reverse() =~= rev@.subrange(
                i + 1,
                rev@.len() as int,
            ).reverse().push(rev@[i as int]));
        }
    }
    proof {
        assert(rev@.subrange(0, rev@.len() as int) =~= rev@);
    }
    r
}

} // verus!
