//! Small operations on text that the rest of the library is built from.

use vstd::prelude::*;
use vstd::string::*;
use vstd::utf8::*;

verus! {

/// The character that stands for the digit `d`.
pub open spec fn digit(d: nat) -> char
    recommends
        d < 10,
{
    if d == 0 {
        '0'
    } else if d == 1 {
        '1'
    } else if d == 2 {
        '2'
    } else if d == 3 {
        '3'
    } else if d == 4 {
        '4'
    } else if d == 5 {
        '5'
    } else if d == 6 {
        '6'
    } else if d == 7 {
        '7'
    } else if d == 8 {
        '8'
    } else {
        '9'
    }
}

/// The decimal numeral of `n`: its digits, most significant first, without
/// leading zeros.
pub open spec fn decimal(n: nat) -> Seq<char>
    decreases n,
{
    if n < 10 {
        seq![digit(n)]
    } else {
        decimal(n / 10).push(digit(n % 10))
    }
}

/// True when `needle` occurs in `hay` as a contiguous run of characters.
pub open spec fn occurs_in(needle: Seq<char>, hay: Seq<char>) -> bool {
    exists|i: int|
        0 <= i && i + needle.len() <= hay.len() && #[trigger] hay.subrange(i, i + needle.len())
            == needle
}

/// The views of a sequence of strings.
pub open spec fn texts(strings: Seq<String>) -> Seq<Seq<char>> {
    strings.map_values(|s: String| s@)
}

/// The views of a sequence of optional strings.
pub open spec fn optional_texts(strings: Seq<Option<String>>) -> Seq<Option<Seq<char>>> {
    strings.map_values(
        |s: Option<String>|
            match s {
                Some(s) => Some(s@),
                None => None,
            },
    )
}

/// The texts that are there, in order: `texts` without its `None`s.
pub open spec fn present(texts: Seq<Option<Seq<char>>>) -> Seq<Seq<char>>
    decreases texts.len(),
{
    if texts.len() == 0 {
        seq![]
    } else {
        match texts.last() {
            Some(text) => present(texts.drop_last()).push(text),
            None => present(texts.drop_last()),
        }
    }
}

/// `parts` written one after another with `separator` between each two.
pub open spec fn joined(parts: Seq<Seq<char>>, separator: Seq<char>) -> Seq<char>
    decreases parts.len(),
{
    if parts.len() == 0 {
        seq![]
    } else if parts.len() == 1 {
        parts[0]
    } else {
        joined(parts.drop_last(), separator) + separator + parts.last()
    }
}

fn digit_str(d: usize) -> (s: &'static str)
    requires
        d < 10,
    ensures
        s@ == seq![digit(d as nat)],
{
    proof {
        reveal_strlit("0");
        reveal_strlit("1");
        reveal_strlit("2");
        reveal_strlit("3");
        reveal_strlit("4");
        reveal_strlit("5");
        reveal_strlit("6");
        reveal_strlit("7");
        reveal_strlit("8");
        reveal_strlit("9");
    }
    let s = if d == 0 {
        "0"
    } else if d == 1 {
        "1"
    } else if d == 2 {
        "2"
    } else if d == 3 {
        "3"
    } else if d == 4 {
        "4"
    } else if d == 5 {
        "5"
    } else if d == 6 {
        "6"
    } else if d == 7 {
        "7"
    } else if d == 8 {
        "8"
    } else {
        "9"
    };
    assert(s@ =~= seq![digit(d as nat)]);
    s
}

/// Writes `n` in decimal.
pub fn decimal_string(n: usize) -> (s: String)
    ensures
        s@ == decimal(n as nat),
    decreases n,
{
    if n < 10 {
        digit_str(n).to_owned()
    } else {
        let mut s = decimal_string(n / 10);
        s.append(digit_str(n % 10));
        s
    }
}

/// Writes `parts` one after another with `separator` between each two.
pub fn join(parts: &Vec<String>, separator: &str) -> (text: String)
    ensures
        text@ == joined(texts(parts@), separator@),
{
    let mut text = String::new();
    let mut i: usize = 0;
    while i < parts.len()
        invariant
            i <= parts.len(),
            text@ == joined(texts(parts@).take(i as int), separator@),
        decreases parts.len() - i,
    {
        proof {
            let next = texts(parts@).take(i + 1);
            assert(next.drop_last() =~= texts(parts@).take(i as int));
            assert(next.last() == parts[i as int]@);
            if i > 0 {
                assert(text@ + separator@ + parts[i as int]@ == joined(next, separator@));
            } else {
                assert(text@ + parts[i as int]@ =~= joined(next, separator@));
            }
        }
        if i > 0 {
            text.append(separator);
        }
        text.append(parts[i].as_str());
        i += 1;
    }
    assert(texts(parts@).take(i as int) =~= texts(parts@));
    text
}

/// Compares two strings character by character.
pub fn str_eq(a: &str, b: &str) -> (same: bool)
    ensures
        same == (a@ == b@),
{
    let x = a.as_bytes();
    let y = b.as_bytes();
    proof {
        encode_utf8_decode_utf8(a@);
        encode_utf8_decode_utf8(b@);
    }
    if x.len() != y.len() {
        return false;
    }
    let mut i: usize = 0;
    while i < x.len()
        invariant
            i <= x.len(),
            x.len() == y.len(),
            forall|k: int| 0 <= k < i ==> x[k] == y[k],
            x@ == encode_utf8(a@),
            y@ == encode_utf8(b@),
            decode_utf8(encode_utf8(a@)) == a@,
            decode_utf8(encode_utf8(b@)) == b@,
        decreases x.len() - i,
    {
        if x[i] != y[i] {
            return false;
        }
        i += 1;
    }
    assert(x@ =~= y@);
    true
}

/// True of the ten digits.
pub open spec fn is_digit(c: char) -> bool {
    '0' <= c <= '9'
}

/// A decimal numeral is made of digits, and of at least one; a number of 10
/// or more takes at least two.
pub proof fn decimal_is_digits(n: nat)
    ensures
        decimal(n).len() >= 1,
        n >= 10 ==> decimal(n).len() >= 2,
        forall|i: int| 0 <= i < decimal(n).len() ==> is_digit(#[trigger] decimal(n)[i]),
    decreases n,
{
    if n >= 10 {
        decimal_is_digits(n / 10);
    }
}

/// Different numbers have different decimal numerals.
pub proof fn decimal_is_injective(a: nat, b: nat)
    requires
        decimal(a) == decimal(b),
    ensures
        a == b,
    decreases a,
{
    decimal_is_digits(a);
    decimal_is_digits(b);
    if a >= 10 && b >= 10 {
        let x = decimal(a / 10).push(digit(a % 10));
        let y = decimal(b / 10).push(digit(b % 10));
        assert(x.drop_last() =~= decimal(a / 10));
        assert(y.drop_last() =~= decimal(b / 10));
        assert(x.last() == digit(a % 10));
        assert(y.last() == digit(b % 10));
        decimal_is_injective(a / 10, b / 10);
    } else if a < 10 && b < 10 {
        assert(decimal(a)[0] == digit(a));
        assert(decimal(b)[0] == digit(b));
    }
}

/// Two texts that agree, each made of a part without the character `c` and a
/// rest that begins with `c`, agree part by part.
pub proof fn split_at_first(a: Seq<char>, rest_a: Seq<char>, b: Seq<char>, rest_b: Seq<char>, c: char)
    requires
        !a.contains(c),
        !b.contains(c),
        rest_a.len() > 0 && rest_a[0] == c,
        rest_b.len() > 0 && rest_b[0] == c,
        a + rest_a == b + rest_b,
    ensures
        a == b,
        rest_a == rest_b,
{
    let whole = a + rest_a;
    if a.len() < b.len() {
        assert(whole[a.len() as int] == c);
        assert((b + rest_b)[a.len() as int] == b[a.len() as int]);
        assert(b.contains(c));
    }
    if b.len() < a.len() {
        assert((b + rest_b)[b.len() as int] == c);
        assert(whole[b.len() as int] == a[b.len() as int]);
        assert(a.contains(c));
    }
    assert(a =~= whole.subrange(0, a.len() as int));
    assert(b =~= (b + rest_b).subrange(0, b.len() as int));
    assert(rest_a =~= whole.subrange(a.len() as int, whole.len() as int));
    assert(rest_b =~= (b + rest_b).subrange(b.len() as int, whole.len() as int));
}

/// Two texts that agree, each made of a start, the character `c`, and an end
/// without `c`, agree part by part.
pub proof fn split_at_last(a: Seq<char>, end_a: Seq<char>, b: Seq<char>, end_b: Seq<char>, c: char)
    requires
        !end_a.contains(c),
        !end_b.contains(c),
        a + seq![c] + end_a == b + seq![c] + end_b,
    ensures
        a == b,
        end_a == end_b,
{
    let whole = a + seq![c] + end_a;
    let other = b + seq![c] + end_b;
    assert(whole.len() == a.len() + 1 + end_a.len());
    assert(other.len() == b.len() + 1 + end_b.len());
    if a.len() < b.len() {
        assert(other[b.len() as int] == c);
        assert(whole[b.len() as int] == end_a[b.len() - a.len() - 1]);
        assert(end_a.contains(c));
    }
    if b.len() < a.len() {
        assert(whole[a.len() as int] == c);
        assert(other[a.len() as int] == end_b[a.len() - b.len() - 1]);
        assert(end_b.contains(c));
    }
    assert(a =~= whole.subrange(0, a.len() as int));
    assert(b =~= other.subrange(0, b.len() as int));
    assert(end_a =~= whole.subrange(a.len() as int + 1, whole.len() as int));
    assert(end_b =~= other.subrange(b.len() as int + 1, whole.len() as int));
}

/// What occurs in a text occurs in every text that is built around it.
pub proof fn occurs_in_between(needle: Seq<char>, before: Seq<char>, hay: Seq<char>, after: Seq<char>)
    requires
        occurs_in(needle, hay),
    ensures
        occurs_in(needle, before + hay + after),
{
    let i = choose|i: int|
        0 <= i && i + needle.len() <= hay.len() && #[trigger] hay.subrange(i, i + needle.len())
            == needle;
    let whole = before + hay + after;
    let k = before.len() + i;
    assert(whole.subrange(k, k + needle.len()) =~= needle);
}

/// A text occurs in itself.
pub proof fn occurs_in_itself(needle: Seq<char>)
    ensures
        occurs_in(needle, needle),
{
    assert(needle.subrange(0int, 0int + needle.len()) =~= needle);
}

} // verus!
