//! Text assembled from parts.
use vstd::prelude::*;
use vstd::string::*;
#[allow(unused_imports)]
use vstd::utf8::*;

verus! {

/// `String::from` on a string slice: the text is kept.
pub assume_specification<'a>[ <String as From<&'a str>>::from ](s: &str) -> (text: String)
    ensures
        text@ == s@,
;

/// The texts one after the other, with `separator` between neighbours.
pub open spec fn joined(parts: Seq<Seq<char>>, separator: Seq<char>) -> Seq<char>
    decreases parts.len(),
{
    if parts.len() == 0 {
        Seq::empty()
    } else if parts.len() == 1 {
        parts[0]
    } else {
        joined(parts.drop_last(), separator) + separator + parts.last()
    }
}

/// Whether two texts are the same.
pub fn same_text(a: &str, b: &str) -> (same: bool)
    ensures
        same == (a@ == b@),
{
    let left = a.as_bytes();
    let right = b.as_bytes();
    proof {
        encode_utf8_decode_utf8(a@);
        encode_utf8_decode_utf8(b@);
    }
    if left.len() != right.len() {
        return false;
    }
    let mut i: usize = 0;
    while i < left.len()
        invariant
            left@ == encode_utf8(a@),
            right@ == encode_utf8(b@),
            left@.len() == right@.len(),
            i <= left@.len(),
            forall|j: int| 0 <= j < i ==> left@[j] == right@[j],
        decreases left.len() - i,
    {
        if left[i] != right[i] {
            return false;
        }
        i = i + 1;
    }
    proof {
        assert(left@ == right@);
    }
    true
}

/// `opening`, then `closing`.
pub fn text2(opening: &str, closing: &str) -> (text: String)
    ensures
        text@ == opening@ + closing@,
{
    let mut text = opening.to_owned();
    text.append(closing);
    text
}

/// `opening`, then `middle`, then `closing`.
pub fn text3(opening: &str, middle: &str, closing: &str) -> (text: String)
    ensures
        text@ == opening@ + middle@ + closing@,
{
    let mut text = opening.to_owned();
    text.append(middle);
    text.append(closing);
    text
}

/// `opening`, `first`, `middle`, `second`.
pub fn text4(opening: &str, first: &str, middle: &str, second: &str) -> (text: String)
    ensures
        text@ == opening@ + first@ + middle@ + second@,
{
    let mut text = opening.to_owned();
    text.append(first);
    text.append(middle);
    text.append(second);
    text
}

/// Joins names with `separator` between neighbours.
pub fn join_names(names: &Vec<&'static str>, separator: &str) -> (text: String)
    ensures
        text@ == joined(names@.map_values(|name: &'static str| name@), separator@),
{
    let ghost parts = names@.map_values(|name: &'static str| name@);
    let mut text = String::new();
    let mut i: usize = 0;
    while i < names.len()
        invariant
            i <= names.len(),
            parts == names@.map_values(|name: &'static str| name@),
            text@ == joined(parts.take(i as int), separator@),
        decreases names.len() - i,
    {
        proof {
            assert(parts.take(i + 1).drop_last() == parts.take(i as int));
            assert(parts.take(i + 1).last() == names@[i as int]@);
        }
        if i > 0 {
            text.append(separator);
        }
        text.append(names[i]);
        i = i + 1;
    }
    proof {
        assert(parts.take(names.len() as int) == parts);
    }
    text
}

/// The decimal digit `d`.
pub open spec fn digit(d: int) -> char {
    if d == 0 {
        '0'
    } else if d == 1 {
        '1'
    } else if d == 2 {
        '2'
    } else if d == 3 {
        '3'
    } else if d == 4 {
        '4'
    } else if d == 5 {
        '5'
    } else if d == 6 {
        '6'
    } else if d == 7 {
        '7'
    } else if d == 8 {
        '8'
    } else {
        '9'
    }
}

/// The number in decimal digits, without leading zeros.
pub open spec fn decimal_text(n: nat) -> Seq<char>
    decreases n,
{
    if n < 10 {
        seq![digit(n as int)]
    } else {
        decimal_text(n / 10).push(digit((n % 10) as int))
    }
}

fn digit_text(d: u64) -> (text: &'static str)
    requires
        d < 10,
    ensures
        text@ == seq![digit(d as int)],
{
    proof {
        reveal_strlit("0");
        reveal_strlit("1");
        reveal_strlit("2");
        reveal_strlit("3");
        reveal_strlit("4");
        reveal_strlit("5");
        reveal_strlit("6");
        reveal_strlit("7");
        reveal_strlit("8");
        reveal_strlit("9");
    }
    if d == 0 {
        "0"
    } else if d == 1 {
        "1"
    } else if d == 2 {
        "2"
    } else if d == 3 {
        "3"
    } else if d == 4 {
        "4"
    } else if d == 5 {
        "5"
    } else if d == 6 {
        "6"
    } else if d == 7 {
        "7"
    } else if d == 8 {
        "8"
    } else {
        "9"
    }
}

/// Writes a number in decimal digits.
pub fn decimal(n: u64) -> (text: String)
    ensures
        text@ == decimal_text(n as nat),
    decreases n,
{
    if n < 10 {
        digit_text(n).to_owned()
    } else {
        let mut text = decimal(n / 10);
        let ghost head = text@;
        text.append(digit_text(n % 10));
        proof {
            assert(head + seq![digit((n % 10) as int)] == head.push(digit((n % 10) as int)));
        }
        text
    }
}

/// The number that a text of decimal digits stands for.
pub open spec fn value_of(text: Seq<char>) -> nat
    decreases text.len(),
{
    if text.len() == 0 {
        0
    } else {
        (value_of(text.drop_last()) * 10 + (text.last() as int - '0' as int)) as nat
    }
}

/// A number that is written out reads back as the same number, in digits only and without a
/// zero in front.
pub proof fn law_decimal_text_reads_back(n: nat)
    ensures
        value_of(decimal_text(n)) == n,
        decimal_text(n).len() > 0,
        forall|k: int|
            0 <= k < decimal_text(n).len() ==> '0' <= #[trigger] decimal_text(n)[k] <= '9',
        n > 0 ==> decimal_text(n)[0] != '0',
    decreases n,
{
    if n < 10 {
        let text = seq![digit(n as int)];
        assert(text.drop_last() == Seq::<char>::empty());
        assert(value_of(text.drop_last()) == 0);
        assert(text.last() == digit(n as int));
    } else {
        law_decimal_text_reads_back(n / 10);
        let head = decimal_text(n / 10);
        let text = head.push(digit((n % 10) as int));
        assert(text.drop_last() == head);
        assert(text[0] == head[0]);
    }
}

/// Joining keeps every part, with one separator less than there are parts.
pub proof fn law_joined_keeps_every_part(parts: Seq<Seq<char>>, separator: Seq<char>, last: Seq<char>)
    ensures
        joined(Seq::empty(), separator).len() == 0,
        parts.len() == 0 ==> joined(parts.push(last), separator) == last,
        parts.len() > 0 ==> joined(parts.push(last), separator) == joined(parts, separator)
            + separator + last,
{
    assert(parts.push(last).drop_last() == parts);
}

} // verus!
