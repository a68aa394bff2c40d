//! Plain text building blocks: decimal numbers, comparing and joining.

use vstd::prelude::*;

verus! {

/// `String::push` appends one character at the end of the string.
pub assume_specification[ String::push ](s: &mut String, c: char)
    ensures
        final(s)@ == old(s)@.push(c),
;

/// The contents of a list of strings.
pub open spec fn texts(list: Seq<String>) -> Seq<Seq<char>> {
    Seq::new(list.len(), |i: int| list[i]@)
}

/// The decimal digit that stands for `d`.
pub open spec fn digit_char(d: nat) -> char {
    if d == 0 {
        '0'
    } else if d == 1 {
        '1'
    } else if d == 2 {
        '2'
    } else if d == 3 {
        '3'
    } else if d == 4 {
        '4'
    } else if d == 5 {
        '5'
    } else if d == 6 {
        '6'
    } else if d == 7 {
        '7'
    } else if d == 8 {
        '8'
    } else {
        '9'
    }
}

/// The number `n` written in base ten, without leading zeros.
pub open spec fn decimal(n: nat) -> Seq<char>
    decreases n,
{
    if n < 10 {
        seq![digit_char(n)]
    } else {
        decimal(n / 10).push(digit_char(n % 10))
    }
}

/// A signed number in base ten, with a minus sign in front when it is negative.
pub open spec fn signed_decimal(n: int) -> Seq<char> {
    if n < 0 {
        "-"@ + decimal((-n) as nat)
    } else {
        decimal(n as nat)
    }
}

fn digit(d: u8) -> (c: char)
    requires
        d < 10,
    ensures
        c == digit_char(d as nat),
{
    match d {
        0 => '0',
        1 => '1',
        2 => '2',
        3 => '3',
        4 => '4',
        5 => '5',
        6 => '6',
        7 => '7',
        8 => '8',
        _ => '9',
    }
}

/// Appends `n` in base ten.
pub fn push_decimal(out: &mut String, n: u128)
    ensures
        final(out)@ == old(out)@ + decimal(n as nat),
    decreases n,
{
    if n >= 10 {
        push_decimal(out, n / 10);
    }
    out.push(digit((n % 10) as u8));
}

/// `n` in base ten.
pub fn decimal_text(n: u128) -> (r: String)
    ensures
        r@ == decimal(n as nat),
{
    let mut out = String::new();
    push_decimal(&mut out, n);
    out
}

/// A signed number in base ten.
pub fn signed_decimal_text(n: i64) -> (r: String)
    ensures
        r@ == signed_decimal(n as int),
{
    let mut out = String::new();
    if n < 0 {
        out.append("-");
        push_decimal(&mut out, (-(n as i128)) as u128);
    } else {
        push_decimal(&mut out, n as u128);
    }
    out
}

/// Whether two texts are the same.
pub fn same_text(a: &str, b: &str) -> (r: bool)
    ensures
        r == (a@ == b@),
{
    a.to_owned() == b.to_owned()
}

/// Whether `text` begins with `prefix`.
pub open spec fn has_prefix(text: Seq<char>, prefix: Seq<char>) -> bool {
    prefix.len() <= text.len() && text.take(prefix.len() as int) == prefix
}

/// Whether `text` begins with `prefix`.
pub fn starts_with(text: &str, prefix: &str) -> (r: bool)
    ensures
        r == has_prefix(text@, prefix@),
{
    let n: usize = prefix.unicode_len();
    if text.unicode_len() < n {
        return false;
    }
    same_text(text.substring_char(0, n), prefix)
}

/// The characters of a text, one by one.
pub fn characters(text: &str) -> (r: Vec<char>)
    ensures
        r@ == text@,
{
    let mut out: Vec<char> = Vec::new();
    for c in it: text.chars()
        invariant
            out@ == it.seq().take(it.index() as int),
    {
        out.push(c);
        assert(it.seq().take(it.index() + 1) == it.seq().take(it.index() as int).push(c));
    }
    assert(out@ == text@);
    out
}

/// The parts one after another, with `separator` between neighbours.
pub open spec fn joined(parts: Seq<Seq<char>>, separator: Seq<char>) -> Seq<char>
    decreases parts.len(),
{
    if parts.len() <= 1 {
        if parts.len() == 1 {
            parts[0]
        } else {
            Seq::empty()
        }
    } else {
        joined(parts.drop_last(), separator) + separator + parts.last()
    }
}

/// The parts one after another, with `separator` between neighbours.
pub fn join(parts: &Vec<String>, separator: &str) -> (r: String)
    ensures
        r@ == joined(texts(parts@), separator@),
{
    let mut out = String::new();
    let mut i: usize = 0;
    while i < parts.len()
        invariant
            i <= parts.len(),
            out@ == joined(texts(parts@).take(i as int), separator@),
        decreases parts.len() - i,
    {
        let ghost seen = texts(parts@).take(i + 1);
        assert(seen.drop_last() == texts(parts@).take(i as int));
        if i > 0 {
            out.append(separator);
        } else {
            assert(out@ + parts[0]@ == parts[0]@);
        }
        out.append(parts[i].as_str());
        i += 1;
    }
    assert(texts(parts@).take(i as int) == texts(parts@));
    out
}

/// A text begins with another exactly if it is that text with something behind it.
pub proof fn a_prefix_is_followed_by_the_rest(text: Seq<char>, prefix: Seq<char>)
    ensures
        has_prefix(text, prefix) <==> exists|rest: Seq<char>| text == prefix + rest,
{
    if has_prefix(text, prefix) {
        assert(text =~= prefix + text.skip(prefix.len() as int));
    }
    if exists|rest: Seq<char>| text == prefix + rest {
        let rest = choose|rest: Seq<char>| text == prefix + rest;
        assert((prefix + rest).take(prefix.len() as int) =~= prefix);
    }
}

/// Joining goes on from what was joined: one more part adds the separator and the part. No part
/// is left out or changed, and there is no separator at the ends.
pub proof fn joining_adds_each_part(parts: Seq<Seq<char>>, part: Seq<char>, separator: Seq<char>)
    ensures
        joined(Seq::empty(), separator) == Seq::<char>::empty(),
        joined(seq![part], separator) == part,
        parts.len() > 0 ==> joined(parts.push(part), separator) == joined(parts, separator)
            + separator + part,
{
    assert(parts.push(part).drop_last() =~= parts);
}

/// A number is written with its last digit last, and with the number without that digit before it.
pub proof fn digits_are_written_in_order(n: nat, d: nat)
    requires
        d < 10,
        n > 0,
    ensures
        decimal(10 * n + d) == decimal(n) + decimal(d),
        decimal(d).len() == 1,
        decimal(d)[0] as int == '0' as int + d,
{
    assert((10 * n + d) / 10 == n && (10 * n + d) % 10 == d);
    assert(decimal(10 * n + d) =~= decimal(n) + decimal(d));
}

/// A negative number is its absolute value with a minus sign in front.
pub proof fn signs_are_written_in_front(n: nat)
    ensures
        signed_decimal(n as int) == decimal(n),
        n > 0 ==> signed_decimal(-(n as int)) == seq!['-'] + decimal(n),
{
    reveal_strlit("-");
    assert("-"@ =~= seq!['-']);
}

/// The first digit of a number is not zero, unless it is its only one.
pub proof fn numbers_have_no_leading_zero(n: nat)
    requires
        n > 0,
    ensures
        decimal(n).len() > 0,
        decimal(n)[0] != '0',
    decreases n,
{
    if n >= 10 {
        numbers_have_no_leading_zero(n / 10);
    }
}

/// Different numbers are written differently.
pub proof fn numbers_are_told_apart(a: nat, b: nat)
    requires
        decimal(a) == decimal(b),
    ensures
        a == b,
    decreases a,
{
    decimal_is_not_empty(a);
    decimal_is_not_empty(b);
    let x = decimal(a);
    let y = decimal(b);
    assert(x.last() == digit_char(a % 10) && y.last() == digit_char(b % 10));
    assert(a % 10 == b % 10);
    if a < 10 && b >= 10 {
        decimal_is_not_empty(b / 10);
    } else if a >= 10 && b < 10 {
        decimal_is_not_empty(a / 10);
    } else if a >= 10 {
        assert(x.drop_last() =~= decimal(a / 10));
        assert(y.drop_last() =~= decimal(b / 10));
        numbers_are_told_apart(a / 10, b / 10);
    }
}

proof fn decimal_is_not_empty(n: nat)
    ensures
        decimal(n).len() > 0,
        n < 10 ==> decimal(n).len() == 1,
        decimal(n).last() == digit_char(n % 10),
    decreases n,
{
    if n >= 10 {
        decimal_is_not_empty(n / 10);
    }
}

/// Whether a text has a part in it: a label, and directly behind it a value.
pub open spec fn shows(text: Seq<char>, label: Seq<char>, value: Seq<char>) -> bool {
    exists|before: Seq<char>, after: Seq<char>|
        text == #[trigger] before.add(label).add(value).add(after)
}

/// A text shows what it ends with.
pub broadcast proof fn the_end_is_shown(before: Seq<char>, label: Seq<char>, value: Seq<char>)
    ensures
        #[trigger] shows(before.add(label).add(value), label, value),
{
    assert(before.add(label).add(value) =~= before.add(label).add(value).add(Seq::empty()));
}

/// A text shows what it begins with.
pub broadcast proof fn the_start_is_shown(label: Seq<char>, value: Seq<char>)
    ensures
        #[trigger] shows(label.add(value), label, value),
{
    assert(label.add(value) =~= Seq::empty().add(label).add(value).add(Seq::empty()));
}

/// What is shown stays shown when something is added behind it.
pub broadcast proof fn additions_hide_nothing(
    text: Seq<char>,
    label: Seq<char>,
    value: Seq<char>,
    tail: Seq<char>,
)
    requires
        shows(text, label, value),
    ensures
        #[trigger] shows(text.add(tail), label, value),
{
    let (before, after) = choose|before: Seq<char>, after: Seq<char>|
        text == #[trigger] before.add(label).add(value).add(after);
    assert(text.add(tail) =~= before.add(label).add(value).add(after.add(tail)));
}

/// A list of texts is viewed item by item, and none is left out.
pub proof fn lists_are_viewed_item_by_item(list: Seq<String>, i: int)
    ensures
        texts(list).len() == list.len(),
        0 <= i < list.len() ==> texts(list)[i] == list[i]@,
{
}

/// Different numbers are written differently, whatever their signs.
pub proof fn signed_numbers_are_told_apart(a: int, b: int)
    requires
        signed_decimal(a) == signed_decimal(b),
    ensures
        a == b,
{
    reveal_strlit("-");
    let x = signed_decimal(a);
    let y = signed_decimal(b);
    if a < 0 {
        assert(x[0] == '-');
        assert(x.skip(1) =~= decimal((-a) as nat));
    } else {
        numbers_begin_with_a_digit(a as nat);
    }
    if b < 0 {
        assert(y[0] == '-');
        assert(y.skip(1) =~= decimal((-b) as nat));
    } else {
        numbers_begin_with_a_digit(b as nat);
    }
    if a < 0 && b < 0 {
        numbers_are_told_apart((-a) as nat, (-b) as nat);
    } else if a >= 0 && b >= 0 {
        numbers_are_told_apart(a as nat, b as nat);
    }
}

proof fn numbers_begin_with_a_digit(n: nat)
    ensures
        decimal(n).len() > 0,
        '0' <= decimal(n)[0] && decimal(n)[0] <= '9',
    decreases n,
{
    if n >= 10 {
        numbers_begin_with_a_digit(n / 10);
    }
}

} // verus!
