//! Decimal numerals: rendering integers and reading them back.
use vstd::prelude::*;
use crate::text::{self, Text};

verus! {

/// The character of a decimal digit.
pub open spec fn digit(d: int) -> char {
    (48 + d) as char
}

/// The decimal numeral of a natural number, without leading zeros.
pub open spec fn dec_nat(n: nat) -> Text
    decreases n,
{
    if n < 10 {
        seq![digit(n as int)]
    } else {
        dec_nat(n / 10).push(digit((n % 10) as int))
    }
}

/// The decimal numeral of an integer.
pub open spec fn dec(i: int) -> Text {
    if i < 0 {
        seq!['-'] + dec_nat((-i) as nat)
    } else {
        dec_nat(i as nat)
    }
}

pub open spec fn is_digit(c: char) -> bool {
    48 <= c as int <= 57
}

pub open spec fn all_digits(t: Text) -> bool {
    forall|i: int| 0 <= i < t.len() ==> is_digit(#[trigger] t[i])
}

/// The number that a run of decimal digits stands for.
pub open spec fn digits_value(t: Text) -> nat
    decreases t.len(),
{
    if t.len() == 0 {
        0
    } else {
        digits_value(t.drop_last()) * 10 + ((t.last() as int - 48) as nat)
    }
}

/// What a signed numeral stands for: an optional sign and at least one digit.
pub open spec fn signed_value(t: Text) -> Option<int> {
    if t.len() > 0 && (t[0] == '-' || t[0] == '+') {
        let d = t.skip(1);
        if d.len() > 0 && all_digits(d) {
            Some(if t[0] == '-' { -(digits_value(d) as int) } else { digits_value(d) as int })
        } else {
            None
        }
    } else if t.len() > 0 && all_digits(t) {
        Some(digits_value(t) as int)
    } else {
        None
    }
}

/// What a numeral stands for as an `i64`, if it is one.
pub open spec fn parse_i64(t: Text) -> Option<i64> {
    match signed_value(t) {
        Some(v) => if i64::MIN <= v <= i64::MAX { Some(v as i64) } else { None },
        None => None,
    }
}

/// What a numeral without a minus sign stands for as a `usize`, if it is one.
pub open spec fn parse_usize(t: Text) -> Option<usize> {
    if t.len() > 0 && t[0] == '-' {
        None
    } else {
        match signed_value(t) {
            Some(v) => if 0 <= v <= usize::MAX { Some(v as usize) } else { None },
            None => None,
        }
    }
}

/// A numeral without a sign is a non-empty run of digits with the value it was made from.
pub proof fn lemma_dec_nat(n: nat)
    ensures
        dec_nat(n).len() > 0,
        all_digits(dec_nat(n)),
        digits_value(dec_nat(n)) == n,
    decreases n,
{
    if n < 10 {
        let t = dec_nat(n);
        assert(t.drop_last() =~= Seq::<char>::empty());
        assert(t.last() as int == 48 + n);
        assert(digits_value(t.drop_last()) == 0);
    } else {
        lemma_dec_nat(n / 10);
        let t = dec_nat(n);
        assert(t.drop_last() =~= dec_nat(n / 10));
        assert(t.last() as int == 48 + n % 10);
        assert forall|i: int| 0 <= i < t.len() implies is_digit(#[trigger] t[i]) by {
            if i < t.len() - 1 {
                assert(t[i] == dec_nat(n / 10)[i]);
            }
        }
    }
}

/// No zero stands in front of the other digits of a numeral.
pub proof fn lemma_dec_nat_leads(n: nat)
    ensures
        n == 0 <==> dec_nat(n)[0] == '0',
        dec_nat(n).len() == 1 || dec_nat(n)[0] != '0',
    decreases n,
{
    if n >= 10 {
        lemma_dec_nat(n / 10);
        lemma_dec_nat_leads(n / 10);
        assert(dec_nat(n)[0] == dec_nat(n / 10)[0]);
    }
}

/// Reading back a rendered `i64` gives the number that was rendered.
pub proof fn law_i64_round_trip(i: i64)
    ensures
        parse_i64(dec(i as int)) == Some(i),
{
    if i < 0 {
        lemma_dec_nat((-i) as nat);
        assert(dec(i as int).skip(1) =~= dec_nat((-i) as nat));
    } else {
        lemma_dec_nat(i as nat);
        assert(is_digit(dec_nat(i as nat)[0]));
    }
}

/// Reading back a rendered `usize` gives the number that was rendered.
pub proof fn law_usize_round_trip(n: usize)
    ensures
        parse_usize(dec(n as int)) == Some(n),
{
    lemma_dec_nat(n as nat);
    assert(is_digit(dec_nat(n as nat)[0]));
}

/// A text is no number where it is empty or holds anything but digits and signs.
pub proof fn law_other_texts_are_no_numbers(t: Text)
    requires
        t.len() == 0 || exists|k: int| 0 <= k < t.len() && !is_digit(#[trigger] t[k]) && t[k] != '-' && t[k] != '+',
    ensures
        parse_i64(t) is None,
        parse_usize(t) is None,
{
    if t.len() > 0 {
        let k = choose|k: int| 0 <= k < t.len() && !is_digit(#[trigger] t[k]) && t[k] != '-' && t[k] != '+';
        if t[0] == '-' || t[0] == '+' {
            assert(t.skip(1)[k - 1] == t[k]);
            assert(!all_digits(t.skip(1)));
        } else {
            assert(!all_digits(t));
        }
    }
}

/// A numeral holds no character but digits and the sign.
pub proof fn lemma_dec_lacks(i: int, c: char)
    requires
        !is_digit(c),
        c != '-',
    ensures
        !dec(i).contains(c),
{
    lemma_dec_chars(i);
}

/// A rendered integer holds digits and at most a leading minus sign.
pub proof fn lemma_dec_chars(i: int)
    ensures
        dec(i).len() > 0,
        forall|k: int| 0 <= k < dec(i).len() ==> is_digit(#[trigger] dec(i)[k]) || dec(i)[k] == '-',
{
    if i < 0 {
        lemma_dec_nat((-i) as nat);
        let t = dec_nat((-i) as nat);
        assert forall|k: int| 0 <= k < dec(i).len() implies is_digit(#[trigger] dec(i)[k]) || dec(i)[k] == '-' by {
            if k > 0 {
                assert(dec(i)[k] == t[k - 1]);
            }
        }
    } else {
        lemma_dec_nat(i as nat);
    }
}

fn digit_char(d: u8) -> (c: char)
    requires
        d < 10,
    ensures
        c == digit(d as int),
{
    match d {
        0 => '0',
        1 => '1',
        2 => '2',
        3 => '3',
        4 => '4',
        5 => '5',
        6 => '6',
        7 => '7',
        8 => '8',
        _ => '9',
    }
}

fn push_nat(s: &mut String, n: u128)
    ensures
        final(s)@ == old(s)@ + dec_nat(n as nat),
    decreases n,
{
    if n < 10 {
        s.push(digit_char(n as u8));
        assert(s@ =~= old(s)@ + dec_nat(n as nat));
    } else {
        push_nat(s, n / 10);
        s.push(digit_char((n % 10) as u8));
        assert(s@ =~= old(s)@ + dec_nat(n as nat));
    }
}

/// Appends the numeral of an integer.
pub fn push_int(s: &mut String, i: i128)
    requires
        i > i128::MIN,
    ensures
        final(s)@ == old(s)@ + dec(i as int),
{
    if i < 0 {
        s.push('-');
        push_nat(s, (-i) as u128);
        assert(s@ =~= old(s)@ + dec(i as int));
    } else {
        push_nat(s, i as u128);
    }
}

/// Appends the numeral of an `i64`.
pub fn push_i64(s: &mut String, i: i64)
    ensures
        final(s)@ == old(s)@ + dec(i as int),
{
    push_int(s, i as i128)
}

/// Appends the numeral of a `usize`.
pub fn push_usize(s: &mut String, i: usize)
    ensures
        final(s)@ == old(s)@ + dec(i as int),
{
    push_int(s, i as i128)
}

/// The numeral of an `i64`.
pub fn i64_text(i: i64) -> (r: String)
    ensures
        r@ == dec(i as int),
{
    let mut s = String::new();
    push_i64(&mut s, i);
    assert(s@ =~= dec(i as int));
    s
}

/// The value of the digits `from..`, or `None` where one is no digit or the value is above `limit`.
fn read_digits(v: &Vec<char>, from: usize, limit: u64) -> (r: Option<u64>)
    requires
        from <= v@.len(),
    ensures
        ({
            let d = v@.skip(from as int);
            r == if d.len() > 0 && all_digits(d) && digits_value(d) <= limit {
                Some(digits_value(d) as u64)
            } else {
                None
            }
        }),
{
    let ghost d = v@.skip(from as int);
    let mut acc: u64 = 0;
    let mut big: bool = false;
    let mut i: usize = from;
    while i < v.len()
        invariant
            from <= i <= v@.len(),
            d == v@.skip(from as int),
            all_digits(d.take(i - from)),
            big ==> digits_value(d.take(i - from)) > limit,
            !big ==> digits_value(d.take(i - from)) == acc && acc <= limit,
        decreases v@.len() - i,
    {
        let c = v[i];
        let ghost p = d.take(i - from);
        let ghost q = d.take(i - from + 1);
        assert(c == d[i - from]);
        assert(q.drop_last() =~= p);
        assert(q.last() == c);
        if !(c >= '0' && c <= '9') {
            assert(!is_digit(d[i - from]));
            return None;
        }
        assert(all_digits(q)) by {
            assert forall|k: int| 0 <= k < q.len() implies is_digit(#[trigger] q[k]) by {
                if k < p.len() {
                    assert(q[k] == p[k]);
                }
            }
        }
        if !big {
            let next: u128 = (acc as u128) * 10 + ((c as u32 - 48) as u128);
            if next > limit as u128 {
                big = true;
            } else {
                acc = next as u64;
            }
        }
        i = i + 1;
    }
    assert(d.take(v@.len() - from) =~= d);
    if i == from || big {
        None
    } else {
        Some(acc)
    }
}

/// Reads a signed decimal numeral.
pub fn read_i64(s: &str) -> (r: Option<i64>)
    ensures
        r == parse_i64(s@),
{
    let v = text::chars_of(s);
    if v.len() == 0 {
        return None;
    }
    let neg = v[0] == '-';
    let signed = neg || v[0] == '+';
    let start: usize = if signed { 1 } else { 0 };
    let limit: u64 = if neg { 0x8000_0000_0000_0000 } else { 0x7fff_ffff_ffff_ffff };
    assert(!signed ==> v@.skip(0) =~= v@);
    match read_digits(&v, start, limit) {
        Some(n) => {
            if neg {
                if n == 0x8000_0000_0000_0000 {
                    Some(i64::MIN)
                } else {
                    Some(-(n as i64))
                }
            } else {
                Some(n as i64)
            }
        },
        None => None,
    }
}


/// Reads an unsigned decimal numeral.
pub fn read_usize(s: &str) -> (r: Option<usize>)
    ensures
        r == parse_usize(s@),
{
    let v = text::chars_of(s);
    if v.len() == 0 {
        return None;
    }
    if v[0] == '-' {
        return None;
    }
    let start: usize = if v[0] == '+' { 1 } else { 0 };
    assert(start == 0 ==> v@.skip(0) =~= v@);
    match read_digits(&v, start, usize::MAX as u64) {
        Some(n) => Some(n as usize),
        None => None,
    }
}

} // verus!
