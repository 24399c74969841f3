//! JSON texts: how they are put together, and what counts as one.
use vstd::prelude::*;
use crate::numeral;
use crate::outside::{self, JsonFields};
use crate::text::{self, Text};

verus! {

/// A text in quotes.
pub open spec fn quoted(t: Text) -> Text {
    "\""@ + t + "\""@
}

/// A text as a JSON string.
pub open spec fn string(t: Text) -> Text {
    quoted(text::escaped(t))
}

/// One member of an object.
pub open spec fn member(m: (Text, Text)) -> Text {
    "\""@ + m.0 + "\":"@ + m.1
}

/// Members one by one.
pub open spec fn member_texts(ms: Seq<(Text, Text)>) -> Seq<Text> {
    ms.map_values(|m: (Text, Text)| member(m))
}

/// An object by the texts of its members.
pub open spec fn braced(parts: Seq<Text>) -> Text {
    "{"@ + text::joined(parts, ","@) + "}"@
}

/// An object of members: their names, as they stand between the quotes, and their values.
pub open spec fn object(ms: Seq<(Text, Text)>) -> Text {
    braced(member_texts(ms))
}

/// An array of values.
pub open spec fn array(items: Seq<Text>) -> Text {
    "["@ + text::joined(items, ","@) + "]"@
}

/// Members with one more, whose value is JSON already.
pub open spec fn with_value(ms: Seq<(Text, Text)>, name: Text, value: Text) -> Seq<(Text, Text)> {
    ms.push((name, value))
}

/// Members with a text.
pub open spec fn with_text(ms: Seq<(Text, Text)>, name: Text, value: Text) -> Seq<(Text, Text)> {
    ms.push((name, string(value)))
}

/// Members with a text, where there is one.
pub open spec fn with_text_opt(ms: Seq<(Text, Text)>, name: Text, value: Option<Text>) -> Seq<(Text, Text)> {
    match value {
        Some(t) => with_text(ms, name, t),
        None => ms,
    }
}

/// Members with a number.
pub open spec fn with_number(ms: Seq<(Text, Text)>, name: Text, value: int) -> Seq<(Text, Text)> {
    ms.push((name, numeral::dec(value)))
}

/// Members with a number, where there is one.
pub open spec fn with_number_opt(ms: Seq<(Text, Text)>, name: Text, value: Option<i64>) -> Seq<(Text, Text)> {
    match value {
        Some(n) => with_number(ms, name, n as int),
        None => ms,
    }
}

/// A string as a JSON string.
pub fn quote(s: &str) -> (r: String)
    ensures
        r@ == string(s@),
{
    let mut out = text::owned("\"");
    text::push_escaped(&mut out, s);
    out.append("\"");
    out
}

/// The members of an object under way.
pub struct Members {
    rows: Vec<(String, String)>,
}

impl View for Members {
    type V = Seq<(Text, Text)>;

    closed spec fn view(&self) -> Seq<(Text, Text)> {
        self.rows@.map_values(|p: (String, String)| (p.0@, p.1@))
    }
}

impl Members {
    /// No members yet.
    pub fn new() -> (r: Self)
        ensures
            r@ == Seq::<(Text, Text)>::empty(),
    {
        let r = Members { rows: Vec::new() };
        assert(r@ =~= Seq::<(Text, Text)>::empty());
        r
    }

    /// Adds a value that is JSON already.
    pub fn value(&mut self, name: &str, value: String)
        ensures
            final(self)@ == with_value(old(self)@, name@, value@),
    {
        self.rows.push((text::owned(name), value));
        assert(self@ =~= with_value(old(self)@, name@, value@));
    }

    /// Adds a text.
    pub fn text(&mut self, name: &str, value: &str)
        ensures
            final(self)@ == with_text(old(self)@, name@, value@),
    {
        self.value(name, quote(value));
    }

    /// Adds a text, where there is one.
    pub fn text_opt(&mut self, name: &str, value: Option<&str>)
        ensures
            final(self)@ == with_text_opt(old(self)@, name@, text::opt_slice(value)),
    {
        if let Some(t) = value {
            self.text(name, t);
        }
    }

    /// Adds a number.
    pub fn number(&mut self, name: &str, value: i128)
        requires
            value > i128::MIN,
        ensures
            final(self)@ == with_number(old(self)@, name@, value as int),
    {
        let mut out = String::new();
        numeral::push_int(&mut out, value);
        assert(out@ =~= numeral::dec(value as int));
        self.value(name, out);
    }

    /// Adds a number, where there is one.
    pub fn number_opt(&mut self, name: &str, value: Option<i64>)
        ensures
            final(self)@ == with_number_opt(old(self)@, name@, value),
    {
        if let Some(n) = value {
            self.number(name, n as i128);
        }
    }

    /// The object.
    pub fn object(&self) -> (r: String)
        ensures
            r@ == object(self@),
    {
        let mut parts: Vec<String> = Vec::new();
        let mut i: usize = 0;
        let ghost all = member_texts(self@);
        while i < self.rows.len()
            invariant
                i <= self.rows@.len(),
                all == member_texts(self@),
                parts@.len() == i,
                forall|k: int| 0 <= k < i ==> (#[trigger] parts@[k])@ == all[k],
            decreases self.rows@.len() - i,
        {
            let mut p = text::owned("\"");
            p.append(self.rows[i].0.as_str());
            p.append("\":");
            p.append(self.rows[i].1.as_str());
            assert(p@ == all[i as int]);
            parts.push(p);
            i = i + 1;
        }
        assert(text::texts(parts@) =~= all);
        let mut out = text::owned("{");
        let inner = text::join_all(&parts, ",");
        out.append(inner.as_str());
        out.append("}");
        out
    }
}

/// An array of strings that are JSON.
pub fn array_of(items: &Vec<String>) -> (r: String)
    ensures
        r@ == array(text::texts(items@)),
{
    let mut out = text::owned("[");
    let inner = text::join_all(items, ",");
    out.append(inner.as_str());
    out.append("]");
    out
}

/// Whether a character may stand by itself in a JSON string.
pub open spec fn plain_char(c: char) -> bool {
    c as int >= 0x20 && c != '"' && c != '\\'
}

/// Whether all characters of a text may stand by themselves in a JSON string.
pub open spec fn plain(t: Text) -> bool {
    forall|i: int| 0 <= i < t.len() ==> plain_char(#[trigger] t[i])
}

/// Whether a character may stand behind a backslash in a JSON string.
pub open spec fn short_escape(c: char) -> bool {
    c == '"' || c == '\\' || c == '/' || c == 'b' || c == 'f' || c == 'n' || c == 'r' || c == 't'
}

pub open spec fn is_hex(c: char) -> bool {
    48 <= c as int <= 57 || 97 <= c as int <= 102 || 65 <= c as int <= 70
}

/// Whether a text may stand between the quotes of a JSON string: plain characters, a backslash with a
/// character behind it, or a backslash with `u` and four hexadecimal digits.
pub open spec fn string_body(t: Text) -> bool
    decreases t.len(),
{
    let n = t.len() as int;
    ||| n == 0
    ||| n >= 1 && plain_char(t[n - 1]) && string_body(t.take(n - 1))
    ||| n >= 2 && t[n - 2] == '\\' && short_escape(t[n - 1]) && string_body(t.take(n - 2))
    ||| n >= 6 && t[n - 6] == '\\' && t[n - 5] == 'u' && is_hex(t[n - 4]) && is_hex(t[n - 3]) && is_hex(t[n - 2])
        && is_hex(t[n - 1]) && string_body(t.take(n - 6))
}

/// The value of a hexadecimal digit.
pub open spec fn hex_value(c: char) -> int {
    if c as int <= 57 {
        c as int - 48
    } else if c as int >= 97 {
        c as int - 87
    } else {
        c as int - 55
    }
}

/// The number that follows the `\u` at the beginning of a text; `None` where there is no such thing.
pub open spec fn code_unit(t: Text) -> Option<int> {
    if t.len() >= 6 && t[0] == '\\' && t[1] == 'u' && is_hex(t[2]) && is_hex(t[3]) && is_hex(t[4]) && is_hex(t[5]) {
        Some(hex_value(t[2]) * 4096 + hex_value(t[3]) * 256 + hex_value(t[4]) * 16 + hex_value(t[5]))
    } else {
        None
    }
}

/// The character that an escape of two characters stands for.
pub open spec fn unescaped(c: char) -> char {
    if c == 'b' {
        8u8 as char
    } else if c == 'f' {
        12u8 as char
    } else if c == 'n' {
        '\n'
    } else if c == 'r' {
        '\r'
    } else if c == 't' {
        '\t'
    } else {
        c
    }
}

/// A character and what is decoded behind it.
pub open spec fn led_by(c: char, rest: Option<Text>) -> Option<Text> {
    match rest {
        Some(t) => Some(seq![c] + t),
        None => None,
    }
}

/// The text that the characters between the quotes of a JSON string stand for; `None` where they may
/// not stand there. Characters beyond four hexadecimal digits are written as two surrogates.
pub open spec fn decoded(t: Text) -> Option<Text>
    decreases t.len(),
{
    if t.len() == 0 {
        Some(Seq::empty())
    } else if plain_char(t[0]) {
        led_by(t[0], decoded(t.skip(1)))
    } else if t.len() >= 2 && t[0] == '\\' && short_escape(t[1]) {
        led_by(unescaped(t[1]), decoded(t.skip(2)))
    } else {
        match code_unit(t) {
            None => None,
            Some(n) => if n < 0xd800 || n > 0xdfff {
                led_by(n as char, decoded(t.skip(6)))
            } else if n > 0xdbff {
                None
            } else {
                match code_unit(t.skip(6)) {
                    Some(k) => if 0xdc00 <= k <= 0xdfff {
                        led_by((0x10000 + (n - 0xd800) * 0x400 + (k - 0xdc00)) as char, decoded(t.skip(12)))
                    } else {
                        None
                    },
                    None => None,
                }
            },
        }
    }
}

/// Whether a text is made of the characters that may stand between the tokens of JSON.
pub open spec fn blank(t: Text) -> bool {
    forall|i: int| 0 <= i < t.len() ==> (#[trigger] t[i] == ' ' || t[i] == '\t' || t[i] == '\n' || t[i] == '\r')
}

/// A text with others in front of it and behind it.
pub open spec fn spaced(a: Text, t: Text, b: Text) -> Text {
    a + t + b
}

/// Whether a text is a run of digits.
pub open spec fn digits(t: Text) -> bool {
    t.len() > 0 && numeral::all_digits(t)
}

/// Whether a text may stand before the point of a number: digits, without a zero in front of others.
pub open spec fn whole_part(t: Text) -> bool {
    digits(t) && (t.len() == 1 || t[0] != '0')
}

/// Whether a text is a point with digits behind it, or nothing.
pub open spec fn fraction(t: Text) -> bool {
    t.len() == 0 || (t[0] == '.' && digits(t.skip(1)))
}

/// Whether a text is an exponent, with or without a sign, or nothing.
pub open spec fn exponent(t: Text) -> bool {
    ||| t.len() == 0
    ||| (t[0] == 'e' || t[0] == 'E') && digits(t.skip(1))
    ||| t.len() >= 2 && (t[0] == 'e' || t[0] == 'E') && (t[1] == '+' || t[1] == '-') && digits(t.skip(2))
}

/// The parts of a number one after the other.
pub open spec fn number_text(negative: bool, whole: Text, frac: Text, exp: Text) -> Text {
    (if negative { seq!['-'] } else { Seq::<char>::empty() }) + whole + frac + exp
}

/// Whether a text is a JSON number.
pub open spec fn number(t: Text) -> bool {
    exists|negative: bool, whole: Text, frac: Text, exp: Text|
        whole_part(whole) && fraction(frac) && exponent(exp) && t == #[trigger] number_text(negative, whole, frac, exp)
}

/// One member of an object, with `a` in front of its name and `b` behind it.
pub open spec fn spaced_member(a: Text, name: Text, b: Text, value: Text) -> Text {
    spaced(a, quoted(name), b) + ":"@ + value
}

/// Whether a text is a member of an object: a name, a colon and a value that is JSON.
pub open spec fn member_at(t: Text, depth: nat) -> bool
    decreases depth, 2nat,
{
    exists|a: Text, name: Text, b: Text, value: Text|
        blank(a) && string_body(name) && blank(b) && json_at(value, depth) && t == #[trigger] spaced_member(
            a,
            name,
            b,
            value,
        )
}

/// Whether all texts are members of an object.
pub open spec fn parts_at(parts: Seq<Text>, depth: nat) -> bool
    decreases depth, 3nat,
{
    forall|i: int| 0 <= i < parts.len() ==> member_at(#[trigger] parts[i], depth)
}

/// Whether all values are JSON.
pub open spec fn items_at(items: Seq<Text>, depth: nat) -> bool
    decreases depth, 2nat,
{
    forall|i: int| 0 <= i < items.len() ==> json_at(#[trigger] items[i], depth)
}

/// Whether there is nothing but white space between two brackets.
pub open spec fn hollow(parts: Seq<Text>) -> bool {
    parts.len() == 1 && blank(parts[0])
}

/// Whether a text is JSON without white space round it, with arrays and objects nested no deeper than
/// a limit. What `serde_json` writes for an object of scalars counts as JSON.
pub open spec fn value_at(t: Text, depth: nat) -> bool
    decreases depth, 0nat,
{
    ||| t == "true"@
    ||| t == "false"@
    ||| t == "null"@
    ||| number(t)
    ||| exists|s: Text| string_body(s) && t == #[trigger] quoted(s)
    ||| depth > 0 && exists|f: JsonFields| f.dom().finite() && t == #[trigger] outside::object_text(f)
    ||| depth > 0 && exists|items: Seq<Text>|
        t == #[trigger] array(items) && (hollow(items) || items_at(items, (depth - 1) as nat))
    ||| depth > 0 && exists|parts: Seq<Text>|
        t == #[trigger] braced(parts) && (hollow(parts) || parts_at(parts, (depth - 1) as nat))
}

/// Whether a text is JSON with arrays and objects nested no deeper than a limit.
pub open spec fn json_at(t: Text, depth: nat) -> bool
    decreases depth, 1nat,
{
    exists|a: Text, v: Text, b: Text| blank(a) && blank(b) && value_at(v, depth) && t == #[trigger] spaced(a, v, b)
}

/// Whether all members have a proper name and a value that is JSON.
pub open spec fn members_at(ms: Seq<(Text, Text)>, depth: nat) -> bool {
    forall|i: int| 0 <= i < ms.len() ==> string_body((#[trigger] ms[i]).0) && json_at(ms[i].1, depth)
}

/// Whether a text is JSON.
pub open spec fn is_json(t: Text) -> bool {
    exists|depth: nat| json_at(t, depth)
}

/// A text of plain characters may stand in a JSON string.
pub proof fn lemma_plain(t: Text)
    requires
        plain(t),
    ensures
        string_body(t),
    decreases t.len(),
{
    if t.len() > 0 {
        lemma_plain(t.take(t.len() - 1));
    }
}

/// An escaped text may stand in a JSON string.
pub proof fn law_escaped_texts_are_strings(t: Text)
    ensures
        string_body(text::escaped(t)),
    decreases t.len(),
{
    if t.len() > 0 {
        let c = t.last();
        law_escaped_texts_are_strings(t.drop_last());
        let a = text::escaped(t.drop_last());
        let b = text::escape_char(c);
        let e = text::escaped(t);
        text::lemma_char_range(c);
        assert(e == a + b);
        assert(e.take(e.len() - b.len()) =~= a);
        if b.len() == 6 {
            assert(b[4] == text::hex_digit(c as int / 16));
            assert(b[5] == text::hex_digit(c as int % 16));
            assert(e[e.len() - 6] == b[0] && e[e.len() - 5] == b[1] && e[e.len() - 4] == b[2] && e[e.len() - 3] == b[3]);
            assert(e[e.len() - 2] == b[4] && e[e.len() - 1] == b[5]);
        } else if b.len() == 2 {
            assert(e[e.len() - 2] == b[0] && e[e.len() - 1] == b[1]);
        } else {
            assert(e[e.len() - 1] == b[0]);
        }
    }
}

/// Escaping goes character by character.
pub proof fn law_escaping_distributes(a: Text, b: Text)
    ensures
        text::escaped(a + b) == text::escaped(a) + text::escaped(b),
    decreases b.len(),
{
    if b.len() == 0 {
        assert(a + b =~= a);
        assert(text::escaped(a) + text::escaped(b) =~= text::escaped(a));
    } else {
        law_escaping_distributes(a, b.drop_last());
        assert((a + b).drop_last() =~= a + b.drop_last());
        assert((a + b).last() == b.last());
        assert(text::escaped(a) + (text::escaped(b.drop_last()) + text::escape_char(b.last())) =~= text::escaped(a)
            + text::escaped(b.drop_last()) + text::escape_char(b.last()));
    }
}

/// A text of plain characters stays as it is.
pub proof fn law_plain_texts_stay(t: Text)
    requires
        plain(t),
    ensures
        text::escaped(t) == t,
    decreases t.len(),
{
    if t.len() > 0 {
        law_plain_texts_stay(t.drop_last());
        assert(plain_char(t[t.len() - 1]));
        assert(t.drop_last() + seq![t.last()] =~= t);
    } else {
        assert(t =~= Seq::empty());
    }
}

proof fn lemma_hex_value(d: int)
    requires
        0 <= d < 16,
    ensures
        is_hex(text::hex_digit(d)),
        hex_value(text::hex_digit(d)) == d,
{
}

proof fn lemma_decoded_head(c: char, rest: Text)
    ensures
        decoded(text::escape_char(c) + rest) == led_by(c, decoded(rest)),
{
    let e = text::escape_char(c);
    let t = e + rest;
    text::lemma_char_range(c);
    assert(t.skip(e.len() as int) =~= rest);
    if e.len() == 6 {
        let n = c as int;
        lemma_hex_value(n / 16);
        lemma_hex_value(n % 16);
        lemma_hex_value(0);
        assert(t[0] == e[0] && t[1] == e[1] && t[2] == e[2] && t[3] == e[3] && t[4] == e[4] && t[5] == e[5]);
        assert(code_unit(t) == Some(n));
        assert(n as char == c);
    } else if e.len() == 2 {
        assert(t[0] == e[0] && t[1] == e[1]);
    } else {
        assert(t[0] == e[0]);
    }
}

/// Decoding gives the text back that was escaped.
pub proof fn law_escaped_texts_are_decoded(t: Text)
    ensures
        decoded(text::escaped(t)) == Some(t),
    decreases t.len(),
{
    if t.len() == 0 {
        assert(t =~= Seq::empty());
    } else {
        let head = seq![t[0]];
        let rest = t.skip(1);
        assert(head + rest =~= t);
        law_escaping_distributes(head, rest);
        assert(head.drop_last() =~= Seq::empty());
        assert(text::escaped(head) =~= text::escape_char(t[0])) by {
            reveal_with_fuel(text::escaped, 2);
        }
        lemma_decoded_head(t[0], text::escaped(rest));
        law_escaped_texts_are_decoded(rest);
    }
}

/// JSON stays JSON where arrays and objects may be nested deeper.
pub proof fn law_deeper_limits_keep_json(t: Text, depth: nat, deeper: nat)
    requires
        json_at(t, depth),
        depth <= deeper,
    ensures
        json_at(t, deeper),
    decreases depth,
{
    let (a, v, b) = choose|a: Text, v: Text, b: Text|
        blank(a) && blank(b) && value_at(v, depth) && t == #[trigger] spaced(a, v, b);
    if depth > 0 {
        let d = (depth - 1) as nat;
        let e = (deeper - 1) as nat;
        assert forall|items: Seq<Text>| items_at(items, d) implies #[trigger] items_at(items, e) by {
            assert forall|i: int| 0 <= i < items.len() implies json_at(#[trigger] items[i], e) by {
                law_deeper_limits_keep_json(items[i], d, e);
            }
        }
        assert forall|parts: Seq<Text>| parts_at(parts, d) implies #[trigger] parts_at(parts, e) by {
            assert forall|i: int| 0 <= i < parts.len() implies member_at(#[trigger] parts[i], e) by {
                assert(member_at(parts[i], d));
                let (x, name, y, value) = choose|x: Text, name: Text, y: Text, value: Text|
                    blank(x) && string_body(name) && blank(y) && json_at(value, d) && parts[i]
                        == #[trigger] spaced_member(x, name, y, value);
                law_deeper_limits_keep_json(value, d, e);
            }
        }
    }
    assert(value_at(v, deeper)) by {
        if depth > 0 {
            let d = (depth - 1) as nat;
            let e = (deeper - 1) as nat;
            if exists|items: Seq<Text>| v == #[trigger] array(items) && (hollow(items) || items_at(items, d)) {
                let items = choose|items: Seq<Text>|
                    v == #[trigger] array(items) && (hollow(items) || items_at(items, d));
                assert(hollow(items) || items_at(items, e));
            }
            if exists|parts: Seq<Text>| v == #[trigger] braced(parts) && (hollow(parts) || parts_at(parts, d)) {
                let parts = choose|parts: Seq<Text>|
                    v == #[trigger] braced(parts) && (hollow(parts) || parts_at(parts, d));
                assert(hollow(parts) || parts_at(parts, e));
            }
        }
    }
}

proof fn lemma_values(t: Text, depth: nat)
    requires
        value_at(t, depth),
    ensures
        json_at(t, depth),
{
    let e = Seq::<char>::empty();
    assert(spaced(e, t, e) =~= t);
    assert(blank(e));
}

proof fn lemma_numerals(n: int)
    ensures
        number(numeral::dec(n)),
{
    let e = Seq::<char>::empty();
    let size = (if n < 0 { -n } else { n }) as nat;
    let whole = numeral::dec_nat(size);
    numeral::lemma_dec_nat(size);
    numeral::lemma_dec_nat_leads(size);
    assert(numeral::dec(n) =~= number_text(n < 0, whole, e, e));
}

proof fn lemma_members(ms: Seq<(Text, Text)>, depth: nat)
    requires
        members_at(ms, depth),
    ensures
        parts_at(member_texts(ms), depth),
{
    let e = Seq::<char>::empty();
    let parts = member_texts(ms);
    reveal_strlit("\"");
    reveal_strlit(":");
    reveal_strlit("\":");
    assert(blank(e));
    assert forall|i: int| 0 <= i < parts.len() implies member_at(#[trigger] parts[i], depth) by {
        assert(parts[i] =~= spaced_member(e, ms[i].0, e, ms[i].1));
    }
}

/// Texts, numbers, arrays of JSON and objects with JSON in them are JSON.
pub proof fn law_built_texts_are_json(t: Text, n: int, items: Seq<Text>, ms: Seq<(Text, Text)>, depth: nat)
    ensures
        json_at(string(t), depth),
        json_at(numeral::dec(n), depth),
        items_at(items, depth) ==> json_at(array(items), depth + 1),
        members_at(ms, depth) ==> json_at(object(ms), depth + 1),
{
    law_escaped_texts_are_strings(t);
    lemma_numerals(n);
    lemma_values(string(t), depth);
    lemma_values(numeral::dec(n), depth);
    if items_at(items, depth) {
        lemma_values(array(items), depth + 1);
    }
    if members_at(ms, depth) {
        lemma_members(ms, depth);
        lemma_values(object(ms), depth + 1);
    }
}

/// What `serde_json` writes for an object of scalars is JSON.
pub proof fn lemma_object_texts(f: JsonFields, depth: nat)
    requires
        f.dom().finite(),
    ensures
        json_at(outside::object_text(f), depth + 1),
{
    lemma_values(outside::object_text(f), depth + 1);
}

/// No members are in order.
pub proof fn lemma_no_members(depth: nat)
    ensures
        members_at(Seq::empty(), depth),
{
}

/// An object of members that are in order is JSON.
pub proof fn lemma_closed_objects(depth: nat)
    ensures
        forall|ms: Seq<(Text, Text)>| members_at(ms, depth) ==> json_at(#[trigger] object(ms), depth + 1),
        json_at("true"@, depth),
        json_at("false"@, depth),
{
    lemma_values("true"@, depth);
    lemma_values("false"@, depth);
    assert forall|ms: Seq<(Text, Text)>| members_at(ms, depth) implies json_at(#[trigger] object(ms), depth + 1) by {
        law_built_texts_are_json(Seq::empty(), 0, Seq::empty(), ms, depth);
    }
}

/// Members that are in order stay so when one is added.
pub broadcast proof fn lemma_with_text(ms: Seq<(Text, Text)>, name: Text, value: Text, depth: nat)
    requires
        members_at(ms, depth),
        string_body(name),
    ensures
        #[trigger] members_at(with_text(ms, name, value), depth),
{
    law_built_texts_are_json(value, 0, Seq::empty(), ms, depth);
}

pub broadcast proof fn lemma_with_number(ms: Seq<(Text, Text)>, name: Text, value: int, depth: nat)
    requires
        members_at(ms, depth),
        string_body(name),
    ensures
        #[trigger] members_at(with_number(ms, name, value), depth),
{
    law_built_texts_are_json(name, value, Seq::empty(), ms, depth);
}

pub broadcast proof fn lemma_with_text_opt(ms: Seq<(Text, Text)>, name: Text, value: Option<Text>, depth: nat)
    requires
        members_at(ms, depth),
        string_body(name),
    ensures
        #[trigger] members_at(with_text_opt(ms, name, value), depth),
{
    if value is Some {
        lemma_with_text(ms, name, value->0, depth);
    }
}

pub broadcast proof fn lemma_with_number_opt(ms: Seq<(Text, Text)>, name: Text, value: Option<i64>, depth: nat)
    requires
        members_at(ms, depth),
        string_body(name),
    ensures
        #[trigger] members_at(with_number_opt(ms, name, value), depth),
{
    if value is Some {
        lemma_with_number(ms, name, value->0 as int, depth);
    }
}

pub broadcast proof fn lemma_with_value(ms: Seq<(Text, Text)>, name: Text, value: Text, depth: nat)
    requires
        members_at(ms, depth),
        string_body(name),
        json_at(value, depth),
    ensures
        #[trigger] members_at(with_value(ms, name, value), depth),
{
}

} // verus!
