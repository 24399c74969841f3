//! Text as a sequence of characters: decimal numerals, trimming, splitting,
//! searching and the escapes of a JSON string.
use vstd::prelude::*;
use vstd::utf8::*;
use crate::json;

verus! {

/// The mathematical model of every string in this crate.
pub type Text = Seq<char>;

/// `String::push` appends one character.
pub assume_specification[ String::push ](s: &mut String, c: char)
    ensures
        final(s)@ == old(s)@.push(c),
;

/// The text behind an optional string.
pub open spec fn opt_text(o: Option<String>) -> Option<Text> {
    match o {
        Some(s) => Some(s@),
        None => None,
    }
}

/// The text behind an optional string slice.
pub open spec fn opt_slice(o: Option<&str>) -> Option<Text> {
    match o {
        Some(s) => Some(s@),
        None => None,
    }
}

/// The texts of a list of strings.
pub open spec fn texts(v: Seq<String>) -> Seq<Text> {
    v.map_values(|s: String| s@)
}

/// An owned copy of a string slice.
pub fn owned(s: &str) -> (r: String)
    ensures
        r@ == s@,
{
    s.to_owned()
}

/// An owned copy of an optional string slice.
pub fn owned_opt(s: Option<&str>) -> (r: Option<String>)
    ensures
        opt_text(r) == opt_slice(s),
{
    match s {
        Some(t) => Some(owned(t)),
        None => None,
    }
}

/// A copy of an optional string.
pub fn copy_opt(s: &Option<String>) -> (r: Option<String>)
    ensures
        opt_text(r) == opt_text(*s),
{
    match s {
        Some(t) => Some(t.clone()),
        None => None,
    }
}

/// An optional string as an optional slice.
pub fn slice_opt(s: &Option<String>) -> (r: Option<&str>)
    ensures
        opt_slice(r) == opt_text(*s),
{
    match s {
        Some(t) => Some(t.as_str()),
        None => None,
    }
}

/// The characters of a string slice.
pub fn chars_of(s: &str) -> (r: Vec<char>)
    ensures
        r@ == s@,
{
    let mut out: Vec<char> = Vec::new();
    for c in it: s.chars()
        invariant
            it.seq() == s@,
            out@ == s@.take(it.index() as int),
    {
        out.push(c);
        assert(s@.take(it.index() as int + 1) =~= s@.take(it.index() as int).push(c));
    }
    assert(s@.take(s@.len() as int) =~= s@);
    out
}

/// The characters `from..to` as a string.
pub fn text_of(v: &Vec<char>, from: usize, to: usize) -> (r: String)
    requires
        from <= to <= v@.len(),
    ensures
        r@ == v@.subrange(from as int, to as int),
{
    let mut out = String::new();
    let mut i: usize = from;
    while i < to
        invariant
            from <= i <= to <= v@.len(),
            out@ == v@.subrange(from as int, i as int),
        decreases to - i,
    {
        out.push(v[i]);
        assert(v@.subrange(from as int, i + 1) =~= v@.subrange(from as int, i as int).push(v@[i as int]));
        i = i + 1;
    }
    out
}

/// Whether two strings hold the same text.
pub fn same(a: &str, b: &str) -> (r: bool)
    ensures
        r == (a@ == b@),
{
    let x = a.as_bytes();
    let y = b.as_bytes();
    proof {
        encode_utf8_decode_utf8(a@);
        encode_utf8_decode_utf8(b@);
    }
    if x.len() != y.len() {
        return false;
    }
    let mut i: usize = 0;
    while i < x.len()
        invariant
            x@ == encode_utf8(a@),
            y@ == encode_utf8(b@),
            x@.len() == y@.len(),
            i <= x@.len(),
            forall|j: int| 0 <= j < i ==> x@[j] == y@[j],
        decreases x@.len() - i,
    {
        if x[i] != y[i] {
            return false;
        }
        i = i + 1;
    }
    assert(x@ =~= y@);
    true
}

/// Whether two optional strings hold the same text.
pub fn same_opt(a: Option<&str>, b: Option<&str>) -> (r: bool)
    ensures
        r == (opt_slice(a) == opt_slice(b)),
{
    match (a, b) {
        (Some(x), Some(y)) => same(x, y),
        (None, None) => true,
        _ => false,
    }
}

/// The characters that count as white space in Unicode.
pub open spec fn is_space(c: char) -> bool {
    let n = c as int;
    9 <= n <= 13 || n == 32 || n == 0x85 || n == 0xa0 || n == 0x1680 || 0x2000 <= n <= 0x200a || n == 0x2028 || n
        == 0x2029 || n == 0x202f || n == 0x205f || n == 0x3000
}

/// A text without the white space it begins with.
pub open spec fn trim_start(t: Text) -> Text
    decreases t.len(),
{
    if t.len() > 0 && is_space(t[0]) {
        trim_start(t.skip(1))
    } else {
        t
    }
}

/// A text without the white space it ends with.
pub open spec fn trim_end(t: Text) -> Text
    decreases t.len(),
{
    if t.len() > 0 && is_space(t.last()) {
        trim_end(t.drop_last())
    } else {
        t
    }
}

/// A text without the white space around it.
pub open spec fn trim(t: Text) -> Text {
    trim_end(trim_start(t))
}

/// The trimmed text, where there is one and it is not blank.
pub open spec fn trim_opt(o: Option<Text>) -> Option<Text> {
    match o {
        Some(t) => if trim(t).len() > 0 { Some(trim(t)) } else { None },
        None => None,
    }
}

/// The optional text, where it is not empty.
pub open spec fn non_empty(o: Option<Text>) -> Option<Text> {
    match o {
        Some(t) => if t.len() > 0 { Some(t) } else { None },
        None => None,
    }
}

pub fn space_char(c: char) -> (r: bool)
    ensures
        r == is_space(c),
{
    let n: u32 = c as u32;
    (9 <= n && n <= 13) || n == 32 || n == 0x85 || n == 0xa0 || n == 0x1680 || (0x2000 <= n && n <= 0x200a) || n
        == 0x2028 || n == 0x2029 || n == 0x202f || n == 0x205f || n == 0x3000
}

/// A trimmed copy of a string.
pub fn trimmed(s: &str) -> (r: String)
    ensures
        r@ == trim(s@),
{
    let v = chars_of(s);
    let mut a: usize = 0;
    assert(v@.skip(0) =~= v@);
    while a < v.len() && space_char(v[a])
        invariant
            a <= v@.len(),
            trim_start(v@) == trim_start(v@.skip(a as int)),
        ensures
            a <= v@.len(),
            trim_start(v@) == v@.skip(a as int),
        decreases v@.len() - a,
    {
        assert(v@.skip(a as int).skip(1) =~= v@.skip(a + 1));
        a = a + 1;
    }
    let ghost t = v@.skip(a as int);
    let mut b: usize = v.len();
    assert(v@.subrange(a as int, b as int) =~= t);
    while b > a && space_char(v[b - 1])
        invariant
            a <= b <= v@.len(),
            trim_end(t) == trim_end(v@.subrange(a as int, b as int)),
        ensures
            a <= b <= v@.len(),
            trim_end(t) == v@.subrange(a as int, b as int),
        decreases b,
    {
        assert(v@.subrange(a as int, b as int).drop_last() =~= v@.subrange(a as int, b - 1));
        b = b - 1;
    }
    text_of(&v, a, b)
}

/// The trimmed copy of an optional string, where it is not blank.
pub fn trimmed_opt(s: Option<&str>) -> (r: Option<String>)
    ensures
        opt_text(r) == trim_opt(opt_slice(s)),
{
    match s {
        Some(x) => {
            let t = trimmed(x);
            if t.as_str().is_empty() {
                None
            } else {
                Some(t)
            }
        },
        None => None,
    }
}

/// The optional string, where it is not empty.
pub fn filled_opt(s: Option<&str>) -> (r: Option<&str>)
    ensures
        opt_slice(r) == non_empty(opt_slice(s)),
{
    match s {
        Some(x) => if x.is_empty() { None } else { Some(x) },
        None => None,
    }
}

/// The place of the first `c` at or after `from`; the length where there is none.
pub open spec fn index_from(t: Text, c: char, from: int) -> int
    decreases t.len() - from,
{
    if from < 0 || from >= t.len() {
        t.len() as int
    } else if t[from] == c {
        from
    } else {
        index_from(t, c, from + 1)
    }
}

/// The place of the first `c`; the length where there is none.
pub open spec fn index_of(t: Text, c: char) -> int {
    index_from(t, c, 0)
}

/// The first place of a character is in range, holds it, and is preceded by none.
pub proof fn lemma_index_from(t: Text, c: char, from: int)
    requires
        0 <= from <= t.len(),
    ensures
        from <= index_from(t, c, from) <= t.len(),
        index_from(t, c, from) < t.len() ==> t[index_from(t, c, from)] == c,
        forall|k: int| from <= k < index_from(t, c, from) ==> t[k] != c,
    decreases t.len() - from,
{
    if from < t.len() && t[from] != c {
        lemma_index_from(t, c, from + 1);
    }
}

pub fn find_char(v: &Vec<char>, c: char, from: usize) -> (r: usize)
    requires
        from <= v@.len(),
    ensures
        r == index_from(v@, c, from as int),
        from <= r <= v@.len(),
{
    let mut i: usize = from;
    while i < v.len()
        invariant
            from <= i <= v@.len(),
            index_from(v@, c, from as int) == index_from(v@, c, i as int),
        decreases v@.len() - i,
    {
        if v[i] == c {
            return i;
        }
        i = i + 1;
    }
    i
}

/// What stands before and after the first `c`.
pub open spec fn split_once(t: Text, c: char) -> Option<(Text, Text)> {
    let i = index_of(t, c);
    if i < t.len() {
        Some((t.take(i), t.skip(i + 1)))
    } else {
        None
    }
}

pub fn cut_once(s: &str, c: char) -> (r: Option<(String, String)>)
    ensures
        (match r {
            Some(p) => Some((p.0@, p.1@)),
            None => None,
        }) == split_once(s@, c),
{
    let v = chars_of(s);
    let i = find_char(&v, c, 0);
    if i < v.len() {
        let a = text_of(&v, 0, i);
        let b = text_of(&v, i + 1, v.len());
        assert(a@ =~= s@.take(i as int));
        assert(b@ =~= s@.skip(i + 1));
        Some((a, b))
    } else {
        None
    }
}

/// The fields of a text cut at the first `n - 1` separators; the last field keeps the others.
pub open spec fn splitn(t: Text, c: char, n: nat) -> Seq<Text>
    decreases n,
{
    let i = index_of(t, c);
    if n <= 1 || i >= t.len() {
        seq![t]
    } else {
        seq![t.take(i)] + splitn(t.skip(i + 1), c, (n - 1) as nat)
    }
}

/// The fields of a text cut at every separator.
pub open spec fn split_all(t: Text, c: char) -> Seq<Text>
    decreases t.len(),
{
    let i = index_of(t, c);
    if i >= t.len() || i < 0 {
        seq![t]
    } else {
        seq![t.take(i)] + split_all(t.skip(i + 1), c)
    }
}

/// The field at a place; empty where there are fewer.
pub open spec fn field(parts: Seq<Text>, i: int) -> Text {
    if 0 <= i < parts.len() {
        parts[i]
    } else {
        Seq::empty()
    }
}

proof fn lemma_index_skip(t: Text, c: char, from: int, at: int)
    requires
        0 <= from <= at <= t.len(),
    ensures
        index_from(t.skip(from), c, at - from) == index_from(t, c, at) - from,
    decreases t.len() - at,
{
    if at < t.len() {
        assert(t.skip(from)[at - from] == t[at]);
        if t[at] != c {
            lemma_index_skip(t, c, from, at + 1);
        }
    }
}

/// The fields of a string cut at the first `n - 1` separators.
pub fn cut_n(s: &str, c: char, n: usize) -> (r: Vec<String>)
    requires
        n >= 1,
    ensures
        texts(r@) == splitn(s@, c, n as nat),
        r@.len() >= 1,
{
    let v = chars_of(s);
    let mut out: Vec<String> = Vec::new();
    let mut from: usize = 0;
    let mut left: usize = n;
    assert(s@.skip(0) =~= s@);
    assert(texts(out@) + splitn(s@.skip(0), c, n as nat) =~= splitn(s@, c, n as nat));
    while left > 1
        invariant
            v@ == s@,
            from <= v@.len(),
            left >= 1,
            texts(out@) + splitn(s@.skip(from as int), c, left as nat) == splitn(s@, c, n as nat),
        ensures
            v@ == s@,
            from <= v@.len(),
            texts(out@) + seq![s@.skip(from as int)] == splitn(s@, c, n as nat),
        decreases left,
    {
        let i = find_char(&v, c, from);
        let ghost rest = s@.skip(from as int);
        proof {
            lemma_index_skip(s@, c, from as int, from as int);
        }
        if i >= v.len() {
            break;
        }
        let part = text_of(&v, from, i);
        assert(part@ =~= rest.take(i - from));
        assert(rest.skip(i - from + 1) =~= s@.skip(i + 1));
        let ghost before = texts(out@);
        out.push(part);
        assert(texts(out@) =~= before.push(part@));
        from = i + 1;
        left = left - 1;
        assert(before + (seq![part@] + splitn(s@.skip(from as int), c, left as nat)) =~= texts(out@) + splitn(
            s@.skip(from as int),
            c,
            left as nat,
        ));
    }
    let last = text_of(&v, from, v.len());
    assert(last@ =~= s@.skip(from as int));
    let ghost before = texts(out@);
    out.push(last);
    assert(texts(out@) =~= before + seq![last@]);
    out
}

/// The fields of a string cut at every separator.
pub fn cut_all(s: &str, c: char) -> (r: Vec<String>)
    ensures
        texts(r@) == split_all(s@, c),
        r@.len() >= 1,
{
    let v = chars_of(s);
    let mut out: Vec<String> = Vec::new();
    let mut from: usize = 0;
    assert(s@.skip(0) =~= s@);
    assert(texts(out@) + split_all(s@.skip(0), c) =~= split_all(s@, c));
    loop
        invariant
            v@ == s@,
            from <= v@.len(),
            texts(out@) + split_all(s@.skip(from as int), c) == split_all(s@, c),
        ensures
            v@ == s@,
            from <= v@.len(),
            texts(out@) + seq![s@.skip(from as int)] == split_all(s@, c),
        decreases v@.len() - from,
    {
        let i = find_char(&v, c, from);
        let ghost rest = s@.skip(from as int);
        proof {
            lemma_index_skip(s@, c, from as int, from as int);
            lemma_index_from(s@, c, from as int);
        }
        if i >= v.len() {
            break;
        }
        let part = text_of(&v, from, i);
        assert(part@ =~= rest.take(i - from));
        assert(rest.skip(i - from + 1) =~= s@.skip(i + 1));
        let ghost before = texts(out@);
        out.push(part);
        assert(texts(out@) =~= before.push(part@));
        from = i + 1;
        assert(before + (seq![part@] + split_all(s@.skip(from as int), c)) =~= texts(out@) + split_all(
            s@.skip(from as int),
            c,
        ));
    }
    let last = text_of(&v, from, v.len());
    assert(last@ =~= s@.skip(from as int));
    let ghost before = texts(out@);
    out.push(last);
    assert(texts(out@) =~= before + seq![last@]);
    out
}

/// The field of a list at a place; empty where there are fewer.
pub fn field_of(parts: &Vec<String>, i: usize) -> (r: &str)
    ensures
        r@ == field(texts(parts@), i as int),
{
    if i < parts.len() {
        parts[i].as_str()
    } else {
        let e = "";
        proof {
            reveal_strlit("");
        }
        assert(e@ =~= Seq::<char>::empty());
        e
    }
}

/// The field of a list at a place, where it is there and not empty.
pub fn filled_field(parts: &Vec<String>, i: usize) -> (r: Option<&str>)
    ensures
        opt_slice(r) == non_empty(Some(field(texts(parts@), i as int))),
{
    let f = field_of(parts, i);
    if f.is_empty() {
        None
    } else {
        Some(f)
    }
}

/// Texts one after the other.
pub open spec fn flat(parts: Seq<Text>) -> Text
    decreases parts.len(),
{
    if parts.len() == 0 {
        Seq::empty()
    } else {
        flat(parts.drop_last()) + parts.last()
    }
}

/// Texts one after the other, with a separator between them.
pub open spec fn joined(parts: Seq<Text>, sep: Text) -> Text
    decreases parts.len(),
{
    if parts.len() == 0 {
        Seq::empty()
    } else if parts.len() == 1 {
        parts[0]
    } else {
        joined(parts.drop_last(), sep) + sep + parts.last()
    }
}

/// The strings of a list one after the other.
pub fn concat_all(parts: &Vec<String>) -> (r: String)
    ensures
        r@ == flat(texts(parts@)),
{
    let mut out = String::new();
    let mut i: usize = 0;
    let ghost all = texts(parts@);
    assert(all.take(0) =~= Seq::<Text>::empty());
    while i < parts.len()
        invariant
            i <= parts@.len(),
            all == texts(parts@),
            out@ == flat(all.take(i as int)),
        decreases parts@.len() - i,
    {
        assert(all.take(i + 1).drop_last() =~= all.take(i as int));
        assert(all.take(i + 1).last() == parts@[i as int]@);
        out.append(parts[i].as_str());
        i = i + 1;
    }
    assert(all.take(parts@.len() as int) =~= all);
    out
}

/// The strings of a list with a separator between them.
pub fn join_all(parts: &Vec<String>, sep: &str) -> (r: String)
    ensures
        r@ == joined(texts(parts@), sep@),
{
    let mut out = String::new();
    let mut i: usize = 0;
    let ghost all = texts(parts@);
    assert(all.take(0) =~= Seq::<Text>::empty());
    while i < parts.len()
        invariant
            i <= parts@.len(),
            all == texts(parts@),
            out@ == joined(all.take(i as int), sep@),
        decreases parts@.len() - i,
    {
        assert(all.take(i + 1).drop_last() =~= all.take(i as int));
        assert(all.take(i + 1).last() == parts@[i as int]@);
        if i > 0 {
            out.append(sep);
        }
        let ghost before = out@;
        out.append(parts[i].as_str());
        assert(i == 0 ==> out@ =~= all.take(1)[0]);
        i = i + 1;
    }
    assert(all.take(parts@.len() as int) =~= all);
    out
}

/// The length of a text in UTF-8 bytes.
pub open spec fn byte_len(t: Text) -> nat {
    encode_utf8(t).len()
}

pub fn len_bytes(s: &str) -> (r: usize)
    ensures
        r == byte_len(s@),
{
    s.as_bytes().len()
}

/// A text in which some characters have become spaces.
pub open spec fn blanked(t: Text, bad: spec_fn(char) -> bool) -> Text {
    t.map_values(|c: char| if bad(c) { ' ' } else { c })
}

pub open spec fn is_tab_or_line(c: char) -> bool {
    c == '\t' || c == '\n' || c == '\r'
}

pub open spec fn is_tab_or_newline(c: char) -> bool {
    c == '\t' || c == '\n'
}

/// A text kept on one line and in one column: tabs and line ends become spaces.
pub open spec fn one_line(t: Text) -> Text {
    blanked(t, |c: char| is_tab_or_line(c))
}

/// A text in which tabs and newlines have become spaces; carriage returns stay.
pub open spec fn one_row(t: Text) -> Text {
    blanked(t, |c: char| is_tab_or_newline(c))
}

/// Keeps titles single-line so that tab-separated output stays parseable.
pub fn tab_safe(s: &str) -> (r: String)
    ensures
        r@ == one_line(s@),
{
    let v = chars_of(s);
    let mut out = String::new();
    let mut i: usize = 0;
    while i < v.len()
        invariant
            v@ == s@,
            i <= v@.len(),
            out@ == one_line(s@.take(i as int)),
        decreases v@.len() - i,
    {
        let c = v[i];
        if c == '\t' || c == '\n' || c == '\r' {
            out.push(' ');
        } else {
            out.push(c);
        }
        i = i + 1;
        assert(out@ =~= one_line(s@.take(i as int)));
    }
    assert(s@.take(s@.len() as int) =~= s@);
    out
}

/// Replaces tabs and newlines by spaces.
pub fn row_safe(s: &str) -> (r: String)
    ensures
        r@ == one_row(s@),
{
    let v = chars_of(s);
    let mut out = String::new();
    let mut i: usize = 0;
    while i < v.len()
        invariant
            v@ == s@,
            i <= v@.len(),
            out@ == one_row(s@.take(i as int)),
        decreases v@.len() - i,
    {
        let c = v[i];
        if c == '\t' || c == '\n' {
            out.push(' ');
        } else {
            out.push(c);
        }
        i = i + 1;
        assert(out@ =~= one_row(s@.take(i as int)));
    }
    assert(s@.take(s@.len() as int) =~= s@);
    out
}

/// The lower-case hexadecimal digit of a number below sixteen.
pub open spec fn hex_digit(d: int) -> char {
    if d < 10 {
        (48 + d) as char
    } else {
        (87 + d) as char
    }
}

pub fn hex_char(d: u32) -> (c: char)
    requires
        d < 16,
    ensures
        c == hex_digit(d as int),
{
    match d {
        0 => '0',
        1 => '1',
        2 => '2',
        3 => '3',
        4 => '4',
        5 => '5',
        6 => '6',
        7 => '7',
        8 => '8',
        9 => '9',
        10 => 'a',
        11 => 'b',
        12 => 'c',
        13 => 'd',
        14 => 'e',
        _ => 'f',
    }
}

/// A character is a Unicode scalar value.
pub proof fn lemma_char_range(c: char)
    ensures
        0 <= c as int <= 0x10ffff,
        (c as u32) as int == c as int,
{
}

/// How one character stands inside a JSON string.
pub open spec fn escape_char(c: char) -> Text {
    if c == '"' {
        seq!['\\', '"']
    } else if c == '\\' {
        seq!['\\', '\\']
    } else if c == '\n' {
        seq!['\\', 'n']
    } else if c == '\r' {
        seq!['\\', 'r']
    } else if c == '\t' {
        seq!['\\', 't']
    } else if (c as int) < 0x20 {
        seq!['\\', 'u', '0', '0', hex_digit(c as int / 16), hex_digit(c as int % 16)]
    } else {
        seq![c]
    }
}

/// How a text stands inside a JSON string.
pub open spec fn escaped(t: Text) -> Text
    decreases t.len(),
{
    if t.len() == 0 {
        Seq::empty()
    } else {
        escaped(t.drop_last()) + escape_char(t.last())
    }
}

/// Appends a text as it stands inside a JSON string.
pub fn push_escaped(out: &mut String, s: &str)
    ensures
        final(out)@ == old(out)@ + escaped(s@),
{
    let v = chars_of(s);
    let mut i: usize = 0;
    let ghost start = out@;
    assert(s@.take(0) =~= Seq::<char>::empty());
    assert(out@ =~= start + escaped(s@.take(0)));
    while i < v.len()
        invariant
            v@ == s@,
            i <= v@.len(),
            out@ == start + escaped(s@.take(i as int)),
        decreases v@.len() - i,
    {
        let c = v[i];
        let ghost before = out@;
        proof {
            lemma_char_range(c);
        }
        if c == '"' {
            out.push('\\');
            out.push('"');
        } else if c == '\\' {
            out.push('\\');
            out.push('\\');
        } else if c == '\n' {
            out.push('\\');
            out.push('n');
        } else if c == '\r' {
            out.push('\\');
            out.push('r');
        } else if c == '\t' {
            out.push('\\');
            out.push('t');
        } else if (c as u32) < 0x20 {
            let n: u32 = c as u32;
            out.push('\\');
            out.push('u');
            out.push('0');
            out.push('0');
            out.push(hex_char(n / 16));
            out.push(hex_char(n % 16));
            assert(out@ =~= before + seq!['\\', 'u', '0', '0', hex_digit(c as int / 16), hex_digit(c as int % 16)]);
        } else {
            out.push(c);
        }
        assert(out@ =~= before + escape_char(c));
        assert(s@.take(i + 1).drop_last() =~= s@.take(i as int));
        assert(out@ =~= start + (escaped(s@.take(i as int)) + escape_char(c)));
        i = i + 1;
    }
    assert(s@.take(s@.len() as int) =~= s@);
}

/// A text as it stands inside a JSON string; decoding gives the text back.
pub fn json_escape(s: &str) -> (r: String)
    ensures
        r@ == escaped(s@),
        json::decoded(r@) == Some(s@),
{
    let mut out = String::new();
    push_escaped(&mut out, s);
    assert(out@ =~= escaped(s@));
    proof {
        json::law_escaped_texts_are_decoded(s@);
    }
    out
}

proof fn lemma_hex_digit(d: int)
    requires
        0 <= d < 16,
    ensures
        hex_digit(d) as int >= 48,
{
}

/// An escaped text holds no raw quote that is not behind a backslash and no control character.
pub proof fn law_escaped_is_json_safe(t: Text)
    ensures
        forall|i: int| 0 <= i < escaped(t).len() ==> (#[trigger] escaped(t)[i]) as int >= 0x20,
        forall|i: int|
            0 <= i < escaped(t).len() && #[trigger] escaped(t)[i] == '"' ==> i > 0 && escaped(t)[i - 1] == '\\',
    decreases t.len(),
{
    if t.len() > 0 {
        law_escaped_is_json_safe(t.drop_last());
        let a = escaped(t.drop_last());
        let b = escape_char(t.last());
        let e = escaped(t);
        assert(e == a + b);
        let n = t.last() as int;
        lemma_char_range(t.last());
        if n < 0x20 {
            lemma_hex_digit(n / 16);
            lemma_hex_digit(n % 16);
        }
        assert forall|i: int| 0 <= i < e.len() implies (#[trigger] e[i]) as int >= 0x20 by {
            if i < a.len() {
                assert(e[i] == a[i]);
            } else {
                assert(e[i] == b[i - a.len()]);
            }
        }
        assert forall|i: int| 0 <= i < e.len() && #[trigger] e[i] == '"' implies i > 0 && e[i - 1] == '\\' by {
            if i < a.len() {
                assert(e[i] == a[i]);
                assert(e[i - 1] == a[i - 1]);
            } else {
                assert(e[i] == b[i - a.len()]);
                assert(b.len() == 2);
                assert(e[i - 1] == b[i - 1 - a.len()]);
            }
        }
    }
}

/// Whether a text holds another one as a run of its characters.
pub open spec fn has_part(t: Text, p: Text) -> bool {
    exists|i: int| 0 <= i && i + p.len() <= t.len() && #[trigger] t.subrange(i, i + p.len()) == p
}

/// Whether a string holds another one.
pub fn has(s: &str, p: &str) -> (r: bool)
    ensures
        r == has_part(s@, p@),
{
    let v = chars_of(s);
    let w = chars_of(p);
    if w.len() > v.len() {
        return false;
    }
    let last: usize = v.len() - w.len();
    let mut i: usize = 0;
    while i <= last
        invariant
            v@ == s@,
            w@ == p@,
            last == v@.len() - w@.len(),
            i <= last + 1,
            forall|k: int| 0 <= k < i ==> #[trigger] s@.subrange(k, k + p@.len()) != p@,
        decreases last + 1 - i,
    {
        let mut k: usize = 0;
        while k < w.len() && v[i + k] == w[k]
            invariant
                v.len() == v@.len(),
                w.len() == w@.len(),
                i + w@.len() <= v@.len(),
                v@ == s@,
                w@ == p@,
                last == v@.len() - w@.len(),
                i <= last,
                k <= w@.len(),
                forall|m: int| 0 <= m < k ==> v@[i + m] == #[trigger] w@[m],
            decreases w@.len() - k,
        {
            k = k + 1;
        }
        if k == w.len() {
            assert(s@.subrange(i as int, i + p@.len()) =~= p@);
            return true;
        }
        assert(s@.subrange(i as int, i + p@.len())[k as int] != p@[k as int]);
        if i == last {
            return false;
        }
        i = i + 1;
    }
    false
}

/// How many characters a string has.
pub fn len_chars(s: &str) -> (r: usize)
    ensures
        r == s@.len(),
{
    chars_of(s).len()
}

/// The place of the last `c` before `to`; -1 where there is none.
pub open spec fn last_before(t: Text, c: char, to: int) -> int
    decreases to,
{
    if to <= 0 || to > t.len() {
        -1
    } else if t[to - 1] == c {
        to - 1
    } else {
        last_before(t, c, to - 1)
    }
}

/// What stands before and after the last `c`.
pub open spec fn split_last(t: Text, c: char) -> Option<(Text, Text)> {
    let i = last_before(t, c, t.len() as int);
    if i >= 0 {
        Some((t.take(i), t.skip(i + 1)))
    } else {
        None
    }
}

/// Cuts a string at its last separator.
pub fn cut_last(s: &str, c: char) -> (r: Option<(String, String)>)
    ensures
        match r {
            Some((a, b)) => split_last(s@, c) == Some((a@, b@)),
            None => split_last(s@, c) is None,
        },
{
    let v = chars_of(s);
    let mut i: usize = v.len();
    while i > 0
        invariant
            v@ == s@,
            i <= v@.len(),
            last_before(s@, c, s@.len() as int) == last_before(s@, c, i as int),
        decreases i,
    {
        if v[i - 1] == c {
            let a = text_of(&v, 0, i - 1);
            let b = text_of(&v, i, v.len());
            assert(a@ =~= s@.take(i - 1));
            assert(b@ =~= s@.skip(i as int));
            return Some((a, b));
        }
        i = i - 1;
    }
    None
}

/// The fields of a text hold no separator, and joined by it they give the text again.
pub proof fn law_split_then_join(t: Text, c: char)
    ensures
        split_all(t, c).len() >= 1,
        joined(split_all(t, c), seq![c]) == t,
        forall|k: int| 0 <= k < split_all(t, c).len() ==> !(#[trigger] split_all(t, c)[k]).contains(c),
    decreases t.len(),
{
    let i = index_of(t, c);
    lemma_index_from(t, c, 0);
    if i >= t.len() {
        assert(split_all(t, c) =~= seq![t]);
    } else {
        let head = t.take(i);
        let rest = t.skip(i + 1);
        law_split_then_join(rest, c);
        let tail = split_all(rest, c);
        lemma_joined_front(head, tail, seq![c]);
        assert(head + seq![c] + rest =~= t);
        assert forall|k: int| 0 <= k < split_all(t, c).len() implies !(#[trigger] split_all(t, c)[k]).contains(c) by {
            if k == 0 {
                assert(split_all(t, c)[0] == head);
            } else {
                assert(split_all(t, c)[k] == tail[k - 1]);
            }
        }
    }
}

/// Texts without a separator, joined by it, are the fields of what comes out.
pub proof fn law_join_then_split(parts: Seq<Text>, c: char)
    requires
        parts.len() >= 1,
        forall|k: int| 0 <= k < parts.len() ==> !(#[trigger] parts[k]).contains(c),
    ensures
        split_all(joined(parts, seq![c]), c) == parts,
    decreases parts.len(),
{
    let t = joined(parts, seq![c]);
    let head = parts[0];
    if parts.len() == 1 {
        lemma_index_from(t, c, 0);
        assert(!parts[0].contains(c));
        if index_of(t, c) < t.len() {
            assert(head[index_of(t, c)] == c);
        }
        assert(split_all(t, c) =~= parts);
    } else {
        let tail = parts.skip(1);
        assert forall|k: int| 0 <= k < tail.len() implies !(#[trigger] tail[k]).contains(c) by {
            assert(tail[k] == parts[k + 1]);
        }
        law_join_then_split(tail, c);
        lemma_joined_front(head, tail, seq![c]);
        assert(seq![head] + tail =~= parts);
        let rest = joined(tail, seq![c]);
        assert(t == head + seq![c] + rest);
        lemma_index_from(t, c, 0);
        let i = index_of(t, c);
        assert(t[head.len() as int] == c);
        if i < head.len() {
            assert(head[i] == c);
        }
        assert(i == head.len());
        assert(t.take(i) =~= head);
        assert(t.skip(i + 1) =~= rest);
    }
}

/// Texts joined by a separator are the fields of what comes out, cut at most `n - 1` times: the
/// last of `n` may hold the separator itself.
pub proof fn law_join_then_cut(parts: Seq<Text>, c: char, n: nat)
    requires
        1 <= parts.len() <= n,
        forall|k: int| 0 <= k < parts.len() && k < n - 1 ==> !(#[trigger] parts[k]).contains(c),
    ensures
        splitn(joined(parts, seq![c]), c, n) == parts,
    decreases parts.len(),
{
    let t = joined(parts, seq![c]);
    let head = parts[0];
    if parts.len() == 1 {
        lemma_index_from(t, c, 0);
        if n > 1 && index_of(t, c) < t.len() {
            assert(!parts[0].contains(c));
            assert(head[index_of(t, c)] == c);
        }
        assert(splitn(t, c, n) =~= parts);
    } else {
        let tail = parts.skip(1);
        assert forall|k: int| 0 <= k < tail.len() && k < (n - 1) as nat - 1 implies !(#[trigger] tail[k]).contains(c) by {
            assert(tail[k] == parts[k + 1]);
        }
        law_join_then_cut(tail, c, (n - 1) as nat);
        lemma_joined_front(head, tail, seq![c]);
        assert(seq![head] + tail =~= parts);
        let rest = joined(tail, seq![c]);
        assert(t == head + seq![c] + rest);
        lemma_index_from(t, c, 0);
        let i = index_of(t, c);
        assert(t[head.len() as int] == c);
        assert(!parts[0].contains(c));
        if i < head.len() {
            assert(head[i] == c);
        }
        assert(i == head.len());
        assert(t.take(i) =~= head);
        assert(t.skip(i + 1) =~= rest);
    }
}

/// What stands before and after a separator is told apart by the first one.
pub proof fn law_join_then_cut_once(head: Text, rest: Text, c: char)
    requires
        !head.contains(c),
    ensures
        split_once(head + seq![c] + rest, c) == Some((head, rest)),
{
    let t = head + seq![c] + rest;
    lemma_index_from(t, c, 0);
    let i = index_of(t, c);
    assert(t[head.len() as int] == c);
    if i < head.len() {
        assert(head[i] == c);
    }
    assert(t.take(i) =~= head);
    assert(t.skip(i + 1) =~= rest);
}

proof fn lemma_last_before(t: Text, c: char, to: int)
    requires
        0 <= to <= t.len(),
    ensures
        -1 <= last_before(t, c, to) < to,
        last_before(t, c, to) >= 0 ==> t[last_before(t, c, to)] == c,
        forall|k: int| last_before(t, c, to) < k < to ==> t[k] != c,
    decreases to,
{
    if to > 0 && t[to - 1] != c {
        lemma_last_before(t, c, to - 1);
    }
}

/// What stands before and after the last separator is told apart by it.
pub proof fn law_join_then_cut_last(head: Text, rest: Text, c: char)
    requires
        !rest.contains(c),
    ensures
        split_last(head + seq![c] + rest, c) == Some((head, rest)),
        !head.contains(c) ==> split_last(head, c) is None,
{
    let t = head + seq![c] + rest;
    lemma_last_before(t, c, t.len() as int);
    let i = last_before(t, c, t.len() as int);
    assert(t[head.len() as int] == c);
    if i > head.len() {
        assert(rest[i - head.len() - 1] == c);
    }
    assert(t.take(i) =~= head);
    assert(t.skip(i + 1) =~= rest);
    lemma_last_before(head, c, head.len() as int);
}

/// White space alone.
pub open spec fn blank(t: Text) -> bool {
    forall|k: int| 0 <= k < t.len() ==> is_space(#[trigger] t[k])
}

/// A text that neither begins nor ends with white space.
pub open spec fn bare(t: Text) -> bool {
    t.len() == 0 || (!is_space(t[0]) && !is_space(t.last()))
}

proof fn lemma_trim_start(front: Text, t: Text)
    requires
        blank(front),
        t.len() == 0 || !is_space(t[0]),
    ensures
        trim_start(front + t) == t,
    decreases front.len(),
{
    if front.len() > 0 {
        assert(is_space((front + t)[0])) by {
            assert(is_space(front[0]));
        }
        assert((front + t).skip(1) =~= front.skip(1) + t);
        assert(blank(front.skip(1))) by {
            assert forall|k: int| 0 <= k < front.skip(1).len() implies is_space(#[trigger] front.skip(1)[k]) by {
                assert(is_space(front[k + 1]));
            }
        }
        lemma_trim_start(front.skip(1), t);
    } else {
        assert(front + t =~= t);
    }
}

proof fn lemma_trim_end(t: Text, back: Text)
    requires
        blank(back),
        t.len() == 0 || !is_space(t.last()),
    ensures
        trim_end(t + back) == t,
    decreases back.len(),
{
    if back.len() > 0 {
        assert(is_space((t + back).last())) by {
            assert(is_space(back[back.len() - 1]));
        }
        assert((t + back).drop_last() =~= t + back.drop_last());
        assert(blank(back.drop_last())) by {
            assert forall|k: int| 0 <= k < back.drop_last().len() implies is_space(#[trigger] back.drop_last()[k]) by {
                assert(is_space(back[k]));
            }
        }
        lemma_trim_end(t, back.drop_last());
    } else {
        assert(t + back =~= t);
    }
}

/// Trimming takes away the white space around a text, and nothing else.
pub proof fn law_trimming_takes_the_padding(front: Text, t: Text, back: Text)
    requires
        blank(front),
        bare(t),
        blank(back),
    ensures
        trim(front + t + back) == t,
{
    if t.len() == 0 {
        let all = front + back;
        assert(blank(all)) by {
            assert forall|k: int| 0 <= k < all.len() implies is_space(#[trigger] all[k]) by {
                if k < front.len() {
                    assert(is_space(front[k]));
                } else {
                    assert(is_space(back[k - front.len()]));
                }
            }
        }
        assert(front + t + back =~= all + t);
        lemma_trim_start(all, t);
        assert(trim_end(t) == t);
    } else {
        assert(front + t + back =~= front + (t + back));
        assert((t + back)[0] == t[0]);
        lemma_trim_start(front, t + back);
        lemma_trim_end(t, back);
    }
}

/// Just the texts of white space alone trim to nothing.
pub proof fn law_only_blank_texts_trim_to_nothing(t: Text)
    ensures
        trim(t).len() == 0 <==> blank(t),
{
    if blank(t) {
        law_trimming_takes_the_padding(t, Seq::empty(), Seq::empty());
        assert(t + Seq::<char>::empty() + Seq::<char>::empty() =~= t);
    } else {
        lemma_start_of(t);
    }
}

proof fn lemma_start_of(t: Text)
    requires
        !blank(t),
    ensures
        trim(t).len() > 0,
    decreases t.len(),
{
    if is_space(t[0]) {
        let k = choose|k: int| 0 <= k < t.len() && !is_space(#[trigger] t[k]);
        assert(t.skip(1)[k - 1] == t[k]);
        assert(!blank(t.skip(1)));
        lemma_start_of(t.skip(1));
        assert(trim(t) == trim(t.skip(1)));
    } else {
        lemma_end_of(t);
    }
}

proof fn lemma_end_of(t: Text)
    requires
        t.len() > 0,
        !is_space(t[0]),
    ensures
        trim_end(t).len() > 0,
    decreases t.len(),
{
    if is_space(t.last()) {
        assert(t.len() > 1);
        lemma_end_of(t.drop_last());
    }
}

/// Tabs and line breaks become blanks, one for one, and everything else stays; in a row of a listing a
/// carriage return stays too.
pub proof fn law_rows_keep_the_other_characters(t: Text, k: int)
    requires
        0 <= k < t.len(),
    ensures
        one_line(t).len() == t.len(),
        one_row(t).len() == t.len(),
        one_line(t)[k] == if t[k] == '\t' || t[k] == '\n' || t[k] == '\r' {
            ' '
        } else {
            t[k]
        },
        one_row(t)[k] == if t[k] == '\t' || t[k] == '\n' {
            ' '
        } else {
            t[k]
        },
{
}

/// A text without white space around it is left as it is.
pub proof fn lemma_bare(t: Text)
    requires
        bare(t),
    ensures
        trim(t) == t,
{
    law_trimming_takes_the_padding(Seq::empty(), t, Seq::empty());
    assert(Seq::<char>::empty() + t + Seq::<char>::empty() =~= t);
}

/// A text in front of a list goes in front of what the list joins to.
proof fn lemma_joined_front(head: Text, tail: Seq<Text>, sep: Text)
    requires
        tail.len() >= 1,
    ensures
        joined(seq![head] + tail, sep) == head + sep + joined(tail, sep),
    decreases tail.len(),
{
    let all = seq![head] + tail;
    assert(all.last() == tail.last());
    if tail.len() == 1 {
        assert(all.drop_last() =~= seq![head]);
        assert(joined(seq![head], sep) == head);
        assert(joined(tail, sep) == tail[0]);
        assert(joined(all, sep) == joined(all.drop_last(), sep) + sep + all.last());
    } else {
        assert(all.drop_last() =~= seq![head] + tail.drop_last());
        lemma_joined_front(head, tail.drop_last(), sep);
        assert(head + sep + joined(tail.drop_last(), sep) + sep + tail.last() =~= head + sep + (joined(
            tail.drop_last(),
            sep,
        ) + sep + tail.last()));
    }
}

/// Lines one after the other, each with a line feed behind it.
pub open spec fn as_lines(lines: Seq<Text>) -> Text {
    flat(lines.map_values(|l: Text| l + seq!['\n']))
}

proof fn lemma_lines_joined(lines: Seq<Text>)
    ensures
        joined(lines.push(Seq::empty()), seq!['\n']) == as_lines(lines),
    decreases lines.len(),
{
    let f = |l: Text| l + seq!['\n'];
    let all = lines.push(Seq::empty());
    let sep = seq!['\n'];
    assert(all.drop_last() =~= lines);
    if lines.len() == 0 {
        assert(all[0] =~= Seq::empty());
        assert(lines.map_values(f) =~= Seq::empty());
    } else {
        let rest = lines.drop_last();
        lemma_lines_joined(rest);
        assert(lines.map_values(f).drop_last() =~= rest.map_values(f));
        assert(lines.map_values(f).last() == lines.last() + sep);
        let before = rest.push(Seq::empty());
        assert(before.drop_last() =~= rest);
        if rest.len() == 0 {
            assert(joined(lines, sep) == lines[0]);
            assert(joined(before, sep) =~= Seq::empty());
            assert(as_lines(rest) =~= Seq::empty());
        } else {
            assert(joined(before, sep) == joined(rest, sep) + sep + Seq::empty());
            assert(joined(lines, sep) == joined(rest, sep) + sep + lines.last());
        }
        assert(joined(all, sep) == joined(lines, sep) + sep + Seq::empty());
        assert(joined(all, sep) =~= as_lines(rest) + (lines.last() + sep));
    }
}

/// Lines that hold no line feed are what comes out when they are split at the line feeds; behind the
/// last one there is nothing.
pub proof fn law_lines_are_told_apart(lines: Seq<Text>)
    requires
        forall|k: int| 0 <= k < lines.len() ==> !(#[trigger] lines[k]).contains('\n'),
    ensures
        split_all(as_lines(lines), '\n') == lines.push(Seq::empty()),
{
    let all = lines.push(Seq::empty());
    assert forall|k: int| 0 <= k < all.len() implies !(#[trigger] all[k]).contains('\n') by {
        if k < lines.len() {
            assert(all[k] == lines[k]);
        }
    }
    lemma_lines_joined(lines);
    law_join_then_split(all, '\n');
}

/// The texts of a shorter list begin those of a longer one.
pub proof fn law_shorter_lists_are_prefixes(parts: Seq<Text>, n: int)
    requires
        0 <= n <= parts.len(),
    ensures
        flat(parts.take(n)).len() <= flat(parts).len(),
        flat(parts).take(flat(parts.take(n)).len() as int) == flat(parts.take(n)),
    decreases parts.len(),
{
    if n == parts.len() {
        assert(parts.take(n) =~= parts);
        assert(flat(parts).take(flat(parts).len() as int) =~= flat(parts));
    } else {
        let rest = parts.drop_last();
        law_shorter_lists_are_prefixes(rest, n);
        assert(rest.take(n) =~= parts.take(n));
        let k = flat(parts.take(n)).len() as int;
        assert(flat(parts).take(k) =~= flat(rest).take(k));
    }
}

/// A text put together from parts without a character is without it.
pub proof fn lemma_parts_lack(a: Text, b: Text, c: char)
    requires
        !a.contains(c),
        !b.contains(c),
    ensures
        !(a + b).contains(c),
{
    let t = a + b;
    assert forall|i: int| 0 <= i < t.len() implies t[i] != c by {
        if i < a.len() {
            assert(a.contains(a[i]));
        } else {
            assert(b.contains(b[i - a.len()]));
        }
    }
}

} // verus!
