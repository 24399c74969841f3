//! What the chat channels share: previews of messages, and how many of them a caller asks for.
use vstd::prelude::*;
use vstd::utf8::*;
use crate::coordinator::wire;
use crate::dispatch::{CallRec, InvocationCtx};
use crate::listing;
use crate::numeral;
use crate::text::{self, Text};

verus! {

/// The first characters of a text, with a blank for each tab and line break.
pub open spec fn preview(t: Text, max: int) -> Text {
    listing::first(text::one_line(t), max)
}

/// The first characters of a text, with a blank for each tab and line break.
pub fn truncate_preview(s: &str, max_chars: usize) -> (r: String)
    ensures
        r@ == preview(s@, max_chars as int),
{
    let clean = text::tab_safe(s);
    let v = text::chars_of(clean.as_str());
    if max_chars < v.len() {
        let r = text::text_of(&v, 0, max_chars);
        assert(r@ =~= clean@.take(max_chars as int));
        r
    } else {
        clean
    }
}

/// A preview has at most the given number of characters, and none that would break a row.
pub proof fn law_preview_fits_a_row(t: Text, max: int)
    requires
        max >= 0,
    ensures
        preview(t, max).len() <= max,
        forall|i: int|
            0 <= i < preview(t, max).len() ==> #[trigger] preview(t, max)[i] != '\t' && preview(t, max)[i] != '\n'
                && preview(t, max)[i] != '\r',
{
    let p = preview(t, max);
    assert forall|i: int| 0 <= i < p.len() implies #[trigger] p[i] != '\t' && p[i] != '\n' && p[i] != '\r' by {
        assert(p[i] == text::one_line(t)[i]);
    }
}

/// A preview shows the first characters of the text, as many as fit, with a blank for each tab and line
/// break.
pub proof fn law_previews_begin_as_the_text(t: Text, max: int, k: int)
    requires
        max >= 0,
    ensures
        preview(t, max).len() == if t.len() <= max {
            t.len() as int
        } else {
            max
        },
        0 <= k < preview(t, max).len() ==> preview(t, max)[k] == if t[k] == '\t' || t[k] == '\n' || t[k] == '\r' {
            ' '
        } else {
            t[k]
        },
{
    if 0 <= k < preview(t, max).len() {
        text::law_rows_keep_the_other_characters(t, k);
        assert(preview(t, max)[k] == text::one_line(t)[k]);
    }
}

/// A caller who names a positive number gets that many messages; anyone else gets twenty.
pub proof fn law_wanted_numbers_are_read(call: CallRec, front: Text, word: Text, back: Text, n: usize)
    requires
        text::blank(front),
        text::bare(word),
        text::blank(back),
    ensures
        wire::says(call, front + word + back) && word == numeral::dec(n as int) ==> wanted(call) == if n == 0 {
            20
        } else {
            n as int
        },
        wire::says(call, front + word + back) && wire::no_number(word) ==> wanted(call) == 20,
        !valid_utf8(call.args) ==> wanted(call) == 20,
{
    if wire::says(call, front + word + back) {
        wire::lemma_says(call, front + word + back);
        text::law_trimming_takes_the_padding(front, word, back);
        numeral::law_usize_round_trip(n);
        if wire::no_number(word) {
            wire::lemma_no_number(word);
        }
    }
}

/// The number of messages that a call asks for: twenty unless it names a positive number.
pub open spec fn wanted(call: CallRec) -> usize {
    match call.text() {
        Some(t) => match numeral::parse_usize(text::trim(t)) {
            Some(n) => if n > 0 {
                n
            } else {
                20
            },
            None => 20,
        },
        None => 20,
    }
}

/// The number of messages that a call asks for.
pub fn rows_wanted(ctx: &InvocationCtx) -> (r: usize)
    ensures
        r == wanted(ctx@),
{
    match ctx.text_or("") {
        Ok(s) => {
            let t = text::trimmed(s.as_str());
            match numeral::read_usize(t.as_str()) {
                Some(n) => if n > 0 {
                    n
                } else {
                    20
                },
                None => 20,
            }
        },
        Err(_) => 20,
    }
}

/// The word for a truth value.
pub open spec fn bool_word(b: bool) -> Text {
    if b {
        "true"@
    } else {
        "false"@
    }
}

pub fn push_bool(s: &mut String, b: bool)
    ensures
        final(s)@ == old(s)@ + bool_word(b),
{
    if b {
        s.append("true");
    } else {
        s.append("false");
    }
}

} // verus!
