//! Cutting a response that is over its budget.
//!
//! Lengths and budgets count the bytes of the text's UTF-8 encoding. A cut
//! never falls inside the encoding of one character.

use vstd::prelude::*;
use vstd::string::*;
use vstd::utf8::*;
use crate::text::{decimal, push_decimal};

verus! {

/// Opening of the notice, up to the budget.
pub const NOTICE_HEAD: &'static str = "\n\n[已截断：响应超过 ";

/// What stands between the budget and the full length.
pub const NOTICE_MIDDLE: &'static str = " 字符（共 ";

/// Close of the notice, after the full length.
pub const NOTICE_TAIL: &'static str = " 字符），请缩小查询范围、添加过滤条件或指定 _source 字段]";

/// The notice that follows a cut text: it names the budget and the length
/// of the whole text, and asks for a narrower query.
pub open spec fn truncation_notice(max_chars: nat, total: nat) -> Seq<char> {
    NOTICE_HEAD@ + decimal(max_chars) + NOTICE_MIDDLE@ + decimal(total) + NOTICE_TAIL@
}

/// The place of the cut: the largest index up to `max` at which the encoded
/// text may be split between two characters.
pub open spec fn cut_index(bytes: Seq<u8>, max: int) -> int
    decreases max,
{
    if max <= 0 {
        0
    } else if is_char_boundary(bytes, max) {
        max
    } else {
        cut_index(bytes, max - 1)
    }
}

/// The part of `text` that is kept under a budget of `max` bytes.
pub open spec fn kept_prefix(text: Seq<char>, max: nat) -> Seq<char> {
    let bytes = encode_utf8(text);
    decode_utf8(bytes.subrange(0, cut_index(bytes, max as int)))
}

/// What `text` becomes under a budget of `max` bytes, and whether it was cut.
pub open spec fn truncated(text: Seq<char>, max: nat) -> (Seq<char>, bool) {
    let total = encode_utf8(text).len();
    if total <= max {
        (text, false)
    } else {
        (kept_prefix(text, max) + truncation_notice(max, total), true)
    }
}

/// Returns `text` unchanged where its encoding has at most `max_chars` bytes.
/// Otherwise returns the longest beginning of `text` that fits the budget
/// and ends between two characters, followed by the notice; the flag says
/// which of the two happened.
pub fn maybe_truncate(text: String, max_chars: usize) -> (r: (String, bool))
    ensures
        r.0@ == truncated(text@, max_chars as nat).0,
        r.1 == truncated(text@, max_chars as nat).1,
{
    broadcast use {encode_utf8_valid_utf8, encode_utf8_decode_utf8};

    let whole: &str = text.as_str();
    let total: usize = whole.as_bytes().len();
    let ghost bytes = encode_utf8(text@);
    if total <= max_chars {
        return (text, false);
    }
    let mut end: usize = max_chars;
    while end > 0 && !whole.is_char_boundary(end)
        invariant
            whole@ == text@,
            bytes == encode_utf8(text@),
            end <= max_chars,
            cut_index(bytes, end as int) == cut_index(bytes, max_chars as int),
        decreases end,
    {
        end -= 1;
    }
    let (head, _) = whole.split_at(end);
    assert(head@ == kept_prefix(text@, max_chars as nat)) by {
        assert(encode_utf8(head@) == bytes.subrange(0, end as int));
    }
    let mut out = String::from_str(head);
    out.append(NOTICE_HEAD);
    push_decimal(&mut out, max_chars as u64);
    out.append(NOTICE_MIDDLE);
    push_decimal(&mut out, total as u64);
    out.append(NOTICE_TAIL);
    (out, true)
}

/// The cut lies within the budget and between two characters, and no later
/// place within the budget lies between two characters.
pub proof fn lemma_cut_index_is_last_boundary(bytes: Seq<u8>, max: int)
    requires
        valid_utf8(bytes),
        0 <= max,
    ensures
        0 <= cut_index(bytes, max) <= max,
        is_char_boundary(bytes, cut_index(bytes, max)),
        forall|k: int| cut_index(bytes, max) < k <= max ==> !is_char_boundary(bytes, k),
    decreases max,
{
    if max > 0 && !is_char_boundary(bytes, max) {
        lemma_cut_index_is_last_boundary(bytes, max - 1);
    }
}

/// What is kept of a text is a beginning of it, made of whole characters:
/// its encoding is the encoded text up to the cut, and fits the budget.
pub proof fn lemma_kept_prefix_is_whole_characters(text: Seq<char>, max: nat)
    ensures
        kept_prefix(text, max).len() <= text.len(),
        kept_prefix(text, max) == text.subrange(0, kept_prefix(text, max).len() as int),
        encode_utf8(kept_prefix(text, max)) == encode_utf8(text).subrange(
            0,
            cut_index(encode_utf8(text), max as int),
        ),
        encode_utf8(kept_prefix(text, max)).len() <= max,
{
    broadcast use {encode_utf8_valid_utf8, encode_utf8_decode_utf8};

    let bytes = encode_utf8(text);
    let cut = cut_index(bytes, max as int);
    lemma_cut_index_is_last_boundary(bytes, max as int);
    valid_utf8_split(bytes, cut);
    decode_utf8_split(bytes, cut);
    let kept = decode_utf8(bytes.subrange(0, cut));
    let rest = decode_utf8(bytes.subrange(cut, bytes.len() as int));
    assert(text == kept + rest);
    assert(kept == text.subrange(0, kept.len() as int));
    decode_utf8_encode_utf8(bytes.subrange(0, cut));
    if cut > 0 {
        assert(cut <= bytes.len());
    }
}

/// A text that fits its budget comes back as it is. A text that does not fit
/// comes back as its kept beginning followed by the notice, and the flag is
/// set exactly then.
pub proof fn lemma_truncated_shape(text: Seq<char>, max: nat)
    ensures
        truncated(text, max).1 <==> encode_utf8(text).len() > max,
        !truncated(text, max).1 ==> truncated(text, max).0 == text,
        truncated(text, max).1 ==> truncated(text, max).0 == kept_prefix(text, max)
            + truncation_notice(max, encode_utf8(text).len()),
{
}

/// True of a text over its budget that already reads as its own kept
/// beginning followed by the notice for its own length.
pub open spec fn reads_as_own_truncation(text: Seq<char>, max: nat) -> bool {
    &&& encode_utf8(text).len() > max
    &&& text == kept_prefix(text, max) + truncation_notice(max, encode_utf8(text).len())
}

/// Apart from texts that read as their own truncation, a text comes back
/// unchanged exactly when it fits its budget.
pub proof fn lemma_unchanged_exactly_when_fits(text: Seq<char>, max: nat)
    requires
        !reads_as_own_truncation(text, max),
    ensures
        truncated(text, max).0 == text <==> encode_utf8(text).len() <= max,
{
}

} // verus!
