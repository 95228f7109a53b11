//! What trimming, clipping, folding case and ordering make of texts and points in time.

use super::{nanos_from, no_leap, not_after};
use crate::text::{ascii_lower, bytes_le, cleaned_name, clipped, guest_label, lowered};
use crate::text::{normalized, text_le, trimmed, white_space, without_leading_space};
use crate::text::without_trailing_space;
use crate::time::{whole_seconds, Timestamp};
use vstd::prelude::*;
use vstd::utf8::encode_utf8;

verus! {

proof fn lemma_leading(s: Seq<char>) -> (cut: int)
    ensures
        0 <= cut <= s.len(),
        without_leading_space(s) == s.skip(cut),
        forall|i: int| 0 <= i < cut ==> white_space(#[trigger] s[i]),
        cut < s.len() ==> !white_space(s[cut]),
    decreases s.len(),
{
    if s.len() > 0 && white_space(s.first()) {
        let rest = s.drop_first();
        let cut = lemma_leading(rest);
        assert(rest.skip(cut) =~= s.skip(cut + 1));
        assert forall|i: int| 0 <= i < cut + 1 implies white_space(#[trigger] s[i]) by {
            if i > 0 {
                assert(s[i] == rest[i - 1]);
            }
        }
        if cut + 1 < s.len() {
            assert(s[cut + 1] == rest[cut]);
        }
        cut + 1
    } else {
        assert(s.skip(0) =~= s);
        0
    }
}

proof fn lemma_trailing(s: Seq<char>) -> (end: int)
    ensures
        0 <= end <= s.len(),
        without_trailing_space(s) == s.take(end),
        forall|i: int| end <= i < s.len() ==> white_space(#[trigger] s[i]),
        0 < end ==> !white_space(s[end - 1]),
    decreases s.len(),
{
    if s.len() > 0 && white_space(s.last()) {
        let rest = s.drop_last();
        let end = lemma_trailing(rest);
        assert(rest.take(end) =~= s.take(end));
        assert forall|i: int| end <= i < s.len() implies white_space(#[trigger] s[i]) by {
            if i < rest.len() {
                assert(s[i] == rest[i]);
            }
        }
        end
    } else {
        assert(s.take(s.len() as int) =~= s);
        s.len() as int
    }
}

/// Trimming cuts white space off both ends and nothing else: what is left neither begins nor ends
/// with white space, and what is cut is white space.
pub proof fn law_trimming_cuts_white_space_only(s: Seq<char>)
    ensures
        trimmed(s).len() > 0 ==> !white_space(trimmed(s).first()) && !white_space(
            trimmed(s).last(),
        ),
        exists|from: int, to: int|
            0 <= from <= to <= s.len() && trimmed(s) == #[trigger] s.subrange(from, to) && (forall|
                i: int,
            |
                0 <= i < from ==> white_space(#[trigger] s[i])) && (forall|i: int|
                to <= i < s.len() ==> white_space(#[trigger] s[i])),
{
    let from = lemma_leading(s);
    let rest = s.skip(from);
    let kept = lemma_trailing(rest);
    let to = from + kept;
    assert(trimmed(s) =~= s.subrange(from, to));
    assert forall|i: int| to <= i < s.len() implies white_space(#[trigger] s[i]) by {
        assert(s[i] == rest[i - from]);
    }
    if kept > 0 {
        assert(trimmed(s).last() == rest[kept - 1]);
        assert(trimmed(s).first() == s[from]);
    }
}

/// Clipping keeps the beginning of a text, all of it if it is short enough.
pub proof fn law_clipping_keeps_the_beginning(s: Seq<char>, limit: nat, i: int)
    ensures
        s.len() <= limit ==> clipped(s, limit) == s,
        s.len() > limit ==> clipped(s, limit).len() == limit,
        0 <= i < clipped(s, limit).len() ==> clipped(s, limit)[i] == s[i],
{
}

/// Folding case turns the letters `A` to `Z` into `a` to `z`, place by place, and leaves every
/// other character.
pub proof fn law_folding_case_is_for_ascii_letters(s: Seq<char>, i: int)
    requires
        0 <= i < s.len(),
    ensures
        lowered(s).len() == s.len(),
        'A' <= s[i] <= 'Z' ==> lowered(s)[i] as u32 == s[i] as u32 + 32,
        !('A' <= s[i] <= 'Z') ==> lowered(s)[i] == s[i],
{
}

/// What is compared of two names are their letters without case and without the space around
/// them: each character of a name counts.
pub proof fn law_names_are_compared_in_full(s: Seq<char>, i: int)
    ensures
        normalized(s).len() == trimmed(s).len(),
        0 <= i < trimmed(s).len() ==> normalized(s)[i] == ascii_lower(trimmed(s)[i]),
{
}

/// A display name is what was given without the space around it, cut to thirty-two characters. A
/// name that comes to nothing is `Guest-` and the last four digits of the number drawn.
pub proof fn law_a_display_name_is_what_was_given(name: Seq<char>, number: u32)
    ensures
        0 < trimmed(name).len() <= 32 ==> cleaned_name(name, number) == trimmed(name),
        trimmed(name).len() > 32 ==> cleaned_name(name, number) == trimmed(name).take(32),
        trimmed(name).len() == 0 ==> cleaned_name(name, number) == guest_label(number),
        guest_label(number).len() == 10,
        guest_label(number).take(6) == "Guest-"@,
        forall|k: int|
            6 <= k < 10 ==> '0' <= #[trigger] guest_label(number)[k] <= '9',
        guest_label(number)[6] as u32 - '0' as u32 == number / 1000 % 10,
        guest_label(number)[7] as u32 - '0' as u32 == number / 100 % 10,
        guest_label(number)[8] as u32 - '0' as u32 == number / 10 % 10,
        guest_label(number)[9] as u32 - '0' as u32 == number % 10,
{
    reveal_strlit("Guest-");
    assert(guest_label(number).take(6) =~= "Guest-"@);
}

/// Texts are ordered by the first byte in which they differ; one that begins another comes first.
pub proof fn law_texts_are_ordered_by_their_bytes(a: Seq<u8>, b: Seq<u8>, k: int)
    requires
        0 <= k <= a.len(),
        k <= b.len(),
        forall|i: int| 0 <= i < k ==> a[i] == b[i],
    ensures
        k == a.len() ==> bytes_le(a, b),
        k == b.len() && k < a.len() ==> !bytes_le(a, b),
        k < a.len() && k < b.len() && a[k] != b[k] ==> (bytes_le(a, b) <==> a[k] < b[k]),
    decreases k,
{
    if k > 0 {
        assert(a.first() == b.first());
        law_texts_are_ordered_by_their_bytes(a.drop_first(), b.drop_first(), k - 1);
    }
}

/// Texts are compared by the bytes that they are written in.
pub proof fn law_texts_are_compared_in_bytes(a: Seq<char>, b: Seq<char>)
    ensures
        text_le(a, b) <==> bytes_le(encode_utf8(a), encode_utf8(b)),
{
}

/// Points in time are ordered by their seconds, and within a second by their nanoseconds.
pub proof fn law_earlier_is_earlier(a: Timestamp, b: Timestamp)
    ensures
        a.no_later_than(b) <==> not_after(a, b),
        no_leap(a, b) ==> (a.no_later_than(b) <==> nanos_from(a, b) >= 0),
        no_leap(a, b) ==> b.elapsed_since(a) == nanos_from(a, b),
{
}

/// Seconds are counted when they are full, in either direction.
pub proof fn law_seconds_count_when_full(nanos: int)
    ensures
        nanos >= 0 ==> whole_seconds(nanos) * 1_000_000_000 <= nanos < (whole_seconds(nanos) + 1)
            * 1_000_000_000,
        whole_seconds(-nanos) == -whole_seconds(nanos),
{
}

} // verus!
