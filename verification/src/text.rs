//! Names and short texts: trimming, clipping, folding case and ordering.

use crate::chance::random_number;
use vstd::prelude::*;
use vstd::string::{StrSliceExecFns, StringExecFns};
use vstd::utf8::encode_utf8;

verus! {

/// The longest display name, in characters.
pub const MAX_NAME_CHARS: usize = 32;

/// The longest chat message, in characters.
pub const MAX_CHAT_CHARS: usize = 500;

/// Whether `c` has the Unicode property `White_Space`.
pub open spec fn white_space(c: char) -> bool {
    ||| '\u{9}' <= c <= '\u{d}'
    ||| c == '\u{20}'
    ||| c == '\u{85}'
    ||| c == '\u{a0}'
    ||| c == '\u{1680}'
    ||| '\u{2000}' <= c <= '\u{200a}'
    ||| c == '\u{2028}'
    ||| c == '\u{2029}'
    ||| c == '\u{202f}'
    ||| c == '\u{205f}'
    ||| c == '\u{3000}'
}

/// `s` without the white space it begins with.
pub open spec fn without_leading_space(s: Seq<char>) -> Seq<char>
    decreases s.len(),
{
    if s.len() > 0 && white_space(s.first()) {
        without_leading_space(s.drop_first())
    } else {
        s
    }
}

/// `s` without the white space it ends with.
pub open spec fn without_trailing_space(s: Seq<char>) -> Seq<char>
    decreases s.len(),
{
    if s.len() > 0 && white_space(s.last()) {
        without_trailing_space(s.drop_last())
    } else {
        s
    }
}

/// `s` without the white space around it.
pub open spec fn trimmed(s: Seq<char>) -> Seq<char> {
    without_trailing_space(without_leading_space(s))
}

/// The first `limit` characters of `s`, or all of it if it is shorter.
pub open spec fn clipped(s: Seq<char>, limit: nat) -> Seq<char> {
    if s.len() <= limit {
        s
    } else {
        s.take(limit as int)
    }
}

/// `c` with `A` to `Z` turned into `a` to `z`.
pub open spec fn ascii_lower(c: char) -> char {
    if 'A' <= c <= 'Z' {
        (c as u32 + 32) as char
    } else {
        c
    }
}

/// `s` with `A` to `Z` turned into `a` to `z`.
pub open spec fn lowered(s: Seq<char>) -> Seq<char> {
    s.map_values(|c: char| ascii_lower(c))
}

/// `s` without the white space around it and with `A` to `Z` turned into `a` to `z`:
/// what two names or two email addresses are compared by.
pub open spec fn normalized(s: Seq<char>) -> Seq<char> {
    lowered(trimmed(s))
}

/// The character of a decimal digit.
pub open spec fn digit(d: int) -> char {
    seq!['0', '1', '2', '3', '4', '5', '6', '7', '8', '9'][d]
}

/// The name of a guest who gave none: `Guest-` and the last four digits of `number`.
pub open spec fn guest_label(number: u32) -> Seq<char> {
    "Guest-"@ + seq![
        digit(number as int / 1000 % 10),
        digit(number as int / 100 % 10),
        digit(number as int / 10 % 10),
        digit(number as int % 10),
    ]
}

/// The display name made of `name`: trimmed and clipped, or a guest label made of
/// `number` if nothing is left.
pub open spec fn cleaned_name(name: Seq<char>, number: u32) -> Seq<char> {
    let kept = clipped(trimmed(name), MAX_NAME_CHARS as nat);
    if kept.len() == 0 {
        guest_label(number)
    } else {
        kept
    }
}

/// The pieces of `text` between the separators: one more than there are separators.
pub open spec fn pieces(text: Seq<char>, separator: char) -> Seq<Seq<char>>
    decreases text.len(),
{
    if text.len() == 0 {
        seq![Seq::empty()]
    } else {
        let rest = pieces(text.drop_first(), separator);
        if text.first() == separator {
            seq![Seq::empty()] + rest
        } else {
            rest.update(0, seq![text.first()] + rest[0])
        }
    }
}

/// The order of byte sequences: by the first byte in which they differ, a prefix first.
pub open spec fn bytes_le(a: Seq<u8>, b: Seq<u8>) -> bool
    decreases a.len(),
{
    if a.len() == 0 {
        true
    } else if b.len() == 0 {
        false
    } else if a.first() != b.first() {
        a.first() < b.first()
    } else {
        bytes_le(a.drop_first(), b.drop_first())
    }
}

/// The order of texts: that of their UTF-8 bytes.
pub open spec fn text_le(a: Seq<char>, b: Seq<char>) -> bool {
    bytes_le(encode_utf8(a), encode_utf8(b))
}

pub proof fn lemma_bytes_le_total(a: Seq<u8>, b: Seq<u8>)
    ensures
        bytes_le(a, b) || bytes_le(b, a),
    decreases a.len(),
{
    if a.len() > 0 && b.len() > 0 && a.first() == b.first() {
        lemma_bytes_le_total(a.drop_first(), b.drop_first());
    }
}

pub proof fn lemma_bytes_le_transitive(a: Seq<u8>, b: Seq<u8>, c: Seq<u8>)
    requires
        bytes_le(a, b),
        bytes_le(b, c),
    ensures
        bytes_le(a, c),
    decreases a.len(),
{
    if a.len() > 0 && a.first() == b.first() && b.first() == c.first() {
        lemma_bytes_le_transitive(a.drop_first(), b.drop_first(), c.drop_first());
    }
}

fn is_white_space(c: char) -> (result: bool)
    ensures
        result == white_space(c),
{
    ('\u{9}' <= c && c <= '\u{d}') || c == '\u{20}' || c == '\u{85}' || c == '\u{a0}'
        || c == '\u{1680}' || ('\u{2000}' <= c && c <= '\u{200a}') || c == '\u{2028}'
        || c == '\u{2029}' || c == '\u{202f}' || c == '\u{205f}' || c == '\u{3000}'
}

proof fn lemma_without_leading_space(s: Seq<char>, from: int)
    requires
        0 <= from <= s.len(),
        forall|k: int| 0 <= k < from ==> white_space(#[trigger] s[k]),
        from < s.len() ==> !white_space(s[from]),
    ensures
        without_leading_space(s) == s.skip(from),
    decreases from,
{
    if from > 0 {
        lemma_without_leading_space(s.drop_first(), from - 1);
    }
}

proof fn lemma_without_trailing_space(s: Seq<char>, to: int)
    requires
        0 <= to <= s.len(),
        forall|k: int| to <= k < s.len() ==> white_space(#[trigger] s[k]),
        0 < to ==> !white_space(s[to - 1]),
    ensures
        without_trailing_space(s) == s.take(to),
    decreases s.len() - to,
{
    if to < s.len() {
        lemma_without_trailing_space(s.drop_last(), to);
    }
}

/// `s` without the white space around it.
pub fn trim(s: &str) -> (result: &str)
    ensures
        result@ == trimmed(s@),
{
    let len: usize = s.unicode_len();
    let mut from: usize = len;
    let mut to: usize = len;
    let mut i: usize = 0;
    for c in it: s.chars()
        invariant
            len == s@.len(),
            it.seq() == s@,
            i == it.index(),
            from <= to <= len,
            from < len ==> from < to <= i && !white_space(s@[from as int]) && !white_space(
                s@[to - 1],
            ),
            forall|k: int| 0 <= k < i && k < from ==> white_space(#[trigger] s@[k]),
            from < len ==> forall|k: int| to <= k < i ==> white_space(#[trigger] s@[k]),
    {
        if !is_white_space(c) {
            if from == len {
                from = i;
            }
            to = i + 1;
        }
        i = i + 1;
    }
    proof {
        lemma_without_leading_space(s@, from as int);
        let rest = s@.skip(from as int);
        lemma_without_trailing_space(rest, to - from);
    }
    s.substring_char(from, to)
}

/// The first `limit` characters of `s`, or all of it if it is shorter.
pub fn clip(s: &str, limit: usize) -> (result: String)
    ensures
        result@ == clipped(s@, limit as nat),
{
    if s.unicode_len() <= limit {
        s.to_owned()
    } else {
        s.substring_char(0, limit).to_owned()
    }
}

/// Calls `str::to_ascii_lowercase`: a copy of the text in which the letters `A` to `Z`
/// are `a` to `z` and every other character is as it was.
#[verifier::external_body]
fn to_ascii_lowercase(s: &str) -> (result: String)
    ensures
        result@ == lowered(s@),
{
    s.to_ascii_lowercase()
}

/// What an email address is stored under: trimmed, with `A` to `Z` in lower case.
pub fn normalize_email(email: &str) -> (result: String)
    ensures
        result@ == normalized(email@),
{
    to_ascii_lowercase(trim(email))
}

/// What display names are compared by: trimmed, with `A` to `Z` in lower case.
pub fn normalize_display_name(name: &str) -> (result: String)
    ensures
        result@ == normalized(name@),
{
    to_ascii_lowercase(trim(name))
}

fn append_digit(text: &mut String, d: u32)
    requires
        d < 10,
    ensures
        final(text)@ == old(text)@.push(digit(d as int)),
{
    proof {
        reveal_strlit("0");
        reveal_strlit("1");
        reveal_strlit("2");
        reveal_strlit("3");
        reveal_strlit("4");
        reveal_strlit("5");
        reveal_strlit("6");
        reveal_strlit("7");
        reveal_strlit("8");
        reveal_strlit("9");
    }
    text.append(
        match d {
            0 => "0",
            1 => "1",
            2 => "2",
            3 => "3",
            4 => "4",
            5 => "5",
            6 => "6",
            7 => "7",
            8 => "8",
            _ => "9",
        },
    );
}

/// The display name made of `name`, with `number` for a guest who gave none.
pub fn clean_name_with(name: &str, number: u32) -> (result: String)
    ensures
        result@ == cleaned_name(name@, number),
{
    let kept = clip(trim(name), MAX_NAME_CHARS);
    if !kept.as_str().is_empty() {
        return kept;
    }
    let mut label = "Guest-".to_owned();
    append_digit(&mut label, number / 1000 % 10);
    append_digit(&mut label, number / 100 % 10);
    append_digit(&mut label, number / 10 % 10);
    append_digit(&mut label, number % 10);
    label
}

/// The display name made of `name`; a guest who gave none gets a random number.
pub fn clean_name(name: &str) -> (result: String)
    ensures
        exists|number: u32| result@ == #[trigger] cleaned_name(name@, number),
{
    let number: u32 = random_number();
    clean_name_with(name, number)
}

/// Whether `a` comes before `b` in the order of texts, or equals it.
pub fn text_at_or_before(a: &str, b: &str) -> (result: bool)
    ensures
        result == text_le(a@, b@),
{
    let a_bytes = a.as_bytes();
    let b_bytes = b.as_bytes();
    let mut i: usize = 0;
    assert(a_bytes@.skip(0) =~= a_bytes@);
    assert(b_bytes@.skip(0) =~= b_bytes@);
    while i < a_bytes.len() && i < b_bytes.len() && a_bytes[i] == b_bytes[i]
        invariant
            i <= a_bytes@.len(),
            i <= b_bytes@.len(),
            bytes_le(a_bytes@, b_bytes@) == bytes_le(a_bytes@.skip(i as int), b_bytes@.skip(i as int)),
        decreases a_bytes@.len() - i,
    {
        assert(a_bytes@.skip(i as int).drop_first() =~= a_bytes@.skip(i + 1));
        assert(b_bytes@.skip(i as int).drop_first() =~= b_bytes@.skip(i + 1));
        i = i + 1;
    }
    i == a_bytes.len() || (i < b_bytes.len() && a_bytes[i] < b_bytes[i])
}

} // verus!
