//! Promises about stored hashes: which texts are none.

use crate::passwords::{algorithm_text, base64_text, decimal_text, hash_shape, setting_text};
use crate::passwords::{settings_text, version_text};
use crate::text::pieces;
use vstd::prelude::*;

verus! {

/// A text has at least one piece.
proof fn lemma_some_piece(text: Seq<char>, separator: char)
    ensures
        pieces(text, separator).len() > 0,
    decreases text.len(),
{
    if text.len() > 0 {
        lemma_some_piece(text.drop_first(), separator);
    }
}

/// A text without separators is one piece.
proof fn lemma_one_piece(text: Seq<char>, separator: char)
    requires
        !text.contains(separator),
    ensures
        pieces(text, separator) == seq![text],
    decreases text.len(),
{
    if text.len() > 0 {
        lemma_one_piece(text.drop_first(), separator);
        assert(seq![text.first()] + text.drop_first() =~= text);
    } else {
        assert(text =~= Seq::<char>::empty());
    }
}

/// What stands before the first separator is the first piece; the others are those of the
/// rest.
proof fn lemma_first_piece(first: Seq<char>, separator: char, rest: Seq<char>)
    requires
        !first.contains(separator),
    ensures
        pieces(first + seq![separator] + rest, separator) == seq![first] + pieces(rest, separator),
    decreases first.len(),
{
    let text = first + seq![separator] + rest;
    if first.len() > 0 {
        let shorter = first.drop_first();
        lemma_first_piece(shorter, separator, rest);
        assert(text.drop_first() =~= shorter + seq![separator] + rest);
        assert(seq![first.first()] + shorter =~= first);
    } else {
        assert(text.drop_first() =~= rest);
        assert(first =~= Seq::<char>::empty());
    }
}

/// A hash begins with a dollar sign: an empty text and one that begins otherwise are none.
pub proof fn law_a_hash_begins_with_a_dollar_sign(text: Seq<char>)
    requires
        hash_shape(text),
    ensures
        text.len() > 0,
        text[0] == '$',
{
    lemma_some_piece(text.drop_first(), '$');
}

/// A hash is as good as its fields: where the version and the settings are given, it is one if
/// and only if each field is well formed.
pub proof fn law_a_hash_is_its_fields(
    algorithm: Seq<char>,
    version: Seq<char>,
    settings: Seq<char>,
    salt: Seq<char>,
    digest: Seq<char>,
)
    requires
        !algorithm.contains('$'),
        !version.contains('$'),
        !settings.contains('$'),
        !salt.contains('$'),
        !digest.contains('$'),
    ensures
        hash_shape(
            seq!['$'] + algorithm + seq!['$'] + version + seq!['$'] + settings + seq!['$'] + salt
                + seq!['$'] + digest,
        ) <==> algorithm_text(algorithm) && version_text(version) && settings_text(settings)
            && base64_text(salt, 11, 64) && base64_text(digest, 14, 86),
{
    let end = salt + seq!['$'] + digest;
    let middle = settings + seq!['$'] + end;
    let most = version + seq!['$'] + middle;
    let all = algorithm + seq!['$'] + most;
    let nothing = Seq::<char>::empty();
    lemma_one_piece(digest, '$');
    lemma_first_piece(salt, '$', digest);
    lemma_first_piece(settings, '$', end);
    lemma_first_piece(version, '$', middle);
    lemma_first_piece(algorithm, '$', most);
    lemma_first_piece(nothing, '$', all);
    let text = seq!['$'] + algorithm + seq!['$'] + version + seq!['$'] + settings + seq!['$']
        + salt + seq!['$'] + digest;
    assert(text =~= nothing + seq!['$'] + all);
}

/// A list of settings is as good as its first and the rest.
pub proof fn law_settings_are_each_a_setting(first: Seq<char>, rest: Seq<char>)
    requires
        !first.contains(','),
        first.len() + rest.len() < 127,
    ensures
        settings_text(first + seq![','] + rest) <==> setting_text(first) && settings_text(rest),
{
    let text = first + seq![','] + rest;
    let others = pieces(rest, ',');
    lemma_first_piece(first, ',', rest);
    assert(pieces(text, ',')[0] == first);
    assert forall|i: int| 0 <= i < others.len() implies #[trigger] others[i] == pieces(text, ',')[i
        + 1] by {}
}

/// A text without a comma is a list of settings if and only if it is a setting.
pub proof fn law_one_setting_is_a_list(text: Seq<char>)
    requires
        !text.contains(','),
        text.len() <= 127,
    ensures
        settings_text(text) <==> setting_text(text),
{
    lemma_one_piece(text, ',');
    assert(pieces(text, ',')[0] == text);
}

/// A setting is a name, an equals sign and a value: a text with none or with two is no
/// setting, nor is one with a name that Argon2 does not know.
pub proof fn law_a_setting_is_a_name_and_a_value(name: Seq<char>, value: Seq<char>)
    requires
        !name.contains('='),
    ensures
        !setting_text(name),
        setting_text(name + seq!['='] + value) <==> !value.contains('=') && {
            ||| (name == "m"@ || name == "t"@ || name == "p"@) && decimal_text(value)
            ||| name == "keyid"@ && base64_text(value, 0, 11)
            ||| name == "data"@ && base64_text(value, 0, 43)
        },
{
    lemma_one_piece(name, '=');
    lemma_first_piece(name, '=', value);
    if value.contains('=') {
        let i = choose|i: int| 0 <= i < value.len() && value[i] == '=';
        lemma_pieces_with_separator(value, '=', i);
    } else {
        lemma_one_piece(value, '=');
    }
}

/// A text with a separator has more than one piece.
proof fn lemma_pieces_with_separator(text: Seq<char>, separator: char, at: int)
    requires
        0 <= at < text.len(),
        text[at] == separator,
    ensures
        pieces(text, separator).len() > 1,
    decreases text.len(),
{
    lemma_some_piece(text.drop_first(), separator);
    if text.first() != separator {
        lemma_pieces_with_separator(text.drop_first(), separator, at - 1);
    }
}

} // verus!
