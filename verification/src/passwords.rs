//! Passwords: hashing them, and checking them against a stored hash.

use crate::error::{answer, internal, ApiError, ErrorView};
use crate::text::pieces;
use argon2::password_hash::rand_core::OsRng;
use argon2::password_hash::{PasswordHash, PasswordHasher, PasswordVerifier, SaltString};
use argon2::Argon2;
use vstd::prelude::*;
use vstd::utf8::encode_utf8;

verus! {

/// An error of the `password-hash` crate, which `argon2` hands on. Nothing is read from it.
#[verifier::external_type_specification]
#[verifier::external_body]
pub struct ExPasswordHashError(argon2::password_hash::Error);

/// Whether `c` is a character of unpadded standard Base64.
pub open spec fn base64_char(c: char) -> bool {
    'A' <= c <= 'Z' || 'a' <= c <= 'z' || '0' <= c <= '9' || c == '+' || c == '/'
}

/// Whether `salt` is sixteen bytes in unpadded standard Base64.
pub open spec fn salt_shape(salt: Seq<char>) -> bool {
    &&& salt.len() == 22
    &&& forall|i: int| 0 <= i < salt.len() ==> base64_char(#[trigger] salt[i])
    &&& salt.last() == 'A' || salt.last() == 'Q' || salt.last() == 'g' || salt.last() == 'w'
}

/// Whether `text` is `least` to `most` characters of unpadded standard Base64.
pub open spec fn base64_text(text: Seq<char>, least: nat, most: nat) -> bool {
    least <= text.len() <= most && forall|i: int|
        0 <= i < text.len() ==> base64_char(#[trigger] text[i])
}

/// Whether `text` is a whole number of at most ten digits, without needless zeros.
pub open spec fn decimal_text(text: Seq<char>) -> bool {
    &&& 1 <= text.len() <= 10
    &&& forall|i: int| 0 <= i < text.len() ==> '0' <= #[trigger] text[i] <= '9'
    &&& text.len() > 1 ==> text[0] != '0'
}

/// Whether `text` names an algorithm of the Argon2 family.
pub open spec fn algorithm_text(text: Seq<char>) -> bool {
    text == "argon2d"@ || text == "argon2i"@ || text == "argon2id"@
}

/// Whether `text` names a version of Argon2.
pub open spec fn version_text(text: Seq<char>) -> bool {
    text == "v=16"@ || text == "v=19"@
}

/// Whether `text` is a setting of Argon2: its memory, passes or lanes and a number, or the
/// key's identifier or associated data in Base64.
pub open spec fn setting_text(text: Seq<char>) -> bool {
    let sides = pieces(text, '=');
    &&& sides.len() == 2
    &&& {
        ||| (sides[0] == "m"@ || sides[0] == "t"@ || sides[0] == "p"@) && decimal_text(sides[1])
        ||| sides[0] == "keyid"@ && base64_text(sides[1], 0, 11)
        ||| sides[0] == "data"@ && base64_text(sides[1], 0, 43)
    }
}

/// Whether `text` is a list of settings with commas between them.
pub open spec fn settings_text(text: Seq<char>) -> bool {
    text.len() <= 127 && forall|i: int|
        0 <= i < pieces(text, ',').len() ==> setting_text(#[trigger] pieces(text, ',')[i])
}

/// Whether `text` has the form of an Argon2 hash string. A dollar sign stands before each
/// field: the algorithm, the version and the settings if they are given, a salt of eight to
/// forty-eight bytes, and a digest of ten to sixty-four.
pub open spec fn hash_shape(text: Seq<char>) -> bool {
    let fields = pieces(text, '$');
    let last = fields.len() - 1;
    &&& 3 <= last <= 5
    &&& fields[0].len() == 0
    &&& algorithm_text(fields[1])
    &&& last == 4 ==> version_text(fields[2]) || settings_text(fields[2])
    &&& last == 5 ==> version_text(fields[2]) && settings_text(fields[3])
    &&& base64_text(fields[last - 1], 11, 64)
    &&& base64_text(fields[last], 14, 86)
}

/// How many characters `p=` and nine digits have.
pub const LANES_LENGTH: usize = 11;

/// Whether `c` can stand at place `k` of `p=` and digits.
pub open spec fn lanes_char(k: int, c: char) -> bool {
    if k == 0 {
        c == 'p'
    } else if k == 1 {
        c == '='
    } else {
        '0' <= c <= '9'
    }
}

/// Whether the `n` characters of `text` from `from` on are the beginning of `p=` and digits.
pub open spec fn lanes_at(text: Seq<char>, from: int, n: int) -> bool {
    0 <= from && from + n <= text.len() && forall|k: int|
        0 <= k < n ==> lanes_char(k, #[trigger] text[from + k])
}

/// Whether, in the first `end` characters of `text`, nine digits follow the last `p=`.
pub open spec fn lanes_before(text: Seq<char>, end: int) -> bool {
    exists|from: int|
        from + LANES_LENGTH <= end && #[trigger] lanes_at(text, from, LANES_LENGTH as int)
            && forall|other: int| #[trigger]
            lanes_at(text, other, 2) && other + 2 <= end ==> other <= from
}

/// Whether nine digits follow the last `p=` of `text`: a hash string that asks for a hundred
/// million lanes or more, which is over what Argon2 allows. Where the lanes are given more
/// than once, the last number counts.
pub open spec fn too_many_lanes(text: Seq<char>) -> bool {
    lanes_before(text, text.len() as int)
}

/// The hash string that Argon2 with its default parameters makes of `password` with the
/// Base64 salt `salt`; nothing if it refuses them.
pub uninterp spec fn password_digest(password: Seq<char>, salt: Seq<char>) -> Option<Seq<char>>;

/// Whether `hash` is a hash string that Argon2 accepts `password` for.
pub uninterp spec fn password_matches(hash: Seq<char>, password: Seq<char>) -> bool;

/// Whether `hash` accepts `password`. A hash that asks for too many lanes accepts none.
pub open spec fn hash_accepts(hash: Seq<char>, password: Seq<char>) -> bool {
    !too_many_lanes(hash) && password_matches(hash, password)
}

/// Calls `SaltString::generate` of the `password-hash` crate with the system's generator.
/// Claims that the salt is sixteen bytes in Base64; which bytes is left to chance. That the
/// generator answers is taken for granted.
#[verifier::external_body]
fn fresh_salt() -> (salt: String)
    ensures
        salt_shape(salt@),
{
    SaltString::generate(&mut OsRng).as_str().to_string()
}

/// Calls `PasswordHasher::hash_password` on `Argon2::default()` with the password's UTF-8
/// bytes, and writes the hash out as a string. Claims that the outcome depends on the
/// password and the salt alone; that a hash so made names one lane, and is one that
/// `PasswordVerifier` accepts that password for; and that a well formed salt and a password
/// that fits a 32-bit length are not refused. That there is memory for the computation is
/// taken for granted.
#[verifier::external_body]
fn salted_digest(
    password: &str,
    salt: &str,
) -> (result: Result<String, argon2::password_hash::Error>)
    ensures
        match result {
            Ok(hash) => password_digest(password@, salt@) == Some(hash@),
            Err(_) => password_digest(password@, salt@) is None,
        },
        result matches Ok(hash) ==> !too_many_lanes(hash@) && password_matches(hash@, password@),
        salt_shape(salt@) && encode_utf8(password@).len() <= u32::MAX ==> result is Ok,
{
    let salt = SaltString::from_b64(salt)?;
    let hash = Argon2::default().hash_password(password.as_bytes(), &salt)?;
    Ok(hash.to_string())
}

/// Calls `PasswordHash::new` on the hash string and `PasswordVerifier::verify_password` on
/// `Argon2::default()` with the password's UTF-8 bytes. Claims that the outcome depends on
/// the hash string and the password alone, and that a string without the form of a hash
/// accepts no password. A string that asks for too many lanes is left out: their number is
/// multiplied by eight before it is checked, and the product may not fit 32 bits. That
/// there is memory for the parameters that the hash names is taken for granted. Nothing is
/// said of a password other than the one that a hash was made of: two can have the same hash.
#[verifier::external_body]
fn digest_accepts(hash: &str, password: &str) -> (result: bool)
    requires
        !too_many_lanes(hash@),
    ensures
        result == password_matches(hash@, password@),
        result ==> hash_shape(hash@),
{
    match PasswordHash::new(hash) {
        Ok(parsed) => Argon2::default().verify_password(password.as_bytes(), &parsed).is_ok(),
        Err(_) => false,
    }
}

/// What comes of hashing, once Argon2 has answered.
pub open spec fn hash_outcome(digest: Option<Seq<char>>) -> Result<Seq<char>, ErrorView> {
    match digest {
        Some(hash) => Ok(hash),
        None => Err(internal("Unable to hash password."@)),
    }
}

/// Whether hashing `password` with a random salt can come out as `hash`. A hash accepts the
/// password it was made of, and every password that fits a 32-bit length gets one.
pub open spec fn drawn_hash(password: Seq<char>, hash: Result<Seq<char>, ErrorView>) -> bool {
    &&& exists|salt: Seq<char>|
        salt_shape(salt) && hash == hash_outcome(#[trigger] password_digest(password, salt))
    &&& hash matches Ok(text) ==> hash_accepts(text, password)
    &&& encode_utf8(password).len() <= u32::MAX ==> hash is Ok
}

/// Hashes a password with the given Base64 salt.
pub fn hash_password_with(password: &str, salt: &str) -> (result: Result<String, ApiError>)
    ensures
        answer(result) == hash_outcome(password_digest(password@, salt@)),
        result matches Ok(hash) ==> hash_accepts(hash@, password@),
        salt_shape(salt@) && encode_utf8(password@).len() <= u32::MAX ==> result is Ok,
{
    match salted_digest(password, salt) {
        Ok(hash) => Ok(hash),
        Err(_) => Err(ApiError::internal("Unable to hash password.")),
    }
}

/// Hashes a password with a random salt.
pub fn hash_password(password: &str) -> (result: Result<String, ApiError>)
    ensures
        drawn_hash(password@, answer(result)),
{
    let salt = fresh_salt();
    hash_password_with(password, salt.as_str())
}

/// One more character: `p=` begins anew, the ninth digit completes, anything else changes
/// nothing.
proof fn lemma_lanes_before(text: Seq<char>, end: int)
    requires
        0 < end <= text.len(),
    ensures
        lanes_at(text, end - 2, 2) ==> !lanes_before(text, end),
        lanes_at(text, end - LANES_LENGTH, LANES_LENGTH as int) ==> lanes_before(text, end),
        !lanes_at(text, end - 2, 2) && !lanes_at(text, end - LANES_LENGTH, LANES_LENGTH as int)
            ==> lanes_before(text, end) == lanes_before(text, end - 1),
{
    let from = end - LANES_LENGTH;
    if lanes_at(text, from, LANES_LENGTH as int) {
        assert forall|other: int| #[trigger]
            lanes_at(text, other, 2) && other + 2 <= end implies other <= from by {
            if other > from {
                assert(lanes_char(other - from, text[from + (other - from)]));
                assert(lanes_char(0, text[other + 0]));
            }
        }
    }
}

fn is_lanes_char(k: usize, c: char) -> (result: bool)
    ensures
        result == lanes_char(k as int, c),
{
    if k == 0 {
        c == 'p'
    } else if k == 1 {
        c == '='
    } else {
        '0' <= c && c <= '9'
    }
}

/// Whether the hash asks for more lanes than Argon2 can be asked about.
fn asks_too_many_lanes(hash: &str) -> (result: bool)
    ensures
        result == too_many_lanes(hash@),
{
    let mut seen: usize = 0;
    let mut found = false;
    let ghost mut i: int = 0;
    for c in it: hash.chars()
        invariant
            it.seq() == hash@,
            i == it.index(),
            seen < LANES_LENGTH,
            seen <= i,
            lanes_at(hash@, i - seen, seen as int),
            forall|from: int, n: int| #[trigger]
                lanes_at(hash@, from, n) && from + n == i && 0 < n < LANES_LENGTH ==> n == seen,
            found == lanes_before(hash@, i),
    {
        if is_lanes_char(seen, c) {
            seen = seen + 1;
        } else if c == 'p' {
            seen = 1;
        } else {
            seen = 0;
        }
        proof {
            i = i + 1;
            assert forall|from: int, n: int| #[trigger]
                lanes_at(hash@, from, n) && from + n == i && 0 < n <= LANES_LENGTH implies n
                == seen by {
                assert(lanes_char(n - 1, hash@[from + (n - 1)]));
                if n > 1 {
                    assert(lanes_at(hash@, from, n - 1));
                }
            }
        }
        proof {
            lemma_lanes_before(hash@, i);
        }
        if seen == 2 {
            found = false;
        } else if seen == LANES_LENGTH {
            found = true;
            seen = 0;
        }
    }
    found
}

/// Whether the stored hash accepts the password. A text without the form of a hash accepts
/// none.
pub fn verify_password(hash: &str, password: &str) -> (result: bool)
    ensures
        result == hash_accepts(hash@, password@),
        result ==> hash_shape(hash@),
{
    !asks_too_many_lanes(hash) && digest_accepts(hash, password)
}

} // verus!
