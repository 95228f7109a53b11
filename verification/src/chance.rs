//! What the service draws at random: identifiers, picks and numbers. That the system's
//! generator, which all of it comes from, answers is taken for granted.

use rand::seq::IteratorRandom;
use rand::RngCore;
use vstd::prelude::*;

verus! {

/// Whether `id` has the shape of a random identifier: version 4, RFC 4122 variant.
pub open spec fn random_id_shape(id: u128) -> bool {
    (id >> 76u128) & 0xf == 4 && (id >> 62u128) & 0x3 == 2
}

/// Calls `uuid::Uuid::new_v4`, which draws a fresh random identifier. Claims only the
/// version and variant bits, which every such identifier carries; that it differs from
/// all earlier ones is likely, not certain.
#[verifier::external_body]
pub(crate) fn new_id() -> (id: u128)
    ensures
        random_id_shape(id),
{
    uuid::Uuid::new_v4().as_u128()
}

/// Calls `rand`'s `IteratorRandom::choose` with the thread's generator: one of
/// `candidates`, or nothing if there is none. Which one is left to chance.
#[verifier::external_body]
pub(crate) fn choose_one(candidates: &Vec<u128>) -> (choice: Option<u128>)
    ensures
        choice is None <==> candidates@.len() == 0,
        choice matches Some(id) ==> candidates@.contains(id),
{
    candidates.iter().copied().choose(&mut rand::thread_rng())
}

/// Calls `rand`'s `RngCore::next_u32` on the thread's generator. Claims nothing of the
/// number: every one can come.
#[verifier::external_body]
pub(crate) fn random_number() -> (number: u32)
{
    rand::thread_rng().next_u32()
}

} // verus!
