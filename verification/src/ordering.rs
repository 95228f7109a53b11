//! Lists kept in order: by name, by age, and by latest change.

use crate::text::{lemma_bytes_le_total, lemma_bytes_le_transitive, text_at_or_before, text_le};
use crate::time::Timestamp;
use vstd::prelude::*;
use vstd::utf8::encode_utf8;

verus! {

/// What is listed by name.
pub trait Named {
    spec fn name(&self) -> Seq<char>;

    fn name_text(&self) -> (result: &str)
        ensures
            result@ == self.name(),
    ;
}

/// What is listed by age or by latest change.
pub trait Dated {
    spec fn created(&self) -> Timestamp;

    spec fn updated(&self) -> Timestamp;

    fn creation(&self) -> (result: Timestamp)
        ensures
            result == self.created(),
    ;

    fn latest_change(&self) -> (result: Timestamp)
        ensures
            result == self.updated(),
    ;
}

pub open spec fn by_name<T: Named>(items: Seq<T>) -> bool {
    forall|i: int, j: int|
        0 <= i < j < items.len() ==> text_le(
            (#[trigger] items[i]).name(),
            (#[trigger] items[j]).name(),
        )
}

pub open spec fn oldest_first<T: Dated>(items: Seq<T>) -> bool {
    forall|i: int, j: int|
        0 <= i < j < items.len() ==> (#[trigger] items[i]).created().no_later_than(
            (#[trigger] items[j]).created(),
        )
}

pub open spec fn latest_first<T: Dated>(items: Seq<T>) -> bool {
    forall|i: int, j: int|
        0 <= i < j < items.len() ==> (#[trigger] items[j]).updated().no_later_than(
            (#[trigger] items[i]).updated(),
        )
}

/// Puts `item` into a list that is in order of names, so that it stays in order.
pub fn insert_by_name<T: Named>(items: &mut Vec<T>, item: T) -> (at: usize)
    requires
        by_name(old(items)@),
    ensures
        at <= old(items)@.len(),
        final(items)@ == old(items)@.insert(at as int, item),
        by_name(final(items)@),
{
    let ghost before = items@;
    let mut at: usize = 0;
    while at < items.len() && text_at_or_before(items[at].name_text(), item.name_text())
        invariant
            items@ == before,
            at <= items@.len(),
            forall|i: int| 0 <= i < at ==> text_le((#[trigger] items@[i]).name(), item.name()),
        decreases items@.len() - at,
    {
        at = at + 1;
    }
    items.insert(at, item);
    proof {
        let after = items@;
        if at < before.len() {
            lemma_bytes_le_total(encode_utf8(before[at as int].name()), encode_utf8(item.name()));
        }
        assert forall|i: int, j: int| 0 <= i < j < after.len() implies text_le(
            (#[trigger] after[i]).name(),
            (#[trigger] after[j]).name(),
        ) by {
            if i == at && j - 1 > at {
                lemma_bytes_le_transitive(
                    encode_utf8(item.name()),
                    encode_utf8(before[at as int].name()),
                    encode_utf8(before[j - 1].name()),
                );
            }
        }
    }
    at
}

/// Puts `item` into a list with the oldest first, so that it stays in order.
pub fn insert_by_age<T: Dated>(items: &mut Vec<T>, item: T) -> (at: usize)
    requires
        oldest_first(old(items)@),
    ensures
        at <= old(items)@.len(),
        final(items)@ == old(items)@.insert(at as int, item),
        oldest_first(final(items)@),
{
    let ghost before = items@;
    let mut at: usize = 0;
    while at < items.len() && items[at].creation().at_or_before(&item.creation())
        invariant
            items@ == before,
            at <= items@.len(),
            forall|i: int|
                0 <= i < at ==> (#[trigger] items@[i]).created().no_later_than(item.created()),
        decreases items@.len() - at,
    {
        at = at + 1;
    }
    items.insert(at, item);
    at
}

/// Puts `item` into a list with the latest change first, so that it stays in order.
pub fn insert_by_change<T: Dated>(items: &mut Vec<T>, item: T) -> (at: usize)
    requires
        latest_first(old(items)@),
    ensures
        at <= old(items)@.len(),
        final(items)@ == old(items)@.insert(at as int, item),
        latest_first(final(items)@),
{
    let ghost before = items@;
    let mut at: usize = 0;
    while at < items.len() && item.latest_change().at_or_before(&items[at].latest_change())
        invariant
            items@ == before,
            at <= items@.len(),
            forall|i: int|
                0 <= i < at ==> item.updated().no_later_than((#[trigger] items@[i]).updated()),
        decreases items@.len() - at,
    {
        at = at + 1;
    }
    items.insert(at, item);
    at
}

} // verus!
