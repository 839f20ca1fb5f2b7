//! The discovery step: from a listing of item names to admissions.

use crate::item_id::{item_id_of, parse_item_id};
use crate::queue::DedupQueue;
use vstd::prelude::*;

verus! {

/// The identifiers that the entries of a listing name, in the order of the
/// listing. An entry that names none is left out.
pub open spec fn listed_ids(items: Seq<Seq<char>>) -> Seq<u32>
    decreases items.len(),
{
    if items.len() == 0 {
        Seq::empty()
    } else {
        match item_id_of(items.last()) {
            Some(id) => listed_ids(items.drop_last()).push(id),
            None => listed_ids(items.drop_last()),
        }
    }
}

/// How many entries of a listing name no identifier.
pub open spec fn unreadable_count(items: Seq<Seq<char>>) -> nat
    decreases items.len(),
{
    if items.len() == 0 {
        0
    } else {
        match item_id_of(items.last()) {
            Some(_) => unreadable_count(items.drop_last()),
            None => unreadable_count(items.drop_last()) + 1,
        }
    }
}

/// Every entry of a listing either names an identifier or is counted as
/// unreadable.
pub proof fn lemma_listing_accounted(items: Seq<Seq<char>>)
    ensures
        listed_ids(items).len() + unreadable_count(items) == items.len(),
    decreases items.len(),
{
    if items.len() > 0 {
        lemma_listing_accounted(items.drop_last());
    }
}

/// A listing as it was read: the identifiers it names, in order, and the
/// number of entries that name none.
pub struct Listing {
    pub ids: Vec<u32>,
    pub unreadable: usize,
}

/// Reads a listing entry by entry. An entry that names no identifier is
/// counted and passed over; it does not end the reading.
pub fn read_listing(items: &Vec<String>) -> (r: Listing)
    ensures
        r.ids@ == listed_ids(items.deep_view()),
        r.unreadable == unreadable_count(items.deep_view()),
{
    let ghost texts = items.deep_view();
    let mut ids: Vec<u32> = Vec::new();
    let mut unreadable: usize = 0;
    let mut i: usize = 0;
    while i < items.len()
        invariant
            i <= items.len(),
            texts == items.deep_view(),
            ids@ == listed_ids(texts.take(i as int)),
            unreadable == unreadable_count(texts.take(i as int)),
        decreases items.len() - i,
    {
        proof {
            assert(texts.take(i + 1).drop_last() =~= texts.take(i as int));
            lemma_listing_accounted(texts.take(i as int));
        }
        match parse_item_id(items[i].as_str()) {
            Some(id) => {
                ids.push(id);
            },
            None => {
                unreadable += 1;
            },
        }
        i += 1;
    }
    proof {
        assert(texts.take(items.len() as int) =~= texts);
    }
    Listing { ids, unreadable }
}

/// What one discovery did with the entries of a listing.
#[derive(Clone, Copy, Debug, PartialEq, Eq, Structural)]
pub struct Discovery {
    /// Entries whose item was admitted.
    pub admitted: usize,
    /// Entries whose item was in the queue already.
    pub already_present: usize,
    /// Entries that name no identifier.
    pub unreadable: usize,
}

/// Admits, at time `now`, each item that the listing names, in the order of
/// the listing, and reports what became of every entry.
pub fn discover(queue: &mut DedupQueue, items: &Vec<String>, now: u64) -> (r: Discovery)
    ensures
        final(queue)@ == old(queue)@.admit_all(listed_ids(items.deep_view()), now),
        r.admitted == old(queue)@.admitted_count(listed_ids(items.deep_view()), now),
        r.unreadable == unreadable_count(items.deep_view()),
        r.admitted + r.already_present + r.unreadable == items.len(),
{
    let listing = read_listing(items);
    proof {
        lemma_listing_accounted(items.deep_view());
        old(queue)@.lemma_admitted_count_bound(listing.ids@, now);
    }
    let admitted = queue.admit_all(&listing.ids, now);
    Discovery {
        admitted,
        already_present: listing.ids.len() - admitted,
        unreadable: listing.unreadable,
    }
}

} // verus!
