//! One search attempt, and the deterministic batch scan.
//!
//! A worker tests one index at a time; a batch participant commits to a
//! contiguous block of indices per call and reports the first match in
//! it, scanning in increasing index order so the reported index is
//! reproducible.

use vstd::prelude::*;
use crate::accel::AcceleratorRuntimeError;
use crate::digest::{sha256, sha256_of};
use crate::ident::{
    generate_key_data, hash_matches_prefix_optimized, hash_to_extension_id, id_of, key_data_of,
    matches_prefix,
};

verus! {

/// Whether the candidate at a search index has an identifier that starts
/// with the prefix.
pub open spec fn counter_matches(prefix: Seq<char>, counter: u64) -> bool {
    matches_prefix(sha256_of(key_data_of(counter)), prefix)
}

/// Tests one search index: derives the candidate, hashes it, and on a
/// prefix match returns the identifier and the candidate bytes.
pub fn try_generate_match_optimized(desired_prefix: &str, counter: u64) -> (r: Option<
    (String, Vec<u8>),
>)
    ensures
        r is Some <==> counter_matches(desired_prefix@, counter),
        r matches Some((extension_id, key_data)) ==> {
            &&& extension_id@ == id_of(sha256_of(key_data_of(counter)))
            &&& key_data@ == key_data_of(counter)
        },
{
    let key_data = generate_key_data(counter);
    let hash = sha256(&key_data);
    if hash_matches_prefix_optimized(&hash, desired_prefix) {
        let extension_id = hash_to_extension_id(&hash);
        Some((extension_id, key_data))
    } else {
        None
    }
}

/// What one batch call reports: no index of the batch matched, the first
/// matching index together with its candidate bytes, or a device
/// failure.
pub enum BatchOutcome {
    NoMatch,
    Match { index: u64, key_data: Vec<u8> },
    AcceleratorError { kind: AcceleratorRuntimeError },
}

/// Scans the indices `start_index..start_index + batch_size` in
/// increasing order and reports the first match, if any.  This is the
/// behaviour every batch participant must reproduce.
pub fn search_batch(prefix: &str, start_index: u64, batch_size: u64) -> (r: BatchOutcome)
    requires
        start_index + batch_size <= u64::MAX + 1,
    ensures
        !(r is AcceleratorError),
        r is NoMatch <==> forall|j: int|
            start_index <= j < start_index + batch_size ==> !#[trigger] counter_matches(
                prefix@,
                j as u64,
            ),
        r matches BatchOutcome::Match { index, key_data } ==> {
            &&& start_index <= index < start_index + batch_size
            &&& counter_matches(prefix@, index)
            &&& key_data@ == key_data_of(index)
            &&& forall|j: int|
                start_index <= j < index ==> !#[trigger] counter_matches(prefix@, j as u64)
        },
{
    let mut i: u64 = 0;
    while i < batch_size
        invariant
            i <= batch_size,
            start_index + batch_size <= u64::MAX + 1,
            forall|j: int|
                start_index <= j < start_index + i ==> !#[trigger] counter_matches(
                    prefix@,
                    j as u64,
                ),
        decreases batch_size - i,
    {
        let index = start_index + i;
        let key_data = generate_key_data(index);
        let hash = sha256(&key_data);
        if hash_matches_prefix_optimized(&hash, prefix) {
            proof {
                let ghost j: int = index as int;
                assert(counter_matches(prefix@, j as u64));
            }
            return BatchOutcome::Match { index, key_data };
        }
        i += 1;
    }
    BatchOutcome::NoMatch
}

/// Among the indices of `[start, i]` that match, there is a first one.
proof fn lemma_least_match(prefix: Seq<char>, start: u64, i: u64)
    requires
        start <= i,
        counter_matches(prefix, i),
    ensures
        exists|j: u64|
            #![trigger counter_matches(prefix, j)]
            start <= j <= i && counter_matches(prefix, j) && (forall|k: int|
                start <= k < j ==> !#[trigger] counter_matches(prefix, k as u64)),
    decreases i - start,
{
    if forall|k: int| start <= k < i ==> !#[trigger] counter_matches(prefix, k as u64) {
        let j = i;
        assert(start <= j <= i && counter_matches(prefix, j) && (forall|k: int|
            start <= k < j ==> !#[trigger] counter_matches(prefix, k as u64)));
    } else {
        let k0 = choose|k: int| start <= k < i && #[trigger] counter_matches(prefix, k as u64);
        lemma_least_match(prefix, start, k0 as u64);
        let j = choose|j: u64|
            #![trigger counter_matches(prefix, j)]
            start <= j <= k0 as u64 && counter_matches(prefix, j) && (forall|k: int|
                start <= k < j ==> !#[trigger] counter_matches(prefix, k as u64));
        assert(start <= j <= i && counter_matches(prefix, j) && (forall|k: int|
            start <= k < j ==> !#[trigger] counter_matches(prefix, k as u64)));
    }
}

/// Liveness of a bounded scan: if some index of a batch matches the
/// prefix, the batch holds a first matching index — so a scan of the
/// batch terminates with a match no later than the known one.
pub proof fn lemma_reachable_prefix_is_found(prefix: Seq<char>, start: u64, batch_size: u64, i: u64)
    requires
        start <= i,
        i - start < batch_size,
        counter_matches(prefix, i),
    ensures
        exists|j: u64|
            #![trigger counter_matches(prefix, j)]
            start <= j <= i && counter_matches(prefix, j) && (forall|k: int|
                start <= k < j ==> !#[trigger] counter_matches(prefix, k as u64)),
{
    lemma_least_match(prefix, start, i);
}

} // verus!
