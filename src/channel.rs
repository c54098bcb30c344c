//! The shared total: a tokio watch channel that holds the absolute progress.
//! Every node holds a sender; readers are receivers of the same channel.
use tokio::sync::watch::{Receiver, Sender};
use crate::conversion::sum_of;
use vstd::arithmetic::div_mod::{
    lemma_add_mod_noop, lemma_fundamental_div_mod_converse_mod, lemma_small_mod,
};
use vstd::prelude::*;

verus! {

#[verifier::external_type_specification]
#[verifier::external_body]
#[verifier::reject_recursive_types(T)]
pub struct ExSender<T>(Sender<T>);

#[verifier::external_type_specification]
#[verifier::external_body]
#[verifier::reject_recursive_types(T)]
pub struct ExReceiver<T>(Receiver<T>);

/// The largest value of the total plus one: the total wraps around there.
pub open spec fn total_modulus() -> int {
    u64::MAX as int + 1
}

/// The total after `delta` is added to `total`, in wrapping `u64` arithmetic.
pub open spec fn added(total: u64, delta: u64) -> u64 {
    ((total as int + delta as int) % total_modulus()) as u64
}

/// Adds `delta` to the total in place. This is the only change the shared
/// total ever undergoes.
pub fn add_delta(total: &mut u64, delta: u64)
    ensures
        *final(total) == added(*old(total), delta),
{
    let room: u64 = u64::MAX - *total;
    let sum: Ghost<int> = Ghost(*total as int + delta as int);
    if delta <= room {
        proof {
            lemma_fundamental_div_mod_converse_mod(sum@, total_modulus(), 0, sum@);
        }
        *total = *total + delta;
    } else {
        proof {
            lemma_fundamental_div_mod_converse_mod(sum@, total_modulus(), 1, sum@ - total_modulus());
        }
        *total = delta - room - 1;
    }
}

/// The total after each of `deltas` is added in turn to a total of zero.
pub open spec fn accumulated(deltas: Seq<u64>) -> u64
    decreases deltas.len(),
{
    if deltas.len() == 0 {
        0
    } else {
        added(accumulated(deltas.drop_last()), deltas.last())
    }
}

/// Raw accumulation: adding deltas one by one to a total that starts at zero
/// gives their sum, taken modulo the wrapping bound; the sum itself where it
/// fits in a `u64`. The sum does not depend on the order of the deltas, so
/// neither does the total.
pub proof fn lemma_raw_accumulation(deltas: Seq<u64>)
    ensures
        accumulated(deltas) as int == sum_of(deltas) % total_modulus(),
        sum_of(deltas) <= u64::MAX ==> accumulated(deltas) as int == sum_of(deltas),
    decreases deltas.len(),
{
    if deltas.len() == 0 {
        lemma_small_mod(0, total_modulus() as nat);
    } else {
        let before = deltas.drop_last();
        lemma_raw_accumulation(before);
        let d = deltas.last() as int;
        lemma_small_mod(d as nat, total_modulus() as nat);
        lemma_add_mod_noop(sum_of(before), d, total_modulus());
        assert(sum_of(deltas) == sum_of(before) + d);
        if sum_of(deltas) <= u64::MAX {
            assert(0 <= sum_of(deltas)) by {
                lemma_sum_nonnegative(deltas);
            }
            lemma_small_mod(sum_of(deltas) as nat, total_modulus() as nat);
        }
    }
}

/// Order independence of raw accumulation: deltas that are the same up to
/// order, however the writers' calls were interleaved, give the same total.
pub proof fn lemma_accumulation_order(deltas: Seq<u64>, reordered: Seq<u64>)
    requires
        deltas.to_multiset() == reordered.to_multiset(),
    ensures
        accumulated(deltas) == accumulated(reordered),
{
    lemma_sum_permutation(deltas, reordered);
    lemma_raw_accumulation(deltas);
    lemma_raw_accumulation(reordered);
}

proof fn lemma_sum_remove(values: Seq<u64>, i: int)
    requires
        0 <= i < values.len(),
    ensures
        sum_of(values) == sum_of(values.remove(i)) + values[i],
    decreases values.len(),
{
    if i < values.len() - 1 {
        let before = values.drop_last();
        lemma_sum_remove(before, i);
        assert(values.remove(i).drop_last() =~= before.remove(i));
        assert(values.remove(i).last() == values.last());
    } else {
        assert(values.remove(i) =~= values.drop_last());
    }
}

proof fn lemma_sum_permutation(values: Seq<u64>, other: Seq<u64>)
    requires
        values.to_multiset() == other.to_multiset(),
    ensures
        sum_of(values) == sum_of(other),
    decreases values.len(),
{
    broadcast use vstd::seq_lib::group_to_multiset_ensures;
    if values.len() == 0 {
        assert(other.to_multiset().len() == 0);
    } else {
        let x = values.last();
        let before = values.drop_last();
        assert(values =~= before.push(x));
        assert(values.to_multiset().count(x) > 0);
        assert(other.contains(x));
        let i = choose|i: int| 0 <= i < other.len() && other[i] == x;
        assert(before.to_multiset() =~= values.to_multiset().remove(x));
        assert(other.remove(i).to_multiset() =~= other.to_multiset().remove(x));
        lemma_sum_permutation(before, other.remove(i));
        lemma_sum_remove(other, i);
    }
}

proof fn lemma_sum_nonnegative(values: Seq<u64>)
    ensures
        0 <= sum_of(values),
    decreases values.len(),
{
    if values.len() > 0 {
        lemma_sum_nonnegative(values.drop_last());
    }
}

/// Which channel a sender adds to: senders of one channel share the value.
pub uninterp spec fn sender_channel(tx: Sender<u64>) -> int;

/// Which channel a receiver reads.
pub uninterp spec fn receiver_channel(rx: Receiver<u64>) -> int;

/// Adds `delta` to the total in place, and records in `seen` the total just
/// before and just after.
pub fn record_delta(total: &mut u64, delta: u64, seen: &mut (u64, u64))
    ensures
        *final(total) == added(*old(total), delta),
        *final(seen) == (*old(total), *final(total)),
{
    let before: u64 = *total;
    add_delta(total, delta);
    *seen = (before, *total);
}

/// Relies on `tokio::sync::watch::channel`: opens a channel whose value starts
/// at `initial`; the first receiver is dropped, readers subscribe later.
#[verifier::external_body]
pub(crate) fn open_channel(initial: u64) -> (tx: Sender<u64>) {
    let (tx, _rx) = tokio::sync::watch::channel(initial);
    tx
}

/// Relies on `Clone` for `tokio::sync::watch::Sender`: another sender of the
/// same channel.
#[verifier::external_body]
pub(crate) fn share(tx: &Sender<u64>) -> (r: Sender<u64>)
    ensures
        sender_channel(r) == sender_channel(*tx),
{
    tx.clone()
}

/// Relies on `tokio::sync::watch::Sender::subscribe`: a receiver of the same
/// channel.
#[verifier::external_body]
pub(crate) fn subscribe_to(tx: &Sender<u64>) -> (r: Receiver<u64>)
    ensures
        receiver_channel(r) == sender_channel(*tx),
{
    tx.subscribe()
}

/// Relies on `tokio::sync::watch::Receiver::mark_changed`: the receiver
/// reports a change before its next read; it stays on its channel.
#[verifier::external_body]
pub(crate) fn mark_unseen(rx: &mut Receiver<u64>)
    ensures
        receiver_channel(*final(rx)) == receiver_channel(*old(rx)),
{
    rx.mark_changed()
}

/// Relies on `tokio::sync::watch::Sender::send_modify`: under the channel's
/// lock, calls the closure once on the value, which applies `record_delta`,
/// and notifies every receiver. Returns the total just before and just after.
#[verifier::external_body]
pub(crate) fn push(tx: &Sender<u64>, delta: u64) -> (r: (u64, u64))
    ensures
        r.1 == added(r.0, delta),
{
    let mut seen: (u64, u64) = (0, 0);
    tx.send_modify(|total| record_delta(total, delta, &mut seen));
    seen
}

} // verus!
