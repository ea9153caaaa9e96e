//! Why the search may stop after as many moves as the buffer has bytes: a
//! search that is still moving then has been at one prefix length twice,
//! and from there on it goes round for ever.

use crate::error::Error;
use crate::estimate::{lemma_step_bounds, search, step_after, Probe, Step};
use vstd::prelude::*;
use vstd::set_lib::{lemma_int_range, lemma_len_subset, set_int_range};

verus! {

/// The prefix length that the search is at after `moves` moves from
/// `total`, if every probe on the way asked for another move.
pub open spec fn total_after(content: Seq<u8>, desired: int, total: nat, moves: nat) -> Option<nat>
    decreases moves,
{
    if moves == 0 {
        Some(total)
    } else {
        match step_after(content.len(), total, desired, Probe::of_prefix(content, total)) {
            Step::Retry(next) => total_after(content, desired, next as nat, (moves - 1) as nat),
            _ => None,
        }
    }
}

/// Moves add up: `first + second` moves lead where `second` moves lead
/// from the place that `first` moves lead to.
pub proof fn lemma_moves_add(content: Seq<u8>, desired: int, total: nat, first: nat, second: nat)
    ensures
        total_after(content, desired, total, first + second) == match total_after(
            content,
            desired,
            total,
            first,
        ) {
            Some(at) => total_after(content, desired, at, second),
            None => None,
        },
    decreases first,
{
    if first > 0 {
        match step_after(content.len(), total, desired, Probe::of_prefix(content, total)) {
            Step::Retry(next) => {
                lemma_moves_add(content, desired, next as nat, (first - 1) as nat, second);
            },
            _ => {},
        }
    }
}

/// A search that can make `moves` moves can make any smaller number.
pub proof fn lemma_fewer_moves(content: Seq<u8>, desired: int, total: nat, fewer: nat, moves: nat)
    requires
        fewer <= moves,
        total_after(content, desired, total, moves) is Some,
    ensures
        total_after(content, desired, total, fewer) is Some,
{
    lemma_moves_add(content, desired, total, fewer, (moves - fewer) as nat);
}

/// Every move stays inside the buffer, and below its length.
pub proof fn lemma_moves_stay_inside(content: Seq<u8>, desired: int, total: nat, moves: nat)
    requires
        1 <= total <= content.len(),
        content.len() <= usize::MAX,
    ensures
        total_after(content, desired, total, moves) matches Some(at) ==> 1 <= at <= content.len()
            && (moves > 0 ==> at < content.len()),
    decreases moves,
{
    if moves > 0 {
        lemma_step_bounds(content.len(), total, desired, Probe::of_prefix(content, total));
        match step_after(content.len(), total, desired, Probe::of_prefix(content, total)) {
            Step::Retry(next) => {
                lemma_moves_stay_inside(content, desired, next as nat, (moves - 1) as nat);
            },
            _ => {},
        }
    }
}

/// A search that cannot make one move more than it is allowed ends the
/// same way however many more it is allowed.
pub proof fn lemma_more_retries_change_nothing(
    content: Seq<u8>,
    desired: int,
    total: nat,
    retries: nat,
    more: nat,
)
    requires
        retries <= more,
        total_after(content, desired, total, retries + 1) is None,
    ensures
        search(content, desired, total, more) == search(content, desired, total, retries),
    decreases retries,
{
    match step_after(content.len(), total, desired, Probe::of_prefix(content, total)) {
        Step::Retry(next) => {
            assert(total_after(content, desired, next as nat, 0) is Some);
            if retries > 0 {
                lemma_more_retries_change_nothing(
                    content,
                    desired,
                    next as nat,
                    (retries - 1) as nat,
                    (more - 1) as nat,
                );
            }
        },
        _ => {},
    }
}

/// A search that can make one move more than it is allowed stalls.
pub proof fn lemma_out_of_retries(content: Seq<u8>, desired: int, total: nat, retries: nat)
    requires
        total_after(content, desired, total, retries + 1) is Some,
    ensures
        search(content, desired, total, retries) == Err::<nat, Error>(Error::SearchStalled),
    decreases retries,
{
    match step_after(content.len(), total, desired, Probe::of_prefix(content, total)) {
        Step::Retry(next) => {
            if retries > 0 {
                lemma_out_of_retries(content, desired, next as nat, (retries - 1) as nat);
            }
        },
        _ => {},
    }
}

/// A search that comes back to a prefix length after at least one move can
/// make any number of moves from there.
pub proof fn lemma_round_trip(content: Seq<u8>, desired: int, total: nat, period: nat, moves: nat)
    requires
        period >= 1,
        total_after(content, desired, total, period) == Some(total),
    ensures
        total_after(content, desired, total, moves) is Some,
    decreases moves,
{
    if moves <= period {
        lemma_fewer_moves(content, desired, total, moves, period);
    } else {
        lemma_moves_add(content, desired, total, period, (moves - period) as nat);
        lemma_round_trip(content, desired, total, period, (moves - period) as nat);
    }
}

/// Among more numbers than there are values for them, two are the same.
pub proof fn lemma_pigeonhole(values: Seq<int>, bound: int)
    requires
        0 <= bound < values.len(),
        forall|i: int| 0 <= i < values.len() ==> 0 <= #[trigger] values[i] < bound,
    ensures
        exists|i: int, j: int| 0 <= i < j < values.len() && values[i] == values[j],
{
    if values.no_duplicates() {
        values.unique_seq_to_set();
        lemma_int_range(0, bound);
        assert(values.to_set().subset_of(set_int_range(0, bound))) by {
            assert forall|value: int| values.to_set().contains(value) implies set_int_range(
                0,
                bound,
            ).contains(value) by {
                let i = choose|i: int| 0 <= i < values.len() && values[i] == value;
                assert(0 <= values[i] < bound);
            }
        }
        lemma_len_subset(values.to_set(), set_int_range(0, bound));
    } else {
        let (i, j) = choose|i: int, j: int|
            0 <= i < values.len() && 0 <= j < values.len() && i != j && values[i] == values[j];
        if i < j {
            assert(values[i] == values[j]);
        } else {
            assert(values[j] == values[i]);
        }
    }
}

/// As many moves as the buffer has bytes are enough: a search that is
/// allowed more ends the same way. So a search stalls only where no number
/// of moves would bring it to an end.
pub proof fn lemma_retries_suffice(content: Seq<u8>, desired: int, more: nat)
    requires
        0 < content.len() <= usize::MAX,
        more >= content.len(),
    ensures
        search(content, desired, content.len(), more) == search(
            content,
            desired,
            content.len(),
            content.len(),
        ),
{
    let len = content.len();
    if total_after(content, desired, len, len + 1) is None {
        lemma_more_retries_change_nothing(content, desired, len, len, more);
    } else {
        // The search makes a move more than the buffer has bytes, all of them
        // but the start to a prefix shorter than the buffer.
        let places = Seq::new(
            len,
            |k: int| total_after(content, desired, len, (k + 1) as nat)->Some_0 as int - 1,
        );
        assert forall|k: int| 0 <= k < places.len() implies 0 <= #[trigger] places[k] < len
            - 1 by {
            lemma_fewer_moves(content, desired, len, (k + 1) as nat, len + 1);
            lemma_moves_stay_inside(content, desired, len, (k + 1) as nat);
        }
        lemma_pigeonhole(places, len - 1);
        let (i, j) = choose|i: int, j: int|
            0 <= i < j < places.len() && places[i] == places[j];
        let first = (i + 1) as nat;
        let second = (j + 1) as nat;
        lemma_fewer_moves(content, desired, len, first, len + 1);
        lemma_fewer_moves(content, desired, len, second, len + 1);
        let at = total_after(content, desired, len, first)->Some_0;
        let period = (second - first) as nat;
        lemma_moves_add(content, desired, len, first, period);
        assert(total_after(content, desired, at, period) == Some(at));
        // From there it goes round: any number of moves can be made.
        lemma_round_trip(content, desired, at, period, (more + 1 - first) as nat);
        lemma_moves_add(content, desired, len, first, (more + 1 - first) as nat);
        lemma_out_of_retries(content, desired, len, more);
        lemma_out_of_retries(content, desired, len, len);
    }
}

} // verus!
