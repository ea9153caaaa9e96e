//! The search for a chunk size: how long a prefix of the input may be so
//! that its QR code has the wanted version.

use crate::encoder::{encode_version, encoded_version, EncodeFailure, SymbolVersion};
use crate::error::Error;
use vstd::prelude::*;
use vstd::slice::slice_subrange;

verus! {

/// The smallest version that can be asked for.
pub const MIN_VERSION: u8 = 1;

/// The largest version that can be asked for.
pub const MAX_VERSION: u8 = 40;

/// What encoding a candidate prefix told the search.
#[derive(Clone, Copy, Debug, PartialEq, Eq, Structural)]
pub enum Probe {
    /// The prefix fits a regular QR code of this version.
    Encoded(i16),
    /// The prefix is too long for any QR code.
    CapacityExceeded,
    /// Anything else: another encoder error, or a Micro QR code.
    Failed,
}

/// What the search does after one probe.
#[derive(Clone, Copy, Debug, PartialEq, Eq, Structural)]
pub enum Step {
    /// The search is over; this is the chunk size.
    Finished(usize),
    /// Probe a prefix of this length next.
    Retry(usize),
    /// The next prefix would be empty or the same as this one.
    Stalled,
    /// The probe failed for good.
    Fatal,
}

impl Probe {
    /// The probe that an encoder outcome stands for.
    pub open spec fn of(outcome: Result<SymbolVersion, EncodeFailure>) -> Probe {
        match outcome {
            Ok(SymbolVersion::Normal(version)) => Probe::Encoded(version),
            Ok(SymbolVersion::Micro(_)) => Probe::Failed,
            Err(EncodeFailure::DataTooLong) => Probe::CapacityExceeded,
            Err(_) => Probe::Failed,
        }
    }

    /// The probe of the first `total` bytes of `content`.
    pub open spec fn of_prefix(content: Seq<u8>, total: nat) -> Probe {
        Probe::of(encoded_version(content.take(total as int)))
    }
}

/// Whether `version` can be asked for.
pub open spec fn valid_version(version: int) -> bool {
    MIN_VERSION <= version <= MAX_VERSION
}

/// The chunk size that spreads `len` bytes evenly once a prefix of `total`
/// bytes has the wanted version: one piece more than prefixes fit into the
/// buffer, each of them one byte more than the buffer divided by the
/// pieces.
pub open spec fn rebalanced(len: nat, total: nat) -> nat {
    len / (len / total + 1) + 1
}

/// A move to a prefix of `next` bytes, unless it leads nowhere.
pub open spec fn retry_at(total: nat, next: nat) -> Step {
    if next == 0 || next == total {
        Step::Stalled
    } else {
        Step::Retry(next as usize)
    }
}

/// The step that follows a probe of `total` out of `len` bytes.
///
/// A version that is too high, or no version at all, halves the prefix. A
/// version that is too low grows it by half, and ends the search with the
/// whole buffer once the prefix reaches it. The wanted version ends the
/// search with the rebalanced chunk size.
pub open spec fn step_after(len: nat, total: nat, desired: int, probe: Probe) -> Step {
    match probe {
        Probe::Failed => Step::Fatal,
        Probe::CapacityExceeded => retry_at(total, total / 2),
        Probe::Encoded(version) => {
            if version == desired {
                Step::Finished(rebalanced(len, total) as usize)
            } else if version > desired {
                retry_at(total, total / 2)
            } else if total >= len || total * 3 / 2 >= len {
                Step::Finished(len as usize)
            } else {
                retry_at(total, total * 3 / 2)
            }
        },
    }
}

/// The result of the search that starts at a prefix of `total` bytes and
/// may move to another prefix `retries` times.
pub open spec fn search(content: Seq<u8>, desired: int, total: nat, retries: nat) -> Result<
    nat,
    Error,
>
    decreases retries,
{
    match step_after(content.len(), total, desired, Probe::of_prefix(content, total)) {
        Step::Finished(chunk) => Ok(chunk as nat),
        Step::Fatal => Err(Error::EncodeProbeFailed),
        Step::Stalled => Err(Error::SearchStalled),
        Step::Retry(next) => {
            if retries == 0 {
                Err(Error::SearchStalled)
            } else {
                search(content, desired, next as nat, (retries - 1) as nat)
            }
        },
    }
}

/// The chunk size for `content` and the wanted version, or the reason why
/// there is none.
///
/// The search starts at the whole buffer and may move as often as the
/// buffer has bytes. A search that has not ended by then has been at some
/// prefix length twice, and the encoder answers the same way each time.
pub open spec fn estimated(content: Seq<u8>, desired: int) -> Result<nat, Error> {
    if !valid_version(desired) {
        Err(Error::InvalidVersion)
    } else if content.len() == 0 {
        Err(Error::EmptyContent)
    } else {
        search(content, desired, content.len(), content.len())
    }
}

/// Turns an encoder outcome into a probe.
pub fn classify(outcome: Result<SymbolVersion, EncodeFailure>) -> (probe: Probe)
    ensures
        probe == Probe::of(outcome),
{
    match outcome {
        Ok(SymbolVersion::Normal(version)) => Probe::Encoded(version),
        Ok(SymbolVersion::Micro(_)) => Probe::Failed,
        Err(EncodeFailure::DataTooLong) => Probe::CapacityExceeded,
        Err(_) => Probe::Failed,
    }
}

/// Computes the rebalanced chunk size.
pub fn rebalance(len: usize, total: usize) -> (chunk: usize)
    requires
        1 <= total <= len,
    ensures
        chunk == rebalanced(len as nat, total as nat),
        1 <= chunk <= total,
{
    proof {
        lemma_rebalanced_bounds(len as nat, total as nat);
    }
    let fits: usize = len / total;
    if fits == usize::MAX {
        // One piece more than the machine can count: each holds a single byte.
        assert(len as nat / (fits as nat + 1) == 0) by (nonlinear_arith)
            requires
                len <= fits,
        ;
        1
    } else {
        let pieces: usize = fits + 1;
        len / pieces + 1
    }
}

/// The rebalanced chunk size is positive and no longer than the prefix that
/// had the wanted version.
pub proof fn lemma_rebalanced_bounds(len: nat, total: nat)
    requires
        1 <= total <= len,
    ensures
        1 <= rebalanced(len, total) <= total,
{
    let pieces = len / total + 1;
    assert(len / pieces < total) by (nonlinear_arith)
        requires
            1 <= total <= len,
            pieces == len / total + 1,
    ;
}

/// Decides what follows a probe of `total` out of `len` bytes.
pub fn next_step(len: usize, total: usize, desired_version: u8, probe: Probe) -> (step: Step)
    requires
        1 <= total <= len,
    ensures
        step == step_after(len as nat, total as nat, desired_version as int, probe),
{
    match probe {
        Probe::Failed => Step::Fatal,
        Probe::CapacityExceeded => shrink(total),
        Probe::Encoded(version) => {
            let desired: i16 = desired_version as i16;
            if version == desired {
                Step::Finished(rebalance(len, total))
            } else if version > desired {
                shrink(total)
            } else if total / 2 >= len - total {
                Step::Finished(len)
            } else {
                let grown: usize = total + total / 2;
                if grown == total {
                    Step::Stalled
                } else {
                    Step::Retry(grown)
                }
            }
        },
    }
}

/// Halves the prefix.
fn shrink(total: usize) -> (step: Step)
    ensures
        step == retry_at(total as nat, total as nat / 2),
{
    let half: usize = total / 2;
    if half == 0 || half == total {
        Step::Stalled
    } else {
        Step::Retry(half)
    }
}

/// Asks the encoder which version the first `total` bytes of `content` need
/// and says what the search makes of the answer.
pub fn probe(content: &[u8], total: usize) -> (probe: Probe)
    requires
        total <= content.len(),
    ensures
        probe == Probe::of_prefix(content@, total as nat),
{
    classify(encode_version(slice_subrange(content, 0, total)))
}

/// Finds the length of the chunks into which `content` is to be cut so that
/// each chunk, encoded by itself, gives a QR code of `desired_version` or
/// just below.
///
/// The input is taken to be of one kind throughout: what a prefix needs is
/// what any stretch of that length needs.
pub fn estimate_chunk(content: &[u8], desired_version: u8) -> (result: Result<usize, Error>)
    ensures
        match result {
            Ok(chunk) => estimated(content@, desired_version as int) == Ok::<nat, Error>(
                chunk as nat,
            ),
            Err(error) => estimated(content@, desired_version as int) == Err::<nat, Error>(error),
        },
        result == Err::<usize, Error>(Error::InvalidVersion) <==> !valid_version(
            desired_version as int,
        ),
        result == Err::<usize, Error>(Error::EmptyContent) <==> valid_version(
            desired_version as int,
        ) && content@.len() == 0,
        result matches Ok(chunk) ==> 1 <= chunk <= content@.len(),
{
    if desired_version < MIN_VERSION || desired_version > MAX_VERSION {
        return Err(Error::InvalidVersion);
    }
    let len: usize = content.len();
    if len == 0 {
        return Err(Error::EmptyContent);
    }
    let mut total: usize = len;
    let mut retries: usize = len;
    loop
        invariant
            len == content@.len(),
            1 <= total <= len,
            valid_version(desired_version as int),
            estimated(content@, desired_version as int) == search(
                content@,
                desired_version as int,
                total as nat,
                retries as nat,
            ),
        decreases retries,
    {
        proof {
            lemma_search_bounds(content@, desired_version as int, total as nat, retries as nat);
        }
        match next_step(len, total, desired_version, probe(content, total)) {
            Step::Finished(chunk) => {
                return Ok(chunk);
            },
            Step::Fatal => {
                return Err(Error::EncodeProbeFailed);
            },
            Step::Stalled => {
                return Err(Error::SearchStalled);
            },
            Step::Retry(next) => {
                if retries == 0 {
                    return Err(Error::SearchStalled);
                }
                retries = retries - 1;
                total = next;
            },
        }
    }
}

/// A step never leaves the buffer: it ends with a chunk size between one
/// and the length of the buffer, or moves to a prefix that is shorter than
/// the buffer and not empty.
pub proof fn lemma_step_bounds(len: nat, total: nat, desired: int, probe: Probe)
    requires
        1 <= total <= len,
        len <= usize::MAX,
    ensures
        match step_after(len, total, desired, probe) {
            Step::Finished(chunk) => 1 <= chunk <= len,
            Step::Retry(next) => 1 <= next < len && next != total,
            _ => true,
        },
{
    lemma_rebalanced_bounds(len, total);
}

/// A search that ends with a chunk size ends with one between one and the
/// length of the buffer.
pub proof fn lemma_search_bounds(content: Seq<u8>, desired: int, total: nat, retries: nat)
    requires
        1 <= total <= content.len(),
        content.len() <= usize::MAX,
    ensures
        search(content, desired, total, retries) matches Ok(chunk) ==> 1 <= chunk
            <= content.len(),
    decreases retries,
{
    let probe = Probe::of_prefix(content, total);
    lemma_step_bounds(content.len(), total, desired, probe);
    match step_after(content.len(), total, desired, probe) {
        Step::Retry(next) => {
            if retries > 0 {
                lemma_search_bounds(content, desired, next as nat, (retries - 1) as nat);
            }
        },
        _ => {},
    }
}

/// Every chunk size that the search arrives at is at least one byte and at
/// most the whole buffer.
pub proof fn lemma_estimate_bounds(content: Seq<u8>, desired: int)
    requires
        content.len() <= usize::MAX,
    ensures
        estimated(content, desired) matches Ok(chunk) ==> 0 < chunk <= content.len(),
{
    if valid_version(desired) && content.len() > 0 {
        lemma_search_bounds(content, desired, content.len(), content.len());
    }
}

/// A buffer with bytes in it and a version from 1 to 40 give a chunk size
/// within the buffer, unless a probe fails for good or the search stalls.
pub proof fn lemma_estimate_succeeds(content: Seq<u8>, desired: int)
    requires
        0 < content.len() <= usize::MAX,
        valid_version(desired),
        estimated(content, desired) != Err::<nat, Error>(Error::EncodeProbeFailed),
        estimated(content, desired) != Err::<nat, Error>(Error::SearchStalled),
    ensures
        estimated(content, desired) matches Ok(chunk) && 0 < chunk <= content.len(),
{
    lemma_search_errors(content, desired, content.len(), content.len());
    lemma_estimate_bounds(content, desired);
}

/// A search fails in two ways only.
pub proof fn lemma_search_errors(content: Seq<u8>, desired: int, total: nat, retries: nat)
    ensures
        search(content, desired, total, retries) matches Err(error) ==> error
            == Error::EncodeProbeFailed || error == Error::SearchStalled,
    decreases retries,
{
    match step_after(content.len(), total, desired, Probe::of_prefix(content, total)) {
        Step::Retry(next) => {
            if retries > 0 {
                lemma_search_errors(content, desired, next as nat, (retries - 1) as nat);
            }
        },
        _ => {},
    }
}

/// An estimate fails in four ways only: on the version, on an empty
/// buffer, on a probe that fails for good, or on a search that stalls.
pub proof fn lemma_estimate_errors(content: Seq<u8>, desired: int)
    ensures
        estimated(content, desired) matches Err(error) ==> error == Error::InvalidVersion || error
            == Error::EmptyContent || error == Error::EncodeProbeFailed || error
            == Error::SearchStalled,
{
    lemma_search_errors(content, desired, content.len(), content.len());
}

/// A wrong version is refused whatever the buffer holds, and an empty
/// buffer whatever valid version is asked for.
pub proof fn lemma_estimate_rejects(content: Seq<u8>, desired: int)
    ensures
        !valid_version(desired) ==> estimated(content, desired) == Err::<nat, Error>(
            Error::InvalidVersion,
        ),
        valid_version(desired) && content.len() == 0 ==> estimated(content, desired) == Err::<
            nat,
            Error,
        >(Error::EmptyContent),
        !valid_version(0) && !valid_version(41),
{
}

/// A buffer whose own code is below the wanted version is not cut: the
/// chunk size is its length.
pub proof fn lemma_small_buffer_is_one_chunk(content: Seq<u8>, desired: int, version: i16)
    requires
        0 < content.len() <= usize::MAX,
        valid_version(desired),
        encoded_version(content) == Ok::<SymbolVersion, EncodeFailure>(
            SymbolVersion::Normal(version),
        ),
        version < desired,
    ensures
        estimated(content, desired) == Ok::<nat, Error>(content.len()),
{
    assert(content.take(content.len() as int) == content);
}

} // verus!
