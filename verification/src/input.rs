//! Preparing raw input: control characters go, anything outside ASCII is
//! refused.

use crate::error::Error;
use vstd::prelude::*;

verus! {

/// Whether `byte` is an ASCII control character: below the space, or the
/// delete character.
pub open spec fn is_control(byte: u8) -> bool {
    byte < 0x20 || byte == 0x7f
}

/// Whether `byte` is an ASCII character.
pub open spec fn is_ascii_byte(byte: u8) -> bool {
    byte < 0x80
}

/// Whether every byte of `raw` is an ASCII character.
pub open spec fn all_ascii(raw: Seq<u8>) -> bool {
    forall|i: int| 0 <= i < raw.len() ==> is_ascii_byte(#[trigger] raw[i])
}

/// The test that a byte passes to stay in the input.
pub open spec fn printable() -> spec_fn(u8) -> bool {
    |byte: u8| !is_control(byte)
}

/// `raw` without its control characters.
pub open spec fn sanitized(raw: Seq<u8>) -> Seq<u8> {
    raw.filter(printable())
}

/// Drops the control characters of `raw`, line ends among them, and keeps
/// the rest in order. Input with a byte outside ASCII is refused.
pub fn sanitize_input(raw: &[u8]) -> (result: Result<Vec<u8>, Error>)
    ensures
        match result {
            Ok(clean) => all_ascii(raw@) && clean@ == sanitized(raw@),
            Err(error) => error == Error::NonAscii && !all_ascii(raw@),
        },
{
    let mut clean: Vec<u8> = Vec::new();
    let mut i: usize = 0;
    proof {
        reveal(Seq::filter);
    }
    while i < raw.len()
        invariant
            i <= raw@.len(),
            all_ascii(raw@.take(i as int)),
            clean@ == sanitized(raw@.take(i as int)),
        decreases raw@.len() - i,
    {
        let byte: u8 = raw[i];
        if byte >= 0x80 {
            return Err(Error::NonAscii);
        }
        proof {
            let before = raw@.take(i as int);
            let after = raw@.take(i + 1);
            assert(after.drop_last() == before);
            reveal(Seq::filter);
            assert(sanitized(after) == if printable()(byte) {
                sanitized(before).push(byte)
            } else {
                sanitized(before)
            });
        }
        if !(byte < 0x20 || byte == 0x7f) {
            clean.push(byte);
        }
        i = i + 1;
    }
    assert(raw@.take(i as int) == raw@);
    Ok(clean)
}

/// What is left of the input holds no control character and nothing but
/// ASCII, and what was printable is all there.
pub proof fn lemma_sanitized_is_printable(raw: Seq<u8>)
    requires
        all_ascii(raw),
    ensures
        forall|i: int|
            0 <= i < sanitized(raw).len() ==> !is_control(#[trigger] sanitized(raw)[i])
                && is_ascii_byte(sanitized(raw)[i]),
        forall|i: int|
            0 <= i < raw.len() && !is_control(raw[i]) ==> sanitized(raw).contains(
                #[trigger] raw[i],
            ),
        sanitized(raw).len() <= raw.len(),
    decreases raw.len(),
{
    reveal(Seq::filter);
    if raw.len() > 0 {
        let front = raw.drop_last();
        lemma_sanitized_is_printable(front);
        let out = sanitized(raw);
        assert forall|i: int| 0 <= i < out.len() implies !is_control(#[trigger] out[i])
            && is_ascii_byte(out[i]) by {
            if i < sanitized(front).len() {
                assert(out[i] == sanitized(front)[i]);
            } else {
                assert(out[i] == raw.last());
            }
        }
        assert forall|i: int| 0 <= i < raw.len() && !is_control(raw[i]) implies out.contains(
            #[trigger] raw[i],
        ) by {
            if i == raw.len() - 1 {
                assert(out[out.len() - 1] == raw[i]);
            } else {
                assert(sanitized(front).contains(front[i]));
                let j = choose|j: int| 0 <= j < sanitized(front).len() && sanitized(front)[j]
                    == raw[i];
                assert(out[j] == raw[i]);
            }
        }
    }
}

} // verus!
