//! The batch validator: every entry of a batch must be no older than the
//! chain's last update and must carry a signature that the scheme accepts.

use vstd::prelude::*;
use vstd::slice::slice_subrange;
use crate::types::Sig;
use crate::types::Msg;
use crate::types::Moment;
use crate::types::Error;
use crate::bytes::bytes_to_u64;
use crate::bytes::message_time;
use crate::scheme::Verifier;

verus! {

/// Why one entry is refused, if it is: too early when its timestamp lies
/// before the anchor, otherwise invalid when the scheme rejects it.
pub open spec fn entry_error<V: Verifier>(verifier: &V, entry: (Sig, Msg), anchor: u64) -> Option<
    Error,
> {
    if message_time(entry.1.0@) < anchor {
        Some(Error::SignatureTooEarly)
    } else if !verifier.accepts(entry.0, entry.1) {
        Some(Error::SignatureInvalid)
    } else {
        None
    }
}

/// The error of the first entry that is refused, reading the batch in order.
pub open spec fn batch_error<V: Verifier>(verifier: &V, batch: Seq<(Sig, Msg)>, anchor: u64) -> Option<
    Error,
>
    decreases batch.len(),
{
    if batch.len() == 0 {
        None
    } else {
        match entry_error(verifier, batch[0], anchor) {
            Some(e) => Some(e),
            None => batch_error(verifier, batch.drop_first(), anchor),
        }
    }
}

/// Why a batch is refused against the chain's last update, if it is. A last
/// update that does not fit 64 bits is refused before any entry is read.
pub open spec fn validation_error<V: Verifier>(verifier: &V, batch: Seq<(Sig, Msg)>, ts: Moment) -> Option<
    Error,
> {
    if ts > u64::MAX {
        Some(Error::TimestampConversionError)
    } else {
        batch_error(verifier, batch, ts as u64)
    }
}

/// A batch passes exactly when each of its entries passes.
pub proof fn lemma_batch_passes<V: Verifier>(verifier: &V, batch: Seq<(Sig, Msg)>, anchor: u64)
    ensures
        batch_error(verifier, batch, anchor) is None <==> forall|i: int|
            0 <= i < batch.len() ==> entry_error(verifier, #[trigger] batch[i], anchor) is None,
    decreases batch.len(),
{
    if batch.len() > 0 {
        let rest = batch.drop_first();
        lemma_batch_passes(verifier, rest, anchor);
        if batch_error(verifier, batch, anchor) is None {
            assert forall|i: int| 0 <= i < batch.len() implies entry_error(
                verifier,
                #[trigger] batch[i],
                anchor,
            ) is None by {
                if i > 0 {
                    assert(batch[i] == rest[i - 1]);
                }
            }
        } else if entry_error(verifier, batch[0], anchor) is None {
            let j = choose|j: int|
                0 <= j < rest.len() && !(entry_error(verifier, #[trigger] rest[j], anchor) is None);
            assert(batch[j + 1] == rest[j]);
        }
    }
}

/// A batch is refused with the error of its first refused entry.
pub proof fn lemma_first_refusal<V: Verifier>(
    verifier: &V,
    batch: Seq<(Sig, Msg)>,
    anchor: u64,
    at: int,
)
    requires
        0 <= at < batch.len(),
        entry_error(verifier, batch[at], anchor) is Some,
        forall|j: int| 0 <= j < at ==> entry_error(verifier, #[trigger] batch[j], anchor) is None,
    ensures
        batch_error(verifier, batch, anchor) == entry_error(verifier, batch[at], anchor),
    decreases batch.len(),
{
    if at > 0 {
        let rest = batch.drop_first();
        assert(entry_error(verifier, batch[0], anchor) is None);
        assert(rest[at - 1] == batch[at]);
        assert forall|j: int| 0 <= j < at - 1 implies entry_error(
            verifier,
            #[trigger] rest[j],
            anchor,
        ) is None by {
            assert(rest[j] == batch[j + 1]);
        }
        lemma_first_refusal(verifier, rest, anchor, at - 1);
    }
}

/// The verdict on one entry, from its timestamp, the anchor, and the
/// scheme's answer for its signature. The timestamp is judged first: the
/// scheme's answer does not matter where the entry is too early.
pub fn entry_outcome(sign_ts: u64, anchor: u64, accepted: bool) -> (outcome: Result<(), Error>)
    ensures
        outcome == if sign_ts < anchor {
            Err::<(), Error>(Error::SignatureTooEarly)
        } else if !accepted {
            Err::<(), Error>(Error::SignatureInvalid)
        } else {
            Ok::<(), Error>(())
        },
{
    if sign_ts < anchor {
        Err(Error::SignatureTooEarly)
    } else if !accepted {
        Err(Error::SignatureInvalid)
    } else {
        Ok(())
    }
}

/// Validates a batch against the chain's last update `ts`. The entries are
/// read in order and the first one that is refused decides the error; the
/// batch passes only if every entry passes. The scheme is not asked about an
/// entry that is too early.
pub fn validate_signatures<V: Verifier>(verifier: &V, signs: &Vec<(Sig, Msg)>, ts: Moment) -> (outcome:
    Result<(), Error>)
    ensures
        outcome == match validation_error(verifier, signs@, ts) {
            Some(e) => Err::<(), Error>(e),
            None => Ok::<(), Error>(()),
        },
{
    if ts > 0xffff_ffff_ffff_ffff {
        return Err(Error::TimestampConversionError);
    }
    let last_ts: u64 = ts as u64;
    let mut i: usize = 0;
    proof {
        assert(signs@.subrange(0, signs.len() as int) =~= signs@);
    }
    while i < signs.len()
        invariant
            i <= signs.len(),
            last_ts == ts,
            batch_error(verifier, signs@, last_ts) == batch_error(
                verifier,
                signs@.subrange(i as int, signs.len() as int),
                last_ts,
            ),
        decreases signs.len() - i,
    {
        let entry = &signs[i];
        let sign_ts = bytes_to_u64(slice_subrange(entry.1.0.as_slice(), 0, 8));
        proof {
            let rest = signs@.subrange(i as int, signs.len() as int);
            assert(rest[0] == signs@[i as int]);
            assert(rest.drop_first() =~= signs@.subrange(i + 1, signs.len() as int));
        }
        let accepted = sign_ts >= last_ts && verifier.verify(&entry.0, &entry.1);
        match entry_outcome(sign_ts, last_ts, accepted) {
            Err(e) => {
                return Err(e);
            },
            Ok(()) => {},
        }
        i += 1;
    }
    Ok(())
}

} // verus!
