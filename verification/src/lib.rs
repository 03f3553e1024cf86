//! Transaction digests for a typed-witness signing scheme.
//!
//! Two digest constructions over a read-only transaction snapshot (a
//! [`port::Port`]): the transaction-wide authenticated "sighash-all" digest
//! with its witness-set scan and boundary probe, and, in [`eip712`], the
//! standard-compliant digest of a typed structured message.

pub mod eip712;
pub mod hashes;
pub mod port;

use vstd::prelude::*;

use crate::hashes::blake2b256_of;
use crate::port::{ExtendedWitness, Port, SysError, WitnessSlot};

verus! {

/// Why a sighash-all operation failed.
#[derive(Clone, Copy, Debug, PartialEq, Eq, Structural)]
pub enum Error {
    /// A port read failed.
    Sys(SysError),
    /// More than one action witness is present.
    DuplicateAction,
    /// A witness did not parse as an `ExtendedWitness`.
    MoleculeEncoding,
    /// No action witness is present: the transaction does not use the
    /// typed-witness scheme.
    NotTypedTransaction,
    /// The first group witness is neither of the two sighash variants.
    NotSighashVariant,
    /// A group witness past the first is not empty.
    NonEmptyGroupWitness,
}

impl From<SysError> for Error {
    fn from(e: SysError) -> (r: Self) {
        Error::Sys(e)
    }
}

impl vstd::std_specs::convert::FromSpecImpl<SysError> for Error {
    open spec fn obeys_from_spec() -> bool {
        true
    }

    open spec fn from_spec(e: SysError) -> Self {
        Error::Sys(e)
    }
}

/// Law: the sighash-all digest is a pure function of the port snapshot —
/// two transactions with identical snapshots have identical digests.
pub proof fn lemma_sighash_digest_deterministic(p1: Port, p2: Port)
    requires
        p1 == p2,
    ensures
        sighash_all_digest(p1) == sighash_all_digest(p2),
{
}

/// The 16-byte personalization of the sighash-all Blake2b digest.
pub open spec fn personalization() -> Seq<u8> {
    seq![
        0x63u8, 0x6bu8, 0x62u8, 0x2du8, 0x64u8, 0x65u8, 0x66u8, 0x61u8, 0x75u8, 0x6cu8, 0x74u8,
        0x2du8, 0x68u8, 0x61u8, 0x73u8, 0x68u8,
    ]
}

/// The personalization as bytes (the ASCII of `ckb-default-hash`).
pub fn personalization_bytes() -> (r: [u8; 16])
    ensures
        r@ == personalization(),
{
    let r: [u8; 16] = [
        0x63u8, 0x6bu8, 0x62u8, 0x2du8, 0x64u8, 0x65u8, 0x66u8, 0x61u8, 0x75u8, 0x6cu8, 0x74u8,
        0x2du8, 0x68u8, 0x61u8, 0x73u8, 0x68u8,
    ];
    proof {
        assert(r@ =~= personalization());
    }
    r
}

/// The bytes a trailing witness contributes to the sighash-all preimage:
/// its length as an 8-byte little-endian integer, then its raw bytes.
pub open spec fn witness_entry(w: WitnessSlot) -> Seq<u8> {
    vstd::bytes::spec_u64_to_le_bytes(w.raw@.len() as u64) + w.raw@
}

/// The concatenated [`witness_entry`] bytes of `ws[start..end]`.
pub open spec fn trailing_witness_bytes(ws: Seq<WitnessSlot>, start: int, end: int) -> Seq<u8>
    decreases end - start,
{
    if end <= start || end > ws.len() {
        Seq::empty()
    } else {
        trailing_witness_bytes(ws, start, end - 1) + witness_entry(ws[end - 1])
    }
}

/// The bytes the first group witness contributes to the sighash-all
/// preimage: marker byte 1 followed by the raw action message for a
/// `SighashWithAction` witness, marker byte 0 alone for a `Sighash` one.
pub open spec fn leading_witness_bytes(w: WitnessSlot) -> Seq<u8> {
    match w.parsed {
        Some(ExtendedWitness::SighashWithAction(m)) => seq![1u8] + m@,
        _ => seq![0u8],
    }
}

/// The witness-set shape the sighash-all digest demands: a first group
/// witness of one of the two sighash variants, and only empty group
/// witnesses after it.
pub open spec fn group_shape_ok(ws: Seq<WitnessSlot>) -> bool {
    &&& ws.len() >= 1
    &&& (ws[0].parsed matches Some(ExtendedWitness::Sighash(_)) || ws[0].parsed matches Some(
        ExtendedWitness::SighashWithAction(_),
    ))
    &&& forall|i: int| 1 <= i < ws.len() ==> (#[trigger] ws[i]).raw@.len() == 0
}

/// The full preimage of the sighash-all digest: the transaction hash, the
/// first group witness's contribution, then every input witness past the
/// last input-bound slot, each with its length prefix.
pub open spec fn sighash_preimage(p: Port) -> Seq<u8> {
    p.tx_hash@ + leading_witness_bytes(p.group_input_witnesses@[0]) + trailing_witness_bytes(
        p.input_witnesses@,
        p.inputs_len as int,
        p.input_witnesses@.len() as int,
    )
}

/// The sighash-all digest itself: a personalized Blake2b-256 over
/// [`sighash_preimage`].
pub open spec fn sighash_all_digest(p: Port) -> Seq<u8> {
    blake2b256_of(personalization(), sighash_preimage(p))
}

/// Generate the sighash-all message hash for a typed transaction.  For
/// performance reasons the caller must ensure beforehand that the
/// transaction is a typed transaction; that is not re-checked here.
///
/// The digest covers the transaction hash, the first group witness (which
/// must be one of the two sighash variants), and every input witness past
/// the last input-bound slot.  Group witnesses after the first must be
/// empty.
pub fn generate_sighash_all_hash(port: &Port) -> (r: Result<[u8; 32], Error>)
    requires
        port.inputs_len <= usize::MAX / 4,
    ensures
        match r {
            Ok(d) => group_shape_ok(port.group_input_witnesses@) && d@ == sighash_all_digest(
                *port,
            ),
            Err(Error::Sys(SysError::IndexOutOfBound)) => port.group_input_witnesses@.len() == 0,
            Err(Error::MoleculeEncoding) => port.group_input_witnesses@.len() >= 1
                && port.group_input_witnesses@[0].parsed is None,
            Err(Error::NotSighashVariant) => port.group_input_witnesses@.len() >= 1
                && port.group_input_witnesses@[0].parsed matches Some(
                ExtendedWitness::Unrecognized,
            ),
            Err(Error::NonEmptyGroupWitness) => port.group_input_witnesses@.len() >= 1 && (
            port.group_input_witnesses@[0].parsed matches Some(ExtendedWitness::Sighash(_))
                || port.group_input_witnesses@[0].parsed matches Some(
                ExtendedWitness::SighashWithAction(_),
            )) && (exists|i: int|
                1 <= i < port.group_input_witnesses@.len() && (
                #[trigger] port.group_input_witnesses@[i]).raw@.len() > 0),
            Err(_) => false,
        },
{
    let mut buf: Vec<u8> = Vec::new();
    buf.extend_from_slice(port.tx_hash.as_slice());
    // The first group witness chooses the marker byte and may add the
    // action message.
    let gws = &port.group_input_witnesses;
    if gws.len() == 0 {
        return Err(Error::Sys(SysError::IndexOutOfBound));
    }
    match &gws[0].parsed {
        None => {
            return Err(Error::MoleculeEncoding);
        },
        Some(ExtendedWitness::SighashWithAction(m)) => {
            buf.push(1u8);
            buf.extend_from_slice(m.as_slice());
        },
        Some(ExtendedWitness::Sighash(_)) => {
            buf.push(0u8);
        },
        Some(ExtendedWitness::Unrecognized) => {
            return Err(Error::NotSighashVariant);
        },
    }
    proof {
        assert(buf@ =~= port.tx_hash@ + leading_witness_bytes(gws@[0]));
    }
    // The subsequent group witnesses must be empty.
    let mut i: usize = 1;
    while i < gws.len()
        invariant
            gws == &port.group_input_witnesses,
            1 <= i <= gws@.len(),
            gws@[0].parsed matches Some(ExtendedWitness::Sighash(_)) || gws@[0].parsed matches Some(
                ExtendedWitness::SighashWithAction(_),
            ),
            forall|j: int| 1 <= j < i ==> (#[trigger] gws@[j]).raw@.len() == 0,
        decreases gws@.len() - i,
    {
        if gws[i].raw.len() > 0 {
            proof {
                assert(1 <= i < port.group_input_witnesses@.len()
                    && port.group_input_witnesses@[i as int].raw@.len() > 0);
            }
            return Err(Error::NonEmptyGroupWitness);
        }
        i += 1;
    }
    // Hash the remaining witnesses that do not belong to any input cell.
    let ghost head = buf@;
    let ws = &port.input_witnesses;
    let start = calculate_inputs_len(port);
    let mut k: usize = start;
    while k < ws.len()
        invariant
            ws == &port.input_witnesses,
            start <= k,
            k <= ws@.len() || k == start,
            buf@ == head + trailing_witness_bytes(ws@, start as int, k as int),
        decreases ws@.len() - k,
    {
        let len_bytes = vstd::bytes::u64_to_le_bytes(ws[k].raw.len() as u64);
        buf.extend_from_slice(len_bytes.as_slice());
        buf.extend_from_slice(ws[k].raw.as_slice());
        proof {
            assert(buf@ =~= head + trailing_witness_bytes(ws@, start as int, k + 1));
        }
        k += 1;
    }
    proof {
        assert(trailing_witness_bytes(ws@, start as int, ws@.len() as int)
            == trailing_witness_bytes(ws@, start as int, k as int));
        assert(buf@ == head + trailing_witness_bytes(
            ws@,
            port.inputs_len as int,
            ws@.len() as int,
        ));
    }
    let personal = personalization_bytes();
    Ok(crate::hashes::blake2b256(&personal, buf.as_slice()))
}

/// Whether this witness slot parses as a `SighashWithAction` witness.
pub open spec fn is_action_witness(w: WitnessSlot) -> bool {
    w.parsed matches Some(ExtendedWitness::SighashWithAction(_))
}

/// The action message carried by an action witness.
pub open spec fn action_payload(w: WitnessSlot) -> Seq<u8> {
    match w.parsed {
        Some(ExtendedWitness::SighashWithAction(m)) => m@,
        _ => Seq::empty(),
    }
}

/// No witness in the set carries an action.
pub open spec fn has_no_action(ws: Seq<WitnessSlot>) -> bool {
    forall|j: int| 0 <= j < ws.len() ==> !is_action_witness(#[trigger] ws[j])
}

/// Exactly one witness in the set carries an action.
pub open spec fn has_unique_action(ws: Seq<WitnessSlot>) -> bool {
    exists|k: int|
        0 <= k < ws.len() && is_action_witness(#[trigger] ws[k]) && (forall|j: int|
            0 <= j < ws.len() && j != k ==> !is_action_witness(#[trigger] ws[j]))
}

/// Two distinct witnesses in the set carry an action.
pub open spec fn has_duplicate_action(ws: Seq<WitnessSlot>) -> bool {
    exists|j: int, k: int|
        0 <= j < k < ws.len() && is_action_witness(#[trigger] ws[j]) && is_action_witness(
            #[trigger] ws[k],
        )
}

/// Scan the input witnesses for the one `SighashWithAction` witness and
/// return an owned copy of its action message.  A transaction may carry at
/// most one action: a second one anywhere after the first is
/// `DuplicateAction`, and a transaction without any is not a typed
/// transaction.  Witnesses that do not parse, or parse to another variant,
/// are passed over.
pub fn fetch_sighash_with_action(port: &Port) -> (r: Result<Vec<u8>, Error>)
    ensures
        match r {
            Ok(m) => has_unique_action(port.input_witnesses@) && (forall|k: int|
                0 <= k < port.input_witnesses@.len() && is_action_witness(
                    #[trigger] port.input_witnesses@[k],
                ) ==> m@ == action_payload(port.input_witnesses@[k])),
            Err(Error::NotTypedTransaction) => has_no_action(port.input_witnesses@),
            Err(Error::DuplicateAction) => has_duplicate_action(port.input_witnesses@),
            Err(_) => false,
        },
{
    let ghost ws = port.input_witnesses@;
    let n = port.input_witnesses.len();
    // Look for the first SighashWithAction witness.
    let mut i: usize = 0;
    let mut found: Option<Vec<u8>> = None;
    loop
        invariant_except_break
            found is None,
        invariant
            ws == port.input_witnesses@,
            n == ws.len(),
            i <= n,
            forall|j: int| 0 <= j < i ==> !is_action_witness(#[trigger] ws[j]),
        ensures
            i < n,
            is_action_witness(ws[i as int]),
            forall|j: int| 0 <= j < i ==> !is_action_witness(#[trigger] ws[j]),
            found matches Some(m) && m@ == action_payload(ws[i as int]),
        decreases n - i,
    {
        if i >= n {
            return Err(Error::NotTypedTransaction);
        }
        match &port.input_witnesses[i].parsed {
            Some(ExtendedWitness::SighashWithAction(m)) => {
                found = Some(m.clone());
                break ;
            },
            _ => {},
        }
        i += 1;
    }
    // A single transaction must only have one SighashWithAction.
    let mut j: usize = i + 1;
    while j < n
        invariant
            ws == port.input_witnesses@,
            n == ws.len(),
            i < j,
            j <= n,
            is_action_witness(ws[i as int]),
            forall|k: int| 0 <= k < j && k != i ==> !is_action_witness(#[trigger] ws[k]),
        decreases n - j,
    {
        match &port.input_witnesses[j].parsed {
            Some(ExtendedWitness::SighashWithAction(_)) => {
                return Err(Error::DuplicateAction);
            },
            _ => {},
        }
        j += 1;
    }
    match found {
        Some(m) => Ok(m),
        None => Err(Error::NotTypedTransaction),
    }
}

/// Whether the transaction uses the typed-witness scheme: exactly one
/// `SighashWithAction` witness stands among its input witnesses.  Runs the
/// same scan as [`fetch_sighash_with_action`]; callers that also need the
/// payload should call that once instead.
pub fn is_typed_transaction(port: &Port) -> (r: bool)
    ensures
        r == has_unique_action(port.input_witnesses@),
{
    match fetch_sighash_with_action(port) {
        Ok(_) => true,
        Err(_) => {
            proof {
                if has_unique_action(port.input_witnesses@) {
                    let k = choose|k: int|
                        0 <= k < port.input_witnesses@.len() && is_action_witness(
                            #[trigger] port.input_witnesses@[k],
                        ) && (forall|j: int|
                            0 <= j < port.input_witnesses@.len() && j != k ==> !is_action_witness(
                                #[trigger] port.input_witnesses@[j],
                            ));
                    assert(!has_no_action(port.input_witnesses@));
                }
            }
            false
        },
    }
}

/// Determine the exact number of inputs with an existence probe per index:
/// an exponential phase doubles an upper candidate until it falls outside
/// the inputs, then a binary search closes in on the first index that does
/// not exist.  The search itself never visits index 0, so when it settles
/// on 1 a last probe of index 0 distinguishes an inputless transaction.
/// Runs in O(log n) probes; no direct count accessor is needed.
pub fn calculate_inputs_len(port: &Port) -> (n: usize)
    requires
        port.inputs_len <= usize::MAX / 4,
    ensures
        n == port.inputs_len,
{
    let count = port.inputs_len;
    let mut lo: usize = 0;
    let mut hi: usize = 4;
    loop
        invariant
            port.inputs_len == count,
            count <= usize::MAX / 4,
            4 <= hi,
            lo < hi,
            lo == 0 || lo < count,
            hi == 4 || hi <= 2 * count,
        ensures
            lo < hi,
            lo == 0 || lo < count,
            count <= hi,
            hi == 4 || hi <= 2 * count,
        decreases (if hi < count {
            count - hi
        } else {
            0int
        }),
    {
        if !port.input_since_exists(hi) {
            break ;
        }
        lo = hi;
        hi = hi * 2;
    }
    while lo + 1 != hi
        invariant
            port.inputs_len == count,
            count <= usize::MAX / 4,
            lo < hi,
            lo == 0 || lo < count,
            count <= hi,
            hi <= usize::MAX / 2,
        decreases hi - lo,
    {
        let mid = (lo + hi) / 2;
        if port.input_since_exists(mid) {
            lo = mid;
        } else {
            hi = mid;
        }
    }
    if hi == 1 && !port.input_since_exists(0) {
        return 0;
    }
    hi
}

} // verus!
