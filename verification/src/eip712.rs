//! Digests of typed structured messages.
//!
//! A structured message — a type hash plus an ordered run of typed values —
//! is hashed into a single 32-byte digest following the well-known off-chain
//! typed-data convention: every scalar is encoded into a fixed 32-byte word,
//! variable-length bytes and strings contribute their own digest, nested
//! structs contribute their struct hash, and the result is a digest over the
//! two magic prefix bytes, the domain hash and the message's struct hash.
//!
//! A hash field may be given inline or as a deferred reference — a 32-byte
//! window of some cell's data or of the serialized transaction — resolved
//! against the introspection [`Port`].
//!
//! One deliberate deviation from the canonical standard is preserved here:
//! an array's elements are encoded in place, flattened directly into the
//! enclosing hash input, rather than being hashed as one unit first.
//! Changing that would change every digest of a message with an array.

use vstd::prelude::*;

use crate::hashes::keccak_of;
use crate::port::{code_source, Port, Source, SysError};

verus! {

/// Why a typed-message digest failed.
#[derive(Clone, Copy, Debug, PartialEq, Eq, Structural)]
pub enum Error {
    /// A serialized value did not follow the binary schema.
    MoleculeEncoding,
    /// A port read failed.
    Sys(SysError),
    /// A 32-byte hash window ran past the end of its data.
    CellDataEof,
    /// A hash reference names an unknown source code.
    InvalidSource,
    /// A boolean byte is neither 0 nor 1.
    InvalidBool,
    /// A numeric payload is longer than 32 bytes.
    InvalidNumber,
    /// A fixed-bytes payload is longer than 32 bytes.
    InvalidFixedBytes,
}

/// A 32-byte hash, either inline or deferred: a reference names the 32-byte
/// window at `offset` of a cell's data, or of the serialized transaction.
#[derive(Debug)]
pub enum HashRef {
    Inline([u8; 32]),
    CellRef { source: u64, index: u32, offset: u32 },
    TransactionRef { offset: u32 },
}

/// A struct: its type hash and its member values in declaration order.
#[derive(Debug)]
pub struct StructValue {
    pub type_hash: HashRef,
    pub values: Vec<Value>,
}

/// A typed value.  The scalar payloads are raw bytes as serialized.
#[derive(Debug)]
pub enum Value {
    Struct(StructValue),
    Array(Vec<Value>),
    Bool(u8),
    Bytes(Vec<u8>),
    String(Vec<u8>),
    Address(Vec<u8>),
    FixedBytes(Vec<u8>),
    Int(Vec<u8>),
    Uint(Vec<u8>),
}

/// A typed message.  Only one variant exists today; the engine must reject,
/// not mis-hash, any future variant it does not recognize.
#[derive(Debug)]
pub enum TypedMessage {
    EIP712 { domain_separator: HashRef, message: StructValue },
}

/// The 32-byte digest of a typed message.
#[derive(Debug)]
pub struct Eip712Hash(pub [u8; 32]);

/// The 32-byte window of `data` starting at `offset`.  A window that runs
/// past the end of the data — including one starting beyond it — is a
/// `CellDataEof` error.
pub open spec fn window32(data: Seq<u8>, offset: u32) -> Result<Seq<u8>, Error> {
    if offset + 32 <= data.len() {
        Ok(data.subrange(offset as int, offset as int + 32))
    } else {
        Err(Error::CellDataEof)
    }
}

/// What a hash reference resolves to against port snapshot `p`: the inline
/// bytes, or the 32-byte window it names; or the error met on the way.
pub open spec fn resolve_hash(p: Port, h: HashRef) -> Result<Seq<u8>, Error> {
    match h {
        HashRef::Inline(b) => Ok(b@),
        HashRef::CellRef { source, index, offset } => match code_source(source) {
            None => Err(Error::InvalidSource),
            Some(s) => {
                let cells = p.spec_region(s);
                if index >= cells.len() {
                    Err(Error::Sys(SysError::IndexOutOfBound))
                } else {
                    window32(cells[index as int]@, offset)
                }
            },
        },
        HashRef::TransactionRef { offset } => window32(p.tx_bytes@, offset),
    }
}

/// A numeric payload padded to a 32-byte word: the bytes are right-aligned,
/// and the head is filled with 0xFF when a signed payload's sign bit is set,
/// with zero otherwise.
pub open spec fn number_padded(n: Seq<u8>, signed: bool) -> Seq<u8> {
    let fill: u8 = if signed && n.len() > 0 && n[0] & 0x80 != 0 {
        0xFF
    } else {
        0
    };
    Seq::new((32 - n.len()) as nat, |i: int| fill) + n
}

/// The encoding of one value, flattened into the enclosing hash input; or
/// the first error its encoding meets.
pub open spec fn value_encoding(p: Port, v: Value) -> Result<Seq<u8>, Error>
    decreases v, 3int,
{
    match v {
        Value::Struct(s) => struct_hash(p, s),
        Value::Array(vs) => values_encoding_from(p, vs@, 0),
        Value::Bool(b) => if b == 0 || b == 1 {
            Ok(number_padded(seq![b], false))
        } else {
            Err(Error::InvalidBool)
        },
        Value::Bytes(b) => Ok(keccak_of(b@)),
        Value::String(s) => Ok(keccak_of(s@)),
        Value::Address(a) => if a@.len() <= 32 {
            Ok(number_padded(a@, false))
        } else {
            Err(Error::InvalidNumber)
        },
        Value::FixedBytes(f) => if f@.len() <= 32 {
            Ok(f@ + Seq::new((32 - f@.len()) as nat, |i: int| 0u8))
        } else {
            Err(Error::InvalidFixedBytes)
        },
        Value::Int(n) => if n@.len() <= 32 {
            Ok(number_padded(n@, true))
        } else {
            Err(Error::InvalidNumber)
        },
        Value::Uint(n) => if n@.len() <= 32 {
            Ok(number_padded(n@, false))
        } else {
            Err(Error::InvalidNumber)
        },
    }
}

/// The concatenated encodings of `vs[i..]`, left to right; or the first
/// error among them.
pub open spec fn values_encoding_from(p: Port, vs: Seq<Value>, i: int) -> Result<Seq<u8>, Error>
    decreases vs, 4 + vs.len() - i,
{
    if i < 0 || i >= vs.len() {
        Ok(Seq::empty())
    } else {
        match value_encoding(p, vs[i]) {
            Ok(e) => match values_encoding_from(p, vs, i + 1) {
                Ok(rest) => Ok(e + rest),
                Err(err) => Err(err),
            },
            Err(err) => Err(err),
        }
    }
}

/// What [`encode_value`] leaves appended to the hash input when it reports
/// an error: for an array, the encodings of the elements before the first
/// failing one, then what that element itself left behind; nothing for any
/// other variant.  The enclosing digest is abandoned on an error, so these
/// bytes never reach a hash — the clause only pins the buffer's state.
pub open spec fn error_residue(p: Port, v: Value) -> Seq<u8>
    decreases v, 0int,
{
    match v {
        Value::Array(vs) => array_residue(p, vs@, 0),
        _ => Seq::empty(),
    }
}

/// The [`error_residue`] of an array, from element `i` on: full encodings
/// while elements succeed, then the failing element's own residue.
pub open spec fn array_residue(p: Port, vs: Seq<Value>, i: int) -> Seq<u8>
    decreases vs, 1 + vs.len() - i,
{
    if i < 0 || i >= vs.len() {
        Seq::empty()
    } else {
        match value_encoding(p, vs[i]) {
            Ok(e) => e + array_residue(p, vs, i + 1),
            Err(_) => error_residue(p, vs[i]),
        }
    }
}

/// The hash input of a struct: its resolved type hash, then every member's
/// encoding, concatenated in declaration order.
pub open spec fn struct_preimage(p: Port, s: StructValue) -> Result<Seq<u8>, Error>
    decreases s, 1int,
{
    match resolve_hash(p, s.type_hash) {
        Ok(th) => match values_encoding_from(p, s.values@, 0) {
            Ok(vals) => Ok(th + vals),
            Err(e) => Err(e),
        },
        Err(e) => Err(e),
    }
}

/// A struct's hash: the digest of its [`struct_preimage`].
pub open spec fn struct_hash(p: Port, s: StructValue) -> Result<Seq<u8>, Error>
    decreases s, 2int,
{
    match struct_preimage(p, s) {
        Ok(pre) => Ok(keccak_of(pre)),
        Err(e) => Err(e),
    }
}

/// The digest of a typed message: the two magic prefix bytes, the resolved
/// domain hash and the message's struct hash, hashed as one input.
pub open spec fn typed_message_hash(p: Port, m: TypedMessage) -> Result<Seq<u8>, Error> {
    match m {
        TypedMessage::EIP712 { domain_separator, message } => match resolve_hash(
            p,
            domain_separator,
        ) {
            Ok(dh) => match struct_hash(p, message) {
                Ok(mh) => Ok(keccak_of(seq![0x19u8, 0x01u8] + dh + mh)),
                Err(e) => Err(e),
            },
            Err(e) => Err(e),
        },
    }
}

/// A signed numeric payload must not be empty: its sign is read from its
/// first byte.
pub open spec fn value_wf(v: Value) -> bool
    decreases v, 3int,
{
    match v {
        Value::Struct(s) => struct_wf(s),
        Value::Array(vs) => values_wf_from(vs@, 0),
        Value::Int(n) => n@.len() > 0,
        _ => true,
    }
}

/// Every value of `vs[i..]` is well formed.
pub open spec fn values_wf_from(vs: Seq<Value>, i: int) -> bool
    decreases vs, 4 + vs.len() - i,
{
    if i < 0 || i >= vs.len() {
        true
    } else {
        value_wf(vs[i]) && values_wf_from(vs, i + 1)
    }
}

/// Every member value of the struct is well formed.
pub open spec fn struct_wf(s: StructValue) -> bool
    decreases s, 1int,
{
    values_wf_from(s.values@, 0)
}

/// The message's struct is well formed.
pub open spec fn typed_message_wf(m: TypedMessage) -> bool {
    match m {
        TypedMessage::EIP712 { message, .. } => struct_wf(message),
    }
}

impl From<SysError> for Error {
    fn from(e: SysError) -> (r: Self) {
        Error::Sys(e)
    }
}

impl vstd::std_specs::convert::FromSpecImpl<SysError> for Error {
    open spec fn obeys_from_spec() -> bool {
        true
    }

    open spec fn from_spec(e: SysError) -> Self {
        Error::Sys(e)
    }
}

/// Law: the typed-message digest is a pure function of the port snapshot
/// and the message — identical snapshots and messages give identical
/// digests.
pub proof fn lemma_typed_message_digest_deterministic(
    p1: Port,
    p2: Port,
    m1: TypedMessage,
    m2: TypedMessage,
)
    requires
        p1 == p2,
        m1 == m2,
    ensures
        typed_message_hash(p1, m1) == typed_message_hash(p2, m2),
{
}

/// Law: every successful typed-message digest is the Keccak-256 digest of
/// the two magic prefix bytes 0x19 0x01, the resolved domain hash, and the
/// message's struct hash, in that order.
pub proof fn lemma_typed_message_prefix(p: Port, m: TypedMessage, dh: Seq<u8>, mh: Seq<u8>)
    requires
        m matches TypedMessage::EIP712 { domain_separator, message } && resolve_hash(
            p,
            domain_separator,
        ) == Ok::<Seq<u8>, Error>(dh) && struct_hash(p, message) == Ok::<Seq<u8>, Error>(mh),
    ensures
        typed_message_hash(p, m) == Ok::<Seq<u8>, Error>(keccak_of(seq![0x19u8, 0x01u8] + dh + mh)),
{
}

/// Law: unsigned numeric payloads that differ only in leading zero bytes
/// encode to the same 32-byte word.
pub proof fn lemma_number_padded_leading_zeros(n: Seq<u8>, m: Seq<u8>)
    requires
        n.len() <= 32,
        m.len() <= n.len(),
        m == n.skip(n.len() - m.len()),
        forall|j: int| 0 <= j < n.len() - m.len() ==> n[j] == 0,
    ensures
        number_padded(n, false) == number_padded(m, false),
{
    let a = number_padded(n, false);
    let b = number_padded(m, false);
    assert forall|i: int| 0 <= i < 32 implies a[i] == b[i] by {
        if i < 32 - n.len() {
        } else if i < 32 - m.len() {
            assert(n[i - (32 - n.len())] == 0);
        } else {
            assert(m[i - (32 - m.len())] == n[i - (32 - n.len())]);
        }
    }
    assert(a =~= b);
}

/// Law: a signed numeric payload of the single byte 0xFF — the two's
/// complement value -1 — encodes to thirty-two 0xFF bytes.
pub proof fn lemma_number_padded_negative_one()
    ensures
        number_padded(seq![0xFFu8], true) == Seq::new(32, |i: int| 0xFFu8),
{
    assert(0xFFu8 & 0x80 != 0) by (bit_vector);
    assert(number_padded(seq![0xFFu8], true) =~= Seq::new(32, |i: int| 0xFFu8));
}

/// Translate a numeric source code into a transaction region.
pub fn u64_to_source(source: u64) -> (r: Result<Source, Error>)
    ensures
        match r {
            Ok(s) => code_source(source) == Some(s),
            Err(e) => e == Error::InvalidSource && code_source(source) is None,
        },
{
    if source == 1 {
        Ok(Source::Input)
    } else if source == 2 {
        Ok(Source::Output)
    } else if source == 3 {
        Ok(Source::CellDep)
    } else if source == 4 {
        Ok(Source::HeaderDep)
    } else if source == 0x0100_0000_0000_0001 {
        Ok(Source::GroupInput)
    } else if source == 0x0100_0000_0000_0002 {
        Ok(Source::GroupOutput)
    } else {
        Err(Error::InvalidSource)
    }
}

/// Copy the 32-byte window of `data` at `offset`, per [`window32`].
fn read_window32(data: &Vec<u8>, offset: u32) -> (r: Result<Vec<u8>, Error>)
    ensures
        match r {
            Ok(b) => window32(data@, offset) == Ok::<Seq<u8>, Error>(b@),
            Err(e) => window32(data@, offset) == Err::<Seq<u8>, Error>(e),
        },
{
    if (offset as u64) + 32 <= data.len() as u64 {
        let off = offset as usize;
        let dlen = data.len();
        let mut out: Vec<u8> = Vec::new();
        let mut k: usize = 0;
        while k < 32
            invariant
                dlen == data@.len(),
                off + 32 <= dlen,
                k <= 32,
                out@ == data@.subrange(off as int, off + k),
            decreases 32 - k,
        {
            out.push(data[off + k]);
            proof {
                assert(out@ =~= data@.subrange(off as int, off + k + 1));
            }
            k += 1;
        }
        Ok(out)
    } else {
        Err(Error::CellDataEof)
    }
}

/// Resolve a hash reference against the port, per [`resolve_hash`]: return
/// the inline bytes, or read the referenced 32-byte window.
pub fn fetch_hash(port: &Port, h: &HashRef) -> (r: Result<Vec<u8>, Error>)
    ensures
        match r {
            Ok(b) => resolve_hash(*port, *h) == Ok::<Seq<u8>, Error>(b@),
            Err(e) => resolve_hash(*port, *h) == Err::<Seq<u8>, Error>(e),
        },
{
    match h {
        HashRef::Inline(b) => {
            let mut out: Vec<u8> = Vec::new();
            out.extend_from_slice(b.as_slice());
            proof {
                assert(out@ =~= b@);
            }
            Ok(out)
        },
        HashRef::CellRef { source, index, offset } => {
            let s = match u64_to_source(*source) {
                Ok(s) => s,
                Err(e) => {
                    return Err(e);
                },
            };
            let cells = port.region(s);
            if (*index as usize) >= cells.len() {
                return Err(Error::Sys(SysError::IndexOutOfBound));
            }
            read_window32(&cells[*index as usize], *offset)
        },
        HashRef::TransactionRef { offset } => read_window32(&port.tx_bytes, *offset),
    }
}

/// Append a numeric payload to `buf` as a 32-byte word, per
/// [`number_padded`]; a payload longer than 32 bytes is `InvalidNumber`.
pub fn encode_number(buf: &mut Vec<u8>, n: &[u8], signed: bool) -> (r: Result<(), Error>)
    requires
        signed ==> n@.len() > 0,
    ensures
        match r {
            Ok(()) => n@.len() <= 32 && final(buf)@ == old(buf)@ + number_padded(n@, signed),
            Err(e) => e == Error::InvalidNumber && n@.len() > 32 && final(buf)@ == old(buf)@,
        },
{
    if n.len() > 32 {
        return Err(Error::InvalidNumber);
    }
    let fill: u8 = if signed {
        if n[0] & 0x80 != 0 {
            0xFF
        } else {
            0
        }
    } else {
        0
    };
    let ghost b0 = buf@;
    let pad = 32 - n.len();
    let mut k: usize = 0;
    while k < pad
        invariant
            k <= pad,
            buf@ == b0 + Seq::new(k as nat, |i: int| fill),
        decreases pad - k,
    {
        buf.push(fill);
        proof {
            assert(buf@ =~= b0 + Seq::new((k + 1) as nat, |i: int| fill));
        }
        k += 1;
    }
    buf.extend_from_slice(n);
    proof {
        assert(buf@ =~= b0 + number_padded(n@, signed));
    }
    Ok(())
}

/// Append the encoding of one value to `buf`, per [`value_encoding`].  On
/// an error the buffer has grown by exactly [`error_residue`]: by nothing,
/// except for an array that failed partway through its elements.
pub fn encode_value(port: &Port, buf: &mut Vec<u8>, v: &Value) -> (r: Result<(), Error>)
    requires
        value_wf(*v),
    ensures
        match r {
            Ok(()) => value_encoding(*port, *v) matches Ok(e) && final(buf)@ == old(buf)@ + e,
            Err(e) => value_encoding(*port, *v) == Err::<Seq<u8>, Error>(e) && final(buf)@ == old(
                buf,
            )@ + error_residue(*port, *v),
        },
    decreases *v, 3int,
{
    match v {
        Value::Struct(s) => {
            let h = match hash_struct(port, s) {
                Ok(h) => h,
                Err(e) => {
                    proof {
                        assert(old(buf)@ + error_residue(*port, *v) =~= old(buf)@);
                    }
                    return Err(e);
                },
            };
            buf.extend_from_slice(h.as_slice());
            Ok(())
        },
        Value::Array(vs) => {
            let ghost b0 = buf@;
            proof {
                assert(buf@.skip(b0.len() as int) + array_residue(*port, vs@, 0) =~= array_residue(
                    *port,
                    vs@,
                    0,
                ));
            }
            let mut i: usize = 0;
            while i < vs.len()
                invariant
                    value_wf(*v),
                    v matches Value::Array(vsx) && vsx == vs,
                    b0 == old(buf)@,
                    values_wf_from(vs@, i as int),
                    i <= vs@.len(),
                    buf@.take(b0.len() as int) == b0,
                    b0.len() <= buf@.len(),
                    buf@.skip(b0.len() as int) + array_residue(*port, vs@, i as int)
                        == array_residue(*port, vs@, 0),
                    match values_encoding_from(*port, vs@, i as int) {
                        Ok(rest) => values_encoding_from(*port, vs@, 0) == Ok::<Seq<u8>, Error>(
                            buf@.skip(b0.len() as int) + rest,
                        ),
                        Err(e) => values_encoding_from(*port, vs@, 0) == Err::<Seq<u8>, Error>(e),
                    },
                decreases vs@.len() - i,
            {
                proof {
                    assert(decreases_to!(*v => vs@[i as int]));
                }
                let ghost bpre = buf@;
                match encode_value(port, buf, &vs[i]) {
                    Ok(()) => {},
                    Err(e) => {
                        proof {
                            assert(buf@.take(b0.len() as int) =~= b0);
                            assert(buf@.skip(b0.len() as int) =~= bpre.skip(b0.len() as int)
                                + error_residue(*port, vs@[i as int]));
                            assert(buf@.skip(b0.len() as int) == array_residue(*port, vs@, 0));
                            assert(buf@ =~= buf@.take(b0.len() as int) + buf@.skip(
                                b0.len() as int,
                            ));
                        }
                        return Err(e);
                    },
                }
                proof {
                    assert(buf@.take(b0.len() as int) =~= b0);
                    let enc = value_encoding(*port, vs@[i as int])->Ok_0;
                    assert(buf@.skip(b0.len() as int) =~= bpre.skip(b0.len() as int) + enc);
                    assert(buf@.skip(b0.len() as int) + array_residue(*port, vs@, i + 1)
                        =~= bpre.skip(b0.len() as int) + (enc + array_residue(*port, vs@, i + 1)));
                    if let Ok(rest) = values_encoding_from(*port, vs@, i + 1) {
                        assert(buf@.skip(b0.len() as int) + rest =~= bpre.skip(b0.len() as int) + (
                        enc + rest));
                    }
                }
                i += 1;
            }
            proof {
                assert(buf@ =~= buf@.take(b0.len() as int) + buf@.skip(b0.len() as int));
            }
            Ok(())
        },
        Value::Bool(b) => {
            if *b != 0 && *b != 1 {
                proof {
                    assert(old(buf)@ + error_residue(*port, *v) =~= old(buf)@);
                }
                return Err(Error::InvalidBool);
            }
            let mut tmp: Vec<u8> = Vec::new();
            tmp.push(*b);
            let r = encode_number(buf, tmp.as_slice(), false);
            proof {
                assert(tmp@ =~= seq![*b]);
            }
            r
        },
        Value::Bytes(b) => {
            let d = crate::hashes::keccak256(b.as_slice());
            buf.extend_from_slice(d.as_slice());
            Ok(())
        },
        Value::String(s) => {
            let d = crate::hashes::keccak256(s.as_slice());
            buf.extend_from_slice(d.as_slice());
            Ok(())
        },
        Value::Address(a) => {
            let r = encode_number(buf, a.as_slice(), false);
            proof {
                assert(old(buf)@ + error_residue(*port, *v) =~= old(buf)@);
            }
            r
        },
        Value::FixedBytes(f) => {
            if f.len() > 32 {
                proof {
                    assert(old(buf)@ + error_residue(*port, *v) =~= old(buf)@);
                }
                return Err(Error::InvalidFixedBytes);
            }
            let ghost b0 = buf@;
            buf.extend_from_slice(f.as_slice());
            let pad = 32 - f.len();
            let mut k: usize = 0;
            while k < pad
                invariant
                    k <= pad,
                    buf@ == b0 + f@ + Seq::new(k as nat, |i: int| 0u8),
                decreases pad - k,
            {
                buf.push(0u8);
                proof {
                    assert(buf@ =~= b0 + f@ + Seq::new((k + 1) as nat, |i: int| 0u8));
                }
                k += 1;
            }
            proof {
                assert(buf@ =~= b0 + (f@ + Seq::new((32 - f@.len()) as nat, |i: int| 0u8)));
            }
            Ok(())
        },
        Value::Int(n) => {
            let r = encode_number(buf, n.as_slice(), true);
            proof {
                assert(old(buf)@ + error_residue(*port, *v) =~= old(buf)@);
            }
            r
        },
        Value::Uint(n) => {
            let r = encode_number(buf, n.as_slice(), false);
            proof {
                assert(old(buf)@ + error_residue(*port, *v) =~= old(buf)@);
            }
            r
        },
    }
}

/// Hash a struct, per [`struct_hash`]: one digest over the resolved type
/// hash followed by every member's encoding.
pub fn hash_struct(port: &Port, s: &StructValue) -> (r: Result<[u8; 32], Error>)
    requires
        struct_wf(*s),
    ensures
        match r {
            Ok(h) => struct_hash(*port, *s) == Ok::<Seq<u8>, Error>(h@),
            Err(e) => struct_hash(*port, *s) == Err::<Seq<u8>, Error>(e),
        },
    decreases *s, 2int,
{
    let mut buf: Vec<u8> = Vec::new();
    let th = match fetch_hash(port, &s.type_hash) {
        Ok(t) => t,
        Err(e) => {
            return Err(e);
        },
    };
    buf.extend_from_slice(th.as_slice());
    proof {
        assert(buf@ =~= th@);
    }
    let ghost b0 = buf@;
    let vs = &s.values;
    let mut i: usize = 0;
    while i < vs.len()
        invariant
            struct_wf(*s),
            vs == &s.values,
            resolve_hash(*port, s.type_hash) == Ok::<Seq<u8>, Error>(b0),
            values_wf_from(vs@, i as int),
            i <= vs@.len(),
            buf@.take(b0.len() as int) == b0,
            b0.len() <= buf@.len(),
            match values_encoding_from(*port, vs@, i as int) {
                Ok(rest) => values_encoding_from(*port, vs@, 0) == Ok::<Seq<u8>, Error>(
                    buf@.skip(b0.len() as int) + rest,
                ),
                Err(e) => values_encoding_from(*port, vs@, 0) == Err::<Seq<u8>, Error>(e),
            },
        decreases vs@.len() - i,
    {
        proof {
            assert(decreases_to!(*s => vs@[i as int]));
        }
        let ghost bpre = buf@;
        match encode_value(port, &mut buf, &vs[i]) {
            Ok(()) => {},
            Err(e) => {
                return Err(e);
            },
        }
        proof {
            assert(buf@.take(b0.len() as int) =~= b0);
            let enc = value_encoding(*port, vs@[i as int])->Ok_0;
            assert(buf@.skip(b0.len() as int) =~= bpre.skip(b0.len() as int) + enc);
            if let Ok(rest) = values_encoding_from(*port, vs@, i + 1) {
                assert(buf@.skip(b0.len() as int) + rest =~= bpre.skip(b0.len() as int) + (enc
                    + rest));
            }
        }
        i += 1;
    }
    proof {
        assert(buf@ =~= buf@.take(b0.len() as int) + buf@.skip(b0.len() as int));
        assert(b0 + buf@.skip(b0.len() as int) =~= buf@);
    }
    Ok(crate::hashes::keccak256(buf.as_slice()))
}

/// Digest a typed message, per [`typed_message_hash`].
pub fn build_typed_message_hash(port: &Port, typed_message: &TypedMessage) -> (r: Result<
    [u8; 32],
    Error,
>)
    requires
        typed_message_wf(*typed_message),
    ensures
        match r {
            Ok(d) => typed_message_hash(*port, *typed_message) == Ok::<Seq<u8>, Error>(d@),
            Err(e) => typed_message_hash(*port, *typed_message) == Err::<Seq<u8>, Error>(e),
        },
{
    match typed_message {
        TypedMessage::EIP712 { domain_separator, message } => {
            let mut buf: Vec<u8> = Vec::new();
            buf.push(0x19u8);
            buf.push(0x01u8);
            let dh = match fetch_hash(port, domain_separator) {
                Ok(d) => d,
                Err(e) => {
                    return Err(e);
                },
            };
            buf.extend_from_slice(dh.as_slice());
            let mh = match hash_struct(port, message) {
                Ok(m) => m,
                Err(e) => {
                    return Err(e);
                },
            };
            buf.extend_from_slice(mh.as_slice());
            proof {
                assert(buf@ =~= seq![0x19u8, 0x01u8] + dh@ + mh@);
            }
            Ok(crate::hashes::keccak256(buf.as_slice()))
        },
    }
}

impl Eip712Hash {
    /// Digest a typed message against the given port snapshot.
    pub fn compute(port: &Port, message: &TypedMessage) -> (r: Result<Eip712Hash, Error>)
        requires
            typed_message_wf(*message),
        ensures
            match r {
                Ok(h) => typed_message_hash(*port, *message) == Ok::<Seq<u8>, Error>(h.0@),
                Err(e) => typed_message_hash(*port, *message) == Err::<Seq<u8>, Error>(e),
            },
    {
        match build_typed_message_hash(port, message) {
            Ok(d) => Ok(Eip712Hash(d)),
            Err(e) => Err(e),
        }
    }
}

} // verus!
