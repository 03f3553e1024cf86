//! The transaction introspection port.
//!
//! The execution environment exposes a transaction to a script through
//! read-only accessors.  Here that surface is an explicit capability: a
//! snapshot of everything the digest algorithms may read — the transaction
//! hash, the serialized transaction, the per-region cell data, the witness
//! sets, and the number of inputs.  Every digest is a pure function of one
//! such snapshot, so callers (and tests) can build a `Port` for any
//! transaction they like.
//!
//! A witness slot carries its raw bytes together with the view the binary
//! schema codec produced for them (`None` when the bytes do not parse as an
//! `ExtendedWitness`).

use vstd::prelude::*;

verus! {

/// A transaction region that cell-data reads may address.
#[derive(Clone, Copy, Debug, PartialEq, Eq, Structural)]
pub enum Source {
    Input,
    Output,
    CellDep,
    HeaderDep,
    GroupInput,
    GroupOutput,
}

/// A failed port read: the index was out of range.
#[derive(Clone, Copy, Debug, PartialEq, Eq, Structural)]
pub enum SysError {
    IndexOutOfBound,
}

/// A witness as the binary schema codec views it.
#[derive(Debug)]
pub enum ExtendedWitness {
    /// A plain signature witness; the payload is the opaque signature bytes.
    Sighash(Vec<u8>),
    /// A signature witness carrying a structured action; the payload is the
    /// serialized action message.
    SighashWithAction(Vec<u8>),
    /// A witness of a variant this scheme does not recognize.
    Unrecognized,
}

/// One witness slot: its raw bytes, and what the codec made of them.
#[derive(Debug)]
pub struct WitnessSlot {
    pub raw: Vec<u8>,
    pub parsed: Option<ExtendedWitness>,
}

/// A read-only snapshot of the transaction under inspection.
#[derive(Debug)]
pub struct Port {
    /// The 32-byte transaction hash.
    pub tx_hash: [u8; 32],
    /// The serialized transaction.
    pub tx_bytes: Vec<u8>,
    /// How many inputs the transaction has; an input's "since" field exists
    /// exactly for indices below this count.
    pub inputs_len: usize,
    /// The witnesses addressed with the `Input` source, by index.
    pub input_witnesses: Vec<WitnessSlot>,
    /// The witnesses addressed with the `GroupInput` source, by index.
    pub group_input_witnesses: Vec<WitnessSlot>,
    /// Cell data per region, by index within the region.
    pub input_cell_data: Vec<Vec<u8>>,
    pub output_cell_data: Vec<Vec<u8>>,
    pub cell_dep_data: Vec<Vec<u8>>,
    pub header_dep_data: Vec<Vec<u8>>,
    pub group_input_cell_data: Vec<Vec<u8>>,
    pub group_output_cell_data: Vec<Vec<u8>>,
}

/// The numeric code naming `s` on the wire.
pub open spec fn source_code(s: Source) -> u64 {
    match s {
        Source::Input => 1,
        Source::Output => 2,
        Source::CellDep => 3,
        Source::HeaderDep => 4,
        Source::GroupInput => 0x0100_0000_0000_0001,
        Source::GroupOutput => 0x0100_0000_0000_0002,
    }
}

/// The region a numeric source code names, if any.
pub open spec fn code_source(code: u64) -> Option<Source> {
    if code == source_code(Source::Input) {
        Some(Source::Input)
    } else if code == source_code(Source::Output) {
        Some(Source::Output)
    } else if code == source_code(Source::CellDep) {
        Some(Source::CellDep)
    } else if code == source_code(Source::HeaderDep) {
        Some(Source::HeaderDep)
    } else if code == source_code(Source::GroupInput) {
        Some(Source::GroupInput)
    } else if code == source_code(Source::GroupOutput) {
        Some(Source::GroupOutput)
    } else {
        None
    }
}

impl Port {
    /// The cell data of region `s`.
    pub open spec fn spec_region(self, s: Source) -> Seq<Vec<u8>> {
        match s {
            Source::Input => self.input_cell_data@,
            Source::Output => self.output_cell_data@,
            Source::CellDep => self.cell_dep_data@,
            Source::HeaderDep => self.header_dep_data@,
            Source::GroupInput => self.group_input_cell_data@,
            Source::GroupOutput => self.group_output_cell_data@,
        }
    }

    /// The cell data of region `s`.
    pub fn region(&self, s: Source) -> (r: &Vec<Vec<u8>>)
        ensures
            r@ == self.spec_region(s),
    {
        match s {
            Source::Input => &self.input_cell_data,
            Source::Output => &self.output_cell_data,
            Source::CellDep => &self.cell_dep_data,
            Source::HeaderDep => &self.header_dep_data,
            Source::GroupInput => &self.group_input_cell_data,
            Source::GroupOutput => &self.group_output_cell_data,
        }
    }

    /// Probe whether input `i` exists, by its "since" field.
    pub fn input_since_exists(&self, i: usize) -> (r: bool)
        ensures
            r == (i < self.inputs_len),
    {
        i < self.inputs_len
    }
}

} // verus!

