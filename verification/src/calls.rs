//! Construction of dispatchable-call byte sequences: a pallet index byte,
//! a call index byte, then argument bytes the caller has already encoded.
//! The resulting call is handed unchanged to the external signing and
//! transaction-assembly stage.

use vstd::prelude::*;

use crate::scale::{bytes_encode_to, spec_bytes_encode};

verus! {

/// Pallet index of the data-availability pallet.
pub const PALLET_INDEX_DATA_AVAILABILITY: u8 = 29;

/// Dispatchable index of "create application key" within the
/// data-availability pallet.
pub const DISPATCHABLE_INDEX_CREATE_APPLICATION_KEY: u8 = 0;

/// Dispatchable index of "submit data" within the data-availability
/// pallet.
pub const DISPATCHABLE_INDEX_SUBMIT_DATA: u8 = 1;

/// The pallets this layer addresses.
#[derive(Debug, Clone, Copy, PartialEq, Eq, Structural)]
pub enum Pallet {
    DataAvailability,
}

/// The numeric index of a pallet on the wire.
pub open spec fn pallet_index_of(p: Pallet) -> u8 {
    match p {
        Pallet::DataAvailability => PALLET_INDEX_DATA_AVAILABILITY,
    }
}

impl Pallet {
    /// The pallet's wire index.
    pub fn index(&self) -> (r: u8)
        ensures
            r == pallet_index_of(*self),
    {
        match self {
            Pallet::DataAvailability => PALLET_INDEX_DATA_AVAILABILITY,
        }
    }
}

/// The dispatchables of the data-availability pallet.
#[derive(Debug, Clone, Copy, PartialEq, Eq, Structural)]
pub enum Dispatchable {
    CreateApplicationKey,
    SubmitData,
}

/// The numeric index of a dispatchable within its pallet.
pub open spec fn dispatchable_index_of(d: Dispatchable) -> u8 {
    match d {
        Dispatchable::CreateApplicationKey => DISPATCHABLE_INDEX_CREATE_APPLICATION_KEY,
        Dispatchable::SubmitData => DISPATCHABLE_INDEX_SUBMIT_DATA,
    }
}

impl Dispatchable {
    /// The dispatchable's wire index.
    pub fn index(&self) -> (r: u8)
        ensures
            r == dispatchable_index_of(*self),
    {
        match self {
            Dispatchable::CreateApplicationKey => DISPATCHABLE_INDEX_CREATE_APPLICATION_KEY,
            Dispatchable::SubmitData => DISPATCHABLE_INDEX_SUBMIT_DATA,
        }
    }
}

/// The closed registry of calls this layer knows how to address: a
/// pallet index paired with one of that pallet's dispatchable indices.
/// New pallets and calls extend this one place.
pub open spec fn spec_registered_call(pallet_index: u8, call_index: u8) -> bool {
    pallet_index == PALLET_INDEX_DATA_AVAILABILITY && (call_index
        == DISPATCHABLE_INDEX_CREATE_APPLICATION_KEY || call_index == DISPATCHABLE_INDEX_SUBMIT_DATA)
}

/// Whether an index pair names a call in the closed registry.
pub fn is_registered_call(pallet_index: u8, call_index: u8) -> (r: bool)
    ensures
        r == spec_registered_call(pallet_index, call_index),
{
    pallet_index == PALLET_INDEX_DATA_AVAILABILITY && (call_index
        == DISPATCHABLE_INDEX_CREATE_APPLICATION_KEY || call_index == DISPATCHABLE_INDEX_SUBMIT_DATA)
}

/// Argument bytes the caller has already encoded; this layer only wraps
/// them in the tagged envelope.
#[derive(Debug, Clone, PartialEq, Eq)]
pub struct AlreadyEncoded(pub Vec<u8>);

/// One dispatchable call, constructed immutably at the call site.
#[derive(Debug, Clone, PartialEq, Eq)]
pub struct Call {
    pub pallet_index: u8,
    pub call_index: u8,
    pub args: AlreadyEncoded,
}

/// The wire bytes of a call: the pallet index byte, the call index byte,
/// then the pre-encoded argument bytes, unchanged.
pub open spec fn spec_call_bytes(pallet_index: u8, call_index: u8, args: Seq<u8>) -> Seq<u8> {
    seq![pallet_index, call_index] + args
}

/// Assembles a call envelope; the argument bytes are taken as given.
pub fn make_call(pallet_index: u8, call_index: u8, args: AlreadyEncoded) -> (r: Call)
    ensures
        r.pallet_index == pallet_index,
        r.call_index == call_index,
        r.args == args,
{
    Call { pallet_index, call_index, args }
}

impl Call {
    /// The call's wire bytes.
    pub fn encoded(&self) -> (r: Vec<u8>)
        ensures
            r@ == spec_call_bytes(self.pallet_index, self.call_index, self.args.0@),
    {
        let mut out: Vec<u8> = Vec::new();
        out.push(self.pallet_index);
        out.push(self.call_index);
        let mut i: usize = 0;
        while i < self.args.0.len()
            invariant
                i <= self.args.0@.len(),
                out@ == seq![self.pallet_index, self.call_index] + self.args.0@.take(i as int),
            decreases self.args.0@.len() - i,
        {
            out.push(self.args.0[i]);
            i = i + 1;
            assert(out@ =~= seq![self.pallet_index, self.call_index] + self.args.0@.take(i as int));
        }
        assert(out@ =~= spec_call_bytes(self.pallet_index, self.call_index, self.args.0@));
        out
    }
}

/// Builds the "create application key" call of the data-availability
/// pallet; the key travels as one length-prefixed byte sequence.
pub fn create_application_key(key: Vec<u8>) -> (r: Call)
    requires
        key@.len() <= u32::MAX,
    ensures
        r.pallet_index == pallet_index_of(Pallet::DataAvailability),
        r.call_index == dispatchable_index_of(Dispatchable::CreateApplicationKey),
        r.args.0@ == spec_bytes_encode(key@),
{
    let mut args: Vec<u8> = Vec::new();
    bytes_encode_to(key.as_slice(), &mut args);
    make_call(
        PALLET_INDEX_DATA_AVAILABILITY,
        DISPATCHABLE_INDEX_CREATE_APPLICATION_KEY,
        AlreadyEncoded(args),
    )
}

/// Builds the "submit data" call of the data-availability pallet; the
/// payload travels as one length-prefixed byte sequence.
pub fn submit_data(data: Vec<u8>) -> (r: Call)
    requires
        data@.len() <= u32::MAX,
    ensures
        r.pallet_index == pallet_index_of(Pallet::DataAvailability),
        r.call_index == dispatchable_index_of(Dispatchable::SubmitData),
        r.args.0@ == spec_bytes_encode(data@),
{
    let mut args: Vec<u8> = Vec::new();
    bytes_encode_to(data.as_slice(), &mut args);
    make_call(PALLET_INDEX_DATA_AVAILABILITY, DISPATCHABLE_INDEX_SUBMIT_DATA, AlreadyEncoded(args))
}

} // verus!
