//! MADs exchanged with the simulator.
use crate::error::Error;
use crate::native::{lemma_ne_u32, lemma_ne_u64, ne_bytes_u32, ne_bytes_u64, ne_value_u32,
    ne_value_u64};
use crate::sys;
use crate::wire::{WirePod, 
    chars_to_bytes, copy_bytes_to_chars, copy_chars_to_bytes, decode_raw,
    encode_raw, lemma_bytes_chars_bytes, lemma_padded_chars, min_len, prefix_to_vec, slice_to_vec,
    u64_pad, u64_padding, zeros, WireMessage,
};
use crate::MAD_CAPACITY;
use vstd::prelude::*;

verus! {

/// The abstract value of a [`MadRequest`].
pub struct MadRequestView {
    pub dlid: u32,
    pub slid: u32,
    pub destination_qp: u32,
    pub source_qp: u32,
    pub status: u32,
    pub payload: Seq<u8>,
}

/// A MAD with its addressing; the payload holds at most `MAD_CAPACITY` bytes.
#[derive(Debug, Eq, PartialEq)]
pub struct MadRequest {
    dlid: u32,
    slid: u32,
    destination_qp: u32,
    source_qp: u32,
    status: u32,
    payload: Vec<u8>,
}

impl View for MadRequest {
    type V = MadRequestView;

    closed spec fn view(&self) -> MadRequestView {
        MadRequestView {
            dlid: self.dlid,
            slid: self.slid,
            destination_qp: self.destination_qp,
            source_qp: self.source_qp,
            status: self.status,
            payload: self.payload@,
        }
    }
}

impl MadRequest {
    #[verifier::type_invariant]
    spec fn payload_fits(self) -> bool {
        self.payload@.len() <= MAD_CAPACITY
    }

    /// Builds a request; fails with `MadTooLong` when the payload does not
    /// fit in a MAD.
    pub fn new(
        dlid: u32,
        slid: u32,
        destination_qp: u32,
        source_qp: u32,
        status: u32,
        payload: &[u8],
    ) -> (res: Result<Self, Error>)
        ensures
            res is Ok <==> payload@.len() <= MAD_CAPACITY,
            res matches Err(e) ==> e == Error::MadTooLong(payload@.len() as usize),
            res matches Ok(m) ==> m@ == (MadRequestView {
                dlid,
                slid,
                destination_qp,
                source_qp,
                status,
                payload: payload@,
            }),
    {
        if payload.len() > MAD_CAPACITY {
            return Err(Error::MadTooLong(payload.len()));
        }
        Ok(Self { dlid, slid, destination_qp, source_qp, status, payload: slice_to_vec(payload) })
    }

    pub fn dlid(&self) -> (r: u32)
        ensures
            r == self@.dlid,
    {
        self.dlid
    }

    pub fn slid(&self) -> (r: u32)
        ensures
            r == self@.slid,
    {
        self.slid
    }

    pub fn destination_qp(&self) -> (r: u32)
        ensures
            r == self@.destination_qp,
    {
        self.destination_qp
    }

    pub fn source_qp(&self) -> (r: u32)
        ensures
            r == self@.source_qp,
    {
        self.source_qp
    }

    pub fn status(&self) -> (r: u32)
        ensures
            r == self@.status,
    {
        self.status
    }

    pub fn set_status(&mut self, status: u32)
        ensures
            final(self)@ == (MadRequestView { status, ..old(self)@ }),
    {
        proof {
            use_type_invariant(&*self);
        }
        self.status = status;
    }

    /// The payload; it never holds more than `MAD_CAPACITY` bytes.
    pub fn payload(&self) -> (r: &[u8])
        ensures
            r@ == self@.payload,
            r@.len() <= MAD_CAPACITY,
    {
        proof {
            use_type_invariant(self);
        }
        self.payload.as_slice()
    }

    /// Replaces the payload; fails with `MadTooLong`, and changes nothing,
    /// when the new payload does not fit in a MAD.
    pub fn set_payload(&mut self, payload: &[u8]) -> (res: Result<(), Error>)
        ensures
            res is Ok <==> payload@.len() <= MAD_CAPACITY,
            res matches Err(e) ==> e == Error::MadTooLong(payload@.len() as usize) && final(self)@
                == old(self)@,
            res is Ok ==> final(self)@ == (MadRequestView { payload: payload@, ..old(self)@ }),
    {
        if payload.len() > MAD_CAPACITY {
            return Err(Error::MadTooLong(payload.len()));
        }
        self.payload = slice_to_vec(payload);
        Ok(())
    }
}

impl Clone for MadRequest {
    fn clone(&self) -> (copy: Self)
        ensures
            copy@ == self@,
    {
        proof {
            use_type_invariant(self);
        }
        MadRequest {
            dlid: self.dlid,
            slid: self.slid,
            destination_qp: self.destination_qp,
            source_qp: self.source_qp,
            status: self.status,
            payload: slice_to_vec(self.payload.as_slice()),
        }
    }
}

impl WireMessage for MadRequest {
    open spec fn spec_wire_size() -> nat {
        284 + u64_pad()
    }

    fn wire_size() -> (n: usize) {
        284 + u64_padding()
    }

    open spec fn spec_valid(v: MadRequestView) -> bool {
        v.payload.len() <= MAD_CAPACITY
    }

    open spec fn spec_encode(v: MadRequestView) -> Seq<u8> {
        ne_bytes_u32(v.dlid) + ne_bytes_u32(v.slid) + ne_bytes_u32(v.destination_qp) + ne_bytes_u32(
            v.source_qp,
        ) + ne_bytes_u32(v.status) + zeros(u64_pad()) + ne_bytes_u64(v.payload.len() as u64) + v.payload
            + zeros((MAD_CAPACITY - v.payload.len()) as nat)
    }

    open spec fn spec_decode(bytes: Seq<u8>) -> Result<MadRequestView, Error> {
        let p = u64_pad() as int;
        if bytes.len() != 284 + p {
            Err(Error::InvalidWireSize { expected: (284 + p) as usize, actual: bytes.len() as usize })
        } else {
            let length = ne_value_u64(bytes.subrange(20 + p, 28 + p));
            if length > MAD_CAPACITY {
                Err(Error::InvalidMadLength(length))
            } else {
                Ok(
                    MadRequestView {
                        dlid: ne_value_u32(bytes.subrange(0, 4)),
                        slid: ne_value_u32(bytes.subrange(4, 8)),
                        destination_qp: ne_value_u32(bytes.subrange(8, 12)),
                        source_qp: ne_value_u32(bytes.subrange(12, 16)),
                        status: ne_value_u32(bytes.subrange(16, 20)),
                        payload: bytes.subrange(28 + p, 28 + p + length),
                    },
                )
            }
        }
    }

    fn encode(&self) -> (bytes: Vec<u8>) {
        proof {
            use_type_invariant(self);
        }
        let mut raw = sys::sim_request::default();
        raw.dlid = self.dlid;
        raw.slid = self.slid;
        raw.dqp = self.destination_qp;
        raw.sqp = self.source_qp;
        raw.status = self.status;
        raw.length = self.payload.len() as u64;
        let ghost blank = raw.mad@;
        copy_bytes_to_chars(&mut raw.mad, self.payload.as_slice());
        proof {
            let n = self.payload@.len();
            assert(min_len(256, n) == n);
            assert(self.payload@.take(n as int) =~= self.payload@);
            lemma_padded_chars(self.payload@, blank.skip(n as int));
        }
        encode_raw(&raw)
    }

    fn decode(bytes: &[u8]) -> (res: Result<Self, Error>) {
        let raw = match decode_raw::<sys::sim_request>(bytes) {
            Ok(raw) => raw,
            Err(e) => return Err(e),
        };
        if raw.length > MAD_CAPACITY as u64 {
            return Err(Error::InvalidMadLength(raw.length));
        }
        let len = raw.length as usize;
        let mad = copy_chars_to_bytes(&raw.mad);
        proof {
            let p = u64_pad() as int;
            lemma_bytes_chars_bytes(bytes@.subrange(28 + p, 284 + p));
            assert(mad@.take(len as int) =~= bytes@.subrange(28 + p, 28 + p + len));
        }
        Ok(
            Self {
                dlid: raw.dlid,
                slid: raw.slid,
                destination_qp: raw.dqp,
                source_qp: raw.sqp,
                status: raw.status,
                payload: prefix_to_vec(mad.as_slice(), len),
            },
        )
    }

    proof fn lemma_round_trip(v: MadRequestView) {
        let b = Self::spec_encode(v);
        let n = v.payload.len();
        let p = u64_pad() as int;
        lemma_ne_u32(v.dlid, b);
        lemma_ne_u32(v.slid, b);
        lemma_ne_u32(v.destination_qp, b);
        lemma_ne_u32(v.source_qp, b);
        lemma_ne_u32(v.status, b);
        lemma_ne_u64(n as u64, b);
        assert(b.subrange(0, 4) =~= ne_bytes_u32(v.dlid));
        assert(b.subrange(4, 8) =~= ne_bytes_u32(v.slid));
        assert(b.subrange(8, 12) =~= ne_bytes_u32(v.destination_qp));
        assert(b.subrange(12, 16) =~= ne_bytes_u32(v.source_qp));
        assert(b.subrange(16, 20) =~= ne_bytes_u32(v.status));
        assert(b.subrange(20 + p, 28 + p) =~= ne_bytes_u64(n as u64));
        assert(b.subrange(28 + p, 28 + p + n as int) =~= v.payload);
    }

    proof fn lemma_decode_checks(bytes: Seq<u8>) {
    }
}

/// The padding bytes of an encoded request, and the bytes of the MAD field
/// after the payload, are zero.
pub proof fn lemma_mad_unused_bytes_zero(v: MadRequestView)
    requires
        MadRequest::spec_valid(v),
    ensures
        MadRequest::spec_encode(v).subrange(20, 20 + u64_pad() as int) == zeros(u64_pad()),
        MadRequest::spec_encode(v).subrange(
            28 + u64_pad() + v.payload.len() as int,
            284 + u64_pad() as int,
        ) == zeros(
            (MAD_CAPACITY - v.payload.len()) as nat,
        ),
{
    let b = MadRequest::spec_encode(v);
    let n = v.payload.len();
    lemma_ne_u32(v.dlid, b);
    lemma_ne_u32(v.slid, b);
    lemma_ne_u32(v.destination_qp, b);
    lemma_ne_u32(v.source_qp, b);
    lemma_ne_u32(v.status, b);
    lemma_ne_u64(n as u64, b);
    let p = u64_pad() as int;
    assert(b.subrange(20, 20 + p) =~= zeros(u64_pad()));
    assert(b.subrange(28 + p + n as int, 284 + p) =~= zeros((MAD_CAPACITY - n) as nat));
}

/// Every field of an encoded request sits at its `sim_request` offset: the
/// destination LID at 0, the source LID at 4, the destination queue pair at
/// 8, the source queue pair at 12, the status at 16, the payload length (a
/// `u64`, after the padding) at 20 + pad, and the payload at 28 + pad.
pub proof fn lemma_mad_encode_layout(v: MadRequestView)
    requires
        MadRequest::spec_valid(v),
    ensures
        ({
            let b = MadRequest::spec_encode(v);
            let p = u64_pad() as int;
            let n = v.payload.len() as int;
            &&& b.len() == 284 + p
            &&& b.subrange(0, 4) == ne_bytes_u32(v.dlid)
            &&& b.subrange(4, 8) == ne_bytes_u32(v.slid)
            &&& b.subrange(8, 12) == ne_bytes_u32(v.destination_qp)
            &&& b.subrange(12, 16) == ne_bytes_u32(v.source_qp)
            &&& b.subrange(16, 20) == ne_bytes_u32(v.status)
            &&& b.subrange(20 + p, 28 + p) == ne_bytes_u64(n as u64)
            &&& b.subrange(28 + p, 28 + p + n) == v.payload
        }),
{
    let b = MadRequest::spec_encode(v);
    let p = u64_pad() as int;
    let n = v.payload.len();
    lemma_ne_u32(v.dlid, b);
    lemma_ne_u32(v.slid, b);
    lemma_ne_u32(v.destination_qp, b);
    lemma_ne_u32(v.source_qp, b);
    lemma_ne_u32(v.status, b);
    lemma_ne_u64(n as u64, b);
    assert(b.subrange(0, 4) =~= ne_bytes_u32(v.dlid));
    assert(b.subrange(4, 8) =~= ne_bytes_u32(v.slid));
    assert(b.subrange(8, 12) =~= ne_bytes_u32(v.destination_qp));
    assert(b.subrange(12, 16) =~= ne_bytes_u32(v.source_qp));
    assert(b.subrange(16, 20) =~= ne_bytes_u32(v.status));
    assert(b.subrange(20 + p, 28 + p) =~= ne_bytes_u64(n as u64));
    assert(b.subrange(28 + p, 28 + p + n as int) =~= v.payload);
}

/// A decoded request takes each field from the same-named field of the
/// `sim_request` record that the bytes hold: destination queue pair from
/// `dqp`, source queue pair from `sqp`, and the payload from the first
/// `length` bytes of the MAD.
pub proof fn lemma_mad_decode_fields(bytes: Seq<u8>, raw: sys::sim_request)
    requires
        bytes.len() == 284 + u64_pad(),
        raw.spec_held_by(bytes),
    ensures
        MadRequest::spec_decode(bytes) is Ok <==> raw.length <= MAD_CAPACITY,
        MadRequest::spec_decode(bytes) matches Ok(m) ==> {
            &&& m.dlid == raw.dlid
            &&& m.slid == raw.slid
            &&& m.destination_qp == raw.dqp
            &&& m.source_qp == raw.sqp
            &&& m.status == raw.status
            &&& m.payload == chars_to_bytes(raw.mad@).take(raw.length as int)
        },
        raw.length > MAD_CAPACITY ==> MadRequest::spec_decode(bytes) == Err::<
            MadRequestView,
            Error,
        >(Error::InvalidMadLength(raw.length)),
{
    let p = u64_pad() as int;
    lemma_bytes_chars_bytes(bytes.subrange(28 + p, 284 + p));
    if raw.length <= MAD_CAPACITY {
        assert(chars_to_bytes(raw.mad@).take(raw.length as int) =~= bytes.subrange(
            28 + p,
            28 + p + raw.length,
        ));
    }
}

} // verus!
