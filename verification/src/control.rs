//! Control frames: the requests and replies a client exchanges with the simulator.
use crate::client::{ClientInfo, ClientInfoView};
use crate::error::Error;
use crate::info::{PortInfo, VendorInfo};
use crate::native::{lemma_ne_u32, ne_bytes_u32, ne_value_u32, u32_to_ne};
use crate::sys;
use crate::wire::{chars_to_bytes, WirePod, 
    copy_bytes_to_chars, copy_chars_to_bytes, decode_raw, encode_raw, lemma_bytes_chars_bytes,
    lemma_padded_chars, min_len, prefix_to_vec, slice_to_vec, zero_vec, zeros, WireMessage,
};
use crate::CONTROL_DATA_CAPACITY;
use vstd::prelude::*;
use vstd::std_specs::convert::TryFromSpecImpl;

verus! {

/// The kinds of control frame.
#[derive(Clone, Copy, Debug, Eq, PartialEq, Structural)]
pub enum ControlType {
    Error,
    Connect,
    Disconnect,
    GetPort,
    GetVendor,
    GetGid,
    GetGuid,
    GetNodeInfo,
    GetPortInfo,
    SetIsSm,
    GetPKeys,
}

impl ControlType {
    /// The number that stands for the kind on the wire.
    pub open spec fn raw_value(self) -> u32 {
        match self {
            ControlType::Error => sys::SIM_CTL_ERROR as u32,
            ControlType::Connect => sys::SIM_CTL_CONNECT as u32,
            ControlType::Disconnect => sys::SIM_CTL_DISCONNECT as u32,
            ControlType::GetPort => sys::SIM_CTL_GET_PORT as u32,
            ControlType::GetVendor => sys::SIM_CTL_GET_VENDOR as u32,
            ControlType::GetGid => sys::SIM_CTL_GET_GID as u32,
            ControlType::GetGuid => sys::SIM_CTL_GET_GUID as u32,
            ControlType::GetNodeInfo => sys::SIM_CTL_GET_NODEINFO as u32,
            ControlType::GetPortInfo => sys::SIM_CTL_GET_PORTINFO as u32,
            ControlType::SetIsSm => sys::SIM_CTL_SET_ISSM as u32,
            ControlType::GetPKeys => sys::SIM_CTL_GET_PKEYS as u32,
        }
    }

    /// The number that stands for the kind on the wire.
    pub fn as_raw(self) -> (raw: u32)
        ensures
            raw == self.raw_value(),
    {
        match self {
            ControlType::Error => sys::SIM_CTL_ERROR as u32,
            ControlType::Connect => sys::SIM_CTL_CONNECT as u32,
            ControlType::Disconnect => sys::SIM_CTL_DISCONNECT as u32,
            ControlType::GetPort => sys::SIM_CTL_GET_PORT as u32,
            ControlType::GetVendor => sys::SIM_CTL_GET_VENDOR as u32,
            ControlType::GetGid => sys::SIM_CTL_GET_GID as u32,
            ControlType::GetGuid => sys::SIM_CTL_GET_GUID as u32,
            ControlType::GetNodeInfo => sys::SIM_CTL_GET_NODEINFO as u32,
            ControlType::GetPortInfo => sys::SIM_CTL_GET_PORTINFO as u32,
            ControlType::SetIsSm => sys::SIM_CTL_SET_ISSM as u32,
            ControlType::GetPKeys => sys::SIM_CTL_GET_PKEYS as u32,
        }
    }
}

/// The kind that a wire number stands for: the kind whose number it is, or
/// `UnknownControlType` for a number that stands for none.
pub open spec fn control_type_of(value: u32) -> Result<ControlType, Error> {
    if value == ControlType::Error.raw_value() {
        Ok(ControlType::Error)
    } else if value == ControlType::Connect.raw_value() {
        Ok(ControlType::Connect)
    } else if value == ControlType::Disconnect.raw_value() {
        Ok(ControlType::Disconnect)
    } else if value == ControlType::GetPort.raw_value() {
        Ok(ControlType::GetPort)
    } else if value == ControlType::GetVendor.raw_value() {
        Ok(ControlType::GetVendor)
    } else if value == ControlType::GetGid.raw_value() {
        Ok(ControlType::GetGid)
    } else if value == ControlType::GetGuid.raw_value() {
        Ok(ControlType::GetGuid)
    } else if value == ControlType::GetNodeInfo.raw_value() {
        Ok(ControlType::GetNodeInfo)
    } else if value == ControlType::GetPortInfo.raw_value() {
        Ok(ControlType::GetPortInfo)
    } else if value == ControlType::SetIsSm.raw_value() {
        Ok(ControlType::SetIsSm)
    } else if value == ControlType::GetPKeys.raw_value() {
        Ok(ControlType::GetPKeys)
    } else {
        Err(Error::UnknownControlType(value))
    }
}

impl TryFrom<u32> for ControlType {
    type Error = crate::error::Error;

    fn try_from(value: u32) -> (res: Result<Self, crate::error::Error>) {
        if value == ControlType::Error.as_raw() {
            Ok(ControlType::Error)
        } else if value == ControlType::Connect.as_raw() {
            Ok(ControlType::Connect)
        } else if value == ControlType::Disconnect.as_raw() {
            Ok(ControlType::Disconnect)
        } else if value == ControlType::GetPort.as_raw() {
            Ok(ControlType::GetPort)
        } else if value == ControlType::GetVendor.as_raw() {
            Ok(ControlType::GetVendor)
        } else if value == ControlType::GetGid.as_raw() {
            Ok(ControlType::GetGid)
        } else if value == ControlType::GetGuid.as_raw() {
            Ok(ControlType::GetGuid)
        } else if value == ControlType::GetNodeInfo.as_raw() {
            Ok(ControlType::GetNodeInfo)
        } else if value == ControlType::GetPortInfo.as_raw() {
            Ok(ControlType::GetPortInfo)
        } else if value == ControlType::SetIsSm.as_raw() {
            Ok(ControlType::SetIsSm)
        } else if value == ControlType::GetPKeys.as_raw() {
            Ok(ControlType::GetPKeys)
        } else {
            Err(crate::error::Error::UnknownControlType(value))
        }
    }
}

impl TryFromSpecImpl<u32> for ControlType {
    open spec fn obeys_try_from_spec() -> bool {
        true
    }

    open spec fn try_from_spec(value: u32) -> Result<Self, crate::error::Error> {
        control_type_of(value)
    }
}

/// Reading back the number of a kind gives the kind, and the numbers that
/// stand for a kind are exactly those below `SIM_CTL_LAST`.
pub proof fn lemma_control_type_numbers(kind: ControlType, value: u32)
    ensures
        control_type_of(kind.raw_value()) == Ok::<ControlType, Error>(kind),
        control_type_of(value) is Ok <==> value < sys::SIM_CTL_LAST,
{
}

/// The abstract value of a [`ControlMessage`].
pub struct ControlMessageView {
    pub client_id: u32,
    pub kind: ControlType,
    pub data: Seq<u8>,
}

/// A control frame; its payload holds at most `CONTROL_DATA_CAPACITY` bytes.
#[derive(Debug, Eq, PartialEq)]
pub struct ControlMessage {
    client_id: u32,
    kind: ControlType,
    data: Vec<u8>,
}

impl View for ControlMessage {
    type V = ControlMessageView;

    closed spec fn view(&self) -> ControlMessageView {
        ControlMessageView { client_id: self.client_id, kind: self.kind, data: self.data@ }
    }
}

/// The frame with which a client connects: it comes from no client yet and
/// carries the client's encoded identity.
pub open spec fn connect_view(info: ClientInfoView) -> ControlMessageView {
    ControlMessageView {
        client_id: 0,
        kind: ControlType::Connect,
        data: ClientInfo::spec_encode(info),
    }
}

/// A query frame: its payload is `len` zero bytes for the reply to fill.
pub open spec fn query_view(client_id: u32, kind: ControlType, len: nat) -> ControlMessageView {
    ControlMessageView { client_id, kind, data: zeros(len) }
}

impl ControlMessage {
    #[verifier::type_invariant]
    spec fn data_fits(self) -> bool {
        self.data@.len() <= CONTROL_DATA_CAPACITY
    }

    /// Builds a frame; fails with `ControlDataTooLong` when the payload does
    /// not fit in a control frame.
    pub fn new(client_id: u32, kind: ControlType, data: &[u8]) -> (res: Result<Self, Error>)
        ensures
            res is Ok <==> data@.len() <= CONTROL_DATA_CAPACITY,
            res matches Err(e) ==> e == Error::ControlDataTooLong(data@.len() as usize),
            res matches Ok(m) ==> m@ == (ControlMessageView { client_id, kind, data: data@ }),
    {
        if data.len() > CONTROL_DATA_CAPACITY {
            return Err(Error::ControlDataTooLong(data.len()));
        }
        Ok(Self { client_id, kind, data: slice_to_vec(data) })
    }

    fn query(client_id: u32, kind: ControlType, len: usize) -> (m: Self)
        requires
            len <= CONTROL_DATA_CAPACITY,
        ensures
            m@ == query_view(client_id, kind, len as nat),
    {
        Self { client_id, kind, data: zero_vec(len) }
    }

    /// The frame with which a client connects, carrying its identity.
    pub fn connect(info: &ClientInfo) -> (m: Self)
        ensures
            m@ == connect_view(info@),
            m@.client_id == 0,
            m@.kind == ControlType::Connect,
            m@.data == ClientInfo::spec_encode(info@),
    {
        let data = info.encode();
        proof {
            ClientInfo::lemma_round_trip(info@);
        }
        Self { client_id: 0, kind: ControlType::Connect, data }
    }

    pub fn disconnect(client_id: u32) -> (m: Self)
        ensures
            m@ == query_view(client_id, ControlType::Disconnect, 0),
    {
        Self::query(client_id, ControlType::Disconnect, 0)
    }

    /// Asks for the port's address and state; the reply holds a [`PortInfo`].
    pub fn get_port(client_id: u32) -> (m: Self)
        ensures
            m@ == query_view(client_id, ControlType::GetPort, PortInfo::spec_wire_size()),
    {
        Self::query(client_id, ControlType::GetPort, PortInfo::wire_size())
    }

    /// Asks for the node's vendor; the reply holds a [`VendorInfo`].
    pub fn get_vendor(client_id: u32) -> (m: Self)
        ensures
            m@ == query_view(client_id, ControlType::GetVendor, VendorInfo::spec_wire_size()),
    {
        Self::query(client_id, ControlType::GetVendor, VendorInfo::wire_size())
    }

    pub fn get_gid(client_id: u32) -> (m: Self)
        ensures
            m@ == query_view(client_id, ControlType::GetGid, 16),
    {
        Self::query(client_id, ControlType::GetGid, 16)
    }

    pub fn get_guid(client_id: u32) -> (m: Self)
        ensures
            m@ == query_view(client_id, ControlType::GetGuid, 8),
    {
        Self::query(client_id, ControlType::GetGuid, 8)
    }

    pub fn get_node_info(client_id: u32) -> (m: Self)
        ensures
            m@ == query_view(client_id, ControlType::GetNodeInfo, CONTROL_DATA_CAPACITY as nat),
    {
        Self::query(client_id, ControlType::GetNodeInfo, CONTROL_DATA_CAPACITY)
    }

    /// Asks for the information of one port; the port's number is the first
    /// payload byte.
    pub fn get_port_info(client_id: u32, port_number: u8) -> (m: Self)
        ensures
            m@ == (ControlMessageView {
                client_id,
                kind: ControlType::GetPortInfo,
                data: zeros(CONTROL_DATA_CAPACITY as nat).update(0, port_number),
            }),
    {
        let mut data = zero_vec(CONTROL_DATA_CAPACITY);
        data.set(0, port_number);
        Self { client_id, kind: ControlType::GetPortInfo, data }
    }

    /// Tells the simulator whether the client is the subnet manager; the
    /// payload is 1 or 0 as a native `u32`.
    pub fn set_is_sm(client_id: u32, enabled: bool) -> (m: Self)
        ensures
            m@ == (ControlMessageView {
                client_id,
                kind: ControlType::SetIsSm,
                data: ne_bytes_u32(
                    if enabled {
                        1
                    } else {
                        0
                    },
                ),
            }),
    {
        let flag: u32 = if enabled {
            1
        } else {
            0
        };
        let bytes = u32_to_ne(flag);
        proof {
            lemma_ne_u32(flag, bytes@);
        }
        Self { client_id, kind: ControlType::SetIsSm, data: slice_to_vec(bytes.as_slice()) }
    }

    pub fn get_pkeys(client_id: u32) -> (m: Self)
        ensures
            m@ == query_view(client_id, ControlType::GetPKeys, CONTROL_DATA_CAPACITY as nat),
    {
        Self::query(client_id, ControlType::GetPKeys, CONTROL_DATA_CAPACITY)
    }

    pub fn client_id(&self) -> (r: u32)
        ensures
            r == self@.client_id,
    {
        self.client_id
    }

    pub fn kind(&self) -> (r: ControlType)
        ensures
            r == self@.kind,
    {
        self.kind
    }

    /// The payload; it never holds more than `CONTROL_DATA_CAPACITY` bytes.
    pub fn data(&self) -> (r: &[u8])
        ensures
            r@ == self@.data,
            r@.len() <= CONTROL_DATA_CAPACITY,
    {
        proof {
            use_type_invariant(self);
        }
        self.data.as_slice()
    }

    /// Decodes the payload as a `T`.
    pub fn decode_payload<T: WireMessage>(&self) -> (res: Result<T, Error>)
        ensures
            match res {
                Ok(v) => T::spec_decode(self@.data) == Ok::<T::V, Error>(v@),
                Err(e) => T::spec_decode(self@.data) == Err::<T::V, Error>(e),
            },
    {
        T::decode(self.data.as_slice())
    }
}

impl Clone for ControlMessage {
    fn clone(&self) -> (copy: Self)
        ensures
            copy@ == self@,
    {
        proof {
            use_type_invariant(self);
        }
        ControlMessage {
            client_id: self.client_id,
            kind: self.kind,
            data: slice_to_vec(self.data.as_slice()),
        }
    }
}

impl WireMessage for ControlMessage {
    open spec fn spec_wire_size() -> nat {
        80
    }

    fn wire_size() -> (n: usize) {
        80
    }

    open spec fn spec_valid(v: ControlMessageView) -> bool {
        v.data.len() <= CONTROL_DATA_CAPACITY
    }

    open spec fn spec_encode(v: ControlMessageView) -> Seq<u8> {
        ne_bytes_u32(sys::SIM_MAGIC) + ne_bytes_u32(v.client_id) + ne_bytes_u32(v.kind.raw_value())
            + ne_bytes_u32(v.data.len() as u32) + v.data + zeros(
            (CONTROL_DATA_CAPACITY - v.data.len()) as nat,
        )
    }

    open spec fn spec_decode(bytes: Seq<u8>) -> Result<ControlMessageView, Error> {
        if bytes.len() != 80 {
            Err(Error::InvalidWireSize { expected: 80, actual: bytes.len() as usize })
        } else {
            let magic = ne_value_u32(bytes.subrange(0, 4));
            if magic != sys::SIM_MAGIC {
                Err(Error::InvalidMagic(magic))
            } else {
                match control_type_of(ne_value_u32(bytes.subrange(8, 12))) {
                    Err(e) => Err(e),
                    Ok(kind) => {
                        let len = ne_value_u32(bytes.subrange(12, 16));
                        if len > CONTROL_DATA_CAPACITY {
                            Err(Error::ControlDataTooLong(len as usize))
                        } else {
                            Ok(
                                ControlMessageView {
                                    client_id: ne_value_u32(bytes.subrange(4, 8)),
                                    kind,
                                    data: bytes.subrange(16, 16 + len),
                                },
                            )
                        }
                    },
                }
            }
        }
    }

    fn encode(&self) -> (bytes: Vec<u8>) {
        proof {
            use_type_invariant(self);
        }
        let mut raw = sys::sim_ctl::default();
        raw.magic = sys::SIM_MAGIC;
        raw.clientid = self.client_id;
        raw.type_ = self.kind.as_raw();
        raw.len = self.data.len() as u32;
        let ghost blank = raw.data@;
        copy_bytes_to_chars(&mut raw.data, self.data.as_slice());
        proof {
            let n = self.data@.len();
            assert(min_len(64, n) == n);
            assert(self.data@.take(n as int) =~= self.data@);
            lemma_padded_chars(self.data@, blank.skip(n as int));
        }
        encode_raw(&raw)
    }

    fn decode(bytes: &[u8]) -> (res: Result<Self, Error>) {
        let raw = match decode_raw::<sys::sim_ctl>(bytes) {
            Ok(raw) => raw,
            Err(e) => return Err(e),
        };
        if raw.magic != sys::SIM_MAGIC {
            return Err(Error::InvalidMagic(raw.magic));
        }
        let kind = match ControlType::try_from(raw.type_) {
            Ok(kind) => kind,
            Err(e) => return Err(e),
        };
        let len = raw.len as usize;
        if len > CONTROL_DATA_CAPACITY {
            return Err(Error::ControlDataTooLong(len));
        }
        let data = copy_chars_to_bytes(&raw.data);
        proof {
            lemma_bytes_chars_bytes(bytes@.subrange(16, 80));
            assert(data@.take(len as int) =~= bytes@.subrange(16, 16 + len));
        }
        Ok(Self { client_id: raw.clientid, kind, data: prefix_to_vec(data.as_slice(), len) })
    }

    proof fn lemma_round_trip(v: ControlMessageView) {
        let b = Self::spec_encode(v);
        let n = v.data.len();
        lemma_ne_u32(sys::SIM_MAGIC, b);
        lemma_ne_u32(v.client_id, b);
        lemma_ne_u32(v.kind.raw_value(), b);
        lemma_ne_u32(n as u32, b);
        lemma_control_type_numbers(v.kind, 0);
        assert(b.subrange(0, 4) =~= ne_bytes_u32(sys::SIM_MAGIC));
        assert(b.subrange(4, 8) =~= ne_bytes_u32(v.client_id));
        assert(b.subrange(8, 12) =~= ne_bytes_u32(v.kind.raw_value()));
        assert(b.subrange(12, 16) =~= ne_bytes_u32(n as u32));
        assert(b.subrange(16, 16 + n as int) =~= v.data);
    }

    proof fn lemma_decode_checks(bytes: Seq<u8>) {
    }
}

/// A frame whose first four bytes are not `SIM_MAGIC` in native byte order
/// is refused with `InvalidMagic`, carrying the number it holds there.
pub proof fn lemma_bad_magic_refused(bytes: Seq<u8>)
    requires
        bytes.len() == ControlMessage::spec_wire_size(),
        bytes.subrange(0, 4) != ne_bytes_u32(sys::SIM_MAGIC),
    ensures
        ControlMessage::spec_decode(bytes) == Err::<ControlMessageView, Error>(
            Error::InvalidMagic(ne_value_u32(bytes.subrange(0, 4))),
        ),
{
    lemma_ne_u32(0, bytes.subrange(0, 4));
}

/// A connect frame, once encoded and decoded again, is the same frame, and
/// its payload decodes to the client identity it was built from.
pub proof fn lemma_connect_round_trip(info: ClientInfoView)
    requires
        ClientInfo::spec_valid(info),
    ensures
        ControlMessage::spec_decode(ControlMessage::spec_encode(connect_view(info)))
            == Ok::<ControlMessageView, Error>(connect_view(info)),
        ClientInfo::spec_decode(connect_view(info).data) == Ok::<ClientInfoView, Error>(info),
{
    ClientInfo::lemma_round_trip(info);
    ControlMessage::lemma_round_trip(connect_view(info));
}

/// The bytes of an encoded frame's data field after the payload are zero.
pub proof fn lemma_control_unused_bytes_zero(v: ControlMessageView)
    requires
        ControlMessage::spec_valid(v),
    ensures
        ControlMessage::spec_encode(v).subrange(16 + v.data.len() as int, 80) == zeros(
            (CONTROL_DATA_CAPACITY - v.data.len()) as nat,
        ),
{
    let b = ControlMessage::spec_encode(v);
    let n = v.data.len();
    lemma_ne_u32(sys::SIM_MAGIC, b);
    lemma_ne_u32(v.client_id, b);
    lemma_ne_u32(v.kind.raw_value(), b);
    lemma_ne_u32(n as u32, b);
    assert(b.subrange(16 + n as int, 80) =~= zeros((CONTROL_DATA_CAPACITY - n) as nat));
}



/// The wire number of every kind is its `SIM_CTL_*` constant from the
/// header, and no two kinds share a number.
pub proof fn lemma_control_type_header_numbers(a: ControlType, b: ControlType)
    ensures
        ControlType::Error.raw_value() == sys::SIM_CTL_ERROR,
        ControlType::Connect.raw_value() == sys::SIM_CTL_CONNECT,
        ControlType::Disconnect.raw_value() == sys::SIM_CTL_DISCONNECT,
        ControlType::GetPort.raw_value() == sys::SIM_CTL_GET_PORT,
        ControlType::GetVendor.raw_value() == sys::SIM_CTL_GET_VENDOR,
        ControlType::GetGid.raw_value() == sys::SIM_CTL_GET_GID,
        ControlType::GetGuid.raw_value() == sys::SIM_CTL_GET_GUID,
        ControlType::GetNodeInfo.raw_value() == sys::SIM_CTL_GET_NODEINFO,
        ControlType::GetPortInfo.raw_value() == sys::SIM_CTL_GET_PORTINFO,
        ControlType::SetIsSm.raw_value() == sys::SIM_CTL_SET_ISSM,
        ControlType::GetPKeys.raw_value() == sys::SIM_CTL_GET_PKEYS,
        a.raw_value() == b.raw_value() ==> a == b,
{
}

/// A connect frame comes from no client yet (client ID 0), is of kind
/// `Connect`, and carries the encoded identity of the client; a query frame
/// carries the asked client ID and kind and `len` zero bytes.
pub proof fn lemma_request_frames(info: ClientInfoView, client_id: u32, kind: ControlType, len: nat)
    ensures
        connect_view(info).client_id == 0,
        connect_view(info).kind == ControlType::Connect,
        connect_view(info).data == ClientInfo::spec_encode(info),
        query_view(client_id, kind, len).client_id == client_id,
        query_view(client_id, kind, len).kind == kind,
        query_view(client_id, kind, len).data.len() == len,
        forall|i: int| 0 <= i < len ==> #[trigger] query_view(client_id, kind, len).data[i] == 0,
{
}

/// Every field of an encoded frame sits at its `sim_ctl` offset: the magic at
/// 0, the client ID at 4, the kind's wire number at 8, the payload length at
/// 12 and the payload at 16.
pub proof fn lemma_control_encode_layout(v: ControlMessageView)
    requires
        ControlMessage::spec_valid(v),
    ensures
        ({
            let b = ControlMessage::spec_encode(v);
            let n = v.data.len() as int;
            &&& b.len() == 80
            &&& b.subrange(0, 4) == ne_bytes_u32(sys::SIM_MAGIC)
            &&& b.subrange(4, 8) == ne_bytes_u32(v.client_id)
            &&& b.subrange(8, 12) == ne_bytes_u32(v.kind.raw_value())
            &&& b.subrange(12, 16) == ne_bytes_u32(n as u32)
            &&& b.subrange(16, 16 + n) == v.data
        }),
{
    let b = ControlMessage::spec_encode(v);
    let n = v.data.len();
    lemma_ne_u32(sys::SIM_MAGIC, b);
    lemma_ne_u32(v.client_id, b);
    lemma_ne_u32(v.kind.raw_value(), b);
    lemma_ne_u32(n as u32, b);
    assert(b.subrange(0, 4) =~= ne_bytes_u32(sys::SIM_MAGIC));
    assert(b.subrange(4, 8) =~= ne_bytes_u32(v.client_id));
    assert(b.subrange(8, 12) =~= ne_bytes_u32(v.kind.raw_value()));
    assert(b.subrange(12, 16) =~= ne_bytes_u32(n as u32));
    assert(b.subrange(16, 16 + n as int) =~= v.data);
}

/// A frame decodes exactly when the `sim_ctl` record it holds has the magic,
/// a known type number and a payload length within the limit; the decoded
/// frame's kind is the one whose wire number is the record's type, and its
/// client ID and payload are the record's.
pub proof fn lemma_control_decode_fields(bytes: Seq<u8>, raw: sys::sim_ctl)
    requires
        bytes.len() == 80,
        raw.spec_held_by(bytes),
    ensures
        ControlMessage::spec_decode(bytes) is Ok <==> raw.magic == sys::SIM_MAGIC && raw.type_
            < sys::SIM_CTL_LAST && raw.len <= CONTROL_DATA_CAPACITY,
        ControlMessage::spec_decode(bytes) matches Ok(m) ==> {
            &&& m.client_id == raw.clientid
            &&& m.kind.raw_value() == raw.type_
            &&& m.data == chars_to_bytes(raw.data@).take(raw.len as int)
        },
        raw.magic != sys::SIM_MAGIC ==> ControlMessage::spec_decode(bytes) == Err::<
            ControlMessageView,
            Error,
        >(Error::InvalidMagic(raw.magic)),
        raw.magic == sys::SIM_MAGIC && raw.type_ >= sys::SIM_CTL_LAST
            ==> ControlMessage::spec_decode(bytes) == Err::<ControlMessageView, Error>(
            Error::UnknownControlType(raw.type_),
        ),
        raw.magic == sys::SIM_MAGIC && raw.type_ < sys::SIM_CTL_LAST && raw.len
            > CONTROL_DATA_CAPACITY ==> ControlMessage::spec_decode(bytes) == Err::<
            ControlMessageView,
            Error,
        >(Error::ControlDataTooLong(raw.len as usize)),
{
    lemma_control_type_numbers(ControlType::Error, raw.type_);
    lemma_bytes_chars_bytes(bytes.subrange(16, 80));
    if raw.len <= CONTROL_DATA_CAPACITY {
        assert(chars_to_bytes(raw.data@).take(raw.len as int) =~= bytes.subrange(
            16,
            16 + raw.len,
        ));
    }
}

} // verus!
