//! Vendor and port information that the simulator reports.
use crate::error::Error;
use crate::native::{lemma_ne_u16, lemma_ne_u32, lemma_ne_u64, ne_bytes_u16, ne_bytes_u32,
    ne_bytes_u64, ne_value_u16, ne_value_u32, ne_value_u64};
use crate::sys;
use crate::wire::{WirePod, decode_raw, encode_raw, u64_pad, u64_padding, zeros, WireMessage};
use vstd::prelude::*;
use vstd::std_specs::convert::FromSpec;
use vstd::std_specs::convert::FromSpecImpl;

verus! {

/// Vendor identification of a simulated node.
#[derive(Clone, Copy, Debug, Eq, PartialEq, Structural)]
pub struct VendorInfo {
    pub vendor_id: u32,
    pub vendor_part_id: u32,
    pub hardware_version: u32,
    pub firmware_version: u64,
}

impl View for VendorInfo {
    type V = VendorInfo;

    open spec fn view(&self) -> VendorInfo {
        *self
    }
}

impl From<sys::sim_vendor> for VendorInfo {
    fn from(raw: sys::sim_vendor) -> (info: Self) {
        Self {
            vendor_id: raw.vendor_id,
            vendor_part_id: raw.vendor_part_id,
            hardware_version: raw.hw_ver,
            firmware_version: raw.fw_ver,
        }
    }
}

impl FromSpecImpl<sys::sim_vendor> for VendorInfo {
    open spec fn obeys_from_spec() -> bool {
        true
    }

    open spec fn from_spec(raw: sys::sim_vendor) -> Self {
        VendorInfo {
            vendor_id: raw.vendor_id,
            vendor_part_id: raw.vendor_part_id,
            hardware_version: raw.hw_ver,
            firmware_version: raw.fw_ver,
        }
    }
}

impl From<VendorInfo> for sys::sim_vendor {
    fn from(value: VendorInfo) -> (raw: Self) {
        let mut raw = Self::default();
        raw.vendor_id = value.vendor_id;
        raw.vendor_part_id = value.vendor_part_id;
        raw.hw_ver = value.hardware_version;
        raw.fw_ver = value.firmware_version;
        raw
    }
}

impl FromSpecImpl<VendorInfo> for sys::sim_vendor {
    open spec fn obeys_from_spec() -> bool {
        true
    }

    open spec fn from_spec(value: VendorInfo) -> Self {
        sys::sim_vendor {
            vendor_id: value.vendor_id,
            vendor_part_id: value.vendor_part_id,
            hw_ver: value.hardware_version,
            fw_ver: value.firmware_version,
        }
    }
}

impl WireMessage for VendorInfo {
    open spec fn spec_wire_size() -> nat {
        20 + u64_pad()
    }

    fn wire_size() -> (n: usize) {
        20 + u64_padding()
    }

    open spec fn spec_valid(v: VendorInfo) -> bool {
        true
    }

    open spec fn spec_encode(v: VendorInfo) -> Seq<u8> {
        ne_bytes_u32(v.vendor_id) + ne_bytes_u32(v.vendor_part_id) + ne_bytes_u32(
            v.hardware_version,
        ) + zeros(u64_pad()) + ne_bytes_u64(v.firmware_version)
    }

    open spec fn spec_decode(bytes: Seq<u8>) -> Result<VendorInfo, Error> {
        let p = u64_pad() as int;
        if bytes.len() != 20 + p {
            Err(Error::InvalidWireSize { expected: (20 + p) as usize, actual: bytes.len() as usize })
        } else {
            Ok(
                VendorInfo {
                    vendor_id: ne_value_u32(bytes.subrange(0, 4)),
                    vendor_part_id: ne_value_u32(bytes.subrange(4, 8)),
                    hardware_version: ne_value_u32(bytes.subrange(8, 12)),
                    firmware_version: ne_value_u64(bytes.subrange(12 + p, 20 + p)),
                },
            )
        }
    }

    fn encode(&self) -> (bytes: Vec<u8>) {
        encode_raw(&sys::sim_vendor::from(*self))
    }

    fn decode(bytes: &[u8]) -> (res: Result<Self, Error>) {
        match decode_raw::<sys::sim_vendor>(bytes) {
            Ok(raw) => Ok(VendorInfo::from(raw)),
            Err(e) => Err(e),
        }
    }

    proof fn lemma_round_trip(v: VendorInfo) {
        let b = Self::spec_encode(v);
        let p = u64_pad() as int;
        lemma_ne_u32(v.vendor_id, b);
        lemma_ne_u32(v.vendor_part_id, b);
        lemma_ne_u32(v.hardware_version, b);
        lemma_ne_u64(v.firmware_version, b);
        assert(b.subrange(0, 4) =~= ne_bytes_u32(v.vendor_id));
        assert(b.subrange(4, 8) =~= ne_bytes_u32(v.vendor_part_id));
        assert(b.subrange(8, 12) =~= ne_bytes_u32(v.hardware_version));
        assert(b.subrange(12 + p, 20 + p) =~= ne_bytes_u64(v.firmware_version));
    }

    proof fn lemma_decode_checks(bytes: Seq<u8>) {
    }
}


/// Address and state of a simulated port.
#[derive(Clone, Copy, Debug, Eq, PartialEq, Structural)]
pub struct PortInfo {
    pub lid: u16,
    pub state: u8,
}

impl View for PortInfo {
    type V = PortInfo;

    open spec fn view(&self) -> PortInfo {
        *self
    }
}

impl From<sys::sim_port> for PortInfo {
    fn from(raw: sys::sim_port) -> (info: Self) {
        Self { lid: raw.lid, state: raw.state }
    }
}

impl FromSpecImpl<sys::sim_port> for PortInfo {
    open spec fn obeys_from_spec() -> bool {
        true
    }

    open spec fn from_spec(raw: sys::sim_port) -> Self {
        PortInfo { lid: raw.lid, state: raw.state }
    }
}

impl From<PortInfo> for sys::sim_port {
    fn from(value: PortInfo) -> (raw: Self) {
        let mut raw = Self::default();
        raw.lid = value.lid;
        raw.state = value.state;
        raw
    }
}

impl FromSpecImpl<PortInfo> for sys::sim_port {
    open spec fn obeys_from_spec() -> bool {
        true
    }

    open spec fn from_spec(value: PortInfo) -> Self {
        sys::sim_port { lid: value.lid, state: value.state }
    }
}

impl WireMessage for PortInfo {
    open spec fn spec_wire_size() -> nat {
        4
    }

    fn wire_size() -> (n: usize) {
        4
    }

    open spec fn spec_valid(v: PortInfo) -> bool {
        true
    }

    open spec fn spec_encode(v: PortInfo) -> Seq<u8> {
        ne_bytes_u16(v.lid) + seq![v.state] + zeros(1)
    }

    open spec fn spec_decode(bytes: Seq<u8>) -> Result<PortInfo, Error> {
        if bytes.len() != 4 {
            Err(Error::InvalidWireSize { expected: 4, actual: bytes.len() as usize })
        } else {
            Ok(PortInfo { lid: ne_value_u16(bytes.subrange(0, 2)), state: bytes[2] })
        }
    }

    fn encode(&self) -> (bytes: Vec<u8>) {
        encode_raw(&sys::sim_port::from(*self))
    }

    fn decode(bytes: &[u8]) -> (res: Result<Self, Error>) {
        match decode_raw::<sys::sim_port>(bytes) {
            Ok(raw) => Ok(PortInfo::from(raw)),
            Err(e) => Err(e),
        }
    }

    proof fn lemma_round_trip(v: PortInfo) {
        let b = Self::spec_encode(v);
        lemma_ne_u16(v.lid, b);
        assert(b.subrange(0, 2) =~= ne_bytes_u16(v.lid));
    }

    proof fn lemma_decode_checks(bytes: Seq<u8>) {
    }
}

/// Converting a `VendorInfo` to its raw record and back gives it again,
/// and so does converting a raw record to a `VendorInfo` and back.
pub proof fn lemma_vendor_conversions(v: VendorInfo, raw: sys::sim_vendor)
    ensures
        <VendorInfo as FromSpec<sys::sim_vendor>>::from_spec(
            <sys::sim_vendor as FromSpec<VendorInfo>>::from_spec(v),
        ) == v,
        <sys::sim_vendor as FromSpec<VendorInfo>>::from_spec(
            <VendorInfo as FromSpec<sys::sim_vendor>>::from_spec(raw),
        ) == raw,
{
}

/// Converting a `PortInfo` to its raw record and back gives it again, and
/// so does converting a raw record to a `PortInfo` and back.
pub proof fn lemma_port_conversions(v: PortInfo, raw: sys::sim_port)
    ensures
        <PortInfo as FromSpec<sys::sim_port>>::from_spec(
            <sys::sim_port as FromSpec<PortInfo>>::from_spec(v),
        ) == v,
        <sys::sim_port as FromSpec<PortInfo>>::from_spec(
            <PortInfo as FromSpec<sys::sim_port>>::from_spec(raw),
        ) == raw,
{
}

/// The padding bytes of an encoded `VendorInfo` and `PortInfo` are zero.
pub proof fn lemma_info_padding_zero(v: VendorInfo, p: PortInfo)
    ensures
        VendorInfo::spec_encode(v).subrange(12, 12 + u64_pad() as int) == zeros(u64_pad()),
        PortInfo::spec_encode(p)[3] == 0,
{
    lemma_ne_u32(v.vendor_id, zeros(0));
    lemma_ne_u32(v.vendor_part_id, zeros(0));
    lemma_ne_u32(v.hardware_version, zeros(0));
    lemma_ne_u16(p.lid, zeros(0));
    assert(VendorInfo::spec_encode(v).subrange(12, 12 + u64_pad() as int) =~= zeros(u64_pad()));
}

/// Each conversion between a `VendorInfo` and its raw record moves every
/// field to its namesake: `vendor_id` to `vendor_id`, `vendor_part_id` to
/// `vendor_part_id`, `hardware_version` to `hw_ver`, `firmware_version` to
/// `fw_ver`; the same holds between a `PortInfo` and its record.
pub proof fn lemma_info_fields_to_namesakes(
    v: VendorInfo,
    raw: sys::sim_vendor,
    p: PortInfo,
    raw_port: sys::sim_port,
)
    ensures
        ({
            let r = <sys::sim_vendor as FromSpec<VendorInfo>>::from_spec(v);
            &&& r.vendor_id == v.vendor_id
            &&& r.vendor_part_id == v.vendor_part_id
            &&& r.hw_ver == v.hardware_version
            &&& r.fw_ver == v.firmware_version
        }),
        ({
            let w = <VendorInfo as FromSpec<sys::sim_vendor>>::from_spec(raw);
            &&& w.vendor_id == raw.vendor_id
            &&& w.vendor_part_id == raw.vendor_part_id
            &&& w.hardware_version == raw.hw_ver
            &&& w.firmware_version == raw.fw_ver
        }),
        <sys::sim_port as FromSpec<PortInfo>>::from_spec(p).lid == p.lid,
        <sys::sim_port as FromSpec<PortInfo>>::from_spec(p).state == p.state,
        <PortInfo as FromSpec<sys::sim_port>>::from_spec(raw_port).lid == raw_port.lid,
        <PortInfo as FromSpec<sys::sim_port>>::from_spec(raw_port).state == raw_port.state,
{
}

/// The encoding of a `VendorInfo` or `PortInfo` is the bytes of its raw
/// record, and a buffer that holds a raw record decodes to the value that
/// record converts to.
pub proof fn lemma_info_wire_is_record(
    v: VendorInfo,
    bytes: Seq<u8>,
    raw: sys::sim_vendor,
    p: PortInfo,
    port_bytes: Seq<u8>,
    raw_port: sys::sim_port,
)
    ensures
        VendorInfo::spec_encode(v) == <sys::sim_vendor as FromSpec<VendorInfo>>::from_spec(
            v,
        ).spec_raw_bytes(),
        bytes.len() == 20 + u64_pad() && raw.spec_held_by(bytes) ==> VendorInfo::spec_decode(
            bytes,
        ) == Ok::<VendorInfo, Error>(<VendorInfo as FromSpec<sys::sim_vendor>>::from_spec(raw)),
        PortInfo::spec_encode(p) == <sys::sim_port as FromSpec<PortInfo>>::from_spec(
            p,
        ).spec_raw_bytes(),
        port_bytes.len() == 4 && raw_port.spec_held_by(port_bytes) ==> PortInfo::spec_decode(
            port_bytes,
        ) == Ok::<PortInfo, Error>(<PortInfo as FromSpec<sys::sim_port>>::from_spec(raw_port)),
{
}

/// Every field of an encoded `VendorInfo` sits at its `sim_vendor` offset
/// (vendor ID at 0, part ID at 4, hardware version at 8, firmware version at
/// 12 + pad), and every field of an encoded `PortInfo` at its `sim_port`
/// offset (LID at 0, state at 2).
pub proof fn lemma_info_encode_layout(v: VendorInfo, p: PortInfo)
    ensures
        ({
            let b = VendorInfo::spec_encode(v);
            let pad = u64_pad() as int;
            &&& b.len() == 20 + pad
            &&& b.subrange(0, 4) == ne_bytes_u32(v.vendor_id)
            &&& b.subrange(4, 8) == ne_bytes_u32(v.vendor_part_id)
            &&& b.subrange(8, 12) == ne_bytes_u32(v.hardware_version)
            &&& b.subrange(12 + pad, 20 + pad) == ne_bytes_u64(v.firmware_version)
        }),
        ({
            let b = PortInfo::spec_encode(p);
            &&& b.len() == 4
            &&& b.subrange(0, 2) == ne_bytes_u16(p.lid)
            &&& b[2] == p.state
        }),
{
    VendorInfo::lemma_round_trip(v);
    PortInfo::lemma_round_trip(p);
    let b = VendorInfo::spec_encode(v);
    let pad = u64_pad() as int;
    lemma_ne_u32(v.vendor_id, b);
    lemma_ne_u32(v.vendor_part_id, b);
    lemma_ne_u32(v.hardware_version, b);
    lemma_ne_u64(v.firmware_version, b);
    assert(b.subrange(0, 4) =~= ne_bytes_u32(v.vendor_id));
    assert(b.subrange(4, 8) =~= ne_bytes_u32(v.vendor_part_id));
    assert(b.subrange(8, 12) =~= ne_bytes_u32(v.hardware_version));
    assert(b.subrange(12 + pad, 20 + pad) =~= ne_bytes_u64(v.firmware_version));
    let b = PortInfo::spec_encode(p);
    lemma_ne_u16(p.lid, b);
    assert(b.subrange(0, 2) =~= ne_bytes_u16(p.lid));
}

} // verus!
