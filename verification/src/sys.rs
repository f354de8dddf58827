//! The records of ibsim's public header, field for field.
//!
//! ibsim sends these records directly over datagram sockets, so their byte
//! layout is the protocol. These Rust structs carry the fields but not the C
//! memory layout: they are not `#[repr(C)]`, so they must not be handed to C
//! or copied to the wire as memory. `crate::wire` gives the bytes of each
//! record in the C layout (`WirePod::to_raw_bytes`, `encode_raw`) and reads
//! them back (`decode_raw`). The simulator uses Linux abstract Unix sockets
//! for local operation.
use vstd::prelude::*;

verus! {

pub const IBSIM_MAX_CLIENTS: usize = 10;
pub const IBSIM_DEFAULT_SERVER_PORT: u16 = 7070;
pub const SIM_BASENAME: &'static str = "sim";
pub const SIM_MAGIC: u32 = 0xdead_beef;
pub const SIM_CTL_MAX_DATA: usize = 64;

pub type SIM_CTL_TYPES = libc::c_int;

pub const SIM_CTL_ERROR: SIM_CTL_TYPES = 0;
pub const SIM_CTL_CONNECT: SIM_CTL_TYPES = 1;
pub const SIM_CTL_DISCONNECT: SIM_CTL_TYPES = 2;
pub const SIM_CTL_GET_PORT: SIM_CTL_TYPES = 3;
pub const SIM_CTL_GET_VENDOR: SIM_CTL_TYPES = 4;
pub const SIM_CTL_GET_GID: SIM_CTL_TYPES = 5;
pub const SIM_CTL_GET_GUID: SIM_CTL_TYPES = 6;
pub const SIM_CTL_GET_NODEINFO: SIM_CTL_TYPES = 7;
pub const SIM_CTL_GET_PORTINFO: SIM_CTL_TYPES = 8;
pub const SIM_CTL_SET_ISSM: SIM_CTL_TYPES = 9;
pub const SIM_CTL_GET_PKEYS: SIM_CTL_TYPES = 10;
pub const SIM_CTL_LAST: SIM_CTL_TYPES = 11;

/// Vendor identification of a simulated node (`struct sim_vendor`).
#[derive(Clone, Copy, Debug, Eq, PartialEq)]
pub struct sim_vendor {
    pub vendor_id: u32,
    pub vendor_part_id: u32,
    pub hw_ver: u32,
    pub fw_ver: u64,
}

/// Address and state of a simulated port (`struct sim_port`).
#[derive(Clone, Copy, Debug, Eq, PartialEq)]
pub struct sim_port {
    pub lid: u16,
    pub state: u8,
}

/// A MAD exchanged with the simulator (`struct sim_request`).
#[derive(Clone, Copy, Debug, Eq, PartialEq)]
pub struct sim_request {
    pub dlid: u32,
    pub slid: u32,
    pub dqp: u32,
    pub sqp: u32,
    pub status: u32,
    pub length: u64,
    pub mad: [libc::c_char; 256],
}

/// A control frame exchanged with the simulator (`struct sim_ctl`).
#[derive(Clone, Copy, Debug, Eq, PartialEq)]
pub struct sim_ctl {
    pub magic: u32,
    pub clientid: u32,
    pub type_: u32,
    pub len: u32,
    pub data: [libc::c_char; 64],
}

/// What a client tells the simulator when it connects (`struct sim_client_info`).
#[derive(Clone, Copy, Debug, Eq, PartialEq)]
pub struct sim_client_info {
    pub id: u32,
    pub qp: u32,
    pub issm: u32,
    pub nodeid: [libc::c_char; 32],
}

/// `libc::sockaddr`, carried only as a member of `name_t`.
#[verifier::external_type_specification]
#[verifier::external_body]
pub struct ExSockaddr(libc::sockaddr);

/// `libc::sockaddr_un`, carried only as a member of `name_t`.
#[verifier::external_type_specification]
#[verifier::external_body]
pub struct ExSockaddrUn(libc::sockaddr_un);

/// `libc::sockaddr_in`, carried only as a member of `name_t`.
#[verifier::external_type_specification]
#[verifier::external_body]
pub struct ExSockaddrIn(libc::sockaddr_in);

/// The socket address of a simulator endpoint (`name_t`).
pub union name_t {
    pub name: libc::sockaddr,
    pub name_u: libc::sockaddr_un,
    pub name_i: libc::sockaddr_in,
}

impl Default for sim_vendor {
    fn default() -> (r: Self)
        ensures
            r == (sim_vendor { vendor_id: 0, vendor_part_id: 0, hw_ver: 0, fw_ver: 0 }),
    {
        sim_vendor { vendor_id: 0, vendor_part_id: 0, hw_ver: 0, fw_ver: 0 }
    }
}

impl Default for sim_port {
    fn default() -> (r: Self)
        ensures
            r == (sim_port { lid: 0, state: 0 }),
    {
        sim_port { lid: 0, state: 0 }
    }
}

impl Default for sim_request {
    fn default() -> (r: Self)
        ensures
            r.dlid == 0 && r.slid == 0 && r.dqp == 0 && r.sqp == 0,
            r.status == 0 && r.length == 0,
            forall|i: int| 0 <= i < 256 ==> r.mad[i] == 0,
    {
        sim_request {
            dlid: 0,
            slid: 0,
            dqp: 0,
            sqp: 0,
            status: 0,
            length: 0,
            mad: [0; 256],
        }
    }
}

impl Default for sim_ctl {
    fn default() -> (r: Self)
        ensures
            r.magic == 0 && r.clientid == 0 && r.type_ == 0 && r.len == 0,
            forall|i: int| 0 <= i < 64 ==> r.data[i] == 0,
    {
        sim_ctl { magic: 0, clientid: 0, type_: 0, len: 0, data: [0; 64] }
    }
}

impl Default for sim_client_info {
    fn default() -> (r: Self)
        ensures
            r.id == 0 && r.qp == 0 && r.issm == 0,
            forall|i: int| 0 <= i < 32 ==> r.nodeid[i] == 0,
    {
        let nodeid: [libc::c_char; 32] = vstd::array::array_fill_for_copy_types(0);
        sim_client_info { id: 0, qp: 0, issm: 0, nodeid }
    }
}

} // verus!
