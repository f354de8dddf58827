//! What a client tells the simulator about itself when it connects.
use crate::error::Error;
use crate::native::{lemma_ne_u32, ne_bytes_u32, ne_value_u32};
use crate::sys;
use crate::wire::{chars_to_bytes, WirePod, 
    copy_bytes_to_chars, copy_chars_to_bytes, decode_raw, encode_raw, lemma_bytes_chars_bytes,
    lemma_padded_chars, min_len, prefix_to_vec, slice_to_vec, zeros, WireMessage,
};
use crate::NODE_ID_CAPACITY;
use vstd::prelude::*;
use vstd::string::StringSliceAdditionalSpecFns;
use vstd::utf8::valid_utf8;

verus! {

/// A node ID that fits the wire field with its terminating NUL: at most
/// `NODE_ID_CAPACITY` bytes, none of them NUL.
pub open spec fn valid_node_id(s: Seq<u8>) -> bool {
    s.len() <= NODE_ID_CAPACITY && !s.contains(0)
}

/// `p` is the position of the first NUL byte of `s`.
pub open spec fn is_first_nul(s: Seq<u8>, p: int) -> bool {
    &&& 0 <= p < s.len()
    &&& s[p] == 0
    &&& forall|j: int| 0 <= j < p ==> s[j] != 0
}

/// The position of the first NUL byte of `s`, where `s` holds one.
pub open spec fn first_nul(s: Seq<u8>) -> int {
    choose|p: int| is_first_nul(s, p)
}

/// A sequence has at most one first NUL byte.
pub proof fn lemma_first_nul_unique(s: Seq<u8>, p: int)
    requires
        is_first_nul(s, p),
    ensures
        first_nul(s) == p,
{
    let q = first_nul(s);
    assert(is_first_nul(s, q));
    if q < p {
        assert(s[q] != 0);
    } else if p < q {
        assert(s[p] != 0);
    }
}

/// A sequence that holds a NUL byte at `p` has a first NUL byte, at or before `p`.
pub proof fn lemma_first_nul_exists(s: Seq<u8>, p: int) -> (q: int)
    requires
        0 <= p < s.len(),
        s[p] == 0,
    ensures
        is_first_nul(s, q),
        q <= p,
    decreases p,
{
    if exists|j: int| 0 <= j < p && s[j] == 0 {
        let j = choose|j: int| 0 <= j < p && s[j] == 0;
        lemma_first_nul_exists(s, j)
    } else {
        p
    }
}

/// The abstract value of a [`ClientInfo`].
pub struct ClientInfoView {
    pub id: u32,
    pub qp: u32,
    pub is_sm: bool,
    pub node_id: Seq<u8>,
}

/// A client's identity; its node ID always fits the wire field with its NUL.
#[derive(Debug, Eq, PartialEq)]
pub struct ClientInfo {
    id: u32,
    qp: u32,
    is_sm: bool,
    node_id: Vec<u8>,
}

impl View for ClientInfo {
    type V = ClientInfoView;

    closed spec fn view(&self) -> ClientInfoView {
        ClientInfoView { id: self.id, qp: self.qp, is_sm: self.is_sm, node_id: self.node_id@ }
    }
}

/// Whether `s` holds a NUL byte.
fn contains_nul(s: &[u8]) -> (found: bool)
    ensures
        found == s@.contains(0),
{
    match nul_position(s) {
        Some(p) => {
            assert(s@[p as int] == 0);
            true
        },
        None => false,
    }
}

/// The position of the first NUL byte of `s`, if it holds one.
fn nul_position(s: &[u8]) -> (pos: Option<usize>)
    ensures
        pos matches Some(p) ==> is_first_nul(s@, p as int),
        pos is None ==> !s@.contains(0),
{
    let mut i: usize = 0;
    while i < s.len()
        invariant
            i <= s@.len(),
            forall|j: int| 0 <= j < i ==> s@[j] != 0,
        decreases s@.len() - i,
    {
        if s[i] == 0 {
            return Some(i);
        }
        i = i + 1;
    }
    None
}

/// `std::str::from_utf8`: the bytes read as a string slice when they are
/// valid UTF-8, and no string otherwise.
#[verifier::external_body]
fn utf8_str(bytes: &[u8]) -> (s: Option<&str>)
    ensures
        s is Some <==> valid_utf8(bytes@),
        s matches Some(t) ==> t.spec_bytes() == bytes@,
{
    std::str::from_utf8(bytes).ok()
}

impl ClientInfo {
    #[verifier::type_invariant]
    spec fn node_id_fits(self) -> bool {
        valid_node_id(self.node_id@)
    }

    /// Builds a client's identity; fails with `NodeIdTooLong` when the node
    /// ID is longer than `NODE_ID_CAPACITY` bytes, else with
    /// `NodeIdContainsNul` when it holds a NUL byte.
    pub fn new(id: u32, qp: u32, is_sm: bool, node_id: &[u8]) -> (res: Result<Self, Error>)
        ensures
            res is Ok <==> valid_node_id(node_id@),
            res matches Err(e) ==> e == (if node_id@.len() > NODE_ID_CAPACITY {
                Error::NodeIdTooLong(node_id@.len() as usize)
            } else {
                Error::NodeIdContainsNul
            }),
            res matches Ok(c) ==> c@ == (ClientInfoView { id, qp, is_sm, node_id: node_id@ }),
    {
        if node_id.len() > NODE_ID_CAPACITY {
            return Err(Error::NodeIdTooLong(node_id.len()));
        }
        if contains_nul(node_id) {
            return Err(Error::NodeIdContainsNul);
        }
        Ok(Self { id, qp, is_sm, node_id: slice_to_vec(node_id) })
    }

    pub fn id(&self) -> (r: u32)
        ensures
            r == self@.id,
    {
        self.id
    }

    pub fn qp(&self) -> (r: u32)
        ensures
            r == self@.qp,
    {
        self.qp
    }

    pub fn is_sm(&self) -> (r: bool)
        ensures
            r == self@.is_sm,
    {
        self.is_sm
    }

    /// The node ID; it is never longer than `NODE_ID_CAPACITY` and holds no NUL.
    pub fn node_id(&self) -> (r: &[u8])
        ensures
            r@ == self@.node_id,
            valid_node_id(r@),
    {
        proof {
            use_type_invariant(self);
        }
        self.node_id.as_slice()
    }

    /// The node ID as text, when it is valid UTF-8.
    pub fn node_id_str(&self) -> (r: Option<&str>)
        ensures
            r is Some <==> valid_utf8(self@.node_id),
            r matches Some(s) ==> s.spec_bytes() == self@.node_id,
    {
        utf8_str(self.node_id.as_slice())
    }
}

impl Clone for ClientInfo {
    fn clone(&self) -> (copy: Self)
        ensures
            copy@ == self@,
    {
        proof {
            use_type_invariant(self);
        }
        ClientInfo {
            id: self.id,
            qp: self.qp,
            is_sm: self.is_sm,
            node_id: slice_to_vec(self.node_id.as_slice()),
        }
    }
}

impl WireMessage for ClientInfo {
    open spec fn spec_wire_size() -> nat {
        44
    }

    fn wire_size() -> (n: usize) {
        44
    }

    open spec fn spec_valid(v: ClientInfoView) -> bool {
        valid_node_id(v.node_id)
    }

    open spec fn spec_encode(v: ClientInfoView) -> Seq<u8> {
        ne_bytes_u32(v.id) + ne_bytes_u32(v.qp) + ne_bytes_u32(
            if v.is_sm {
                1
            } else {
                0
            },
        ) + v.node_id + zeros((32 - v.node_id.len()) as nat)
    }

    open spec fn spec_decode(bytes: Seq<u8>) -> Result<ClientInfoView, Error> {
        if bytes.len() != 44 {
            Err(Error::InvalidWireSize { expected: 44, actual: bytes.len() as usize })
        } else {
            let field = bytes.subrange(12, 44);
            if !field.contains(0) {
                Err(Error::NodeIdNotTerminated)
            } else {
                Ok(
                    ClientInfoView {
                        id: ne_value_u32(bytes.subrange(0, 4)),
                        qp: ne_value_u32(bytes.subrange(4, 8)),
                        is_sm: ne_value_u32(bytes.subrange(8, 12)) != 0,
                        node_id: field.take(first_nul(field)),
                    },
                )
            }
        }
    }

    fn encode(&self) -> (bytes: Vec<u8>) {
        proof {
            use_type_invariant(self);
        }
        let mut raw = sys::sim_client_info::default();
        raw.id = self.id;
        raw.qp = self.qp;
        raw.issm = if self.is_sm {
            1
        } else {
            0
        };
        let ghost blank = raw.nodeid@;
        copy_bytes_to_chars(&mut raw.nodeid, self.node_id.as_slice());
        proof {
            let n = self.node_id@.len();
            assert(min_len(32, n) == n);
            assert(self.node_id@.take(n as int) =~= self.node_id@);
            lemma_padded_chars(self.node_id@, blank.skip(n as int));
        }
        encode_raw(&raw)
    }

    fn decode(bytes: &[u8]) -> (res: Result<Self, Error>) {
        let raw = match decode_raw::<sys::sim_client_info>(bytes) {
            Ok(raw) => raw,
            Err(e) => return Err(e),
        };
        let node_id = copy_chars_to_bytes(&raw.nodeid);
        proof {
            lemma_bytes_chars_bytes(bytes@.subrange(12, 44));
            assert(node_id@ == bytes@.subrange(12, 44));
        }
        let end = match nul_position(node_id.as_slice()) {
            Some(p) => p,
            None => return Err(Error::NodeIdNotTerminated),
        };
        proof {
            assert(node_id@[end as int] == 0);
            lemma_first_nul_unique(node_id@, end as int);
        }
        let prefix = prefix_to_vec(node_id.as_slice(), end);
        proof {
            assert forall|j: int| 0 <= j < prefix@.len() implies prefix@[j] != 0 by {
                assert(prefix@[j] == node_id@[j]);
            }
        }
        Self::new(raw.id, raw.qp, raw.issm != 0, prefix.as_slice())
    }

    proof fn lemma_round_trip(v: ClientInfoView) {
        let b = Self::spec_encode(v);
        let n = v.node_id.len();
        let flag: u32 = if v.is_sm {
            1
        } else {
            0
        };
        lemma_ne_u32(v.id, b);
        lemma_ne_u32(v.qp, b);
        lemma_ne_u32(flag, b);
        assert(b.subrange(0, 4) =~= ne_bytes_u32(v.id));
        assert(b.subrange(4, 8) =~= ne_bytes_u32(v.qp));
        assert(b.subrange(8, 12) =~= ne_bytes_u32(flag));
        let field = b.subrange(12, 44);
        assert(field =~= v.node_id + zeros((32 - n) as nat));
        assert(field[n as int] == 0);
        assert forall|j: int| 0 <= j < n implies field[j] != 0 by {
            assert(field[j] == v.node_id[j]);
        }
        lemma_first_nul_unique(field, n as int);
        assert(field.take(n as int) =~= v.node_id);
    }

    proof fn lemma_decode_checks(bytes: Seq<u8>) {
        if bytes.len() == 44 {
            let field = bytes.subrange(12, 44);
            if field.contains(0) {
                let p = choose|i: int| 0 <= i < field.len() && field[i] == 0;
                let q = lemma_first_nul_exists(field, p);
                lemma_first_nul_unique(field, q);
                let id = field.take(q);
                assert forall|j: int| 0 <= j < id.len() implies id[j] != 0 by {
                    assert(id[j] == field[j]);
                }
            }
        }
    }
}

/// Every field of an encoded identity sits at its `sim_client_info`
/// offset: the ID at 0, the queue pair at 4, the subnet-manager flag at 8
/// (1 for a subnet manager, 0 otherwise, so non-zero exactly for one), and
/// the node ID at 12, followed by its terminating NUL.
pub proof fn lemma_client_encode_layout(v: ClientInfoView)
    requires
        ClientInfo::spec_valid(v),
    ensures
        ({
            let b = ClientInfo::spec_encode(v);
            let n = v.node_id.len() as int;
            &&& b.len() == 44
            &&& b.subrange(0, 4) == ne_bytes_u32(v.id)
            &&& b.subrange(4, 8) == ne_bytes_u32(v.qp)
            &&& v.is_sm ==> b.subrange(8, 12) == ne_bytes_u32(1)
            &&& !v.is_sm ==> b.subrange(8, 12) == ne_bytes_u32(0)
            &&& (ne_value_u32(b.subrange(8, 12)) != 0 <==> v.is_sm)
            &&& b.subrange(12, 12 + n) == v.node_id
            &&& b[12 + n] == 0
        }),
{
    let b = ClientInfo::spec_encode(v);
    let n = v.node_id.len();
    let flag: u32 = if v.is_sm {
        1
    } else {
        0
    };
    lemma_ne_u32(v.id, b);
    lemma_ne_u32(v.qp, b);
    lemma_ne_u32(flag, b);
    assert(b.subrange(0, 4) =~= ne_bytes_u32(v.id));
    assert(b.subrange(4, 8) =~= ne_bytes_u32(v.qp));
    assert(b.subrange(8, 12) =~= ne_bytes_u32(flag));
    assert(b.subrange(12, 12 + n as int) =~= v.node_id);
}

/// A buffer decodes to an identity exactly when the node ID field of the
/// `sim_client_info` record it holds has a NUL byte; the identity's ID and
/// queue pair are the record's, it is a subnet manager exactly when the
/// record's flag is non-zero, and its node ID is the field up to the first
/// NUL.
pub proof fn lemma_client_decode_fields(bytes: Seq<u8>, raw: sys::sim_client_info)
    requires
        bytes.len() == 44,
        raw.spec_held_by(bytes),
    ensures
        ClientInfo::spec_decode(bytes) is Ok <==> chars_to_bytes(raw.nodeid@).contains(0),
        ClientInfo::spec_decode(bytes) matches Ok(m) ==> {
            &&& m.id == raw.id
            &&& m.qp == raw.qp
            &&& m.is_sm == (raw.issm != 0)
            &&& is_first_nul(chars_to_bytes(raw.nodeid@), m.node_id.len() as int)
            &&& m.node_id == chars_to_bytes(raw.nodeid@).take(m.node_id.len() as int)
        },
        !chars_to_bytes(raw.nodeid@).contains(0) ==> ClientInfo::spec_decode(bytes) == Err::<
            ClientInfoView,
            Error,
        >(Error::NodeIdNotTerminated),
{
    let field = bytes.subrange(12, 44);
    lemma_bytes_chars_bytes(field);
    assert(chars_to_bytes(raw.nodeid@) == field);
    if field.contains(0) {
        let p = choose|i: int| 0 <= i < field.len() && field[i] == 0;
        let q = lemma_first_nul_exists(field, p);
        lemma_first_nul_unique(field, q);
        assert(field.take(q).len() == q);
    }
}

} // verus!
