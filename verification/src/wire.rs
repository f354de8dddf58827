//! The byte layout of ibsim's records, and the generic encode and decode steps.
//!
//! Every record is laid out as the C header lays it out on the target:
//! integer fields in native byte order at their C offsets, padding bytes
//! zero, and character arrays copied byte for byte. The one field offset that
//! differs between targets is that of a `u64` after an odd number of `u32`
//! fields, which follows the alignment of `u64` (see `u64_pad`).
use crate::error::Error;
use crate::native::{
    lemma_ne_u16, lemma_ne_u32, lemma_ne_u64, ne_bytes_u16, ne_bytes_u32, ne_bytes_u64, ne_value_u16, ne_value_u32, ne_value_u64, push_all,
    u16_from_ne, u16_to_ne, u32_from_ne, u32_to_ne, u64_from_ne, u64_to_ne,
};
use crate::sys;
use vstd::prelude::*;

verus! {

/// A run of `n` zero bytes.
pub open spec fn zeros(n: nat) -> Seq<u8> {
    Seq::new(n, |i: int| 0u8)
}

/// C characters read as the bytes they hold.
pub open spec fn chars_to_bytes(s: Seq<i8>) -> Seq<u8> {
    s.map_values(|c: i8| c as u8)
}

/// Bytes stored as C characters.
pub open spec fn bytes_to_chars(s: Seq<u8>) -> Seq<i8> {
    s.map_values(|b: u8| b as i8)
}

/// The smaller of two lengths.
pub open spec fn min_len(a: nat, b: nat) -> nat {
    if a <= b {
        a
    } else {
        b
    }
}

/// Whether the target's C ABI aligns a `u64` field to eight bytes, as
/// 64-bit Linux does (32-bit x86 Linux aligns it to four).
pub open spec fn u64_aligned_to_8() -> bool {
    vstd::layout::align_of::<u64>() == 8
}

/// The padding that the C layout puts before a `u64` field at an offset that
/// is a multiple of four but not of eight: four bytes where `u64` is aligned
/// to eight, none otherwise.
pub open spec fn u64_pad() -> nat {
    if u64_aligned_to_8() {
        4
    } else {
        0
    }
}

/// `u64_pad` is the C rule: it is the least padding that brings the offsets
/// 12 and 20 to a multiple of the alignment of `u64`, and the records that
/// end with a `u64` (at 20 + pad) or with the MAD (at 284 + pad) need no
/// trailing padding.
pub proof fn lemma_u64_pad()
    ensures
        u64_pad() < vstd::layout::align_of::<u64>(),
        (12 + u64_pad()) % vstd::layout::align_of::<u64>() == 0,
        (20 + u64_pad()) % vstd::layout::align_of::<u64>() == 0,
        (284 + u64_pad()) % vstd::layout::align_of::<u64>() == 0,
{
    let a = vstd::layout::align_of::<u64>() as int;
    assert(vstd::layout::size_of::<u64>() == 8);
    assert(a > 0);
    assert(8int % a == 0);
    assert(a <= 8) by {
        if a > 8 {
            assert(8int % a == 8) by (nonlinear_arith)
                requires
                    a > 8,
            ;
        }
    }
    assert(a == 1 || a == 2 || a == 4 || a == 8) by {
        assert(8int % 3 == 2 && 8int % 5 == 3 && 8int % 6 == 2 && 8int % 7 == 1);
    }
}

/// The padding before a `u64` field at offset 12 or 20, on this target.
pub fn u64_padding() -> (n: usize)
    ensures
        n == u64_pad(),
{
    if std::mem::align_of::<u64>() == 8 {
        4
    } else {
        0
    }
}

proof fn lemma_byte_char_byte(b: u8)
    ensures
        ((b as i8) as u8) == b,
{
    assert(((b as i8) as u8) == b) by (bit_vector);
}

proof fn lemma_char_byte_char(c: i8)
    ensures
        ((c as u8) as i8) == c,
{
    assert(((c as u8) as i8) == c) by (bit_vector);
}

/// Reading C characters as bytes and storing them back gives the characters.
pub proof fn lemma_chars_bytes_chars(s: Seq<i8>)
    ensures
        bytes_to_chars(chars_to_bytes(s)) == s,
{
    assert forall|i: int| 0 <= i < s.len() implies bytes_to_chars(chars_to_bytes(s))[i] == s[i] by {
        lemma_char_byte_char(s[i]);
    }
    assert(bytes_to_chars(chars_to_bytes(s)) =~= s);
}

/// Storing bytes as C characters and reading them back gives the bytes.
pub proof fn lemma_bytes_chars_bytes(s: Seq<u8>)
    ensures
        chars_to_bytes(bytes_to_chars(s)) == s,
{
    assert forall|i: int| 0 <= i < s.len() implies chars_to_bytes(bytes_to_chars(s))[i] == s[i] by {
        lemma_byte_char_byte(s[i]);
    }
    assert(chars_to_bytes(bytes_to_chars(s)) =~= s);
}

/// Copies a C character array into a byte array of the same length.
pub fn copy_chars_to_bytes<const N: usize>(source: &[i8; N]) -> (output: [u8; N])
    ensures
        output@ == chars_to_bytes(source@),
{
    let mut output = [0u8; N];
    let mut i: usize = 0;
    while i < N
        invariant
            i <= N,
            output@.len() == N,
            source@.len() == N,
            forall|j: int| 0 <= j < i ==> output@[j] == (source@[j] as u8),
        decreases N - i,
    {
        output[i] = source[i] as u8;
        i = i + 1;
    }
    assert(output@ =~= chars_to_bytes(source@));
    output
}

/// Copies bytes into a C character array, as many as both can hold; the rest
/// of the array is left as it was.
pub fn copy_bytes_to_chars<const N: usize>(destination: &mut [i8; N], source: &[u8])
    ensures
        final(destination)@ == bytes_to_chars(
            source@.take(min_len(N as nat, source@.len()) as int),
        ) + old(destination)@.skip(min_len(N as nat, source@.len()) as int),
{
    let count: usize = if N <= source.len() {
        N
    } else {
        source.len()
    };
    let mut i: usize = 0;
    while i < count
        invariant
            i <= count,
            count == min_len(N as nat, source@.len()),
            destination@.len() == N,
            old(destination)@.len() == N,
            forall|j: int| 0 <= j < i ==> destination@[j] == (source@[j] as i8),
            forall|j: int| i <= j < N ==> destination@[j] == old(destination)@[j],
        decreases count - i,
    {
        destination[i] = source[i] as i8;
        i = i + 1;
    }
    assert(destination@ =~= bytes_to_chars(source@.take(count as int)) + old(destination)@.skip(
        count as int,
    ));
}

/// Appends `n` zero bytes to `out`.
fn push_zeros(out: &mut Vec<u8>, n: usize)
    ensures
        final(out)@ == old(out)@ + zeros(n as nat),
{
    let mut i: usize = 0;
    while i < n
        invariant
            i <= n,
            out@ == old(out)@ + zeros(i as nat),
        decreases n - i,
    {
        out.push(0u8);
        i = i + 1;
        assert(out@ =~= old(out)@ + zeros(i as nat));
    }
}

/// Reads the `u16` that `bytes[at..at + 2]` holds in native byte order.
fn read_u16(bytes: &[u8], at: usize) -> (x: u16)
    requires
        at + 2 <= bytes@.len(),
    ensures
        x == ne_value_u16(bytes@.subrange(at as int, at + 2)),
{
    let b: [u8; 2] = [bytes[at], bytes[at + 1]];
    assert(b@ =~= bytes@.subrange(at as int, at + 2));
    u16_from_ne(b)
}

/// Reads the `u32` that `bytes[at..at + 4]` holds in native byte order.
fn read_u32(bytes: &[u8], at: usize) -> (x: u32)
    requires
        at + 4 <= bytes@.len(),
    ensures
        x == ne_value_u32(bytes@.subrange(at as int, at + 4)),
{
    let b: [u8; 4] = [bytes[at], bytes[at + 1], bytes[at + 2], bytes[at + 3]];
    assert(b@ =~= bytes@.subrange(at as int, at + 4));
    u32_from_ne(b)
}

/// Reads the `u64` that `bytes[at..at + 8]` holds in native byte order.
fn read_u64(bytes: &[u8], at: usize) -> (x: u64)
    requires
        at + 8 <= bytes@.len(),
    ensures
        x == ne_value_u64(bytes@.subrange(at as int, at + 8)),
{
    let b: [u8; 8] = [
        bytes[at],
        bytes[at + 1],
        bytes[at + 2],
        bytes[at + 3],
        bytes[at + 4],
        bytes[at + 5],
        bytes[at + 6],
        bytes[at + 7],
    ];
    assert(b@ =~= bytes@.subrange(at as int, at + 8));
    u64_from_ne(b)
}

fn push_u16(out: &mut Vec<u8>, x: u16)
    ensures
        final(out)@ == old(out)@ + ne_bytes_u16(x),
{
    let b = u16_to_ne(x);
    push_all(out, b.as_slice());
}


/// Reading C characters that hold `p` followed by NUL characters gives `p`
/// followed by zero bytes.
pub proof fn lemma_padded_chars(p: Seq<u8>, rest: Seq<i8>)
    requires
        forall|i: int| 0 <= i < rest.len() ==> rest[i] == 0,
    ensures
        chars_to_bytes(bytes_to_chars(p) + rest) == p + zeros(rest.len()),
{
    assert forall|i: int| 0 <= i < p.len() implies chars_to_bytes(bytes_to_chars(p) + rest)[i]
        == p[i] by {
        lemma_byte_char_byte(p[i]);
    }
    assert(chars_to_bytes(bytes_to_chars(p) + rest) =~= p + zeros(rest.len()));
}

/// A new vector that holds the bytes of `s`.
pub fn slice_to_vec(s: &[u8]) -> (v: Vec<u8>)
    ensures
        v@ == s@,
{
    let mut v: Vec<u8> = Vec::new();
    push_all(&mut v, s);
    assert(v@ =~= s@);
    v
}

/// A new vector that holds the first `n` bytes of `s`.
pub fn prefix_to_vec(s: &[u8], n: usize) -> (v: Vec<u8>)
    requires
        n <= s@.len(),
    ensures
        v@ == s@.take(n as int),
{
    let mut v: Vec<u8> = Vec::new();
    let mut i: usize = 0;
    while i < n
        invariant
            i <= n,
            n <= s@.len(),
            v@ == s@.take(i as int),
        decreases n - i,
    {
        v.push(s[i]);
        i = i + 1;
        assert(v@ =~= s@.take(i as int));
    }
    v
}

/// A new vector of `n` zero bytes.
pub fn zero_vec(n: usize) -> (v: Vec<u8>)
    ensures
        v@ == zeros(n as nat),
{
    let mut v: Vec<u8> = Vec::new();
    push_zeros(&mut v, n);
    assert(v@ =~= zeros(n as nat));
    v
}

/// Appends the native bytes of `x` to `out`.
pub fn push_u32(out: &mut Vec<u8>, x: u32)
    ensures
        final(out)@ == old(out)@ + ne_bytes_u32(x),
{
    let b = u32_to_ne(x);
    push_all(out, b.as_slice());
}

fn push_u64(out: &mut Vec<u8>, x: u64)
    ensures
        final(out)@ == old(out)@ + ne_bytes_u64(x),
{
    let b = u64_to_ne(x);
    push_all(out, b.as_slice());
}

/// A record with a fixed byte layout in which every byte pattern of the
/// right length is a valid value.
pub trait WirePod: Sized + Copy {
    /// The number of bytes the record takes on the wire.
    spec fn spec_wire_size() -> nat;

    /// The bytes that hold the record: fields at their offsets, padding zero.
    spec fn spec_raw_bytes(&self) -> Seq<u8>;

    /// The record's fields are those that `bytes` holds at their offsets.
    spec fn spec_held_by(&self, bytes: Seq<u8>) -> bool;

    fn to_raw_bytes(&self) -> (bytes: Vec<u8>)
        ensures
            bytes@ == self.spec_raw_bytes(),
    ;

    fn from_raw_bytes(bytes: &[u8]) -> (raw: Self)
        requires
            bytes@.len() == Self::spec_wire_size(),
        ensures
            raw.spec_held_by(bytes@),
    ;

    fn wire_size() -> (n: usize)
        ensures
            n == Self::spec_wire_size(),
    ;

    /// A record's bytes have the record's size and hold the record.
    proof fn lemma_raw_round_trip(raw: Self)
        ensures
            raw.spec_raw_bytes().len() == Self::spec_wire_size(),
            raw.spec_held_by(raw.spec_raw_bytes()),
    ;

    /// A buffer of the record's size holds one record and no other.
    proof fn lemma_held_by_unique(a: Self, b: Self, bytes: Seq<u8>)
        requires
            bytes.len() == Self::spec_wire_size(),
            a.spec_held_by(bytes),
            b.spec_held_by(bytes),
        ensures
            a == b,
    ;
}

/// The bytes of a raw record.
pub fn encode_raw<T: WirePod>(raw: &T) -> (bytes: Vec<u8>)
    ensures
        bytes@ == raw.spec_raw_bytes(),
{
    raw.to_raw_bytes()
}

/// The raw record that `bytes` holds, when it has the record's exact size.
pub fn decode_raw<T: WirePod>(bytes: &[u8]) -> (res: Result<T, Error>)
    ensures
        res is Ok <==> bytes@.len() == T::spec_wire_size(),
        res matches Ok(raw) ==> raw.spec_held_by(bytes@),
        res matches Err(e) ==> e == (Error::InvalidWireSize {
            expected: T::spec_wire_size() as usize,
            actual: bytes@.len() as usize,
        }),
{
    let expected = T::wire_size();
    if bytes.len() != expected {
        return Err(Error::InvalidWireSize { expected, actual: bytes.len() });
    }
    Ok(T::from_raw_bytes(bytes))
}

impl WirePod for sys::sim_vendor {
    open spec fn spec_wire_size() -> nat {
        20 + u64_pad()
    }

    open spec fn spec_raw_bytes(&self) -> Seq<u8> {
        ne_bytes_u32(self.vendor_id) + ne_bytes_u32(self.vendor_part_id) + ne_bytes_u32(
            self.hw_ver,
        ) + zeros(u64_pad()) + ne_bytes_u64(self.fw_ver)
    }

    open spec fn spec_held_by(&self, bytes: Seq<u8>) -> bool {
        let p = u64_pad() as int;
        &&& self.vendor_id == ne_value_u32(bytes.subrange(0, 4))
        &&& self.vendor_part_id == ne_value_u32(bytes.subrange(4, 8))
        &&& self.hw_ver == ne_value_u32(bytes.subrange(8, 12))
        &&& self.fw_ver == ne_value_u64(bytes.subrange(12 + p, 20 + p))
    }

    fn to_raw_bytes(&self) -> (bytes: Vec<u8>) {
        let mut out: Vec<u8> = Vec::new();
        push_u32(&mut out, self.vendor_id);
        push_u32(&mut out, self.vendor_part_id);
        push_u32(&mut out, self.hw_ver);
        push_zeros(&mut out, u64_padding());
        push_u64(&mut out, self.fw_ver);
        out
    }

    fn from_raw_bytes(bytes: &[u8]) -> (raw: Self) {
        let pad = u64_padding();
        sys::sim_vendor {
            vendor_id: read_u32(bytes, 0),
            vendor_part_id: read_u32(bytes, 4),
            hw_ver: read_u32(bytes, 8),
            fw_ver: read_u64(bytes, 12 + pad),
        }
    }

    fn wire_size() -> (n: usize) {
        20 + u64_padding()
    }

    proof fn lemma_raw_round_trip(raw: Self) {
        let b = raw.spec_raw_bytes();
        let p = u64_pad() as int;
        lemma_ne_u32(raw.vendor_id, b);
        lemma_ne_u32(raw.vendor_part_id, b);
        lemma_ne_u32(raw.hw_ver, b);
        lemma_ne_u64(raw.fw_ver, b);
        assert(b.subrange(0, 4) =~= ne_bytes_u32(raw.vendor_id));
        assert(b.subrange(4, 8) =~= ne_bytes_u32(raw.vendor_part_id));
        assert(b.subrange(8, 12) =~= ne_bytes_u32(raw.hw_ver));
        assert(b.subrange(12 + p, 20 + p) =~= ne_bytes_u64(raw.fw_ver));
    }

    proof fn lemma_held_by_unique(a: Self, b: Self, bytes: Seq<u8>) {
    }
}

impl WirePod for sys::sim_port {
    open spec fn spec_wire_size() -> nat {
        4
    }

    open spec fn spec_raw_bytes(&self) -> Seq<u8> {
        ne_bytes_u16(self.lid) + seq![self.state] + zeros(1)
    }

    open spec fn spec_held_by(&self, bytes: Seq<u8>) -> bool {
        &&& self.lid == ne_value_u16(bytes.subrange(0, 2))
        &&& self.state == bytes[2]
    }

    fn to_raw_bytes(&self) -> (bytes: Vec<u8>) {
        let mut out: Vec<u8> = Vec::new();
        push_u16(&mut out, self.lid);
        out.push(self.state);
        push_zeros(&mut out, 1);
        out
    }

    fn from_raw_bytes(bytes: &[u8]) -> (raw: Self) {
        sys::sim_port { lid: read_u16(bytes, 0), state: bytes[2] }
    }

    fn wire_size() -> (n: usize) {
        4
    }

    proof fn lemma_raw_round_trip(raw: Self) {
        let b = raw.spec_raw_bytes();
        lemma_ne_u16(raw.lid, b);
        assert(b.subrange(0, 2) =~= ne_bytes_u16(raw.lid));
    }

    proof fn lemma_held_by_unique(a: Self, b: Self, bytes: Seq<u8>) {

    }
}

impl WirePod for sys::sim_request {
    open spec fn spec_wire_size() -> nat {
        284 + u64_pad()
    }

    open spec fn spec_raw_bytes(&self) -> Seq<u8> {
        ne_bytes_u32(self.dlid) + ne_bytes_u32(self.slid) + ne_bytes_u32(self.dqp) + ne_bytes_u32(
            self.sqp,
        ) + ne_bytes_u32(self.status) + zeros(u64_pad()) + ne_bytes_u64(self.length)
            + chars_to_bytes(self.mad@)
    }

    open spec fn spec_held_by(&self, bytes: Seq<u8>) -> bool {
        let p = u64_pad() as int;
        &&& self.dlid == ne_value_u32(bytes.subrange(0, 4))
        &&& self.slid == ne_value_u32(bytes.subrange(4, 8))
        &&& self.dqp == ne_value_u32(bytes.subrange(8, 12))
        &&& self.sqp == ne_value_u32(bytes.subrange(12, 16))
        &&& self.status == ne_value_u32(bytes.subrange(16, 20))
        &&& self.length == ne_value_u64(bytes.subrange(20 + p, 28 + p))
        &&& self.mad@ == bytes_to_chars(bytes.subrange(28 + p, 284 + p))
    }

    fn to_raw_bytes(&self) -> (bytes: Vec<u8>) {
        let mut out: Vec<u8> = Vec::new();
        push_u32(&mut out, self.dlid);
        push_u32(&mut out, self.slid);
        push_u32(&mut out, self.dqp);
        push_u32(&mut out, self.sqp);
        push_u32(&mut out, self.status);
        push_zeros(&mut out, u64_padding());
        push_u64(&mut out, self.length);
        let mad = copy_chars_to_bytes(&self.mad);
        push_all(&mut out, mad.as_slice());
        out
    }

    fn from_raw_bytes(bytes: &[u8]) -> (raw: Self) {
        let pad = u64_padding();
        let mut mad = [0i8; 256];
        copy_bytes_to_chars(&mut mad, &bytes[28 + pad..284 + pad]);
        proof {
            let p = pad as int;
            assert(bytes@.subrange(28 + p, 284 + p).take(256) =~= bytes@.subrange(28 + p, 284 + p));
            assert(mad@ =~= bytes_to_chars(bytes@.subrange(28 + p, 284 + p)));
        }
        sys::sim_request {
            dlid: read_u32(bytes, 0),
            slid: read_u32(bytes, 4),
            dqp: read_u32(bytes, 8),
            sqp: read_u32(bytes, 12),
            status: read_u32(bytes, 16),
            length: read_u64(bytes, 20 + pad),
            mad,
        }
    }

    fn wire_size() -> (n: usize) {
        284 + u64_padding()
    }

    proof fn lemma_raw_round_trip(raw: Self) {
        let b = raw.spec_raw_bytes();
        let p = u64_pad() as int;
        lemma_ne_u32(raw.dlid, b);
        lemma_ne_u32(raw.slid, b);
        lemma_ne_u32(raw.dqp, b);
        lemma_ne_u32(raw.sqp, b);
        lemma_ne_u32(raw.status, b);
        lemma_ne_u64(raw.length, b);
        lemma_chars_bytes_chars(raw.mad@);
        assert(b.subrange(0, 4) =~= ne_bytes_u32(raw.dlid));
        assert(b.subrange(4, 8) =~= ne_bytes_u32(raw.slid));
        assert(b.subrange(8, 12) =~= ne_bytes_u32(raw.dqp));
        assert(b.subrange(12, 16) =~= ne_bytes_u32(raw.sqp));
        assert(b.subrange(16, 20) =~= ne_bytes_u32(raw.status));
        assert(b.subrange(20 + p, 28 + p) =~= ne_bytes_u64(raw.length));
        assert(b.subrange(28 + p, 284 + p) =~= chars_to_bytes(raw.mad@));
    }

    proof fn lemma_held_by_unique(a: Self, b: Self, bytes: Seq<u8>) {
        assert(a.mad =~= b.mad);
    }
}

impl WirePod for sys::sim_ctl {
    open spec fn spec_wire_size() -> nat {
        80
    }

    open spec fn spec_raw_bytes(&self) -> Seq<u8> {
        ne_bytes_u32(self.magic) + ne_bytes_u32(self.clientid) + ne_bytes_u32(self.type_)
            + ne_bytes_u32(self.len) + chars_to_bytes(self.data@)
    }

    open spec fn spec_held_by(&self, bytes: Seq<u8>) -> bool {
        &&& self.magic == ne_value_u32(bytes.subrange(0, 4))
        &&& self.clientid == ne_value_u32(bytes.subrange(4, 8))
        &&& self.type_ == ne_value_u32(bytes.subrange(8, 12))
        &&& self.len == ne_value_u32(bytes.subrange(12, 16))
        &&& self.data@ == bytes_to_chars(bytes.subrange(16, 80))
    }

    fn to_raw_bytes(&self) -> (bytes: Vec<u8>) {
        let mut out: Vec<u8> = Vec::new();
        push_u32(&mut out, self.magic);
        push_u32(&mut out, self.clientid);
        push_u32(&mut out, self.type_);
        push_u32(&mut out, self.len);
        let data = copy_chars_to_bytes(&self.data);
        push_all(&mut out, data.as_slice());
        out
    }

    fn from_raw_bytes(bytes: &[u8]) -> (raw: Self) {
        let mut data = [0i8; 64];
        copy_bytes_to_chars(&mut data, &bytes[16..80]);
        proof {
            assert(bytes@.subrange(16, 80).take(64) =~= bytes@.subrange(16, 80));
            assert(data@ =~= bytes_to_chars(bytes@.subrange(16, 80)));
        }
        sys::sim_ctl {
            magic: read_u32(bytes, 0),
            clientid: read_u32(bytes, 4),
            type_: read_u32(bytes, 8),
            len: read_u32(bytes, 12),
            data,
        }
    }

    fn wire_size() -> (n: usize) {
        80
    }

    proof fn lemma_raw_round_trip(raw: Self) {
        let b = raw.spec_raw_bytes();
        lemma_ne_u32(raw.magic, b);
        lemma_ne_u32(raw.clientid, b);
        lemma_ne_u32(raw.type_, b);
        lemma_ne_u32(raw.len, b);
        lemma_chars_bytes_chars(raw.data@);
        assert(b.subrange(0, 4) =~= ne_bytes_u32(raw.magic));
        assert(b.subrange(4, 8) =~= ne_bytes_u32(raw.clientid));
        assert(b.subrange(8, 12) =~= ne_bytes_u32(raw.type_));
        assert(b.subrange(12, 16) =~= ne_bytes_u32(raw.len));
        assert(b.subrange(16, 80) =~= chars_to_bytes(raw.data@));
    }

    proof fn lemma_held_by_unique(a: Self, b: Self, bytes: Seq<u8>) {
        assert(a.data =~= b.data);
    }
}

impl WirePod for sys::sim_client_info {
    open spec fn spec_wire_size() -> nat {
        44
    }

    open spec fn spec_raw_bytes(&self) -> Seq<u8> {
        ne_bytes_u32(self.id) + ne_bytes_u32(self.qp) + ne_bytes_u32(self.issm) + chars_to_bytes(
            self.nodeid@,
        )
    }

    open spec fn spec_held_by(&self, bytes: Seq<u8>) -> bool {
        &&& self.id == ne_value_u32(bytes.subrange(0, 4))
        &&& self.qp == ne_value_u32(bytes.subrange(4, 8))
        &&& self.issm == ne_value_u32(bytes.subrange(8, 12))
        &&& self.nodeid@ == bytes_to_chars(bytes.subrange(12, 44))
    }

    fn to_raw_bytes(&self) -> (bytes: Vec<u8>) {
        let mut out: Vec<u8> = Vec::new();
        push_u32(&mut out, self.id);
        push_u32(&mut out, self.qp);
        push_u32(&mut out, self.issm);
        let nodeid = copy_chars_to_bytes(&self.nodeid);
        push_all(&mut out, nodeid.as_slice());
        out
    }

    fn from_raw_bytes(bytes: &[u8]) -> (raw: Self) {
        let mut nodeid = [0i8; 32];
        copy_bytes_to_chars(&mut nodeid, &bytes[12..44]);
        proof {
            assert(bytes@.subrange(12, 44).take(32) =~= bytes@.subrange(12, 44));
            assert(nodeid@ =~= bytes_to_chars(bytes@.subrange(12, 44)));
        }
        sys::sim_client_info {
            id: read_u32(bytes, 0),
            qp: read_u32(bytes, 4),
            issm: read_u32(bytes, 8),
            nodeid,
        }
    }

    fn wire_size() -> (n: usize) {
        44
    }

    proof fn lemma_raw_round_trip(raw: Self) {
        let b = raw.spec_raw_bytes();
        lemma_ne_u32(raw.id, b);
        lemma_ne_u32(raw.qp, b);
        lemma_ne_u32(raw.issm, b);
        lemma_chars_bytes_chars(raw.nodeid@);
        assert(b.subrange(0, 4) =~= ne_bytes_u32(raw.id));
        assert(b.subrange(4, 8) =~= ne_bytes_u32(raw.qp));
        assert(b.subrange(8, 12) =~= ne_bytes_u32(raw.issm));
        assert(b.subrange(12, 44) =~= chars_to_bytes(raw.nodeid@));
    }

    proof fn lemma_held_by_unique(a: Self, b: Self, bytes: Seq<u8>) {
        assert(a.nodeid =~= b.nodeid);
    }
}


/// A value with the fixed byte layout of one of ibsim's records.
///
/// `encode` gives the record's bytes; `decode` reads a buffer of exactly
/// `wire_size()` bytes back, checking what the protocol requires of it.
pub trait WireMessage: Sized + View {
    /// The number of bytes of the record on the wire.
    spec fn spec_wire_size() -> nat;

    /// The number of bytes of the record on the wire.
    fn wire_size() -> (n: usize)
        ensures
            n == Self::spec_wire_size(),
    ;

    /// What every value of the type satisfies.
    spec fn spec_valid(v: Self::V) -> bool;

    /// The bytes that `encode` gives for a value.
    spec fn spec_encode(v: Self::V) -> Seq<u8>;

    /// What `decode` gives for a buffer.
    spec fn spec_decode(bytes: Seq<u8>) -> Result<Self::V, Error>;

    fn encode(&self) -> (bytes: Vec<u8>)
        ensures
            Self::spec_valid(self@),
            bytes@ == Self::spec_encode(self@),
    ;

    fn decode(bytes: &[u8]) -> (res: Result<Self, Error>)
        ensures
            match res {
                Ok(m) => Self::spec_decode(bytes@) == Ok::<Self::V, Error>(m@),
                Err(e) => Self::spec_decode(bytes@) == Err::<Self::V, Error>(e),
            },
    ;

    /// Every valid value encodes to exactly `wire_size()` bytes, and decoding
    /// those bytes gives the value back.
    proof fn lemma_round_trip(v: Self::V)
        requires
            Self::spec_valid(v),
        ensures
            Self::spec_encode(v).len() == Self::spec_wire_size(),
            Self::spec_decode(Self::spec_encode(v)) == Ok::<Self::V, Error>(v),
    ;

    /// A buffer of the wrong size is refused with `InvalidWireSize`, and
    /// whatever `decode` accepts is a valid value.
    proof fn lemma_decode_checks(bytes: Seq<u8>)
        ensures
            bytes.len() != Self::spec_wire_size() ==> Self::spec_decode(bytes) == Err::<
                Self::V,
                Error,
            >(
                Error::InvalidWireSize {
                    expected: Self::spec_wire_size() as usize,
                    actual: bytes.len() as usize,
                },
            ),
            Self::spec_decode(bytes) matches Ok(v) ==> Self::spec_valid(v),
    ;
}

/// Each field of each record sits at its C offset, in native byte order,
/// with the padding before a `u64` zero and character arrays copied byte for
/// byte.
pub proof fn lemma_record_layouts(
    vendor: sys::sim_vendor,
    port: sys::sim_port,
    request: sys::sim_request,
    ctl: sys::sim_ctl,
    client: sys::sim_client_info,
)
    ensures
        ({
            let b = vendor.spec_raw_bytes();
            let p = u64_pad() as int;
            &&& b.len() == 20 + p
            &&& b.subrange(0, 4) == ne_bytes_u32(vendor.vendor_id)
            &&& b.subrange(4, 8) == ne_bytes_u32(vendor.vendor_part_id)
            &&& b.subrange(8, 12) == ne_bytes_u32(vendor.hw_ver)
            &&& b.subrange(12, 12 + p) == zeros(u64_pad())
            &&& b.subrange(12 + p, 20 + p) == ne_bytes_u64(vendor.fw_ver)
        }),
        ({
            let b = port.spec_raw_bytes();
            &&& b.len() == 4
            &&& b.subrange(0, 2) == ne_bytes_u16(port.lid)
            &&& b[2] == port.state
            &&& b[3] == 0
        }),
        ({
            let b = request.spec_raw_bytes();
            let p = u64_pad() as int;
            &&& b.len() == 284 + p
            &&& b.subrange(0, 4) == ne_bytes_u32(request.dlid)
            &&& b.subrange(4, 8) == ne_bytes_u32(request.slid)
            &&& b.subrange(8, 12) == ne_bytes_u32(request.dqp)
            &&& b.subrange(12, 16) == ne_bytes_u32(request.sqp)
            &&& b.subrange(16, 20) == ne_bytes_u32(request.status)
            &&& b.subrange(20, 20 + p) == zeros(u64_pad())
            &&& b.subrange(20 + p, 28 + p) == ne_bytes_u64(request.length)
            &&& b.subrange(28 + p, 284 + p) == chars_to_bytes(request.mad@)
        }),
        ({
            let b = ctl.spec_raw_bytes();
            &&& b.len() == 80
            &&& b.subrange(0, 4) == ne_bytes_u32(ctl.magic)
            &&& b.subrange(4, 8) == ne_bytes_u32(ctl.clientid)
            &&& b.subrange(8, 12) == ne_bytes_u32(ctl.type_)
            &&& b.subrange(12, 16) == ne_bytes_u32(ctl.len)
            &&& b.subrange(16, 80) == chars_to_bytes(ctl.data@)
        }),
        ({
            let b = client.spec_raw_bytes();
            &&& b.len() == 44
            &&& b.subrange(0, 4) == ne_bytes_u32(client.id)
            &&& b.subrange(4, 8) == ne_bytes_u32(client.qp)
            &&& b.subrange(8, 12) == ne_bytes_u32(client.issm)
            &&& b.subrange(12, 44) == chars_to_bytes(client.nodeid@)
        }),
{
    let p = u64_pad() as int;
    let b = vendor.spec_raw_bytes();
    lemma_ne_u32(vendor.vendor_id, b);
    lemma_ne_u32(vendor.vendor_part_id, b);
    lemma_ne_u32(vendor.hw_ver, b);
    lemma_ne_u64(vendor.fw_ver, b);
    assert(b.subrange(0, 4) =~= ne_bytes_u32(vendor.vendor_id));
    assert(b.subrange(4, 8) =~= ne_bytes_u32(vendor.vendor_part_id));
    assert(b.subrange(8, 12) =~= ne_bytes_u32(vendor.hw_ver));
    assert(b.subrange(12, 12 + p) =~= zeros(u64_pad()));
    assert(b.subrange(12 + p, 20 + p) =~= ne_bytes_u64(vendor.fw_ver));
    let b = port.spec_raw_bytes();
    lemma_ne_u16(port.lid, b);
    assert(b.subrange(0, 2) =~= ne_bytes_u16(port.lid));
    let b = request.spec_raw_bytes();
    lemma_ne_u32(request.dlid, b);
    lemma_ne_u32(request.slid, b);
    lemma_ne_u32(request.dqp, b);
    lemma_ne_u32(request.sqp, b);
    lemma_ne_u32(request.status, b);
    lemma_ne_u64(request.length, b);
    assert(b.subrange(0, 4) =~= ne_bytes_u32(request.dlid));
    assert(b.subrange(4, 8) =~= ne_bytes_u32(request.slid));
    assert(b.subrange(8, 12) =~= ne_bytes_u32(request.dqp));
    assert(b.subrange(12, 16) =~= ne_bytes_u32(request.sqp));
    assert(b.subrange(16, 20) =~= ne_bytes_u32(request.status));
    assert(b.subrange(20, 20 + p) =~= zeros(u64_pad()));
    assert(b.subrange(20 + p, 28 + p) =~= ne_bytes_u64(request.length));
    assert(b.subrange(28 + p, 284 + p) =~= chars_to_bytes(request.mad@));
    let b = ctl.spec_raw_bytes();
    lemma_ne_u32(ctl.magic, b);
    lemma_ne_u32(ctl.clientid, b);
    lemma_ne_u32(ctl.type_, b);
    lemma_ne_u32(ctl.len, b);
    assert(b.subrange(0, 4) =~= ne_bytes_u32(ctl.magic));
    assert(b.subrange(4, 8) =~= ne_bytes_u32(ctl.clientid));
    assert(b.subrange(8, 12) =~= ne_bytes_u32(ctl.type_));
    assert(b.subrange(12, 16) =~= ne_bytes_u32(ctl.len));
    assert(b.subrange(16, 80) =~= chars_to_bytes(ctl.data@));
    let b = client.spec_raw_bytes();
    lemma_ne_u32(client.id, b);
    lemma_ne_u32(client.qp, b);
    lemma_ne_u32(client.issm, b);
    assert(b.subrange(0, 4) =~= ne_bytes_u32(client.id));
    assert(b.subrange(4, 8) =~= ne_bytes_u32(client.qp));
    assert(b.subrange(8, 12) =~= ne_bytes_u32(client.issm));
    assert(b.subrange(12, 44) =~= chars_to_bytes(client.nodeid@));
}

} // verus!
