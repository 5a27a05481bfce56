//! Fixed-size value types of the host interface: 32-byte hashes, 20-byte
//! account addresses and 256-bit unsigned integers.
//!
//! The host calling convention moves every one of these values as a flat
//! byte buffer of a fixed, documented size, integers in big-endian order.
//! The types here hold exactly that encoding, so marshalling a value into
//! or out of a buffer is a plain byte copy, and a value's mathematical view
//! is its byte sequence.

use vstd::prelude::*;
use vstd::string::StringSliceAdditionalSpecFns;

verus! {

/// The all-zero 32-byte word: what an unwritten storage slot reads as, and
/// the value of the integer zero.
pub open spec fn zero_word() -> Seq<u8> {
    Seq::new(32, |i: int| 0u8)
}

/// The all-zero 20-byte address.
pub open spec fn zero_address() -> Seq<u8> {
    Seq::new(20, |i: int| 0u8)
}

/// A 256-bit hash: 32 opaque bytes. Storage keys and event topics are
/// values of this type.
#[derive(Debug, PartialEq, Eq)]
pub struct H256 {
    bytes: Vec<u8>,
}

impl View for H256 {
    type V = Seq<u8>;

    closed spec fn view(&self) -> Seq<u8> {
        self.bytes@
    }
}

impl H256 {
    /// A hash value is exactly 32 bytes long.
    pub open spec fn wf(&self) -> bool {
        self@.len() == 32
    }

    /// The all-zero hash.
    pub fn zero() -> (r: H256)
        ensures
            r.wf(),
            r@ == zero_word(),
    {
        H256 { bytes: zero_word_vec() }
    }

    /// Wraps 32 raw bytes as a hash.
    pub fn from_bytes(bytes: Vec<u8>) -> (r: H256)
        requires
            bytes@.len() == 32,
        ensures
            r.wf(),
            r@ == bytes@,
    {
        H256 { bytes }
    }

    /// The bytes of the hash.
    pub fn as_bytes(&self) -> (r: &Vec<u8>)
        ensures
            r@ == self@,
    {
        &self.bytes
    }
}

impl Clone for H256 {
    fn clone(&self) -> (r: Self)
        ensures
            r@ == self@,
    {
        H256 { bytes: clone_bytes(&self.bytes) }
    }
}

/// The all-zero 32-byte word as a fresh vector.
pub fn zero_word_vec() -> (r: Vec<u8>)
    ensures
        r@ == zero_word(),
{
    let mut bytes: Vec<u8> = Vec::new();
    let mut i: usize = 0;
    while i < 32
        invariant
            i <= 32,
            bytes@ =~= zero_word().take(i as int),
        decreases 32 - i,
    {
        bytes.push(0u8);
        i = i + 1;
    }
    proof {
        assert(bytes@ =~= zero_word());
    }
    bytes
}

/// A 160-bit account address: 20 opaque bytes.
#[derive(Debug, PartialEq, Eq)]
pub struct Address {
    bytes: Vec<u8>,
}

impl View for Address {
    type V = Seq<u8>;

    closed spec fn view(&self) -> Seq<u8> {
        self.bytes@
    }
}

impl Address {
    /// An address is exactly 20 bytes long.
    pub open spec fn wf(&self) -> bool {
        self@.len() == 20
    }

    /// The all-zero address.
    pub fn zero() -> (r: Address)
        ensures
            r.wf(),
            r@ == zero_address(),
    {
        let mut bytes: Vec<u8> = Vec::new();
        let mut i: usize = 0;
        while i < 20
            invariant
                i <= 20,
                bytes@ =~= zero_address().take(i as int),
            decreases 20 - i,
        {
            bytes.push(0u8);
            i = i + 1;
        }
        proof {
            assert(bytes@ =~= zero_address());
        }
        Address { bytes }
    }

    /// Wraps 20 raw bytes as an address.
    pub fn from_bytes(bytes: Vec<u8>) -> (r: Address)
        requires
            bytes@.len() == 20,
        ensures
            r.wf(),
            r@ == bytes@,
    {
        Address { bytes }
    }

    /// The bytes of the address.
    pub fn as_bytes(&self) -> (r: &Vec<u8>)
        ensures
            r@ == self@,
    {
        &self.bytes
    }

    /// Parses an address from its textual form: exactly 40 hexadecimal
    /// digits, upper or lower case, no prefix. Returns `None` for any other
    /// text.
    pub fn from_hex(s: &str) -> (r: Option<Address>)
        ensures
            r is Some <==> is_hex_str(s.spec_bytes(), 40),
            r is Some ==> r->0.wf() && r->0@ == hex_decode(s.spec_bytes()),
    {
        match hex_decode_exec(s, 40) {
            Some(bytes) => Some(Address { bytes }),
            None => None,
        }
    }
}

impl Clone for Address {
    fn clone(&self) -> (r: Self)
        ensures
            r@ == self@,
    {
        Address { bytes: clone_bytes(&self.bytes) }
    }
}

/// A 256-bit unsigned integer, held as its 32-byte big-endian encoding:
/// the form in which the host calling convention moves such values.
#[derive(Debug, PartialEq, Eq)]
pub struct U256 {
    bytes: Vec<u8>,
}

impl View for U256 {
    type V = Seq<u8>;

    closed spec fn view(&self) -> Seq<u8> {
        self.bytes@
    }
}

/// The 32-byte big-endian encoding of a 64-bit value: 24 zero bytes, then
/// the value's own eight bytes, most significant first.
pub open spec fn u64_to_word(v: u64) -> Seq<u8> {
    Seq::new(32, |i: int| if i < 24 { 0u8 } else { u64_be_byte(v, i - 24) })
}

/// Byte `j` (0 = most significant) of the big-endian encoding of `v`.
pub open spec fn u64_be_byte(v: u64, j: int) -> u8 {
    ((v >> ((56 - 8 * j) as u64)) & 0xff) as u8
}

impl U256 {
    /// An integer's encoding is exactly 32 bytes long.
    pub open spec fn wf(&self) -> bool {
        self@.len() == 32
    }

    /// The integer zero.
    pub fn zero() -> (r: U256)
        ensures
            r.wf(),
            r@ == zero_word(),
    {
        let h = H256::zero();
        let H256 { bytes } = h;
        U256 { bytes }
    }

    /// The integer with the value of `v`.
    pub fn from_u64(v: u64) -> (r: U256)
        ensures
            r.wf(),
            r@ == u64_to_word(v),
    {
        let mut bytes: Vec<u8> = Vec::new();
        let mut i: usize = 0;
        while i < 24
            invariant
                i <= 24,
                bytes@ =~= u64_to_word(v).take(i as int),
            decreases 24 - i,
        {
            bytes.push(0u8);
            i = i + 1;
        }
        bytes.push(((v >> 56u64) & 0xff) as u8);
        bytes.push(((v >> 48u64) & 0xff) as u8);
        bytes.push(((v >> 40u64) & 0xff) as u8);
        bytes.push(((v >> 32u64) & 0xff) as u8);
        bytes.push(((v >> 24u64) & 0xff) as u8);
        bytes.push(((v >> 16u64) & 0xff) as u8);
        bytes.push(((v >> 8u64) & 0xff) as u8);
        bytes.push((v & 0xff) as u8);
        proof {
            assert(v & 0xff == (v >> 0u64) & 0xff) by (bit_vector);
            assert(bytes@ =~= u64_to_word(v));
        }
        U256 { bytes }
    }

    /// Decodes an integer from its 32-byte big-endian encoding.
    pub fn from_big_endian(bytes: &Vec<u8>) -> (r: U256)
        requires
            bytes@.len() == 32,
        ensures
            r.wf(),
            r@ == bytes@,
    {
        U256 { bytes: clone_bytes(bytes) }
    }

    /// Writes the integer's 32-byte big-endian encoding into `dest`.
    pub fn to_big_endian(&self, dest: &mut Vec<u8>)
        requires
            self.wf(),
            old(dest)@.len() == 32,
        ensures
            final(dest)@ == self@,
    {
        copy_into(&self.bytes, dest);
    }

    /// The bytes of the big-endian encoding.
    pub fn as_bytes(&self) -> (r: &Vec<u8>)
        ensures
            r@ == self@,
    {
        &self.bytes
    }
}

impl Clone for U256 {
    fn clone(&self) -> (r: Self)
        ensures
            r@ == self@,
    {
        U256 { bytes: clone_bytes(&self.bytes) }
    }
}

/// Whether `s` consists of exactly `n` hexadecimal digit characters,
/// given as their byte values.
pub open spec fn is_hex_str(s: Seq<u8>, n: int) -> bool {
    s.len() == n && forall|i: int| 0 <= i < s.len() ==> is_hex_digit(#[trigger] s[i])
}

/// Whether the byte is the character value of a hexadecimal digit.
pub open spec fn is_hex_digit(c: u8) -> bool {
    (48 <= c <= 57) || (97 <= c <= 102) || (65 <= c <= 70)
}

/// The numeric value of a hexadecimal digit character.
pub open spec fn hex_digit_value(c: u8) -> u8 {
    if 48 <= c <= 57 {
        (c - 48) as u8
    } else if 97 <= c <= 102 {
        (c - 87) as u8
    } else {
        (c - 55) as u8
    }
}

/// The bytes encoded by a sequence of hexadecimal digit characters, two
/// digits to a byte, most significant first.
pub open spec fn hex_decode(s: Seq<u8>) -> Seq<u8> {
    Seq::new(s.len() / 2, |i: int| (hex_digit_value(s[2 * i]) * 16 + hex_digit_value(s[2 * i + 1])) as u8)
}

/// Parses `n` hexadecimal digit characters into `n / 2` bytes; `None` if
/// the text has another length or holds a character that is no digit.
fn hex_decode_exec(s: &str, n: usize) -> (r: Option<Vec<u8>>)
    requires
        n % 2 == 0,
    ensures
        r is Some <==> is_hex_str(s.spec_bytes(), n as int),
        r is Some ==> r->0@ == hex_decode(s.spec_bytes()),
{
    let b: Vec<u8> = vstd::slice::slice_to_vec(s.as_bytes());
    if b.len() != n {
        return None;
    }
    let mut out: Vec<u8> = Vec::new();
    let mut i: usize = 0;
    while i < n / 2
        invariant
            i <= n / 2,
            n % 2 == 0,
            b@ == s.spec_bytes(),
            b@.len() == n,
            forall|j: int| 0 <= j < 2 * i ==> is_hex_digit(#[trigger] b@[j]),
            out@ =~= hex_decode(b@).take(i as int),
        decreases n / 2 - i,
    {
        let hi = b[2 * i];
        let lo = b[2 * i + 1];
        if !hex_digit_exec(hi) || !hex_digit_exec(lo) {
            return None;
        }
        out.push(hex_value_exec(hi) * 16 + hex_value_exec(lo));
        i = i + 1;
    }
    proof {
        assert(out@ =~= hex_decode(s.spec_bytes()));
    }
    Some(out)
}

/// Whether the byte is a hexadecimal digit character.
fn hex_digit_exec(c: u8) -> (r: bool)
    ensures
        r == is_hex_digit(c),
{
    (48 <= c && c <= 57) || (97 <= c && c <= 102) || (65 <= c && c <= 70)
}

/// The numeric value of a hexadecimal digit character.
fn hex_value_exec(c: u8) -> (r: u8)
    requires
        is_hex_digit(c),
    ensures
        r == hex_digit_value(c),
        r < 16,
{
    if 48 <= c && c <= 57 {
        c - 48
    } else if 97 <= c && c <= 102 {
        c - 87
    } else {
        c - 55
    }
}

/// Whether two byte vectors hold the same bytes.
pub fn bytes_eq(a: &Vec<u8>, b: &Vec<u8>) -> (r: bool)
    ensures
        r == (a@ == b@),
{
    if a.len() != b.len() {
        return false;
    }
    let mut i: usize = 0;
    while i < a.len()
        invariant
            i <= a@.len(),
            a@.len() == b@.len(),
            forall|j: int| 0 <= j < i ==> a@[j] == b@[j],
        decreases a@.len() - i,
    {
        if a[i] != b[i] {
            return false;
        }
        i = i + 1;
    }
    proof {
        assert(a@ =~= b@);
    }
    true
}

/// Overwrites `dest` with the bytes of `src`; both must have one length.
pub fn copy_into(src: &Vec<u8>, dest: &mut Vec<u8>)
    requires
        old(dest)@.len() == src@.len(),
    ensures
        final(dest)@ == src@,
{
    let mut i: usize = 0;
    while i < src.len()
        invariant
            i <= src@.len(),
            dest@.len() == src@.len(),
            forall|j: int| 0 <= j < i ==> dest@[j] == src@[j],
        decreases src@.len() - i,
    {
        dest.set(i, src[i]);
        i = i + 1;
    }
    proof {
        assert(dest@ =~= src@);
    }
}

/// Copies a byte vector; the copy holds the same bytes.
pub fn clone_bytes(v: &Vec<u8>) -> (r: Vec<u8>)
    ensures
        r@ == v@,
{
    let mut r: Vec<u8> = Vec::new();
    let mut i: usize = 0;
    while i < v.len()
        invariant
            i <= v@.len(),
            r@ =~= v@.take(i as int),
        decreases v@.len() - i,
    {
        r.push(v[i]);
        i = i + 1;
    }
    proof {
        assert(r@ =~= v@);
    }
    r
}

} // verus!
