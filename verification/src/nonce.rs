use vstd::prelude::*;
use vstd::std_specs::convert::{FromSpec, FromSpecImpl, TryFromSpec, TryFromSpecImpl};

verus! {

/// Length in bytes of the nonce handed to the AEAD cipher.
pub const AES_GCM_NONCE_LEN: usize = 12;

/// Length in bytes of the nonce as it travels on the wire.
pub const NOISE_NONCE_LEN: usize = 8;

/// The largest counter a nonce can hold. A key that has reached it must be
/// retired.
pub const MAX_NONCE_VALUE: u64 = 0xffff_ffff_ffff_ffff;

/// Why a nonce operation was refused.
#[derive(Debug, Clone, Copy, PartialEq, Eq, Structural)]
pub enum NonceError {
    /// The counter already holds the largest value and cannot advance.
    Overflow,
    /// The bytes offered as a wire-form nonce are not exactly eight.
    InvalidNonce,
    /// A received nonce is not the next one expected.
    ReplayOrOutOfOrder,
}

/// The big-endian digits of `value` in base 256, most significant first.
pub open spec fn wire_form(value: u64) -> Seq<u8> {
    seq![
        (value / 0x0100_0000_0000_0000) as u8,
        (value / 0x0001_0000_0000_0000 % 256) as u8,
        (value / 0x0000_0100_0000_0000 % 256) as u8,
        (value / 0x0000_0001_0000_0000 % 256) as u8,
        (value / 0x0000_0000_0100_0000 % 256) as u8,
        (value / 0x0000_0000_0001_0000 % 256) as u8,
        (value / 0x0000_0000_0000_0100 % 256) as u8,
        (value % 256) as u8,
    ]
}

/// The number that eight base-256 digits denote, most significant digit
/// first.
pub open spec fn wire_value(bytes: Seq<u8>) -> int
    recommends
        bytes.len() == 8,
{
    bytes[0] * 0x0100_0000_0000_0000 + bytes[1] * 0x0001_0000_0000_0000 + bytes[2]
        * 0x0000_0100_0000_0000 + bytes[3] * 0x0000_0001_0000_0000 + bytes[4]
        * 0x0000_0000_0100_0000 + bytes[5] * 0x0000_0000_0001_0000 + bytes[6]
        * 0x0000_0000_0000_0100 + bytes[7]
}

/// The twelve bytes given to the cipher: four zero bytes, then the wire form.
pub open spec fn aead_form(value: u64) -> Seq<u8> {
    seq![0u8, 0u8, 0u8, 0u8] + wire_form(value)
}

/// A secure channel nonce: a 64-bit counter that only ever moves forward.
#[derive(Debug, Clone, Copy, PartialEq, Eq, PartialOrd, Ord, Structural)]
pub struct Nonce {
    value: u64,
}

impl View for Nonce {
    type V = u64;

    closed spec fn view(&self) -> u64 {
        self.value
    }
}

impl Nonce {
    /// What `increment` does to a counter: the next value, or `Overflow` at
    /// the largest one.
    pub open spec fn spec_increment(value: u64) -> Result<u64, NonceError> {
        if value == u64::MAX {
            Err(NonceError::Overflow)
        } else {
            Ok((value + 1) as u64)
        }
    }

    /// A nonce holding `value`.
    pub fn new(value: u64) -> (nonce: Nonce)
        ensures
            nonce@ == value,
    {
        Nonce { value }
    }

    /// The largest nonce there is.
    pub fn largest() -> (nonce: Nonce)
        ensures
            nonce@ == u64::MAX,
    {
        Nonce { value: MAX_NONCE_VALUE }
    }

    /// The current counter.
    pub fn value(&self) -> (value: u64)
        ensures
            value == self@,
    {
        self.value
    }

    /// Advances the counter by one. At the largest value the counter stays
    /// where it is and the call fails with `Overflow`.
    pub fn increment(&mut self) -> (result: Result<(), NonceError>)
        ensures
            old(self)@ == u64::MAX ==> result == Err::<(), NonceError>(NonceError::Overflow)
                && *final(self) == *old(self),
            old(self)@ < u64::MAX ==> result is Ok && final(self)@ == old(self)@ + 1,
            Self::spec_increment(old(self)@) == match result {
                Ok(_) => Ok::<u64, NonceError>(final(self)@),
                Err(e) => Err(e),
            },
    {
        if self.value == u64::MAX {
            return Err(NonceError::Overflow);
        }
        self.value += 1;
        Ok(())
    }

    /// The eight-byte big-endian form sent to the peer.
    pub fn to_noise_nonce(&self) -> (bytes: [u8; 8])
        ensures
            bytes@ == wire_form(self@),
    {
        let v: u64 = self.value;
        assert((v >> 56) == v / 0x0100_0000_0000_0000 && (v >> 56) < 256) by (bit_vector);
        assert((v >> 48) & 0xff == v / 0x0001_0000_0000_0000 % 256) by (bit_vector);
        assert((v >> 40) & 0xff == v / 0x0000_0100_0000_0000 % 256) by (bit_vector);
        assert((v >> 32) & 0xff == v / 0x0000_0001_0000_0000 % 256) by (bit_vector);
        assert((v >> 24) & 0xff == v / 0x0000_0000_0100_0000 % 256) by (bit_vector);
        assert((v >> 16) & 0xff == v / 0x0000_0000_0001_0000 % 256) by (bit_vector);
        assert((v >> 8) & 0xff == v / 0x0000_0000_0000_0100 % 256) by (bit_vector);
        assert(v & 0xff == v % 256) by (bit_vector);
        let bytes: [u8; 8] = [
            (v >> 56) as u8,
            ((v >> 48) & 0xff) as u8,
            ((v >> 40) & 0xff) as u8,
            ((v >> 32) & 0xff) as u8,
            ((v >> 24) & 0xff) as u8,
            ((v >> 16) & 0xff) as u8,
            ((v >> 8) & 0xff) as u8,
            (v & 0xff) as u8,
        ];
        assert(bytes@ =~= wire_form(self@));
        bytes
    }

    /// The twelve-byte form that the cipher takes: the wire form, right-aligned
    /// in a buffer of zero bytes.
    pub fn to_aes_gcm_nonce(&self) -> (bytes: [u8; 12])
        ensures
            bytes@ == aead_form(self@),
            bytes@.subrange(0, 4) == seq![0u8, 0u8, 0u8, 0u8],
            bytes@.subrange(4, 12) == wire_form(self@),
    {
        let w: [u8; 8] = self.to_noise_nonce();
        let bytes: [u8; 12] = [0, 0, 0, 0, w[0], w[1], w[2], w[3], w[4], w[5], w[6], w[7]];
        assert(bytes@ =~= aead_form(self@));
        assert(bytes@.subrange(0, 4) =~= seq![0u8, 0u8, 0u8, 0u8]);
        assert(bytes@.subrange(4, 12) =~= wire_form(self@));
        bytes
    }
}

impl From<u64> for Nonce {
    fn from(value: u64) -> (nonce: Nonce)
        ensures
            nonce@ == value,
    {
        Nonce { value }
    }
}

impl FromSpecImpl<u64> for Nonce {
    open spec fn obeys_from_spec() -> bool {
        true
    }

    closed spec fn from_spec(value: u64) -> Nonce {
        Nonce { value }
    }
}

impl From<Nonce> for u64 {
    fn from(nonce: Nonce) -> (value: u64)
        ensures
            value == nonce@,
    {
        nonce.value
    }
}

impl FromSpecImpl<Nonce> for u64 {
    open spec fn obeys_from_spec() -> bool {
        true
    }

    open spec fn from_spec(nonce: Nonce) -> u64 {
        nonce@
    }
}

/// Reads a nonce back from its eight-byte wire form.
impl From<[u8; 8]> for Nonce {
    fn from(bytes: [u8; 8]) -> (nonce: Nonce)
        ensures
            nonce@ == wire_value(bytes@),
    {
        let b0: u64 = bytes[0] as u64;
        let b1: u64 = bytes[1] as u64;
        let b2: u64 = bytes[2] as u64;
        let b3: u64 = bytes[3] as u64;
        let b4: u64 = bytes[4] as u64;
        let b5: u64 = bytes[5] as u64;
        let b6: u64 = bytes[6] as u64;
        let b7: u64 = bytes[7] as u64;
        let value: u64 = (b0 << 56) | (b1 << 48) | (b2 << 40) | (b3 << 32) | (b4 << 24) | (b5
            << 16) | (b6 << 8) | b7;
        proof {
            lemma_wire_value_bounds(bytes@);
            assert(value == b0 * 0x0100_0000_0000_0000 + b1 * 0x0001_0000_0000_0000 + b2
                * 0x0000_0100_0000_0000 + b3 * 0x0000_0001_0000_0000 + b4 * 0x0000_0000_0100_0000
                + b5 * 0x0000_0000_0001_0000 + b6 * 0x0000_0000_0000_0100 + b7) by (bit_vector)
                requires
                    value == (b0 << 56) | (b1 << 48) | (b2 << 40) | (b3 << 32) | (b4 << 24) | (b5
                        << 16) | (b6 << 8) | b7,
                    b0 < 256,
                    b1 < 256,
                    b2 < 256,
                    b3 < 256,
                    b4 < 256,
                    b5 < 256,
                    b6 < 256,
                    b7 < 256,
            ;
        }
        Nonce { value }
    }
}

impl FromSpecImpl<[u8; 8]> for Nonce {
    open spec fn obeys_from_spec() -> bool {
        true
    }

    closed spec fn from_spec(bytes: [u8; 8]) -> Nonce {
        Nonce { value: wire_value(bytes@) as u64 }
    }
}

/// Reads a nonce from a slice, which must hold exactly the eight bytes of a
/// wire form.
impl TryFrom<&[u8]> for Nonce {
    type Error = NonceError;

    fn try_from(bytes: &[u8]) -> (result: Result<Nonce, NonceError>)
        ensures
            bytes@.len() == 8 ==> result is Ok && result->Ok_0@ == wire_value(bytes@),
            bytes@.len() != 8 ==> result == Err::<Nonce, NonceError>(NonceError::InvalidNonce),
    {
        if bytes.len() != 8 {
            return Err(NonceError::InvalidNonce);
        }
        let wire: [u8; 8] = [
            bytes[0],
            bytes[1],
            bytes[2],
            bytes[3],
            bytes[4],
            bytes[5],
            bytes[6],
            bytes[7],
        ];
        assert(wire@ =~= bytes@);
        Ok(Nonce::from(wire))
    }
}

impl TryFromSpecImpl<&[u8]> for Nonce {
    open spec fn obeys_try_from_spec() -> bool {
        true
    }

    closed spec fn try_from_spec(bytes: &[u8]) -> Result<Nonce, NonceError> {
        if bytes@.len() == 8 {
            Ok(Nonce { value: wire_value(bytes@) as u64 })
        } else {
            Err(NonceError::InvalidNonce)
        }
    }
}

/// What a run of `k` calls of `increment` makes of a counter that starts at
/// `value`: the counter after the last call, or the error of the first call
/// that failed.
pub open spec fn increments(value: u64, k: nat) -> Result<u64, NonceError>
    decreases k,
{
    if k == 0 {
        Ok(value)
    } else {
        match increments(value, (k - 1) as nat) {
            Ok(v) => Nonce::spec_increment(v),
            Err(e) => Err(e),
        }
    }
}

/// Counting up from zero, the k-th increment yields k, for as long as k fits
/// in the counter; every run that goes further fails with `Overflow`.
pub proof fn lemma_increments_from_zero(k: nat)
    ensures
        k <= u64::MAX ==> increments(0, k) == Ok::<u64, NonceError>(k as u64),
        k > u64::MAX ==> increments(0, k) == Err::<u64, NonceError>(NonceError::Overflow),
    decreases k,
{
    if k > 0 {
        lemma_increments_from_zero((k - 1) as nat);
    }
}

/// Two nonces that hold the same counter are the same nonce.
pub proof fn lemma_equal_counters(a: Nonce, b: Nonce)
    requires
        a@ == b@,
    ensures
        a == b,
{
}

/// Decoding the wire form of a counter gives the counter back.
pub proof fn lemma_wire_round_trip(value: u64)
    ensures
        wire_form(value).len() == 8,
        wire_value(wire_form(value)) == value,
{
    let v = value;
    assert(v / 0x0100_0000_0000_0000 < 256) by (bit_vector);
    assert((v / 0x0100_0000_0000_0000) * 0x0100_0000_0000_0000 + (v / 0x0001_0000_0000_0000 % 256)
        * 0x0001_0000_0000_0000 + (v / 0x0000_0100_0000_0000 % 256) * 0x0000_0100_0000_0000 + (v
        / 0x0000_0001_0000_0000 % 256) * 0x0000_0001_0000_0000 + (v / 0x0000_0000_0100_0000 % 256)
        * 0x0000_0000_0100_0000 + (v / 0x0000_0000_0001_0000 % 256) * 0x0000_0000_0001_0000 + (v
        / 0x0000_0000_0000_0100 % 256) * 0x0000_0000_0000_0100 + v % 256 == v) by (bit_vector);
}

/// A nonce read back from its own wire form is the nonce that was written,
/// whatever its counter, zero and the largest included.
pub proof fn lemma_nonce_round_trip(nonce: Nonce, bytes: [u8; 8])
    requires
        bytes@ == wire_form(nonce@),
    ensures
        <Nonce as FromSpec<[u8; 8]>>::from_spec(bytes) == nonce,
{
    lemma_wire_round_trip(nonce@);
}

/// The same of a slice that holds the wire form: reading it succeeds and
/// gives the nonce that was written.
pub proof fn lemma_nonce_round_trip_slice(nonce: Nonce, bytes: &[u8])
    requires
        bytes@ == wire_form(nonce@),
    ensures
        <Nonce as TryFromSpec<&[u8]>>::try_from_spec(bytes) == Ok::<Nonce, NonceError>(nonce),
{
    lemma_wire_round_trip(nonce@);
}

/// Encoding the number that eight digits denote gives the digits back: no two
/// wire forms decode to the same counter.
pub proof fn lemma_wire_form_of_value(bytes: Seq<u8>)
    requires
        bytes.len() == 8,
    ensures
        0 <= wire_value(bytes) <= u64::MAX,
        wire_form(wire_value(bytes) as u64) == bytes,
{
    let b0 = bytes[0] as u64;
    let b1 = bytes[1] as u64;
    let b2 = bytes[2] as u64;
    let b3 = bytes[3] as u64;
    let b4 = bytes[4] as u64;
    let b5 = bytes[5] as u64;
    let b6 = bytes[6] as u64;
    let b7 = bytes[7] as u64;
    let v = wire_value(bytes) as u64;
    assert(v / 0x0100_0000_0000_0000 == b0 && v / 0x0001_0000_0000_0000 % 256 == b1 && v
        / 0x0000_0100_0000_0000 % 256 == b2 && v / 0x0000_0001_0000_0000 % 256 == b3 && v
        / 0x0000_0000_0100_0000 % 256 == b4 && v / 0x0000_0000_0001_0000 % 256 == b5 && v
        / 0x0000_0000_0000_0100 % 256 == b6 && v % 256 == b7) by (bit_vector)
        requires
            v == b0 * 0x0100_0000_0000_0000 + b1 * 0x0001_0000_0000_0000 + b2
                * 0x0000_0100_0000_0000 + b3 * 0x0000_0001_0000_0000 + b4 * 0x0000_0000_0100_0000
                + b5 * 0x0000_0000_0001_0000 + b6 * 0x0000_0000_0000_0100 + b7,
            b0 < 256,
            b1 < 256,
            b2 < 256,
            b3 < 256,
            b4 < 256,
            b5 < 256,
            b6 < 256,
            b7 < 256,
    ;
    assert(wire_form(v) =~= bytes);
}

/// The cipher's form of a counter is twelve bytes long, starts with four zero
/// bytes and ends with the wire form.
pub proof fn lemma_aead_form_layout(value: u64)
    ensures
        aead_form(value).len() == 12,
        forall|i: int| 0 <= i < 4 ==> aead_form(value)[i] == 0,
        aead_form(value).subrange(4, 12) == wire_form(value),
{
    assert(aead_form(value).subrange(4, 12) =~= wire_form(value));
}

/// Eight digits always denote a number that a 64-bit counter can hold.
pub proof fn lemma_wire_value_bounds(bytes: Seq<u8>)
    requires
        bytes.len() == 8,
    ensures
        0 <= wire_value(bytes) <= u64::MAX,
{
}

} // verus!
