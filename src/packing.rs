use vstd::prelude::*;

use crate::error::Error;
use crate::network::Network;
use crate::signature::{spec_sign, Address, PrivateKey, Signature};

verus! {

/// The eight bits of a byte, least significant first.
pub open spec fn byte_to_bits_le(b: u8) -> Seq<bool> {
    Seq::new(8, |j: int| (b >> (j as u8)) & 1u8 == 1u8)
}

/// The bits of a byte string, each byte least significant bit first.
pub open spec fn bytes_to_bits_le(bytes: Seq<u8>) -> Seq<bool>
    decreases bytes.len(),
{
    if bytes.len() == 0 {
        Seq::empty()
    } else {
        bytes_to_bits_le(bytes.drop_last()) + byte_to_bits_le(bytes.last())
    }
}

/// Split `bits` into consecutive chunks of `size` bits (the last may be
/// shorter) and read each as a field element; `None` where a chunk does not
/// make one.
pub open spec fn pack_bits<N: Network>(bits: Seq<bool>, size: nat) -> Option<Seq<N::Field>>
    decreases bits.len(),
{
    if bits.len() == 0 {
        Some(Seq::empty())
    } else if size == 0 {
        None
    } else {
        let n = if bits.len() < size {
            bits.len()
        } else {
            size
        };
        match N::spec_field_from_bits_le(bits.take(n as int)) {
            None => None,
            Some(f) => match pack_bits::<N>(bits.skip(n as int), size) {
                None => None,
                Some(rest) => Some(seq![f] + rest),
            },
        }
    }
}

/// The little-endian bits of `bytes`.
pub fn to_bits_le(bytes: &[u8]) -> (r: Vec<bool>)
    ensures
        r@ == bytes_to_bits_le(bytes@),
{
    let mut bits: Vec<bool> = Vec::new();
    let mut i: usize = 0;
    while i < bytes.len()
        invariant
            i <= bytes@.len(),
            bits@ == bytes_to_bits_le(bytes@.take(i as int)),
        decreases bytes@.len() - i,
    {
        let b = bytes[i];
        let ghost before = bits@;
        let mut j: u8 = 0;
        while j < 8
            invariant
                j <= 8,
                bits@ == before + byte_to_bits_le(b).take(j as int),
            decreases 8 - j,
        {
            bits.push((b >> j) & 1u8 == 1u8);
            j = j + 1;
            assert(bits@ =~= before + byte_to_bits_le(b).take(j as int));
        }
        assert(byte_to_bits_le(b).take(8) =~= byte_to_bits_le(b));
        assert(bytes@.take(i + 1).drop_last() =~= bytes@.take(i as int));
        i = i + 1;
    }
    assert(bytes@.take(i as int) =~= bytes@);
    bits
}

/// Pack bits into field elements, `N::size_in_data_bits()` bits to each.
pub fn pack_bits_le<N: Network>(bits: &[bool]) -> (r: Option<Vec<N::Field>>)
    ensures
        match r {
            Some(fields) => pack_bits::<N>(bits@, N::spec_size_in_data_bits()) == Some(fields@),
            None => pack_bits::<N>(bits@, N::spec_size_in_data_bits()) is None,
        },
{
    let size = N::size_in_data_bits();
    let mut fields: Vec<N::Field> = Vec::new();
    let mut pos: usize = 0;
    assert(bits@.skip(0) =~= bits@);
    assert forall|tail: Seq<N::Field>| #[trigger] (fields@ + tail) == tail by {
        assert(fields@ + tail =~= tail);
    }
    while pos < bits.len()
        invariant
            size > 0,
            size as nat == N::spec_size_in_data_bits(),
            pos <= bits@.len(),
            pack_bits::<N>(bits@, size as nat) == match pack_bits::<N>(
                bits@.skip(pos as int),
                size as nat,
            ) {
                Some(rest) => Some(fields@ + rest),
                None => None::<Seq<N::Field>>,
            },
        decreases bits@.len() - pos,
    {
        let end: usize = if bits.len() - pos < size {
            bits.len()
        } else {
            pos + size
        };
        let mut chunk: Vec<bool> = Vec::new();
        let mut k: usize = pos;
        while k < end
            invariant
                pos <= k <= end <= bits@.len(),
                chunk@ == bits@.subrange(pos as int, k as int),
            decreases end - k,
        {
            chunk.push(bits[k]);
            k = k + 1;
            assert(chunk@ =~= bits@.subrange(pos as int, k as int));
        }
        let ghost rest = bits@.skip(pos as int);
        assert(rest.take((end - pos) as int) =~= chunk@);
        assert(rest.skip((end - pos) as int) =~= bits@.skip(end as int));
        match N::field_from_bits_le(&chunk) {
            Some(f) => {
                let ghost old_fields = fields@;
                fields.push(f);
                assert(fields@ =~= old_fields + seq![f]);
                assert forall|tail: Seq<N::Field>| #[trigger] (old_fields + (seq![f] + tail)) == (
                fields@ + tail) by {
                    assert(old_fields + (seq![f] + tail) =~= fields@ + tail);
                }
            },
            None => {
                return None;
            },
        }
        pos = end;
    }
    assert(bits@.skip(pos as int) =~= Seq::<bool>::empty());
    assert(fields@ + Seq::<N::Field>::empty() =~= fields@);
    Some(fields)
}

impl<N: Network> Signature<N> {
    /// Validity over a message given as bits: the bits pack into field elements
    /// and the signature is valid over those.
    pub open spec fn spec_verify_bits(self, address: Address<N>, message: Seq<bool>) -> bool {
        match pack_bits::<N>(message, N::spec_size_in_data_bits()) {
            Some(fields) => self.spec_verify(address, fields),
            None => false,
        }
    }

    /// Validity over a message given as bytes.
    pub open spec fn spec_verify_bytes(self, address: Address<N>, message: Seq<u8>) -> bool {
        self.spec_verify_bits(address, bytes_to_bits_le(message))
    }

    /// Verifies a signature for the given address and message (as bits). Bits
    /// that do not pack into field elements make the signature invalid.
    pub fn verify_bits(&self, address: &Address<N>, message: &[bool]) -> (r: bool)
        ensures
            r == self.spec_verify_bits(*address, message@),
    {
        match pack_bits_le::<N>(message) {
            Some(fields) => self.verify(address, fields.as_slice()),
            None => false,
        }
    }

    /// Verifies a signature for the given address and message (as bytes).
    pub fn verify_bytes(&self, address: &Address<N>, message: &[u8]) -> (r: bool)
        ensures
            r == self.spec_verify_bytes(*address, message@),
    {
        let bits = to_bits_le(message);
        self.verify_bits(address, bits.as_slice())
    }

    /// Sign a message given as bits.
    pub fn sign_bits(private_key: &PrivateKey<N>, message: &[bool], nonce: &N::Scalar) -> (r:
        Result<Self, Error>)
        ensures
            r == match pack_bits::<N>(message@, N::spec_size_in_data_bits()) {
                Some(fields) => spec_sign(*private_key, fields, *nonce),
                None => Err(Error::PackingFailed),
            },
    {
        match pack_bits_le::<N>(message) {
            Some(fields) => Self::sign(private_key, fields.as_slice(), nonce),
            None => Err(Error::PackingFailed),
        }
    }

    /// Sign a message given as bytes.
    pub fn sign_bytes(private_key: &PrivateKey<N>, message: &[u8], nonce: &N::Scalar) -> (r:
        Result<Self, Error>)
        ensures
            r == match pack_bits::<N>(bytes_to_bits_le(message@), N::spec_size_in_data_bits()) {
                Some(fields) => spec_sign(*private_key, fields, *nonce),
                None => Err(Error::PackingFailed),
            },
    {
        let bits = to_bits_le(message);
        Self::sign_bits(private_key, bits.as_slice(), nonce)
    }
}

/// Verifying over bytes is verifying over their little-endian bits.
pub proof fn lemma_bytes_bits_agree<N: Network>(
    signature: Signature<N>,
    address: Address<N>,
    bytes: Seq<u8>,
)
    ensures
        signature.spec_verify_bytes(address, bytes) == signature.spec_verify_bits(
            address,
            bytes_to_bits_le(bytes),
        ),
{
}

} // verus!
