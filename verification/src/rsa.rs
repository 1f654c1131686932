use vstd::prelude::*;
use vstd::arithmetic::power::pow;
use num_bigint::{BigInt, Sign};
use crate::packet::{gbytes_at, Packet};

verus! {

/// The number that the big-endian bytes `s` write.
pub open spec fn be_value(s: Seq<u8>) -> nat
    decreases s.len(),
{
    if s.len() == 0 {
        0
    } else {
        be_value(s.drop_last()) * 256 + s.last() as nat
    }
}

/// Whether `s` is the shortest big-endian writing of its number (a single 0 for zero).
pub open spec fn minimal_be(s: Seq<u8>) -> bool {
    s.len() >= 1 && (s.len() > 1 ==> s[0] != 0)
}

/// `base` raised to `exponent` modulo `modulus`, all big-endian, computed with num-bigint:
/// `BigInt::from_bytes_be` with a plus sign on each, `BigInt::modpow`, then
/// `BigInt::to_bytes_be`. Claims what the crate documents: the result lies in `[0, modulus)`
/// for a positive modulus and is `base^exponent mod modulus`, and its bytes are the shortest
/// big-endian writing (a single 0 for zero). `modpow` panics on a zero modulus.
#[verifier::external_body]
fn modpow_be(base: &[u8], exponent: &[u8], modulus: &[u8]) -> (r: Vec<u8>)
    requires
        be_value(modulus@) > 0,
    ensures
        be_value(r@) == pow(be_value(base@) as int, be_value(exponent@)) % (be_value(modulus@) as int),
        minimal_be(r@),
{
    let b = BigInt::from_bytes_be(Sign::Plus, base);
    let e = BigInt::from_bytes_be(Sign::Plus, exponent);
    let m = BigInt::from_bytes_be(Sign::Plus, modulus);
    b.modpow(&e, &m).to_bytes_be().1
}

/// Decrypts the RSA block of `packet_length` bytes at the cursor of `packet` with the private
/// `exponent` and `modulus` (big-endian), and returns a packet over the plaintext bytes.
pub fn decrypt_rsa_block(packet: Packet, packet_length: usize, exponent: &[u8], modulus: &[u8]) -> (p: Packet)
    requires
        packet.position + packet_length <= usize::MAX,
        be_value(modulus@) > 0,
    ensures
        p.position == 0,
        minimal_be(p.data@),
        be_value(p.data@) == pow(
            be_value(gbytes_at(packet.data@, packet.position as int, packet_length as int)) as int,
            be_value(exponent@),
        ) % (be_value(modulus@) as int),
{
    let mut packet = packet;
    let rsa_bytes = packet.gbytes(packet_length);
    let decrypted = modpow_be(rsa_bytes.as_slice(), exponent, modulus);
    Packet::from(decrypted)
}

} // verus!
