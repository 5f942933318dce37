use vstd::prelude::*;

verus! {

/// A 65-byte recoverable ECDSA signature over secp256k1: 64 bytes of r and s
/// scalars followed by one recovery-id byte (in the low 0/1 range, or the
/// legacy 27/28 form, which the recovery primitive normalizes). Opaque;
/// equality is byte-wise.
#[derive(Clone, Debug)]
pub struct EcdsaSignature(pub [u8; 65]);

impl View for EcdsaSignature {
    type V = Seq<u8>;

    open spec fn view(&self) -> Seq<u8> {
        self.0@
    }
}

impl PartialEq for EcdsaSignature {
    fn eq(&self, other: &Self) -> (r: bool) {
        let mut i: usize = 0;
        while i < 65
            invariant
                0 <= i <= 65,
                forall|j: int| 0 <= j < i ==> self.0@[j] == other.0@[j],
            decreases 65 - i,
        {
            if self.0[i] != other.0[i] {
                return false;
            }
            i += 1;
        }
        proof {
            assert(self@ =~= other@);
        }
        true
    }
}

impl Eq for EcdsaSignature {}

impl vstd::std_specs::cmp::PartialEqSpecImpl for EcdsaSignature {
    open spec fn obeys_eq_spec() -> bool {
        true
    }

    open spec fn eq_spec(&self, other: &Self) -> bool {
        self@ == other@
    }
}

/// The Keccak-256 digest (the pre-standardization variant used by Ethereum,
/// not NIST SHA3-256) of a byte sequence: 32 bytes, a function of the input alone.
pub uninterp spec fn keccak256(data: Seq<u8>) -> Seq<u8>;

/// What ECDSA public-key recovery over secp256k1 yields for a 65-byte
/// signature and a 32-byte digest: the signer's 64-byte uncompressed public
/// key, or nothing when the signature is malformed (bad recovery id, scalars
/// off the curve). A function of signature and digest alone.
pub uninterp spec fn secp256k1_recover(sig: Seq<u8>, digest: Seq<u8>) -> Option<Seq<u8>>;

/// Relies on `sp_io::hashing::keccak_256`: the Keccak-256 digest of the input
/// bytes, computed by `sp_crypto_hashing::keccak_256`, a pure function of the
/// data alone.
#[verifier::external_body]
pub(crate) fn keccak_256(data: &[u8]) -> (r: [u8; 32])
    ensures
        r@ == keccak256(data@),
{
    sp_io::hashing::keccak_256(data)
}

/// Relies on `sp_io::crypto::secp256k1_ecdsa_recover`: returns the recovered
/// 64-byte uncompressed public key (without the 0x04 prefix) and fails on a
/// malformed signature; it is deterministic in the signature and digest, and
/// returns an error rather than panicking on every input.
#[verifier::external_body]
pub(crate) fn ecdsa_recover(sig: &[u8; 65], digest: &[u8; 32]) -> (r: Option<[u8; 64]>)
    ensures
        match r {
            Some(pk) => secp256k1_recover(sig@, digest@) == Some(pk@),
            None => secp256k1_recover(sig@, digest@) is None,
        },
{
    sp_io::crypto::secp256k1_ecdsa_recover(sig, digest).ok()
}

/// The 26 bytes of the literal prefix `"\x19Ethereum Signed Message:\n"`.
pub open spec fn eth_prefix() -> Seq<u8> {
    seq![
        0x19u8,
        69u8,
        116u8,
        104u8,
        101u8,
        114u8,
        101u8,
        117u8,
        109u8,
        32u8,
        83u8,
        105u8,
        103u8,
        110u8,
        101u8,
        100u8,
        32u8,
        77u8,
        101u8,
        115u8,
        115u8,
        97u8,
        103u8,
        101u8,
        58u8,
        10u8,
    ]
}

/// The decimal ASCII digits of `n` for positive `n`, most significant first,
/// with no leading zeros; empty for `n == 0`.
pub open spec fn decimal_digits_rec(n: nat) -> Seq<u8>
    decreases n,
{
    if n == 0 {
        Seq::empty()
    } else {
        decimal_digits_rec(n / 10) + seq![(48 + n % 10) as u8]
    }
}

/// The decimal ASCII rendering of `n`: `"0"` for zero, otherwise the digits
/// of `n` with no leading zeros.
pub open spec fn decimal_digits(n: nat) -> Seq<u8> {
    if n == 0 {
        seq![48u8]
    } else {
        decimal_digits_rec(n)
    }
}

/// The Ethereum `personal_sign` preimage: the literal prefix, the decimal
/// byte count of the payload, then the payload `what` followed by `extra`.
pub open spec fn signable_message_spec(what: Seq<u8>, extra: Seq<u8>) -> Seq<u8> {
    eth_prefix() + decimal_digits(what.len() + extra.len()) + what + extra
}

/// The Ethereum address recovered from a signature over the `personal_sign`
/// preimage of `what` and `extra`: the last 20 bytes of the Keccak-256 digest
/// of the recovered public key, or nothing when recovery fails.
pub open spec fn recovered_address_spec(sig: Seq<u8>, what: Seq<u8>, extra: Seq<u8>) -> Option<
    Seq<u8>,
> {
    match secp256k1_recover(sig, keccak256(signable_message_spec(what, extra))) {
        Some(pk) => Some(keccak256(pk).subrange(12, 32)),
        None => None,
    }
}

} // verus!
