use vstd::prelude::*;

use crate::address::EthereumAddress;
use crate::crypto::EcdsaSignature;
use crate::crypto::decimal_digits;
use crate::crypto::decimal_digits_rec;
use crate::crypto::ecdsa_recover;
use crate::crypto::eth_prefix;
use crate::crypto::keccak_256;
use crate::crypto::recovered_address_spec;
use crate::crypto::signable_message_spec;
use crate::registry::Message;
use crate::registry::MessageRegistry;

verus! {

/// The classification of a request's source, as the host's authorization
/// check reports it. Only the unsigned class may verify messages.
#[derive(Clone, Debug)]
pub enum Origin {
    /// An unsigned submission, the accepted class.
    Unsigned,
    /// A submission signed by an account, given by its encoded identity.
    Signed(Vec<u8>),
    /// The root authority.
    Root,
}

/// Why a verification request failed.
#[derive(Clone, Copy, PartialEq, Eq, Structural, Debug)]
pub enum Error {
    /// The request did not come from the accepted unsigned origin.
    Unauthorized,
    /// The message signature is invalid.
    InvalidSignature,
    /// The signer of the message is invalid.
    InvalidSigner,
    /// The message has already been verified.
    MessageAlreadyVerified,
}

/// Why an unsigned submission was refused admission, in the form the host's
/// admission layer reports as a small error code.
#[derive(Clone, Copy, PartialEq, Eq, Structural, Debug)]
pub enum ValidityError {
    /// The message signature is invalid.
    InvalidSignature,
    /// The signer of the message is invalid.
    InvalidSigner,
    /// The message has already been validated.
    MessageAlreadyValidated,
}

/// The error code of a `ValidityError`, in declaration order.
pub open spec fn validity_error_code(err: ValidityError) -> u8 {
    match err {
        ValidityError::InvalidSignature => 0,
        ValidityError::InvalidSigner => 1,
        ValidityError::MessageAlreadyValidated => 2,
    }
}

impl From<ValidityError> for u8 {
    fn from(err: ValidityError) -> (r: u8) {
        match err {
            ValidityError::InvalidSignature => 0,
            ValidityError::InvalidSigner => 1,
            ValidityError::MessageAlreadyValidated => 2,
        }
    }
}

impl vstd::std_specs::convert::FromSpecImpl<ValidityError> for u8 {
    open spec fn obeys_from_spec() -> bool {
        true
    }

    open spec fn from_spec(err: ValidityError) -> u8 {
        validity_error_code(err)
    }
}

/// An observable event, recorded alongside the state change that caused it.
#[derive(Clone, Debug)]
pub enum Event {
    /// A message was verified on behalf of the given encoded account.
    MessageVerified(Vec<u8>, Message, bool),
}

/// The admission ticket for an unsigned submission accepted into the pending
/// pool.
#[derive(Clone, Debug)]
pub struct ValidTransaction {
    /// The fixed priority of the submission.
    pub priority: u64,
    /// Capability tags this submission waits on (the `requires` list of the
    /// host's ticket; that word is reserved here).
    pub requires_tags: Vec<Vec<u8>>,
    /// Capability tags this submission provides; one entry, tagged by the
    /// recovered signer, so the pool can deduplicate by signer.
    pub provides: Vec<Vec<u8>>,
    /// How many blocks the submission may wait in the pool.
    pub longevity: u64,
    /// Whether the submission may be rebroadcast to peers.
    pub propagate: bool,
}

/// The bytes of an ASCII character sequence, one byte per character.
pub open spec fn ascii_bytes(s: Seq<char>) -> Seq<u8> {
    Seq::new(s.len(), |i: int| s[i] as u8)
}

/// The SCALE encoding of the pair `("claims", addr)`: compact length 6
/// (the single byte 0x18), the six bytes of `"claims"`, then the 20 raw
/// address bytes.
pub open spec fn claims_tag_spec(addr: Seq<u8>) -> Seq<u8> {
    seq![0x18u8, 99u8, 108u8, 97u8, 105u8, 109u8, 115u8] + addr
}

/// Relies on `parity_scale_codec::Encode` for `(&str, [u8; 20])`: a tuple
/// encodes as the concatenation of its fields' encodings, a `str` as its byte
/// length in compact form (for lengths below 64, the single byte holding four
/// times the length) followed by its UTF-8 bytes — which for ASCII text are
/// its characters — and a byte array as its raw bytes with no length prefix.
#[verifier::external_body]
fn encode_str_tag(label: &str, addr: &[u8; 20]) -> (r: Vec<u8>)
    requires
        vstd::string::is_ascii(label),
        label@.len() < 64,
    ensures
        r@ == seq![(4 * label@.len()) as u8] + ascii_bytes(label@) + addr@,
{
    parity_scale_codec::Encode::encode(&(label, *addr))
}

/// The outcome `verify_message` owes for a given registry snapshot and
/// request: `Unauthorized` for any origin but the unsigned one, then
/// `MessageAlreadyVerified` for a message already in the registry, then
/// `InvalidSignature` when address recovery fails, and success otherwise.
pub open spec fn spec_verify_outcome(
    verified: Set<Seq<u8>>,
    origin: Origin,
    account: Seq<u8>,
    message: Seq<u8>,
    signature: Seq<u8>,
) -> Result<(), Error> {
    if !(origin is Unsigned) {
        Err(Error::Unauthorized)
    } else if verified.contains(message) {
        Err(Error::MessageAlreadyVerified)
    } else if recovered_address_spec(signature, account, message) is None {
        Err(Error::InvalidSignature)
    } else {
        Ok(())
    }
}

/// The registry after a `verify_message` call: the message is added exactly
/// when the call succeeds; every failure leaves the registry unchanged.
pub open spec fn spec_verify_next(
    verified: Set<Seq<u8>>,
    origin: Origin,
    account: Seq<u8>,
    message: Seq<u8>,
    signature: Seq<u8>,
) -> Set<Seq<u8>> {
    if spec_verify_outcome(verified, origin, account, message, signature) is Ok {
        verified.insert(message)
    } else {
        verified
    }
}

/// What `eth_recover` owes: its result carries exactly the address that
/// `recovered_address_spec` assigns to the inputs, if any.
pub open spec fn recover_result_spec(
    r: Option<EthereumAddress>,
    sig: Seq<u8>,
    what: Seq<u8>,
    extra: Seq<u8>,
) -> bool {
    match r {
        Some(a) => recovered_address_spec(sig, what, extra) == Some(a@),
        None => recovered_address_spec(sig, what, extra) is None,
    }
}

/// What `validate_unsigned` owes for a given registry snapshot: a ticket with
/// the fixed priority, no required tags, one provided tag naming the
/// recovered signer, unbounded longevity and the propagate flag — or the
/// error that classifies the failure, each if and only if its case holds.
pub open spec fn admission_result_spec(
    r: Result<ValidTransaction, ValidityError>,
    verified: Set<Seq<u8>>,
    account: Seq<u8>,
    message: Seq<u8>,
    signature: Seq<u8>,
) -> bool {
    match r {
        Ok(v) => {
            &&& !verified.contains(message)
            &&& recovered_address_spec(signature, account, message) is Some
            &&& v.priority == 100
            &&& v.requires_tags@.len() == 0
            &&& v.provides@.len() == 1
            &&& v.provides@[0]@ == claims_tag_spec(
                recovered_address_spec(signature, account, message)->0,
            )
            &&& v.longevity == u64::MAX
            &&& v.propagate == true
        },
        Err(ValidityError::MessageAlreadyValidated) => verified.contains(message),
        Err(ValidityError::InvalidSignature) => {
            &&& !verified.contains(message)
            &&& recovered_address_spec(signature, account, message) is None
        },
        Err(ValidityError::InvalidSigner) => false,
    }
}

/// Orchestrates signature recovery and the message registry: decides, exactly
/// once per message, whether verification succeeds, and records the events it
/// emits.
pub struct Pallet {
    registry: MessageRegistry,
    events: Vec<Event>,
}

impl Pallet {
    /// The set of messages verified so far.
    pub closed spec fn verified_messages(&self) -> Set<Seq<u8>> {
        self.registry@
    }

    /// The events emitted so far, oldest first.
    pub closed spec fn events(&self) -> Seq<Event> {
        self.events@
    }

    /// A fresh pallet: nothing verified, no events.
    pub fn new() -> (r: Pallet)
        ensures
            r.verified_messages() == Set::<Seq<u8>>::empty(),
            r.events() == Seq::<Event>::empty(),
    {
        Pallet { registry: MessageRegistry::new(), events: Vec::new() }
    }

    /// Read accessor for the stored per-message state: `Some(true)` once the
    /// message has been verified, absent before.
    pub fn message_state(&self, message: &Message) -> (r: Option<bool>)
        ensures
            r == if self.verified_messages().contains(message@) {
                Some(true)
            } else {
                None::<bool>
            },
    {
        if self.registry.is_verified(message) {
            Some(true)
        } else {
            None
        }
    }

    /// The events emitted so far, oldest first.
    pub fn event_log(&self) -> (r: &Vec<Event>)
        ensures
            r@ == self.events(),
    {
        &self.events
    }

    /// Constructs the preimage that Ethereum RPC's `personal_sign` and
    /// `eth_sign` would sign: the literal prefix `"\x19Ethereum Signed
    /// Message:\n"`, the decimal byte count of the payload with no leading
    /// zeros (zero renders as `"0"`), then `what` followed by `extra`.
    pub fn ethereum_signable_message(what: &[u8], extra: &[u8]) -> (r: Vec<u8>)
        requires
            what@.len() + extra@.len() <= usize::MAX,
        ensures
            r@ == signable_message_spec(what@, extra@),
    {
        let total: usize = what.len() + extra.len();
        let mut rev: Vec<u8> = Vec::new();
        let ghost mut digits: Seq<u8> = Seq::empty();
        let mut l: usize = total;
        while l > 0
            invariant
                decimal_digits_rec(total as nat) == decimal_digits_rec(l as nat) + digits,
                digits.len() == rev@.len(),
                forall|t: int|
                    0 <= t < digits.len() ==> digits[t] == rev@[rev@.len() - 1 - t],
            decreases l,
        {
            rev.push(48 + (l % 10) as u8);
            proof {
                digits = seq![(48 + (l as nat) % 10) as u8] + digits;
            }
            l = l / 10;
        }
        let mut v: Vec<u8> = Vec::new();
        v.push(0x19);
        v.push(69);
        v.push(116);
        v.push(104);
        v.push(101);
        v.push(114);
        v.push(101);
        v.push(117);
        v.push(109);
        v.push(32);
        v.push(83);
        v.push(105);
        v.push(103);
        v.push(110);
        v.push(101);
        v.push(100);
        v.push(32);
        v.push(77);
        v.push(101);
        v.push(115);
        v.push(115);
        v.push(97);
        v.push(103);
        v.push(101);
        v.push(58);
        v.push(10);
        proof {
            assert(v@ =~= eth_prefix());
        }
        if total == 0 {
            v.push(48);
            proof {
                digits = seq![48u8];
                assert(v@ =~= eth_prefix() + digits);
            }
        } else {
            let n = rev.len();
            let mut j: usize = 0;
            while j < n
                invariant
                    0 <= j <= n,
                    n == rev@.len(),
                    digits.len() == n,
                    forall|t: int| 0 <= t < n ==> digits[t] == rev@[n - 1 - t],
                    v@ =~= eth_prefix() + digits.subrange(0, j as int),
                decreases n - j,
            {
                v.push(rev[n - 1 - j]);
                proof {
                    assert(digits[j as int] == rev@[n - 1 - j]);
                    assert(v@ =~= eth_prefix() + digits.subrange(0, j + 1));
                }
                j += 1;
            }
            proof {
                assert(digits.subrange(0, n as int) =~= digits);
                assert(v@ =~= eth_prefix() + digits);
            }
        }
        proof {
            assert(digits == decimal_digits((what@.len() + extra@.len()) as nat));
        }
        let mut i: usize = 0;
        while i < what.len()
            invariant
                0 <= i <= what@.len(),
                v@ =~= eth_prefix() + digits + what@.subrange(0, i as int),
            decreases what@.len() - i,
        {
            v.push(what[i]);
            proof {
                assert(v@ =~= eth_prefix() + digits + what@.subrange(0, i + 1));
            }
            i += 1;
        }
        proof {
            assert(what@.subrange(0, what@.len() as int) =~= what@);
        }
        let mut k: usize = 0;
        while k < extra.len()
            invariant
                0 <= k <= extra@.len(),
                v@ =~= eth_prefix() + digits + what@ + extra@.subrange(0, k as int),
            decreases extra@.len() - k,
        {
            v.push(extra[k]);
            proof {
                assert(v@ =~= eth_prefix() + digits + what@ + extra@.subrange(0, k + 1));
            }
            k += 1;
        }
        proof {
            assert(extra@.subrange(0, extra@.len() as int) =~= extra@);
            assert(v@ =~= signable_message_spec(what@, extra@));
        }
        v
    }

    /// Attempts to recover the Ethereum address of whoever signed the
    /// `personal_sign` preimage of `what` and `extra`: hashes the preimage,
    /// performs public-key recovery, and takes the last 20 bytes of the
    /// Keccak-256 digest of the recovered key. Cryptographic failure is an
    /// expected outcome, reported as `None`, never a fault.
    pub fn eth_recover(s: &EcdsaSignature, what: &[u8], extra: &[u8]) -> (r: Option<
        EthereumAddress,
    >)
        requires
            what@.len() + extra@.len() <= usize::MAX,
        ensures
            recover_result_spec(r, s@, what@, extra@),
    {
        let preimage = Self::ethereum_signable_message(what, extra);
        let digest = keccak_256(preimage.as_slice());
        match ecdsa_recover(&s.0, &digest) {
            None => None,
            Some(pk) => {
                let h = keccak_256(pk.as_slice());
                let mut out: [u8; 20] = [0u8; 20];
                let mut i: usize = 0;
                while i < 20
                    invariant
                        0 <= i <= 20,
                        forall|j: int| 0 <= j < i ==> out@[j] == h@[12 + j],
                    decreases 20 - i,
                {
                    out[i] = h[12 + i];
                    i += 1;
                }
                proof {
                    assert(out@ =~= h@.subrange(12, 32));
                }
                Some(EthereumAddress::new(out))
            },
        }
    }

    /// The sole state-mutating entry point: verifies an Ethereum-signed
    /// message on behalf of an account, at most once per message. On success
    /// the message is recorded as verified and a `MessageVerified` event is
    /// emitted; every failure leaves both the registry and the events
    /// untouched.
    pub fn verify_message(
        &mut self,
        origin: Origin,
        account: Vec<u8>,
        message: Message,
        signature: EcdsaSignature,
    ) -> (r: Result<(), Error>)
        requires
            account@.len() <= usize::MAX - 256,
        ensures
            r == spec_verify_outcome(
                old(self).verified_messages(),
                origin,
                account@,
                message@,
                signature@,
            ),
            final(self).verified_messages() == spec_verify_next(
                old(self).verified_messages(),
                origin,
                account@,
                message@,
                signature@,
            ),
            r is Ok ==> final(self).events() == old(self).events().push(
                Event::MessageVerified(account, message, true),
            ),
            r is Err ==> final(self).events() == old(self).events(),
    {
        match origin {
            Origin::Unsigned => {},
            _ => {
                return Err(Error::Unauthorized);
            },
        }
        if self.registry.is_verified(&message) {
            return Err(Error::MessageAlreadyVerified);
        }
        let recovered = Self::eth_recover(&signature, account.as_slice(), message.bytes().as_slice());
        if recovered.is_none() {
            return Err(Error::InvalidSignature);
        }
        self.registry.mark_verified(message);
        self.events.push(Event::MessageVerified(account, message, true));
        Ok(())
    }

    /// The admission-control check for unsigned submissions: runs the same
    /// registry and recovery checks as `verify_message` against a read-only
    /// snapshot, mutating nothing, and on success yields the pending pool's
    /// ticket: priority 100, no required tags, one provided tag naming the
    /// recovered signer, unbounded longevity, and permission to rebroadcast.
    pub fn validate_unsigned(
        &self,
        account: &Vec<u8>,
        message: &Message,
        signature: &EcdsaSignature,
    ) -> (r: Result<ValidTransaction, ValidityError>)
        requires
            account@.len() <= usize::MAX - 256,
        ensures
            admission_result_spec(
                r,
                self.verified_messages(),
                account@,
                message@,
                signature@,
            ),
    {
        if self.registry.is_verified(message) {
            return Err(ValidityError::MessageAlreadyValidated);
        }
        let signer = match Self::eth_recover(signature, account.as_slice(), message.bytes().as_slice()) {
            Some(a) => a,
            None => {
                return Err(ValidityError::InvalidSignature);
            },
        };
        proof {
            reveal_strlit("claims");
        }
        let tag = encode_str_tag("claims", signer.bytes());
        proof {
            assert(tag@ =~= claims_tag_spec(signer@));
        }
        let mut provides: Vec<Vec<u8>> = Vec::new();
        provides.push(tag);
        Ok(
            ValidTransaction {
                priority: 100,
                requires_tags: Vec::new(),
                provides,
                longevity: u64::MAX,
                propagate: true,
            },
        )
    }
}

/// Determinism of recovery: for one triple of signature, body and suffix,
/// any two results that satisfy `eth_recover`'s contract are bit-identical.
pub proof fn lemma_recover_deterministic(
    r1: Option<EthereumAddress>,
    r2: Option<EthereumAddress>,
    sig: Seq<u8>,
    what: Seq<u8>,
    extra: Seq<u8>,
)
    requires
        recover_result_spec(r1, sig, what, extra),
        recover_result_spec(r2, sig, what, extra),
    ensures
        r1 == r2,
{
    match (r1, r2) {
        (Some(a1), Some(a2)) => {
            assert(a1@ == a2@);
            crate::address::lemma_address_eq_from_view(a1, a2);
        },
        (Some(_), None) => {
            assert(false);
        },
        (None, Some(_)) => {
            assert(false);
        },
        (None, None) => {},
    }
}

/// At most once: after a successful verification of a message, a verifying
/// call for the same message from the accepted origin fails with
/// `MessageAlreadyVerified` — whatever account or signature it supplies —
/// and changes nothing.
pub proof fn lemma_at_most_once(
    verified: Set<Seq<u8>>,
    origin1: Origin,
    account1: Seq<u8>,
    m: Seq<u8>,
    sig1: Seq<u8>,
    origin2: Origin,
    account2: Seq<u8>,
    sig2: Seq<u8>,
)
    requires
        spec_verify_outcome(verified, origin1, account1, m, sig1) is Ok,
        origin2 is Unsigned,
    ensures
        spec_verify_outcome(
            spec_verify_next(verified, origin1, account1, m, sig1),
            origin2,
            account2,
            m,
            sig2,
        ) == Err::<(), Error>(Error::MessageAlreadyVerified),
        spec_verify_next(
            spec_verify_next(verified, origin1, account1, m, sig1),
            origin2,
            account2,
            m,
            sig2,
        ) == spec_verify_next(verified, origin1, account1, m, sig1),
{
}

/// The registry only grows: no verifying call, whatever its outcome, removes
/// a message once verified.
pub proof fn lemma_registry_monotone(
    verified: Set<Seq<u8>>,
    origin: Origin,
    account: Seq<u8>,
    message: Seq<u8>,
    signature: Seq<u8>,
    m: Seq<u8>,
)
    requires
        verified.contains(m),
    ensures
        spec_verify_next(verified, origin, account, message, signature).contains(m),
{
}

/// Admission is deterministic and read-only: against one registry snapshot
/// and one triple of inputs, any two results that satisfy
/// `validate_unsigned`'s contract agree on the decision, on the error, and
/// on every field of the ticket.
pub proof fn lemma_admission_deterministic(
    r1: Result<ValidTransaction, ValidityError>,
    r2: Result<ValidTransaction, ValidityError>,
    verified: Set<Seq<u8>>,
    account: Seq<u8>,
    message: Seq<u8>,
    signature: Seq<u8>,
)
    requires
        admission_result_spec(r1, verified, account, message, signature),
        admission_result_spec(r2, verified, account, message, signature),
    ensures
        match (r1, r2) {
            (Ok(v1), Ok(v2)) => {
                &&& v1.priority == v2.priority
                &&& v1.requires_tags@ == v2.requires_tags@
                &&& v1.provides.deep_view() == v2.provides.deep_view()
                &&& v1.longevity == v2.longevity
                &&& v1.propagate == v2.propagate
            },
            (Err(e1), Err(e2)) => e1 == e2,
            _ => false,
        },
{
    match (r1, r2) {
        (Ok(v1), Ok(v2)) => {
            assert(v1.requires_tags@ =~= v2.requires_tags@);
            assert(v1.provides.deep_view() =~= v2.provides.deep_view());
        },
        (Err(_), Err(_)) => {},
        (Ok(_), Err(_)) => {
            assert(false);
        },
        (Err(_), Ok(_)) => {
            assert(false);
        },
    }
}

} // verus!
