//! The decisions of the NAT traversal handshake with a remote peer.
//!
//! The driver (which owns the socket) repeats attempts: it sends what
//! `outgoing` names, waits for an answer with a timeout, and hands the outcome
//! back to the handshake, which moves through its phases and tells the driver
//! what to do next:
//!
//! 1. `Start`: send the protocol version until the remote answers with the
//!    same version;
//! 2. `SendIntroPacket`: send our symmetric key, encrypted for the remote,
//!    until the remote answers with its own symmetric key, encrypted for us;
//! 3. `AckProtoc`: send "hello" under our key until the remote answers with
//!    "hello" under its key.
//!
//! Failed sends (outside the last phase), failed receives and time-outs count
//! as failures; after `MAX_FAILURES` of them the handshake gives up.

use aes_gcm::aes::cipher::InvalidLength;
use aes_gcm::aes::Aes128;
use crate::cipher::{keyed_aes128, KeyedCipher};
use vstd::prelude::*;

verus! {

#[verifier::external_type_specification]
#[verifier::external_body]
pub struct ExAes128(Aes128);

#[verifier::external_type_specification]
#[verifier::external_body]
pub struct ExInvalidLength(InvalidLength);

#[verifier::external_type_specification]
#[verifier::external_body]
pub struct ExRsaError(rsa::errors::Error);

/// Failed attempts after which the handshake gives up.
pub const MAX_FAILURES: usize = 20;

/// The protocol version, version 1 as a little-endian `u16`.
pub const PROTOC_VERSION: [u8; 2] = [1u8, 0u8];

/// The greeting that confirms both symmetric keys: "hello".
pub const HELLO: [u8; 5] = [104u8, 101u8, 108u8, 108u8, 111u8];

/// The bytes of the protocol version.
pub open spec fn protoc_version_bytes() -> Seq<u8> {
    seq![1u8, 0u8]
}

/// The bytes of "hello".
pub open spec fn hello_bytes() -> Seq<u8> {
    seq![104u8, 101u8, 108u8, 108u8, 111u8]
}

/// The phase of the handshake.
#[derive(PartialEq, Eq, Structural, Clone, Copy, Debug)]
pub enum HandshakePhase {
    /// Agreeing on the protocol version.
    Start,
    /// Waiting for the remote's symmetric key.
    SendIntroPacket,
    /// Confirming both keys with "hello".
    AckProtoc,
}

/// What the driver sends at the start of an attempt.
#[derive(PartialEq, Eq, Structural, Clone, Copy, Debug)]
pub enum Outgoing {
    /// The protocol version.
    ProtocolVersion,
    /// Our symmetric key, encrypted with the remote's public key.
    IntroPacket,
    /// "hello", encrypted with our symmetric key.
    Hello,
}

/// Why a handshake failed.
pub enum HandshakeFailure {
    /// A send failed: in the last phase at once, earlier at the last allowed failure.
    SendFailed,
    /// The remote answered with another protocol version, these bytes.
    ProtocolVersionMismatch(Vec<u8>),
    /// The remote's key packet could not be decrypted.
    DecryptionFailed(rsa::errors::Error),
    /// The remote's key has not the length of a symmetric key.
    InvalidSymmetricKey,
    /// The remote did not answer with "hello".
    UnrecognizedMessage,
    /// The allowed failures were used up.
    MaxAttemptsReached,
}

/// What the driver does next.
pub enum Step {
    /// Start the next attempt at once.
    Continue,
    /// Wait for the retry interval, then start the next attempt.
    Retry,
    /// Decrypt the answer with our private key and hand it to `on_intro_key`.
    DecryptIntroKey,
    /// Decrypt the answer with the remote's symmetric key and hand it to `on_hello`.
    DecryptHello,
    /// The handshake succeeded: take the keys with `into_keys`.
    Established,
    /// The handshake failed.
    Failed(HandshakeFailure),
}

/// The order of the phases.
pub open spec fn phase_rank(phase: HandshakePhase) -> int {
    match phase {
        HandshakePhase::Start => 0,
        HandshakePhase::SendIntroPacket => 1,
        HandshakePhase::AckProtoc => 2,
    }
}

/// The abstract state of a handshake.
pub struct HandshakeView {
    pub phase: HandshakePhase,
    pub failures: usize,
    pub outbound_key_bytes: [u8; 16],
    pub outbound_key: KeyedCipher,
    pub inbound_key: Option<KeyedCipher>,
}

impl HandshakeView {
    /// The remote's key is known exactly in the last phase, and the failures
    /// never exceed the allowance.
    pub open spec fn wf(self) -> bool {
        &&& (self.inbound_key is Some <==> self.phase == HandshakePhase::AckProtoc)
        &&& self.failures <= MAX_FAILURES
    }

    /// A measure that every step that neither ends nor gives up decreases.
    pub open spec fn remaining_work(self) -> int {
        (MAX_FAILURES - self.failures) + (2 - phase_rank(self.phase))
    }
}

/// The work left is never negative and at most `MAX_FAILURES + 2`; as every
/// step that neither ends nor gives up the handshake decreases it (see the
/// `ensures` of the `on_*` methods), a handshake ends after at most
/// `MAX_FAILURES + 2` such steps.
pub proof fn lemma_remaining_work_bounded(v: HandshakeView)
    requires
        v.wf(),
    ensures
        0 <= v.remaining_work() <= MAX_FAILURES + 2,
{
}

/// Random key bytes: `rand::random::<[u8; 16]>`. Nothing is claimed of them.
#[verifier::external_body]
fn random_key_bytes() -> [u8; 16] {
    rand::random::<[u8; 16]>()
}

/// `a` and `b` hold the same bytes.
fn bytes_equal(a: &[u8], b: &[u8]) -> (r: bool)
    ensures
        r == (a@ == b@),
{
    if a.len() != b.len() {
        return false;
    }
    let mut i: usize = 0;
    while i < a.len()
        invariant
            a@.len() == b@.len(),
            i <= a@.len(),
            forall|j: int| 0 <= j < i ==> a@[j] == b@[j],
        decreases a@.len() - i,
    {
        if a[i] != b[i] {
            return false;
        }
        i = i + 1;
    }
    assert(a@ =~= b@);
    true
}

/// The handshake with one remote peer.
pub struct NatTraversal {
    phase: HandshakePhase,
    failures: usize,
    outbound_key_bytes: [u8; 16],
    outbound_key: KeyedCipher,
    inbound_key: Option<KeyedCipher>,
}

impl View for NatTraversal {
    type V = HandshakeView;

    closed spec fn view(&self) -> HandshakeView {
        HandshakeView {
            phase: self.phase,
            failures: self.failures,
            outbound_key_bytes: self.outbound_key_bytes,
            outbound_key: self.outbound_key,
            inbound_key: self.inbound_key,
        }
    }
}

impl NatTraversal {
    /// A handshake at its start, with a fresh random symmetric key of ours.
    pub fn new() -> (h: Self)
        ensures
            h@.wf(),
            h@.phase == HandshakePhase::Start,
            h@.failures == 0,
            h@.outbound_key.key() == h@.outbound_key_bytes@,
    {
        let outbound_key_bytes = random_key_bytes();
        let outbound_key = match keyed_aes128(&outbound_key_bytes) {
            Ok(key) => key,
            Err(_) => {
                proof {
                    assert(outbound_key_bytes@.len() == 16);
                }
                vstd::pervasive::unreached()
            },
        };
        NatTraversal {
            phase: HandshakePhase::Start,
            failures: 0,
            outbound_key_bytes,
            outbound_key,
            inbound_key: None,
        }
    }

    /// What to send at the start of an attempt in the current phase.
    pub fn outgoing(&self) -> (o: Outgoing)
        ensures
            o == match self@.phase {
                HandshakePhase::Start => Outgoing::ProtocolVersion,
                HandshakePhase::SendIntroPacket => Outgoing::IntroPacket,
                HandshakePhase::AckProtoc => Outgoing::Hello,
            },
    {
        match self.phase {
            HandshakePhase::Start => Outgoing::ProtocolVersion,
            HandshakePhase::SendIntroPacket => Outgoing::IntroPacket,
            HandshakePhase::AckProtoc => Outgoing::Hello,
        }
    }

    /// Whether another attempt may start: fewer than `MAX_FAILURES` failures so far.
    pub fn keeps_trying(&self) -> (b: bool)
        ensures
            b == (self@.failures < MAX_FAILURES),
    {
        self.failures < MAX_FAILURES
    }

    /// The current phase.
    pub fn phase(&self) -> (p: HandshakePhase)
        ensures
            p == self@.phase,
    {
        self.phase
    }

    /// The failures so far.
    pub fn failures(&self) -> (n: usize)
        ensures
            n == self@.failures,
    {
        self.failures
    }

    /// Our symmetric key, to be sent encrypted for the remote.
    pub fn outbound_key_bytes(&self) -> (k: [u8; 16])
        ensures
            k == self@.outbound_key_bytes,
    {
        self.outbound_key_bytes
    }

    /// Our cipher, which encrypts the "hello" we send.
    pub fn outbound_key(&self) -> (k: &KeyedCipher)
        ensures
            *k == self@.outbound_key,
    {
        &self.outbound_key
    }

    /// The remote's cipher, once its key is known.
    pub fn inbound_key(&self) -> (k: Option<&KeyedCipher>)
        ensures
            k == match self@.inbound_key {
                Some(key) => Some(&key),
                None => None::<&KeyedCipher>,
            },
    {
        match &self.inbound_key {
            Some(key) => Some(key),
            None => None,
        }
    }

    /// Sending failed. In the last phase the handshake fails at once; earlier
    /// the failure is counted, and the handshake fails when it is the last one
    /// allowed, otherwise it retries after the interval.
    pub fn on_send_error(&mut self) -> (step: Step)
        requires
            old(self)@.wf(),
            old(self)@.failures < MAX_FAILURES,
        ensures
            final(self)@.wf(),
            old(self)@.phase == HandshakePhase::AckProtoc ==> {
                &&& final(self)@ == old(self)@
                &&& step matches Step::Failed(HandshakeFailure::SendFailed)
            },
            old(self)@.phase != HandshakePhase::AckProtoc ==> {
                &&& final(self)@ == (HandshakeView { failures: (old(self)@.failures + 1) as usize, ..old(self)@ })
                &&& if final(self)@.failures == MAX_FAILURES {
                    step matches Step::Failed(HandshakeFailure::SendFailed)
                } else {
                    step is Retry
                }
            },
            step is Retry ==> final(self)@.remaining_work() < old(self)@.remaining_work(),
            phase_rank(final(self)@.phase) >= phase_rank(old(self)@.phase),
    {
        match self.phase {
            HandshakePhase::AckProtoc => Step::Failed(HandshakeFailure::SendFailed),
            _ => {
                self.failures = self.failures + 1;
                if self.failures == MAX_FAILURES {
                    Step::Failed(HandshakeFailure::SendFailed)
                } else {
                    Step::Retry
                }
            },
        }
    }

    /// No answer came: the receive failed or timed out. The failure is
    /// counted and the handshake retries after the interval.
    pub fn on_receive_failed(&mut self) -> (step: Step)
        requires
            old(self)@.wf(),
            old(self)@.failures < MAX_FAILURES,
        ensures
            final(self)@.wf(),
            final(self)@ == (HandshakeView { failures: (old(self)@.failures + 1) as usize, ..old(self)@ }),
            step is Retry,
            final(self)@.remaining_work() < old(self)@.remaining_work(),
            phase_rank(final(self)@.phase) >= phase_rank(old(self)@.phase),
    {
        self.failures = self.failures + 1;
        Step::Retry
    }

    /// The remote answered with `response`. While agreeing on the version, an
    /// answer of the version's length is either our version, which moves on
    /// to the intro packet at once, or another version, which fails the
    /// handshake; an answer of another length counts as a failure. In the
    /// later phases the answer is to be decrypted first.
    pub fn on_response(&mut self, response: &[u8]) -> (step: Step)
        requires
            old(self)@.wf(),
            old(self)@.failures < MAX_FAILURES,
        ensures
            final(self)@.wf(),
            old(self)@.phase == HandshakePhase::Start ==> {
                if response@.len() == 2 {
                    if response@ == protoc_version_bytes() {
                        &&& final(self)@ == (HandshakeView { phase: HandshakePhase::SendIntroPacket, ..old(self)@ })
                        &&& step is Continue
                    } else {
                        &&& final(self)@ == old(self)@
                        &&& step matches Step::Failed(HandshakeFailure::ProtocolVersionMismatch(v))
                        &&& v@ == response@
                    }
                } else {
                    &&& final(self)@ == (HandshakeView { failures: (old(self)@.failures + 1) as usize, ..old(self)@ })
                    &&& step is Retry
                }
            },
            old(self)@.phase == HandshakePhase::SendIntroPacket ==> {
                &&& final(self)@ == old(self)@
                &&& step is DecryptIntroKey
            },
            old(self)@.phase == HandshakePhase::AckProtoc ==> {
                &&& final(self)@ == old(self)@
                &&& step is DecryptHello
            },
            step is Continue || step is Retry ==> final(self)@.remaining_work() < old(self)@.remaining_work(),
            phase_rank(final(self)@.phase) >= phase_rank(old(self)@.phase),
    {
        match self.phase {
            HandshakePhase::Start => {
                if response.len() == 2 {
                    let version: &[u8] = &PROTOC_VERSION;
                    proof {
                        assert(version@ =~= protoc_version_bytes());
                    }
                    if bytes_equal(response, version) {
                        self.phase = HandshakePhase::SendIntroPacket;
                        Step::Continue
                    } else {
                        let mut other: Vec<u8> = Vec::new();
                        let mut i: usize = 0;
                        while i < response.len()
                            invariant
                                i <= response@.len(),
                                other@ =~= response@.subrange(0, i as int),
                            decreases response@.len() - i,
                        {
                            other.push(response[i]);
                            i = i + 1;
                        }
                        proof {
                            assert(other@ =~= response@);
                        }
                        Step::Failed(HandshakeFailure::ProtocolVersionMismatch(other))
                    }
                } else {
                    self.failures = self.failures + 1;
                    Step::Retry
                }
            },
            HandshakePhase::SendIntroPacket => Step::DecryptIntroKey,
            HandshakePhase::AckProtoc => Step::DecryptHello,
        }
    }

    /// The remote's key packet, decrypted with our private key. A failed
    /// decryption, or a key that is not 16 bytes long, fails the handshake;
    /// otherwise the remote's cipher is kept and the handshake moves on to
    /// "hello", retrying after the interval.
    pub fn on_intro_key(&mut self, decrypted: Result<Vec<u8>, rsa::errors::Error>) -> (step: Step)
        requires
            old(self)@.wf(),
            old(self)@.phase == HandshakePhase::SendIntroPacket,
        ensures
            final(self)@.wf(),
            match decrypted {
                Err(e) => {
                    &&& final(self)@ == old(self)@
                    &&& step matches Step::Failed(HandshakeFailure::DecryptionFailed(f))
                    &&& f == e
                },
                Ok(key) => if key@.len() == 16 {
                    &&& final(self)@.phase == HandshakePhase::AckProtoc
                    &&& final(self)@.inbound_key matches Some(c)
                    &&& c.key() == key@
                    &&& final(self)@.failures == old(self)@.failures
                    &&& final(self)@.outbound_key_bytes == old(self)@.outbound_key_bytes
                    &&& final(self)@.outbound_key == old(self)@.outbound_key
                    &&& step is Retry
                } else {
                    &&& final(self)@ == old(self)@
                    &&& step matches Step::Failed(HandshakeFailure::InvalidSymmetricKey)
                },
            },
            step is Retry ==> final(self)@.remaining_work() < old(self)@.remaining_work(),
            phase_rank(final(self)@.phase) >= phase_rank(old(self)@.phase),
    {
        match decrypted {
            Err(e) => Step::Failed(HandshakeFailure::DecryptionFailed(e)),
            Ok(key_bytes) => match keyed_aes128(key_bytes.as_slice()) {
                Ok(key) => {
                    self.inbound_key = Some(key);
                    self.phase = HandshakePhase::AckProtoc;
                    Step::Retry
                },
                Err(_) => Step::Failed(HandshakeFailure::InvalidSymmetricKey),
            },
        }
    }

    /// The remote's answer to "hello", decrypted with its cipher: "hello"
    /// establishes the connection, anything else fails the handshake.
    pub fn on_hello(&self, decrypted: &[u8]) -> (step: Step)
        requires
            self@.wf(),
            self@.phase == HandshakePhase::AckProtoc,
        ensures
            decrypted@ == hello_bytes() ==> step is Established,
            decrypted@ != hello_bytes() ==> step matches Step::Failed(
                HandshakeFailure::UnrecognizedMessage,
            ),
    {
        let hello: &[u8] = &HELLO;
        proof {
            assert(hello@ =~= hello_bytes());
        }
        if bytes_equal(decrypted, hello) {
            Step::Established
        } else {
            Step::Failed(HandshakeFailure::UnrecognizedMessage)
        }
    }

    /// The failure reported when the attempts are used up.
    pub fn exhausted(&self) -> (f: HandshakeFailure)
        ensures
            f is MaxAttemptsReached,
    {
        HandshakeFailure::MaxAttemptsReached
    }

    /// Our cipher and the remote's, once both keys are known.
    pub fn into_keys(self) -> (keys: Option<(KeyedCipher, KeyedCipher)>)
        requires
            self@.wf(),
        ensures
            self@.phase == HandshakePhase::AckProtoc ==> keys == Some(
                (self@.outbound_key, self@.inbound_key.unwrap()),
            ),
            self@.phase != HandshakePhase::AckProtoc ==> keys is None,
    {
        match self.inbound_key {
            Some(inbound) => Some((self.outbound_key, inbound)),
            None => None,
        }
    }
}

} // verus!
