//! The presentation: an immutable signed bundle that selectively reveals
//! parts of a recorded TLS session, and its verifier.
//!
//! A presentation carries a verifying key, a signature over the canonical
//! encoding of the attestation body (connection metadata and the range
//! commitments over the full transcript), and, optionally, openings: the
//! disclosed ranges' plaintext. Verification checks the signature, checks
//! each opening against its committed digest, reconstructs the redacted
//! transcript, and returns the authenticated summary — or a typed error,
//! never a partial result. Verification success proves internal consistency
//! only: whether the embedded verifying key is *trusted* is a judgment the
//! caller must make for itself.

use vstd::prelude::*;

use crate::bytes::{bytes_eq, copy_bytes, push_bytes, push_u64_le, u64_le};
use crate::crypto::CryptoProvider;
use crate::crypto::TransparentProvider;
use crate::transcript::{
    datas_of, ranges_valid, reconstruct_transcript, reconstructed, starts_of, DisclosedRange,
    Transcript,
};

verus! {

/// The public key a presentation's signature is checked against, as shown to
/// a human before deciding to trust it: an algorithm identifier and the raw
/// key bytes.
#[derive(Debug)]
pub struct VerifyingKey {
    pub alg: u64,
    pub data: Vec<u8>,
}

/// Authenticated connection metadata: at minimum, the time at which the
/// connection was started, as seconds since the UNIX epoch.
#[derive(Debug)]
pub struct ConnectionInfo {
    pub time: u64,
}

/// A commitment to one byte range of a direction's transcript: the digest of
/// the plaintext at positions `start .. end`.
pub struct RangeCommitment {
    pub start: usize,
    pub end: usize,
    pub digest: Vec<u8>,
}

/// The committed shape of the full transcript: each direction's total length
/// and the committed ranges a prover may later choose to open.
pub struct TranscriptCommitment {
    pub sent_len: usize,
    pub recv_len: usize,
    pub sent: Vec<RangeCommitment>,
    pub recv: Vec<RangeCommitment>,
}

/// The signed payload of a presentation. Its canonical encoding
/// ([`body_bytes`]) is what the signature covers.
pub struct AttestationBody {
    /// The name of the server the session was held with, if disclosed.
    pub server_name: Option<Vec<u8>>,
    /// When the connection was started, as seconds since the UNIX epoch.
    pub time: u64,
    /// The transcript commitment, if the transcript was attested at all.
    pub transcript_commitment: Option<TranscriptCommitment>,
}

/// One opened commitment: the plaintext claimed for committed range number
/// `index` of its direction.
pub struct Opening {
    pub index: usize,
    pub data: Vec<u8>,
}

/// The disclosed plaintext of a presentation, one opening list per
/// direction. A presentation without one proves the metadata alone.
pub struct TranscriptProof {
    pub sent_openings: Vec<Opening>,
    pub recv_openings: Vec<Opening>,
}

/// A signed, portable proof that selectively reveals parts of a recorded
/// session. It never contains undisclosed plaintext.
pub struct Presentation {
    pub verifying_key: VerifyingKey,
    pub signature: Vec<u8>,
    pub body: AttestationBody,
    pub transcript_proof: Option<TranscriptProof>,
}

/// The verified result of a presentation: optional server name, connection
/// metadata, and the reconstructed transcript if one was disclosed. Fields
/// are optional because a presentation may selectively omit categories of
/// disclosure.
#[derive(Debug)]
pub struct PresentationOutput {
    pub server_name: Option<Vec<u8>>,
    pub connection_info: ConnectionInfo,
    pub transcript: Option<Transcript>,
}

/// Why a presentation was rejected. No partial output is ever returned
/// alongside one of these.
#[derive(Clone, Copy, Debug, PartialEq, Eq, Structural)]
pub enum VerificationError {
    /// The signature does not validate over the attestation body under the
    /// embedded verifying key.
    InvalidSignature,
    /// An opening does not match the signed commitments: its index names no
    /// committed range, its plaintext length does not fit that range, its
    /// digest differs, or the body commits to no transcript at all.
    InvalidCommitment,
    /// The opened ranges are malformed: out of the transcript's bounds or
    /// overlapping.
    InvalidDisclosure,
}

/// The canonical encoding of one range commitment.
pub open spec fn commitment_bytes(c: RangeCommitment) -> Seq<u8> {
    u64_le(c.start as u64) + u64_le(c.end as u64) + u64_le(c.digest@.len() as u64) + c.digest@
}

/// The canonical encoding of a commitment list, in order.
pub open spec fn commitment_seq_bytes(cs: Seq<RangeCommitment>) -> Seq<u8>
    decreases cs.len(),
{
    if cs.len() == 0 {
        Seq::<u8>::empty()
    } else {
        commitment_seq_bytes(cs.drop_last()) + commitment_bytes(cs.last())
    }
}

/// The canonical encoding of the optional server name.
pub open spec fn server_name_bytes(n: Option<Vec<u8>>) -> Seq<u8> {
    match n {
        None => seq![0u8],
        Some(v) => seq![1u8] + u64_le(v@.len() as u64) + v@,
    }
}

/// The canonical encoding of the optional transcript commitment.
pub open spec fn transcript_commitment_bytes(t: Option<TranscriptCommitment>) -> Seq<u8> {
    match t {
        None => seq![0u8],
        Some(tc) => seq![1u8] + u64_le(tc.sent_len as u64) + u64_le(tc.recv_len as u64)
            + u64_le(tc.sent@.len() as u64) + commitment_seq_bytes(tc.sent@)
            + u64_le(tc.recv@.len() as u64) + commitment_seq_bytes(tc.recv@),
    }
}

/// The canonical encoding of an attestation body: what the signature covers.
pub open spec fn body_bytes(b: AttestationBody) -> Seq<u8> {
    u64_le(b.time) + server_name_bytes(b.server_name) + transcript_commitment_bytes(
        b.transcript_commitment,
    )
}

/// Append the canonical encoding of one range commitment to `buf`.
fn push_commitment(buf: &mut Vec<u8>, c: &RangeCommitment)
    ensures
        final(buf)@ == old(buf)@ + commitment_bytes(*c),
{
    push_u64_le(buf, c.start as u64);
    push_u64_le(buf, c.end as u64);
    push_u64_le(buf, c.digest.len() as u64);
    push_bytes(buf, &c.digest);
    assert(buf@ =~= old(buf)@ + commitment_bytes(*c));
}

/// Append the canonical encoding of a commitment list to `buf`.
fn push_commitments(buf: &mut Vec<u8>, cs: &Vec<RangeCommitment>)
    ensures
        final(buf)@ == old(buf)@ + commitment_seq_bytes(cs@),
{
    let mut i: usize = 0;
    while i < cs.len()
        invariant
            i <= cs@.len(),
            buf@ == old(buf)@ + commitment_seq_bytes(cs@.subrange(0, i as int)),
        decreases cs@.len() - i,
    {
        push_commitment(buf, &cs[i]);
        proof {
            let pre = cs@.subrange(0, i as int);
            let post = cs@.subrange(0, i + 1);
            assert(post.drop_last() =~= pre);
            assert(post.last() == cs@[i as int]);
            assert(buf@ =~= old(buf)@ + commitment_seq_bytes(post));
        }
        i = i + 1;
    }
    proof {
        assert(cs@.subrange(0, cs@.len() as int) =~= cs@);
    }
}

/// Compute the canonical encoding of an attestation body. The signer and the
/// verifier both use this; a signature is checked over exactly these bytes.
pub fn encode_body(b: &AttestationBody) -> (r: Vec<u8>)
    ensures
        r@ == body_bytes(*b),
{
    let mut buf: Vec<u8> = Vec::new();
    push_u64_le(&mut buf, b.time);
    match &b.server_name {
        None => {
            buf.push(0u8);
            assert(buf@ =~= u64_le(b.time) + server_name_bytes(b.server_name));
        }
        Some(v) => {
            buf.push(1u8);
            push_u64_le(&mut buf, v.len() as u64);
            push_bytes(&mut buf, v);
            assert(buf@ =~= u64_le(b.time) + server_name_bytes(b.server_name));
        }
    }
    let ghost prefix = buf@;
    match &b.transcript_commitment {
        None => {
            buf.push(0u8);
            assert(buf@ =~= prefix + transcript_commitment_bytes(b.transcript_commitment));
        }
        Some(tc) => {
            buf.push(1u8);
            push_u64_le(&mut buf, tc.sent_len as u64);
            push_u64_le(&mut buf, tc.recv_len as u64);
            push_u64_le(&mut buf, tc.sent.len() as u64);
            push_commitments(&mut buf, &tc.sent);
            push_u64_le(&mut buf, tc.recv.len() as u64);
            push_commitments(&mut buf, &tc.recv);
            assert(buf@ =~= prefix + transcript_commitment_bytes(b.transcript_commitment));
        }
    }
    assert(buf@ =~= body_bytes(*b));
    buf
}

/// The start position of each opened range: that of its committed range.
pub open spec fn opening_starts(os: Seq<Opening>, cs: Seq<RangeCommitment>) -> Seq<int> {
    Seq::new(os.len(), |i: int| cs[os[i].index as int].start as int)
}

/// The plaintext of each opened range.
pub open spec fn opening_datas(os: Seq<Opening>) -> Seq<Seq<u8>> {
    Seq::new(os.len(), |i: int| os[i].data@)
}

/// Every opening names a committed range of its direction, fills exactly
/// that range, and digests to the committed digest.
pub open spec fn openings_ok<P: CryptoProvider>(
    provider: P,
    os: Seq<Opening>,
    cs: Seq<RangeCommitment>,
) -> bool {
    forall|i: int| 0 <= i < os.len() ==> {
        let o = #[trigger] os[i];
        &&& (o.index as int) < cs.len()
        &&& o.data@.len() == cs[o.index as int].end - cs[o.index as int].start
        &&& provider.digest_spec(o.data@) == cs[o.index as int].digest@
    }
}

/// The signature validates over the canonical attestation body under the
/// embedded verifying key.
pub open spec fn signature_accepted<P: CryptoProvider>(provider: P, p: Presentation) -> bool {
    provider.sig_ok_spec(
        p.verifying_key.alg,
        p.verifying_key.data@,
        body_bytes(p.body),
        p.signature@,
    )
}

/// Every opening of the transcript proof, if there is one, matches the
/// signed commitments.
pub open spec fn commitments_accepted<P: CryptoProvider>(
    provider: P,
    p: Presentation,
) -> bool {
    match p.transcript_proof {
        None => true,
        Some(tp) => match p.body.transcript_commitment {
            None => false,
            Some(tc) => openings_ok(provider, tp.sent_openings@, tc.sent@) && openings_ok(
                provider,
                tp.recv_openings@,
                tc.recv@,
            ),
        },
    }
}

/// The opened ranges of the transcript proof, if there is one, lie within
/// their direction's committed length and are pairwise disjoint.
pub open spec fn disclosure_accepted(p: Presentation) -> bool {
    match p.transcript_proof {
        None => true,
        Some(tp) => match p.body.transcript_commitment {
            None => false,
            Some(tc) => ranges_valid(
                opening_starts(tp.sent_openings@, tc.sent@),
                opening_datas(tp.sent_openings@),
                tc.sent_len as int,
            ) && ranges_valid(
                opening_starts(tp.recv_openings@, tc.recv@),
                opening_datas(tp.recv_openings@),
                tc.recv_len as int,
            ),
        },
    }
}

/// The whole acceptance condition of [`Presentation::verify`]: each gate in
/// turn, no partial success.
pub open spec fn accepts<P: CryptoProvider>(provider: P, p: Presentation) -> bool {
    &&& signature_accepted(provider, p)
    &&& commitments_accepted(provider, p)
    &&& disclosure_accepted(p)
}

/// Check one direction's openings against its committed ranges and turn
/// them into disclosed ranges for the transcript reconstructor.
fn check_openings<P: CryptoProvider>(
    provider: &P,
    os: &Vec<Opening>,
    cs: &Vec<RangeCommitment>,
) -> (r: Option<Vec<DisclosedRange>>)
    ensures
        r is Some <==> openings_ok(*provider, os@, cs@),
        r matches Some(ds) ==> starts_of(ds@) == opening_starts(os@, cs@) && datas_of(ds@)
            == opening_datas(os@),
{
    let mut ds: Vec<DisclosedRange> = Vec::new();
    let mut i: usize = 0;
    while i < os.len()
        invariant
            i <= os@.len(),
            ds@.len() == i,
            forall|k: int| 0 <= k < i ==> {
                let o = #[trigger] os@[k];
                &&& (o.index as int) < cs@.len()
                &&& o.data@.len() == cs@[o.index as int].end - cs@[o.index as int].start
                &&& provider.digest_spec(o.data@) == cs@[o.index as int].digest@
            },
            forall|k: int| 0 <= k < i ==> (#[trigger] ds@[k]).start as int
                == cs@[os@[k].index as int].start as int && ds@[k].data@ == os@[k].data@,
        decreases os@.len() - i,
    {
        let o = &os[i];
        if o.index >= cs.len() {
            proof {
                let bad = os@[i as int];
                assert(!((bad.index as int) < cs@.len()));
            }
            return None;
        }
        let c = &cs[o.index];
        if c.end < c.start || o.data.len() != c.end - c.start {
            proof {
                let bad = os@[i as int];
                assert(bad.data@.len()
                    != cs@[bad.index as int].end - cs@[bad.index as int].start);
            }
            return None;
        }
        let d = provider.digest(&o.data);
        if !bytes_eq(&d, &c.digest) {
            proof {
                let bad = os@[i as int];
                assert(provider.digest_spec(bad.data@) != cs@[bad.index as int].digest@);
            }
            return None;
        }
        ds.push(DisclosedRange { start: c.start, data: copy_bytes(&o.data) });
        i = i + 1;
    }
    proof {
        assert(starts_of(ds@) =~= opening_starts(os@, cs@));
        assert(datas_of(ds@) =~~= opening_datas(os@));
    }
    Some(ds)
}

impl Presentation {
    /// The verifying key embedded in the presentation, for inspection before
    /// the caller decides whether to trust it. Verification never makes that
    /// judgment.
    pub fn verifying_key(&self) -> (k: &VerifyingKey)
        ensures
            k == &self.verifying_key,
    {
        &self.verifying_key
    }

    /// Verify the presentation under `provider` and, on success, return the
    /// authenticated summary, with undisclosed transcript positions holding
    /// `sentinel`.
    ///
    /// Each gate is hard: an invalid signature, an opening that does not
    /// match the signed commitments, and a malformed set of opened ranges
    /// each reject the whole presentation, in that order of precedence, and
    /// no partial output is ever returned. Success proves internal
    /// consistency only — whether the embedded verifying key is trusted
    /// remains the caller's judgment.
    pub fn verify<P: CryptoProvider>(self, provider: &P, sentinel: u8) -> (r: Result<
        PresentationOutput,
        VerificationError,
    >)
        ensures
            r is Ok <==> accepts(*provider, self),
            r matches Ok(out) ==> out.server_name == self.body.server_name
                && out.connection_info.time == self.body.time,
            r matches Ok(out) ==> match (self.transcript_proof, self.body.transcript_commitment) {
                (Some(tp), Some(tc)) => out.transcript matches Some(t) && t.sent@
                    == reconstructed(
                    tc.sent_len as int,
                    opening_starts(tp.sent_openings@, tc.sent@),
                    opening_datas(tp.sent_openings@),
                    sentinel,
                ) && t.received@ == reconstructed(
                    tc.recv_len as int,
                    opening_starts(tp.recv_openings@, tc.recv@),
                    opening_datas(tp.recv_openings@),
                    sentinel,
                ),
                (Some(tp), None) => false,
                (None, _) => out.transcript is None,
            },
            r == Err::<PresentationOutput, VerificationError>(VerificationError::InvalidSignature)
                <==> !signature_accepted(*provider, self),
            r == Err::<PresentationOutput, VerificationError>(VerificationError::InvalidCommitment)
                <==> signature_accepted(*provider, self) && !commitments_accepted(
                *provider,
                self,
            ),
            r == Err::<PresentationOutput, VerificationError>(VerificationError::InvalidDisclosure)
                <==> signature_accepted(*provider, self) && commitments_accepted(*provider, self)
                    && !disclosure_accepted(self),
    {
        let Presentation { verifying_key, signature, body, transcript_proof } = self;
        let msg = encode_body(&body);
        let sig_ok = provider.verify_signature(verifying_key.alg, &verifying_key.data, &msg,
            &signature);
        if !sig_ok {
            return Err(VerificationError::InvalidSignature);
        }
        match transcript_proof {
            None => Ok(PresentationOutput {
                server_name: body.server_name,
                connection_info: ConnectionInfo { time: body.time },
                transcript: None,
            }),
            Some(tp) => {
                let AttestationBody { server_name, time, transcript_commitment } = body;
                match transcript_commitment {
                    None => Err(VerificationError::InvalidCommitment),
                    Some(tc) => {
                        let sent_ds = match check_openings(provider, &tp.sent_openings, &tc.sent) {
                            Some(v) => v,
                            None => {
                                return Err(VerificationError::InvalidCommitment);
                            }
                        };
                        let recv_ds = match check_openings(provider, &tp.recv_openings, &tc.recv) {
                            Some(v) => v,
                            None => {
                                return Err(VerificationError::InvalidCommitment);
                            }
                        };
                        match reconstruct_transcript(tc.sent_len, &sent_ds, tc.recv_len, &recv_ds,
                            sentinel) {
                            Ok(t) => Ok(PresentationOutput {
                                server_name,
                                connection_info: ConnectionInfo { time },
                                transcript: Some(t),
                            }),
                            Err(_) => Err(VerificationError::InvalidDisclosure),
                        }
                    }
                }
            }
        }
    }
}

/// Law: tamper detection. Under the transparent provider — whose digest is
/// injective — a presentation that reuses an accepted presentation's signed
/// body but supplies different plaintext for one of its sent openings is
/// rejected: the signature binds the committed digests, and the digests bind
/// the disclosed bytes.
pub proof fn lemma_tampered_disclosure_rejected(
    provider: TransparentProvider,
    p: Presentation,
    q: Presentation,
    i: int,
)
    requires
        accepts(provider, p),
        q.body == p.body,
        p.transcript_proof is Some,
        q.transcript_proof is Some,
        0 <= i < p.transcript_proof->Some_0.sent_openings@.len(),
        i < q.transcript_proof->Some_0.sent_openings@.len(),
        q.transcript_proof->Some_0.sent_openings@[i].index
            == p.transcript_proof->Some_0.sent_openings@[i].index,
        q.transcript_proof->Some_0.sent_openings@[i].data@
            != p.transcript_proof->Some_0.sent_openings@[i].data@,
    ensures
        !accepts(provider, q),
{
    let ptp = p.transcript_proof->Some_0;
    let qtp = q.transcript_proof->Some_0;
    let tc = p.body.transcript_commitment->Some_0;
    let po = ptp.sent_openings@[i];
    assert(openings_ok(provider, ptp.sent_openings@, tc.sent@));
    assert(provider.digest_spec(po.data@) == tc.sent@[po.index as int].digest@);
    if accepts(provider, q) {
        let qo = qtp.sent_openings@[i];
        assert(openings_ok(provider, qtp.sent_openings@, tc.sent@));
        assert(provider.digest_spec(qo.data@) == tc.sent@[qo.index as int].digest@);
        assert(po.data@ == tc.sent@[po.index as int].digest@);
        assert(qo.data@ == tc.sent@[po.index as int].digest@);
        assert(false);
    }
}

} // verus!
