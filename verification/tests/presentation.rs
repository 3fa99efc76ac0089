use session_proof::crypto::TransparentProvider;
use session_proof::presentation::{
    encode_body, AttestationBody, Opening, Presentation, RangeCommitment, TranscriptCommitment,
    TranscriptProof, VerificationError, VerifyingKey,
};

const SENTINEL: u8 = b'X';
const KEY: &[u8] = b"notary-verifying-key";
const ALG: u64 = 7;

/// Build a presentation over a recorded session, committing to and opening
/// exactly the given ranges of each direction.
fn build_presentation(
    server_name: Option<&[u8]>,
    time: u64,
    sent: &[u8],
    sent_ranges: &[(usize, usize)],
    recv: &[u8],
    recv_ranges: &[(usize, usize)],
) -> Presentation {
    let commit = |full: &[u8], ranges: &[(usize, usize)]| -> Vec<RangeCommitment> {
        ranges
            .iter()
            .map(|&(start, end)| RangeCommitment {
                start,
                end,
                digest: full[start..end].to_vec(),
            })
            .collect()
    };
    let open_all = |full: &[u8], ranges: &[(usize, usize)]| -> Vec<Opening> {
        ranges
            .iter()
            .enumerate()
            .map(|(index, &(start, end))| Opening { index, data: full[start..end].to_vec() })
            .collect()
    };
    let body = AttestationBody {
        server_name: server_name.map(|n| n.to_vec()),
        time,
        transcript_commitment: Some(TranscriptCommitment {
            sent_len: sent.len(),
            recv_len: recv.len(),
            sent: commit(sent, sent_ranges),
            recv: commit(recv, recv_ranges),
        }),
    };
    let key = KEY.to_vec();
    let signature = TransparentProvider::sign(&key, &encode_body(&body));
    Presentation {
        verifying_key: VerifyingKey { alg: ALG, data: key },
        signature,
        body,
        transcript_proof: Some(TranscriptProof {
            sent_openings: open_all(sent, sent_ranges),
            recv_openings: open_all(recv, recv_ranges),
        }),
    }
}

fn sample_sent() -> Vec<u8> {
    (0..100u8).collect()
}

fn sample_recv() -> Vec<u8> {
    (0..200u16).map(|i| (i % 251) as u8).collect()
}

#[test]
fn end_to_end_partial_disclosure() {
    let t0 = 1_700_000_000u64;
    let sent = sample_sent();
    let recv = sample_recv();
    let presentation = build_presentation(
        Some(b"example.com"),
        t0,
        &sent,
        &[(40, 60)],
        &recv,
        &[(0, 200)],
    );
    let key = presentation.verifying_key();
    assert_eq!(key.alg, ALG);
    assert_eq!(key.data, KEY.to_vec());

    let out = presentation.verify(&TransparentProvider, SENTINEL).unwrap();
    assert_eq!(out.server_name, Some(b"example.com".to_vec()));
    assert_eq!(out.connection_info.time, t0);

    let transcript = out.transcript.unwrap();
    assert_eq!(transcript.sent.len(), 100);
    for p in 0..100 {
        if (40..60).contains(&p) {
            assert_eq!(transcript.sent[p], sent[p]);
        } else {
            assert_eq!(transcript.sent[p], SENTINEL);
        }
    }
    assert_eq!(transcript.received, recv);
}

#[test]
fn metadata_only_presentation_has_no_transcript() {
    let body = AttestationBody {
        server_name: None,
        time: 42,
        transcript_commitment: None,
    };
    let key = KEY.to_vec();
    let signature = TransparentProvider::sign(&key, &encode_body(&body));
    let presentation = Presentation {
        verifying_key: VerifyingKey { alg: ALG, data: key },
        signature,
        body,
        transcript_proof: None,
    };
    let out = presentation.verify(&TransparentProvider, SENTINEL).unwrap();
    assert_eq!(out.server_name, None);
    assert_eq!(out.connection_info.time, 42);
    assert!(out.transcript.is_none());
}

#[test]
fn committed_but_unopened_transcript_is_not_reconstructed() {
    let sent = sample_sent();
    let recv = sample_recv();
    let mut presentation =
        build_presentation(None, 1, &sent, &[(0, 10)], &recv, &[(0, 200)]);
    presentation.transcript_proof = None;
    let out = presentation.verify(&TransparentProvider, SENTINEL).unwrap();
    assert!(out.transcript.is_none());
}

#[test]
fn tampered_disclosed_bytes_are_rejected() {
    let sent = sample_sent();
    let recv = sample_recv();
    let mut presentation =
        build_presentation(Some(b"example.com"), 7, &sent, &[(40, 60)], &recv, &[(0, 200)]);
    // Supply different plaintext for the opened range than the bytes the
    // signature's commitments were computed over.
    if let Some(proof) = presentation.transcript_proof.as_mut() {
        proof.sent_openings[0].data[3] ^= 0x01;
    }
    let r = presentation.verify(&TransparentProvider, SENTINEL);
    assert_eq!(r.unwrap_err(), VerificationError::InvalidCommitment);
}

#[test]
fn tampered_commitment_breaks_the_signature() {
    let sent = sample_sent();
    let recv = sample_recv();
    let mut presentation =
        build_presentation(Some(b"example.com"), 7, &sent, &[(40, 60)], &recv, &[(0, 200)]);
    // Rewrite the committed digest to match altered plaintext, keeping the
    // old signature: now the signature no longer covers the body.
    if let Some(tc) = presentation.body.transcript_commitment.as_mut() {
        tc.sent[0].digest[3] ^= 0x01;
    }
    if let Some(proof) = presentation.transcript_proof.as_mut() {
        proof.sent_openings[0].data[3] ^= 0x01;
    }
    let r = presentation.verify(&TransparentProvider, SENTINEL);
    assert_eq!(r.unwrap_err(), VerificationError::InvalidSignature);
}

#[test]
fn wrong_key_is_rejected() {
    let sent = sample_sent();
    let recv = sample_recv();
    let mut presentation =
        build_presentation(None, 7, &sent, &[(0, 10)], &recv, &[(0, 10)]);
    presentation.verifying_key.data = b"some-other-key".to_vec();
    let r = presentation.verify(&TransparentProvider, SENTINEL);
    assert_eq!(r.unwrap_err(), VerificationError::InvalidSignature);
}

#[test]
fn opening_with_unknown_index_is_rejected() {
    let sent = sample_sent();
    let recv = sample_recv();
    let mut presentation = build_presentation(None, 7, &sent, &[(0, 10)], &recv, &[]);
    if let Some(proof) = presentation.transcript_proof.as_mut() {
        proof.sent_openings[0].index = 5;
    }
    let r = presentation.verify(&TransparentProvider, SENTINEL);
    assert_eq!(r.unwrap_err(), VerificationError::InvalidCommitment);
}

#[test]
fn opening_with_wrong_length_is_rejected() {
    let sent = sample_sent();
    let recv = sample_recv();
    let mut presentation = build_presentation(None, 7, &sent, &[(0, 10)], &recv, &[]);
    if let Some(proof) = presentation.transcript_proof.as_mut() {
        proof.sent_openings[0].data.push(0);
    }
    let r = presentation.verify(&TransparentProvider, SENTINEL);
    assert_eq!(r.unwrap_err(), VerificationError::InvalidCommitment);
}

#[test]
fn proof_without_commitment_is_rejected() {
    let sent = sample_sent();
    let recv = sample_recv();
    let mut presentation = build_presentation(None, 7, &sent, &[], &recv, &[]);
    presentation.body.transcript_commitment = None;
    let signature = TransparentProvider::sign(
        &presentation.verifying_key.data,
        &encode_body(&presentation.body),
    );
    presentation.signature = signature;
    let r = presentation.verify(&TransparentProvider, SENTINEL);
    assert_eq!(r.unwrap_err(), VerificationError::InvalidCommitment);
}

#[test]
fn overlapping_committed_ranges_are_rejected() {
    let sent = sample_sent();
    let recv = sample_recv();
    let presentation =
        build_presentation(None, 7, &sent, &[(0, 10), (5, 15)], &recv, &[(0, 200)]);
    let r = presentation.verify(&TransparentProvider, SENTINEL);
    assert_eq!(r.unwrap_err(), VerificationError::InvalidDisclosure);
}

#[test]
fn committed_range_past_the_transcript_is_rejected() {
    let sent = sample_sent();
    let recv = sample_recv();
    let mut presentation = build_presentation(None, 7, &sent, &[(90, 100)], &recv, &[]);
    if let Some(tc) = presentation.body.transcript_commitment.as_mut() {
        tc.sent_len = 95;
    }
    let signature = TransparentProvider::sign(
        &presentation.verifying_key.data,
        &encode_body(&presentation.body),
    );
    presentation.signature = signature;
    let r = presentation.verify(&TransparentProvider, SENTINEL);
    assert_eq!(r.unwrap_err(), VerificationError::InvalidDisclosure);
}

#[test]
fn full_disclosure_round_trips_both_directions() {
    let sent = sample_sent();
    let recv = sample_recv();
    let presentation =
        build_presentation(None, 9, &sent, &[(0, 100)], &recv, &[(0, 120), (120, 200)]);
    let out = presentation.verify(&TransparentProvider, SENTINEL).unwrap();
    let transcript = out.transcript.unwrap();
    assert_eq!(transcript.sent, sent);
    assert_eq!(transcript.received, recv);
}

#[test]
fn zero_disclosure_yields_all_sentinel_transcript() {
    let sent = sample_sent();
    let recv = sample_recv();
    let presentation = build_presentation(None, 9, &sent, &[], &recv, &[]);
    let out = presentation.verify(&TransparentProvider, SENTINEL).unwrap();
    let transcript = out.transcript.unwrap();
    assert_eq!(transcript.sent, vec![SENTINEL; 100]);
    assert_eq!(transcript.received, vec![SENTINEL; 200]);
}

#[test]
fn canonical_encoding_of_a_metadata_body() {
    let body = AttestationBody {
        server_name: Some(b"ab".to_vec()),
        time: 0x0102030405060708,
        transcript_commitment: None,
    };
    let mut expected: Vec<u8> = Vec::new();
    expected.extend_from_slice(&[0x08, 0x07, 0x06, 0x05, 0x04, 0x03, 0x02, 0x01]);
    expected.push(1);
    expected.extend_from_slice(&[2, 0, 0, 0, 0, 0, 0, 0]);
    expected.extend_from_slice(b"ab");
    expected.push(0);
    assert_eq!(encode_body(&body), expected);
}

#[test]
fn canonical_encoding_of_a_committed_body() {
    let body = AttestationBody {
        server_name: None,
        time: 5,
        transcript_commitment: Some(TranscriptCommitment {
            sent_len: 10,
            recv_len: 0,
            sent: vec![RangeCommitment { start: 2, end: 4, digest: b"zz".to_vec() }],
            recv: Vec::new(),
        }),
    };
    let mut expected: Vec<u8> = Vec::new();
    expected.extend_from_slice(&[5, 0, 0, 0, 0, 0, 0, 0]); // time
    expected.push(0); // no server name
    expected.push(1); // transcript commitment present
    expected.extend_from_slice(&[10, 0, 0, 0, 0, 0, 0, 0]); // sent_len
    expected.extend_from_slice(&[0, 0, 0, 0, 0, 0, 0, 0]); // recv_len
    expected.extend_from_slice(&[1, 0, 0, 0, 0, 0, 0, 0]); // one sent commitment
    expected.extend_from_slice(&[2, 0, 0, 0, 0, 0, 0, 0]); // start
    expected.extend_from_slice(&[4, 0, 0, 0, 0, 0, 0, 0]); // end
    expected.extend_from_slice(&[2, 0, 0, 0, 0, 0, 0, 0]); // digest length
    expected.extend_from_slice(b"zz"); // digest
    expected.extend_from_slice(&[0, 0, 0, 0, 0, 0, 0, 0]); // no recv commitments
    assert_eq!(encode_body(&body), expected);
}

#[test]
fn transparent_signature_is_key_then_message() {
    let sig = TransparentProvider::sign(&b"key".to_vec(), &b"message".to_vec());
    assert_eq!(sig, b"keymessage".to_vec());
}
