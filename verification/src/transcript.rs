//! The transcript reconstructor: given the per-direction lengths and a set of
//! disjoint disclosed byte ranges with their plaintext, rebuild byte
//! sequences of the original lengths in which every undisclosed position
//! holds a caller-chosen sentinel byte. Overlapping or out-of-bounds ranges
//! indicate a malformed or adversarial presentation and are rejected.

use vstd::prelude::*;

use crate::bytes::filled;

verus! {

/// One disclosed interval of a direction's transcript: the authentic
/// plaintext `data` occupies positions `start .. start + data.len()`.
pub struct DisclosedRange {
    pub start: usize,
    pub data: Vec<u8>,
}

/// Why a disclosure set was rejected.
#[derive(Clone, Copy, Debug, PartialEq, Eq, Structural)]
pub enum TranscriptError {
    /// A disclosed range reaches past the end of its direction's transcript.
    RangeOutOfBounds,
    /// Two disclosed ranges overlap.
    RangeOverlap,
}

/// The reconstructed transcript of a session: one byte sequence per
/// direction, redacted positions holding the sentinel.
#[derive(Debug)]
pub struct Transcript {
    pub sent: Vec<u8>,
    pub received: Vec<u8>,
}

/// The start positions of a disclosure set.
pub open spec fn starts_of(ds: Seq<DisclosedRange>) -> Seq<int> {
    ds.map_values(|d: DisclosedRange| d.start as int)
}

/// The plaintext of a disclosure set.
pub open spec fn datas_of(ds: Seq<DisclosedRange>) -> Seq<Seq<u8>> {
    ds.map_values(|d: DisclosedRange| d.data@)
}

/// Every range lies within a transcript of length `len`.
pub open spec fn ranges_within(starts: Seq<int>, datas: Seq<Seq<u8>>, len: int) -> bool {
    forall|i: int| 0 <= i < starts.len()
        ==> 0 <= #[trigger] starts[i] && starts[i] + datas[i].len() <= len
}

/// Ranges `i` and `j` do not overlap.
pub open spec fn pair_disjoint(
    starts: Seq<int>,
    datas: Seq<Seq<u8>>,
    i: int,
    j: int,
) -> bool {
    starts[i] + datas[i].len() <= starts[j] || starts[j] + datas[j].len() <= starts[i]
}

/// No two distinct ranges overlap.
pub open spec fn ranges_disjoint(starts: Seq<int>, datas: Seq<Seq<u8>>) -> bool {
    forall|i: int, j: int|
        0 <= i < starts.len() && 0 <= j < starts.len() && i != j
            ==> #[trigger] pair_disjoint(starts, datas, i, j)
}

/// A well-formed disclosure set for a transcript of length `len`.
pub open spec fn ranges_valid(starts: Seq<int>, datas: Seq<Seq<u8>>, len: int) -> bool {
    &&& ranges_within(starts, datas, len)
    &&& ranges_disjoint(starts, datas)
}

/// Position `p` falls in range `i`.
pub open spec fn in_range(starts: Seq<int>, datas: Seq<Seq<u8>>, i: int, p: int) -> bool {
    starts[i] <= p < starts[i] + datas[i].len()
}

/// Position `p` falls in one of the first `n` ranges.
pub open spec fn covered_upto(
    starts: Seq<int>,
    datas: Seq<Seq<u8>>,
    n: int,
    p: int,
) -> bool {
    exists|i: int| 0 <= i < n && #[trigger] in_range(starts, datas, i, p)
}

/// Position `p` is disclosed.
pub open spec fn covered(starts: Seq<int>, datas: Seq<Seq<u8>>, p: int) -> bool {
    covered_upto(starts, datas, starts.len() as int, p)
}

/// The disclosed byte at a covered position `p` (arbitrary elsewhere).
pub open spec fn disclosed_byte_at(starts: Seq<int>, datas: Seq<Seq<u8>>, p: int) -> u8 {
    let i = choose|i: int|
        0 <= i < starts.len() && #[trigger] in_range(starts, datas, i, p);
    datas[i][p - starts[i]]
}

/// The reconstruction of one direction: length `len`, disclosed positions
/// holding their plaintext, all others the sentinel.
pub open spec fn reconstructed(
    len: int,
    starts: Seq<int>,
    datas: Seq<Seq<u8>>,
    sentinel: u8,
) -> Seq<u8> {
    Seq::new(
        len as nat,
        |p: int|
            if covered(starts, datas, p) {
                disclosed_byte_at(starts, datas, p)
            } else {
                sentinel
            },
    )
}

/// With disjoint ranges, a position is covered by at most one range, so the
/// disclosed byte is the covering range's byte.
pub proof fn lemma_covered_byte(starts: Seq<int>, datas: Seq<Seq<u8>>, p: int, i: int)
    requires
        starts.len() == datas.len(),
        ranges_disjoint(starts, datas),
        0 <= i < starts.len(),
        in_range(starts, datas, i, p),
    ensures
        covered(starts, datas, p),
        disclosed_byte_at(starts, datas, p) == datas[i][p - starts[i]],
{
    assert(covered_upto(starts, datas, starts.len() as int, p));
    let c = choose|c: int|
        0 <= c < starts.len() && #[trigger] in_range(starts, datas, c, p);
    if c != i {
        assert(pair_disjoint(starts, datas, i, c));
        assert(false);
    }
}

/// Reconstruct one direction of a transcript.
///
/// Succeeds exactly when the disclosed ranges stay within bounds and are
/// pairwise disjoint; the result then holds each disclosed byte at its
/// position and the sentinel everywhere else.
pub fn reconstruct_direction(
    len: usize,
    discs: &Vec<DisclosedRange>,
    sentinel: u8,
) -> (r: Result<Vec<u8>, TranscriptError>)
    ensures
        r is Ok <==> ranges_valid(starts_of(discs@), datas_of(discs@), len as int),
        r matches Ok(out)
            ==> out@ == reconstructed(len as int, starts_of(discs@), datas_of(discs@), sentinel),
        r == Err::<Vec<u8>, TranscriptError>(TranscriptError::RangeOutOfBounds)
            <==> !ranges_within(starts_of(discs@), datas_of(discs@), len as int),
        r == Err::<Vec<u8>, TranscriptError>(TranscriptError::RangeOverlap)
            <==> ranges_within(starts_of(discs@), datas_of(discs@), len as int)
                && !ranges_disjoint(starts_of(discs@), datas_of(discs@)),
{
    let ghost starts = starts_of(discs@);
    let ghost datas = datas_of(discs@);
    let n = discs.len();

    let mut i: usize = 0;
    while i < n
        invariant
            n == discs@.len(),
            i <= n,
            starts == starts_of(discs@),
            datas == datas_of(discs@),
            forall|k: int| 0 <= k < i
                ==> 0 <= #[trigger] starts[k] && starts[k] + datas[k].len() <= len as int,
        decreases n - i,
    {
        let d = &discs[i];
        if d.start > len || d.data.len() > len - d.start {
            proof {
                assert(!(0 <= starts[i as int] && starts[i as int] + datas[i as int].len()
                    <= len as int));
            }
            return Err(TranscriptError::RangeOutOfBounds);
        }
        i = i + 1;
    }
    assert(ranges_within(starts, datas, len as int));

    let mut i: usize = 0;
    while i < n
        invariant
            n == discs@.len(),
            i <= n,
            starts == starts_of(discs@),
            datas == datas_of(discs@),
            ranges_within(starts, datas, len as int),
            forall|a: int, b: int| 0 <= a < i && a < b < n
                ==> #[trigger] pair_disjoint(starts, datas, a, b),
        decreases n - i,
    {
        let mut j: usize = i + 1;
        while j < n
            invariant
                n == discs@.len(),
                i < n,
                i < j <= n,
                starts == starts_of(discs@),
                datas == datas_of(discs@),
                ranges_within(starts, datas, len as int),
                forall|a: int, b: int| 0 <= a < i && a < b < n
                    ==> #[trigger] pair_disjoint(starts, datas, a, b),
                forall|b: int| i < b < j ==> #[trigger] pair_disjoint(starts, datas, i as int, b),
            decreases n - j,
        {
            let di = &discs[i];
            let dj = &discs[j];
            proof {
                assert(0 <= starts[i as int] && starts[i as int] + datas[i as int].len()
                    <= len as int);
                assert(0 <= starts[j as int] && starts[j as int] + datas[j as int].len()
                    <= len as int);
            }
            if !(di.start + di.data.len() <= dj.start || dj.start + dj.data.len() <= di.start) {
                proof {
                    assert(!pair_disjoint(starts, datas, i as int, j as int));
                }
                return Err(TranscriptError::RangeOverlap);
            }
            j = j + 1;
        }
        i = i + 1;
    }
    proof {
        assert forall|a: int, b: int|
            0 <= a < n && 0 <= b < n && a != b implies #[trigger] pair_disjoint(
            starts,
            datas,
            a,
            b,
        ) by {
            if a < b {
                assert(pair_disjoint(starts, datas, a, b));
            } else {
                assert(pair_disjoint(starts, datas, b, a));
            }
        }
        assert(ranges_disjoint(starts, datas));
    }

    let mut out = filled(len, sentinel);
    let mut i: usize = 0;
    while i < n
        invariant
            n == discs@.len(),
            i <= n,
            starts == starts_of(discs@),
            datas == datas_of(discs@),
            ranges_valid(starts, datas, len as int),
            out@.len() == len,
            forall|p: int| 0 <= p < len && covered_upto(starts, datas, i as int, p)
                ==> out@[p] == disclosed_byte_at(starts, datas, p),
            forall|p: int| 0 <= p < len && !covered_upto(starts, datas, i as int, p)
                ==> out@[p] == sentinel,
        decreases n - i,
    {
        let d = &discs[i];
        let ghost s_i = starts[i as int];
        let mut k: usize = 0;
        while k < d.data.len()
            invariant
                n == discs@.len(),
                i < n,
                starts == starts_of(discs@),
                datas == datas_of(discs@),
                d == discs@[i as int],
                s_i == starts[i as int],
                ranges_valid(starts, datas, len as int),
                out@.len() == len,
                k <= datas[i as int].len(),
                forall|p: int| 0 <= p < len && covered_upto(starts, datas, i as int, p)
                    ==> out@[p] == disclosed_byte_at(starts, datas, p),
                forall|p: int| s_i <= p < s_i + k
                    ==> out@[p] == datas[i as int][p - s_i],
                forall|p: int|
                    0 <= p < len && !covered_upto(starts, datas, i as int, p)
                        && !(s_i <= p < s_i + k)
                        ==> out@[p] == sentinel,
            decreases d.data.len() - k,
        {
            let idx = d.start + k;
            out.set(idx, d.data[k]);
            proof {
                let q = s_i + k;
                assert forall|p: int|
                    0 <= p < len && covered_upto(starts, datas, i as int, p)
                        implies out@[p] == disclosed_byte_at(starts, datas, p) by {
                    if p == q {
                        let a = choose|a: int|
                            0 <= a < i && #[trigger] in_range(starts, datas, a, p);
                        assert(pair_disjoint(starts, datas, a, i as int));
                        assert(false);
                    }
                }
            }
            k = k + 1;
        }
        proof {
            assert forall|p: int|
                0 <= p < len && covered_upto(starts, datas, i + 1, p)
                    implies out@[p] == disclosed_byte_at(starts, datas, p) by {
                if in_range(starts, datas, i as int, p) {
                    lemma_covered_byte(starts, datas, p, i as int);
                    assert(out@[p] == datas[i as int][p - s_i]);
                } else {
                    let a = choose|a: int|
                        0 <= a < i + 1 && #[trigger] in_range(starts, datas, a, p);
                    assert(in_range(starts, datas, a, p));
                    assert(a < i);
                    assert(covered_upto(starts, datas, i as int, p));
                }
            }
            assert forall|p: int|
                0 <= p < len && !covered_upto(starts, datas, i + 1, p)
                    implies out@[p] == sentinel by {
                if covered_upto(starts, datas, i as int, p) {
                    let a = choose|a: int|
                        0 <= a < i && #[trigger] in_range(starts, datas, a, p);
                    assert(0 <= a < i + 1 && in_range(starts, datas, a, p));
                    assert(false);
                }
                assert(!in_range(starts, datas, i as int, p));
            }
        }
        i = i + 1;
    }
    proof {
        assert(out@ =~= reconstructed(len as int, starts, datas, sentinel));
    }
    Ok(out)
}

/// Reconstruct both directions of a transcript: the sent direction is
/// checked first, and either direction's malformed disclosure set rejects
/// the whole transcript.
pub fn reconstruct_transcript(
    sent_len: usize,
    sent_discs: &Vec<DisclosedRange>,
    recv_len: usize,
    recv_discs: &Vec<DisclosedRange>,
    sentinel: u8,
) -> (r: Result<Transcript, TranscriptError>)
    ensures
        r is Ok <==> ranges_valid(starts_of(sent_discs@), datas_of(sent_discs@), sent_len as int)
            && ranges_valid(starts_of(recv_discs@), datas_of(recv_discs@), recv_len as int),
        r matches Ok(t) ==> t.sent@ == reconstructed(
            sent_len as int,
            starts_of(sent_discs@),
            datas_of(sent_discs@),
            sentinel,
        ) && t.received@ == reconstructed(
            recv_len as int,
            starts_of(recv_discs@),
            datas_of(recv_discs@),
            sentinel,
        ),
        !ranges_valid(starts_of(sent_discs@), datas_of(sent_discs@), sent_len as int)
            ==> (r == Err::<Transcript, TranscriptError>(TranscriptError::RangeOutOfBounds)
                <==> !ranges_within(starts_of(sent_discs@), datas_of(sent_discs@), sent_len as int)),
        ranges_valid(starts_of(sent_discs@), datas_of(sent_discs@), sent_len as int)
            ==> (r == Err::<Transcript, TranscriptError>(TranscriptError::RangeOutOfBounds)
                <==> !ranges_within(starts_of(recv_discs@), datas_of(recv_discs@), recv_len as int)),
{
    let sent = match reconstruct_direction(sent_len, sent_discs, sentinel) {
        Ok(v) => v,
        Err(e) => {
            return Err(e);
        }
    };
    let received = match reconstruct_direction(recv_len, recv_discs, sentinel) {
        Ok(v) => v,
        Err(e) => {
            return Err(e);
        }
    };
    Ok(Transcript { sent, received })
}

/// Law: a disclosure set that covers every position of the original buffer,
/// with plaintext matching the original at each position, reconstructs the
/// original buffer exactly.
pub proof fn lemma_full_disclosure_reconstructs(
    orig: Seq<u8>,
    starts: Seq<int>,
    datas: Seq<Seq<u8>>,
    sentinel: u8,
)
    requires
        starts.len() == datas.len(),
        ranges_valid(starts, datas, orig.len() as int),
        forall|p: int| 0 <= p < orig.len() ==> covered(starts, datas, p),
        forall|i: int, k: int| 0 <= i < datas.len() && 0 <= k < datas[i].len()
            ==> #[trigger] datas[i][k] == orig[starts[i] + k],
    ensures
        reconstructed(orig.len() as int, starts, datas, sentinel) == orig,
{
    let rec = reconstructed(orig.len() as int, starts, datas, sentinel);
    assert forall|p: int| 0 <= p < orig.len() implies rec[p] == orig[p] by {
        assert(covered(starts, datas, p));
        let c = choose|c: int|
            0 <= c < starts.len() && #[trigger] in_range(starts, datas, c, p);
        lemma_covered_byte(starts, datas, p, c);
        assert(datas[c][p - starts[c]] == orig[starts[c] + (p - starts[c])]);
    }
    assert(rec =~= orig);
}

/// Law: an empty disclosure set reconstructs to an all-sentinel buffer of
/// the original length.
pub proof fn lemma_no_disclosure_all_sentinel(
    len: int,
    starts: Seq<int>,
    datas: Seq<Seq<u8>>,
    sentinel: u8,
)
    requires
        starts.len() == 0,
        len >= 0,
    ensures
        reconstructed(len, starts, datas, sentinel).len() == len,
        forall|p: int| 0 <= p < len
            ==> reconstructed(len, starts, datas, sentinel)[p] == sentinel,
{
    assert forall|p: int| 0 <= p < len implies reconstructed(len, starts, datas, sentinel)[p]
        == sentinel by {
        assert(!covered(starts, datas, p));
    }
}

} // verus!
