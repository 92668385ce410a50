//! Candidate migration scripts and their authoritative ordering.
//!
//! A candidate's identity is its path, taken as raw bytes; candidates
//! are applied in ascending identity order no matter in which order the
//! caller supplies them.

use vstd::prelude::*;

use crate::order::{bytes_le, lemma_lex_le_antisymmetric, lemma_lex_le_total,
    lemma_lex_le_transitive, lex_le};

verus! {

broadcast use vstd::seq_lib::group_to_multiset_ensures, vstd::multiset::group_multiset_axioms;

/// One migration script as the caller hands it over: its identity and
/// its body, both as raw bytes (nothing is assumed about their
/// encoding yet).
#[derive(Debug)]
pub struct Candidate {
    pub path: Vec<u8>,
    pub content: Vec<u8>,
}

/// The mathematical image of a [`Candidate`].
#[verifier::ext_equal]
pub ghost struct CandidateV {
    pub path: Seq<u8>,
    pub content: Seq<u8>,
}

impl View for Candidate {
    type V = CandidateV;

    open spec fn view(&self) -> CandidateV {
        CandidateV { path: self.path@, content: self.content@ }
    }
}

/// The images of a sequence of candidates.
pub open spec fn cviews(s: Seq<Candidate>) -> Seq<CandidateV> {
    Seq::new(s.len(), |i: int| s[i]@)
}

/// Candidate order: by identity, lexicographically on the raw bytes.
pub open spec fn cand_le(a: CandidateV, b: CandidateV) -> bool {
    lex_le(a.path, b.path)
}

/// Ascending identity order.
pub open spec fn sorted_cands(s: Seq<CandidateV>) -> bool {
    forall|i: int, j: int| 0 <= i < j < s.len() ==> cand_le(s[i], s[j])
}

/// No two candidates share an identity.
pub open spec fn distinct_paths(s: Seq<CandidateV>) -> bool {
    forall|i: int, j: int| 0 <= i < j < s.len() ==> s[i].path != s[j].path
}

/// Sorts candidates into ascending identity order.  The result holds
/// exactly the candidates given, each exactly as often as it was given.
pub fn sort_candidates(input: Vec<Candidate>) -> (r: Vec<Candidate>)
    ensures
        sorted_cands(cviews(r@)),
        cviews(r@).to_multiset() == cviews(input@).to_multiset(),
{
    let ghost orig = cviews(input@);
    let mut rest = input;
    let mut out: Vec<Candidate> = Vec::new();
    while rest.len() > 0
        invariant
            sorted_cands(cviews(out@)),
            cviews(out@).to_multiset().add(cviews(rest@).to_multiset()) =~= orig.to_multiset(),
            forall|i: int, j: int|
                0 <= i < out@.len() && 0 <= j < rest@.len() ==> cand_le(
                    cviews(out@)[i],
                    cviews(rest@)[j],
                ),
        decreases rest@.len(),
    {
        let m = index_of_minimum(&rest);
        let ghost pre_out = cviews(out@);
        let ghost pre_rest = cviews(rest@);
        let ghost xv = cviews(rest@)[m as int];
        let x = rest.remove(m);
        out.push(x);
        proof {
            assert(cviews(out@) =~= pre_out.push(xv));
            assert(cviews(rest@) =~= pre_rest.remove(m as int));
            assert(cviews(out@).to_multiset().add(cviews(rest@).to_multiset())
                =~= orig.to_multiset());
            assert forall|i: int, j: int|
                0 <= i < out@.len() && 0 <= j < rest@.len() implies cand_le(
                cviews(out@)[i],
                cviews(rest@)[j],
            ) by {
                let rj = cviews(rest@)[j];
                assert(rj == if j < m { pre_rest[j] } else { pre_rest[j + 1] });
                if i < pre_out.len() {
                    assert(cand_le(pre_out[i], rj));
                } else {
                    assert(cviews(out@)[i] == xv);
                    assert(cand_le(xv, rj));
                }
            }
            assert(sorted_cands(cviews(out@))) by {
                assert(forall|i: int|
                    0 <= i < pre_out.len() ==> cviews(out@)[i] == pre_out[i]);
            }
        }
    }
    out
}

/// Index of a least candidate of a non-empty vector.
fn index_of_minimum(v: &Vec<Candidate>) -> (m: usize)
    requires
        v@.len() > 0,
    ensures
        m < v@.len(),
        forall|k: int| 0 <= k < v@.len() ==> cand_le(cviews(v@)[m as int], cviews(v@)[k]),
{
    let mut m: usize = 0;
    let mut j: usize = 1;
    proof {
        lemma_lex_le_total(v@[0]@.path, v@[0]@.path);
    }
    while j < v.len()
        invariant
            m < j <= v@.len(),
            forall|k: int| 0 <= k < j ==> cand_le(cviews(v@)[m as int], cviews(v@)[k]),
        decreases v@.len() - j,
    {
        if bytes_le(&v[j].path, &v[m].path) {
            proof {
                assert forall|k: int| 0 <= k < j implies cand_le(
                    cviews(v@)[j as int],
                    cviews(v@)[k],
                ) by {
                    assert(cviews(v@)[j as int] == v@[j as int]@);
                    assert(cviews(v@)[m as int] == v@[m as int]@);
                    assert(cviews(v@)[k] == v@[k]@);
                    assert(cand_le(cviews(v@)[m as int], cviews(v@)[k]));
                    lemma_lex_le_transitive(v@[j as int]@.path, v@[m as int]@.path, v@[k]@.path);
                }
                lemma_lex_le_total(v@[j as int]@.path, v@[j as int]@.path);
            }
            m = j;
        } else {
            proof {
                lemma_lex_le_total(v@[j as int]@.path, v@[m as int]@.path);
            }
        }
        j = j + 1;
    }
    m
}

/// Ordering determinism: a sorted arrangement of candidates with
/// pairwise distinct identities is unique, so any two ways of handing
/// the same candidates over lead to the very same application order.
pub proof fn lemma_sorted_permutation_unique(a: Seq<CandidateV>, b: Seq<CandidateV>)
    requires
        sorted_cands(a),
        sorted_cands(b),
        distinct_paths(a),
        a.to_multiset() == b.to_multiset(),
    ensures
        a == b,
    decreases a.len(),
{
    assert(a.to_multiset().len() == a.len());
    assert(b.to_multiset().len() == b.len());
    if a.len() == 0 {
        assert(a =~= b);
    } else {
        assert(b.to_multiset().contains(a[0]));
        assert(b.contains(a[0]));
        let k = choose|k: int| 0 <= k < b.len() && b[k] == a[0];
        assert(a.to_multiset().contains(b[0]));
        assert(a.contains(b[0]));
        let l = choose|l: int| 0 <= l < a.len() && a[l] == b[0];
        if k > 0 {
            assert(cand_le(b[0], b[k]));
        } else {
            lemma_lex_le_total(b[0].path, b[0].path);
        }
        if l > 0 {
            assert(cand_le(a[0], a[l]));
        } else {
            lemma_lex_le_total(a[0].path, a[0].path);
        }
        lemma_lex_le_antisymmetric(a[0].path, b[0].path);
        // distinct identities force the matching element to sit at the front
        if l > 0 {
            assert(a[0].path == a[l].path);
            assert(false);
        }
        assert(a[0] == b[0]);
        let a1 = a.remove(0);
        let b1 = b.remove(0);
        assert(a1.to_multiset() =~= b1.to_multiset()) by {
            assert(a.remove(0).to_multiset() =~= a.to_multiset().remove(a[0]));
            assert(b.remove(0).to_multiset() =~= b.to_multiset().remove(b[0]));
        }
        assert(sorted_cands(a1) && distinct_paths(a1)) by {
            assert(forall|i: int| 0 <= i < a1.len() ==> a1[i] == a[i + 1]);
        }
        assert(sorted_cands(b1)) by {
            assert(forall|i: int| 0 <= i < b1.len() ==> b1[i] == b[i + 1]);
        }
        lemma_sorted_permutation_unique(a1, b1);
        assert(a =~= b) by {
            assert(forall|i: int|
                1 <= i < a.len() ==> a[i] == a1[i - 1] && b[i] == b1[i - 1]);
        }
    }
}

} // verus!
