//! The reconciliation core: hold the recorded history against the
//! sorted candidate set, and compute what a run still has to apply.
//!
//! The walk mirrors how a run proceeds through the sorted candidates:
//! at each position the identity must decode as UTF-8; while positions
//! are covered by history, recorded identity and candidate identity
//! must agree exactly; past the history every body must decode as
//! UTF-8 and becomes one entry of the plan.  The first offence decides
//! the error.

use vstd::prelude::*;
use vstd::utf8::{decode_utf8, valid_utf8};

use crate::candidates::{cviews, Candidate, CandidateV};
use crate::errors::Error;
use crate::text::decode_bytes;

verus! {

/// The images of the recorded history rows.
pub open spec fn hviews(s: Seq<String>) -> Seq<Seq<char>> {
    Seq::new(s.len(), |i: int| s[i]@)
}

/// One migration that is still to be applied: identity and body, both
/// decoded.
#[derive(Debug)]
pub struct ApplyItem {
    pub path: String,
    pub content: String,
}

/// The mathematical image of an [`ApplyItem`].
#[verifier::ext_equal]
pub ghost struct ApplyItemV {
    pub path: Seq<char>,
    pub content: Seq<char>,
}

impl View for ApplyItem {
    type V = ApplyItemV;

    open spec fn view(&self) -> ApplyItemV {
        ApplyItemV { path: self.path@, content: self.content@ }
    }
}

/// Everything a run still has to do inside its transaction.
#[derive(Debug)]
pub struct Plan {
    /// The bookkeeping table must be created first (history was empty).
    pub create_table: bool,
    /// The new migrations, in application order.
    pub to_apply: Vec<ApplyItem>,
}

/// What a walk over the sorted candidates runs into first.
pub ghost enum WalkOutcome {
    /// Every position is in order.
    Clean,
    /// The identity at `pos` is not valid UTF-8.
    BadPath { pos: int },
    /// Position `pos` is covered by history but records a different
    /// identity.
    Mismatch { pos: int },
    /// The body of the new migration at `pos` is not valid UTF-8.
    BadContent { pos: int },
}

/// First offence at or after position `i` of a walk over the sorted
/// candidates `sc` against history `h`.
pub open spec fn walk_from(h: Seq<Seq<char>>, sc: Seq<CandidateV>, i: int) -> WalkOutcome
    decreases sc.len() - i,
{
    if i < 0 || i >= sc.len() {
        WalkOutcome::Clean
    } else if !valid_utf8(sc[i].path) {
        WalkOutcome::BadPath { pos: i }
    } else if i < h.len() && decode_utf8(sc[i].path) != h[i] {
        WalkOutcome::Mismatch { pos: i }
    } else if i >= h.len() && !valid_utf8(sc[i].content) {
        WalkOutcome::BadContent { pos: i }
    } else {
        walk_from(h, sc, i + 1)
    }
}

/// First offence of the whole walk.
pub open spec fn walk(h: Seq<Seq<char>>, sc: Seq<CandidateV>) -> WalkOutcome {
    walk_from(h, sc, 0)
}

/// The plan entries are exactly the candidates past the history, in
/// order, decoded.
pub open spec fn items_match(items: Seq<ApplyItem>, h: Seq<Seq<char>>, sc: Seq<CandidateV>) -> bool {
    forall|j: int|
        0 <= j < items.len() ==> items[j]@.path == decode_utf8(sc[h.len() + j].path)
            && items[j]@.content == decode_utf8(sc[h.len() + j].content)
}

/// What [`reconcile`] returns, pinned down by the walk's outcome.
pub open spec fn reconcile_ok(h: Seq<Seq<char>>, sc: Seq<CandidateV>, r: Result<
    Plan,
    Error,
>) -> bool {
    match walk(h, sc) {
        WalkOutcome::Clean => r matches Ok(p) && p.create_table == (h.len() == 0)
            && p.to_apply@.len() == sc.len() - h.len() && items_match(p.to_apply@, h, sc),
        WalkOutcome::BadPath { pos } => r matches Err(e) && e matches Error::InvalidMigrationPath(
            p,
        ) && p@ == sc[pos].path,
        WalkOutcome::Mismatch { pos } => r matches Err(e) && e matches Error::MissingMigration(s)
            && s@ == decode_utf8(sc[pos].path),
        WalkOutcome::BadContent { pos } => r matches Err(e)
            && e matches Error::InvalidMigrationContent(s) && s@ == decode_utf8(sc[pos].path),
    }
}

/// Copies a byte vector.
fn copy_bytes(v: &Vec<u8>) -> (r: Vec<u8>)
    ensures
        r@ == v@,
{
    let mut r: Vec<u8> = Vec::new();
    let mut i: usize = 0;
    while i < v.len()
        invariant
            i <= v@.len(),
            r@ == v@.subrange(0, i as int),
        decreases v@.len() - i,
    {
        r.push(v[i]);
        proof {
            assert(r@ =~= v@.subrange(0, i + 1));
        }
        i = i + 1;
    }
    proof {
        assert(r@ =~= v@);
    }
    r
}

/// Walks the sorted candidates against the recorded history and either
/// returns the plan for this run or the first offence as an error.
pub fn reconcile(history: &Vec<String>, sorted: &Vec<Candidate>) -> (r: Result<Plan, Error>)
    requires
        history@.len() <= sorted@.len(),
    ensures
        reconcile_ok(hviews(history@), cviews(sorted@), r),
{
    let ghost h = hviews(history@);
    let ghost sc = cviews(sorted@);
    let mut to_apply: Vec<ApplyItem> = Vec::new();
    let mut i: usize = 0;
    while i < sorted.len()
        invariant
            i <= sorted@.len(),
            history@.len() <= sorted@.len(),
            h == hviews(history@),
            sc == cviews(sorted@),
            walk(h, sc) == walk_from(h, sc, i as int),
            i <= h.len() ==> to_apply@.len() == 0,
            i > h.len() ==> to_apply@.len() == i - h.len(),
            items_match(to_apply@, h, sc),
        decreases sorted@.len() - i,
    {
        let c = &sorted[i];
        proof {
            assert(sc[i as int] == sorted@[i as int]@);
        }
        let decoded = decode_bytes(&c.path);
        match decoded {
            None => {
                assert(walk(h, sc) == (WalkOutcome::BadPath { pos: i as int }));
                return Err(Error::InvalidMigrationPath(copy_bytes(&c.path)));
            },
            Some(s) => {
                if i < history.len() {
                    let same = s.eq(&history[i]);
                    proof {
                        assert(h[i as int] == history@[i as int]@);
                    }
                    if !same {
                        assert(walk(h, sc) == (WalkOutcome::Mismatch { pos: i as int }));
                        return Err(Error::MissingMigration(s));
                    }
                } else {
                    match decode_bytes(&c.content) {
                        None => {
                            assert(walk(h, sc) == (WalkOutcome::BadContent { pos: i as int }));
                            return Err(Error::InvalidMigrationContent(s));
                        },
                        Some(body) => {
                            let ghost pre = to_apply@;
                            to_apply.push(ApplyItem { path: s, content: body });
                            proof {
                                assert(forall|j: int|
                                    0 <= j < pre.len() ==> to_apply@[j] == pre[j]);
                                assert(to_apply@[pre.len() as int]@.path == decode_utf8(
                                    sc[i as int].path,
                                ));
                            }
                        },
                    }
                }
                assert(walk_from(h, sc, i as int) == walk_from(h, sc, i + 1));
            },
        }
        i = i + 1;
    }
    assert(walk(h, sc) is Clean);
    Ok(Plan { create_table: history.len() == 0, to_apply })
}

/// Position `j` of the sorted candidates is in order against the
/// history: the identity decodes, a covered position records exactly
/// that identity, and a new position's body decodes.
pub open spec fn clean_at(h: Seq<Seq<char>>, sc: Seq<CandidateV>, j: int) -> bool {
    valid_utf8(sc[j].path) && (j < h.len() ==> h[j] == decode_utf8(sc[j].path)) && (j >= h.len()
        ==> valid_utf8(sc[j].content))
}

/// Prefix invariant: when the walk is clean, the recorded history
/// equals, identity by identity, the leading run of the sorted
/// candidate set.
pub proof fn lemma_prefix_invariant(h: Seq<Seq<char>>, sc: Seq<CandidateV>)
    requires
        h.len() <= sc.len(),
        walk(h, sc) is Clean,
    ensures
        forall|i: int| 0 <= i < h.len() ==> #[trigger] clean_at(h, sc, i),
        forall|i: int|
            0 <= i < h.len() ==> #[trigger] valid_utf8(sc[i].path) && h[i] == decode_utf8(
                sc[i].path,
            ),
{
    lemma_walk_clean_facts(h, sc, 0);
    assert forall|i: int|
        0 <= i < h.len() implies #[trigger] valid_utf8(sc[i].path) && h[i] == decode_utf8(
        sc[i].path,
    ) by {
        assert(clean_at(h, sc, i));
    }
}

/// A clean walk leaves only clean positions behind it.
proof fn lemma_walk_clean_facts(h: Seq<Seq<char>>, sc: Seq<CandidateV>, i: int)
    requires
        0 <= i,
        walk_from(h, sc, i) is Clean,
    ensures
        forall|j: int| i <= j < sc.len() ==> #[trigger] clean_at(h, sc, j),
    decreases sc.len() - i,
{
    if i < sc.len() {
        lemma_walk_clean_facts(h, sc, i + 1);
        assert(clean_at(h, sc, i));
    }
}

/// Clean positions make a clean walk.
proof fn lemma_walk_clean_conv(h: Seq<Seq<char>>, sc: Seq<CandidateV>, i: int)
    requires
        0 <= i,
        h.len() == sc.len(),
        forall|j: int| i <= j < sc.len() ==> #[trigger] clean_at(h, sc, j),
    ensures
        walk_from(h, sc, i) is Clean,
    decreases sc.len() - i,
{
    if i < sc.len() {
        lemma_walk_clean_conv(h, sc, i + 1);
        assert(clean_at(h, sc, i));
    }
}

/// Idempotence: a successful run extends the history by exactly the
/// identities it applied; against that extended history the same
/// candidate set walks cleanly with nothing left to apply, so a second
/// run performs no work.
pub proof fn lemma_idempotent(h: Seq<Seq<char>>, sc: Seq<CandidateV>)
    requires
        h.len() <= sc.len(),
        walk(h, sc) is Clean,
    ensures
        ({
            let applied = Seq::new(
                (sc.len() - h.len()) as nat,
                |j: int| decode_utf8(sc[h.len() + j].path),
            );
            let h2 = h + applied;
            h2.len() == sc.len() && walk(h2, sc) is Clean
        }),
{
    let applied = Seq::new(
        (sc.len() - h.len()) as nat,
        |j: int| decode_utf8(sc[h.len() + j].path),
    );
    let h2 = h + applied;
    lemma_walk_clean_facts(h, sc, 0);
    assert forall|j: int| 0 <= j < sc.len() implies #[trigger] clean_at(h2, sc, j) by {
        assert(clean_at(h, sc, j));
        if j < h.len() {
            assert(h2[j] == h[j]);
        } else {
            assert(h2[j] == applied[j - h.len()]);
        }
    }
    lemma_walk_clean_conv(h2, sc, 0);
}

} // verus!
