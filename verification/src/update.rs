//! Update checking and executable-version fallback: deciding whether a
//! local model file is behind the catalog, and which installed server
//! version to promote when the active one is gone.  The catalog requests
//! and the directory scans happen outside this crate.

use vstd::prelude::*;
use crate::models::HfMetadata;
use crate::models::UpdateCheckResult;
use crate::models::UpdateStatus;

verus! {

/// Records a link from a local model file to its catalog entry.
/// `linked_at` is the caller's clock, as ISO 8601 text.
pub fn link_model_to_hf(
    _model_path: &str,
    model_id: &str,
    filename: &str,
    linked_at: String,
) -> (r: Result<HfMetadata, String>)
    ensures
        match r {
            Ok(m) => {
                &&& m.model_id@ == model_id@
                &&& m.filename@ == filename@
                &&& m.commit_date is None
                &&& m.linked_at == linked_at
            },
            Err(_) => false,
        },
{
    Ok(
        HfMetadata {
            model_id: model_id.to_owned(),
            filename: filename.to_owned(),
            commit_date: None,
            linked_at,
        },
    )
}

/// A local file no older than an hour before the catalog commit counts as
/// current; the hour absorbs time-zone skew.
pub open spec fn spec_up_to_date_by_dates(local: i64, remote: i64) -> bool {
    local as int >= remote as int - 3600
}

/// Compares the local modification time with the catalog commit time.
pub fn classify_update_by_date(
    local_modification_date: i64,
    remote_timestamp: i64,
    local_date: Option<String>,
    remote_date: Option<String>,
) -> (r: UpdateCheckResult)
    ensures
        r.local_date == local_date,
        r.remote_date == remote_date,
        spec_up_to_date_by_dates(local_modification_date, remote_timestamp) ==> (
        r.status matches UpdateStatus::UpToDate) && r.message@ == "Model is up to date"@,
        !spec_up_to_date_by_dates(local_modification_date, remote_timestamp) ==> (
        r.status matches UpdateStatus::UpdateAvailable) && r.message@
            == "Update available on HuggingFace"@,
{
    let current: bool = if remote_timestamp >= i64::MIN + 3600 {
        local_modification_date >= remote_timestamp - 3600
    } else {
        true
    };
    if current {
        UpdateCheckResult {
            status: UpdateStatus::UpToDate,
            local_date,
            remote_date,
            message: "Model is up to date".to_owned(),
        }
    } else {
        UpdateCheckResult {
            status: UpdateStatus::UpdateAvailable,
            local_date,
            remote_date,
            message: "Update available on HuggingFace".to_owned(),
        }
    }
}

/// Falls back to a size comparison when the catalog gave no commit date.
pub fn classify_update_by_size(
    remote_size: Option<u64>,
    local_size: Option<u64>,
    local_date: Option<String>,
    remote_date: Option<String>,
) -> (r: UpdateCheckResult)
    ensures
        r.local_date == local_date,
        r.remote_date == remote_date,
        remote_size == local_size ==> (r.status matches UpdateStatus::UpToDate) && r.message@
            == "Model appears up to date (size match)"@,
        remote_size != local_size ==> (r.status matches UpdateStatus::UpdateAvailable)
            && r.message@ == "Update available (size differs)"@,
{
    let same = match (remote_size, local_size) {
        (Some(a), Some(b)) => a == b,
        (None, None) => true,
        _ => false,
    };
    if same {
        UpdateCheckResult {
            status: UpdateStatus::UpToDate,
            local_date,
            remote_date,
            message: "Model appears up to date (size match)".to_owned(),
        }
    } else {
        UpdateCheckResult {
            status: UpdateStatus::UpdateAvailable,
            local_date,
            remote_date,
            message: "Update available (size differs)".to_owned(),
        }
    }
}

/// The answer for a model that carries no catalog link at all.
pub fn not_linked_result() -> (r: UpdateCheckResult)
    ensures
        r.status matches UpdateStatus::NotLinked,
        r.local_date is None,
        r.remote_date is None,
        r.message@ == "Model not linked to HuggingFace. Click to link."@,
{
    UpdateCheckResult {
        status: UpdateStatus::NotLinked,
        local_date: None,
        remote_date: None,
        message: "Model not linked to HuggingFace. Click to link.".to_owned(),
    }
}

/// Lexicographic order on text.
pub open spec fn lex_lt(a: Seq<char>, b: Seq<char>) -> bool
    decreases a.len(),
{
    if b.len() == 0 {
        false
    } else if a.len() == 0 {
        true
    } else if a.first() < b.first() {
        true
    } else if a.first() > b.first() {
        false
    } else {
        lex_lt(a.drop_first(), b.drop_first())
    }
}

proof fn lemma_lex_total(a: Seq<char>, b: Seq<char>)
    ensures
        lex_lt(a, b) || lex_lt(b, a) || a == b,
    decreases a.len(),
{
    if a.len() > 0 && b.len() > 0 && a.first() == b.first() {
        lemma_lex_total(a.drop_first(), b.drop_first());
        if a.drop_first() == b.drop_first() {
            assert(a.len() == b.len());
            assert forall|k: int| 0 <= k < a.len() implies a[k] == b[k] by {
                if k > 0 {
                    assert(a.drop_first()[k - 1] == a[k]);
                    assert(b.drop_first()[k - 1] == b[k]);
                }
            }
            assert(a =~= b);
        }
    }
}

proof fn lemma_lex_trans(a: Seq<char>, b: Seq<char>, c: Seq<char>)
    requires
        lex_lt(a, b),
        lex_lt(b, c),
    ensures
        lex_lt(a, c),
    decreases a.len(),
{
    if a.len() > 0 && b.len() > 0 && c.len() > 0 && a.first() == b.first() && b.first()
        == c.first() {
        lemma_lex_trans(a.drop_first(), b.drop_first(), c.drop_first());
    }
}

/// One installed-version candidate comes before another: a known creation
/// time beats an unknown one, later creation beats earlier, and among
/// unknowns the lexicographically larger name wins.
pub open spec fn cand_before(a: (String, Option<i64>), b: (String, Option<i64>)) -> bool {
    match (a.1, b.1) {
        (Some(ta), Some(tb)) => ta > tb,
        (Some(_), None) => true,
        (None, Some(_)) => false,
        (None, None) => lex_lt(b.0@, a.0@),
    }
}

/// The candidate order is a total preorder: whatever beats the current
/// best also beats everything the best was no worse than.
proof fn lemma_cand_order(x: (String, Option<i64>), y: (String, Option<i64>), z: (
    String,
    Option<i64>,
))
    requires
        cand_before(x, y),
        !cand_before(z, y),
    ensures
        !cand_before(z, x),
{
    match (x.1, y.1, z.1) {
        (Option::None, Option::None, Option::None) => {
            lemma_lex_total(z.0@, x.0@);
            if lex_lt(x.0@, z.0@) {
                lemma_lex_trans(y.0@, x.0@, z.0@);
            }
        },
        _ => {},
    }
}

fn lex_lt_exec(a: &str, b: &str) -> (r: bool)
    ensures
        r == lex_lt(a@, b@),
{
    let na: usize = a.unicode_len();
    let nb: usize = b.unicode_len();
    proof {
        assert(a@.skip(0) =~= a@);
        assert(b@.skip(0) =~= b@);
    }
    let mut i: usize = 0;
    while i < na && i < nb
        invariant
            na == a@.len(),
            nb == b@.len(),
            i <= na,
            i <= nb,
            lex_lt(a@, b@) == lex_lt(a@.skip(i as int), b@.skip(i as int)),
        decreases na - i,
    {
        let ca = a.get_char(i);
        let cb = b.get_char(i);
        if ca < cb {
            proof {
                assert(a@.skip(i as int).first() == ca);
                assert(b@.skip(i as int).first() == cb);
            }
            return true;
        }
        if ca > cb {
            proof {
                assert(a@.skip(i as int).first() == ca);
                assert(b@.skip(i as int).first() == cb);
            }
            return false;
        }
        proof {
            assert(a@.skip(i as int).first() == ca);
            assert(b@.skip(i as int).first() == cb);
            assert(a@.skip(i as int).drop_first() =~= a@.skip(i + 1int));
            assert(b@.skip(i as int).drop_first() =~= b@.skip(i + 1int));
        }
        i = i + 1;
    }
    proof {
        assert(a@.skip(i as int).len() == na - i);
        assert(b@.skip(i as int).len() == nb - i);
    }
    i == na && i < nb
}

fn cand_before_exec(a: &(String, Option<i64>), b: &(String, Option<i64>)) -> (r: bool)
    ensures
        r == cand_before(*a, *b),
{
    match (&a.1, &b.1) {
        (Some(ta), Some(tb)) => *ta > *tb,
        (Some(_), None) => true,
        (None, Some(_)) => false,
        (None, None) => lex_lt_exec(b.0.as_str(), a.0.as_str()),
    }
}

/// Picks the installed version to promote: each candidate is a directory
/// name with its creation time, and the one picked is beaten by no other —
/// the most recently created, with name order breaking ties among unknowns.
pub fn select_latest_version(candidates: &Vec<(String, Option<i64>)>) -> (r: Option<usize>)
    ensures
        match r {
            Some(i) => i < candidates@.len() && forall|j: int|
                0 <= j < candidates@.len() ==> !cand_before(
                    #[trigger] candidates@[j],
                    candidates@[i as int],
                ),
            None => candidates@.len() == 0,
        },
{
    if candidates.len() == 0 {
        return None;
    }
    let mut best: usize = 0;
    proof {
        lemma_cand_irrefl(candidates@[0]);
    }
    let mut i: usize = 1;
    while i < candidates.len()
        invariant
            best < i <= candidates@.len(),
            forall|j: int|
                0 <= j < i ==> !cand_before(#[trigger] candidates@[j], candidates@[best as int]),
        decreases candidates@.len() - i,
    {
        if cand_before_exec(&candidates[i], &candidates[best]) {
            proof {
                assert forall|j: int|
                    0 <= j < i + 1 implies !cand_before(
                    #[trigger] candidates@[j],
                    candidates@[i as int],
                ) by {
                    if j < i {
                        lemma_cand_order(
                            candidates@[i as int],
                            candidates@[best as int],
                            candidates@[j],
                        );
                    } else {
                        lemma_cand_irrefl(candidates@[i as int]);
                    }
                }
            }
            best = i;
        }
        i = i + 1;
    }
    Some(best)
}

/// Nothing comes before itself.
proof fn lemma_cand_irrefl(a: (String, Option<i64>))
    ensures
        !cand_before(a, a),
{
    if a.1 is None {
        lemma_lex_irrefl(a.0@);
    }
}

proof fn lemma_lex_irrefl(a: Seq<char>)
    ensures
        !lex_lt(a, a),
    decreases a.len(),
{
    if a.len() > 0 {
        lemma_lex_irrefl(a.drop_first());
    }
}

} // verus!
