//! Boot-time sweep for orphaned partial-download artifacts: a crash leaves
//! `*.gguf.download` files behind, and exactly those are deleted.  The
//! directory walk and the deletions happen outside this crate; which names
//! are deleted is decided here.

use vstd::prelude::*;

verus! {

/// A leftover artifact of an interrupted download: its name ends, without
/// regard to case, in `.gguf.download` exactly.  A name with any other
/// suffix is not touched, even if it starts like a model name.
pub open spec fn spec_is_gguf_download(name: Seq<char>) -> bool {
    crate::text::is_suffix(crate::text::lower_seq(name), ".gguf.download"@)
}

/// Strictly checks whether a file name marks a partial model download.
pub fn is_gguf_download_file(name: &str) -> (r: bool)
    ensures
        r == spec_is_gguf_download(name@),
{
    let lower = crate::text::lower_str(name);
    crate::text::ends_with_str(lower.as_str(), ".gguf.download")
}

/// The names the sweep removes: exactly the partial-download artifacts,
/// in the order given.
pub open spec fn spec_leftover_downloads(names: Seq<Seq<char>>) -> Seq<Seq<char>> {
    names.filter(|n: Seq<char>| spec_is_gguf_download(n))
}

/// Picks the leftover partial-download files out of a directory listing.
/// The caller deletes what is returned and reports the count.
pub fn select_leftover_downloads(names: &Vec<String>) -> (r: Vec<String>)
    ensures
        r.deep_view() == spec_leftover_downloads(names.deep_view()),
        forall|j: int|
            0 <= j < r.deep_view().len() ==> spec_is_gguf_download(#[trigger] r.deep_view()[j]),
{
    let ghost all = names.deep_view();
    let mut r: Vec<String> = Vec::new();
    let mut i: usize = 0;
    proof {
        assert(all.take(0) =~= Seq::<Seq<char>>::empty());
        reveal(Seq::filter);
        assert(spec_leftover_downloads(all.take(0)) =~= Seq::<Seq<char>>::empty());
    }
    while i < names.len()
        invariant
            i <= names@.len(),
            all == names.deep_view(),
            all.len() == names@.len(),
            r.deep_view() == spec_leftover_downloads(all.take(i as int)),
        decreases names@.len() - i,
    {
        let ghost pre = r.deep_view();
        proof {
            assert(all.take(i + 1int).drop_last() =~= all.take(i as int));
            assert(all.take(i + 1int).last() == all[i as int]);
            assert(all[i as int] == names@[i as int]@);
            reveal(Seq::filter);
        }
        if is_gguf_download_file(names[i].as_str()) {
            r.push(names[i].clone());
            proof {
                assert(r.deep_view() =~= pre.push(all[i as int]));
            }
        }
        i = i + 1;
    }
    proof {
        assert(all.take(names@.len() as int) =~= all);
        broadcast use vstd::seq_lib::group_filter_ensures;
    }
    r
}

/// What the sweep removes is always an in-progress download artifact: its
/// name carries the reserved partial-download suffix.
pub proof fn lemma_sweep_targets_partial_artifacts(name: Seq<char>)
    requires
        spec_is_gguf_download(name),
    ensures
        crate::text::is_suffix(crate::text::lower_seq(name), crate::spec_partial_suffix()),
{
    reveal_strlit(".gguf.download");
    reveal_strlit(".download");
    let lower = crate::text::lower_seq(name);
    let long = ".gguf.download"@;
    let short = ".download"@;
    assert(forall|j: int|
        0 <= j < long.len() ==> lower[lower.len() - long.len() + j] == #[trigger] long[j]) by {
        assert(forall|j: int|
            0 <= j < long.len() ==> #[trigger] long[j] == lower.subrange(
                lower.len() - long.len(),
                lower.len() as int,
            )[j]);
    }
    assert forall|k: int|
        0 <= k < short.len() implies lower.subrange(
        lower.len() - short.len(),
        lower.len() as int,
    )[k] == short[k] by {
        assert(lower[lower.len() - long.len() + (k + 5)] == long[k + 5]);
        assert(long[k + 5] == short[k]);
    }
    assert(lower.subrange(lower.len() - short.len(), lower.len() as int) =~= short);
}

/// What the sweep leaves alone: every name it returns is an artifact, and
/// every artifact in the listing is returned — a name with any other
/// suffix survives the sweep.
pub proof fn lemma_sweep_exact(names: Seq<Seq<char>>, i: int)
    requires
        0 <= i < names.len(),
    ensures
        spec_is_gguf_download(names[i]) ==> spec_leftover_downloads(names).contains(names[i]),
        !spec_is_gguf_download(names[i]) ==> !spec_leftover_downloads(names).contains(names[i]),
{
    let f = |n: Seq<char>| spec_is_gguf_download(n);
    if f(names[i]) {
        names.lemma_filter_contains(f, i);
    } else {
        if spec_leftover_downloads(names).contains(names[i]) {
            let j = choose|j: int|
                0 <= j < names.filter(f).len() && names.filter(f)[j] == names[i];
            names.lemma_filter_pred(f, j);
        }
    }
}

} // verus!
