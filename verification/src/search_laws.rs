//! Laws of searching: what each result holds, and that files can be searched
//! in batches.

use vstd::prelude::*;

use crate::search::{findings_of, grep_matching_lines, kept_results, reported_path, search_spec};

verus! {

/// Collecting results for two runs of files gives the results of the first
/// run followed by those of the second.
pub proof fn lemma_kept_results_concat(
    text: Seq<char>,
    paths1: Seq<Seq<char>>,
    found1: Seq<Seq<u64>>,
    paths2: Seq<Seq<char>>,
    found2: Seq<Seq<u64>>,
)
    requires
        paths1.len() == found1.len(),
        paths2.len() == found2.len(),
    ensures
        kept_results(text, paths1 + paths2, found1 + found2)
            == kept_results(text, paths1, found1) + kept_results(text, paths2, found2),
    decreases paths2.len(),
{
    if paths2.len() == 0 {
        assert(paths1 + paths2 =~= paths1);
        assert(found1 + found2 =~= found1);
        assert(kept_results(text, paths1, found1) + kept_results(text, paths2, found2)
            =~= kept_results(text, paths1, found1));
    } else {
        let p = paths1 + paths2;
        let f = found1 + found2;
        assert(p.drop_last() =~= paths1 + paths2.drop_last());
        assert(f.drop_last() =~= found1 + found2.drop_last());
        assert(p.last() == paths2.last());
        assert(f.last() == found2.last());
        lemma_kept_results_concat(text, paths1, found1, paths2.drop_last(), found2.drop_last());
        let a = kept_results(text, paths1, found1);
        let b = kept_results(text, paths2.drop_last(), found2.drop_last());
        if found2.last().len() > 0 {
            let e = (paths2.last(), findings_of(text, found2.last()));
            assert((a + b).push(e) =~= a + b.push(e));
        }
    }
}

/// Searching files one batch after another gives what searching them all at
/// once gives: each file's result depends on that file alone.
pub proof fn lemma_search_concat(
    text: Seq<char>,
    root_dir: Seq<char>,
    first: Seq<(Seq<char>, Seq<u8>)>,
    second: Seq<(Seq<char>, Seq<u8>)>,
)
    ensures
        search_spec(text, root_dir, first + second)
            == search_spec(text, root_dir, first) + search_spec(text, root_dir, second),
{
    let all = first + second;
    let paths = |s: Seq<(Seq<char>, Seq<u8>)>| Seq::new(s.len(), |i: int| crate::search::reported_path(s[i].0, root_dir));
    let lists = |s: Seq<(Seq<char>, Seq<u8>)>| Seq::new(s.len(), |i: int| crate::search::grep_matching_lines(text, s[i].1));
    assert(paths(all) =~= paths(first) + paths(second));
    assert(lists(all) =~= lists(first) + lists(second));
    lemma_kept_results_concat(text, paths(first), lists(first), paths(second), lists(second));
}

/// Each collected result is the entry of one file with at least one matching
/// line: its path, and a finding of `text` per matching line.
pub proof fn lemma_kept_results_entries(text: Seq<char>, paths: Seq<Seq<char>>, found: Seq<Seq<u64>>)
    requires
        paths.len() == found.len(),
    ensures
        forall|k: int| 0 <= k < kept_results(text, paths, found).len() ==> exists|j: int|
            0 <= j < paths.len() && (#[trigger] found[j]).len() > 0
                && #[trigger] kept_results(text, paths, found)[k] == (paths[j], findings_of(text, found[j])),
    decreases paths.len(),
{
    if paths.len() > 0 {
        let ps = paths.drop_last();
        let fs = found.drop_last();
        lemma_kept_results_entries(text, ps, fs);
        let rest = kept_results(text, ps, fs);
        let all = kept_results(text, paths, found);
        assert forall|k: int| 0 <= k < all.len() implies exists|j: int|
            0 <= j < paths.len() && (#[trigger] found[j]).len() > 0
                && #[trigger] all[k] == (paths[j], findings_of(text, found[j])) by {
            if k < rest.len() {
                assert(all[k] == rest[k]);
                let j = choose|j: int| 0 <= j < ps.len() && (#[trigger] fs[j]).len() > 0
                    && #[trigger] rest[k] == (ps[j], findings_of(text, fs[j]));
                assert(paths[j] == ps[j] && found[j] == fs[j]);
            } else {
                let n = paths.len() - 1;
                assert(paths[n] == paths.last() && found[n] == found.last());
            }
        }
    }
}

/// Every search result holds at least one finding, and every finding holds
/// the text searched for.
pub proof fn lemma_search_findings_hold_text(text: Seq<char>, root_dir: Seq<char>, files: Seq<(Seq<char>, Seq<u8>)>)
    ensures
        forall|k: int| 0 <= k < search_spec(text, root_dir, files).len()
            ==> (#[trigger] search_spec(text, root_dir, files)[k]).1.len() > 0,
        forall|k: int, m: int| 0 <= k < search_spec(text, root_dir, files).len()
            && 0 <= m < search_spec(text, root_dir, files)[k].1.len()
            ==> (#[trigger] search_spec(text, root_dir, files)[k].1[m]).1 == text,
{
    let paths = Seq::new(files.len(), |i: int| crate::search::reported_path(files[i].0, root_dir));
    let lists = Seq::new(files.len(), |i: int| crate::search::grep_matching_lines(text, files[i].1));
    lemma_kept_results_entries(text, paths, lists);
    let all = search_spec(text, root_dir, files);
    assert forall|k: int| 0 <= k < all.len() implies (#[trigger] all[k]).1.len() > 0 by {
        let j = choose|j: int| 0 <= j < paths.len() && (#[trigger] lists[j]).len() > 0
            && #[trigger] all[k] == (paths[j], findings_of(text, lists[j]));
    }
    assert forall|k: int, m: int| 0 <= k < all.len() && 0 <= m < all[k].1.len()
        implies (#[trigger] all[k].1[m]).1 == text by {
        let j = choose|j: int| 0 <= j < paths.len() && (#[trigger] lists[j]).len() > 0
            && #[trigger] all[k] == (paths[j], findings_of(text, lists[j]));
    }
}

/// The findings `f` hold exactly the lines `lines`, in order, each with `text`.
pub open spec fn findings_are(f: Seq<(u64, Seq<char>)>, text: Seq<char>, lines: Seq<u64>) -> bool {
    &&& f.len() == lines.len()
    &&& forall|m: int| 0 <= m < f.len() ==> #[trigger] f[m] == (lines[m], text)
}

/// Collecting misses no file: each file with at least one matching line has a
/// result with its path and exactly one finding of `text` per matching line,
/// in order.
pub proof fn lemma_kept_results_complete(text: Seq<char>, paths: Seq<Seq<char>>, found: Seq<Seq<u64>>, j: int)
    requires
        paths.len() == found.len(),
        0 <= j < paths.len(),
        found[j].len() > 0,
    ensures
        exists|g: int| 0 <= g < kept_results(text, paths, found).len()
            && (#[trigger] kept_results(text, paths, found)[g]).0 == paths[j]
            && findings_are(kept_results(text, paths, found)[g].1, text, found[j]),
    decreases paths.len(),
{
    let ps = paths.drop_last();
    let fs = found.drop_last();
    let n = paths.len() - 1;
    let rest = kept_results(text, ps, fs);
    let all = kept_results(text, paths, found);
    if j == n {
        assert(paths.last() == paths[j] && found.last() == found[j]);
        let g = rest.len() as int;
        assert(all[g] == (paths[j], findings_of(text, found[j])));
        assert(findings_are(all[g].1, text, found[j]));
    } else {
        assert(ps[j] == paths[j] && fs[j] == found[j]);
        lemma_kept_results_complete(text, ps, fs, j);
        let g = choose|g: int| 0 <= g < rest.len() && (#[trigger] rest[g]).0 == ps[j]
            && findings_are(rest[g].1, text, fs[j]);
        assert(all[g] == rest[g]);
    }
}

/// Collecting adds nothing: each result is that of a file with at least one
/// matching line, with its path and exactly one finding of `text` per
/// matching line, in order.
pub proof fn lemma_kept_results_sound(text: Seq<char>, paths: Seq<Seq<char>>, found: Seq<Seq<u64>>, g: int)
    requires
        paths.len() == found.len(),
        0 <= g < kept_results(text, paths, found).len(),
    ensures
        exists|j: int| 0 <= j < paths.len() && (#[trigger] found[j]).len() > 0
            && kept_results(text, paths, found)[g].0 == paths[j]
            && findings_are(kept_results(text, paths, found)[g].1, text, found[j]),
{
    lemma_kept_results_entries(text, paths, found);
    let all = kept_results(text, paths, found);
    let j = choose|j: int| 0 <= j < paths.len() && (#[trigger] found[j]).len() > 0
        && #[trigger] all[g] == (paths[j], findings_of(text, found[j]));
    assert(findings_are(all[g].1, text, found[j]));
}

/// Searching misses no file: each walked file whose whole contents hold a
/// matching line has a result with its reported path and exactly one finding
/// of `text` per line that grep matches in the whole file, in order.
pub proof fn lemma_search_complete(text: Seq<char>, root_dir: Seq<char>, files: Seq<(Seq<char>, Seq<u8>)>, i: int)
    requires
        0 <= i < files.len(),
        grep_matching_lines(text, files[i].1).len() > 0,
    ensures
        exists|g: int| 0 <= g < search_spec(text, root_dir, files).len()
            && (#[trigger] search_spec(text, root_dir, files)[g]).0 == reported_path(files[i].0, root_dir)
            && findings_are(search_spec(text, root_dir, files)[g].1, text, grep_matching_lines(text, files[i].1)),
{
    let paths = Seq::new(files.len(), |i: int| reported_path(files[i].0, root_dir));
    let lists = Seq::new(files.len(), |i: int| grep_matching_lines(text, files[i].1));
    assert(lists[i] == grep_matching_lines(text, files[i].1));
    assert(paths[i] == reported_path(files[i].0, root_dir));
    lemma_kept_results_complete(text, paths, lists, i);
    let all = kept_results(text, paths, lists);
    assert(search_spec(text, root_dir, files) == all);
    let g = choose|g: int| 0 <= g < all.len() && (#[trigger] all[g]).0 == paths[i]
        && findings_are(all[g].1, text, lists[i]);
    assert(search_spec(text, root_dir, files)[g] == all[g]);
}

/// Searching adds nothing: each result is that of a walked file whose whole
/// contents hold a matching line, with its reported path and exactly one
/// finding of `text` per line that grep matches in the whole file, in order.
pub proof fn lemma_search_sound(text: Seq<char>, root_dir: Seq<char>, files: Seq<(Seq<char>, Seq<u8>)>, g: int)
    requires
        0 <= g < search_spec(text, root_dir, files).len(),
    ensures
        exists|i: int| 0 <= i < files.len() && (#[trigger] grep_matching_lines(text, files[i].1)).len() > 0
            && search_spec(text, root_dir, files)[g].0 == reported_path(files[i].0, root_dir)
            && findings_are(search_spec(text, root_dir, files)[g].1, text, grep_matching_lines(text, files[i].1)),
{
    let paths = Seq::new(files.len(), |i: int| reported_path(files[i].0, root_dir));
    let lists = Seq::new(files.len(), |i: int| grep_matching_lines(text, files[i].1));
    lemma_kept_results_sound(text, paths, lists, g);
    let j = choose|j: int| 0 <= j < paths.len() && (#[trigger] lists[j]).len() > 0
        && kept_results(text, paths, lists)[g].0 == paths[j]
        && findings_are(kept_results(text, paths, lists)[g].1, text, lists[j]);
    assert(lists[j] == grep_matching_lines(text, files[j].1));
}

} // verus!
