//! The tree scanner.
//!
//! The scanner works on the files of a directory tree, each presented as a
//! path with its text and the text of any co-located monitoring sidecars.
//! Every file is tested against every pattern-to-parser pair of the
//! registry; every match runs that parser on the file and contributes one
//! parse outcome. Per-file parse failures are collected and the scan
//! continues, so one malformed recipe does not hide the rest.

use vstd::prelude::*;

use crate::recipes::{
    parse_result_view, parse_with, spec_parse_recipe, ParserKind, Recipe, RecipeError,
    RecipeErrorView, RecipeView,
};
use crate::registry::{spec_pattern_pairs, Registry};
use crate::sequences::lemma_vec_deep_view_push;

verus! {

/// Whether `pattern` is a valid glob pattern that matches `path`.
pub uninterp spec fn glob_match(pattern: Seq<char>, path: Seq<char>) -> bool;

/// Relies on `glob::Pattern::new` and `glob::Pattern::matches_path`: whether
/// `pattern` is a valid glob pattern matching the path named by `path`. The
/// result depends on the two strings alone.
#[verifier::external_body]
fn glob_matches(pattern: &str, path: &str) -> (b: bool)
    ensures
        b == glob_match(pattern@, path@),
{
    match glob::Pattern::new(pattern) {
        Ok(p) => p.matches_path(std::path::Path::new(path)),
        Err(_) => false,
    }
}

/// The mathematical value of a [`FileEntry`].
#[verifier::ext_equal]
pub ghost struct FileEntryView {
    pub path: Seq<char>,
    pub contents: Seq<char>,
    pub sidecar_yaml: Option<Seq<char>>,
    pub sidecar_yml: Option<Seq<char>>,
}

/// One file of the scanned tree: its path, its text, and the text of any
/// co-located `monitoring.yaml` and `monitoring.yml` sidecars.
#[derive(Debug, Clone)]
pub struct FileEntry {
    pub path: String,
    pub contents: String,
    pub sidecar_yaml: Option<String>,
    pub sidecar_yml: Option<String>,
}

impl View for FileEntry {
    type V = FileEntryView;

    open spec fn view(&self) -> FileEntryView {
        FileEntryView {
            path: self.path@,
            contents: self.contents@,
            sidecar_yaml: self.sidecar_yaml.deep_view(),
            sidecar_yml: self.sidecar_yml.deep_view(),
        }
    }
}

impl DeepView for FileEntry {
    type V = FileEntryView;

    open spec fn deep_view(&self) -> FileEntryView {
        self.view()
    }
}

/// What parsing `e` with parser `kind` yields.
pub open spec fn spec_entry_parse(e: FileEntryView) -> Result<RecipeView, RecipeErrorView> {
    spec_parse_recipe(e.path, e.contents, e.sidecar_yaml, e.sidecar_yml)
}

/// The parse outcomes one file contributes: one per pattern-to-parser pair
/// whose pattern matches the file's path, in pair order.
pub open spec fn spec_entry_results(
    pairs: Seq<(Seq<char>, ParserKind)>,
    e: FileEntryView,
) -> Seq<Result<RecipeView, RecipeErrorView>>
    decreases pairs.len(),
{
    if pairs.len() == 0 {
        Seq::empty()
    } else {
        let rest = spec_entry_results(pairs.drop_last(), e);
        if glob_match(pairs.last().0, e.path) {
            rest.push(spec_entry_parse(e))
        } else {
            rest
        }
    }
}

/// The parse outcomes of a whole scan: the concatenation of every file's
/// contributions, in file order.
pub open spec fn spec_scan_results(
    pairs: Seq<(Seq<char>, ParserKind)>,
    entries: Seq<FileEntryView>,
) -> Seq<Result<RecipeView, RecipeErrorView>>
    decreases entries.len(),
{
    if entries.len() == 0 {
        Seq::empty()
    } else {
        spec_scan_results(pairs, entries.drop_last()) + spec_entry_results(pairs, entries.last())
    }
}

/// The successful payloads of a sequence of outcomes, in order.
pub open spec fn result_oks<A, B>(rs: Seq<Result<A, B>>) -> Seq<A>
    decreases rs.len(),
{
    if rs.len() == 0 {
        Seq::empty()
    } else {
        match rs.last() {
            Ok(a) => result_oks(rs.drop_last()).push(a),
            Err(_) => result_oks(rs.drop_last()),
        }
    }
}

/// The failure payloads of a sequence of outcomes, in order.
pub open spec fn result_errs<A, B>(rs: Seq<Result<A, B>>) -> Seq<B>
    decreases rs.len(),
{
    if rs.len() == 0 {
        Seq::empty()
    } else {
        match rs.last() {
            Ok(_) => result_errs(rs.drop_last()),
            Err(b) => result_errs(rs.drop_last()).push(b),
        }
    }
}

/// The scan of concatenated file lists is the concatenation of their scans.
proof fn lemma_scan_results_concat(
    pairs: Seq<(Seq<char>, ParserKind)>,
    a: Seq<FileEntryView>,
    b: Seq<FileEntryView>,
)
    ensures
        spec_scan_results(pairs, a + b) == spec_scan_results(pairs, a) + spec_scan_results(
            pairs,
            b,
        ),
    decreases b.len(),
{
    if b.len() == 0 {
        assert(a + b =~= a);
        assert(spec_scan_results(pairs, b) =~= Seq::<Result<RecipeView, RecipeErrorView>>::empty());
        assert(spec_scan_results(pairs, a) + spec_scan_results(pairs, b) =~= spec_scan_results(
            pairs,
            a,
        ));
    } else {
        lemma_scan_results_concat(pairs, a, b.drop_last());
        assert((a + b).drop_last() =~= a + b.drop_last());
        assert((a + b).last() == b.last());
        assert(spec_scan_results(pairs, a) + spec_scan_results(pairs, b) =~= (spec_scan_results(
            pairs,
            a,
        ) + spec_scan_results(pairs, b.drop_last())) + spec_entry_results(pairs, b.last()));
    }
}

/// The scan is independent of traversal order: scanning the same files in
/// any order yields the same multiset of parse outcomes, and so the same
/// multiset of recipes: exactly one per file and matching pattern.
pub proof fn lemma_scan_order_independent(
    pairs: Seq<(Seq<char>, ParserKind)>,
    entries1: Seq<FileEntryView>,
    entries2: Seq<FileEntryView>,
)
    requires
        entries1.to_multiset() == entries2.to_multiset(),
    ensures
        spec_scan_results(pairs, entries1).to_multiset() == spec_scan_results(
            pairs,
            entries2,
        ).to_multiset(),
    decreases entries1.len(),
{
    broadcast use vstd::seq_lib::group_to_multiset_ensures;
    broadcast use vstd::multiset::group_multiset_axioms;

    if entries1.len() == 0 {
        assert(entries2.to_multiset().len() == 0);
        assert(entries2.len() == 0);
    } else {
        let x = entries1.last();
        assert(entries1 =~= entries1.drop_last().push(x));
        assert(entries1.to_multiset().count(x) > 0);
        assert(entries2.to_multiset().count(x) > 0);
        assert(entries2.contains(x));
        let j = choose|j: int| 0 <= j < entries2.len() && entries2[j] == x;
        vstd::seq_lib::to_multiset_remove(entries2, j);
        assert(entries1.drop_last().to_multiset() =~= entries2.remove(j).to_multiset());
        lemma_scan_order_independent(pairs, entries1.drop_last(), entries2.remove(j));
        // Decompose the second scan around position j.
        assert(entries2 =~= (entries2.take(j) + seq![x]) + entries2.skip(j + 1));
        assert(entries2.remove(j) =~= entries2.take(j) + entries2.skip(j + 1));
        lemma_scan_results_concat(pairs, entries2.take(j) + seq![x], entries2.skip(j + 1));
        lemma_scan_results_concat(pairs, entries2.take(j), seq![x]);
        lemma_scan_results_concat(pairs, entries2.take(j), entries2.skip(j + 1));
        let sx = seq![x];
        assert(sx.len() == 1);
        assert(sx.last() == x);
        assert(sx.drop_last() =~= Seq::<FileEntryView>::empty());
        assert(spec_scan_results(pairs, sx.drop_last()) =~= Seq::<
            Result<RecipeView, RecipeErrorView>,
        >::empty());
        assert(spec_scan_results(pairs, sx) == spec_scan_results(pairs, sx.drop_last())
            + spec_entry_results(pairs, x));
        assert(spec_scan_results(pairs, sx) =~= spec_entry_results(pairs, x));
        vstd::seq_lib::lemma_multiset_commutative(
            entries2.take(j) + seq![x],
            entries2.skip(j + 1),
        );
        vstd::seq_lib::lemma_multiset_commutative(entries2.take(j), seq![x]);
        vstd::seq_lib::lemma_multiset_commutative(
            spec_scan_results(pairs, entries2.take(j) + seq![x]),
            spec_scan_results(pairs, entries2.skip(j + 1)),
        );
        vstd::seq_lib::lemma_multiset_commutative(
            spec_scan_results(pairs, entries2.take(j)),
            spec_scan_results(pairs, seq![x]),
        );
        vstd::seq_lib::lemma_multiset_commutative(
            spec_scan_results(pairs, entries2.take(j)),
            spec_scan_results(pairs, entries2.skip(j + 1)),
        );
        // The first scan splits off its last file's contribution.
        assert(entries1.drop_last() + seq![x] =~= entries1);
        lemma_scan_results_concat(pairs, entries1.drop_last(), seq![x]);
        vstd::seq_lib::lemma_multiset_commutative(
            spec_scan_results(pairs, entries1.drop_last()),
            spec_scan_results(pairs, seq![x]),
        );
        assert(spec_scan_results(pairs, entries1).to_multiset() =~= spec_scan_results(
            pairs,
            entries2,
        ).to_multiset());
    }
}

/// What a scan yields: the recipes parsed from matching files, and the
/// per-file failures collected while the scan continued.
pub struct ScanOutcome {
    pub recipes: Vec<Recipe>,
    pub errors: Vec<RecipeError>,
}

/// Whether some pattern of the registry matches `path`.
pub open spec fn spec_path_matches_any(
    pairs: Seq<(Seq<char>, ParserKind)>,
    path: Seq<char>,
) -> bool {
    exists|i: int| 0 <= i < pairs.len() && glob_match(#[trigger] pairs[i].0, path)
}

/// Whether any registered pattern matches the path: the test the scanner
/// applies before a file's text is worth reading.
pub fn path_matches_any(registry: &Registry, path: &str) -> (b: bool)
    ensures
        b == spec_path_matches_any(spec_pattern_pairs(registry@), path@),
{
    let pairs = registry.patterns();
    let ghost pairs_v = spec_pattern_pairs(registry@);
    let n = pairs.len();
    let mut i: usize = 0;
    while i < n
        invariant
            0 <= i <= n,
            n == pairs@.len(),
            pairs.deep_view() == pairs_v,
            pairs_v == spec_pattern_pairs(registry@),
            forall|j: int| 0 <= j < i ==> !glob_match(#[trigger] pairs_v[j].0, path@),
        decreases n - i,
    {
        proof {
            assert(pairs_v[i as int] == pairs@[i as int].deep_view());
        }
        if glob_matches(pairs[i].0.as_str(), path) {
            proof {
                assert(glob_match(pairs_v[i as int].0, path@));
            }
            return true;
        }
        i += 1;
    }
    proof {
        assert(pairs_v.len() == n);
    }
    false
}

/// Scans the files of a tree: every file is tested against every
/// pattern-to-parser pair of the registry; every match contributes one parse
/// outcome. Recipes and per-file failures are collected in file order;
/// a file matching no pattern is skipped.
pub fn scan_files(registry: &Registry, entries: &Vec<FileEntry>) -> (out: ScanOutcome)
    ensures
        out.recipes.deep_view() == result_oks(
            spec_scan_results(spec_pattern_pairs(registry@), entries.deep_view()),
        ),
        out.errors.deep_view() == result_errs(
            spec_scan_results(spec_pattern_pairs(registry@), entries.deep_view()),
        ),
{
    let pairs = registry.patterns();
    let ghost pairs_v = spec_pattern_pairs(registry@);
    let ghost entries_v = entries.deep_view();
    let mut recipes: Vec<Recipe> = Vec::new();
    let mut errors: Vec<RecipeError> = Vec::new();
    let ghost mut acc: Seq<Result<RecipeView, RecipeErrorView>> = Seq::empty();
    let n = entries.len();
    let m = pairs.len();
    let mut i: usize = 0;
    proof {
        assert(acc =~= spec_scan_results(pairs_v, entries_v.take(0)));
    }
    while i < n
        invariant
            0 <= i <= n,
            n == entries@.len(),
            m == pairs@.len(),
            pairs.deep_view() == pairs_v,
            entries_v == entries.deep_view(),
            entries_v.len() == n,
            acc == spec_scan_results(pairs_v, entries_v.take(i as int)),
            recipes.deep_view() == result_oks(acc),
            errors.deep_view() == result_errs(acc),
        decreases n - i,
    {
        let entry = &entries[i];
        let ghost ev = entries_v[i as int];
        proof {
            assert(ev == entries@[i as int].deep_view());
        }
        let sy: Option<&str> = match &entry.sidecar_yaml {
            Some(s) => Some(s.as_str()),
            None => None,
        };
        let sm: Option<&str> = match &entry.sidecar_yml {
            Some(s) => Some(s.as_str()),
            None => None,
        };
        proof {
            assert(sy.deep_view() == ev.sidecar_yaml);
            assert(sm.deep_view() == ev.sidecar_yml);
        }
        let ghost acc_entry_start = acc;
        let mut j: usize = 0;
        while j < m
            invariant
                0 <= j <= m,
                m == pairs@.len(),
                pairs.deep_view() == pairs_v,
                ev == entries@[i as int].deep_view(),
                ev == entry.deep_view(),
                i < n,
                n == entries@.len(),
                sy.deep_view() == ev.sidecar_yaml,
                sm.deep_view() == ev.sidecar_yml,
                acc == acc_entry_start + spec_entry_results(pairs_v.take(j as int), ev),
                recipes.deep_view() == result_oks(acc),
                errors.deep_view() == result_errs(acc),
            decreases m - j,
        {
            proof {
                assert(pairs_v[j as int] == pairs@[j as int].deep_view());
            }
            if glob_matches(pairs[j].0.as_str(), entry.path.as_str()) {
                let r = parse_with(pairs[j].1, entry.path.as_str(), entry.contents.as_str(), sy, sm);
                let ghost rv = parse_result_view(r);
                proof {
                    assert(ev.path == entry.path@);
                    assert(ev.contents == entry.contents@);
                    assert(rv == spec_parse_recipe(
                        entry.path@,
                        entry.contents@,
                        sy.deep_view(),
                        sm.deep_view(),
                    ));
                    assert(rv == spec_entry_parse(ev));
                }
                match r {
                    Ok(rec) => {
                        let ghost prev = recipes;
                        let ghost prev_acc = acc;
                        proof {
                            acc = acc.push(rv);
                        }
                        recipes.push(rec);
                        proof {
                            lemma_vec_deep_view_push(recipes, prev, rec);
                            assert(acc.drop_last() =~= prev_acc);
                            assert(result_oks(acc) =~= result_oks(prev_acc).push(rec.deep_view()));
                            assert(result_errs(acc) =~= result_errs(prev_acc));
                        }
                    },
                    Err(e) => {
                        let ghost prev = errors;
                        let ghost prev_acc = acc;
                        proof {
                            acc = acc.push(rv);
                        }
                        errors.push(e);
                        proof {
                            lemma_vec_deep_view_push(errors, prev, e);
                            assert(acc.drop_last() =~= prev_acc);
                            assert(result_errs(acc) =~= result_errs(prev_acc).push(e.deep_view()));
                            assert(result_oks(acc) =~= result_oks(prev_acc));
                        }
                    },
                }
            }
            j += 1;
            proof {
                assert(pairs_v.take(j as int).drop_last() =~= pairs_v.take(j - 1));
                assert(pairs_v.take(j as int).last() == pairs_v[j - 1]);
                if glob_match(pairs_v[j - 1].0, ev.path) {
                    assert(spec_entry_results(pairs_v.take(j as int), ev) == spec_entry_results(
                        pairs_v.take(j - 1),
                        ev,
                    ).push(spec_entry_parse(ev)));
                    assert(acc =~= acc_entry_start + spec_entry_results(
                        pairs_v.take(j as int),
                        ev,
                    ));
                } else {
                    assert(spec_entry_results(pairs_v.take(j as int), ev) == spec_entry_results(
                        pairs_v.take(j - 1),
                        ev,
                    ));
                    assert(acc =~= acc_entry_start + spec_entry_results(
                        pairs_v.take(j as int),
                        ev,
                    ));
                }
            }
        }
        i += 1;
        proof {
            assert(pairs_v.take(m as int) =~= pairs_v);
            assert(entries_v.take(i as int).drop_last() =~= entries_v.take(i - 1));
            assert(entries_v.take(i as int).last() == ev);
            assert(acc =~= spec_scan_results(pairs_v, entries_v.take(i as int)));
        }
    }
    proof {
        assert(entries_v.take(n as int) =~= entries_v);
    }
    ScanOutcome { recipes, errors }
}

} // verus!
