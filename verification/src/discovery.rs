//! Which files count as exercises. A run is classified once into a project
//! shape from its root path; a candidate file is then kept or dropped by a
//! policy on its path and file name alone. The caller walks the directory
//! tree (best-effort, skipping unreadable entries) and hands the paths of the
//! regular files it met, in traversal order.

use vstd::prelude::*;

use crate::paths::has_component;
use crate::paths::path_has_component;
use crate::paths::spec_file_name;
use crate::paths::file_name_of;
use crate::text::contains_seq;
use crate::text::starts_with_seq;
use crate::text::str_contains;
use crate::text::str_eq;
use crate::text::str_starts_with;

verus! {

/// How a run's exercises are built and run: each exercise as an independent
/// single-file unit, or as test targets of one build-managed project.
#[derive(Clone, Copy, PartialEq, Eq, Structural, Debug)]
pub enum ProjectShape {
    Standalone,
    Managed,
}

/// The substring of a root path that marks a managed project.
pub open spec fn managed_marker() -> Seq<char> {
    "learning-lm-rs"@
}

/// The shape a root path classifies to: managed exactly when the marker
/// occurs in the path.
pub open spec fn spec_shape_of(root: Seq<char>) -> ProjectShape {
    if contains_seq(root, managed_marker()) {
        ProjectShape::Managed
    } else {
        ProjectShape::Standalone
    }
}

/// Classify a whole run once from its root path; the same shape then drives
/// both discovery and the run strategy.
pub fn classify_shape(root: &str) -> (s: ProjectShape)
    ensures
        s == spec_shape_of(root@),
{
    if str_contains(root, "learning-lm-rs") {
        ProjectShape::Managed
    } else {
        ProjectShape::Standalone
    }
}

/// The file name carries the exercise source extension: it ends in `.rs`
/// with a non-empty stem.
pub open spec fn spec_has_rs_extension(name: Seq<char>) -> bool {
    &&& name.len() >= 4
    &&& name[name.len() - 3] == '.'
    &&& name[name.len() - 2] == 'r'
    &&& name[name.len() - 1] == 's'
}

/// Whether `name` carries the exercise source extension.
pub fn has_rs_extension(name: &str) -> (r: bool)
    ensures
        r == spec_has_rs_extension(name@),
{
    let n = name.unicode_len();
    if n < 4 {
        return false;
    }
    name.get_char(n - 3) == '.' && name.get_char(n - 2) == 'r' && name.get_char(n - 1) == 's'
}

/// The discovery policy on one candidate path: no build-output component may
/// lie on the path, the file name must carry the source extension, and the
/// name must pass the shape's filter — under the managed shape only the two
/// known test-bearing file names are kept; under the standalone shape every
/// name is kept unless it bears one of the two reserved helper prefixes.
pub open spec fn spec_is_exercise(path: Seq<char>, shape: ProjectShape) -> bool {
    let name = spec_file_name(path);
    &&& !has_component(path, "target"@)
    &&& spec_has_rs_extension(name)
    &&& match shape {
        ProjectShape::Managed => name == "model.rs"@ || name == "operators.rs"@,
        ProjectShape::Standalone => !starts_with_seq(name, "test_"@) && !starts_with_seq(
            name,
            "helper_"@,
        ),
    }
}

/// Whether one candidate file path counts as an exercise under `shape`.
pub fn is_exercise_file(path: &str, shape: ProjectShape) -> (r: bool)
    ensures
        r == spec_is_exercise(path@, shape),
{
    proof {
        reveal_strlit("target");
    }
    if path_has_component(path, "target") {
        return false;
    }
    match file_name_of(path) {
        None => false,
        Some(name) => {
            if !has_rs_extension(name.as_str()) {
                return false;
            }
            match shape {
                ProjectShape::Managed => str_eq(name.as_str(), "model.rs") || str_eq(
                    name.as_str(),
                    "operators.rs",
                ),
                ProjectShape::Standalone => !str_starts_with(name.as_str(), "test_")
                    && !str_starts_with(name.as_str(), "helper_"),
            }
        },
    }
}

/// The paths the policy keeps, in input order.
pub open spec fn spec_selected(paths: Seq<Seq<char>>, shape: ProjectShape) -> Seq<Seq<char>>
    decreases paths.len(),
{
    if paths.len() == 0 {
        Seq::<Seq<char>>::empty()
    } else {
        let rest = spec_selected(paths.drop_last(), shape);
        if spec_is_exercise(paths.last(), shape) {
            rest.push(paths.last())
        } else {
            rest
        }
    }
}

/// The views of a sequence of strings.
pub open spec fn views_of(v: Seq<String>) -> Seq<Seq<char>> {
    v.map_values(|s: String| s@)
}

/// Select, in order, the candidate file paths that count as exercises under
/// `shape`. The caller passes the paths of the regular files met by its
/// directory walk.
pub fn find_exercise_files(paths: &Vec<String>, shape: ProjectShape) -> (r: Vec<String>)
    ensures
        views_of(r@) == spec_selected(views_of(paths@), shape),
{
    let mut out: Vec<String> = Vec::new();
    proof {
        assert(views_of(out@) =~= spec_selected(views_of(paths@).subrange(0, 0), shape));
    }
    let n = paths.len();
    let mut i: usize = 0;
    while i < n
        invariant
            n == paths@.len(),
            i <= n,
            views_of(out@) == spec_selected(views_of(paths@).subrange(0, i as int), shape),
        decreases n - i,
    {
        let ghost prev = out@;
        let p = &paths[i];
        if is_exercise_file(p.as_str(), shape) {
            out.push(p.clone());
            proof {
                assert(views_of(out@) =~= views_of(prev).push(p@));
            }
        }
        proof {
            let pv = views_of(paths@);
            assert(pv.subrange(0, i + 1).drop_last() =~= pv.subrange(0, i as int));
            assert(pv.subrange(0, i + 1).last() == pv[i as int]);
            assert(views_of(out@) =~= spec_selected(pv.subrange(0, i + 1), shape));
        }
        i += 1;
    }
    proof {
        assert(views_of(paths@).subrange(0, n as int) =~= views_of(paths@));
    }
    out
}

/// Every selected path satisfies the exercise policy.
pub proof fn lemma_selected_sound(paths: Seq<Seq<char>>, shape: ProjectShape)
    ensures
        forall|i: int|
            0 <= i < spec_selected(paths, shape).len() ==> spec_is_exercise(
                #[trigger] spec_selected(paths, shape)[i],
                shape,
            ),
    decreases paths.len(),
{
    if paths.len() > 0 {
        lemma_selected_sound(paths.drop_last(), shape);
        let rest = spec_selected(paths.drop_last(), shape);
        let sel = spec_selected(paths, shape);
        assert forall|i: int| 0 <= i < sel.len() implies spec_is_exercise(sel[i], shape) by {
            if i < rest.len() {
                assert(sel[i] == rest[i]);
            } else {
                assert(sel[i] == paths.last());
            }
        }
    }
}

/// Selection is exactly the policy filter: a path is selected if and only if
/// it is among the candidates and satisfies the exercise policy.
pub proof fn lemma_selected_iff(paths: Seq<Seq<char>>, shape: ProjectShape, p: Seq<char>)
    ensures
        spec_selected(paths, shape).contains(p) <==> paths.contains(p) && spec_is_exercise(
            p,
            shape,
        ),
    decreases paths.len(),
{
    if paths.len() == 0 {
    } else {
        lemma_selected_iff(paths.drop_last(), shape, p);
        assert(paths.contains(p) <==> paths.drop_last().contains(p) || paths.last() == p) by {
            if paths.contains(p) {
                let i = choose|i: int| 0 <= i < paths.len() && paths[i] == p;
                if i < paths.len() - 1 {
                    assert(paths.drop_last()[i] == p);
                }
            }
            if paths.drop_last().contains(p) {
                let i = choose|i: int| 0 <= i < paths.drop_last().len() && paths.drop_last()[i]
                    == p;
                assert(paths[i] == p);
            }
            if paths.last() == p {
                assert(paths[paths.len() - 1] == p);
            }
        }
        let rest = spec_selected(paths.drop_last(), shape);
        if spec_is_exercise(paths.last(), shape) {
            assert(spec_selected(paths, shape).contains(p) <==> rest.contains(p) || paths.last()
                == p) by {
                let sel = rest.push(paths.last());
                if sel.contains(p) {
                    let i = choose|i: int| 0 <= i < sel.len() && sel[i] == p;
                    if i < rest.len() {
                        assert(rest[i] == p);
                    }
                }
                if rest.contains(p) {
                    let i = choose|i: int| 0 <= i < rest.len() && rest[i] == p;
                    assert(sel[i] == p);
                }
                if paths.last() == p {
                    assert(sel[sel.len() - 1] == p);
                }
            }
        }
    }
}

/// Under the standalone shape, no selected file's name begins with either
/// reserved helper prefix, wherever such a file stands in the tree.
pub proof fn lemma_standalone_excludes_reserved(paths: Seq<Seq<char>>, i: int)
    requires
        0 <= i < spec_selected(paths, ProjectShape::Standalone).len(),
    ensures
        !starts_with_seq(
            spec_file_name(spec_selected(paths, ProjectShape::Standalone)[i]),
            "test_"@,
        ),
        !starts_with_seq(
            spec_file_name(spec_selected(paths, ProjectShape::Standalone)[i]),
            "helper_"@,
        ),
{
    lemma_selected_sound(paths, ProjectShape::Standalone);
}

/// Under the managed shape, a candidate is selected if and only if it lies
/// outside any build-output component, carries the source extension, and its
/// file name matches one of the two allow-list entries exactly.
pub proof fn lemma_managed_allowlist(paths: Seq<Seq<char>>, p: Seq<char>)
    ensures
        spec_selected(paths, ProjectShape::Managed).contains(p) <==> paths.contains(p)
            && !has_component(p, "target"@) && spec_has_rs_extension(spec_file_name(p)) && (
        spec_file_name(p) == "model.rs"@ || spec_file_name(p) == "operators.rs"@),
{
    lemma_selected_iff(paths, ProjectShape::Managed, p);
}

/// A candidate lying under the build-output directory segment is never
/// selected, at any depth and under either shape.
pub proof fn lemma_build_output_skipped(paths: Seq<Seq<char>>, shape: ProjectShape, p: Seq<char>)
    requires
        has_component(p, "target"@),
    ensures
        !spec_selected(paths, shape).contains(p),
{
    lemma_selected_iff(paths, shape, p);
}

} // verus!
