//! Merging the curated package table with user-supplied additions and
//! subtracting user-supplied exclusions, with set semantics: a name appears
//! at most once in the result, and an excluded name never appears, whatever
//! its source.

use vstd::prelude::*;
use crate::names::{name_views, contains_name};
use crate::packages::{
    curated_dependencies, curated_dev_dependencies, curated_dependency_names,
    curated_dev_dependency_names,
};
use crate::render::{render_lines, join_lines};

verus! {

broadcast use vstd::seq_lib::group_seq_properties;

/// One merge step: `name` joins `acc` unless it is already present or excluded.
pub open spec fn resolve_step(
    acc: Seq<Seq<char>>,
    name: Seq<char>,
    exclude: Seq<Seq<char>>,
) -> Seq<Seq<char>> {
    if acc.contains(name) || exclude.contains(name) {
        acc
    } else {
        acc.push(name)
    }
}

/// Folds `names` into `acc` left to right, keeping first occurrences and
/// dropping excluded names.
pub open spec fn resolve_from(
    acc: Seq<Seq<char>>,
    names: Seq<Seq<char>>,
    exclude: Seq<Seq<char>>,
) -> Seq<Seq<char>>
    decreases names.len(),
{
    if names.len() == 0 {
        acc
    } else {
        resolve_from(resolve_step(acc, names[0], exclude), names.skip(1), exclude)
    }
}

/// The resolved name list: the curated names, then the custom additions,
/// first occurrences only, minus the exclusions.
pub open spec fn resolved_names(
    curated: Seq<Seq<char>>,
    custom: Seq<Seq<char>>,
    exclude: Seq<Seq<char>>,
) -> Seq<Seq<char>> {
    resolve_from(Seq::empty(), curated + custom, exclude)
}

/// Folding a concatenation is folding one list after the other.
pub proof fn lemma_resolve_from_concat(
    acc: Seq<Seq<char>>,
    left: Seq<Seq<char>>,
    right: Seq<Seq<char>>,
    exclude: Seq<Seq<char>>,
)
    ensures
        resolve_from(acc, left + right, exclude)
            == resolve_from(resolve_from(acc, left, exclude), right, exclude),
    decreases left.len(),
{
    if left.len() == 0 {
        assert(left + right =~= right);
    } else {
        assert((left + right)[0] == left[0]);
        assert((left + right).skip(1) =~= left.skip(1) + right);
        lemma_resolve_from_concat(resolve_step(acc, left[0], exclude), left.skip(1), right, exclude);
    }
}

/// A name stands in the fold's result exactly when it stood in the
/// accumulator already, or stands in the input and is not excluded.
pub proof fn lemma_resolve_from_contains(
    acc: Seq<Seq<char>>,
    names: Seq<Seq<char>>,
    exclude: Seq<Seq<char>>,
    name: Seq<char>,
)
    ensures
        resolve_from(acc, names, exclude).contains(name)
            <==> (acc.contains(name) || (names.contains(name) && !exclude.contains(name))),
    decreases names.len(),
{
    if names.len() == 0 {
        assert(names =~= Seq::<Seq<char>>::empty());
    } else {
        lemma_resolve_from_contains(resolve_step(acc, names[0], exclude), names.skip(1), exclude, name);
        assert(names.contains(names[0]));
        if names.contains(name) && name != names[0] {
            let k = choose|k: int| 0 <= k < names.len() && names[k] == name;
            assert(names.skip(1)[k - 1] == name);
        }
    }
}

/// The fold never introduces a duplicate.
pub proof fn lemma_resolve_from_no_duplicates(
    acc: Seq<Seq<char>>,
    names: Seq<Seq<char>>,
    exclude: Seq<Seq<char>>,
)
    requires
        acc.no_duplicates(),
    ensures
        resolve_from(acc, names, exclude).no_duplicates(),
    decreases names.len(),
{
    if names.len() > 0 {
        let stepped = resolve_step(acc, names[0], exclude);
        assert(stepped.no_duplicates());
        lemma_resolve_from_no_duplicates(stepped, names.skip(1), exclude);
    }
}

/// A name stands in the resolution exactly when some source supplies it and
/// the exclusion set does not name it. Exclusion applies uniformly: a curated
/// name, a custom-added one, and one named by both are all removed alike.
pub proof fn lemma_resolved_contains(
    curated: Seq<Seq<char>>,
    custom: Seq<Seq<char>>,
    exclude: Seq<Seq<char>>,
    name: Seq<char>,
)
    ensures
        resolved_names(curated, custom, exclude).contains(name)
            <==> ((curated.contains(name) || custom.contains(name)) && !exclude.contains(name)),
{
    lemma_resolve_from_contains(Seq::empty(), curated + custom, exclude, name);
}

/// The resolution holds each name at most once, however often the sources
/// repeat it: supplying a name both in the curated table and as a custom
/// addition yields a single entry.
pub proof fn lemma_resolved_no_duplicates(
    curated: Seq<Seq<char>>,
    custom: Seq<Seq<char>>,
    exclude: Seq<Seq<char>>,
)
    ensures
        resolved_names(curated, custom, exclude).no_duplicates(),
{
    lemma_resolve_from_no_duplicates(Seq::empty(), curated + custom, exclude);
}

/// Excluding a name that no source supplies changes nothing.
pub proof fn lemma_exclude_absent_is_noop(
    curated: Seq<Seq<char>>,
    custom: Seq<Seq<char>>,
    exclude: Seq<Seq<char>>,
    name: Seq<char>,
)
    requires
        !curated.contains(name),
        !custom.contains(name),
    ensures
        resolved_names(curated, custom, exclude.push(name))
            == resolved_names(curated, custom, exclude),
{
    lemma_exclude_noop_from(Seq::empty(), curated + custom, exclude, name);
}

proof fn lemma_exclude_noop_from(
    acc: Seq<Seq<char>>,
    names: Seq<Seq<char>>,
    exclude: Seq<Seq<char>>,
    name: Seq<char>,
)
    requires
        !names.contains(name),
    ensures
        resolve_from(acc, names, exclude.push(name)) == resolve_from(acc, names, exclude),
    decreases names.len(),
{
    if names.len() > 0 {
        assert(names.contains(names[0]));
        assert(!names.skip(1).contains(name)) by {
            if names.skip(1).contains(name) {
                let k = choose|k: int| 0 <= k < names.skip(1).len() && names.skip(1)[k] == name;
                assert(names[k + 1] == name);
            }
        }
        lemma_exclude_noop_from(
            resolve_step(acc, names[0], exclude),
            names.skip(1),
            exclude,
            name,
        );
    }
}

/// With nothing added and nothing excluded, a duplicate-free source list
/// resolves to itself, order included.
pub proof fn lemma_no_overrides_yields_curated(curated: Seq<Seq<char>>)
    requires
        curated.no_duplicates(),
    ensures
        resolved_names(curated, Seq::empty(), Seq::empty()) == curated,
{
    assert(curated + Seq::<Seq<char>>::empty() =~= curated);
    lemma_resolve_identity(Seq::empty(), curated);
}

/// With no custom additions and no exclusions — a missing or empty override
/// file — the normal flavor resolves to the curated table itself.
pub proof fn lemma_missing_override_yields_curated()
    ensures
        resolved_names(curated_dependency_names(), Seq::empty(), Seq::empty())
            == curated_dependency_names(),
{
    crate::packages::lemma_curated_dependency_names_no_duplicates();
    lemma_no_overrides_yields_curated(curated_dependency_names());
}

/// With no custom additions and no exclusions, the dev flavor resolves to
/// the curated dev table itself.
pub proof fn lemma_missing_override_yields_curated_dev()
    ensures
        resolved_names(curated_dev_dependency_names(), Seq::empty(), Seq::empty())
            == curated_dev_dependency_names(),
{
    crate::packages::lemma_curated_dev_dependency_names_no_duplicates();
    lemma_no_overrides_yields_curated(curated_dev_dependency_names());
}

proof fn lemma_resolve_identity(acc: Seq<Seq<char>>, names: Seq<Seq<char>>)
    requires
        acc.no_duplicates(),
        names.no_duplicates(),
        forall|k: int| 0 <= k < names.len() ==> !acc.contains(#[trigger] names[k]),
    ensures
        resolve_from(acc, names, Seq::empty()) == acc + names,
    decreases names.len(),
{
    if names.len() == 0 {
        assert(acc + names =~= acc);
    } else {
        let stepped = acc.push(names[0]);
        assert(!acc.contains(names[0]));
        assert(resolve_step(acc, names[0], Seq::empty()) == stepped);
        assert(stepped.no_duplicates());
        assert(forall|k: int|
            0 <= k < names.skip(1).len() ==> !stepped.contains(#[trigger] names.skip(1)[k]))
        by {
            assert forall|k: int|
                0 <= k < names.skip(1).len() implies !stepped.contains(#[trigger] names.skip(1)[k])
            by {
                assert(names.skip(1)[k] == names[k + 1]);
                assert(names[k + 1] != names[0]);
            }
        }
        lemma_resolve_identity(stepped, names.skip(1));
        assert(stepped + names.skip(1) =~= acc + names);
    }
}

/// Folds the strings of `names` into `acc`, keeping first occurrences and
/// dropping names that `exclude` lists.
fn resolve_into(acc: Vec<String>, names: &Vec<String>, exclude: &Vec<String>) -> (merged: Vec<String>)
    ensures
        name_views(merged@) == resolve_from(name_views(acc@), name_views(names@), name_views(exclude@)),
{
    let ghost initial: Seq<Seq<char>> = name_views(acc@);
    let ghost all: Seq<Seq<char>> = name_views(names@);
    let ghost excluded: Seq<Seq<char>> = name_views(exclude@);
    let mut acc = acc;
    let mut i: usize = 0;
    proof {
        assert(all.skip(0) =~= all);
    }
    while i < names.len()
        invariant
            i <= names@.len(),
            all == name_views(names@),
            excluded == name_views(exclude@),
            resolve_from(name_views(acc@), all.skip(i as int), excluded)
                == resolve_from(initial, all, excluded),
        decreases names@.len() - i,
    {
        let ghost before: Seq<Seq<char>> = name_views(acc@);
        proof {
            assert(all.skip(i as int)[0] == all[i as int]);
            assert(all.skip(i as int).skip(1) =~= all.skip(i as int + 1));
        }
        let name = &names[i];
        if !contains_name(&acc, name) && !contains_name(exclude, name) {
            acc.push(name.clone());
            proof {
                assert(name_views(acc@) =~= before.push(name@));
            }
        }
        proof {
            assert(name_views(acc@) == resolve_step(before, all[i as int], excluded));
        }
        i += 1;
    }
    proof {
        assert(all.skip(names@.len() as int) =~= Seq::<Seq<char>>::empty());
    }
    acc
}

/// The resolved name list as strings: `curated` and `custom` merged with set
/// semantics, minus `exclude`.
pub fn resolve_names(curated: &Vec<String>, custom: &Vec<String>, exclude: &Vec<String>) -> (resolved: Vec<String>)
    ensures
        name_views(resolved@)
            == resolved_names(name_views(curated@), name_views(custom@), name_views(exclude@)),
{
    let merged = resolve_into(Vec::new(), curated, exclude);
    let resolved = resolve_into(merged, custom, exclude);
    proof {
        assert(name_views(Seq::<String>::empty()) =~= Seq::<Seq<char>>::empty());
        lemma_resolve_from_concat(
            Seq::empty(),
            name_views(curated@),
            name_views(custom@),
            name_views(exclude@),
        );
    }
    resolved
}

/// The completion list for the normal dependency flavor: the curated
/// dependency table plus `custom`, minus `exclude`, one name per line.
pub fn return_dependencies(custom: &Vec<String>, exclude: &Vec<String>) -> (rendered: String)
    ensures
        rendered@ == join_lines(
            resolved_names(curated_dependency_names(), name_views(custom@), name_views(exclude@)),
        ),
{
    let curated = curated_dependencies();
    let resolved = resolve_names(&curated, custom, exclude);
    render_lines(&resolved)
}

/// The completion list for the dev dependency flavor: the curated dev
/// dependency table plus `custom`, minus `exclude`, one name per line.
pub fn return_dev_dependencies(custom: &Vec<String>, exclude: &Vec<String>) -> (rendered: String)
    ensures
        rendered@ == join_lines(
            resolved_names(curated_dev_dependency_names(), name_views(custom@), name_views(exclude@)),
        ),
{
    let curated = curated_dev_dependencies();
    let resolved = resolve_names(&curated, custom, exclude);
    render_lines(&resolved)
}

} // verus!
