//! Listing the package names physically present in an installed-modules
//! directory: one level of package directories, two levels for scope
//! directories, whose entries are reconstructed as `scope/name`.

use vstd::prelude::*;
use crate::names::name_views;
use crate::render::{render_lines, join_lines};

verus! {

/// An immediate child of a scope directory.
pub struct ScopedEntry {
    pub name: String,
    pub is_dir: bool,
}

/// An immediate child of the modules root. For a scope directory (a
/// directory whose name starts with `@`), `entries` holds its own immediate
/// children; for any other child it is ignored.
pub struct ModuleEntry {
    pub name: String,
    pub is_dir: bool,
    pub entries: Vec<ScopedEntry>,
}

/// A hidden entry: its name starts with `.`.
pub open spec fn hidden_name(name: Seq<char>) -> bool {
    name.len() > 0 && name[0] == '.'
}

/// A scope directory's name: it starts with `@`.
pub open spec fn scope_name(name: Seq<char>) -> bool {
    name.len() > 0 && name[0] == '@'
}

/// The names a scope directory contributes: `scope/name` for each child
/// directory, in order; non-directories contribute nothing.
pub open spec fn scoped_names(scope: Seq<char>, entries: Seq<ScopedEntry>) -> Seq<Seq<char>>
    decreases entries.len(),
{
    if entries.len() == 0 {
        Seq::empty()
    } else {
        let rest = scoped_names(scope, entries.skip(1));
        if entries[0].is_dir {
            seq![scope + seq!['/'] + entries[0].name@] + rest
        } else {
            rest
        }
    }
}

/// The names the modules root lists, in enumeration order: hidden entries
/// and non-directories contribute nothing, a scope directory contributes its
/// reconstructed two-level names, and any other directory contributes its
/// own name.
pub open spec fn module_names(entries: Seq<ModuleEntry>) -> Seq<Seq<char>>
    decreases entries.len(),
{
    if entries.len() == 0 {
        Seq::empty()
    } else {
        let rest = module_names(entries.skip(1));
        if !entries[0].is_dir || hidden_name(entries[0].name@) {
            rest
        } else if scope_name(entries[0].name@) {
            scoped_names(entries[0].name@, entries[0].entries@) + rest
        } else {
            seq![entries[0].name@] + rest
        }
    }
}

proof fn lemma_scoped_names_concat(scope: Seq<char>, left: Seq<ScopedEntry>, right: Seq<ScopedEntry>)
    ensures
        scoped_names(scope, left + right) == scoped_names(scope, left) + scoped_names(scope, right),
    decreases left.len(),
{
    if left.len() == 0 {
        assert(left + right =~= right);
        assert(Seq::<Seq<char>>::empty() + scoped_names(scope, right) =~= scoped_names(scope, right));
    } else {
        assert((left + right)[0] == left[0]);
        assert((left + right).skip(1) =~= left.skip(1) + right);
        lemma_scoped_names_concat(scope, left.skip(1), right);
        if left[0].is_dir {
            assert(seq![scope + seq!['/'] + left[0].name@]
                + (scoped_names(scope, left.skip(1)) + scoped_names(scope, right))
                =~= (seq![scope + seq!['/'] + left[0].name@] + scoped_names(scope, left.skip(1)))
                    + scoped_names(scope, right));
        }
    }
}

proof fn lemma_module_names_concat(left: Seq<ModuleEntry>, right: Seq<ModuleEntry>)
    ensures
        module_names(left + right) == module_names(left) + module_names(right),
    decreases left.len(),
{
    if left.len() == 0 {
        assert(left + right =~= right);
        assert(Seq::<Seq<char>>::empty() + module_names(right) =~= module_names(right));
    } else {
        assert((left + right)[0] == left[0]);
        assert((left + right).skip(1) =~= left.skip(1) + right);
        lemma_module_names_concat(left.skip(1), right);
        let head = left[0];
        if head.is_dir && !hidden_name(head.name@) {
            if scope_name(head.name@) {
                assert(scoped_names(head.name@, head.entries@)
                    + (module_names(left.skip(1)) + module_names(right))
                    =~= (scoped_names(head.name@, head.entries@) + module_names(left.skip(1)))
                        + module_names(right));
            } else {
                assert(seq![head.name@] + (module_names(left.skip(1)) + module_names(right))
                    =~= (seq![head.name@] + module_names(left.skip(1))) + module_names(right));
            }
        }
    }
}

proof fn lemma_scoped_names_singleton(scope: Seq<char>, entry: ScopedEntry)
    ensures
        scoped_names(scope, seq![entry]) == if entry.is_dir {
            seq![scope + seq!['/'] + entry.name@]
        } else {
            Seq::<Seq<char>>::empty()
        },
{
    reveal_with_fuel(scoped_names, 2);
    assert(seq![entry].skip(1) =~= Seq::<ScopedEntry>::empty());
    if entry.is_dir {
        assert(seq![scope + seq!['/'] + entry.name@] + Seq::<Seq<char>>::empty()
            =~= seq![scope + seq!['/'] + entry.name@]);
    }
}

proof fn lemma_module_names_singleton(entry: ModuleEntry)
    ensures
        module_names(seq![entry]) == if !entry.is_dir || hidden_name(entry.name@) {
            Seq::<Seq<char>>::empty()
        } else if scope_name(entry.name@) {
            scoped_names(entry.name@, entry.entries@)
        } else {
            seq![entry.name@]
        },
{
    reveal_with_fuel(module_names, 2);
    assert(seq![entry].skip(1) =~= Seq::<ModuleEntry>::empty());
    if entry.is_dir && !hidden_name(entry.name@) {
        if scope_name(entry.name@) {
            assert(scoped_names(entry.name@, entry.entries@) + Seq::<Seq<char>>::empty()
                =~= scoped_names(entry.name@, entry.entries@));
        } else {
            assert(seq![entry.name@] + Seq::<Seq<char>>::empty() =~= seq![entry.name@]);
        }
    }
}

/// Whether `name` starts with the character `marker`.
fn first_char_is(name: &String, marker: char) -> (found: bool)
    ensures
        found == (name@.len() > 0 && name@[0] == marker),
{
    let chars = name.as_str();
    if chars.unicode_len() == 0 {
        false
    } else {
        chars.get_char(0) == marker
    }
}

/// The `why` listing: the package names present under the modules root, one
/// per line, in enumeration order. Hidden entries and non-directories are
/// left out; a scope directory's child directories appear as `scope/name`.
pub fn list_node_modules(entries: &Vec<ModuleEntry>) -> (rendered: String)
    ensures
        rendered@ == join_lines(module_names(entries@)),
{
    let mut packages: Vec<String> = Vec::new();
    let mut i: usize = 0;
    proof {
        assert(entries@.take(0) =~= Seq::<ModuleEntry>::empty());
        assert(name_views(packages@) =~= Seq::<Seq<char>>::empty());
    }
    while i < entries.len()
        invariant
            i <= entries@.len(),
            name_views(packages@) == module_names(entries@.take(i as int)),
        decreases entries@.len() - i,
    {
        let entry = &entries[i];
        let ghost listed_before: Seq<Seq<char>> = name_views(packages@);
        proof {
            assert(entries@.take(i as int + 1) =~= entries@.take(i as int) + seq![entries@[i as int]]);
            lemma_module_names_concat(entries@.take(i as int), seq![entries@[i as int]]);
            lemma_module_names_singleton(entries@[i as int]);
        }
        let hidden = first_char_is(&entry.name, '.');
        let scoped = first_char_is(&entry.name, '@');
        if entry.is_dir && !hidden {
            if scoped {
                let mut j: usize = 0;
                proof {
                    reveal_strlit("/");
                    assert(entry.entries@.take(0) =~= Seq::<ScopedEntry>::empty());
                    assert(listed_before + scoped_names(entry.name@, entry.entries@.take(0))
                        =~= listed_before);
                }
                while j < entry.entries.len()
                    invariant
                        j <= entry.entries@.len(),
                        name_views(packages@)
                            == listed_before + scoped_names(entry.name@, entry.entries@.take(j as int)),
                    decreases entry.entries@.len() - j,
                {
                    proof {
                        reveal_strlit("/");
                        assert(entry.entries@.take(j as int + 1)
                            =~= entry.entries@.take(j as int) + seq![entry.entries@[j as int]]);
                        lemma_scoped_names_concat(
                            entry.name@,
                            entry.entries@.take(j as int),
                            seq![entry.entries@[j as int]],
                        );
                        lemma_scoped_names_singleton(entry.name@, entry.entries@[j as int]);
                    }
                    let sub = &entry.entries[j];
                    if sub.is_dir {
                        let ghost in_scope_before: Seq<Seq<char>> = name_views(packages@);
                        let full = entry.name.clone().concat("/").concat(sub.name.as_str());
                        proof {
                            assert(full@ =~= entry.name@ + seq!['/'] + sub.name@);
                        }
                        packages.push(full);
                        proof {
                            assert(name_views(packages@)
                                =~= in_scope_before.push(entry.name@ + seq!['/'] + sub.name@));
                            assert(scoped_names(entry.name@, seq![entry.entries@[j as int]])
                                =~= seq![entry.name@ + seq!['/'] + sub.name@]);
                            assert(name_views(packages@)
                                =~= listed_before
                                    + scoped_names(entry.name@, entry.entries@.take(j as int))
                                    + scoped_names(entry.name@, seq![entry.entries@[j as int]]));
                        }
                    }
                    proof {
                        assert(name_views(packages@)
                            =~= listed_before + scoped_names(entry.name@, entry.entries@.take(j as int + 1)));
                    }
                    j += 1;
                }
                proof {
                    assert(entry.entries@.take(entry.entries@.len() as int) =~= entry.entries@);
                    assert(module_names(seq![entries@[i as int]])
                        =~= scoped_names(entry.name@, entry.entries@));
                    assert(name_views(packages@)
                        =~= module_names(entries@.take(i as int + 1)));
                }
            } else {
                packages.push(entry.name.clone());
                proof {
                    assert(module_names(seq![entries@[i as int]]) =~= seq![entry.name@]);
                    assert(name_views(packages@) =~= listed_before.push(entry.name@));
                    assert(name_views(packages@) =~= module_names(entries@.take(i as int + 1)));
                }
            }
        } else {
            proof {
                assert(module_names(seq![entries@[i as int]]) =~= Seq::<Seq<char>>::empty());
                assert(name_views(packages@) =~= module_names(entries@.take(i as int + 1)));
            }
        }
        i += 1;
    }
    proof {
        assert(entries@.take(entries@.len() as int) =~= entries@);
    }
    render_lines(&packages)
}

} // verus!
