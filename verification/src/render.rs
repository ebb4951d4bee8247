//! Rendering a name list as one newline-joined string.

use vstd::prelude::*;
use crate::names::name_views;

verus! {

/// The names joined by a single newline: empty input renders as the empty
/// string, and no trailing newline is added.
pub open spec fn join_lines(names: Seq<Seq<char>>) -> Seq<char>
    decreases names.len(),
{
    if names.len() == 0 {
        Seq::empty()
    } else if names.len() == 1 {
        names[0]
    } else {
        names[0] + seq!['\n'] + join_lines(names.skip(1))
    }
}

/// Joining one more name appends a newline and that name, except to an
/// empty list.
pub proof fn lemma_join_lines_push(names: Seq<Seq<char>>, name: Seq<char>)
    ensures
        names.len() == 0 ==> join_lines(names.push(name)) == name,
        names.len() > 0 ==> join_lines(names.push(name)) == join_lines(names) + seq!['\n'] + name,
    decreases names.len(),
{
    if names.len() == 0 {
        assert(names.push(name)[0] == name);
    } else {
        lemma_join_lines_push(names.skip(1), name);
        assert(names.push(name).skip(1) =~= names.skip(1).push(name));
        if names.len() == 1 {
            assert(names.skip(1).len() == 0);
        }
    }
}

/// Renders the names one per line, in order, with no trailing newline.
pub fn render_lines(names: &Vec<String>) -> (rendered: String)
    ensures
        rendered@ == join_lines(name_views(names@)),
{
    let mut rendered = String::new();
    let mut i: usize = 0;
    proof {
        reveal_strlit("\n");
        assert(name_views(names@).take(0) =~= Seq::<Seq<char>>::empty());
    }
    while i < names.len()
        invariant
            i <= names@.len(),
            rendered@ == join_lines(name_views(names@).take(i as int)),
        decreases names@.len() - i,
    {
        proof {
            reveal_strlit("\n");
            lemma_join_lines_push(name_views(names@).take(i as int), name_views(names@)[i as int]);
            assert(name_views(names@).take(i as int).push(name_views(names@)[i as int])
                =~= name_views(names@).take(i as int + 1));
            assert("\n"@ =~= seq!['\n']);
        }
        if i > 0 {
            rendered.append("\n");
        }
        rendered.append(names[i].as_str());
        i += 1;
    }
    proof {
        assert(name_views(names@).take(names@.len() as int) =~= name_views(names@));
    }
    rendered
}

} // verus!
