//! Rendering the dependency names a project manifest declares.

use vstd::prelude::*;
use crate::names::name_views;
use crate::render::{render_lines, join_lines};

verus! {

/// The `remove` listing: every declared dependency name, a newline, then
/// every declared dev dependency name. An empty section renders as an empty
/// segment, so the separating newline always stands.
pub fn fetch_installed_packages(
    dependencies: &Vec<String>,
    dev_dependencies: &Vec<String>,
) -> (rendered: String)
    ensures
        rendered@ == join_lines(name_views(dependencies@)) + seq!['\n']
            + join_lines(name_views(dev_dependencies@)),
{
    proof {
        reveal_strlit("\n");
        assert("\n"@ =~= seq!['\n']);
    }
    let head = render_lines(dependencies);
    let tail = render_lines(dev_dependencies);
    head.concat("\n").concat(tail.as_str())
}

} // verus!
