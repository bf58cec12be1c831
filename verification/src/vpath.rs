//! Virtual paths of typst: paths inside a project, rooted at the project.
use vstd::prelude::*;

use crate::paths::{components, cur_dir, is_plain_component, parent_dir, render, root_dir};

verus! {

/// The components of a virtual path below its root, for the components `cs`
/// of a path: the root and `.` are dropped, a `..` takes away the named
/// component before it (and is kept where there is none), and named
/// components are added.
pub open spec fn virtual_components(cs: Seq<Seq<char>>) -> Seq<Seq<char>>
    decreases cs.len(),
{
    if cs.len() == 0 {
        Seq::empty()
    } else {
        let out = virtual_components(cs.drop_last());
        let c = cs.last();
        if c == root_dir() || c == cur_dir() {
            out
        } else if c == parent_dir() {
            if out.len() > 0 && out.last() != parent_dir() {
                out.drop_last()
            } else {
                out.push(c)
            }
        } else {
            out.push(c)
        }
    }
}

/// The rooted path of `typst_syntax::VirtualPath::new(p)`: `p` read from the
/// project's root.
pub open spec fn rooted_virtual_path(p: Seq<char>) -> Seq<char> {
    render(seq![root_dir()] + virtual_components(components(p)))
}

/// Calls `typst_syntax::VirtualPath::new` on `p` and gives back
/// `as_rooted_path()` as a string. Claimed: the result is
/// `rooted_virtual_path(p)`. `VirtualPath::new` starts from the root directory
/// and walks the components of `p`: it skips the root and `.`, pops the last
/// component for a `..` when that component is a named one (else pushes the
/// `..`), and pushes named components; each push after the root adds one `/`,
/// and a pop takes the last component away. The characters are kept: every
/// component of the result comes from `p` or is `/` or `..`, so the lossy
/// conversion loses nothing. The separator `/` is that of POSIX systems.
#[verifier::external_body]
pub(crate) fn virtual_path(p: &str) -> (r: String)
    ensures
        r@ == rooted_virtual_path(p@),
{
    typst_syntax::VirtualPath::new(p).as_rooted_path().to_string_lossy().into_owned()
}

/// Plain components other than `..` pass into a virtual path unchanged.
pub proof fn lemma_virtual_keeps_plain(cs: Seq<Seq<char>>)
    requires
        forall|i: int| 0 <= i < cs.len() ==> is_plain_component(#[trigger] cs[i]),
        !cs.contains(parent_dir()),
    ensures
        virtual_components(cs) == cs,
    decreases cs.len(),
{
    if cs.len() > 0 {
        let d = cs.drop_last();
        assert forall|i: int| 0 <= i < d.len() implies is_plain_component(#[trigger] d[i]) by {
            assert(d[i] == cs[i]);
        }
        assert(!d.contains(parent_dir())) by {
            if d.contains(parent_dir()) {
                let k = choose|k: int| 0 <= k < d.len() && d[k] == parent_dir();
                assert(cs[k] == parent_dir());
            }
        }
        lemma_virtual_keeps_plain(d);
        let c = cs.last();
        assert(cs[cs.len() - 1] == c);
        assert(is_plain_component(c));
        assert(c != root_dir()) by {
            assert(root_dir()[0] == '/');
            if c == root_dir() {
                assert(c.contains('/'));
            }
        }
        assert(c != parent_dir());
        assert(d.push(c) =~= cs);
    }
}

} // verus!
