//! Directory snapshots for the file browser. The host walks the filesystem
//! and reports each entry; this module fixes the presentation contract:
//! dotfiles are hidden, directories sort before files, and entries of the
//! same kind sort ascending by name, so repeated snapshots of an unchanged
//! directory are deterministic and stable.

use vstd::prelude::*;
use vstd::multiset::Multiset;
use vstd::seq_lib::lemma_multiset_commutative;

use crate::textutil::lemma_lex_total;
use crate::textutil::lemma_lex_trans;
use crate::textutil::lex_le;
use crate::textutil::str_le;
use vstd::string::StrSliceExecFns;

verus! {

/// One node of a directory snapshot: a file or a directory with its ordered
/// children.
pub struct FileNode {
    pub name: String,
    pub path: String,
    pub is_dir: bool,
    pub children: Vec<FileNode>,
}

/// A dotfile name, hidden from snapshots.
pub open spec fn hidden(name: Seq<char>) -> bool {
    name.len() > 0 && name[0] == '.'
}

/// Snapshot entry visible to the browser.
pub open spec fn visible(c: FileNode) -> bool {
    !hidden(c.name@)
}

/// `a` sorts at or before `b`: directories before files, then ascending by
/// name.
pub open spec fn node_le(a: FileNode, b: FileNode) -> bool {
    (a.is_dir && !b.is_dir) || (a.is_dir == b.is_dir && lex_le(a.name@, b.name@))
}

/// The sequence is ordered under [`node_le`].
pub open spec fn sorted_nodes(s: Seq<FileNode>) -> bool {
    forall|i: int, j: int| 0 <= i < j < s.len() ==> node_le(s[i], s[j])
}

/// The node order is total.
proof fn lemma_node_le_total(a: FileNode, b: FileNode)
    ensures
        node_le(a, b) || node_le(b, a),
{
    lemma_lex_total(a.name@, b.name@);
}

/// The node order is transitive.
proof fn lemma_node_le_trans(a: FileNode, b: FileNode, c: FileNode)
    requires
        node_le(a, b),
        node_le(b, c),
    ensures
        node_le(a, c),
{
    if a.is_dir == b.is_dir && b.is_dir == c.is_dir {
        lemma_lex_trans(a.name@, b.name@, c.name@);
    }
}

/// Whether an entry name is visible: it does not start with a dot.
pub fn visible_name(name: &str) -> (r: bool)
    ensures
        r == !hidden(name@),
{
    name.unicode_len() == 0 || name.get_char(0) != '.'
}

/// Runtime comparison under [`node_le`].
fn node_le_exec(a: &FileNode, b: &FileNode) -> (r: bool)
    ensures
        r == node_le(*a, *b),
{
    if a.is_dir && !b.is_dir {
        true
    } else if a.is_dir == b.is_dir {
        str_le(a.name.as_str(), b.name.as_str())
    } else {
        false
    }
}

/// Insert `x` into the sorted vector, keeping it sorted; the contents gain
/// exactly `x`.
fn insert_sorted(out: &mut Vec<FileNode>, x: FileNode)
    requires
        sorted_nodes(old(out)@),
    ensures
        sorted_nodes(final(out)@),
        final(out)@.to_multiset() == old(out)@.to_multiset().insert(x),
{
    let mut idx: usize = 0;
    while idx < out.len() && node_le_exec(&out[idx], &x)
        invariant
            0 <= idx <= out@.len(),
            sorted_nodes(out@),
            out@ == old(out)@,
            forall|k: int| 0 <= k < idx ==> node_le(out@[k], x),
        decreases out@.len() - idx,
    {
        idx = idx + 1;
    }
    proof {
        if idx < out@.len() {
            lemma_node_le_total(out@[idx as int], x);
            assert forall|k: int| idx <= k < out@.len() implies node_le(x, out@[k]) by {
                if k > idx {
                    lemma_node_le_trans(x, out@[idx as int], out@[k]);
                }
            }
        }
    }
    let ghost prior = out@;
    out.insert(idx, x);
    proof {
        let updated = prior.insert(idx as int, x);
        assert(out@ == updated);
        prior.insert_ensures(idx as int, x);
        assert forall|i: int, j: int|
            0 <= i < j < updated.len() implies node_le(updated[i], updated[j]) by {
            if j < idx {
            } else if j == idx {
                assert(updated[j] == x);
                assert(updated[i] == prior[i]);
            } else {
                assert(updated[j] == prior[j - 1]);
                if i < idx {
                    assert(updated[i] == prior[i]);
                } else if i == idx {
                    assert(updated[i] == x);
                } else {
                    assert(updated[i] == prior[i - 1]);
                }
            }
        }
        let front = prior.subrange(0, idx as int);
        let back = prior.subrange(idx as int, prior.len() as int);
        lemma_multiset_commutative(front.push(x), back);
        front.to_multiset_ensures();
        lemma_multiset_commutative(front, back);
        assert(front + back =~= prior);
        assert(updated.to_multiset() =~= prior.to_multiset().insert(x));
    }
}

/// Sort snapshot entries: directories first, then ascending by name; the
/// result holds exactly the given entries.
pub fn sort_nodes(v: Vec<FileNode>) -> (r: Vec<FileNode>)
    ensures
        sorted_nodes(r@),
        r@.to_multiset() == v@.to_multiset(),
{
    let ghost whole = v@;
    let mut rest = v;
    let mut out: Vec<FileNode> = Vec::new();
    proof {
        out@.to_multiset_ensures();
        assert(out@.to_multiset() =~= Multiset::<FileNode>::empty());
        assert(out@.to_multiset().add(rest@.to_multiset()) =~= whole.to_multiset());
    }
    while rest.len() > 0
        invariant
            sorted_nodes(out@),
            out@.to_multiset().add(rest@.to_multiset()) == whole.to_multiset(),
        decreases rest@.len(),
    {
        let ghost rest_before = rest@;
        let x = rest.pop().unwrap();
        proof {
            assert(rest_before =~= rest@.push(x));
            rest@.to_multiset_ensures();
        }
        insert_sorted(&mut out, x);
        proof {
            assert(out@.to_multiset().add(rest@.to_multiset()) =~= whole.to_multiset());
        }
    }
    proof {
        rest@.to_multiset_ensures();
        assert(rest@.to_multiset() =~= Multiset::<FileNode>::empty());
        assert(out@.to_multiset() =~= whole.to_multiset());
    }
    out
}

/// Keep only the visible entries, in their given order.
pub fn keep_visible(v: Vec<FileNode>) -> (r: Vec<FileNode>)
    ensures
        r@ == v@.filter(|c: FileNode| visible(c)),
{
    let mut out: Vec<FileNode> = Vec::new();
    let mut rest = v;
    let ghost whole = rest@;
    proof {
        reveal(Seq::filter);
        assert(whole.subrange(0, 0) =~= Seq::<FileNode>::empty());
    }
    let ghost mut i: int = 0;
    while rest.len() > 0
        invariant
            i + rest@.len() == whole.len(),
            0 <= i <= whole.len(),
            rest@ == whole.subrange(i, whole.len() as int),
            out@ == whole.subrange(0, i).filter(|c: FileNode| visible(c)),
        decreases rest@.len(),
    {
        let ghost rest_before = rest@;
        let x = rest.remove(0);
        proof {
            assert(x == whole[i]);
        }
        let keep = visible_name(x.name.as_str());
        proof {
            reveal(Seq::filter);
            let upto = whole.subrange(0, i);
            let next = whole.subrange(0, i + 1);
            assert(next.drop_last() =~= upto);
            assert(next.last() == whole[i]);
        }
        if keep {
            out.push(x);
        }
        proof {
            i = i + 1;
            assert(rest@ =~= whole.subrange(i, whole.len() as int));
        }
    }
    proof {
        assert(whole.subrange(0, whole.len() as int) =~= whole);
    }
    out
}

/// Assemble one snapshot node. A directory's children are its visible
/// entries, directories first and then ascending by name; a non-directory
/// is a leaf with no children.
pub fn build_tree(name: String, path: String, is_dir: bool, children: Vec<FileNode>) -> (n:
    FileNode)
    ensures
        n.name == name,
        n.path == path,
        n.is_dir == is_dir,
        is_dir ==> sorted_nodes(n.children@) && n.children@.to_multiset() == children@.filter(
            |c: FileNode| visible(c),
        ).to_multiset(),
        !is_dir ==> n.children@.len() == 0,
{
    if is_dir {
        let kept = keep_visible(children);
        let ordered = sort_nodes(kept);
        FileNode { name, path, is_dir, children: ordered }
    } else {
        FileNode { name, path, is_dir, children: Vec::new() }
    }
}

} // verus!
