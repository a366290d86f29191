//! The file-tree nodes handed to the editor's explorer panel.
//!
//! The host walks the directory (I/O) and builds one node per entry;
//! the rules — which entries are skipped, and the order children are
//! presented in (directories first, then by name, by code point) — are
//! decided and verified here. UTF-8 compares bytewise exactly as code
//! points do, so ordering names by code point matches ordering them by
//! their encoded bytes.

use vstd::prelude::*;

use vstd::multiset::Multiset;
use vstd::string::StrSliceExecFns;

use crate::terminal::str_eq;

verus! {

/// One node of the file tree: a file, or a directory with its children.
/// `node_type` is `"file"` or `"dir"`.
#[derive(Debug)]
pub struct FileNode {
    pub name: String,
    pub path: String,
    pub node_type: String,
    pub children: Option<Vec<FileNode>>,
}

/// Whether the node presents as a directory.
pub open spec fn is_dir_node(n: FileNode) -> bool {
    n.node_type@ == "dir"@
}

/// Entries hidden from the tree: dotfiles and the usual bulky build or
/// dependency directories.
pub open spec fn skipped_entry(name: Seq<char>) -> bool {
    ||| (name.len() > 0 && name[0] == '.')
    ||| name == "node_modules"@
    ||| name == "target"@
    ||| name == ".git"@
}

/// Whether a directory entry of this name is left out of the tree.
pub fn should_skip_entry(name: &str) -> (r: bool)
    ensures
        r == skipped_entry(name@),
{
    let n = name.unicode_len();
    if n > 0 && name.get_char(0) == '.' {
        return true;
    }
    str_eq(name, "node_modules") || str_eq(name, "target") || str_eq(name, ".git")
}

/// Lexicographic order on names, by code point.
pub open spec fn lex_le(a: Seq<char>, b: Seq<char>) -> bool
    decreases a.len(),
{
    if a.len() == 0 {
        true
    } else if b.len() == 0 {
        false
    } else if (a[0] as u32) == (b[0] as u32) {
        lex_le(a.drop_first(), b.drop_first())
    } else {
        (a[0] as u32) < (b[0] as u32)
    }
}

proof fn lemma_lex_le_refl(a: Seq<char>)
    ensures
        lex_le(a, a),
    decreases a.len(),
{
    if a.len() > 0 {
        lemma_lex_le_refl(a.drop_first());
    }
}

proof fn lemma_lex_le_total(a: Seq<char>, b: Seq<char>)
    ensures
        lex_le(a, b) || lex_le(b, a),
    decreases a.len(),
{
    if a.len() > 0 && b.len() > 0 && (a[0] as u32) == (b[0] as u32) {
        lemma_lex_le_total(a.drop_first(), b.drop_first());
    }
}

proof fn lemma_lex_le_trans(a: Seq<char>, b: Seq<char>, c: Seq<char>)
    requires
        lex_le(a, b),
        lex_le(b, c),
    ensures
        lex_le(a, c),
    decreases a.len(),
{
    if a.len() > 0 && b.len() > 0 && c.len() > 0 && (a[0] as u32) == (b[0] as u32) && (b[0] as u32)
        == (c[0] as u32) {
        lemma_lex_le_trans(a.drop_first(), b.drop_first(), c.drop_first());
    }
}

/// The presentation order of siblings: directories before files, and
/// within each group names in lexicographic order.
pub open spec fn node_le(a: FileNode, b: FileNode) -> bool {
    if is_dir_node(a) && !is_dir_node(b) {
        true
    } else if !is_dir_node(a) && is_dir_node(b) {
        false
    } else {
        lex_le(a.name@, b.name@)
    }
}

proof fn lemma_node_le_total(a: FileNode, b: FileNode)
    ensures
        node_le(a, b) || node_le(b, a),
{
    lemma_lex_le_total(a.name@, b.name@);
}

proof fn lemma_node_le_refl(a: FileNode)
    ensures
        node_le(a, a),
{
    lemma_lex_le_refl(a.name@);
}

proof fn lemma_node_le_trans(a: FileNode, b: FileNode, c: FileNode)
    requires
        node_le(a, b),
        node_le(b, c),
    ensures
        node_le(a, c),
{
    if is_dir_node(a) == is_dir_node(b) && is_dir_node(b) == is_dir_node(c) {
        lemma_lex_le_trans(a.name@, b.name@, c.name@);
    }
}

/// Sibling lists are presented in this order.
pub open spec fn sorted_nodes(s: Seq<FileNode>) -> bool {
    forall|i: int, j: int| 0 <= i < j < s.len() ==> node_le(#[trigger] s[i], #[trigger] s[j])
}

fn node_le_exec(a: &FileNode, b: &FileNode) -> (r: bool)
    ensures
        r == node_le(*a, *b),
{
    let a_dir = str_eq(a.node_type.as_str(), "dir");
    let b_dir = str_eq(b.node_type.as_str(), "dir");
    if a_dir && !b_dir {
        true
    } else if !a_dir && b_dir {
        false
    } else {
        str_le(a.name.as_str(), b.name.as_str())
    }
}

/// Lexicographic comparison of two names.
pub fn str_le(a: &str, b: &str) -> (r: bool)
    ensures
        r == lex_le(a@, b@),
{
    let na = a.unicode_len();
    let nb = b.unicode_len();
    let mut i: usize = 0;
    proof {
        assert(a@.skip(0) =~= a@);
        assert(b@.skip(0) =~= b@);
    }
    while i < na && i < nb
        invariant
            na == a@.len(),
            nb == b@.len(),
            i <= na,
            i <= nb,
            lex_le(a@, b@) == lex_le(a@.skip(i as int), b@.skip(i as int)),
            lex_le(b@, a@) == lex_le(b@.skip(i as int), a@.skip(i as int)),
        decreases na - i,
    {
        let ca = a.get_char(i);
        let cb = b.get_char(i);
        if (ca as u32) != (cb as u32) {
            return (ca as u32) < (cb as u32);
        }
        proof {
            assert(a@.skip(i as int).drop_first() =~= a@.skip(i + 1));
            assert(b@.skip(i as int).drop_first() =~= b@.skip(i + 1));
        }
        i = i + 1;
    }
    na <= nb
}

/// Sorts a sibling list into presentation order: directories first, then
/// by name; the result holds exactly the given nodes.
pub fn sort_file_nodes(nodes: Vec<FileNode>) -> (r: Vec<FileNode>)
    ensures
        r@.to_multiset() == nodes@.to_multiset(),
        sorted_nodes(r@),
{
    broadcast use vstd::seq_lib::group_to_multiset_ensures;

    let ghost orig = nodes@;
    let mut src = nodes;
    let mut out: Vec<FileNode> = Vec::new();
    while src.len() > 0
        invariant
            out@.to_multiset().add(src@.to_multiset()) == orig.to_multiset(),
            sorted_nodes(out@),
            forall|i: int, j: int|
                0 <= i < out@.len() && 0 <= j < src@.len() ==> node_le(
                    #[trigger] out@[i],
                    #[trigger] src@[j],
                ),
        decreases src@.len(),
    {
        let mut m: usize = 0;
        let mut k: usize = 1;
        proof {
            lemma_node_le_refl(src@[0]);
        }
        while k < src.len()
            invariant
                src@.len() > 0,
                m < k,
                k <= src@.len(),
                forall|j: int| 0 <= j < k ==> node_le(src@[m as int], #[trigger] src@[j]),
            decreases src@.len() - k,
        {
            if !node_le_exec(&src[m], &src[k]) {
                proof {
                    lemma_node_le_total(src@[m as int], src@[k as int]);
                    lemma_node_le_refl(src@[k as int]);
                    assert forall|j: int| 0 <= j < k + 1 implies node_le(
                        src@[k as int],
                        #[trigger] src@[j],
                    ) by {
                        if j < k {
                            lemma_node_le_trans(src@[k as int], src@[m as int], src@[j]);
                        }
                    }
                }
                m = k;
            }
            k = k + 1;
        }
        let ghost pre = src@;
        let picked = src.remove(m);
        let ghost before_out = out@;
        out.push(picked);
        proof {
            broadcast use vstd::multiset::group_multiset_axioms;
            broadcast use vstd::seq_lib::group_to_multiset_ensures;

            assert(out@ == before_out.push(picked));
            assert(before_out.push(picked).to_multiset() =~= before_out.to_multiset().insert(
                picked,
            ));
            assert(src@ == pre.remove(m as int));
            assert(pre.remove(m as int).to_multiset() =~= pre.to_multiset().remove(
                pre[m as int],
            ));
            assert(pre.to_multiset().count(picked) > 0);
            assert(out@.to_multiset().add(src@.to_multiset()) =~= orig.to_multiset());
            assert forall|i: int, j: int|
                0 <= i < out@.len() && 0 <= j < src@.len() implies node_le(
                #[trigger] out@[i],
                #[trigger] src@[j],
            ) by {
                let orig_j = if j < m { j } else { j + 1 };
                assert(src@[j] == pre[orig_j]);
                if i < before_out.len() {
                    assert(node_le(before_out[i], pre[orig_j]));
                } else {
                    assert(out@[i] == picked);
                    assert(node_le(pre[m as int], pre[orig_j]));
                }
            }
            assert forall|i: int, j: int|
                0 <= i < j < out@.len() implies node_le(#[trigger] out@[i], #[trigger] out@[j]) by {
                if j < before_out.len() {
                    assert(node_le(before_out[i], before_out[j]));
                } else {
                    assert(out@[j] == picked);
                    assert(node_le(before_out[i], pre[m as int]));
                }
            }
        }
    }
    proof {
        assert(src@.to_multiset() =~= Multiset::<FileNode>::empty());
        assert(out@.to_multiset() =~= orig.to_multiset());
    }
    out
}

} // verus!
