//! The module tree: a walk of the configuration directory becomes one node per
//! logical path (a descriptor file, a directory, or both under one name), each
//! node's generated module, and the root module that registers them all.
use vstd::prelude::*;
use crate::entry::CxxAutoEntry;
use crate::error::GenError;
use crate::order::{
    insert_name, insert_path, lemma_orders_strict_total, lemma_sorted_unique, name_lt, path_lt,
    same_path, sorted_by,
};
use vstd::string::StringExecFns;
use crate::syntax::{contains_text, lemma_contains_add, lemma_joined_contains};
use crate::syntax::{is_name, is_name_text, joined, lemma_joined_step, literal_item, push_literals};
use crate::wrapper::{mods_text, push_child_mods};

verus! {

/// An entry of the walk of the configuration directory.
pub struct WalkEntry {
    /// Its path below the configuration root; a file's last name is its stem.
    pub components: Vec<String>,
    /// The descriptor a file holds; `None` for a directory.
    pub descriptor: Option<CxxAutoEntry>,
}

/// What a node of the module tree owns.
pub enum NodeKind {
    /// A descriptor, given by the index of its file in the walk.
    Leaf { file: usize },
    /// Children, by name, sorted.
    Internal { children: Vec<String> },
    /// A descriptor and children: a directory and a file of the same stem.
    Both { file: usize, children: Vec<String> },
}

/// A node of the module tree.
pub struct TreeNode {
    pub components: Vec<String>,
    pub kind: NodeKind,
}

/// A generated module: its path below the output source directory, without
/// extension, and its text.
pub struct GeneratedFile {
    pub path: Vec<String>,
    pub text: String,
}

pub open spec fn path_of(e: WalkEntry) -> Seq<Seq<char>> {
    e.components.deep_view()
}

pub open spec fn is_file(e: WalkEntry) -> bool {
    e.descriptor is Some
}

/// Entry `f` is a descriptor file at path `c`.
pub open spec fn file_at(es: Seq<WalkEntry>, f: int, c: Seq<Seq<char>>) -> bool {
    0 <= f < es.len() && is_file(es[f]) && path_of(es[f]) == c
}

/// Entry `d` is a directory at path `c`.
pub open spec fn dir_at(es: Seq<WalkEntry>, d: int, c: Seq<Seq<char>>) -> bool {
    0 <= d < es.len() && !is_file(es[d]) && path_of(es[d]) == c
}

pub open spec fn has_file(es: Seq<WalkEntry>, c: Seq<Seq<char>>) -> bool {
    exists|f: int| file_at(es, f, c)
}

pub open spec fn has_dir(es: Seq<WalkEntry>, c: Seq<Seq<char>>) -> bool {
    exists|d: int| dir_at(es, d, c)
}

/// Some entry lies directly below `c` under the name `n`.
pub open spec fn is_child_name(es: Seq<WalkEntry>, c: Seq<Seq<char>>, n: Seq<char>) -> bool {
    exists|i: int| 0 <= i < es.len() && path_of(es[i]) == c.push(n)
}

/// The names directly below `c`, sorted, each once.
pub open spec fn children_of(es: Seq<WalkEntry>, c: Seq<Seq<char>>) -> Seq<Seq<char>> {
    choose|s: Seq<Seq<char>>|
        sorted_by(s, name_lt()) && forall|n: Seq<char>| #[trigger] s.contains(n) <==> is_child_name(es, c, n)
}

/// The names below `c` are sorted, each once, and are exactly the children.
pub open spec fn children_ok(es: Seq<WalkEntry>, c: Seq<Seq<char>>) -> bool {
    &&& sorted_by(children_of(es, c), name_lt())
    &&& forall|n: Seq<char>| #[trigger] children_of(es, c).contains(n) <==> is_child_name(es, c, n)
}

/// The logical paths of the walk, each once, in the order the walk first meets them.
pub open spec fn visit_order(es: Seq<WalkEntry>) -> Seq<Seq<Seq<char>>>
    decreases es.len(),
{
    if es.len() == 0 {
        Seq::empty()
    } else {
        let p = visit_order(es.drop_last());
        if p.contains(path_of(es.last())) {
            p
        } else {
            p.push(path_of(es.last()))
        }
    }
}

/// Two entries of the same kind at one path, or an entry at the root itself:
/// two nodes would be written to the same module.
pub open spec fn has_conflict(es: Seq<WalkEntry>) -> bool {
    ||| exists|i: int| 0 <= i < es.len() && #[trigger] path_of(es[i]).len() == 0
    ||| exists|i: int, j: int|
        0 <= i < j < es.len() && #[trigger] path_of(es[i]) == #[trigger] path_of(es[j])
            && is_file(es[i]) == is_file(es[j])
}

/// Every name on every path is an identifier, as a module name must be.
pub open spec fn names_valid(es: Seq<WalkEntry>) -> bool {
    forall|i: int, k: int|
        0 <= i < es.len() && 0 <= k < path_of(es[i]).len() ==> #[trigger] is_name_text(path_of(es[i])[k])
}

/// Why no module tree can be generated from the walk, if there is a reason.
pub open spec fn walk_error(es: Seq<WalkEntry>) -> Option<GenError> {
    if has_conflict(es) {
        Some(GenError::NameConflict)
    } else if !names_valid(es) {
        Some(GenError::InvalidIdentifier)
    } else {
        None
    }
}

/// A walk that cannot be generated, with the entry at fault.
#[derive(Debug, Clone, Copy, PartialEq, Eq, Structural)]
pub struct WalkError {
    pub kind: GenError,
    /// The index, in the walk, of the first entry found at fault.
    pub entry: usize,
}

/// Entry `i` is at fault for the error: for a conflict it names the root or
/// repeats an earlier entry of its kind; otherwise a name on its path is not an
/// identifier.
pub open spec fn at_fault(es: Seq<WalkEntry>, i: int, kind: GenError) -> bool {
    &&& 0 <= i < es.len()
    &&& match kind {
        GenError::NameConflict => path_of(es[i]).len() == 0 || exists|j: int|
            0 <= j < i && path_of(es[j]) == path_of(es[i]) && is_file(es[j]) == is_file(es[i]),
        GenError::InvalidIdentifier => exists|k: int|
            0 <= k < path_of(es[i]).len() && !is_name_text(path_of(es[i])[k]),
        _ => false,
    }
}

/// The node is the one of path `c`: its kind is what the walk holds at `c`.
pub open spec fn node_ok(es: Seq<WalkEntry>, n: TreeNode, c: Seq<Seq<char>>) -> bool {
    &&& n.components.deep_view() == c
    &&& match n.kind {
        NodeKind::Leaf { file } => !has_dir(es, c) && file_at(es, file as int, c),
        NodeKind::Internal { children } => has_dir(es, c) && !has_file(es, c) && children.deep_view()
            == children_of(es, c) && children_ok(es, c),
        NodeKind::Both { file, children } => has_dir(es, c) && file_at(es, file as int, c)
            && children.deep_view() == children_of(es, c) && children_ok(es, c),
    }
}

/// The nodes are those of the walk's logical paths, in visiting order.
pub open spec fn plan_ok(es: Seq<WalkEntry>, nodes: Seq<TreeNode>) -> bool {
    &&& nodes.len() == visit_order(es).len()
    &&& forall|k: int| 0 <= k < nodes.len() ==> #[trigger] node_ok(es, nodes[k], visit_order(es)[k])
}

proof fn lemma_visit_order(es: Seq<WalkEntry>)
    ensures
        visit_order(es).no_duplicates(),
        forall|c: Seq<Seq<char>>| #[trigger] visit_order(es).contains(c) <==> exists|i: int|
            0 <= i < es.len() && path_of(es[i]) == c,
    decreases es.len(),
{
    if es.len() > 0 {
        let d = es.drop_last();
        lemma_visit_order(d);
        let p = visit_order(d);
        let x = path_of(es.last());
        assert forall|c: Seq<Seq<char>>| #[trigger] visit_order(es).contains(c) <==> exists|i: int|
            0 <= i < es.len() && path_of(es[i]) == c by {
            if p.push(x).contains(c) && !p.contains(c) {
                let k = choose|k: int| 0 <= k < p.push(x).len() && p.push(x)[k] == c;
                assert(k == p.len());
                assert(path_of(es[es.len() - 1]) == c);
            }
            if exists|i: int| 0 <= i < es.len() && path_of(es[i]) == c {
                let i = choose|i: int| 0 <= i < es.len() && path_of(es[i]) == c;
                if i < es.len() - 1 {
                    assert(path_of(d[i]) == c);
                    assert(p.contains(c));
                    let k = choose|k: int| 0 <= k < p.len() && p[k] == c;
                    assert(p.push(x)[k] == c);
                } else {
                    assert(p.push(x)[p.len() as int] == c);
                }
            }
            if p.contains(c) {
                let k = choose|k: int| 0 <= k < p.len() && p[k] == c;
                assert(p.push(x)[k] == c);
            }
        }
    }
}

/// A copy of a path.
fn copy_path(v: &Vec<String>) -> (r: Vec<String>)
    ensures
        r.deep_view() == v.deep_view(),
{
    let mut r: Vec<String> = Vec::new();
    for i in 0..v.len()
        invariant
            r@.len() == i,
            forall|k: int| 0 <= k < i ==> r@[k]@ == v@[k]@,
    {
        r.push(v[i].clone());
    }
    assert(r.deep_view() =~= v.deep_view());
    r
}

/// Checks the walk, and says why no module tree can be generated from it.
pub fn check_walk(entries: &Vec<WalkEntry>) -> (r: Result<(), WalkError>)
    ensures
        r is Ok <==> walk_error(entries@) is None,
        r matches Err(w) ==> walk_error(entries@) == Some(w.kind) && at_fault(entries@, w.entry as int, w.kind),
{
    let ghost es = entries@;
    let n = entries.len();
    for i in 0..n
        invariant
            es == entries@,
            n == es.len(),
            forall|a: int| 0 <= a < i ==> #[trigger] path_of(es[a]).len() != 0,
            forall|a: int, b: int|
                0 <= a < b < i ==> !(#[trigger] path_of(es[a]) == #[trigger] path_of(es[b]) && is_file(es[a])
                    == is_file(es[b])),
    {
        assert(path_of(es[i as int]).len() == entries@[i as int].components@.len());
        if entries[i].components.len() == 0 {
            assert(path_of(es[i as int]).len() == 0);
            return Err(WalkError { kind: GenError::NameConflict, entry: i });
        }
        for j in 0..i
            invariant
                es == entries@,
                n == es.len(),
                i < n,
                forall|a: int| 0 <= a <= i ==> #[trigger] path_of(es[a]).len() != 0,
                forall|a: int, b: int|
                    0 <= a < b < i ==> !(#[trigger] path_of(es[a]) == #[trigger] path_of(es[b]) && is_file(
                        es[a],
                    ) == is_file(es[b])),
                forall|a: int|
                    0 <= a < j ==> !(#[trigger] path_of(es[a]) == path_of(es[i as int]) && is_file(es[a])
                        == is_file(es[i as int])),
        {
            if entries[j].descriptor.is_some() == entries[i].descriptor.is_some() && same_path(
                &entries[j].components,
                &entries[i].components,
            ) {
                assert(path_of(es[j as int]) == path_of(es[i as int]) && is_file(es[j as int]) == is_file(es[i as int]));
                assert(has_conflict(es));
                return Err(WalkError { kind: GenError::NameConflict, entry: i });
            }
        }
    }
    assert(!has_conflict(es));
    for i in 0..n
        invariant
            es == entries@,
            n == es.len(),
            !has_conflict(es),
            forall|a: int, k: int|
                0 <= a < i && 0 <= k < path_of(es[a]).len() ==> #[trigger] is_name_text(path_of(es[a])[k]),
    {
        let c = &entries[i].components;
        for k in 0..c.len()
            invariant
                es == entries@,
                n == es.len(),
                i < n,
                !has_conflict(es),
                c == es[i as int].components,
                forall|a: int, k: int|
                    0 <= a < i && 0 <= k < path_of(es[a]).len() ==> #[trigger] is_name_text(path_of(es[a])[k]),
                forall|m: int| 0 <= m < k ==> #[trigger] is_name_text(path_of(es[i as int])[m]),
        {
            assert(path_of(es[i as int])[k as int] == c@[k as int]@);
            if !is_name(c[k].as_str()) {
                assert(!is_name_text(path_of(es[i as int])[k as int]));
                assert(!names_valid(es));
                return Err(WalkError { kind: GenError::InvalidIdentifier, entry: i });
            }
        }
    }
    Ok(())
}

/// The first descriptor file at the path, if any.
fn find_file(entries: &Vec<WalkEntry>, c: &Vec<String>) -> (r: Option<usize>)
    ensures
        r matches Some(f) ==> file_at(entries@, f as int, c.deep_view()),
        r is None ==> !has_file(entries@, c.deep_view()),
{
    for i in 0..entries.len()
        invariant
            forall|a: int| 0 <= a < i ==> !#[trigger] file_at(entries@, a, c.deep_view()),
    {
        if entries[i].descriptor.is_some() && same_path(&entries[i].components, c) {
            return Some(i);
        }
    }
    None
}

/// Whether a directory is at the path.
fn find_dir(entries: &Vec<WalkEntry>, c: &Vec<String>) -> (r: bool)
    ensures
        r == has_dir(entries@, c.deep_view()),
{
    for i in 0..entries.len()
        invariant
            forall|a: int| 0 <= a < i ==> !#[trigger] dir_at(entries@, a, c.deep_view()),
    {
        if entries[i].descriptor.is_none() && same_path(&entries[i].components, c) {
            assert(!is_file(entries@[i as int])) by {
                if is_file(entries@[i as int]) {
                    assert(file_at(entries@, i as int, c.deep_view()));
                }
            }
            assert(dir_at(entries@, i as int, c.deep_view()));
            return true;
        }
    }
    false
}

/// Whether `d` is `c` with one more name.
fn is_direct_child(c: &Vec<String>, d: &Vec<String>) -> (r: bool)
    ensures
        r == (d.deep_view().len() == c.deep_view().len() + 1 && d.deep_view().drop_last() == c.deep_view()),
{
    if d.len() == 0 || d.len() - 1 != c.len() {
        return false;
    }
    for i in 0..c.len()
        invariant
            d@.len() == c@.len() + 1,
            forall|k: int| 0 <= k < i ==> d@[k]@ == c@[k]@,
    {
        if d[i] != c[i] {
            assert(d.deep_view().drop_last()[i as int] != c.deep_view()[i as int]);
            return false;
        }
    }
    assert(d.deep_view().drop_last() =~= c.deep_view());
    true
}

/// The names directly below the path, sorted, each once.
fn collect_children(entries: &Vec<WalkEntry>, c: &Vec<String>) -> (r: Vec<String>)
    ensures
        r.deep_view() == children_of(entries@, c.deep_view()),
        children_ok(entries@, c.deep_view()),
{
    let ghost es = entries@;
    let ghost cv = c.deep_view();
    let mut r: Vec<String> = Vec::new();
    for i in 0..entries.len()
        invariant
            es == entries@,
            cv == c.deep_view(),
            sorted_by(r.deep_view(), name_lt()),
            forall|n: Seq<char>| #[trigger] r.deep_view().contains(n) <==> exists|a: int|
                0 <= a < i && path_of(es[a]) == cv.push(n),
    {
        let d = &entries[i].components;
        if is_direct_child(c, d) {
            let ghost dv = d.deep_view();
            let name = d[d.len() - 1].clone();
            assert(dv =~= cv.push(name@)) by {
                assert(dv[dv.len() - 1] == d@[d@.len() - 1]@);
            }
            let ghost before = r.deep_view();
            insert_name(&mut r, name);
            assert forall|n: Seq<char>| #[trigger] r.deep_view().contains(n) <==> exists|a: int|
                0 <= a < i + 1 && path_of(es[a]) == cv.push(n) by {
                if exists|a: int| 0 <= a < i + 1 && path_of(es[a]) == cv.push(n) {
                    let a = choose|a: int| 0 <= a < i + 1 && path_of(es[a]) == cv.push(n);
                    if a == i {
                        assert(cv.push(n).last() == n);
                    }
                }
                if n == dv.last() {
                    assert(path_of(es[i as int]) == cv.push(n));
                }
            }
        } else {
            assert forall|n: Seq<char>| #[trigger] r.deep_view().contains(n) <==> exists|a: int|
                0 <= a < i + 1 && path_of(es[a]) == cv.push(n) by {
                if exists|a: int| 0 <= a < i + 1 && path_of(es[a]) == cv.push(n) {
                    let a = choose|a: int| 0 <= a < i + 1 && path_of(es[a]) == cv.push(n);
                    if a == i {
                        assert(cv.push(n).drop_last() =~= cv);
                    }
                }
            }
        }
    }
    proof {
        lemma_orders_strict_total();
        let s = children_of(es, cv);
        assert(sorted_by(r.deep_view(), name_lt()) && forall|n: Seq<char>| #[trigger] r.deep_view().contains(n)
            <==> is_child_name(es, cv, n));
        lemma_sorted_unique(s, r.deep_view(), name_lt());
    }
    r
}

/// Whether the path is among those visited so far.
fn contains_path(skip: &Vec<Vec<String>>, c: &Vec<String>) -> (r: bool)
    ensures
        r == skip.deep_view().contains(c.deep_view()),
{
    for k in 0..skip.len()
        invariant
            forall|a: int| 0 <= a < k ==> skip.deep_view()[a] != c.deep_view(),
    {
        assert(skip.deep_view()[k as int] == skip@[k as int].deep_view());
        if same_path(&skip[k], c) {
            assert(skip.deep_view()[k as int] == c.deep_view());
            return true;
        }
    }
    false
}

/// Under a walk without conflicts, one descriptor file at most is at a path.
proof fn lemma_file_unique(es: Seq<WalkEntry>, f: int, g: int, c: Seq<Seq<char>>)
    requires
        !has_conflict(es),
        file_at(es, f, c),
        file_at(es, g, c),
    ensures
        f == g,
{
    if f < g {
        assert(path_of(es[f]) == path_of(es[g]));
    } else if g < f {
        assert(path_of(es[g]) == path_of(es[f]));
    }
}

/// The node of the path of entry `i`.
fn plan_node(entries: &Vec<WalkEntry>, i: usize) -> (r: TreeNode)
    requires
        walk_error(entries@) is None,
        i < entries@.len(),
    ensures
        node_ok(entries@, r, path_of(entries@[i as int])),
{
    let c = &entries[i].components;
    let file = find_file(entries, c);
    let dir = find_dir(entries, c);
    let components = copy_path(c);
    match file {
        Some(f) => {
            if dir {
                TreeNode { components, kind: NodeKind::Both { file: f, children: collect_children(entries, c) } }
            } else {
                TreeNode { components, kind: NodeKind::Leaf { file: f } }
            }
        },
        None => {
            assert(!is_file(entries@[i as int])) by {
                if is_file(entries@[i as int]) {
                    assert(file_at(entries@, i as int, c.deep_view()));
                }
            }
            assert(dir_at(entries@, i as int, c.deep_view()));
            TreeNode { components, kind: NodeKind::Internal { children: collect_children(entries, c) } }
        },
    }
}

/// Plans the module tree of a walk: one node per logical path, in the order
/// the walk first meets it. The paths already planned are threaded through the
/// walk, so that a directory and the descriptor file of the same stem make a
/// single node.
pub fn plan_tree(entries: &Vec<WalkEntry>) -> (r: Result<Vec<TreeNode>, WalkError>)
    ensures
        r is Ok <==> walk_error(entries@) is None,
        r matches Err(w) ==> walk_error(entries@) == Some(w.kind) && at_fault(entries@, w.entry as int, w.kind),
        r matches Ok(nodes) ==> plan_ok(entries@, nodes@),
{
    check_walk(entries)?;
    let ghost es = entries@;
    let mut skip: Vec<Vec<String>> = Vec::new();
    let mut nodes: Vec<TreeNode> = Vec::new();
    assert(skip.deep_view() =~= visit_order(es.subrange(0, 0)));
    for i in 0..entries.len()
        invariant
            es == entries@,
            walk_error(es) is None,
            skip.deep_view() == visit_order(es.subrange(0, i as int)),
            nodes@.len() == skip@.len(),
            forall|k: int| 0 <= k < nodes@.len() ==> #[trigger] node_ok(es, nodes@[k], skip.deep_view()[k]),
    {
        assert(es.subrange(0, i as int + 1).drop_last() =~= es.subrange(0, i as int));
        assert(es.subrange(0, i as int + 1).last() == es[i as int]);
        if !contains_path(&skip, &entries[i].components) {
            let node = plan_node(entries, i);
            let ghost before = skip.deep_view();
            skip.push(copy_path(&entries[i].components));
            nodes.push(node);
            assert(skip.deep_view() =~= before.push(path_of(es[i as int])));
        }
    }
    assert(es.subrange(0, es.len() as int) =~= es);
    Ok(nodes)
}

/// The walk has a directory `c` and a descriptor file of the same stem: the
/// plan holds exactly one node of that path, which owns that file's descriptor
/// and the directory's children.
pub proof fn lemma_collision_single_node(es: Seq<WalkEntry>, nodes: Seq<TreeNode>, d: int, f: int)
    requires
        walk_error(es) is None,
        plan_ok(es, nodes),
        dir_at(es, d, path_of(es[f])),
        file_at(es, f, path_of(es[f])),
    ensures
        exists|k: int| 0 <= k < nodes.len() && nodes[k].components.deep_view() == path_of(es[f]),
        forall|k: int, l: int|
            0 <= k < nodes.len() && 0 <= l < nodes.len() && nodes[k].components.deep_view() == path_of(es[f])
                && nodes[l].components.deep_view() == path_of(es[f]) ==> k == l,
        forall|k: int|
            0 <= k < nodes.len() && nodes[k].components.deep_view() == path_of(es[f]) ==> (
            #[trigger] nodes[k].kind matches NodeKind::Both { file, children } && file == f
                && children.deep_view() == children_of(es, path_of(es[f]))),
{
    let c = path_of(es[f]);
    lemma_visit_order(es);
    let v = visit_order(es);
    assert(v.contains(c));
    let k = choose|k: int| 0 <= k < v.len() && v[k] == c;
    assert(node_ok(es, nodes[k], v[k]));
    assert forall|k: int|
        0 <= k < nodes.len() && nodes[k].components.deep_view() == c implies (
        #[trigger] nodes[k].kind matches NodeKind::Both { file, children } && file == f
            && children.deep_view() == children_of(es, c)) by {
        assert(node_ok(es, nodes[k], v[k]));
        match nodes[k].kind {
            NodeKind::Both { file, children } => {
                lemma_file_unique(es, file as int, f, c);
            },
            _ => {},
        }
    }
    assert forall|k: int, l: int|
        0 <= k < nodes.len() && 0 <= l < nodes.len() && nodes[k].components.deep_view() == c
            && nodes[l].components.deep_view() == c implies k == l by {
        assert(node_ok(es, nodes[k], v[k]));
        assert(node_ok(es, nodes[l], v[l]));
    }
}

/// A name as a step of a file path.
pub open spec fn dir_segment() -> spec_fn(Seq<char>) -> Seq<char> {
    |x: Seq<char>| "/"@ + x
}

/// A name as a step of a module path.
pub open spec fn module_segment() -> spec_fn(Seq<char>) -> Seq<char> {
    |x: Seq<char>| x + "::"@
}

/// Where the child modules of the node at `c` live, below `mod_root`.
pub open spec fn node_dir(mod_root: Seq<char>, c: Seq<Seq<char>>) -> Seq<char> {
    mod_root + joined(c, dir_segment())
}

/// A directory node's function that writes its module, listing its children.
pub open spec fn dir_write_fn_text(c: Seq<Seq<char>>, children: Seq<Seq<char>>) -> Seq<char> {
    "pub(crate) fn write_module(out_dir: &::std::path::Path) -> ::std::io::Result<()> {\n    let path_components: &[&str] = &["@
        + joined(c, literal_item()) + "];\n    let path_descendants: &[&str] = &["@ + joined(children, literal_item())
        + "];\n    let dir = out_dir.join(path_components.iter().collect::<::std::path::PathBuf>());\n    let descendants = path_descendants.iter().map(|d| d.to_string()).collect::<::std::vec::Vec<_>>();\n    let text = ::cxx_auto::CxxAutoArtifactInfo::emit_dir_file(&dir.to_string_lossy(), &descendants)\n        .map_err(|e| ::std::io::Error::new(::std::io::ErrorKind::InvalidData, format!(\"{e:?}\")))?;\n    if let Some(parent) = dir.parent() {\n        ::std::fs::create_dir_all(parent)?;\n    }\n    ::std::fs::write(dir.with_extension(\"rs\"), text)\n}\n"@
}

/// The descriptor file at a path.
pub open spec fn file_of(es: Seq<WalkEntry>, c: Seq<Seq<char>>) -> int {
    choose|f: int| file_at(es, f, c)
}

/// The generated module of the node at `c`: its child modules, then, with a
/// descriptor, the probe's bridge and the functions that assemble and write the
/// wrapper, or else the function that writes the directory's module.
pub open spec fn node_text(mod_root: Seq<char>, es: Seq<WalkEntry>, c: Seq<Seq<char>>) -> Seq<char> {
    let ch = children_of(es, c);
    let mods = if has_dir(es, c) {
        mods_text(node_dir(mod_root, c), "pub "@, ch)
    } else {
        Seq::empty()
    };
    if has_file(es, c) {
        let d = es[file_of(es, c)].descriptor.unwrap();
        mods + d.probe_bridge_text() + d.write_module_fns_text(c, if has_dir(es, c) { ch } else { Seq::empty() })
    } else {
        mods + dir_write_fn_text(c, ch)
    }
}

/// The call of the function that writes a node's module.
pub open spec fn call_item() -> spec_fn(Seq<Seq<char>>) -> Seq<char> {
    |p: Seq<Seq<char>>| "    self::"@ + joined(p, module_segment()) + "write_module(auto_out_dir_root)?;\n"@
}

/// The logical paths of the walk, sorted.
pub open spec fn sorted_paths(es: Seq<WalkEntry>) -> Seq<Seq<Seq<char>>> {
    choose|s: Seq<Seq<Seq<char>>>|
        sorted_by(s, path_lt()) && forall|p: Seq<Seq<char>>| #[trigger] s.contains(p) <==> visit_order(es).contains(p)
}

/// The sorted paths are sorted, and are exactly the walk's logical paths.
pub open spec fn paths_ok(es: Seq<WalkEntry>) -> bool {
    &&& sorted_by(sorted_paths(es), path_lt())
    &&& forall|p: Seq<Seq<char>>| #[trigger] sorted_paths(es).contains(p) <==> visit_order(es).contains(p)
}

/// The root's entry point: the root's own module first, then every node's, in
/// sorted order of their paths.
pub open spec fn process_fn_text(paths: Seq<Seq<Seq<char>>>) -> Seq<char> {
    "pub fn process_artifacts(out_dir: &::std::path::Path) -> ::std::io::Result<()> {\n    let auto_out_dir_root = &out_dir.join(\"src/auto\");\n    self::write_module(auto_out_dir_root)?;\n"@
        + joined(paths, call_item()) + "    Ok(())\n}\n"@
}

/// The root module: the top-level child modules, the function that writes the
/// root directory's module, and the entry point.
pub open spec fn root_text(mod_root: Seq<char>, es: Seq<WalkEntry>) -> Seq<char> {
    let ch = children_of(es, Seq::empty());
    mods_text(mod_root, "pub "@, ch) + dir_write_fn_text(Seq::empty(), ch) + process_fn_text(sorted_paths(es))
}

/// Every generated module of the walk, as (path, text): one per node in
/// visiting order, then the root.
pub open spec fn output_files(mod_root: Seq<char>, es: Seq<WalkEntry>) -> Seq<(Seq<Seq<char>>, Seq<char>)> {
    let v = visit_order(es);
    Seq::new(
        v.len() + 1,
        |k: int|
            if k < v.len() {
                (seq!["auto"@] + v[k], node_text(mod_root, es, v[k]))
            } else {
                (seq!["auto"@], root_text(mod_root, es))
            },
    )
}

fn push_dir_segments(out: &mut String, c: &Vec<String>)
    ensures
        final(out)@ == old(out)@ + joined(c.deep_view(), dir_segment()),
{
    let ghost start = out@;
    let ghost cv = c.deep_view();
    for i in 0..c.len()
        invariant
            cv == c.deep_view(),
            out@ == start + joined(cv.subrange(0, i as int), dir_segment()),
    {
        proof {
            lemma_joined_step(cv, dir_segment(), i as int);
        }
        assert(cv[i as int] == c@[i as int]@);
        out.append("/");
        out.append(c[i].as_str());
        assert(out@ =~= start + joined(cv.subrange(0, i as int + 1), dir_segment()));
    }
    assert(cv.subrange(0, cv.len() as int) =~= cv);
}

fn push_call(out: &mut String, p: &Vec<String>)
    ensures
        final(out)@ == old(out)@ + (call_item())(p.deep_view()),
{
    let ghost start = out@;
    let ghost cv = p.deep_view();
    out.append("    self::");
    let ghost mid = out@;
    for i in 0..p.len()
        invariant
            cv == p.deep_view(),
            out@ == mid + joined(cv.subrange(0, i as int), module_segment()),
    {
        proof {
            lemma_joined_step(cv, module_segment(), i as int);
        }
        assert(cv[i as int] == p@[i as int]@);
        out.append(p[i].as_str());
        out.append("::");
        assert(out@ =~= mid + joined(cv.subrange(0, i as int + 1), module_segment()));
    }
    assert(cv.subrange(0, cv.len() as int) =~= cv);
    out.append("write_module(auto_out_dir_root)?;\n");
    assert(out@ =~= start + (call_item())(cv));
}

fn push_dir_write_fn(out: &mut String, c: &Vec<String>, children: &Vec<String>)
    ensures
        final(out)@ == old(out)@ + dir_write_fn_text(c.deep_view(), children.deep_view()),
{
    out.append("pub(crate) fn write_module(out_dir: &::std::path::Path) -> ::std::io::Result<()> {\n    let path_components: &[&str] = &[");
    push_literals(out, c);
    out.append("];\n    let path_descendants: &[&str] = &[");
    push_literals(out, children);
    out.append("];\n    let dir = out_dir.join(path_components.iter().collect::<::std::path::PathBuf>());\n    let descendants = path_descendants.iter().map(|d| d.to_string()).collect::<::std::vec::Vec<_>>();\n    let text = ::cxx_auto::CxxAutoArtifactInfo::emit_dir_file(&dir.to_string_lossy(), &descendants)\n        .map_err(|e| ::std::io::Error::new(::std::io::ErrorKind::InvalidData, format!(\"{e:?}\")))?;\n    if let Some(parent) = dir.parent() {\n        ::std::fs::create_dir_all(parent)?;\n    }\n    ::std::fs::write(dir.with_extension(\"rs\"), text)\n}\n");
    assert(out@ =~= old(out)@ + dir_write_fn_text(c.deep_view(), children.deep_view()));
}

/// The generated module of a planned node.
fn emit_node_file(mod_root: &str, entries: &Vec<WalkEntry>, node: &TreeNode) -> (r: String)
    requires
        walk_error(entries@) is None,
        node_ok(entries@, *node, node.components.deep_view()),
    ensures
        r@ == node_text(mod_root@, entries@, node.components.deep_view()),
{
    let ghost es = entries@;
    let c = &node.components;
    let ghost cv = c.deep_view();
    let mut dir = String::new();
    dir.append(mod_root);
    push_dir_segments(&mut dir, c);
    let mut out = String::new();
    match &node.kind {
        NodeKind::Leaf { file } => {
            proof {
                lemma_file_unique(es, *file as int, file_of(es, cv), cv);
            }
            match &entries[*file].descriptor {
                Some(d) => {
                    out.append(d.emit_item_mod_cxx_bridge().as_str());
                    let empty: Vec<String> = Vec::new();
                    assert(empty.deep_view() =~= Seq::<Seq<char>>::empty());
                    out.append(d.emit_items_write_module_for_file(c, &empty).as_str());
                },
                None => {},
            }
        },
        NodeKind::Internal { children } => {
            push_child_mods(&mut out, dir.as_str(), "pub ", children);
            push_dir_write_fn(&mut out, c, children);
        },
        NodeKind::Both { file, children } => {
            proof {
                lemma_file_unique(es, *file as int, file_of(es, cv), cv);
            }
            push_child_mods(&mut out, dir.as_str(), "pub ", children);
            match &entries[*file].descriptor {
                Some(d) => {
                    out.append(d.emit_item_mod_cxx_bridge().as_str());
                    out.append(d.emit_items_write_module_for_file(c, children).as_str());
                },
                None => {},
            }
        },
    }
    assert(out@ =~= node_text(mod_root@, es, cv));
    out
}

/// Generates every module of the walk of a configuration directory: one per
/// node, at `auto/<path>`, then the root module at `auto`. The child modules of
/// the configuration root live under `mod_root`.
#[verifier::spinoff_prover]
#[verifier::rlimit(40)]
pub fn process_artifacts(mod_root: &str, entries: &Vec<WalkEntry>) -> (r: Result<Vec<GeneratedFile>, WalkError>)
    ensures
        r is Ok <==> walk_error(entries@) is None,
        r matches Err(w) ==> walk_error(entries@) == Some(w.kind) && at_fault(entries@, w.entry as int, w.kind),
        r is Ok ==> paths_ok(entries@) && children_ok(entries@, Seq::empty()) && visit_order(
            entries@,
        ).no_duplicates(),
        r matches Ok(files) ==> files@.len() == output_files(mod_root@, entries@).len() && forall|k: int|
            0 <= k < files@.len() ==> #[trigger] files@[k].path.deep_view() == output_files(mod_root@, entries@)[k].0
                && files@[k].text@ == output_files(mod_root@, entries@)[k].1,
{
    let ghost es = entries@;
    let nodes = plan_tree(entries)?;
    let ghost v = visit_order(es);
    let ghost outs = output_files(mod_root@, es);
    let mut files: Vec<GeneratedFile> = Vec::new();
    let mut paths: Vec<Vec<String>> = Vec::new();
    proof {
        lemma_visit_order(es);
        lemma_orders_strict_total();
    }
    let mut k: usize = 0;
    while k < nodes.len()
        invariant
            k <= nodes@.len(),
            es == entries@,
            v == visit_order(es),
            outs == output_files(mod_root@, es),
            walk_error(es) is None,
            plan_ok(es, nodes@),
            v.no_duplicates(),
            files@.len() == k,
            forall|a: int| 0 <= a < k ==> #[trigger] files@[a].path.deep_view() == outs[a].0 && files@[a].text@
                == outs[a].1,
            sorted_by(paths.deep_view(), path_lt()),
            forall|p: Seq<Seq<char>>| #[trigger] paths.deep_view().contains(p) <==> exists|a: int|
                0 <= a < k && v[a] == p,
        decreases nodes@.len() - k,
    {
        let node = &nodes[k];
        assert(node_ok(es, nodes@[k as int], v[k as int]));
        let text = emit_node_file(mod_root, entries, node);
        let mut path: Vec<String> = Vec::new();
        path.push(String::from_str("auto"));
        let mut a: usize = 0;
        while a < node.components.len()
            invariant
                path@.len() == a + 1,
                a <= node.components@.len(),
                path@[0]@ == "auto"@,
                forall|b: int| 0 <= b < a ==> path@[b + 1]@ == node.components@[b]@,
            decreases node.components@.len() - a,
        {
            path.push(node.components[a].clone());
            a = a + 1;
        }
        assert(path.deep_view() =~= seq!["auto"@] + v[k as int]) by {
            assert(node.components.deep_view() == v[k as int]);
            assert forall|b: int| 0 <= b < path.deep_view().len() implies path.deep_view()[b] == (seq!["auto"@] + v[k as int])[b] by {
                if b > 0 {
                    assert(path@[b]@ == node.components@[b - 1]@);
                }
            }
        }
        assert(outs[k as int] == (seq!["auto"@] + v[k as int], node_text(mod_root@, es, v[k as int])));
        files.push(GeneratedFile { path, text });
        assert(files@[k as int].path.deep_view() == outs[k as int].0);
        assert(files@[k as int].text@ == outs[k as int].1);
        let ghost before = paths.deep_view();
        insert_path(&mut paths, copy_path(&node.components));
        assert forall|p: Seq<Seq<char>>| #[trigger] paths.deep_view().contains(p) <==> exists|a: int|
            0 <= a < k + 1 && v[a] == p by {
            if exists|a: int| 0 <= a < k + 1 && v[a] == p {
                let a = choose|a: int| 0 <= a < k + 1 && v[a] == p;
                if a < k {
                    assert(before.contains(p));
                }
            }
            if before.contains(p) {
                let a = choose|a: int| 0 <= a < k && v[a] == p;
                assert(0 <= a < k + 1 && v[a] == p);
            }
        }
        k = k + 1;
    }
    let root_dir: Vec<String> = Vec::new();
    let children = collect_children(entries, &root_dir);
    assert(root_dir.deep_view() =~= Seq::<Seq<char>>::empty());
    let mut root = String::new();
    push_child_mods(&mut root, mod_root, "pub ", &children);
    push_dir_write_fn(&mut root, &root_dir, &children);
    root.append("pub fn process_artifacts(out_dir: &::std::path::Path) -> ::std::io::Result<()> {\n    let auto_out_dir_root = &out_dir.join(\"src/auto\");\n    self::write_module(auto_out_dir_root)?;\n");
    let ghost pv = paths.deep_view();
    let ghost mid = root@;
    for k in 0..paths.len()
        invariant
            pv == paths.deep_view(),
            root@ == mid + joined(pv.subrange(0, k as int), call_item()),
    {
        proof {
            lemma_joined_step(pv, call_item(), k as int);
        }
        push_call(&mut root, &paths[k]);
        assert(pv[k as int] == paths@[k as int].deep_view());
        assert(root@ =~= mid + joined(pv.subrange(0, k as int + 1), call_item()));
    }
    assert(pv.subrange(0, pv.len() as int) =~= pv);
    root.append("    Ok(())\n}\n");
    proof {
        assert forall|p: Seq<Seq<char>>| #[trigger] pv.contains(p) <==> v.contains(p) by {
            if v.contains(p) {
                let a = choose|a: int| 0 <= a < v.len() && v[a] == p;
                assert(0 <= a < nodes@.len() && v[a] == p);
            }
        }
        lemma_sorted_unique(sorted_paths(es), pv, path_lt());
    }
    assert(root@ =~= root_text(mod_root@, es));
    let mut top: Vec<String> = Vec::new();
    top.push(String::from_str("auto"));
    assert(top.deep_view() =~= seq!["auto"@]);
    files.push(GeneratedFile { path: top, text: root });
    Ok(files)
}

/// The root module calls the writer of every node of the walk.
pub proof fn lemma_root_calls_every_node(mod_root: Seq<char>, es: Seq<WalkEntry>, c: Seq<Seq<char>>)
    requires
        paths_ok(es),
        visit_order(es).contains(c),
    ensures
        contains_text(root_text(mod_root, es), (call_item())(c)),
{
    let sp = sorted_paths(es);
    assert(sp.contains(c));
    let k = choose|k: int| 0 <= k < sp.len() && sp[k] == c;
    lemma_joined_contains(sp, call_item(), k);
    let head = "pub fn process_artifacts(out_dir: &::std::path::Path) -> ::std::io::Result<()> {\n    let auto_out_dir_root = &out_dir.join(\"src/auto\");\n    self::write_module(auto_out_dir_root)?;\n"@;
    lemma_contains_add(head, joined(sp, call_item()), (call_item())(c));
    lemma_contains_add(head + joined(sp, call_item()), "    Ok(())\n}\n"@, (call_item())(c));
    let ch = children_of(es, Seq::empty());
    lemma_contains_add(
        mods_text(mod_root, "pub "@, ch) + dir_write_fn_text(Seq::empty(), ch),
        process_fn_text(sp),
        (call_item())(c),
    );
}

/// Generation is a function of its inputs: the same walk, with the same
/// descriptors, and the same module root give the same modules, byte for byte.
pub proof fn lemma_generation_deterministic(mod_root: Seq<char>, a: Seq<WalkEntry>, b: Seq<WalkEntry>)
    requires
        a == b,
    ensures
        output_files(mod_root, a) == output_files(mod_root, b),
{
}

} // verus!
