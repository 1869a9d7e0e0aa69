use vstd::prelude::*;

verus! {

/// One entry of a directory tree. A node is a leaf exactly when it is not a
/// directory, and a leaf has no children.
#[derive(Debug)]
pub struct FileNode {
    pub name: String,
    pub path: String,
    pub is_directory: bool,
    pub children: Vec<FileNode>,
}

/// A tree in which, at every depth, a node that is not a directory has no
/// children.
pub open spec fn well_formed(n: FileNode) -> bool
    decreases n,
{
    (!n.is_directory ==> n.children@.len() == 0) && all_well_formed(n.children@)
}

/// Every tree of a listing is well formed.
pub open spec fn all_well_formed(nodes: Seq<FileNode>) -> bool
    decreases nodes,
{
    if nodes.len() == 0 {
        true
    } else {
        well_formed(nodes[0]) && all_well_formed(nodes.subrange(1, nodes.len() as int))
    }
}

impl FileNode {
    /// The node for a directory entry. The children listed for it are kept
    /// only where the entry is a directory, in the order given.
    pub fn from_entry(name: String, path: String, is_directory: bool, children: Vec<FileNode>) -> (r:
        FileNode)
        ensures
            r.name@ == name@,
            r.path@ == path@,
            r.is_directory == is_directory,
            is_directory ==> r.children@ == children@,
            !is_directory ==> r.children@.len() == 0,
            all_well_formed(children@) ==> well_formed(r),
    {
        let r = if is_directory {
            FileNode { name, path, is_directory, children }
        } else {
            FileNode { name, path, is_directory, children: Vec::new() }
        };
        proof {
            if !is_directory {
                assert(r.children@ =~= Seq::<FileNode>::empty());
            }
        }
        r
    }

    /// Whether the node is a leaf: it has no children and is no directory.
    pub fn is_leaf(&self) -> (r: bool)
        ensures
            r == (!self.is_directory && self.children@.len() == 0),
    {
        !self.is_directory && self.children.len() == 0
    }
}

/// One entry of a directory listing.
pub struct DirEntry {
    pub name: String,
    pub path: String,
    pub is_directory: bool,
}

/// The mathematical value of a listing entry.
pub struct EntryView {
    pub name: Seq<char>,
    pub path: Seq<char>,
    pub is_directory: bool,
}

impl View for DirEntry {
    type V = EntryView;

    open spec fn view(&self) -> EntryView {
        EntryView { name: self.name@, path: self.path@, is_directory: self.is_directory }
    }
}

/// The mathematical value of a tree node.
pub struct NodeView {
    pub name: Seq<char>,
    pub path: Seq<char>,
    pub is_directory: bool,
    pub children: Seq<NodeView>,
}

/// Whether the node `n` has the value `v`, at every depth.
pub open spec fn node_matches(n: FileNode, v: NodeView) -> bool
    decreases n,
{
    &&& n.name@ == v.name
    &&& n.path@ == v.path
    &&& n.is_directory == v.is_directory
    &&& nodes_match(n.children@, v.children)
}

/// Whether the nodes `ns` have the values `vs`, one for one.
pub open spec fn nodes_match(ns: Seq<FileNode>, vs: Seq<NodeView>) -> bool
    decreases ns,
{
    &&& ns.len() == vs.len()
    &&& (ns.len() > 0 ==> node_matches(ns[0], vs[0]) && nodes_match(
        ns.subrange(1, ns.len() as int),
        vs.subrange(1, vs.len() as int),
    ))
}

/// The values of a sequence of listings.
pub open spec fn listing_views(ls: Seq<Vec<DirEntry>>) -> Seq<Seq<EntryView>> {
    ls.map_values(|l: Vec<DirEntry>| l@.map_values(|e: DirEntry| e@))
}

/// What reading a listing from one of its entries on yields: the nodes, the
/// index of the first listing not yet used, and the path of the first
/// directory, in depth-first order, that no listing was left for.
pub struct Walked {
    pub nodes: Seq<NodeView>,
    pub next: int,
    pub pending: Option<Seq<char>>,
}

/// Reads the entries of listing `li` from entry `ei` on, depth first, where
/// the listings from index `r` on are still unused. A directory entry takes
/// the next unused listing as its children, whose own directories take the
/// listings after it; a file takes none. A directory for which no listing is
/// left gets no children and is the one still to be listed.
pub open spec fn forest(ls: Seq<Seq<EntryView>>, li: int, ei: int, r: int) -> Walked
    decreases ls.len() - r, ls[li].len() - ei,
{
    if !(0 <= li < ls.len() && 0 <= ei < ls[li].len() && 0 <= r <= ls.len()) {
        Walked { nodes: Seq::empty(), next: r, pending: None }
    } else {
        let e = ls[li][ei];
        if e.is_directory && r < ls.len() {
            let kids = forest(ls, r, 0, r + 1);
            let rc = if kids.next < r + 1 {
                r + 1
            } else if kids.next > ls.len() {
                ls.len() as int
            } else {
                kids.next
            };
            let sibs = forest(ls, li, ei + 1, rc);
            let node = NodeView {
                name: e.name,
                path: e.path,
                is_directory: true,
                children: kids.nodes,
            };
            Walked {
                nodes: seq![node] + sibs.nodes,
                next: sibs.next,
                pending: if kids.pending is Some {
                    kids.pending
                } else {
                    sibs.pending
                },
            }
        } else {
            let sibs = forest(ls, li, ei + 1, r);
            let node = NodeView {
                name: e.name,
                path: e.path,
                is_directory: e.is_directory,
                children: Seq::empty(),
            };
            Walked {
                nodes: seq![node] + sibs.nodes,
                next: sibs.next,
                pending: if e.is_directory {
                    Some(e.path)
                } else {
                    sibs.pending
                },
            }
        }
    }
}

/// The tree that the listings describe, read depth first: the first listing
/// is the top level.
pub open spec fn tree_of(ls: Seq<Seq<EntryView>>) -> Seq<NodeView> {
    forest(ls, 0, 0, 1).nodes
}

/// The directory that a walk from `root` asks for once it has received the
/// listings `ls`: the root first, then each directory in depth-first order
/// that has no listing yet; none once every directory has one.
pub open spec fn request_for(root: Seq<char>, ls: Seq<Seq<EntryView>>) -> Option<Seq<char>> {
    if ls.len() == 0 {
        Some(root)
    } else {
        forest(ls, 0, 0, 1).pending
    }
}

pub open spec fn opt_view(o: Option<String>) -> Option<Seq<char>> {
    match o {
        Some(s) => Some(s@),
        None => None,
    }
}

/// A tree value in which, at every depth, a node that is not a directory
/// has no children.
pub open spec fn view_well_formed(v: NodeView) -> bool
    decreases v,
{
    (!v.is_directory ==> v.children.len() == 0) && views_well_formed(v.children)
}

/// Every tree value of a sequence is well formed.
pub open spec fn views_well_formed(vs: Seq<NodeView>) -> bool
    decreases vs,
{
    vs.len() > 0 ==> view_well_formed(vs[0]) && views_well_formed(vs.subrange(1, vs.len() as int))
}

proof fn lemma_forest_well_formed(ls: Seq<Seq<EntryView>>, li: int, ei: int, r: int)
    ensures
        views_well_formed(forest(ls, li, ei, r).nodes),
    decreases ls.len() - r, ls[li].len() - ei,
{
    let w = forest(ls, li, ei, r);
    if 0 <= li < ls.len() && 0 <= ei < ls[li].len() && 0 <= r <= ls.len() {
        let e = ls[li][ei];
        if e.is_directory && r < ls.len() {
            let kids = forest(ls, r, 0, r + 1);
            let rc = if kids.next < r + 1 {
                r + 1
            } else if kids.next > ls.len() {
                ls.len() as int
            } else {
                kids.next
            };
            lemma_forest_well_formed(ls, r, 0, r + 1);
            lemma_forest_well_formed(ls, li, ei + 1, rc);
            let sibs = forest(ls, li, ei + 1, rc);
            assert(w.nodes.subrange(1, w.nodes.len() as int) =~= sibs.nodes);
            assert(view_well_formed(w.nodes[0]));
        } else {
            lemma_forest_well_formed(ls, li, ei + 1, r);
            let sibs = forest(ls, li, ei + 1, r);
            assert(w.nodes.subrange(1, w.nodes.len() as int) =~= sibs.nodes);
            assert(views_well_formed(Seq::<NodeView>::empty()));
            assert(view_well_formed(w.nodes[0]));
        }
    }
}

/// In the tree that any listings describe, at every depth, a node that is
/// not a directory has no children.
pub proof fn lemma_tree_of_well_formed(ls: Seq<Seq<EntryView>>)
    ensures
        views_well_formed(tree_of(ls)),
{
    lemma_forest_well_formed(ls, 0, 0, 1);
}

proof fn lemma_prepend_matches(n: FileNode, v: NodeView, ns: Seq<FileNode>, vs: Seq<NodeView>)
    requires
        node_matches(n, v),
        nodes_match(ns, vs),
    ensures
        nodes_match(seq![n] + ns, seq![v] + vs),
{
    let a = seq![n] + ns;
    let b = seq![v] + vs;
    assert(a.subrange(1, a.len() as int) =~= ns);
    assert(b.subrange(1, b.len() as int) =~= vs);
    assert(a[0] == n);
    assert(b[0] == v);
}

proof fn lemma_empty_matches()
    ensures
        nodes_match(Seq::<FileNode>::empty(), Seq::<NodeView>::empty()),
{
}

/// Builds the nodes of listing `li` from entry `ei` on, where the listings
/// from index `r` on are still unused.
fn walk_forest(ls: &Vec<Vec<DirEntry>>, li: usize, ei: usize, r: usize) -> (res: (
    Vec<FileNode>,
    usize,
    Option<String>,
))
    requires
        li < ls@.len(),
        r <= ls@.len(),
    ensures
        nodes_match(res.0@, forest(listing_views(ls@), li as int, ei as int, r as int).nodes),
        res.1 as int == forest(listing_views(ls@), li as int, ei as int, r as int).next,
        opt_view(res.2) == forest(listing_views(ls@), li as int, ei as int, r as int).pending,
    decreases ls@.len() - r, ls@[li as int]@.len() - ei,
{
    let ghost lv = listing_views(ls@);
    let listing = &ls[li];
    proof {
        assert(lv[li as int] == listing@.map_values(|e: DirEntry| e@));
    }
    if ei >= listing.len() {
        proof {
            lemma_empty_matches();
        }
        return (Vec::new(), r, None);
    }
    let e = &listing[ei];
    proof {
        assert(lv[li as int][ei as int] == e@);
    }
    if e.is_directory && r < ls.len() {
        proof {
            assert(lv[r as int] == ls@[r as int]@.map_values(|e: DirEntry| e@));
        }
        let (kids, next, kp) = walk_forest(ls, r, 0, r + 1);
        let rc: usize = if next < r + 1 {
            r + 1
        } else if next > ls.len() {
            ls.len()
        } else {
            next
        };
        let (mut sibs, next2, sp) = walk_forest(ls, li, ei + 1, rc);
        let ghost kids_view = kids@;
        let node = FileNode::from_entry(e.name.clone(), e.path.clone(), true, kids);
        proof {
            let w = forest(lv, r as int, 0, r as int + 1);
            assert(node.children@ == kids_view);
            assert(node_matches(
                node,
                NodeView { name: e.name@, path: e.path@, is_directory: true, children: w.nodes },
            ));
            lemma_prepend_matches(
                node,
                NodeView { name: e.name@, path: e.path@, is_directory: true, children: w.nodes },
                sibs@,
                forest(lv, li as int, ei as int + 1, rc as int).nodes,
            );
        }
        let ghost before = sibs@;
        sibs.insert(0, node);
        proof {
            assert(sibs@ =~= seq![node] + before);
        }
        let pending = match kp {
            Some(p) => Some(p),
            None => sp,
        };
        (sibs, next2, pending)
    } else {
        let (mut sibs, next2, sp) = walk_forest(ls, li, ei + 1, r);
        let node = FileNode::from_entry(e.name.clone(), e.path.clone(), e.is_directory, Vec::new());
        proof {
            lemma_empty_matches();
            assert(node.children@ =~= Seq::<FileNode>::empty());
            let v = NodeView {
                name: e.name@,
                path: e.path@,
                is_directory: e.is_directory,
                children: Seq::empty(),
            };
            assert(node_matches(node, v));
            lemma_prepend_matches(node, v, sibs@, forest(lv, li as int, ei as int + 1, r as int).nodes);
        }
        let ghost before = sibs@;
        sibs.insert(0, node);
        proof {
            assert(sibs@ =~= seq![node] + before);
        }
        let pending = if e.is_directory {
            Some(e.path.clone())
        } else {
            sp
        };
        (sibs, next2, pending)
    }
}

/// The root, the listings received so far, in order, and the directory asked
/// for next.
struct WalkState {
    root: String,
    listings: Vec<Vec<DirEntry>>,
    request: Option<String>,
}

impl WalkState {
    spec fn inv(&self) -> bool {
        opt_view(self.request) == request_for(self.root@, listing_views(self.listings@))
    }

    fn new(root: String) -> (r: WalkState)
        ensures
            r.inv(),
            r.root@ == root@,
            r.listings@.len() == 0,
    {
        let request = Some(root.clone());
        WalkState { root, listings: Vec::new(), request }
    }

    fn supply(&mut self, entries: Vec<DirEntry>)
        requires
            old(self).inv(),
        ensures
            final(self).inv(),
            final(self).root@ == old(self).root@,
            old(self).request is Some ==> listing_views(final(self).listings@) == listing_views(
                old(self).listings@,
            ).push(entries@.map_values(|e: DirEntry| e@)),
            old(self).request is None ==> listing_views(final(self).listings@) == listing_views(
                old(self).listings@,
            ),
    {
        if self.request.is_none() {
            return;
        }
        let ghost before = self.listings@;
        let ghost added = entries@;
        self.listings.push(entries);
        proof {
            assert(listing_views(self.listings@) =~= listing_views(before).push(
                added.map_values(|e: DirEntry| e@),
            ));
        }
        let (_, _, pending) = walk_forest(&self.listings, 0, 0, 1);
        self.request = pending;
    }
}

/// A depth-first enumeration of a directory tree. The walk asks for one
/// directory listing at a time: the root first, then each directory entry
/// in depth-first order. Entries keep the order of their listing. A caller
/// that cannot list a directory abandons the walk, so no partial tree is
/// produced. Each supplied listing makes the walk re-read all listings from
/// the start, so a walk costs time quadratic in the number of directories.
pub struct TreeWalk {
    state: WalkState,
}

impl TreeWalk {
    #[verifier::type_invariant]
    spec fn consistent(self) -> bool {
        self.state.inv()
    }

    /// The directory the walk started from.
    pub closed spec fn root(&self) -> Seq<char> {
        self.state.root@
    }

    /// The listings received so far, in the order they were supplied.
    pub closed spec fn listings(&self) -> Seq<Seq<EntryView>> {
        listing_views(self.state.listings@)
    }

    /// The directory the walk asks for next; none once it is done.
    pub closed spec fn requested(&self) -> Option<Seq<char>> {
        opt_view(self.state.request)
    }

    /// A walk that first asks for the listing of `root`.
    pub fn new(root: String) -> (r: TreeWalk)
        ensures
            r.root() == root@,
            r.listings() == Seq::<Seq<EntryView>>::empty(),
            r.requested() == Some(root@),
    {
        let r = TreeWalk { state: WalkState::new(root) };
        proof {
            assert(listing_views(r.state.listings@) =~= Seq::<Seq<EntryView>>::empty());
        }
        r
    }

    /// The directory whose listing the walk needs next, if any.
    pub fn next_request(&self) -> (r: Option<String>)
        ensures
            opt_view(r) == self.requested(),
    {
        match &self.state.request {
            Some(p) => Some(p.clone()),
            None => None,
        }
    }

    /// Hands the walk the listing of the directory it asked for, in
    /// enumeration order. The walk then asks for the next directory in
    /// depth-first order that has no listing, or is done. A listing that was
    /// not asked for is ignored.
    pub fn supply(&mut self, entries: Vec<DirEntry>)
        ensures
            final(self).root() == old(self).root(),
            old(self).requested() is Some ==> final(self).listings() == old(self).listings().push(
                entries@.map_values(|e: DirEntry| e@),
            ),
            old(self).requested() is None ==> final(self).listings() == old(self).listings(),
            final(self).requested() == request_for(final(self).root(), final(self).listings()),
    {
        proof {
            use_type_invariant(&*self);
        }
        let mut state = WalkState::new(String::new());
        std::mem::swap(&mut state, &mut self.state);
        state.supply(entries);
        self.state = state;
    }

    /// The enumerated tree, once the walk is done: the nodes that the
    /// listings describe, read depth first.
    pub fn into_tree(self) -> (r: Option<Vec<FileNode>>)
        ensures
            r is Some == (self.requested() is None),
            r matches Some(t) ==> nodes_match(t@, tree_of(self.listings())),
    {
        proof {
            use_type_invariant(&self);
        }
        if self.state.request.is_some() {
            return None;
        }
        let (nodes, _, _) = walk_forest(&self.state.listings, 0, 0, 1);
        Some(nodes)
    }
}

} // verus!
