//! The snapshot of a project directory: a tree of folders and files, built
//! from what the file system lists, ordered for display and bounded in
//! depth and in the number of entries.
//!
//! The snapshot is built from the listings of the directories read so far.
//! Where it has to open a directory that has not been read, it asks for
//! that directory instead; the caller lists it and asks again. So a
//! directory is read only if the snapshot shows what it holds.

use crate::text::{from_chars, lowered, matches_word, to_chars, to_lower_char};
use vstd::prelude::*;

verus! {

/// How deep the snapshot of a project directory goes.
pub const SNAPSHOT_DEPTH: usize = 4;

/// How many entries the snapshot of a project directory visits.
pub const SNAPSHOT_ENTRIES: usize = 5000;

/// A folder with what it shows, or a file with its path and extension.
#[derive(Debug, PartialEq, Eq)]
pub enum NodeKind {
    Folder { children: Vec<Node> },
    File { path: String, ext: String },
}

/// One entry of the snapshot. Its `id` is its canonical path.
#[derive(Debug, PartialEq, Eq)]
pub struct Node {
    pub id: String,
    pub name: String,
    pub kind: NodeKind,
}

/// What a `NodeKind` holds.
pub enum NodeKindModel {
    Folder { children: Seq<NodeModel> },
    File { path: Seq<char>, ext: Seq<char> },
}

/// What a `Node` holds.
pub struct NodeModel {
    pub id: Seq<char>,
    pub name: Seq<char>,
    pub kind: NodeKindModel,
}

/// What a node holds, with all that stands below it.
pub open spec fn node_model(n: Node) -> NodeModel
    decreases n, 1int, 0int,
{
    NodeModel {
        id: n.id@,
        name: n.name@,
        kind: match n.kind {
            NodeKind::Folder { children } => NodeKindModel::Folder {
                children: child_models(n, children@.len() as int),
            },
            NodeKind::File { path, ext } => NodeKindModel::File { path: path@, ext: ext@ },
        },
    }
}

/// What the first `k` children of the folder `parent` hold.
pub open spec fn child_models(parent: Node, k: int) -> Seq<NodeModel>
    decreases parent, 0int, k,
{
    match parent.kind {
        NodeKind::Folder { children } => if 0 < k <= children@.len() {
            child_models(parent, k - 1).push(node_model(children@[k - 1]))
        } else {
            Seq::empty()
        },
        NodeKind::File { .. } => Seq::empty(),
    }
}

impl View for Node {
    type V = NodeModel;

    open spec fn view(&self) -> NodeModel {
        node_model(*self)
    }
}

/// The children of a folder's model are the models of its children.
pub proof fn lemma_child_models(parent: Node, k: int)
    requires
        parent.kind is Folder,
        0 <= k <= parent.kind->children@.len(),
    ensures
        child_models(parent, k).len() == k,
        forall|i: int|
            0 <= i < k ==> #[trigger] child_models(parent, k)[i] == node_model(
                parent.kind->children@[i],
            ),
    decreases k,
{
    if k > 0 {
        lemma_child_models(parent, k - 1);
    }
}

impl NodeModel {
    /// Number of nodes of the tree.
    pub open spec fn size(self) -> nat
        decreases self,
    {
        match self.kind {
            NodeKindModel::Folder { children } => 1 + total_size(children),
            NodeKindModel::File { .. } => 1,
        }
    }
}

/// Number of nodes of a list of trees.
pub open spec fn total_size(nodes: Seq<NodeModel>) -> nat
    decreases nodes,
{
    if nodes.len() == 0 {
        0
    } else {
        total_size(nodes.drop_last()) + nodes.last().size()
    }
}

/// What the file system shows of one entry: its name, its canonical path
/// (`id`), its path as listed, and whether it is a directory.
#[derive(Debug, Clone, PartialEq, Eq)]
pub struct EntryInfo {
    pub name: String,
    pub id: String,
    pub path: String,
    pub is_dir: bool,
}

/// What an `EntryInfo` holds.
pub struct EntryModel {
    pub name: Seq<char>,
    pub id: Seq<char>,
    pub path: Seq<char>,
    pub is_dir: bool,
}

impl View for EntryInfo {
    type V = EntryModel;

    open spec fn view(&self) -> EntryModel {
        EntryModel { name: self.name@, id: self.id@, path: self.path@, is_dir: self.is_dir }
    }
}

/// What a list of entries holds, entry by entry.
pub open spec fn entry_views(entries: Seq<EntryInfo>) -> Seq<EntryModel> {
    Seq::new(entries.len(), |i: int| entries[i]@)
}

/// What was read of the directory at the path `dir`: its entries, or
/// `None` if it could not be read.
#[derive(Debug, Clone, PartialEq, Eq)]
pub struct Listing {
    pub dir: String,
    pub entries: Option<Vec<EntryInfo>>,
}

/// What a `Listing` holds.
pub struct ListingModel {
    pub dir: Seq<char>,
    pub entries: Option<Seq<EntryModel>>,
}

impl View for Listing {
    type V = ListingModel;

    open spec fn view(&self) -> ListingModel {
        ListingModel {
            dir: self.dir@,
            entries: match self.entries {
                Some(entries) => Some(entry_views(entries@)),
                None => None,
            },
        }
    }
}

/// What a list of listings holds, listing by listing.
pub open spec fn listing_views(listings: Seq<Listing>) -> Seq<ListingModel> {
    Seq::new(listings.len(), |i: int| listings[i]@)
}

/// Index of the first listing of `dir` at or after `from` (the length if
/// the directory has not been read).
pub open spec fn listing_index(listings: Seq<ListingModel>, dir: Seq<char>, from: int) -> int
    decreases listings.len() - from,
{
    if from < 0 || from >= listings.len() {
        listings.len() as int
    } else if listings[from].dir == dir {
        from
    } else {
        listing_index(listings, dir, from + 1)
    }
}

/// The directory at `dir` has been read.
pub open spec fn was_read(listings: Seq<ListingModel>, dir: Seq<char>) -> bool {
    listing_index(listings, dir, 0) < listings.len()
}

/// What the directory at `dir` holds, as far as it is known: its entries
/// if it was read and could be, and nothing otherwise.
pub open spec fn entries_of(listings: Seq<ListingModel>, dir: Seq<char>) -> Seq<EntryModel> {
    let k = listing_index(listings, dir, 0);
    if 0 <= k < listings.len() {
        match listings[k].entries {
            Some(entries) => entries,
            None => Seq::empty(),
        }
    } else {
        Seq::empty()
    }
}

/// Index of the last `.` of `s` before `end`, or -1 if there is none.
pub open spec fn last_dot(s: Seq<char>, end: int) -> int
    decreases end,
{
    if end <= 0 || end > s.len() {
        -1
    } else if s[end - 1] == '.' {
        end - 1
    } else {
        last_dot(s, end - 1)
    }
}

/// The extension of a file name: what stands behind its last `.`, unless
/// that dot opens the name or the name has none.
pub open spec fn extension_of(name: Seq<char>) -> Seq<char> {
    let k = last_dot(name, name.len() as int);
    if k > 0 {
        name.subrange(k + 1, name.len() as int)
    } else {
        Seq::empty()
    }
}

/// An entry whose name starts with `.` is never shown.
pub open spec fn is_hidden(name: Seq<char>) -> bool {
    name.len() > 0 && name[0] == '.'
}

/// Whether an entry appears in the snapshot: hidden entries do not, and
/// neither do files of the legacy `map` extension.
pub open spec fn is_listed(e: EntryModel) -> bool {
    !is_hidden(e.name) && (e.is_dir || lowered(extension_of(e.name)) != "map"@)
}

/// `a` from index `i` on stands at or before `b` from `i` on in the order of
/// the dictionary, character by character.
pub open spec fn text_before(a: Seq<char>, b: Seq<char>, i: int) -> bool
    decreases a.len() - i,
{
    if i < 0 || i >= a.len() {
        true
    } else if i >= b.len() {
        false
    } else if (a[i] as u32) < (b[i] as u32) {
        true
    } else if (a[i] as u32) > (b[i] as u32) {
        false
    } else {
        text_before(a, b, i + 1)
    }
}

/// The order of display: folders before files, then by name without regard
/// to the case of ASCII letters. `a` may stand before `b`.
pub open spec fn stands_before(a: EntryModel, b: EntryModel) -> bool {
    if a.is_dir != b.is_dir {
        a.is_dir
    } else {
        text_before(lowered(a.name), lowered(b.name), 0)
    }
}

/// The ordered list `s` with `e` put in behind every entry that may stand
/// before it.
pub open spec fn inserted(s: Seq<EntryModel>, e: EntryModel) -> Seq<EntryModel>
    decreases s.len(),
{
    if s.len() > 0 && !stands_before(s.last(), e) {
        inserted(s.drop_last(), e).push(s.last())
    } else {
        s.push(e)
    }
}

/// The entries of a directory that are shown, in the order of display.
pub open spec fn listed(children: Seq<EntryModel>) -> Seq<EntryModel>
    decreases children.len(),
{
    if children.len() == 0 {
        Seq::empty()
    } else {
        let before = listed(children.drop_last());
        if is_listed(children.last()) {
            inserted(before, children.last())
        } else {
            before
        }
    }
}

/// The node of a file.
pub open spec fn file_model(e: EntryModel) -> NodeModel {
    NodeModel {
        id: e.id,
        name: e.name,
        kind: NodeKindModel::File { path: e.path, ext: extension_of(e.name) },
    }
}

/// The node of a folder that shows `children`.
pub open spec fn folder_model(e: EntryModel, children: Seq<NodeModel>) -> NodeModel {
    NodeModel { id: e.id, name: e.name, kind: NodeKindModel::Folder { children } }
}

/// How far a visit came: the node is built, with the number of entries
/// visited up to then, or a directory has to be read first.
pub enum Visit {
    Built { node: NodeModel, count: nat },
    Needs { dir: Seq<char> },
}

/// How far the visit of a list of entries came.
pub enum VisitAll {
    Built { nodes: Seq<NodeModel>, count: nat },
    Needs { dir: Seq<char> },
}

/// The nodes `done` followed by what `rest` gives.
pub open spec fn followed_by(done: Seq<NodeModel>, rest: VisitAll) -> VisitAll {
    match rest {
        VisitAll::Built { nodes, count } => VisitAll::Built { nodes: done + nodes, count },
        VisitAll::Needs { dir } => VisitAll::Needs { dir },
    }
}

/// The visit of the entry `e` found at `depth`, `count` entries having
/// been visited before it.
///
/// Every entry that is visited is counted and appears. A directory is
/// opened only above `max_depth` and only while the count has not passed
/// `max_entries`; to be opened it must have been read, and one that could
/// not be read is shown empty.
pub open spec fn visit(
    e: EntryModel,
    listings: Seq<ListingModel>,
    depth: nat,
    max_depth: nat,
    max_entries: nat,
    count: nat,
) -> Visit
    decreases max_depth - depth, 0nat, 0nat,
{
    let seen = count + 1;
    if !e.is_dir {
        Visit::Built { node: file_model(e), count: seen }
    } else if seen > max_entries || depth >= max_depth {
        Visit::Built { node: folder_model(e, Seq::empty()), count: seen }
    } else if !was_read(listings, e.path) {
        Visit::Needs { dir: e.path }
    } else {
        match visit_all(
            listed(entries_of(listings, e.path)),
            listings,
            0,
            depth + 1,
            max_depth,
            max_entries,
            seen,
        ) {
            VisitAll::Built { nodes, count } => Visit::Built {
                node: folder_model(e, nodes),
                count,
            },
            VisitAll::Needs { dir } => Visit::Needs { dir },
        }
    }
}

/// The visit of `entries` from index `from` on, all found at `depth`. Once
/// the count has passed `max_entries` the entries that are left are omitted.
pub open spec fn visit_all(
    entries: Seq<EntryModel>,
    listings: Seq<ListingModel>,
    from: int,
    depth: nat,
    max_depth: nat,
    max_entries: nat,
    count: nat,
) -> VisitAll
    decreases max_depth - depth, 1nat, entries.len() - from,
{
    if from < 0 || from >= entries.len() || count > max_entries {
        VisitAll::Built { nodes: Seq::empty(), count }
    } else {
        match visit(entries[from], listings, depth, max_depth, max_entries, count) {
            Visit::Built { node, count } => followed_by(
                seq![node],
                visit_all(entries, listings, from + 1, depth, max_depth, max_entries, count),
            ),
            Visit::Needs { dir } => VisitAll::Needs { dir },
        }
    }
}

/// The snapshot of a directory, or the directory to read next.
#[derive(Debug, PartialEq, Eq)]
pub enum Snapshot {
    Ready(Node),
    Needs(String),
}

/// What a `Snapshot` holds.
pub enum SnapshotModel {
    Ready(NodeModel),
    Needs(Seq<char>),
}

impl View for Snapshot {
    type V = SnapshotModel;

    open spec fn view(&self) -> SnapshotModel {
        match *self {
            Snapshot::Ready(node) => SnapshotModel::Ready(node@),
            Snapshot::Needs(dir) => SnapshotModel::Needs(dir@),
        }
    }
}

/// The snapshot of the directory `root` from the listings read so far, or
/// the first directory on the way that has to be read.
pub open spec fn snapshot_of(
    root: EntryModel,
    listings: Seq<ListingModel>,
    max_depth: nat,
    max_entries: nat,
) -> SnapshotModel {
    match visit(root, listings, 0, max_depth, max_entries, 0) {
        Visit::Built { node, .. } => SnapshotModel::Ready(node),
        Visit::Needs { dir } => SnapshotModel::Needs(dir),
    }
}

/// Of two texts, one stands at or before the other.
pub proof fn lemma_text_before_total(a: Seq<char>, b: Seq<char>, i: int)
    requires
        0 <= i,
    ensures
        text_before(a, b, i) || text_before(b, a, i),
    decreases a.len() - i,
{
    if i < a.len() && i < b.len() && (a[i] as u32) == (b[i] as u32) {
        lemma_text_before_total(a, b, i + 1);
    }
}

/// The order of texts carries over from two steps to one.
pub proof fn lemma_text_before_transitive(a: Seq<char>, b: Seq<char>, c: Seq<char>, i: int)
    requires
        0 <= i,
        text_before(a, b, i),
        text_before(b, c, i),
    ensures
        text_before(a, c, i),
    decreases a.len() - i,
{
    if i < a.len() {
        assert(i < b.len());
        assert(i < c.len());
        if (a[i] as u32) == (b[i] as u32) && (b[i] as u32) == (c[i] as u32) {
            lemma_text_before_transitive(a, b, c, i + 1);
        }
    }
}

/// Of two entries, one may stand before the other.
pub proof fn lemma_stands_before_total(a: EntryModel, b: EntryModel)
    ensures
        stands_before(a, b) || stands_before(b, a),
{
    lemma_text_before_total(lowered(a.name), lowered(b.name), 0);
}

/// The order of display carries over from two steps to one.
pub proof fn lemma_stands_before_transitive(a: EntryModel, b: EntryModel, c: EntryModel)
    requires
        stands_before(a, b),
        stands_before(b, c),
    ensures
        stands_before(a, c),
{
    if a.is_dir == b.is_dir && b.is_dir == c.is_dir {
        lemma_text_before_transitive(lowered(a.name), lowered(b.name), lowered(c.name), 0);
    }
}

/// Every entry of the list may stand before every entry behind it.
pub open spec fn in_order(s: Seq<EntryModel>) -> bool {
    forall|i: int, j: int| 0 <= i < j < s.len() ==> stands_before(#[trigger] s[i], #[trigger] s[j])
}

/// Putting an entry into an ordered list leaves the list ordered, and adds
/// that entry and nothing else.
pub proof fn lemma_inserted(s: Seq<EntryModel>, e: EntryModel)
    requires
        in_order(s),
    ensures
        in_order(inserted(s, e)),
        inserted(s, e).to_multiset() == s.to_multiset().insert(e),
    decreases s.len(),
{
    broadcast use vstd::seq_lib::group_to_multiset_ensures;

    if s.len() > 0 && !stands_before(s.last(), e) {
        let head = s.drop_last();
        let last = s.last();
        assert(s =~= head.push(last));
        assert(in_order(head)) by {
            assert forall|i: int, j: int| 0 <= i < j < head.len() implies stands_before(
                #[trigger] head[i],
                #[trigger] head[j],
            ) by {
                assert(stands_before(s[i], s[j]));
            }
        }
        lemma_inserted(head, e);
        let r = inserted(head, e);
        let all = r.push(last);
        assert(all.to_multiset() =~= s.to_multiset().insert(e));
        assert forall|i: int, j: int| 0 <= i < j < all.len() implies stands_before(
            #[trigger] all[i],
            #[trigger] all[j],
        ) by {
            if j < r.len() {
                assert(stands_before(r[i], r[j]));
            } else {
                assert(r.contains(r[i]));
                assert(r.to_multiset().count(r[i]) > 0);
                if r[i] == e {
                    lemma_stands_before_total(last, e);
                } else {
                    assert(head.to_multiset().count(r[i]) > 0);
                    assert(head.contains(r[i]));
                    let m = choose|m: int| 0 <= m < head.len() && head[m] == r[i];
                    assert(stands_before(s[m], s[s.len() - 1]));
                }
            }
        }
    } else {
        let all = s.push(e);
        assert forall|i: int, j: int| 0 <= i < j < all.len() implies stands_before(
            #[trigger] all[i],
            #[trigger] all[j],
        ) by {
            if j < s.len() {
                assert(stands_before(s[i], s[j]));
            } else if i < s.len() - 1 {
                assert(stands_before(s[i], s[s.len() - 1]));
                lemma_stands_before_transitive(s[i], s.last(), e);
            }
        }
    }
}

/// What is shown of a directory is in the order of display, and it is what
/// the directory holds of entries that are shown: each of them once for
/// each time it was listed, and nothing else.
pub proof fn lemma_listed(children: Seq<EntryModel>)
    ensures
        in_order(listed(children)),
        listed(children).to_multiset() == children.filter(
            |e: EntryModel| is_listed(e),
        ).to_multiset(),
    decreases children.len(),
{
    broadcast use vstd::seq_lib::group_to_multiset_ensures;

    reveal(Seq::filter);
    if children.len() > 0 {
        lemma_listed(children.drop_last());
        if is_listed(children.last()) {
            lemma_inserted(listed(children.drop_last()), children.last());
        }
    }
}

/// The order of display on the nodes of a snapshot.
pub open spec fn shown_before(a: NodeModel, b: NodeModel) -> bool {
    if (a.kind is Folder) != (b.kind is Folder) {
        a.kind is Folder
    } else {
        text_before(lowered(a.name), lowered(b.name), 0)
    }
}

/// Every node of the list may stand before every node behind it.
pub open spec fn nodes_in_order(s: Seq<NodeModel>) -> bool {
    forall|i: int, j: int| 0 <= i < j < s.len() ==> shown_before(#[trigger] s[i], #[trigger] s[j])
}

impl NodeModel {
    /// The children of every folder of the tree are in the order of display.
    pub open spec fn is_ordered(self) -> bool
        decreases self,
    {
        match self.kind {
            NodeKindModel::Folder { children } => nodes_in_order(children) && forall|k: int|
                0 <= k < children.len() ==> (#[trigger] children[k]).is_ordered(),
            NodeKindModel::File { .. } => true,
        }
    }
}

/// The listing that is found is the first one of the directory.
pub proof fn lemma_listing_index(listings: Seq<ListingModel>, dir: Seq<char>, from: int)
    requires
        0 <= from <= listings.len(),
    ensures
        from <= listing_index(listings, dir, from) <= listings.len(),
        forall|k: int|
            from <= k < listing_index(listings, dir, from) ==> (#[trigger] listings[k]).dir != dir,
        listing_index(listings, dir, from) < listings.len() ==> listings[listing_index(
            listings,
            dir,
            from,
        )].dir == dir,
    decreases listings.len() - from,
{
    if from < listings.len() && listings[from].dir != dir {
        lemma_listing_index(listings, dir, from + 1);
    }
}

/// A node that is built has the name, the id and the kind of its entry,
/// and is ordered throughout. A directory that is asked for has not been read.
pub proof fn lemma_visit(
    e: EntryModel,
    listings: Seq<ListingModel>,
    depth: nat,
    max_depth: nat,
    max_entries: nat,
    count: nat,
)
    ensures
        match visit(e, listings, depth, max_depth, max_entries, count) {
            Visit::Built { node, .. } => node.name == e.name && node.id == e.id && (node.kind
                is Folder) == e.is_dir && node.is_ordered(),
            Visit::Needs { dir } => !was_read(listings, dir),
        },
    decreases max_depth - depth, 0nat, 0nat,
{
    let seen = count + 1;
    if e.is_dir && !(seen > max_entries || depth >= max_depth) && was_read(listings, e.path) {
        lemma_listed(entries_of(listings, e.path));
        lemma_visit_all(
            listed(entries_of(listings, e.path)),
            listings,
            0,
            depth + 1,
            max_depth,
            max_entries,
            seen,
        );
    }
}

/// The nodes built of ordered entries stand for a run of those entries,
/// one for one, and are in order themselves.
pub proof fn lemma_visit_all(
    entries: Seq<EntryModel>,
    listings: Seq<ListingModel>,
    from: int,
    depth: nat,
    max_depth: nat,
    max_entries: nat,
    count: nat,
)
    requires
        in_order(entries),
        0 <= from,
    ensures
        match visit_all(entries, listings, from, depth, max_depth, max_entries, count) {
            VisitAll::Built { nodes, .. } => {
                &&& from + nodes.len() <= entries.len() || nodes.len() == 0
                &&& forall|k: int|
                    0 <= k < nodes.len() ==> (#[trigger] nodes[k]).name == entries[from + k].name
                        && (nodes[k].kind is Folder) == entries[from + k].is_dir
                        && nodes[k].is_ordered()
                &&& nodes_in_order(nodes)
            },
            VisitAll::Needs { dir } => !was_read(listings, dir),
        },
    decreases max_depth - depth, 1nat, entries.len() - from,
{
    if from >= entries.len() || count > max_entries {
    } else {
        lemma_visit(entries[from], listings, depth, max_depth, max_entries, count);
        match visit(entries[from], listings, depth, max_depth, max_entries, count) {
            Visit::Built { node, count: seen } => {
                lemma_visit_all(entries, listings, from + 1, depth, max_depth, max_entries, seen);
                match visit_all(entries, listings, from + 1, depth, max_depth, max_entries, seen) {
                    VisitAll::Built { nodes: rest, .. } => {
                        let out = seq![node] + rest;
                        assert forall|k: int| 0 <= k < out.len() implies (#[trigger] out[k]).name
                            == entries[from + k].name && (out[k].kind is Folder) == entries[from
                            + k].is_dir && out[k].is_ordered() by {
                            if k > 0 {
                                assert(out[k] == rest[k - 1]);
                            }
                        }
                        assert forall|i: int, j: int| 0 <= i < j < out.len() implies shown_before(
                            #[trigger] out[i],
                            #[trigger] out[j],
                        ) by {
                            assert(stands_before(entries[from + i], entries[from + j]));
                        }
                    },
                    VisitAll::Needs { .. } => {},
                }
            },
            Visit::Needs { .. } => {},
        }
    }
}

/// A tree put before a list of trees adds its size to theirs.
pub proof fn lemma_total_size_prepend(first: NodeModel, rest: Seq<NodeModel>)
    ensures
        total_size(seq![first] + rest) == first.size() + total_size(rest),
    decreases rest.len(),
{
    let all = seq![first] + rest;
    assert(total_size(all) == total_size(all.drop_last()) + all.last().size());
    if rest.len() == 0 {
        assert(all.drop_last() =~= Seq::<NodeModel>::empty());
        assert(all.last() == first);
        assert(total_size(rest) == 0);
        assert(total_size(all.drop_last()) == 0);
    } else {
        assert(all.drop_last() =~= seq![first] + rest.drop_last());
        assert(all.last() == rest.last());
        assert(total_size(rest) == total_size(rest.drop_last()) + rest.last().size());
        lemma_total_size_prepend(first, rest.drop_last());
    }
}

/// A visit counts every node that it builds, and the count never passes
/// `max_entries` by more than one.
pub proof fn lemma_visit_counts(
    e: EntryModel,
    listings: Seq<ListingModel>,
    depth: nat,
    max_depth: nat,
    max_entries: nat,
    count: nat,
)
    requires
        count <= max_entries,
    ensures
        visit(e, listings, depth, max_depth, max_entries, count) matches Visit::Built {
            node,
            count: seen,
        } ==> seen <= max_entries + 1 && seen == count + node.size(),
    decreases max_depth - depth, 0nat, 0nat,
{
    let seen = count + 1;
    if !e.is_dir {
    } else if seen > max_entries || depth >= max_depth {
        assert(total_size(Seq::<NodeModel>::empty()) == 0);
    } else if was_read(listings, e.path) {
        lemma_visit_all_counts(
            listed(entries_of(listings, e.path)),
            listings,
            0,
            depth + 1,
            max_depth,
            max_entries,
            seen,
        );
    }
}

/// A visit of a list counts every node that it builds, and the count
/// never passes `max_entries` by more than one.
pub proof fn lemma_visit_all_counts(
    entries: Seq<EntryModel>,
    listings: Seq<ListingModel>,
    from: int,
    depth: nat,
    max_depth: nat,
    max_entries: nat,
    count: nat,
)
    requires
        count <= max_entries + 1,
    ensures
        visit_all(entries, listings, from, depth, max_depth, max_entries, count)
            matches VisitAll::Built { nodes, count: seen } ==> seen <= max_entries + 1 && seen
            == count + total_size(nodes),
    decreases max_depth - depth, 1nat, entries.len() - from,
{
    if from < 0 || from >= entries.len() || count > max_entries {
        assert(total_size(Seq::<NodeModel>::empty()) == 0);
    } else {
        lemma_visit_counts(entries[from], listings, depth, max_depth, max_entries, count);
        match visit(entries[from], listings, depth, max_depth, max_entries, count) {
            Visit::Built { node, count: seen } => {
                lemma_visit_all_counts(
                    entries,
                    listings,
                    from + 1,
                    depth,
                    max_depth,
                    max_entries,
                    seen,
                );
                match visit_all(entries, listings, from + 1, depth, max_depth, max_entries, seen) {
                    VisitAll::Built { nodes: rest, .. } => {
                        lemma_total_size_prepend(node, rest);
                    },
                    VisitAll::Needs { .. } => {},
                }
            },
            Visit::Needs { .. } => {},
        }
    }
}

/// A snapshot that is ready holds at most one node more than
/// `max_entries`, has the name and the id of the root, and shows the
/// children of every folder in the order of display: folders before files,
/// then by name without regard to case. A directory that is asked for has
/// not been read yet.
pub proof fn lemma_snapshot(
    root: EntryModel,
    listings: Seq<ListingModel>,
    max_depth: nat,
    max_entries: nat,
)
    ensures
        match snapshot_of(root, listings, max_depth, max_entries) {
            SnapshotModel::Ready(node) => {
                &&& node.size() <= max_entries + 1
                &&& node.is_ordered()
                &&& node.id == root.id
                &&& node.name == root.name
            },
            SnapshotModel::Needs(dir) => !was_read(listings, dir),
        },
{
    lemma_visit_counts(root, listings, 0, max_depth, max_entries, 0);
    lemma_visit(root, listings, 0, max_depth, max_entries, 0);
}

fn lowered_chars(s: &[char]) -> (out: Vec<char>)
    ensures
        out@ == lowered(s@),
{
    let mut out: Vec<char> = Vec::new();
    let mut i: usize = 0;
    while i < s.len()
        invariant
            i <= s.len(),
            out@ == lowered(s@).subrange(0, i as int),
        decreases s.len() - i,
    {
        out.push(to_lower_char(s[i]));
        i += 1;
        assert(out@ =~= lowered(s@).subrange(0, i as int));
    }
    assert(lowered(s@).subrange(0, i as int) =~= lowered(s@));
    out
}

fn text_at_or_before(a: &[char], b: &[char]) -> (r: bool)
    ensures
        r == text_before(a@, b@, 0),
{
    let mut i: usize = 0;
    while i < a.len()
        invariant
            i <= a.len(),
            text_before(a@, b@, i as int) == text_before(a@, b@, 0),
        decreases a.len() - i,
    {
        if i >= b.len() {
            return false;
        }
        let x: u32 = a[i] as u32;
        let y: u32 = b[i] as u32;
        if x < y {
            return true;
        }
        if x > y {
            return false;
        }
        i += 1;
    }
    true
}

fn extension(name: &[char]) -> (out: &[char])
    ensures
        out@ == extension_of(name@),
{
    let mut end: usize = name.len();
    while end > 0 && name[end - 1] != '.'
        invariant
            end <= name.len(),
            last_dot(name@, end as int) == last_dot(name@, name@.len() as int),
        decreases end,
    {
        end -= 1;
    }
    if end > 1 {
        vstd::slice::slice_subrange(name, end, name.len())
    } else {
        vstd::slice::slice_subrange(name, 0, 0)
    }
}

/// An entry together with its name in lower case, by which it is ordered.
struct Keyed<'a> {
    entry: &'a EntryInfo,
    key: Vec<char>,
}

spec fn keyed(k: Keyed) -> bool {
    k.key@ == lowered(k.entry.name@)
}

spec fn all_keyed(list: Seq<Keyed>) -> bool {
    forall|i: int| 0 <= i < list.len() ==> keyed(#[trigger] list[i])
}

spec fn keyed_entries(list: Seq<Keyed>) -> Seq<EntryModel> {
    Seq::new(list.len(), |i: int| list[i].entry@)
}

fn may_stand_before(a: &Keyed, e: &EntryInfo, key: &Vec<char>) -> (r: bool)
    requires
        keyed(*a),
        key@ == lowered(e.name@),
    ensures
        r == stands_before(a.entry@, e@),
{
    if a.entry.is_dir != e.is_dir {
        a.entry.is_dir
    } else {
        text_at_or_before(a.key.as_slice(), key.as_slice())
    }
}

fn insert_entry<'a>(list: &mut Vec<Keyed<'a>>, e: &'a EntryInfo, key: Vec<char>)
    requires
        all_keyed(old(list)@),
        key@ == lowered(e.name@),
    ensures
        all_keyed(final(list)@),
        keyed_entries(final(list)@) == inserted(keyed_entries(old(list)@), e@),
{
    let ghost all = keyed_entries(list@);
    let mut j: usize = list.len();
    assert(all.subrange(0, j as int) =~= all);
    assert(inserted(all, e@) =~= inserted(all.subrange(0, j as int), e@) + all.subrange(
        j as int,
        all.len() as int,
    ));
    while j > 0 && !may_stand_before(&list[j - 1], e, &key)
        invariant
            j <= list.len(),
            list@ == old(list)@,
            all == keyed_entries(list@),
            all_keyed(list@),
            key@ == lowered(e.name@),
            inserted(all, e@) == inserted(all.subrange(0, j as int), e@) + all.subrange(
                j as int,
                all.len() as int,
            ),
        decreases j,
    {
        proof {
            let head = all.subrange(0, j as int);
            assert(head.last() == all[j - 1]);
            assert(head.drop_last() =~= all.subrange(0, j - 1));
            assert(inserted(head, e@) == inserted(all.subrange(0, j - 1), e@).push(all[j - 1]));
            assert(inserted(all.subrange(0, j - 1), e@).push(all[j - 1]) + all.subrange(
                j as int,
                all.len() as int,
            ) =~= inserted(all.subrange(0, j - 1), e@) + all.subrange(j - 1, all.len() as int));
        }
        j -= 1;
    }
    proof {
        let head = all.subrange(0, j as int);
        if j > 0 {
            assert(head.last() == all[j - 1]);
        }
        assert(inserted(head, e@) == head.push(e@));
    }
    list.insert(j, Keyed { entry: e, key });
    proof {
        assert(keyed_entries(list@) =~= all.subrange(0, j as int).push(e@) + all.subrange(
            j as int,
            all.len() as int,
        ));
        assert forall|i: int| 0 <= i < list@.len() implies keyed(#[trigger] list@[i]) by {
            if i < j {
                assert(list@[i] == old(list)@[i]);
            } else if i > j {
                assert(list@[i] == old(list)@[i - 1]);
            }
        }
    }
}

/// Whether an entry of the given name appears in the snapshot; `is_dir`
/// says whether it is a directory.
pub fn is_shown(name: &str, is_dir: bool) -> (r: bool)
    ensures
        r == (!is_hidden(name@) && (is_dir || lowered(extension_of(name@)) != "map"@)),
{
    let chars = to_chars(name);
    if chars.len() > 0 && chars[0] == '.' {
        return false;
    }
    is_dir || !matches_word(extension(chars.as_slice()), "map")
}

/// The entries of a directory that are shown, in the order of display.
fn list_entries<'a>(children: &'a Vec<EntryInfo>) -> (out: Vec<Keyed<'a>>)
    ensures
        all_keyed(out@),
        keyed_entries(out@) == listed(entry_views(children@)),
{
    let ghost all = entry_views(children@);
    let mut out: Vec<Keyed<'a>> = Vec::new();
    let mut i: usize = 0;
    assert(keyed_entries(out@) =~= listed(all.subrange(0, 0)));
    while i < children.len()
        invariant
            i <= children.len(),
            all == entry_views(children@),
            all_keyed(out@),
            keyed_entries(out@) == listed(all.subrange(0, i as int)),
        decreases children.len() - i,
    {
        proof {
            assert(all.subrange(0, i + 1).drop_last() =~= all.subrange(0, i as int));
            assert(all.subrange(0, i + 1).last() == children@[i as int]@);
        }
        let e = &children[i];
        if is_shown(e.name.as_str(), e.is_dir) {
            let name = to_chars(e.name.as_str());
            let key = lowered_chars(name.as_slice());
            insert_entry(&mut out, e, key);
        }
        i += 1;
    }
    assert(all.subrange(0, i as int) =~= all);
    out
}

/// The first listing of the directory at `dir`, if it was read.
fn find_listing<'a>(listings: &'a Vec<Listing>, dir: &String) -> (r: Option<&'a Listing>)
    ensures
        match r {
            Some(listing) => was_read(listing_views(listings@), dir@) && listing@
                == listing_views(listings@)[listing_index(listing_views(listings@), dir@, 0)],
            None => !was_read(listing_views(listings@), dir@),
        },
{
    let ghost all = listing_views(listings@);
    let mut i: usize = 0;
    while i < listings.len()
        invariant
            i <= listings.len(),
            all == listing_views(listings@),
            listing_index(all, dir@, i as int) == listing_index(all, dir@, 0),
        decreases listings.len() - i,
    {
        assert(all[i as int] == listings@[i as int]@);
        if listings[i].dir == *dir {
            return Some(&listings[i]);
        }
        i += 1;
    }
    None
}

spec fn models_of(nodes: Seq<Node>) -> Seq<NodeModel> {
    Seq::new(nodes.len(), |i: int| node_model(nodes[i]))
}

fn build(
    e: &EntryInfo,
    listings: &Vec<Listing>,
    depth: usize,
    max_depth: usize,
    max_entries: usize,
    count: &mut u128,
) -> (r: Result<Node, String>)
    requires
        depth <= max_depth,
        *old(count) <= max_entries,
    ensures
        match r {
            Ok(node) => visit(
                e@,
                listing_views(listings@),
                depth as nat,
                max_depth as nat,
                max_entries as nat,
                *old(count) as nat,
            ) == (Visit::Built { node: node@, count: *final(count) as nat }),
            Err(dir) => visit(
                e@,
                listing_views(listings@),
                depth as nat,
                max_depth as nat,
                max_entries as nat,
                *old(count) as nat,
            ) == (Visit::Needs { dir: dir@ }),
        },
    decreases max_depth - depth,
{
    *count = *count + 1;
    let id = e.id.clone();
    let name = e.name.clone();
    if !e.is_dir {
        let chars = to_chars(e.name.as_str());
        let ext = from_chars(extension(chars.as_slice()));
        return Ok(Node { id, name, kind: NodeKind::File { path: e.path.clone(), ext } });
    }
    let mut kids: Vec<Node> = Vec::new();
    if *count <= max_entries as u128 && depth < max_depth {
        let empty: Vec<EntryInfo> = Vec::new();
        let listing: &Listing = match find_listing(listings, &e.path) {
            None => {
                return Err(e.path.clone());
            },
            Some(listing) => listing,
        };
        let children: &Vec<EntryInfo> = match &listing.entries {
            Some(entries) => entries,
            None => &empty,
        };
        proof {
            let read = listing_views(listings@);
            let idx = listing_index(read, e@.path, 0);
            lemma_listing_index(read, e@.path, 0);
            assert(read[idx] == listing@);
            if listing.entries is None {
                assert(entry_views(children@) =~= Seq::<EntryModel>::empty());
            }
            assert(entry_views(children@) == entries_of(read, e@.path));
        }
        let list = list_entries(children);
        let ghost entries = keyed_entries(list@);
        let ghost all = listing_views(listings@);
        let ghost seen = *count as nat;
        let ghost d = (depth + 1) as nat;
        let ghost md = max_depth as nat;
        let ghost me = max_entries as nat;
        let mut k: usize = 0;
        proof {
            let whole = visit_all(entries, all, 0, d, md, me, seen);
            assert(followed_by(models_of(kids@), whole) == whole) by {
                match whole {
                    VisitAll::Built { nodes, .. } => {
                        assert(models_of(kids@) + nodes =~= nodes);
                    },
                    VisitAll::Needs { .. } => {},
                }
            }
        }
        while k < list.len() && *count <= max_entries as u128
            invariant
                k <= list.len(),
                depth < max_depth,
                d == depth + 1,
                md == max_depth,
                me == max_entries,
                all == listing_views(listings@),
                entries == keyed_entries(list@),
                e.is_dir,
                seen == *old(count) + 1,
                seen <= me,
                was_read(all, e@.path),
                entries == listed(entries_of(all, e@.path)),
                *count <= max_entries + 1,
                visit_all(entries, all, 0, d, md, me, seen) == followed_by(
                    models_of(kids@),
                    visit_all(entries, all, k as int, d, md, me, *count as nat),
                ),
            decreases list.len() - k,
        {
            let ghost before = models_of(kids@);
            let ghost c = *count as nat;
            proof {
                lemma_visit_counts(entries[k as int], all, d, md, me, c);
            }
            match build(list[k].entry, listings, depth + 1, max_depth, max_entries, count) {
                Err(dir) => {
                    proof {
                        assert(visit_all(entries, all, k as int, d, md, me, c) == (
                        VisitAll::Needs { dir: dir@ }));
                    }
                    return Err(dir);
                },
                Ok(child) => {
                    kids.push(child);
                    proof {
                        let rest = visit_all(entries, all, k + 1, d, md, me, *count as nat);
                        assert(models_of(kids@) =~= before.push(node_model(child)));
                        assert(followed_by(before, followed_by(seq![node_model(child)], rest))
                            == followed_by(models_of(kids@), rest)) by {
                            match rest {
                                VisitAll::Built { nodes, .. } => {
                                    assert(before + (seq![node_model(child)] + nodes)
                                        =~= models_of(kids@) + nodes);
                                },
                                VisitAll::Needs { .. } => {},
                            }
                        }
                    }
                },
            }
            k += 1;
        }
        proof {
            let rest = visit_all(entries, all, k as int, d, md, me, *count as nat);
            assert(rest == (VisitAll::Built { nodes: Seq::empty(), count: *count as nat }));
            assert(models_of(kids@) + Seq::<NodeModel>::empty() =~= models_of(kids@));
        }
    }
    let node = Node { id, name, kind: NodeKind::Folder { children: kids } };
    proof {
        lemma_child_models(node, kids@.len() as int);
        assert(child_models(node, kids@.len() as int) =~= models_of(kids@));
    }
    Ok(node)
}

/// Builds the snapshot of the directory `root` from the listings read so
/// far, or names the directory that has to be read next.
///
/// Folders come before files, each group in the order of the names without
/// regard to case. Hidden entries and legacy map files are left out. A
/// directory at `max_depth` is shown without its contents, and the entry
/// that takes the count past `max_entries` is the last one shown. A
/// directory that could not be read is shown empty.
pub fn load_tree_from(
    root: &EntryInfo,
    listings: &Vec<Listing>,
    max_depth: usize,
    max_entries: usize,
) -> (r: Snapshot)
    ensures
        r@ == snapshot_of(
            root@,
            listing_views(listings@),
            max_depth as nat,
            max_entries as nat,
        ),
        match r {
            Snapshot::Ready(node) => {
                &&& node@.size() <= max_entries + 1
                &&& node@.is_ordered()
                &&& node@.id == root.id@
                &&& node@.name == root.name@
            },
            Snapshot::Needs(dir) => !was_read(listing_views(listings@), dir@),
        },
{
    proof {
        lemma_snapshot(root@, listing_views(listings@), max_depth as nat, max_entries as nat);
    }
    let mut count: u128 = 0;
    match build(root, listings, 0, max_depth, max_entries, &mut count) {
        Ok(node) => Snapshot::Ready(node),
        Err(dir) => Snapshot::Needs(dir),
    }
}

} // verus!
