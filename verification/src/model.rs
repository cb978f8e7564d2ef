use vstd::prelude::*;

verus! {

/// The view of an optional text.
pub open spec fn opt_view(o: Option<String>) -> Option<Seq<char>> {
    match o {
        Some(s) => Some(s@),
        None => None,
    }
}

/// The views of a list of texts.
pub open spec fn texts_view(v: Seq<String>) -> Seq<Seq<char>> {
    v.map_values(|s: String| s@)
}

pub fn copy_opt(o: &Option<String>) -> (r: Option<String>)
    ensures
        opt_view(r) == opt_view(*o),
{
    match o {
        Some(s) => Some(s.clone()),
        None => None,
    }
}

pub fn copy_texts(v: &Vec<String>) -> (r: Vec<String>)
    ensures
        texts_view(r@) == texts_view(v@),
{
    let mut r: Vec<String> = Vec::new();
    let mut i: usize = 0;
    while i < v.len()
        invariant
            i <= v.len(),
            texts_view(r@) == texts_view(v@.take(i as int)),
        decreases v.len() - i,
    {
        r.push(v[i].clone());
        assert(texts_view(v@.take(i + 1)) =~= texts_view(v@.take(i as int)).push(v@[i as int]@));
        i += 1;
    }
    assert(v@.take(v.len() as int) =~= v@);
    r
}

/// One line of `index.json`: the metadata of a record and the path of its
/// file, relative to the knowledge directory.
pub struct IndexEntry {
    pub id: String,
    pub record_type: String,
    pub title: Option<String>,
    pub name: Option<String>,
    pub domain: Option<String>,
    pub classification: Option<String>,
    pub tags: Vec<String>,
    pub recorded_at: Option<String>,
    pub status: Option<String>,
    pub author: Option<String>,
    pub path: String,
}

/// The mathematical form of an `IndexEntry`.
pub struct EntryView {
    pub id: Seq<char>,
    pub record_type: Seq<char>,
    pub title: Option<Seq<char>>,
    pub name: Option<Seq<char>>,
    pub domain: Option<Seq<char>>,
    pub classification: Option<Seq<char>>,
    pub tags: Seq<Seq<char>>,
    pub recorded_at: Option<Seq<char>>,
    pub status: Option<Seq<char>>,
    pub author: Option<Seq<char>>,
    pub path: Seq<char>,
}

impl View for IndexEntry {
    type V = EntryView;

    open spec fn view(&self) -> EntryView {
        EntryView {
            id: self.id@,
            record_type: self.record_type@,
            title: opt_view(self.title),
            name: opt_view(self.name),
            domain: opt_view(self.domain),
            classification: opt_view(self.classification),
            tags: texts_view(self.tags@),
            recorded_at: opt_view(self.recorded_at),
            status: opt_view(self.status),
            author: opt_view(self.author),
            path: self.path@,
        }
    }
}

impl IndexEntry {
    /// A copy of the entry.
    pub fn duplicate(&self) -> (r: Self)
        ensures
            r@ == self@,
    {
        IndexEntry {
            id: self.id.clone(),
            record_type: self.record_type.clone(),
            title: copy_opt(&self.title),
            name: copy_opt(&self.name),
            domain: copy_opt(&self.domain),
            classification: copy_opt(&self.classification),
            tags: copy_texts(&self.tags),
            recorded_at: copy_opt(&self.recorded_at),
            status: copy_opt(&self.status),
            author: copy_opt(&self.author),
            path: self.path.clone(),
        }
    }
}

/// The views of a list of entries.
pub open spec fn entries_view(v: Seq<IndexEntry>) -> Seq<EntryView> {
    v.map_values(|e: IndexEntry| e@)
}

/// A typed link from the record `from` to the id `to`.
pub struct GraphEdge {
    pub from: String,
    pub to: String,
    pub relation: String,
}

/// The mathematical form of a link: source, target, relation.
pub struct EdgeView {
    pub from: Seq<char>,
    pub to: Seq<char>,
    pub relation: Seq<char>,
}

impl View for GraphEdge {
    type V = EdgeView;

    open spec fn view(&self) -> EdgeView {
        EdgeView { from: self.from@, to: self.to@, relation: self.relation@ }
    }
}

impl GraphEdge {
    pub fn duplicate(&self) -> (r: Self)
        ensures
            r@ == self@,
    {
        GraphEdge { from: self.from.clone(), to: self.to.clone(), relation: self.relation.clone() }
    }
}

/// The views of a list of links.
pub open spec fn edges_view(v: Seq<GraphEdge>) -> Seq<EdgeView> {
    v.map_values(|e: GraphEdge| e@)
}

/// A link whose target is not the id of any record.
pub type BrokenReference = GraphEdge;

/// The health of the link graph.
pub struct GraphValidationReport {
    pub total_nodes: usize,
    pub total_edges: usize,
    pub broken_references: Vec<BrokenReference>,
    pub orphan_nodes: Vec<String>,
    pub has_cycle: bool,
}

/// The answer to a path query.
pub struct PathResult {
    pub found: bool,
    pub from: String,
    pub to: String,
    pub path: Vec<String>,
    pub hops: usize,
}

/// A record near the center of a neighbourhood query, and how many links
/// away it is.
pub struct NeighborNode {
    pub id: String,
    pub distance: usize,
}

/// The answer to a neighbourhood query.
pub struct NeighborsOutput {
    pub center: String,
    pub depth: usize,
    pub neighbors: Vec<NeighborNode>,
}

} // verus!
