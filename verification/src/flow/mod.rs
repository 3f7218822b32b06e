//! Flow charts of flow skills: nodes, edges, and the check that a chart can be run.
use vstd::prelude::*;
use vstd::seq_lib::*;

use crate::message::ContentPart;
use crate::text::{
    decimal, format_usize, owned, push_str, str_chars, trim, trim_chars, unicode_lowercase,
};

pub mod d2;
pub mod mermaid;

verus! {

broadcast use vstd::seq_lib::group_seq_properties;

/// The role of a node in a flow.
#[derive(Clone, Copy, Debug, PartialEq, Eq, Structural)]
pub enum FlowNodeKind {
    Begin,
    End,
    Task,
    Decision,
}

/// The label of a node: plain text or message parts.
#[derive(Clone, Debug)]
pub enum FlowLabel {
    Text(String),
    Parts(Vec<ContentPart>),
}

/// A node of a flow.
#[derive(Clone, Debug)]
pub struct FlowNode {
    pub id: String,
    pub label: FlowLabel,
    pub kind: FlowNodeKind,
}

/// A directed, optionally labelled edge.
#[derive(Clone, Debug)]
pub struct FlowEdge {
    pub src: String,
    pub dst: String,
    pub label: Option<String>,
}

/// The outgoing edges of each node, keyed by node id.
pub type FlowAdjacency = Vec<(String, Vec<FlowEdge>)>;

/// A parsed and validated flow.
#[derive(Clone, Debug)]
pub struct Flow {
    pub nodes: Vec<FlowNode>,
    pub outgoing: FlowAdjacency,
    pub begin_id: String,
    pub end_id: String,
}

/// The plain view of an edge: source, destination and label.
pub open spec fn edge_view(e: FlowEdge) -> (Seq<char>, Seq<char>, Option<Seq<char>>) {
    (e.src@, e.dst@, opt_str(e.label))
}

/// The view of an optional string.
pub open spec fn opt_str(o: Option<String>) -> Option<Seq<char>> {
    match o {
        Some(s) => Some(s@),
        None => None,
    }
}

impl FlowEdge {
    /// An edge from `src` to `dst`.
    pub fn new(src: String, dst: String, label: Option<String>) -> (r: FlowEdge)
        ensures
            r.src == src,
            r.dst == dst,
            r.label == label,
    {
        FlowEdge { src, dst, label }
    }
}

/// A copy of an optional string.
pub fn clone_opt_string(o: &Option<String>) -> (r: Option<String>)
    ensures
        r == *o,
{
    match o {
        Some(s) => Some(s.clone()),
        None => None,
    }
}

/// A copy of an edge.
pub fn clone_edge(e: &FlowEdge) -> (r: FlowEdge)
    ensures
        r == *e,
{
    FlowEdge { src: e.src.clone(), dst: e.dst.clone(), label: clone_opt_string(&e.label) }
}

impl FlowNode {
    /// A node with the given id, label and kind.
    pub fn new(id: String, label: FlowLabel, kind: FlowNodeKind) -> (r: FlowNode)
        ensures
            r.id == id,
            r.label == label,
            r.kind == kind,
    {
        FlowNode { id, label, kind }
    }

    /// The label as text: the text itself, or the text parts joined by spaces.
    pub fn label_as_string(&self) -> (r: String)
        ensures
            r@ == label_text(self.label),
    {
        match &self.label {
            FlowLabel::Text(t) => t.clone(),
            FlowLabel::Parts(parts) => content_parts_to_text(parts.as_slice()),
        }
    }
}

/// The texts of the text parts, in order.
pub open spec fn text_segments(parts: Seq<ContentPart>) -> Seq<Seq<char>>
    decreases parts.len(),
{
    if parts.len() == 0 {
        Seq::empty()
    } else {
        let rest = text_segments(parts.drop_last());
        match parts.last() {
            ContentPart::Text(t) => rest.push(t@),
            _ => rest,
        }
    }
}

/// Strings joined by a separator.
pub open spec fn join(parts: Seq<Seq<char>>, sep: Seq<char>) -> Seq<char>
    decreases parts.len(),
{
    if parts.len() == 0 {
        Seq::empty()
    } else if parts.len() == 1 {
        parts[0]
    } else {
        join(parts.drop_last(), sep) + sep + parts.last()
    }
}

/// The text of a label.
pub open spec fn label_text(l: FlowLabel) -> Seq<char> {
    match l {
        FlowLabel::Text(t) => t@,
        FlowLabel::Parts(parts) => join(text_segments(parts@), " "@),
    }
}

/// The text parts of a message, joined by spaces.
pub fn content_parts_to_text(parts: &[ContentPart]) -> (r: String)
    ensures
        r@ == join(text_segments(parts@), " "@),
{
    let mut out = String::new();
    let mut count: usize = 0;
    let mut i: usize = 0;
    while i < parts.len()
        invariant
            i <= parts@.len(),
            count == text_segments(parts@.take(i as int)).len(),
            count <= i,
            out@ == join(text_segments(parts@.take(i as int)), " "@),
        decreases parts@.len() - i,
    {
        assert(parts@.take((i + 1) as int).drop_last() == parts@.take(i as int));
        match &parts[i] {
            ContentPart::Text(t) => {
                if count > 0 {
                    push_str(&mut out, " ");
                }
                push_str(&mut out, t.as_str());
                count = count + 1;
                proof {
                    let segs = text_segments(parts@.take((i + 1) as int));
                    assert(segs.drop_last() == text_segments(parts@.take(i as int)));
                    if segs.len() == 1 {
                        assert(text_segments(parts@.take(i as int)).len() == 0);
                    }
                }
            },
            _ => {},
        }
        i = i + 1;
    }
    assert(parts@.take(parts@.len() as int) == parts@);
    out
}

/// An error while running a flow.
#[derive(Debug)]
pub struct FlowError {
    message: String,
}

impl FlowError {
    /// An error with the given message.
    pub fn new(message: String) -> (r: FlowError)
        ensures
            r.message() == message@,
    {
        FlowError { message }
    }

    /// The message of the error.
    pub closed spec fn message(&self) -> Seq<char> {
        self.message@
    }

    /// The message of the error, as text.
    pub fn to_message(&self) -> (r: String)
        ensures
            r@ == self.message(),
    {
        self.message.clone()
    }
}

/// An error in the text of a flow chart.
#[derive(Debug)]
pub struct FlowParseError {
    message: String,
}

impl FlowParseError {
    /// An error with the given message.
    pub fn new(message: String) -> (r: FlowParseError)
        ensures
            r.message() == message@,
    {
        FlowParseError { message }
    }

    /// The message of the error.
    pub closed spec fn message(&self) -> Seq<char> {
        self.message@
    }

    /// The message of the error, as text.
    pub fn to_message(&self) -> (r: String)
        ensures
            r@ == self.message(),
    {
        self.message.clone()
    }
}

/// A flow chart that parsed but cannot be run.
#[derive(Debug)]
pub struct FlowValidationError {
    message: String,
}

impl FlowValidationError {
    /// An error with the given message.
    pub fn new(message: String) -> (r: FlowValidationError)
        ensures
            r.message() == message@,
    {
        FlowValidationError { message }
    }

    /// The message of the error.
    pub closed spec fn message(&self) -> Seq<char> {
        self.message@
    }

    /// The message of the error, as text.
    pub fn to_message(&self) -> (r: String)
        ensures
            r@ == self.message(),
    {
        self.message.clone()
    }
}

// ----- adjacency lookups and reachability -----

/// The views of a sequence of strings.
pub open spec fn strs(v: Seq<String>) -> Seq<Seq<char>> {
    v.map_values(|x: String| x@)
}

/// The plain view of an edge: source, destination and label.
pub type EdgeV = (Seq<char>, Seq<char>, Option<Seq<char>>);

/// The plain view of an adjacency list.
pub type AdjV = Seq<(Seq<char>, Seq<EdgeV>)>;

/// The views of edges.
pub open spec fn edges_view(es: Seq<FlowEdge>) -> Seq<EdgeV> {
    es.map_values(|e: FlowEdge| edge_view(e))
}

/// The view of an adjacency list.
pub open spec fn adj_view(adj: Seq<(String, Vec<FlowEdge>)>) -> AdjV {
    adj.map_values(|p: (String, Vec<FlowEdge>)| (p.0@, edges_view(p.1@)))
}

/// The ids and kinds of nodes.
pub open spec fn node_keys(nodes: Seq<FlowNode>) -> Seq<(Seq<char>, FlowNodeKind)> {
    nodes.map_values(|n: FlowNode| (n.id@, n.kind))
}

/// The index of the first entry whose key is `id`, if any.
pub open spec fn first_key(av: AdjV, id: Seq<char>) -> Option<int> {
    if exists|i: int| 0 <= i < av.len() && av[i].0 == id {
        Some(
            choose|i: int|
                0 <= i < av.len() && av[i].0 == id && forall|j: int| 0 <= j < i ==> av[j].0 != id,
        )
    } else {
        None
    }
}

/// The outgoing edges of `id`, as the first entry for it lists them.
pub open spec fn edges_out(av: AdjV, id: Seq<char>) -> Seq<EdgeV> {
    match first_key(av, id) {
        Some(i) => av[i].1,
        None => Seq::empty(),
    }
}

/// Whether there is an edge from `a` to `b`.
pub open spec fn step(av: AdjV, a: Seq<char>, b: Seq<char>) -> bool {
    exists|k: int| 0 <= k < edges_out(av, a).len() && #[trigger] edges_out(av, a)[k].1 == b
}

/// Whether `p` is a walk along edges.
pub open spec fn is_walk(av: AdjV, p: Seq<Seq<char>>) -> bool {
    &&& p.len() >= 1
    &&& forall|i: int| #![trigger p[i]] 0 <= i < p.len() - 1 ==> step(av, p[i], p[i + 1])
}

/// Whether `to` can be reached from `from` along edges.
pub open spec fn reachable(av: AdjV, from: Seq<char>, to: Seq<char>) -> bool {
    exists|p: Seq<Seq<char>>| #[trigger] is_walk(av, p) && p[0] == from && p.last() == to
}

proof fn lemma_first_key_unique(av: AdjV, id: Seq<char>, i: int)
    requires
        0 <= i < av.len(),
        av[i].0 == id,
        forall|j: int| 0 <= j < i ==> av[j].0 != id,
    ensures
        first_key(av, id) == Some(i),
{
    let k = choose|k: int|
        0 <= k < av.len() && av[k].0 == id && forall|j: int| 0 <= j < k ==> av[j].0 != id;
    assert(0 <= k < av.len() && av[k].0 == id && forall|j: int| 0 <= j < k ==> av[j].0 != id);
    if k < i {
        assert(av[k].0 != id);
    }
    if i < k {
        assert(av[i].0 != id);
    }
}

/// The index of the first entry for `id`.
pub fn find_key(adj: &[(String, Vec<FlowEdge>)], id: &str) -> (r: Option<usize>)
    ensures
        match r {
            Some(i) => first_key(adj_view(adj@), id@) == Some(i as int) && i < adj@.len(),
            None => first_key(adj_view(adj@), id@).is_none(),
        },
{
    let ghost av = adj_view(adj@);
    let mut i: usize = 0;
    while i < adj.len()
        invariant
            i <= adj@.len(),
            av == adj_view(adj@),
            forall|j: int| 0 <= j < i ==> av[j].0 != id@,
        decreases adj@.len() - i,
    {
        if crate::text::str_eq(adj[i].0.as_str(), id) {
            proof {
                lemma_first_key_unique(av, id@, i as int);
            }
            return Some(i);
        }
        i = i + 1;
    }
    None
}

/// Whether a sequence of strings holds `s`.
pub fn contains_string(v: &[String], s: &str) -> (r: bool)
    ensures
        r == strs(v@).contains(s@),
{
    let mut i: usize = 0;
    while i < v.len()
        invariant
            i <= v@.len(),
            forall|j: int| 0 <= j < i ==> v@[j]@ != s@,
        decreases v@.len() - i,
    {
        if crate::text::str_eq(v[i].as_str(), s) {
            assert(strs(v@)[i as int] == s@);
            return true;
        }
        i = i + 1;
    }
    assert(!strs(v@).contains(s@)) by {
        if strs(v@).contains(s@) {
            let k = choose|k: int| 0 <= k < v@.len() && #[trigger] strs(v@)[k] == s@;
            assert(v@[k]@ == s@);
        }
    }
    false
}

/// All destination ids of all entries, in order.
pub open spec fn all_dsts(av: AdjV) -> Seq<Seq<char>>
    decreases av.len(),
{
    if av.len() == 0 {
        Seq::empty()
    } else {
        all_dsts(av.drop_last()) + av.last().1.map_values(|e: EdgeV| e.1)
    }
}

proof fn lemma_dst_in_all(av: AdjV, k: int, j: int)
    requires
        0 <= k < av.len(),
        0 <= j < av[k].1.len(),
    ensures
        all_dsts(av).contains(av[k].1[j].1),
    decreases av.len(),
{
    let d = av[k].1[j].1;
    if k == av.len() - 1 {
        let tail = av.last().1.map_values(|e: EdgeV| e.1);
        assert(tail[j] == d);
        assert(all_dsts(av)[all_dsts(av.drop_last()).len() + j] == d);
    } else {
        lemma_dst_in_all(av.drop_last(), k, j);
        let w = choose|w: int| 0 <= w < all_dsts(av.drop_last()).len() && all_dsts(av.drop_last())[w] == d;
        assert(all_dsts(av)[w] == d);
    }
}

proof fn lemma_no_dup_bound(s: Seq<Seq<char>>, u: Seq<Seq<char>>)
    requires
        s.no_duplicates(),
        forall|i: int| 0 <= i < s.len() ==> u.contains(#[trigger] s[i]),
    ensures
        s.len() <= u.len(),
{
    s.unique_seq_to_set();
    u.lemma_cardinality_of_set();
    assert(s.to_set().subset_of(u.to_set())) by {
        assert forall|x: Seq<char>| s.to_set().contains(x) implies u.to_set().contains(x) by {
            let i = choose|i: int| 0 <= i < s.len() && s[i] == x;
            assert(u.contains(s[i]));
        }
    }
    vstd::set_lib::lemma_len_subset(s.to_set(), u.to_set());
}

proof fn lemma_walk_extend(av: AdjV, p: Seq<Seq<char>>, b: Seq<char>)
    requires
        is_walk(av, p),
        step(av, p.last(), b),
    ensures
        is_walk(av, p.push(b)),
        p.push(b)[0] == p[0],
        p.push(b).last() == b,
{
    let q = p.push(b);
    assert forall|i: int| #![trigger q[i]] 0 <= i < q.len() - 1 implies step(av, q[i], q[i + 1]) by {
        if i < p.len() - 1 {
            assert(q[i] == p[i] && q[i + 1] == p[i + 1]);
        } else {
            assert(q[i] == p.last());
        }
    }
}

/// A set closed under edges that holds the start of a walk holds every node of it.
proof fn lemma_closed_walk(av: AdjV, visited: Seq<Seq<char>>, p: Seq<Seq<char>>, n: int)
    requires
        is_walk(av, p),
        visited.contains(p[0]),
        0 <= n < p.len(),
        forall|v: Seq<char>, d: Seq<char>| visited.contains(v) && step(av, v, d) ==> visited.contains(d),
    ensures
        visited.contains(p[n]),
    decreases n,
{
    if n > 0 {
        lemma_closed_walk(av, visited, p, n - 1);
        assert(step(av, p[n - 1], p[n]));
    }
}

/// Whether `d` is the destination of one of the edges.
pub open spec fn is_dst_of(ev: Seq<EdgeV>, d: Seq<char>) -> bool {
    exists|t: int| 0 <= t < ev.len() && ev[t].1 == d
}

/// Appends to `visited` each destination of `edges` that it does not hold yet.
fn push_new_dsts(edges: &Vec<FlowEdge>, visited: &mut Vec<String>)
    requires
        strs(old(visited)@).no_duplicates(),
    ensures
        strs(final(visited)@).no_duplicates(),
        old(visited)@.len() <= final(visited)@.len(),
        forall|m: int| 0 <= m < old(visited)@.len() ==> final(visited)@[m] == old(visited)@[m],
        forall|m: int|
            old(visited)@.len() <= m < final(visited)@.len() ==> is_dst_of(edges_view(edges@), #[trigger] final(visited)@[m]@),
        forall|t: int| 0 <= t < edges@.len() ==> strs(final(visited)@).contains(#[trigger] edges@[t].dst@),
{
    let ghost start = visited@;
    let mut j: usize = 0;
    while j < edges.len()
        invariant
            j <= edges@.len(),
            start.len() <= visited@.len(),
            forall|m: int| 0 <= m < start.len() ==> visited@[m] == start[m],
            strs(visited@).no_duplicates(),
            forall|m: int|
                start.len() <= m < visited@.len() ==> is_dst_of(edges_view(edges@), #[trigger] visited@[m]@),
            forall|t: int| 0 <= t < j ==> strs(visited@).contains(#[trigger] edges@[t].dst@),
        decreases edges@.len() - j,
    {
        let dst = &edges[j].dst;
        if !contains_string(visited.as_slice(), dst.as_str()) {
            let ghost old_vis = visited@;
            visited.push(dst.clone());
            proof {
                let vs = strs(visited@);
                let ovs = strs(old_vis);
                assert(vs == ovs.push(dst@));
                assert forall|a: int, b: int| 0 <= a < vs.len() && 0 <= b < vs.len() && a != b implies vs[a] != vs[b] by {
                    if a < ovs.len() && b < ovs.len() {
                        assert(ovs[a] != ovs[b]);
                    } else if a == ovs.len() {
                        assert(ovs[b] == vs[b]);
                    } else {
                        assert(ovs[a] == vs[a]);
                    }
                }
                assert forall|m: int| start.len() <= m < visited@.len() implies is_dst_of(edges_view(edges@), #[trigger] visited@[m]@) by {
                    if m < old_vis.len() {
                        assert(visited@[m] == old_vis[m]);
                    } else {
                        assert(edges_view(edges@)[j as int].1 == visited@[m]@);
                    }
                }
                assert forall|t: int| 0 <= t <= j implies vs.contains(#[trigger] edges@[t].dst@) by {
                    if t < j {
                        let w = choose|w: int| 0 <= w < ovs.len() && ovs[w] == edges@[t].dst@;
                        assert(vs[w] == edges@[t].dst@);
                    } else {
                        assert(vs[ovs.len() as int] == dst@);
                    }
                }
            }
        }
        j = j + 1;
    }
}

/// The ids reachable from `begin`, each once.
#[verifier::rlimit(40)]
fn reachable_ids(adj: &[(String, Vec<FlowEdge>)], begin: &str) -> (r: Vec<String>)
    ensures
        forall|id: Seq<char>| strs(r@).contains(id) <==> reachable(adj_view(adj@), begin@, id),
{
    let ghost av = adj_view(adj@);
    let ghost u: Seq<Seq<char>> = seq![begin@] + all_dsts(av);
    let mut visited: Vec<String> = Vec::new();
    visited.push(owned(begin));
    let mut i: usize = 0;
    proof {
        assert(is_walk(av, seq![begin@]));
        assert(strs(visited@)[0] == begin@);
        assert(u[0] == begin@);
    }
    while i < visited.len()
        invariant
            i <= visited@.len(),
            av == adj_view(adj@),
            strs(visited@).no_duplicates(),
            strs(visited@).contains(begin@),
            forall|k: int| 0 <= k < visited@.len() ==> u.contains(#[trigger] visited@[k]@),
            forall|k: int| 0 <= k < visited@.len() ==> reachable(av, begin@, #[trigger] visited@[k]@),
            forall|k: int, d: Seq<char>|
                0 <= k < i && #[trigger] step(av, visited@[k]@, d) ==> strs(visited@).contains(d),
            u == seq![begin@] + all_dsts(av),
        decreases u.len() - i,
    {
        proof {
            lemma_no_dup_bound(strs(visited@), u);
        }
        let ghost before = visited@;
        let cur = visited[i].clone();
        if let Some(k) = find_key(adj, cur.as_str()) {
            push_new_dsts(&adj[k].1, &mut visited);
            proof {
                let ev = av[k as int].1;
                assert(ev == edges_view(adj@[k as int].1@));
                assert(ev == edges_out(av, cur@));
                let p = choose|p: Seq<Seq<char>>| #[trigger] is_walk(av, p) && p[0] == begin@ && p.last() == cur@;
                assert forall|m: int| 0 <= m < visited@.len() implies u.contains(#[trigger] visited@[m]@) && reachable(av, begin@, visited@[m]@) by {
                    if m < before.len() {
                        assert(visited@[m] == before[m]);
                    } else {
                        assert(is_dst_of(ev, visited@[m]@));
                        let t = choose|t: int| 0 <= t < ev.len() && ev[t].1 == visited@[m]@;
                        lemma_dst_in_all(av, k as int, t);
                        let w = choose|w: int| 0 <= w < all_dsts(av).len() && all_dsts(av)[w] == ev[t].1;
                        assert(u[w + 1] == ev[t].1);
                        assert(step(av, cur@, ev[t].1));
                        lemma_walk_extend(av, p, ev[t].1);
                    }
                }
            }
        }
        proof {
            let vs = strs(visited@);
            let bs = strs(before);
            assert forall|k2: int, d: Seq<char>|
                0 <= k2 < i + 1 && #[trigger] step(av, visited@[k2]@, d) implies vs.contains(d) by {
                assert(visited@[k2] == before[k2]);
                if k2 < i {
                    assert(bs.contains(d));
                    let w = choose|w: int| 0 <= w < bs.len() && bs[w] == d;
                    assert(vs[w] == d);
                } else {
                    let t = choose|t: int| 0 <= t < edges_out(av, cur@).len() && #[trigger] edges_out(av, cur@)[t].1 == d;
                    let ev = edges_out(av, cur@);
                    if first_key(av, cur@) is Some {
                        let k = first_key(av, cur@).unwrap();
                        assert(ev == edges_view(adj@[k].1@));
                        assert(ev[t].1 == adj@[k].1@[t].dst@);
                    }
                }
            }
            let w = choose|w: int| 0 <= w < bs.len() && bs[w] == begin@;
            assert(vs[w] == begin@);
        }
        i = i + 1;
    }
    proof {
        let vs = strs(visited@);
        assert forall|id: Seq<char>| vs.contains(id) <==> reachable(av, begin@, id) by {
            if vs.contains(id) {
                let w = choose|w: int| 0 <= w < vs.len() && vs[w] == id;
                assert(reachable(av, begin@, visited@[w]@));
            }
            if reachable(av, begin@, id) {
                let p = choose|p: Seq<Seq<char>>| #[trigger] is_walk(av, p) && p[0] == begin@ && p.last() == id;
                assert forall|v: Seq<char>, d: Seq<char>| vs.contains(v) && step(av, v, d) implies vs.contains(d) by {
                    let w = choose|w: int| 0 <= w < vs.len() && vs[w] == v;
                    assert(step(av, visited@[w]@, d));
                }
                lemma_closed_walk(av, vs, p, p.len() - 1);
            }
        }
    }
    visited
}

// ----- validation -----

/// The ids of the nodes of kind `k`, from index `i` on.
pub open spec fn kind_ids(nk: Seq<(Seq<char>, FlowNodeKind)>, k: FlowNodeKind, i: int) -> Seq<Seq<char>>
    decreases nk.len() - i,
{
    if i >= nk.len() || i < 0 {
        Seq::empty()
    } else if nk[i].1 == k {
        seq![nk[i].0] + kind_ids(nk, k, i + 1)
    } else {
        kind_ids(nk, k, i + 1)
    }
}

/// The trimmed label of an edge; an edge without a label has the empty one.
pub open spec fn trimmed_label(e: EdgeV) -> Seq<char> {
    match e.2 {
        Some(l) => trim(l),
        None => Seq::empty(),
    }
}

/// The trimmed labels of edges.
pub open spec fn trimmed_labels(es: Seq<EdgeV>) -> Seq<Seq<char>> {
    es.map_values(|e: EdgeV| trimmed_label(e))
}

/// What is wrong with the outgoing edges of a node, if anything: a node that can be reached and
/// has several outgoing edges needs a distinct, non-empty label on each.
pub open spec fn node_error(av: AdjV, begin: Seq<char>, id: Seq<char>) -> Option<Seq<char>> {
    let es = edges_out(av, id);
    if !reachable(av, begin, id) || es.len() <= 1 {
        None
    } else if exists|k: int| 0 <= k < es.len() && #[trigger] trimmed_label(es[k]).len() == 0 {
        Some("Node \""@ + id + "\" has an unlabeled edge"@)
    } else if !trimmed_labels(es).no_duplicates() {
        Some("Node \""@ + id + "\" has duplicate edge labels"@)
    } else {
        None
    }
}

/// The problem of the first node, from index `i` on, whose edges have one.
pub open spec fn first_node_error(
    av: AdjV,
    begin: Seq<char>,
    nk: Seq<(Seq<char>, FlowNodeKind)>,
    i: int,
) -> Option<Seq<char>>
    decreases nk.len() - i,
{
    if i >= nk.len() || i < 0 {
        None
    } else {
        match node_error(av, begin, nk[i].0) {
            Some(m) => Some(m),
            None => first_node_error(av, begin, nk, i + 1),
        }
    }
}

/// The outcome of validating a flow: its begin and end ids, or the message of the first problem.
pub open spec fn validate_spec(nk: Seq<(Seq<char>, FlowNodeKind)>, av: AdjV) -> Result<
    (Seq<char>, Seq<char>),
    Seq<char>,
> {
    let begins = kind_ids(nk, FlowNodeKind::Begin, 0);
    let ends = kind_ids(nk, FlowNodeKind::End, 0);
    if begins.len() != 1 {
        Err("Expected exactly one BEGIN node, found "@ + decimal(begins.len()))
    } else if ends.len() != 1 {
        Err("Expected exactly one END node, found "@ + decimal(ends.len()))
    } else {
        match first_node_error(av, begins[0], nk, 0) {
            Some(m) => Err(m),
            None => if reachable(av, begins[0], ends[0]) {
                Ok((begins[0], ends[0]))
            } else {
                Err("END node is not reachable from BEGIN"@)
            },
        }
    }
}

proof fn lemma_no_node_error_from(av: AdjV, begin: Seq<char>, nk: Seq<(Seq<char>, FlowNodeKind)>, i: int, j: int)
    requires
        0 <= i <= j < nk.len(),
        first_node_error(av, begin, nk, i) is None,
    ensures
        node_error(av, begin, nk[j].0) is None,
    decreases j - i,
{
    if i < j {
        lemma_no_node_error_from(av, begin, nk, i + 1, j);
    }
}

/// A flow that passes validation has exactly one BEGIN node and one END node, the END node can
/// be reached from the BEGIN node, and every node that can be reached and has several outgoing
/// edges gives each of them a non-empty label, no two alike.
pub proof fn lemma_valid_flow(nk: Seq<(Seq<char>, FlowNodeKind)>, av: AdjV, b: Seq<char>, e: Seq<char>)
    requires
        validate_spec(nk, av) == Ok::<(Seq<char>, Seq<char>), Seq<char>>((b, e)),
    ensures
        kind_ids(nk, FlowNodeKind::Begin, 0) == seq![b],
        kind_ids(nk, FlowNodeKind::End, 0) == seq![e],
        reachable(av, b, e),
        forall|j: int|
            0 <= j < nk.len() && reachable(av, b, nk[j].0) && #[trigger] edges_out(av, nk[j].0).len() > 1 ==> {
                &&& forall|k: int| 0 <= k < edges_out(av, nk[j].0).len() ==> #[trigger] trimmed_label(edges_out(av, nk[j].0)[k]).len() > 0
                &&& trimmed_labels(edges_out(av, nk[j].0)).no_duplicates()
            },
{
    let begins = kind_ids(nk, FlowNodeKind::Begin, 0);
    let ends = kind_ids(nk, FlowNodeKind::End, 0);
    assert(begins =~= seq![b]);
    assert(ends =~= seq![e]);
    assert forall|j: int|
        0 <= j < nk.len() && reachable(av, b, nk[j].0) && #[trigger] edges_out(av, nk[j].0).len() > 1 implies {
            &&& forall|k: int| 0 <= k < edges_out(av, nk[j].0).len() ==> #[trigger] trimmed_label(edges_out(av, nk[j].0)[k]).len() > 0
            &&& trimmed_labels(edges_out(av, nk[j].0)).no_duplicates()
        } by {
        lemma_no_node_error_from(av, b, nk, 0, j);
    }
}

fn collect_kind_ids(nodes: &[FlowNode], k: FlowNodeKind) -> (r: Vec<String>)
    ensures
        strs(r@) == kind_ids(node_keys(nodes@), k, 0),
{
    let ghost nk = node_keys(nodes@);
    let mut r: Vec<String> = Vec::new();
    let mut i: usize = 0;
    while i < nodes.len()
        invariant
            i <= nodes@.len(),
            nk == node_keys(nodes@),
            strs(r@) + kind_ids(nk, k, i as int) == kind_ids(nk, k, 0),
        decreases nodes@.len() - i,
    {
        if nodes[i].kind == k {
            r.push(nodes[i].id.clone());
            assert(strs(r@) =~= strs(r@).drop_last().push(nodes@[i as int].id@));
        }
        i = i + 1;
    }
    assert(strs(r@) + kind_ids(nk, k, nodes@.len() as int) =~= strs(r@));
    r
}

fn trimmed_label_of(e: &FlowEdge) -> (r: Vec<char>)
    ensures
        r@ == trimmed_label(edge_view(*e)),
{
    match &e.label {
        Some(l) => {
            let cs = str_chars(l.as_str());
            trim_chars(cs.as_slice())
        },
        None => Vec::new(),
    }
}

/// Whether all the sequences are distinct.
fn all_distinct(v: &Vec<Vec<char>>) -> (r: bool)
    ensures
        r == v@.map_values(|x: Vec<char>| x@).no_duplicates(),
{
    let ghost vs = v@.map_values(|x: Vec<char>| x@);
    let mut a: usize = 0;
    while a < v.len()
        invariant
            a <= v@.len(),
            vs == v@.map_values(|x: Vec<char>| x@),
            forall|p: int, q: int| 0 <= p < a && 0 <= q < v@.len() && p != q ==> vs[p] != vs[q],
        decreases v@.len() - a,
    {
        let mut b: usize = 0;
        while b < v.len()
            invariant
                a < v@.len(),
                b <= v@.len(),
                vs == v@.map_values(|x: Vec<char>| x@),
                forall|p: int, q: int| 0 <= p < a && 0 <= q < v@.len() && p != q ==> vs[p] != vs[q],
                forall|q: int| 0 <= q < b && q != a ==> vs[a as int] != vs[q],
            decreases v@.len() - b,
        {
            if b != a && crate::text::chars_eq(v[a].as_slice(), v[b].as_slice()) {
                assert(vs[a as int] == vs[b as int]);
                return false;
            }
            b = b + 1;
        }
        a = a + 1;
    }
    true
}

fn node_error_of(
    adj: &[(String, Vec<FlowEdge>)],
    reach: &Vec<String>,
    id: &String,
    Ghost(begin): Ghost<Seq<char>>,
) -> (r: Option<String>)
    requires
        forall|x: Seq<char>| strs(reach@).contains(x) <==> reachable(adj_view(adj@), begin, x),
    ensures
        opt_str(r) == node_error(adj_view(adj@), begin, id@),
{
    let ghost av = adj_view(adj@);
    if !contains_string(reach.as_slice(), id.as_str()) {
        return None;
    }
    let k = match find_key(adj, id.as_str()) {
        Some(k) => k,
        None => {
            return None;
        },
    };
    let edges = &adj[k].1;
    assert(edges_view(edges@) == edges_out(av, id@));
    if edges.len() <= 1 {
        return None;
    }
    let mut labels: Vec<Vec<char>> = Vec::new();
    let mut j: usize = 0;
    while j < edges.len()
        invariant
            j <= edges@.len(),
            av == adj_view(adj@),
            edges_view(edges@) == edges_out(av, id@),
            edges@.len() > 1,
            reachable(av, begin, id@),
            labels@.len() == j,
            labels@.map_values(|x: Vec<char>| x@) == trimmed_labels(edges_view(edges@).take(j as int)),
            forall|t: int| 0 <= t < j ==> #[trigger] trimmed_label(edges_view(edges@)[t]).len() != 0,
        decreases edges@.len() - j,
    {
        let l = trimmed_label_of(&edges[j]);
        let ghost ev = edges_view(edges@);
        assert(ev.take(j as int + 1) == ev.take(j as int).push(ev[j as int]));
        if l.len() == 0 {
            assert(trimmed_label(edges_out(av, id@)[j as int]).len() == 0);
            let mut m = owned("Node \"");
            push_str(&mut m, id.as_str());
            push_str(&mut m, "\" has an unlabeled edge");
            return Some(m);
        }
        let ghost old_labels = labels@;
        labels.push(l);
        proof {
            let lv = labels@.map_values(|x: Vec<char>| x@);
            let tl = trimmed_labels(ev.take(j as int + 1));
            assert forall|k: int| 0 <= k < lv.len() implies lv[k] == tl[k] by {
                if k < j {
                    assert(labels@[k] == old_labels[k]);
                    assert(old_labels.map_values(|x: Vec<char>| x@)[k] == trimmed_labels(ev.take(j as int))[k]);
                }
            }
        }
        j = j + 1;
    }
    assert(edges_view(edges@).take(edges@.len() as int) == edges_view(edges@));
    if !all_distinct(&labels) {
        let mut m = owned("Node \"");
        push_str(&mut m, id.as_str());
        push_str(&mut m, "\" has duplicate edge labels");
        return Some(m);
    }
    None
}

fn first_error(
    nodes: &[FlowNode],
    outgoing: &[(String, Vec<FlowEdge>)],
    reach: &Vec<String>,
    Ghost(begin): Ghost<Seq<char>>,
) -> (r: Option<String>)
    requires
        forall|id: Seq<char>| strs(reach@).contains(id) <==> reachable(adj_view(outgoing@), begin, id),
    ensures
        opt_str(r) == first_node_error(adj_view(outgoing@), begin, node_keys(nodes@), 0),
{
    let ghost av = adj_view(outgoing@);
    let ghost nk = node_keys(nodes@);
    let mut i: usize = 0;
    while i < nodes.len()
        invariant
            i <= nodes@.len(),
            av == adj_view(outgoing@),
            nk == node_keys(nodes@),
            forall|id: Seq<char>| strs(reach@).contains(id) <==> reachable(av, begin, id),
            first_node_error(av, begin, nk, 0) == first_node_error(av, begin, nk, i as int),
        decreases nodes@.len() - i,
    {
        let e = node_error_of(outgoing, reach, &nodes[i].id, Ghost(begin));
        if e.is_some() {
            return e;
        }
        assert(first_node_error(av, begin, nk, i as int) == first_node_error(av, begin, nk, i + 1));
        i = i + 1;
    }
    None
}

/// Checks that a flow has exactly one BEGIN and one END node, that the END node can be reached
/// from the BEGIN node, and that every reachable node with several outgoing edges labels them
/// distinctly. Returns the ids of the BEGIN and END nodes.
pub fn validate_flow(nodes: &[FlowNode], outgoing: &[(String, Vec<FlowEdge>)]) -> (r: Result<
    (String, String),
    FlowValidationError,
>)
    ensures
        match r {
            Ok((b, e)) => validate_spec(node_keys(nodes@), adj_view(outgoing@)) == Ok::<
                (Seq<char>, Seq<char>),
                Seq<char>,
            >((b@, e@)),
            Err(err) => validate_spec(node_keys(nodes@), adj_view(outgoing@)) == Err::<
                (Seq<char>, Seq<char>),
                Seq<char>,
            >(err.message()),
        },
{
    let begin_ids = collect_kind_ids(nodes, FlowNodeKind::Begin);
    let end_ids = collect_kind_ids(nodes, FlowNodeKind::End);
    if begin_ids.len() != 1 {
        let mut m = owned("Expected exactly one BEGIN node, found ");
        let n = format_usize(begin_ids.len());
        push_str(&mut m, n.as_str());
        return Err(FlowValidationError::new(m));
    }
    if end_ids.len() != 1 {
        let mut m = owned("Expected exactly one END node, found ");
        let n = format_usize(end_ids.len());
        push_str(&mut m, n.as_str());
        return Err(FlowValidationError::new(m));
    }
    let begin_id = begin_ids[0].clone();
    let end_id = end_ids[0].clone();
    assert(begin_id@ == kind_ids(node_keys(nodes@), FlowNodeKind::Begin, 0)[0]);
    assert(end_id@ == kind_ids(node_keys(nodes@), FlowNodeKind::End, 0)[0]);
    let reach = reachable_ids(outgoing, begin_id.as_str());
    if let Some(m) = first_error(nodes, outgoing, &reach, Ghost(begin_id@)) {
        return Err(FlowValidationError::new(m));
    }
    if !contains_string(reach.as_slice(), end_id.as_str()) {
        return Err(FlowValidationError::new(owned("END node is not reachable from BEGIN")));
    }
    Ok((begin_id, end_id))
}

// ----- building flows -----

/// The plain view of a node: id, label text and kind.
pub type NodeV = (Seq<char>, Seq<char>, FlowNodeKind);

/// The plain view of a flow: nodes, adjacency, begin id and end id.
pub type FlowV = (Seq<NodeV>, AdjV, Seq<char>, Seq<char>);

/// The view of a node.
pub open spec fn node_view(n: FlowNode) -> NodeV {
    (n.id@, label_text(n.label), n.kind)
}

/// The views of nodes.
pub open spec fn nodes_view(ns: Seq<FlowNode>) -> Seq<NodeV> {
    ns.map_values(|n: FlowNode| node_view(n))
}

/// The view of a flow.
pub open spec fn flow_view(f: Flow) -> FlowV {
    (nodes_view(f.nodes@), adj_view(f.outgoing@), f.begin_id@, f.end_id@)
}

/// A node as the parsers first record it, with whether its label was written out.
#[derive(Debug)]
pub struct NodeDef {
    pub node: FlowNode,
    pub explicit: bool,
}

/// The view of a recorded node.
pub open spec fn def_view(d: NodeDef) -> (NodeV, bool) {
    (node_view(d.node), d.explicit)
}

/// The views of recorded nodes.
pub open spec fn defs_view(t: Seq<NodeDef>) -> Seq<(NodeV, bool)> {
    t.map_values(|d: NodeDef| def_view(d))
}

/// `Line {n}: {message}`.
pub open spec fn line_msg(line: nat, m: Seq<char>) -> Seq<char> {
    "Line "@ + decimal(line) + ": "@ + m
}

/// Formats a message about a line of the chart.
pub fn line_error(line_no: usize, message: &str) -> (r: String)
    ensures
        r@ == line_msg(line_no as nat, message@),
{
    let mut s = owned("Line ");
    let n = format_usize(line_no);
    push_str(&mut s, n.as_str());
    push_str(&mut s, ": ");
    push_str(&mut s, message);
    s
}

/// Formats a message about a line of the chart, for wide line counts.
pub fn line_error_wide(line_no: u128, message: &str) -> (r: String)
    ensures
        r@ == line_msg(line_no as nat, message@),
{
    let mut s = owned("Line ");
    let n = crate::text::format_u128(line_no);
    push_str(&mut s, n.as_str());
    push_str(&mut s, ": ");
    push_str(&mut s, message);
    s
}

/// The kind a label gives a node: BEGIN and END (in any case, ignoring surrounding space) mark
/// the ends of the flow, any other label a task.
pub open spec fn label_kind(label: Seq<char>) -> FlowNodeKind {
    let n = unicode_lowercase(trim(label));
    if n == "begin"@ {
        FlowNodeKind::Begin
    } else if n == "end"@ {
        FlowNodeKind::End
    } else {
        FlowNodeKind::Task
    }
}

/// The index of the first recorded node with the id.
pub open spec fn def_index(t: Seq<(NodeV, bool)>, id: Seq<char>) -> Option<int> {
    if exists|i: int| 0 <= i < t.len() && t[i].0.0 == id {
        Some(
            choose|i: int|
                0 <= i < t.len() && t[i].0.0 == id && forall|j: int| 0 <= j < i ==> t[j].0.0 != id,
        )
    } else {
        None
    }
}

/// Records a node: a new id is added; a repeated id keeps its first definition unless the new
/// one writes its label out and the old one did not; two written-out labels must agree.
pub open spec fn add_node_spec(
    t: Seq<(NodeV, bool)>,
    id: Seq<char>,
    label: Option<Seq<char>>,
    explicit: bool,
    line: nat,
) -> Result<(Seq<(NodeV, bool)>, NodeV), Seq<char>> {
    let l = match label {
        Some(x) => x,
        None => id,
    };
    if l.len() == 0 {
        Err(line_msg(line, "Node label cannot be empty"@))
    } else {
        let node = (id, l, label_kind(l));
        match def_index(t, id) {
            Some(i) => {
                let ex = t[i];
                if ex.0 == node {
                    Ok((t, ex.0))
                } else if !explicit && ex.1 {
                    Ok((t, ex.0))
                } else if explicit && !ex.1 {
                    Ok((t.update(i, (node, true)), node))
                } else {
                    Err(line_msg(line, "Conflicting definition for node \""@ + id + "\""@))
                }
            },
            None => Ok((t.push((node, explicit)), node)),
        }
    }
}

fn find_def(t: &Vec<NodeDef>, id: &str) -> (r: Option<usize>)
    ensures
        match r {
            Some(i) => def_index(defs_view(t@), id@) == Some(i as int) && i < t@.len() && t@[i as int].node.id@ == id@,
            None => def_index(defs_view(t@), id@).is_none(),
        },
{
    let ghost tv = defs_view(t@);
    let mut i: usize = 0;
    while i < t.len()
        invariant
            i <= t@.len(),
            tv == defs_view(t@),
            forall|j: int| 0 <= j < i ==> tv[j].0.0 != id@,
        decreases t@.len() - i,
    {
        if crate::text::str_eq(t[i].node.id.as_str(), id) {
            proof {
                assert(tv[i as int].0.0 == id@);
                let k = choose|k: int|
                    0 <= k < tv.len() && tv[k].0.0 == id@ && forall|j: int| 0 <= j < k ==> tv[j].0.0 != id@;
                assert(0 <= k < tv.len() && tv[k].0.0 == id@ && forall|j: int| 0 <= j < k ==> tv[j].0.0 != id@);
                if k < i {
                    assert(tv[k].0.0 != id@);
                }
                if i < k {
                    assert(tv[i as int].0.0 != id@);
                }
            }
            return Some(i);
        }
        i = i + 1;
    }
    None
}

/// The kind a label gives a node.
pub fn kind_of_label(label: &str) -> (r: FlowNodeKind)
    ensures
        r == label_kind(label@),
{
    let t = crate::text::trim_str(label);
    let lowered = crate::text::to_lowercase(t.as_str());
    if crate::text::str_eq(lowered.as_str(), "begin") {
        FlowNodeKind::Begin
    } else if crate::text::str_eq(lowered.as_str(), "end") {
        FlowNodeKind::End
    } else {
        FlowNodeKind::Task
    }
}

fn copy_node(n: &FlowNode) -> (r: FlowNode)
    requires
        n.label is Text,
    ensures
        node_view(r) == node_view(*n),
        r.label is Text,
{
    let label = match &n.label {
        FlowLabel::Text(t) => FlowLabel::Text(t.clone()),
        FlowLabel::Parts(_) => FlowLabel::Text(String::new()),
    };
    FlowNode { id: n.id.clone(), label, kind: n.kind }
}

/// Whether every recorded node has a text label.
pub open spec fn text_labels(t: Seq<NodeDef>) -> bool {
    forall|i: int| 0 <= i < t.len() ==> (#[trigger] t[i]).node.label is Text
}

/// Records a node in the table of a chart being parsed.
#[verifier::rlimit(60)]
pub fn add_node(
    t: &mut Vec<NodeDef>,
    id: &str,
    label: Option<String>,
    explicit: bool,
    line_no: u128,
) -> (r: Result<FlowNode, FlowParseError>)
    requires
        text_labels(old(t)@),
    ensures
        text_labels(final(t)@),
        match add_node_spec(defs_view(old(t)@), id@, opt_str(label), explicit, line_no as nat) {
            Ok((t2, n)) => r is Ok && defs_view(final(t)@) == t2 && node_view(r->Ok_0) == n,
            Err(m) => r is Err && r->Err_0.message() == m && defs_view(final(t)@) == defs_view(
                old(t)@,
            ),
        },
{
    let ghost tv = defs_view(t@);
    let l: String = match label {
        Some(x) => x,
        None => owned(id),
    };
    if l.as_str().is_empty() {
        return Err(FlowParseError::new(line_error_wide(line_no, "Node label cannot be empty")));
    }
    let kind = kind_of_label(l.as_str());
    let node = FlowNode { id: owned(id), label: FlowLabel::Text(l), kind };
    match find_def(t, id) {
        Some(i) => {
            proof {
                assert(t@[i as int].node.label is Text);
            }
            let ex_id_eq = true;
            let ex_label_eq = match &t[i].node.label {
                FlowLabel::Text(x) => match &node.label {
                    FlowLabel::Text(y) => crate::text::str_eq(x.as_str(), y.as_str()),
                    FlowLabel::Parts(_) => false,
                },
                FlowLabel::Parts(_) => false,
            };
            let same = ex_id_eq && ex_label_eq && t[i].node.kind == node.kind;
            assert(same == (def_view(t@[i as int]).0 == node_view(node)));
            if same {
                return Ok(copy_node(&t[i].node));
            }
            if !explicit && t[i].explicit {
                return Ok(copy_node(&t[i].node));
            }
            if explicit && !t[i].explicit {
                let keep = copy_node(&node);
                let ghost before = t@;
                t.set(i, NodeDef { node, explicit: true });
                proof {
                    assert(defs_view(t@) =~= tv.update(i as int, (node_view(keep), true)));
                    assert forall|j: int| 0 <= j < t@.len() implies (#[trigger] t@[j]).node.label is Text by {
                        if j != i {
                            assert(t@[j] == before[j]);
                        }
                    }
                }
                return Ok(keep);
            }
            let mut m = owned("Conflicting definition for node \"");
            push_str(&mut m, id);
            push_str(&mut m, "\"");
            Err(FlowParseError::new(line_error_wide(line_no, m.as_str())))
        },
        None => {
            let keep = copy_node(&node);
            t.push(NodeDef { node, explicit });
            proof {
                assert(defs_view(t@) =~= tv.push((node_view(keep), explicit)));
            }
            Ok(keep)
        },
    }
}

/// Adds an edge to the list of its source, creating the list if needed.
pub open spec fn adj_add_spec(av: AdjV, e: EdgeV) -> AdjV {
    match first_key(av, e.0) {
        Some(i) => av.update(i, (av[i].0, av[i].1.push(e))),
        None => av.push((e.0, seq![e])),
    }
}

/// Makes sure a node has a (possibly empty) list of outgoing edges.
pub open spec fn adj_touch_spec(av: AdjV, key: Seq<char>) -> AdjV {
    match first_key(av, key) {
        Some(_) => av,
        None => av.push((key, Seq::empty())),
    }
}

fn clone_edges(v: &Vec<FlowEdge>) -> (r: Vec<FlowEdge>)
    ensures
        r@ == v@,
{
    let mut r: Vec<FlowEdge> = Vec::new();
    let mut i: usize = 0;
    while i < v.len()
        invariant
            i <= v@.len(),
            r@ == v@.take(i as int),
        decreases v@.len() - i,
    {
        r.push(clone_edge(&v[i]));
        i = i + 1;
        assert(r@ =~= v@.take(i as int));
    }
    assert(v@.take(v@.len() as int) =~= v@);
    r
}

/// Adds an edge to the adjacency list.
pub fn adj_add_edge(adj: &mut Vec<(String, Vec<FlowEdge>)>, e: FlowEdge)
    ensures
        adj_view(final(adj)@) == adj_add_spec(adj_view(old(adj)@), edge_view(e)),
{
    let ghost av = adj_view(adj@);
    match find_key(adj.as_slice(), e.src.as_str()) {
        Some(i) => {
            let key = adj[i].0.clone();
            let mut edges = clone_edges(&adj[i].1);
            let ghost ev = edge_view(e);
            edges.push(e);
            adj.set(i, (key, edges));
            proof {
                assert(edges_view(edges@) =~= av[i as int].1.push(ev));
                assert(adj_view(adj@) =~= av.update(i as int, (av[i as int].0, av[i as int].1.push(ev))));
            }
        },
        None => {
            let key = e.src.clone();
            let ghost ev = edge_view(e);
            let mut edges: Vec<FlowEdge> = Vec::new();
            edges.push(e);
            adj.push((key, edges));
            proof {
                assert(edges_view(edges@) =~= seq![ev]);
                assert(adj_view(adj@) =~= av.push((ev.0, seq![ev])));
            }
        },
    }
}

/// Makes sure the adjacency list has an entry for `key`.
pub fn adj_touch(adj: &mut Vec<(String, Vec<FlowEdge>)>, key: &str)
    ensures
        adj_view(final(adj)@) == adj_touch_spec(adj_view(old(adj)@), key@),
{
    let ghost av = adj_view(adj@);
    if find_key(adj.as_slice(), key).is_none() {
        let empty: Vec<FlowEdge> = Vec::new();
        assert(edges_view(empty@) =~= Seq::empty());
        adj.push((owned(key), empty));
        proof {
            assert(adj_view(adj@) =~= av.push((key@, Seq::empty())));
        }
    }
}

/// Tasks with more than one outgoing edge are decisions.
pub open spec fn infer_node(n: NodeV, av: AdjV) -> NodeV {
    if n.2 == FlowNodeKind::Task && edges_out(av, n.0).len() > 1 {
        (n.0, n.1, FlowNodeKind::Decision)
    } else {
        n
    }
}

/// Marks as decisions the tasks with more than one outgoing edge.
pub open spec fn infer_spec(ns: Seq<NodeV>, av: AdjV) -> Seq<NodeV> {
    ns.map_values(|n: NodeV| infer_node(n, av))
}

/// Gives each id an entry in the adjacency list, in order.
pub open spec fn touch_all(av: AdjV, ids: Seq<Seq<char>>) -> AdjV
    decreases ids.len(),
{
    if ids.len() == 0 {
        av
    } else {
        adj_touch_spec(touch_all(av, ids.drop_last()), ids.last())
    }
}

/// The ids and kinds of node views.
pub open spec fn keys_of(ns: Seq<NodeV>) -> Seq<(Seq<char>, FlowNodeKind)> {
    ns.map_values(|n: NodeV| (n.0, n.2))
}

/// The flow that recorded nodes and edges make, or the message of why it cannot be run.
pub open spec fn finish_spec(t: Seq<(NodeV, bool)>, av: AdjV) -> Result<FlowV, Seq<char>> {
    let ns = t.map_values(|d: (NodeV, bool)| d.0);
    let av2 = touch_all(av, ns.map_values(|n: NodeV| n.0));
    let ns2 = infer_spec(ns, av2);
    match validate_spec(keys_of(ns2), av2) {
        Ok((b, e)) => Ok((ns2, av2, b, e)),
        Err(m) => Err(m),
    }
}

/// Completes a parsed chart: every node gets an adjacency entry, tasks with several outgoing
/// edges become decisions, and the result is validated.
pub fn finish_flow(t: Vec<NodeDef>, adj: Vec<(String, Vec<FlowEdge>)>) -> (r: Result<Flow, FlowParseError>)
    requires
        text_labels(t@),
    ensures
        match finish_spec(defs_view(t@), adj_view(adj@)) {
            Ok(f) => r is Ok && flow_view(r->Ok_0) == f,
            Err(m) => r is Err && r->Err_0.message() == m,
        },
{
    let ghost tv = defs_view(t@);
    let ghost ns = tv.map_values(|d: (NodeV, bool)| d.0);
    let ghost ids = ns.map_values(|n: NodeV| n.0);
    let mut adj = adj;
    let ghost av0 = adj_view(adj@);
    let mut i: usize = 0;
    while i < t.len()
        invariant
            i <= t@.len(),
            tv == defs_view(t@),
            ns == tv.map_values(|d: (NodeV, bool)| d.0),
            ids == ns.map_values(|n: NodeV| n.0),
            adj_view(adj@) == touch_all(av0, ids.take(i as int)),
        decreases t@.len() - i,
    {
        adj_touch(&mut adj, t[i].node.id.as_str());
        proof {
            assert(ids.take(i as int + 1).drop_last() =~= ids.take(i as int));
            assert(ids.take(i as int + 1).last() == t@[i as int].node.id@);
        }
        i = i + 1;
    }
    assert(ids.take(t@.len() as int) =~= ids);
    let ghost av2 = adj_view(adj@);
    let mut nodes: Vec<FlowNode> = Vec::new();
    let mut j: usize = 0;
    while j < t.len()
        invariant
            j <= t@.len(),
            tv == defs_view(t@),
            ns == tv.map_values(|d: (NodeV, bool)| d.0),
            av2 == adj_view(adj@),
            text_labels(t@),
            nodes_view(nodes@) == infer_spec(ns.take(j as int), av2),
        decreases t@.len() - j,
    {
        let n = &t[j].node;
        let label = match &n.label {
            FlowLabel::Text(x) => FlowLabel::Text(x.clone()),
            FlowLabel::Parts(_) => FlowLabel::Text(String::new()),
        };
        let mut kind = n.kind;
        if kind == FlowNodeKind::Task {
            if let Some(k) = find_key(adj.as_slice(), n.id.as_str()) {
                if adj[k].1.len() > 1 {
                    kind = FlowNodeKind::Decision;
                }
            }
        }
        proof {
            assert(t@[j as int].node.label is Text);
        }
        let ghost before = nodes_view(nodes@);
        nodes.push(FlowNode { id: n.id.clone(), label, kind });
        proof {
            assert(nodes_view(nodes@) =~= before.push(infer_node(ns[j as int], av2)));
            assert(infer_spec(ns.take(j as int + 1), av2) =~= infer_spec(ns.take(j as int), av2).push(infer_node(ns[j as int], av2)));
        }
        j = j + 1;
    }
    assert(ns.take(t@.len() as int) =~= ns);
    proof {
        assert(node_keys(nodes@) =~= keys_of(infer_spec(ns, av2)));
    }
    match validate_flow(nodes.as_slice(), adj.as_slice()) {
        Ok((begin_id, end_id)) => Ok(Flow { nodes, outgoing: adj, begin_id, end_id }),
        Err(e) => Err(FlowParseError::new(e.to_message())),
    }
}

/// The text of the last `<choice>...</choice>` tag, trimmed. The text between the tags holds no
/// `<`; tags are found from left to right without overlap.
pub open spec fn choice_scan(t: Seq<char>, p: int, last: Option<Seq<char>>) -> Option<Seq<char>>
    decreases t.len() - p,
{
    if p < 0 || p >= t.len() {
        last
    } else if occurs(t, p, "<choice>"@) {
        let body_start = p + 8;
        let body_end = lt_index(t, body_start);
        proof {
            lemma_lt_index_bounds(t, body_start);
        }
        if body_end + 9 <= t.len() && occurs(t, body_end, "</choice>"@) {
            choice_scan(t, body_end + 9, Some(trim(t.subrange(body_start, body_end))))
        } else {
            choice_scan(t, p + 1, last)
        }
    } else {
        choice_scan(t, p + 1, last)
    }
}

/// Whether `pat` occurs in `t` at `p`.
pub open spec fn occurs(t: Seq<char>, p: int, pat: Seq<char>) -> bool {
    crate::text::occurs_at(t, p, pat)
}

/// The index of the first `<` at or after `i`, or the length of `t`.
pub open spec fn lt_index(t: Seq<char>, i: int) -> int
    decreases t.len() - i,
{
    if i >= t.len() {
        t.len() as int
    } else if i < 0 {
        lt_index(t, 0)
    } else if t[i] == '<' {
        i
    } else {
        lt_index(t, i + 1)
    }
}

pub proof fn lemma_lt_index_bounds(t: Seq<char>, i: int)
    requires
        0 <= i,
    ensures
        i <= lt_index(t, i) || (i > t.len() && lt_index(t, i) == t.len()),
        lt_index(t, i) <= t.len() || i > t.len(),
    decreases t.len() - i,
{
    if i < t.len() && t[i] != '<' {
        lemma_lt_index_bounds(t, i + 1);
    }
}

fn find_lt(t: &[char], i: usize) -> (r: usize)
    requires
        i <= t@.len(),
    ensures
        r == lt_index(t@, i as int),
        i <= r <= t@.len(),
{
    let mut k = i;
    while k < t.len() && t[k] != '<'
        invariant
            i <= k <= t@.len(),
            lt_index(t@, i as int) == lt_index(t@, k as int),
        decreases t@.len() - k,
    {
        k = k + 1;
    }
    k
}

/// The trimmed text of the last `<choice>...</choice>` tag in `text`.
pub fn parse_choice(text: &str) -> (r: Option<String>)
    ensures
        opt_str(r) == choice_scan(text@, 0, None),
{
    let t = str_chars(text);
    let open = str_chars("<choice>");
    let close = str_chars("</choice>");
    proof {
        reveal_strlit("<choice>");
        reveal_strlit("</choice>");
    }
    let mut result: Option<Vec<char>> = None;
    let mut p: usize = 0;
    while p < t.len()
        invariant
            t@ == text@,
            open@ == "<choice>"@,
            close@ == "</choice>"@,
            open@.len() == 8,
            close@.len() == 9,
            choice_scan(t@, 0, None) == choice_scan(t@, p as int, match result {
                Some(v) => Some(v@),
                None => None,
            }),
        decreases t@.len() - p,
    {
        if crate::text::matches_at(t.as_slice(), p, open.as_slice()) {
            let body_start = p + 8;
            let body_end = find_lt(t.as_slice(), body_start);
            if crate::text::matches_at(t.as_slice(), body_end, close.as_slice()) {
                let body = crate::text::slice_chars(t.as_slice(), body_start, body_end);
                result = Some(trim_chars(body.as_slice()));
                p = body_end + 9;
                continue;
            }
        }
        p = p + 1;
    }
    match result {
        Some(v) => Some(crate::text::string_from_chars(v.as_slice())),
        None => None,
    }
}

} // verus!
