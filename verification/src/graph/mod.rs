//! A road graph's nodes with the points of interest placed on them, and the
//! parts of the beer-path queries that do not depend on edge lengths.

pub mod fx;
pub mod oracle;

use std::collections::HashMap;

use rustc_hash::{FxHashMap, FxHashSet};

use vstd::prelude::*;

use crate::graph::fx::{fx_map_insert, fx_set_contains, fx_set_ids, fx_set_insert};
use crate::types::{CoordNode, CoordNodeView};

verus! {

broadcast use vstd::std_specs::hash::group_hash_axioms;

/// The decimal digits of a natural number.
pub open spec fn decimal(n: nat) -> Seq<char>
    decreases n,
{
    if n < 10 {
        seq![(48 + n) as char]
    } else {
        decimal(n / 10).push((48 + n % 10) as char)
    }
}

/// The errors of graph lookups.
#[derive(Debug)]
pub enum Error {
    NoValue(String),
}

/// What an error says.
pub open spec fn error_text(error: Error) -> Seq<char> {
    match error {
        Error::NoValue(s) => s@,
    }
}

/// The text of one decimal digit.
fn digit_text(d: usize) -> (digit: &'static str)
    requires
        d < 10,
    ensures
        digit@ == seq![(48 + d) as char],
{
    proof {
        reveal_strlit("0");
        reveal_strlit("1");
        reveal_strlit("2");
        reveal_strlit("3");
        reveal_strlit("4");
        reveal_strlit("5");
        reveal_strlit("6");
        reveal_strlit("7");
        reveal_strlit("8");
        reveal_strlit("9");
    }
    match d {
        0 => "0",
        1 => "1",
        2 => "2",
        3 => "3",
        4 => "4",
        5 => "5",
        6 => "6",
        7 => "7",
        8 => "8",
        _ => "9",
    }
}

/// Appends the decimal digits of `n` to `text`.
fn push_decimal(text: &mut String, n: usize)
    ensures
        final(text)@ == old(text)@ + decimal(n as nat),
    decreases n,
{
    if n < 10 {
        text.append(digit_text(n));
    } else {
        push_decimal(text, n / 10);
        text.append(digit_text(n % 10));
        proof {
            assert(decimal(n as nat) == decimal((n / 10) as nat).push((48 + n % 10) as char));
        }
    }
}

/// The message of a missing node.
fn node_message(id: usize) -> (message: String)
    ensures
        message@ == "node: "@ + decimal(id as nat),
{
    let mut message = text("node: ");
    push_decimal(&mut message, id);
    message
}

/// The message of a node id beyond the graph.
fn node_id_message(id: usize) -> (message: String)
    ensures
        message@ == "no node with id "@ + decimal(id as nat),
{
    let mut message = text("no node with id ");
    push_decimal(&mut message, id);
    message
}

/// `String::from` on a string literal.
fn text(s: &str) -> (owned: String)
    ensures
        owned@ == s@,
{
    s.to_owned()
}

/// The debug form of a string: std's `Debug` of `str`, the text in double
/// quotes with some characters escaped.
pub uninterp spec fn str_debug(text: Seq<char>) -> Seq<char>;

/// Text made only of printable ASCII characters other than `"` and `\`,
/// which the debug form of a string leaves as they are.
pub open spec fn plain_text(text: Seq<char>) -> bool {
    forall|i: int| 0 <= i < text.len() ==> ' ' <= #[trigger] text[i] <= '~' && text[i] != '"' && text[i]
        != '\\'
}

/// `format!` with `{:?}` on a string: the text in double quotes, with
/// quotes, backslashes and non-printable characters escaped as
/// `char::escape_debug` does.  Only text that needs no escaping is spelled
/// out; the escapes themselves are left to the name `str_debug`.
#[verifier::external_body]
fn debug_text(text: &str) -> (quoted: String)
    ensures
        quoted@ == str_debug(text@),
        plain_text(text@) ==> quoted@ == seq!['"'] + text@ + seq!['"'],
{
    format!("{:?}", text)
}

/// What an error's display shows: "No value for " and the debug form of the
/// error's text.
pub open spec fn error_message(error: Error) -> Seq<char> {
    "No value for "@ + str_debug(error_text(error))
}

impl Error {
    /// The error's message, as its display shows it.
    pub fn message(&self) -> (message: String)
        ensures
            message@ == error_message(*self),
            plain_text(error_text(*self)) ==> message@ == "No value for "@ + seq!['"'] + error_text(
                *self,
            ) + seq!['"'],
    {
        match self {
            Error::NoValue(s) => {
                let mut m = text("No value for ");
                let quoted = debug_text(s.as_str());
                m.append(quoted.as_str());
                m
            },
        }
    }
}

/// What a poi graph holds: the values of its nodes by id, and the ids of the
/// nodes that points of interest were placed on.
pub struct PoiGraphView<C, T> {
    pub nodes: Seq<CoordNodeView<C, T>>,
    pub poi_nodes: Set<usize>,
}

/// The node values of a sequence of nodes.
pub open spec fn nodes_view<C, T>(nodes: Seq<CoordNode<C, T>>) -> Seq<CoordNodeView<C, T>> {
    nodes.map_values(|n: CoordNode<C, T>| n@)
}

/// The ids of the nodes that carry data.
pub open spec fn nodes_with_data<C, T>(nodes: Seq<CoordNodeView<C, T>>) -> Set<usize> {
    Set::new(|i: usize| i < nodes.len() && nodes[i as int].data.len() > 0)
}

/// The graph after the data of a point of interest is placed on node `id`,
/// when there is such a node.
pub open spec fn place_on_node<C, T>(g: PoiGraphView<C, T>, id: usize, data: Seq<T>) -> PoiGraphView<
    C,
    T,
> {
    if id < g.nodes.len() {
        PoiGraphView {
            nodes: g.nodes.update(
                id as int,
                CoordNodeView { coord: g.nodes[id as int].coord, data: g.nodes[id as int].data + data },
            ),
            poi_nodes: g.poi_nodes.insert(id),
        }
    } else {
        g
    }
}

/// A road graph's nodes, by id, with the points of interest placed on them.
pub struct PoiGraph<C, T> {
    nodes: Vec<CoordNode<C, T>>,
    poi_nodes: FxHashSet<usize>,
}

impl<C, T> View for PoiGraph<C, T> {
    type V = PoiGraphView<C, T>;

    closed spec fn view(&self) -> PoiGraphView<C, T> {
        PoiGraphView { nodes: nodes_view(self.nodes@), poi_nodes: self.poi_nodes@ }
    }
}

/// Every registered id names a node, and every node that carries data is
/// registered.
pub open spec fn poi_graph_wf<C, T>(g: PoiGraphView<C, T>) -> bool {
    &&& forall|i: usize| #[trigger] g.poi_nodes.contains(i) ==> i < g.nodes.len()
    &&& forall|i: usize|
        i < g.nodes.len() && (#[trigger] g.nodes[i as int]).data.len() > 0 ==> g.poi_nodes.contains(i)
}

impl<C, T> PoiGraph<C, T> {
    /// Every poi graph is well formed.
    #[verifier::type_invariant]
    spec fn registered_nodes_exist(self) -> bool {
        poi_graph_wf(self@)
    }

    /// Moves the nodes and the poi-node ids out, leaving an empty graph.
    fn take_parts(&mut self) -> (parts: (Vec<CoordNode<C, T>>, FxHashSet<usize>))
        ensures
            nodes_view(parts.0@) == old(self)@.nodes,
            parts.1@ == old(self)@.poi_nodes,
            poi_graph_wf(old(self)@),
    {
        proof {
            use_type_invariant(&*self);
        }
        let mut graph = PoiGraph { nodes: Vec::new(), poi_nodes: FxHashSet::default() };
        proof {
            assert(nodes_view(graph.nodes@) =~= Seq::<CoordNodeView<C, T>>::empty());
        }
        std::mem::swap(self, &mut graph);
        let PoiGraph { nodes, poi_nodes } = graph;
        (nodes, poi_nodes)
    }

    /// A poi graph over the given nodes; the nodes that already carry data
    /// are its poi nodes.
    pub fn new(nodes: Vec<CoordNode<C, T>>) -> (graph: Self)
        ensures
            graph@.nodes == nodes_view(nodes@),
            graph@.poi_nodes == nodes_with_data(nodes_view(nodes@)),
            poi_graph_wf(graph@),
    {
        let mut poi_nodes: FxHashSet<usize> = FxHashSet::default();
        let mut i: usize = 0;
        while i < nodes.len()
            invariant
                i <= nodes@.len(),
                poi_nodes@ == Set::new(|j: usize| j < i && nodes@[j as int]@.data.len() > 0),
            decreases nodes@.len() - i,
        {
            if nodes[i].has_data() {
                fx_set_insert(&mut poi_nodes, i);
            }
            i = i + 1;
            assert(poi_nodes@ =~= Set::new(|j: usize| j < i && nodes@[j as int]@.data.len() > 0));
        }
        let graph = PoiGraph { nodes, poi_nodes };
        assert(graph@.poi_nodes =~= nodes_with_data(nodes_view(nodes@)));
        graph
    }

    /// The node values, by id.
    pub fn nodes(&self) -> (nodes: &Vec<CoordNode<C, T>>)
        ensures
            nodes_view(nodes@) == self@.nodes,
    {
        &self.nodes
    }

    /// The value of node `id`, if the graph has such a node.
    pub fn node_value(&self, id: usize) -> (value: Option<&CoordNode<C, T>>)
        ensures
            value is Some <==> id < self@.nodes.len(),
            value matches Some(n) ==> n@ == self@.nodes[id as int],
    {
        if id < self.nodes.len() {
            Some(&self.nodes[id])
        } else {
            None
        }
    }

    /// The ids of the nodes that points of interest were placed on.
    pub fn poi_nodes(&self) -> (poi_nodes: &FxHashSet<usize>)
        ensures
            poi_nodes@ == self@.poi_nodes,
    {
        &self.poi_nodes
    }

    /// Places the data of a point of interest on node `node.0` and registers
    /// that node; the node is returned.  Nothing changes when there is no
    /// such node.
    pub fn add_node_poi(&mut self, node: (usize, Vec<T>)) -> (placed: Option<&CoordNode<C, T>>)
        ensures
            poi_graph_wf(final(self)@),
            final(self)@ == place_on_node(old(self)@, node.0, node.1@),
            placed is Some <==> node.0 < old(self)@.nodes.len(),
            placed matches Some(n) ==> n@ == final(self)@.nodes[node.0 as int],
    {
        proof {
            use_type_invariant(&*self);
        }
        let (id, mut data) = node;
        if id >= self.nodes.len() {
            return None;
        }
        let ghost before = self@;
        let (mut nodes, mut poi_nodes) = self.take_parts();
        fx_set_insert(&mut poi_nodes, id);
        nodes[id].append_data(&mut data);
        proof {
            assert(nodes_view(nodes@) =~= place_on_node(before, id, node.1@).nodes);
        }
        *self = PoiGraph { nodes, poi_nodes };
        Some(&self.nodes[id])
    }

    /// Places a point of interest on the node nearest to it.  The nearest
    /// node is found by a spatial query over the coordinates and handed in
    /// as `nearest_node`; `None` means the graph has no node at all.
    pub fn add_coord_poi(&mut self, poi: CoordNode<C, T>, nearest_node: Option<usize>) -> (result:
        Result<(), Error>)
        ensures
            poi_graph_wf(final(self)@),
            match nearest_node {
                None => {
                    &&& final(self)@ == old(self)@
                    &&& result matches Err(e) && error_text(e) == "quad graph empty"@
                },
                Some(id) => if id < old(self)@.nodes.len() {
                    result is Ok && final(self)@ == place_on_node(old(self)@, id, poi@.data)
                } else {
                    &&& final(self)@ == old(self)@
                    &&& result matches Err(e) && error_text(e) == "node: "@ + decimal(id as nat)
                },
            },
    {
        proof {
            use_type_invariant(&*self);
        }
        let id = match nearest_node {
            None => {
                return Err(Error::NoValue(text("quad graph empty")));
            },
            Some(id) => id,
        };
        if id >= self.nodes.len() {
            return Err(Error::NoValue(node_message(id)));
        }
        let mut poi = poi;
        let ghost before = self@;
        let ghost data = poi@.data;
        let (mut nodes, mut poi_nodes) = self.take_parts();
        fx_set_insert(&mut poi_nodes, id);
        nodes[id].append_data(poi.data_mut());
        proof {
            assert(nodes_view(nodes@) =~= place_on_node(before, id, data).nodes);
        }
        *self = PoiGraph { nodes, poi_nodes };
        Ok(())
    }

    /// Places each point of interest on its nearest node, in order; a point
    /// whose nearest node is unknown is skipped.
    pub fn add_coord_pois(&mut self, pois: Vec<CoordNode<C, T>>, nearest_nodes: &[Option<usize>]) -> (result:
        Result<(), Vec<Error>>)
        requires
            pois@.len() == nearest_nodes@.len(),
        ensures
            poi_graph_wf(final(self)@),
            result is Ok,
            final(self)@ == place_all_nearest(old(self)@, nodes_view(pois@), nearest_nodes@),
    {
        proof {
            use_type_invariant(&*self);
        }
        let ghost start = self@;
        let ghost all = pois@;
        let mut i: usize = 0;
        for poi in it: pois
            invariant
                it.seq() == all,
                i == it.index(),
                all.len() == nearest_nodes@.len(),
                poi_graph_wf(self@),
                self@ == place_all_nearest(
                    start,
                    nodes_view(all).subrange(0, i as int),
                    nearest_nodes@.subrange(0, i as int),
                ),
        {
            proof {
                assert(poi == all[i as int]);
                assert(nodes_view(all).subrange(0, i + 1).drop_last() =~= nodes_view(all).subrange(
                    0,
                    i as int,
                ));
                assert(nearest_nodes@.subrange(0, i + 1).drop_last() =~= nearest_nodes@.subrange(
                    0,
                    i as int,
                ));
            }
            let _ = self.add_coord_poi(poi, nearest_nodes[i]);
            i = i + 1;
        }
        proof {
            assert(nodes_view(all).subrange(0, all.len() as int) =~= nodes_view(all));
            assert(nearest_nodes@.subrange(0, all.len() as int) =~= nearest_nodes@);
        }
        Ok(())
    }

    /// Places each point of interest on its node, in order.
    pub fn add_node_pois(&mut self, nodes: Vec<(usize, Vec<T>)>)
        ensures
            poi_graph_wf(final(self)@),
            final(self)@ == place_all_on_nodes(
                old(self)@,
                nodes@.map_values(|n: (usize, Vec<T>)| (n.0, n.1@)),
            ),
    {
        proof {
            use_type_invariant(&*self);
        }
        let ghost placements = nodes@.map_values(|n: (usize, Vec<T>)| (n.0, n.1@));
        let ghost start = self@;
        for node in it: nodes
            invariant
                it.seq() == nodes@,
                placements == nodes@.map_values(|n: (usize, Vec<T>)| (n.0, n.1@)),
                poi_graph_wf(self@),
                self@ == place_all_on_nodes(start, placements.subrange(0, it.index() as int)),
        {
            proof {
                assert(placements.subrange(0, it.index() + 1).drop_last() =~= placements.subrange(
                    0,
                    it.index() as int,
                ));
            }
            self.add_node_poi(node);
        }
        proof {
            assert(placements.subrange(0, nodes@.len() as int) =~= placements);
        }
    }
}

impl<C: Copy, T: Clone> PoiGraph<C, T> {
    /// The id and a copy of the value of node `node_id`.  Finding the node
    /// nearest a coordinate ends here, once a spatial query has named it.
    pub fn get_node_value(&self, node_id: usize) -> (result: Result<(usize, CoordNode<C, T>), Error>)
        ensures
            node_id < self@.nodes.len() ==> (result matches Ok(found) && found.0 == node_id
                && found.1@.coord == self@.nodes[node_id as int].coord && found.1@.data.len()
                == self@.nodes[node_id as int].data.len() && forall|i: int|
                0 <= i < found.1@.data.len() ==> cloned(
                    self@.nodes[node_id as int].data[i],
                    found.1@.data[i],
                )),
            node_id >= self@.nodes.len() ==> (result matches Err(e) && error_text(e)
                == "no node with id "@ + decimal(node_id as nat)),
    {
        if node_id < self.nodes.len() {
            Ok((node_id, self.nodes[node_id].clone()))
        } else {
            Err(Error::NoValue(node_id_message(node_id)))
        }
    }
}

/// The costs of the beer paths through each point of interest: the cost of
/// reaching it from the start plus the cost of reaching the end from it.
/// There are costs exactly when both searches reached every point of
/// interest.  `plus` adds two costs.
pub fn beer_path_costs<W: Copy, F: Fn(W, W) -> W>(
    pois: &FxHashSet<usize>,
    start_costs: &HashMap<usize, W>,
    end_costs: &HashMap<usize, W>,
    plus: F,
) -> (costs: Option<FxHashMap<usize, W>>)
    requires
        forall|a: W, b: W| plus.requires((a, b)),
    ensures
        costs is Some <==> forall|p: usize|
            #[trigger] pois@.contains(p) ==> start_costs@.contains_key(p) && end_costs@.contains_key(p),
        costs matches Some(m) ==> m@.dom() == pois@ && forall|p: usize|
            #[trigger] pois@.contains(p) ==> plus.ensures((start_costs@[p], end_costs@[p]), m@[p]),
{
    let ids = fx_set_ids(pois);
    let mut result: FxHashMap<usize, W> = FxHashMap::default();
    let mut i: usize = 0;
    while i < ids.len()
        invariant
            i <= ids@.len(),
            ids@.to_set() == pois@,
            ids@.no_duplicates(),
            forall|a: W, b: W| plus.requires((a, b)),
            forall|p: usize|
                #[trigger] result@.dom().contains(p) <==> exists|j: int| 0 <= j < i && ids@[j] == p,
            forall|j: int|
                0 <= j < i ==> start_costs@.contains_key(#[trigger] ids@[j]) && end_costs@.contains_key(ids@[j])
                    && plus.ensures((start_costs@[ids@[j]], end_costs@[ids@[j]]), result@[ids@[j]]),
        decreases ids@.len() - i,
    {
        let poi = ids[i];
        let start = match start_costs.get(&poi) {
            Some(c) => *c,
            None => {
                proof {
                    assert(ids@.to_set().contains(poi));
                }
                return None;
            },
        };
        let end = match end_costs.get(&poi) {
            Some(c) => *c,
            None => {
                proof {
                    assert(ids@.to_set().contains(poi));
                }
                return None;
            },
        };
        let cost = plus(start, end);
        fx_map_insert(&mut result, poi, cost);
        proof {
            assert forall|j: int| 0 <= j < i implies ids@[j] != poi by {
            }
            assert forall|p: usize|
                #[trigger] result@.dom().contains(p) <==> exists|j: int| 0 <= j < i + 1 && ids@[j] == p by {
                if p == poi {
                    assert(ids@[i as int] == p);
                }
            }
        }
        i = i + 1;
    }
    proof {
        assert forall|p: usize| result@.dom().contains(p) <==> pois@.contains(p) by {
            if pois@.contains(p) {
                assert(ids@.to_set().contains(p));
            }
        }
        assert(result@.dom() =~= pois@);
        assert forall|p: usize| #[trigger] pois@.contains(p) implies start_costs@.contains_key(p)
            && end_costs@.contains_key(p) && plus.ensures((start_costs@[p], end_costs@[p]), result@[p]) by {
            assert(ids@.to_set().contains(p));
            let j = choose|j: int| 0 <= j < ids@.len() && ids@[j] == p;
        }
    }
    Some(result)
}

/// A beer path through a node: the path from the start to it, followed by
/// the path from it to the end, which the backward search found reversed.
pub fn join_beer_path<N>(start_path: Vec<N>, end_path: Vec<N>) -> (path: Vec<N>)
    ensures
        path@ == start_path@ + end_path@.reverse(),
{
    let mut path = start_path;
    let mut rest = end_path;
    let ghost start = path@;
    let ghost end = rest@;
    while rest.len() > 0
        invariant
            rest@ == end.subrange(0, rest@.len() as int),
            path@ == start + end.reverse().subrange(0, end.len() - rest@.len()),
            rest@.len() <= end.len(),
        decreases rest@.len(),
    {
        let ghost k = rest@.len();
        let x = rest.pop().unwrap();
        path.push(x);
        proof {
            assert(end.reverse().subrange(0, end.len() - k + 1) =~= end.reverse().subrange(
                0,
                end.len() - k,
            ).push(x));
        }
    }
    proof {
        assert(end.reverse().subrange(0, end.len() as int) =~= end.reverse());
    }
    path
}

/// The beer path through `node`, when `node` is a point of interest and
/// both searches reached it.
pub fn beer_path<N>(
    pois: &FxHashSet<usize>,
    node: usize,
    start_path: Option<Vec<N>>,
    end_path: Option<Vec<N>>,
) -> (path: Option<Vec<N>>)
    ensures
        match path {
            Some(p) => pois@.contains(node) && start_path is Some && end_path is Some && p@
                == start_path.unwrap()@ + end_path.unwrap()@.reverse(),
            None => !pois@.contains(node) || start_path is None || end_path is None,
        },
{
    if !fx_set_contains(pois, node) {
        return None;
    }
    match (start_path, end_path) {
        (Some(s), Some(e)) => Some(join_beer_path(s, e)),
        _ => None,
    }
}

/// Which search a label of the bidirectional search belongs to.
#[derive(Clone, Copy, Debug, PartialEq, Eq, Hash, Structural)]
pub enum Label {
    Forward,
    Backward,
    Poi,
}

impl Label {
    /// The label of the other search; a point of interest stays one.
    pub fn inverse(&self) -> (inverse: Label)
        ensures
            inverse == (match *self {
                Label::Forward => Label::Backward,
                Label::Backward => Label::Forward,
                Label::Poi => Label::Poi,
            }),
    {
        match self {
            Label::Forward => Label::Backward,
            Label::Backward => Label::Forward,
            Label::Poi => Label::Poi,
        }
    }
}

/// The graph after each point of interest, in order, is placed on its
/// nearest node; a point whose nearest node is unknown is skipped.
pub open spec fn place_all_nearest<C, T>(
    g: PoiGraphView<C, T>,
    pois: Seq<CoordNodeView<C, T>>,
    nearest_nodes: Seq<Option<usize>>,
) -> PoiGraphView<C, T>
    decreases pois.len(),
{
    if pois.len() == 0 || nearest_nodes.len() != pois.len() {
        g
    } else {
        let before = place_all_nearest(g, pois.drop_last(), nearest_nodes.drop_last());
        match nearest_nodes.last() {
            Some(id) => place_on_node(before, id, pois.last().data),
            None => before,
        }
    }
}

/// The graph after each placement, in order, as [`place_on_node`] does it.
pub open spec fn place_all_on_nodes<C, T>(
    g: PoiGraphView<C, T>,
    placements: Seq<(usize, Seq<T>)>,
) -> PoiGraphView<C, T>
    decreases placements.len(),
{
    if placements.len() == 0 {
        g
    } else {
        place_on_node(
            place_all_on_nodes(g, placements.drop_last()),
            placements.last().0,
            placements.last().1,
        )
    }
}

/// The label of the other search, as [`Label::inverse`] computes it.
pub open spec fn label_inverse(label: Label) -> Label {
    match label {
        Label::Forward => Label::Backward,
        Label::Backward => Label::Forward,
        Label::Poi => Label::Poi,
    }
}

/// Inverting a label twice gives the label back.
pub proof fn law_label_inverse_involutive(label: Label)
    ensures
        label_inverse(label_inverse(label)) == label,
{
}

/// Placing points of interest only ever adds: no node appears or vanishes,
/// no coordinate moves, every node's earlier data stays in front, and every
/// poi node stays one.
pub proof fn law_placing_only_adds<C, T>(g: PoiGraphView<C, T>, placements: Seq<(usize, Seq<T>)>)
    ensures
        place_all_on_nodes(g, placements).nodes.len() == g.nodes.len(),
        forall|i: int|
            0 <= i < g.nodes.len() ==> #[trigger] place_all_on_nodes(g, placements).nodes[i].coord
                == g.nodes[i].coord && g.nodes[i].data.is_prefix_of(
                place_all_on_nodes(g, placements).nodes[i].data,
            ),
        g.poi_nodes.subset_of(place_all_on_nodes(g, placements).poi_nodes),
    decreases placements.len(),
{
    if placements.len() > 0 {
        let rest = placements.drop_last();
        law_placing_only_adds(g, rest);
        let mid = place_all_on_nodes(g, rest);
        let last = placements.last();
        let after = place_on_node(mid, last.0, last.1);
        assert forall|i: int| 0 <= i < g.nodes.len() implies #[trigger] after.nodes[i].coord
            == g.nodes[i].coord && g.nodes[i].data.is_prefix_of(after.nodes[i].data) by {
            assert(mid.nodes[i].coord == g.nodes[i].coord);
            assert(g.nodes[i].data.is_prefix_of(mid.nodes[i].data));
            if last.0 < mid.nodes.len() && i == last.0 {
                assert(mid.nodes[i].data.is_prefix_of(mid.nodes[i].data + last.1));
                assert(after.nodes[i].data == mid.nodes[i].data + last.1);
                assert forall|k: int| 0 <= k < g.nodes[i].data.len() implies g.nodes[i].data[k]
                    == after.nodes[i].data[k] by {
                    assert(g.nodes[i].data[k] == mid.nodes[i].data[k]);
                }
            }
        }
    }
}

/// A beer path starts where the path from the start starts and ends where
/// the backward search began, and it is as long as both paths together.
pub proof fn law_beer_path_ends<N>(start_path: Seq<N>, end_path: Seq<N>)
    requires
        start_path.len() > 0,
        end_path.len() > 0,
    ensures
        (start_path + end_path.reverse()).len() == start_path.len() + end_path.len(),
        (start_path + end_path.reverse())[0] == start_path[0],
        (start_path + end_path.reverse()).last() == end_path[0],
{
}

/// Every placement lands.  After placing data on nodes in order: no node
/// appears or vanishes; each placement's data stands, as one piece, in the
/// data of its node and that node is a poi node, whenever the node exists;
/// a node no placement names is unchanged; and the poi nodes are the earlier
/// ones plus the existing nodes some placement names.
pub proof fn law_every_placement_lands<C, T>(g: PoiGraphView<C, T>, placements: Seq<(usize, Seq<T>)>)
    ensures
        place_all_on_nodes(g, placements).nodes.len() == g.nodes.len(),
        forall|k: int|
            0 <= k < placements.len() && (#[trigger] placements[k]).0 < g.nodes.len() ==> {
                let r = place_all_on_nodes(g, placements);
                let id = placements[k].0 as int;
                &&& r.poi_nodes.contains(placements[k].0)
                &&& exists|off: int|
                    0 <= off && off + placements[k].1.len() <= r.nodes[id].data.len()
                        && #[trigger] r.nodes[id].data.subrange(off, off + placements[k].1.len())
                        == placements[k].1
            },
        forall|i: int|
            0 <= i < g.nodes.len() && (forall|k: int|
                0 <= k < placements.len() ==> (#[trigger] placements[k]).0 != i) ==> #[trigger] place_all_on_nodes(
                g,
                placements,
            ).nodes[i] == g.nodes[i],
        forall|i: usize|
            #[trigger] place_all_on_nodes(g, placements).poi_nodes.contains(i) <==> (g.poi_nodes.contains(i)
                || (i < g.nodes.len() && exists|k: int|
                0 <= k < placements.len() && (#[trigger] placements[k]).0 == i)),
    decreases placements.len(),
{
    if placements.len() > 0 {
        let rest = placements.drop_last();
        let x = placements.last();
        law_every_placement_lands(g, rest);
        let mid = place_all_on_nodes(g, rest);
        let r = place_all_on_nodes(g, placements);
        assert(r == place_on_node(mid, x.0, x.1));
        let n = placements.len() - 1;
        assert forall|k: int|
            0 <= k < placements.len() && (#[trigger] placements[k]).0 < g.nodes.len() implies {
                let id = placements[k].0 as int;
                &&& r.poi_nodes.contains(placements[k].0)
                &&& exists|off: int|
                    0 <= off && off + placements[k].1.len() <= r.nodes[id].data.len()
                        && #[trigger] r.nodes[id].data.subrange(off, off + placements[k].1.len())
                        == placements[k].1
            } by {
            let id = placements[k].0 as int;
            if k == n {
                let off = mid.nodes[id].data.len() as int;
                assert(r.nodes[id].data == mid.nodes[id].data + x.1);
                assert(r.nodes[id].data.subrange(off, off + x.1.len()) =~= x.1);
            } else {
                assert(rest[k] == placements[k]);
                let off = choose|off: int|
                    0 <= off && off + rest[k].1.len() <= mid.nodes[id].data.len()
                        && #[trigger] mid.nodes[id].data.subrange(off, off + rest[k].1.len()) == rest[k].1;
                if x.0 as int == id && x.0 < mid.nodes.len() {
                    assert(r.nodes[id].data == mid.nodes[id].data + x.1);
                    assert(r.nodes[id].data.subrange(off, off + rest[k].1.len()) =~= mid.nodes[id].data.subrange(
                        off,
                        off + rest[k].1.len(),
                    ));
                } else {
                    assert(r.nodes[id] == mid.nodes[id]);
                }
            }
        }
        assert forall|i: int|
            0 <= i < g.nodes.len() && (forall|k: int|
                0 <= k < placements.len() ==> (#[trigger] placements[k]).0 != i) implies #[trigger] r.nodes[i]
            == g.nodes[i] by {
            assert forall|k: int| 0 <= k < rest.len() implies (#[trigger] rest[k]).0 != i by {
                assert(rest[k] == placements[k]);
            }
            assert(placements[n].0 != i);
        }
        assert forall|i: usize|
            #[trigger] r.poi_nodes.contains(i) <==> (g.poi_nodes.contains(i) || (i < g.nodes.len()
                && exists|k: int| 0 <= k < placements.len() && (#[trigger] placements[k]).0 == i)) by {
            if exists|k: int| 0 <= k < rest.len() && (#[trigger] rest[k]).0 == i {
                let k = choose|k: int| 0 <= k < rest.len() && (#[trigger] rest[k]).0 == i;
                assert(placements[k] == rest[k]);
            }
            if exists|k: int| 0 <= k < placements.len() && (#[trigger] placements[k]).0 == i {
                let k = choose|k: int| 0 <= k < placements.len() && (#[trigger] placements[k]).0 == i;
                if k < n {
                    assert(rest[k] == placements[k]);
                }
            }
            if i == x.0 {
                assert(placements[n].0 == i);
            }
        }
    }
}

/// Every point of interest with a known nearest node lands there.  After
/// placing points of interest on their nearest nodes in order: no node
/// appears or vanishes; each point whose nearest node exists has its data,
/// as one piece, in that node's data, and that node is a poi node; a node
/// that is no point's nearest node is unchanged; and the poi nodes are the
/// earlier ones plus the existing nearest nodes.
pub proof fn law_every_nearest_poi_lands<C, T>(
    g: PoiGraphView<C, T>,
    pois: Seq<CoordNodeView<C, T>>,
    nearest_nodes: Seq<Option<usize>>,
)
    requires
        pois.len() == nearest_nodes.len(),
    ensures
        place_all_nearest(g, pois, nearest_nodes).nodes.len() == g.nodes.len(),
        forall|k: int|
            0 <= k < pois.len() && (#[trigger] nearest_nodes[k]) is Some && nearest_nodes[k].unwrap()
                < g.nodes.len() ==> {
                let r = place_all_nearest(g, pois, nearest_nodes);
                let id = nearest_nodes[k].unwrap();
                &&& r.poi_nodes.contains(id)
                &&& exists|off: int|
                    0 <= off && off + pois[k].data.len() <= r.nodes[id as int].data.len()
                        && #[trigger] r.nodes[id as int].data.subrange(off, off + pois[k].data.len())
                        == pois[k].data
            },
        forall|i: int|
            0 <= i < g.nodes.len() && (forall|k: int|
                0 <= k < pois.len() ==> #[trigger] nearest_nodes[k] != Some(i as usize)) ==> #[trigger] place_all_nearest(
                g,
                pois,
                nearest_nodes,
            ).nodes[i] == g.nodes[i],
        forall|i: usize|
            #[trigger] place_all_nearest(g, pois, nearest_nodes).poi_nodes.contains(i) <==> (
            g.poi_nodes.contains(i) || (i < g.nodes.len() && exists|k: int|
                0 <= k < pois.len() && #[trigger] nearest_nodes[k] == Some(i))),
    decreases pois.len(),
{
    if pois.len() > 0 {
        let rest = pois.drop_last();
        let rest_n = nearest_nodes.drop_last();
        let n = pois.len() - 1;
        law_every_nearest_poi_lands(g, rest, rest_n);
        let mid = place_all_nearest(g, rest, rest_n);
        let r = place_all_nearest(g, pois, nearest_nodes);
        assert forall|k: int|
            0 <= k < pois.len() && (#[trigger] nearest_nodes[k]) is Some && nearest_nodes[k].unwrap()
                < g.nodes.len() implies {
                let id = nearest_nodes[k].unwrap();
                &&& r.poi_nodes.contains(id)
                &&& exists|off: int|
                    0 <= off && off + pois[k].data.len() <= r.nodes[id as int].data.len()
                        && #[trigger] r.nodes[id as int].data.subrange(off, off + pois[k].data.len())
                        == pois[k].data
            } by {
            let id = nearest_nodes[k].unwrap();
            if k == n {
                assert(r == place_on_node(mid, id, pois[k].data));
                let off = mid.nodes[id as int].data.len() as int;
                assert(r.nodes[id as int].data == mid.nodes[id as int].data + pois[k].data);
                assert(r.nodes[id as int].data.subrange(off, off + pois[k].data.len()) =~= pois[k].data);
            } else {
                assert(rest_n[k] == nearest_nodes[k]);
                assert(rest[k] == pois[k]);
                let off = choose|off: int|
                    0 <= off && off + rest[k].data.len() <= mid.nodes[id as int].data.len()
                        && #[trigger] mid.nodes[id as int].data.subrange(off, off + rest[k].data.len())
                        == rest[k].data;
                match nearest_nodes[n] {
                    Some(last) => {
                        assert(r == place_on_node(mid, last, pois[n].data));
                        if last == id {
                            assert(r.nodes[id as int].data == mid.nodes[id as int].data + pois[n].data);
                            assert(r.nodes[id as int].data.subrange(off, off + rest[k].data.len())
                                =~= mid.nodes[id as int].data.subrange(off, off + rest[k].data.len()));
                        } else {
                            assert(r.nodes[id as int] == mid.nodes[id as int]);
                        }
                    },
                    None => {
                        assert(r == mid);
                    },
                }
            }
        }
        assert forall|i: int|
            0 <= i < g.nodes.len() && (forall|k: int|
                0 <= k < pois.len() ==> #[trigger] nearest_nodes[k] != Some(i as usize)) implies #[trigger] r.nodes[i]
            == g.nodes[i] by {
            assert forall|k: int| 0 <= k < rest.len() implies #[trigger] rest_n[k] != Some(i as usize) by {
                assert(rest_n[k] == nearest_nodes[k]);
            }
            assert(nearest_nodes[n] != Some(i as usize));
        }
        assert forall|i: usize|
            #[trigger] r.poi_nodes.contains(i) <==> (g.poi_nodes.contains(i) || (i < g.nodes.len()
                && exists|k: int| 0 <= k < pois.len() && #[trigger] nearest_nodes[k] == Some(i))) by {
            if exists|k: int| 0 <= k < rest.len() && #[trigger] rest_n[k] == Some(i) {
                let k = choose|k: int| 0 <= k < rest.len() && #[trigger] rest_n[k] == Some(i);
                assert(nearest_nodes[k] == rest_n[k]);
            }
            if exists|k: int| 0 <= k < pois.len() && #[trigger] nearest_nodes[k] == Some(i) {
                let k = choose|k: int| 0 <= k < pois.len() && #[trigger] nearest_nodes[k] == Some(i);
                if k < n {
                    assert(rest_n[k] == nearest_nodes[k]);
                }
            }
            if nearest_nodes[n] == Some(i) {
                assert(nearest_nodes[n] == Some(i));
            }
        }
    }
}

} // verus!
