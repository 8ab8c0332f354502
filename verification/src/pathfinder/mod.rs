//! Route finding over the topology of star systems.
use vstd::prelude::*;
use petgraph::algo::astar;
use petgraph::graph::{DiGraph, NodeIndex};
use crate::observability::fresh_identifier;
use crate::pathfinder::cost::{TravelCost, IMPASSABLE};
use crate::text::same_text;
use vstd::string::StringExecFns;

pub mod cost;

verus! {

/// What a system's surface is like for whoever moves through it.
#[derive(Debug, Clone, Copy, PartialEq, Eq, Hash, Structural)]
pub enum TerrainType {
    Space,
    Plains,
    Forest,
    Mountain,
    Water,
}

/// How a traveller moves, which decides what terrain costs.
#[derive(Debug, Clone, Copy, PartialEq, Eq, Structural)]
pub enum MovementProfile {
    Space,
    Ground,
    Hover,
}

/// What the topology records of a system.
#[derive(Debug, Clone)]
pub struct NodeData {
    pub id: String,
    pub terrain: TerrainType,
}

/// Mathematical view of a [`NodeData`].
pub struct NodeView {
    pub id: Seq<char>,
    pub terrain: TerrainType,
}

impl View for NodeData {
    type V = NodeView;

    open spec fn view(&self) -> NodeView {
        NodeView { id: self.id@, terrain: self.terrain }
    }
}

/// A directed connection between two systems, by their positions in the
/// topology, with its base cost in fixed point.
#[derive(Debug, Clone, Copy)]
pub struct TopologyEdge {
    pub from: u32,
    pub to: u32,
    pub weight: u64,
}

/// A connection with the cost it has for one traveller.
#[derive(Debug, Clone, Copy)]
pub struct CostedEdge {
    pub from: u32,
    pub to: u32,
    pub cost: TravelCost,
}

/// Most systems a topology can hold.
pub const MAX_NODES: usize = 0xffff_fffe;

/// Most connections a topology can hold.
pub const MAX_EDGES: usize = 0xffff_fffe;

/// The terrain that a name stands for; an unknown or missing name stands
/// for open space.
pub open spec fn terrain_named(name: Option<Seq<char>>) -> TerrainType {
    match name {
        Some(text) => if text == "Mountain"@ {
            TerrainType::Mountain
        } else if text == "Water"@ {
            TerrainType::Water
        } else if text == "Forest"@ {
            TerrainType::Forest
        } else if text == "Plains"@ {
            TerrainType::Plains
        } else {
            TerrainType::Space
        },
        None => TerrainType::Space,
    }
}

/// The movement profile that a name stands for; an unknown or missing name
/// stands for travel through space.
pub open spec fn profile_named(name: Option<Seq<char>>) -> MovementProfile {
    match name {
        Some(text) => if text == "Ground"@ {
            MovementProfile::Ground
        } else if text == "Hover"@ {
            MovementProfile::Hover
        } else {
            MovementProfile::Space
        },
        None => MovementProfile::Space,
    }
}

/// Twice a cost, saturating at impassable.
pub open spec fn doubled(base: u64) -> u64 {
    if base * 2 > IMPASSABLE {
        IMPASSABLE
    } else {
        (base * 2) as u64
    }
}

/// One and a half times a cost, saturating at impassable.
pub open spec fn half_again(base: u64) -> u64 {
    if base + base / 2 > IMPASSABLE {
        IMPASSABLE
    } else {
        (base + base / 2) as u64
    }
}

/// What entering a system of the given terrain costs a traveller: space
/// travel ignores terrain; ground travel pays double for mountains, half
/// again for forest and cannot cross water; hover travel pays double for
/// mountains only.
pub open spec fn traversal_cost(base: u64, terrain: TerrainType, profile: MovementProfile) -> u64 {
    match profile {
        MovementProfile::Space => base,
        MovementProfile::Ground => match terrain {
            TerrainType::Mountain => doubled(base),
            TerrainType::Water => IMPASSABLE,
            TerrainType::Forest => half_again(base),
            _ => base,
        },
        MovementProfile::Hover => match terrain {
            TerrainType::Mountain => doubled(base),
            _ => base,
        },
    }
}

/// What the A* search of `petgraph::algo::astar` returns, with a zero
/// heuristic, on the directed graph built from the given (origin, target,
/// cost) connections: the total cost and the systems passed, by position,
/// or nothing where the goal cannot be reached.
pub uninterp spec fn astar_route(edges: Seq<(u32, u32, u64)>, start: u32, goal: u32) -> Option<(u64, Seq<u32>)>;

/// Connections as (origin, target, cost) triples.
pub open spec fn costed_triples(edges: Seq<CostedEdge>) -> Seq<(u32, u32, u64)> {
    Seq::new(edges.len(), |i: int| (edges[i].from, edges[i].to, edges[i].cost.0))
}

/// A search result as plain values.
pub open spec fn found_model(found: Option<(TravelCost, Vec<u32>)>) -> Option<(u64, Seq<u32>)> {
    match found {
        Some((cost, path)) => Some((cost.0, path@)),
        None => None,
    }
}

/// Runs `petgraph::algo::astar`, with a zero heuristic, from `start` until
/// `goal` on the graph that `petgraph::graph::Graph::from_edges` builds from
/// the connections. The result is the named `astar_route` of the arguments.
/// As the search's source shows, a path it returns is never empty, and each
/// system on it is the start or the target of a connection. Building the
/// graph panics where an index or the number of connections reaches the
/// 32-bit limit, which the precondition leaves out.
#[verifier::external_body]
fn search_route(edges: &Vec<CostedEdge>, start: u32, goal: u32) -> (found: Option<
    (TravelCost, Vec<u32>),
>)
    requires
        edges@.len() < u32::MAX,
        forall|i: int|
            0 <= i < edges@.len() ==> (#[trigger] edges@[i]).from < u32::MAX && edges@[i].to
                < u32::MAX,
    ensures
        found_model(found) == astar_route(costed_triples(edges@), start, goal),
        match found {
            Some((_, path)) => path@.len() >= 1 && forall|k: int|
                0 <= k < path@.len() ==> (#[trigger] path@[k]) == start || exists|i: int|
                    0 <= i < edges@.len() && (#[trigger] edges@[i]).to == path@[k],
            None => true,
        },
{
    let graph = DiGraph::<(), TravelCost, u32>::from_edges(
        edges.iter().map(|e| (e.from, e.to, e.cost)),
    );
    let goal = NodeIndex::new(goal as usize);
    let found = astar(
        &graph,
        NodeIndex::new(start as usize),
        |reached| reached == goal,
        |e| *e.weight(),
        |_| TravelCost::default(),
    );
    found.map(|(cost, path)| (cost, path.iter().map(|n| n.index() as u32).collect()))
}

/// The universe topology: systems and the directed connections between
/// them.
pub struct GraphTopology {
    pub nodes: Vec<NodeData>,
    pub edges: Vec<TopologyEdge>,
    pub run_id: String,
}

/// Views of a sequence of systems, position by position.
pub open spec fn node_views(nodes: Seq<NodeData>) -> Seq<NodeView> {
    Seq::new(nodes.len(), |i: int| nodes[i]@)
}

/// Position `i` holds the system with identifier `id`.
pub open spec fn is_node(nodes: Seq<NodeView>, id: Seq<char>, i: int) -> bool {
    0 <= i < nodes.len() && nodes[i].id == id
}

/// The position of the system with identifier `id`, if the topology holds
/// it.
pub open spec fn node_index(nodes: Seq<NodeView>, id: Seq<char>) -> Option<int> {
    if exists|i: int| is_node(nodes, id, i) {
        Some(choose|i: int| is_node(nodes, id, i))
    } else {
        None
    }
}

/// No two systems share an identifier.
pub open spec fn node_ids_distinct(nodes: Seq<NodeView>) -> bool {
    forall|i: int, j: int|
        0 <= i < nodes.len() && 0 <= j < nodes.len() && i != j ==> (#[trigger] nodes[i]).id != (
        #[trigger] nodes[j]).id
}

/// The connections as one traveller pays for them: each base cost adjusted
/// for the terrain of the system the connection leads into.
pub open spec fn costed_for(
    nodes: Seq<NodeView>,
    edges: Seq<TopologyEdge>,
    profile: MovementProfile,
) -> Seq<(u32, u32, u64)> {
    Seq::new(
        edges.len(),
        |i: int|
            (
                edges[i].from,
                edges[i].to,
                traversal_cost(edges[i].weight, nodes[edges[i].to as int].terrain, profile),
            ),
    )
}

/// A search result as a route: the identifiers of the systems passed and
/// the total cost; nothing where the search found nothing or only an
/// impassable way.
pub open spec fn route_of(nodes: Seq<NodeView>, found: Option<(u64, Seq<u32>)>) -> Option<
    (Seq<Seq<char>>, u64),
> {
    match found {
        Some((cost, path)) => if cost == IMPASSABLE {
            None
        } else {
            Some((Seq::new(path.len(), |k: int| nodes[path[k] as int].id), cost))
        },
        None => None,
    }
}

/// A route as plain values.
pub open spec fn route_model(route: Option<(Vec<String>, u64)>) -> Option<(Seq<Seq<char>>, u64)> {
    match route {
        Some((ids, cost)) => Some((Seq::new(ids@.len(), |k: int| ids@[k]@), cost)),
        None => None,
    }
}

/// The cost of one standard jump (one whole unit).
pub const STANDARD_JUMP: u64 = 1_000_000;

/// The systems after adding one: unchanged where the identifier is already
/// there, else with the new system at the end.
pub open spec fn with_node(nodes: Seq<NodeView>, id: Seq<char>, terrain: TerrainType) -> Seq<NodeView> {
    if node_index(nodes, id).is_some() {
        nodes
    } else {
        nodes.push(NodeView { id, terrain })
    }
}

/// The systems and connections after adding a connection: both ends are
/// added in open space where they are missing, and the connection joins
/// their positions.
pub open spec fn with_edge(
    nodes: Seq<NodeView>,
    edges: Seq<TopologyEdge>,
    from: Seq<char>,
    to: Seq<char>,
    weight: u64,
) -> (Seq<NodeView>, Seq<TopologyEdge>) {
    let joined = with_node(with_node(nodes, from, TerrainType::Space), to, TerrainType::Space);
    (
        joined,
        edges.push(
            TopologyEdge {
                from: node_index(joined, from).unwrap() as u32,
                to: node_index(joined, to).unwrap() as u32,
                weight,
            },
        ),
    )
}

/// A list of systems, each with the systems it connects to, as plain
/// values.
pub open spec fn system_views(systems: Seq<(String, Vec<String>)>) -> Seq<(Seq<char>, Seq<Seq<char>>)> {
    Seq::new(
        systems.len(),
        |i: int| (systems[i].0@, Seq::new(systems[i].1@.len(), |k: int| systems[i].1@[k]@)),
    )
}

/// How many connections the first `n` listed systems have.
pub open spec fn connections_before(systems: Seq<(Seq<char>, Seq<Seq<char>>)>, n: int) -> int
    decreases n,
{
    if n <= 0 {
        0
    } else {
        connections_before(systems, n - 1) + systems[n - 1].1.len()
    }
}

/// A topology after adding a system and the first `k` of its connections,
/// each at the cost of a standard jump.
pub open spec fn system_linked(
    state: (Seq<NodeView>, Seq<TopologyEdge>),
    id: Seq<char>,
    targets: Seq<Seq<char>>,
    k: int,
) -> (Seq<NodeView>, Seq<TopologyEdge>)
    decreases k,
{
    if k <= 0 {
        (with_node(state.0, id, TerrainType::Space), state.1)
    } else {
        let linked = system_linked(state, id, targets, k - 1);
        with_edge(linked.0, linked.1, id, targets[k - 1], STANDARD_JUMP)
    }
}

/// The topology built from the first `n` listed systems.
pub open spec fn synced(systems: Seq<(Seq<char>, Seq<Seq<char>>)>, n: int) -> (
    Seq<NodeView>,
    Seq<TopologyEdge>,
)
    decreases n,
{
    if n <= 0 {
        (Seq::empty(), Seq::empty())
    } else {
        system_linked(
            synced(systems, n - 1),
            systems[n - 1].0,
            systems[n - 1].1,
            systems[n - 1].1.len() as int,
        )
    }
}

/// More listed systems have no fewer connections.
pub proof fn lemma_connections_monotone(systems: Seq<(Seq<char>, Seq<Seq<char>>)>, a: int, b: int)
    requires
        0 <= a <= b,
    ensures
        0 <= connections_before(systems, a) <= connections_before(systems, b),
    decreases b,
{
    if a < b {
        lemma_connections_monotone(systems, a, b - 1);
    } else if a > 0 {
        lemma_connections_monotone(systems, a - 1, a - 1);
    }
}

/// Among distinct identifiers, the position that holds an identifier is the
/// position the identifier is found at.
pub proof fn lemma_node_index_is(nodes: Seq<NodeView>, id: Seq<char>, i: int)
    requires
        node_ids_distinct(nodes),
        is_node(nodes, id, i),
    ensures
        node_index(nodes, id) == Some(i),
{
    let c = choose|c: int| is_node(nodes, id, c);
    assert(is_node(nodes, id, c));
    if c != i {
        assert(nodes[c].id != nodes[i].id);
    }
}

impl TerrainType {
    /// Reads a terrain from its name.
    pub fn from_name(name: Option<&str>) -> (terrain: TerrainType)
        ensures
            terrain == terrain_named(
                match name {
                    Some(text) => Some(text@),
                    None => None,
                },
            ),
    {
        match name {
            Some(text) => if same_text(text, "Mountain") {
                TerrainType::Mountain
            } else if same_text(text, "Water") {
                TerrainType::Water
            } else if same_text(text, "Forest") {
                TerrainType::Forest
            } else if same_text(text, "Plains") {
                TerrainType::Plains
            } else {
                TerrainType::Space
            },
            None => TerrainType::Space,
        }
    }
}

impl MovementProfile {
    /// Reads a movement profile from its name.
    pub fn from_name(name: Option<&str>) -> (profile: MovementProfile)
        ensures
            profile == profile_named(
                match name {
                    Some(text) => Some(text@),
                    None => None,
                },
            ),
    {
        match name {
            Some(text) => if same_text(text, "Ground") {
                MovementProfile::Ground
            } else if same_text(text, "Hover") {
                MovementProfile::Hover
            } else {
                MovementProfile::Space
            },
            None => MovementProfile::Space,
        }
    }

    /// What entering a system of the given terrain costs a traveller of
    /// this profile.
    pub fn cost_of(&self, base: u64, terrain: TerrainType) -> (cost: TravelCost)
        ensures
            cost.0 == traversal_cost(base, terrain, *self),
    {
        match self {
            MovementProfile::Space => TravelCost(base),
            MovementProfile::Ground => match terrain {
                TerrainType::Mountain => TravelCost(base.saturating_add(base)),
                TerrainType::Water => TravelCost(IMPASSABLE),
                TerrainType::Forest => TravelCost(base.saturating_add(base / 2)),
                _ => TravelCost(base),
            },
            MovementProfile::Hover => match terrain {
                TerrainType::Mountain => TravelCost(base.saturating_add(base)),
                _ => TravelCost(base),
            },
        }
    }
}

impl GraphTopology {
    /// The systems of the topology, by position.
    pub open spec fn nodes(&self) -> Seq<NodeView> {
        node_views(self.nodes@)
    }

    /// The connections of the topology, in the order in which they were
    /// added.
    pub open spec fn edges(&self) -> Seq<TopologyEdge> {
        self.edges@
    }

    /// The topology invariant: identifiers are distinct, every connection
    /// joins two systems of the topology, and neither systems nor
    /// connections exceed what the topology can hold.
    pub open spec fn well_formed(&self) -> bool {
        &&& node_ids_distinct(self.nodes())
        &&& self.nodes().len() <= MAX_NODES
        &&& self.edges().len() <= MAX_EDGES
        &&& forall|i: int|
            0 <= i < self.edges().len() ==> (#[trigger] self.edges()[i]).from < self.nodes().len()
                && self.edges()[i].to < self.nodes().len()
    }

    /// The cheapest route between two systems for a traveller of the given
    /// profile, as the search finds it; nothing where either system is
    /// unknown.
    pub open spec fn route(&self, start_id: Seq<char>, end_id: Seq<char>, profile: MovementProfile) -> Option<
        (Seq<Seq<char>>, u64),
    > {
        match (node_index(self.nodes(), start_id), node_index(self.nodes(), end_id)) {
            (Some(start), Some(goal)) => route_of(
                self.nodes(),
                astar_route(costed_for(self.nodes(), self.edges(), profile), start as u32, goal as u32),
            ),
            _ => None,
        }
    }

    /// Whether the topology satisfies its invariant.
    pub fn is_well_formed(&self) -> (ok: bool)
        ensures
            ok == self.well_formed(),
    {
        if self.nodes.len() > MAX_NODES || self.edges.len() > MAX_EDGES {
            return false;
        }
        let mut i: usize = 0;
        while i < self.nodes.len()
            invariant
                i <= self.nodes@.len(),
                forall|a: int, b: int|
                    0 <= a < i && 0 <= b < self.nodes@.len() && a != b ==> (
                    #[trigger] self.nodes()[a]).id != (#[trigger] self.nodes()[b]).id,
            decreases self.nodes@.len() - i,
        {
            let mut j: usize = 0;
            while j < self.nodes.len()
                invariant
                    i < self.nodes@.len(),
                    j <= self.nodes@.len(),
                    forall|b: int|
                        0 <= b < j && b != i ==> self.nodes()[i as int].id != (
                        #[trigger] self.nodes()[b]).id,
                decreases self.nodes@.len() - j,
            {
                assert(self.nodes@[i as int]@ == self.nodes()[i as int]);
                assert(self.nodes@[j as int]@ == self.nodes()[j as int]);
                if j != i && same_text(self.nodes[i].id.as_str(), self.nodes[j].id.as_str()) {
                    return false;
                }
                j += 1;
            }
            i += 1;
        }
        let mut k: usize = 0;
        while k < self.edges.len()
            invariant
                k <= self.edges@.len(),
                forall|e: int|
                    0 <= e < k ==> (#[trigger] self.edges()[e]).from < self.nodes().len()
                        && self.edges()[e].to < self.nodes().len(),
            decreases self.edges@.len() - k,
        {
            if self.edges[k].from as usize >= self.nodes.len() || self.edges[k].to as usize
                >= self.nodes.len() {
                return false;
            }
            k += 1;
        }
        true
    }

    /// An empty topology under a fresh run identifier, which is a random
    /// identifier of 36 characters.
    pub fn new() -> (topology: Self)
        ensures
            topology.nodes() == Seq::<NodeView>::empty(),
            topology.edges() == Seq::<TopologyEdge>::empty(),
            topology.run_id@.len() == 36,
            topology.well_formed(),
    {
        let topology = GraphTopology {
            nodes: Vec::new(),
            edges: Vec::new(),
            run_id: fresh_identifier(),
        };
        assert(topology.nodes() =~= Seq::<NodeView>::empty());
        topology
    }

    /// Number of systems.
    pub fn node_count(&self) -> (count: usize)
        ensures
            count == self.nodes().len(),
    {
        self.nodes.len()
    }

    /// Number of connections.
    pub fn edge_count(&self) -> (count: usize)
        ensures
            count == self.edges().len(),
    {
        self.edges.len()
    }

    /// The position of the system with identifier `id`.
    pub fn find_node(&self, id: &str) -> (found: Option<u32>)
        requires
            self.well_formed(),
        ensures
            match found {
                Some(i) => node_index(self.nodes(), id@) == Some(i as int) && is_node(
                    self.nodes(),
                    id@,
                    i as int,
                ),
                None => node_index(self.nodes(), id@).is_none(),
            },
    {
        let mut i: usize = 0;
        while i < self.nodes.len()
            invariant
                i <= self.nodes@.len(),
                self.well_formed(),
                forall|j: int| 0 <= j < i ==> (#[trigger] self.nodes()[j]).id != id@,
            decreases self.nodes@.len() - i,
        {
            assert(self.nodes@[i as int]@ == self.nodes()[i as int]);
            if same_text(self.nodes[i].id.as_str(), id) {
                proof {
                    assert(is_node(self.nodes(), id@, i as int));
                    let c = choose|c: int| is_node(self.nodes(), id@, c);
                    if c != i {
                        assert(self.nodes()[c].id != self.nodes()[i as int].id);
                    }
                }
                return Some(i as u32);
            }
            i += 1;
        }
        None
    }

    /// Adds a system and returns its position. A system that is already
    /// there keeps its terrain and its position is returned.
    pub fn add_node(&mut self, id: String, terrain_str: Option<String>) -> (index: u32)
        requires
            old(self).well_formed(),
            old(self).nodes().len() < MAX_NODES,
        ensures
            final(self).well_formed(),
            final(self).edges() == old(self).edges(),
            final(self).run_id == old(self).run_id,
            final(self).nodes() == with_node(
                old(self).nodes(),
                id@,
                terrain_named(
                    match terrain_str {
                        Some(text) => Some(text@),
                        None => None,
                    },
                ),
            ),
            node_index(final(self).nodes(), id@) == Some(index as int),
    {
        if let Some(found) = self.find_node(id.as_str()) {
            return found;
        }
        let terrain = match &terrain_str {
            Some(text) => TerrainType::from_name(Some(text.as_str())),
            None => TerrainType::from_name(None),
        };
        let index = self.nodes.len();
        let ghost before = self.nodes();
        self.nodes.push(NodeData { id, terrain });
        proof {
            assert(self.nodes() =~= before.push(NodeView { id: id@, terrain }));
            assert forall|a: int, b: int|
                0 <= a < self.nodes().len() && 0 <= b < self.nodes().len() && a != b implies (
            #[trigger] self.nodes()[a]).id != (#[trigger] self.nodes()[b]).id by {
                if a < index && b < index {
                    assert(before[a].id != before[b].id);
                } else if a < index {
                    assert(!is_node(before, id@, a));
                } else {
                    assert(!is_node(before, id@, b));
                }
            }
            lemma_node_index_is(self.nodes(), id@, index as int);
        }
        index as u32
    }

    /// Adds a directed connection between two systems, creating in open
    /// space whichever of them the topology does not hold yet.
    pub fn add_edge(&mut self, from_id: &str, to_id: &str, weight: u64)
        requires
            old(self).well_formed(),
            old(self).nodes().len() + 2 <= MAX_NODES,
            old(self).edges().len() < MAX_EDGES,
        ensures
            final(self).well_formed(),
            final(self).run_id == old(self).run_id,
            (final(self).nodes(), final(self).edges()) == with_edge(
                old(self).nodes(),
                old(self).edges(),
                from_id@,
                to_id@,
                weight,
            ),
            final(self).edges().len() == old(self).edges().len() + 1,
            old(self).nodes().len() <= final(self).nodes().len() <= old(self).nodes().len() + 2,
    {
        let from = self.add_node(String::from_str(from_id), None);
        let ghost mid = self.nodes();
        let to = self.add_node(String::from_str(to_id), None);
        proof {
            let c = choose|c: int| is_node(mid, from_id@, c);
            assert(is_node(mid, from_id@, c));
            assert(self.nodes()[from as int] == mid[from as int]);
            lemma_node_index_is(self.nodes(), from_id@, from as int);
        }
        self.edges.push(TopologyEdge { from, to, weight });
    }

    /// Rebuilds the topology from a list of systems, each with the systems
    /// it connects to: the old systems and connections go, every listed
    /// system is added in open space, and every connection costs one
    /// standard jump.
    pub fn sync_topology(&mut self, systems: Vec<(String, Vec<String>)>)
        requires
            systems@.len() + 2 * connections_before(system_views(systems@), systems@.len() as int)
                <= MAX_NODES,
        ensures
            final(self).well_formed(),
            final(self).run_id == old(self).run_id,
            (final(self).nodes(), final(self).edges()) == synced(
                system_views(systems@),
                systems@.len() as int,
            ),
    {
        let ghost listed = system_views(systems@);
        self.clear();
        let mut i: usize = 0;
        while i < systems.len()
            invariant
                i <= systems@.len(),
                listed == system_views(systems@),
                systems@.len() + 2 * connections_before(listed, systems@.len() as int) <= MAX_NODES,
                self.well_formed(),
                self.run_id == old(self).run_id,
                (self.nodes(), self.edges()) == synced(listed, i as int),
                self.nodes().len() <= i + 2 * connections_before(listed, i as int),
                self.edges().len() == connections_before(listed, i as int),
            decreases systems@.len() - i,
        {
            let system = &systems[i];
            let ghost targets = listed[i as int].1;
            let ghost start = (self.nodes(), self.edges());
            proof {
                lemma_connections_monotone(listed, i + 1, systems@.len() as int);
                lemma_connections_monotone(listed, i as int, i + 1);
                assert(targets.len() == system.1@.len());
            }
            self.add_node(system.0.clone(), None);
            let mut k: usize = 0;
            while k < system.1.len()
                invariant
                    i < systems@.len(),
                    k <= system.1@.len(),
                    *system == systems@[i as int],
                    listed == system_views(systems@),
                    targets == listed[i as int].1,
                    targets.len() == system.1@.len(),
                    i + 1 + 2 * (connections_before(listed, i as int) + targets.len()) <= MAX_NODES,
                    self.well_formed(),
                    self.run_id == old(self).run_id,
                    (self.nodes(), self.edges()) == system_linked(
                        start,
                        listed[i as int].0,
                        targets,
                        k as int,
                    ),
                    self.nodes().len() <= i + 1 + 2 * (connections_before(listed, i as int) + k),
                    self.edges().len() == connections_before(listed, i as int) + k,
                decreases system.1@.len() - k,
            {
                assert(system.1@[k as int]@ == targets[k as int]);
                self.add_edge(system.0.as_str(), system.1[k].as_str(), STANDARD_JUMP);
                k += 1;
            }
            i += 1;
        }
    }

    /// Removes every system and every connection.
    pub fn clear(&mut self)
        ensures
            final(self).nodes() == Seq::<NodeView>::empty(),
            final(self).edges() == Seq::<TopologyEdge>::empty(),
            final(self).run_id == old(self).run_id,
            final(self).well_formed(),
    {
        self.nodes.clear();
        self.edges.clear();
        assert(self.nodes() =~= Seq::<NodeView>::empty());
    }

    /// The connections as a traveller of the given profile pays for them.
    pub fn costed_edges(&self, profile: MovementProfile) -> (costed: Vec<CostedEdge>)
        requires
            self.well_formed(),
        ensures
            costed_triples(costed@) == costed_for(self.nodes(), self.edges(), profile),
            costed@.len() == self.edges().len(),
            forall|i: int|
                0 <= i < costed@.len() ==> (#[trigger] costed@[i]).from == self.edges()[i].from
                    && costed@[i].to == self.edges()[i].to,
    {
        let mut costed: Vec<CostedEdge> = Vec::new();
        let mut i: usize = 0;
        while i < self.edges.len()
            invariant
                i <= self.edges@.len(),
                self.well_formed(),
                costed@.len() == i,
                forall|j: int|
                    0 <= j < i ==> (#[trigger] costed@[j]).from == self.edges()[j].from
                        && costed@[j].to == self.edges()[j].to && costed@[j].cost.0
                        == traversal_cost(
                        self.edges()[j].weight,
                        self.nodes()[self.edges()[j].to as int].terrain,
                        profile,
                    ),
            decreases self.edges@.len() - i,
        {
            let edge = self.edges[i];
            assert(edge == self.edges()[i as int]);
            let target = &self.nodes[edge.to as usize];
            assert(target@ == self.nodes()[edge.to as int]);
            costed.push(
                CostedEdge {
                    from: edge.from,
                    to: edge.to,
                    cost: profile.cost_of(edge.weight, target.terrain),
                },
            );
            i += 1;
        }
        assert(costed_triples(costed@) =~= costed_for(self.nodes(), self.edges(), profile));
        costed
    }

    /// Turns a search result into a route: the identifiers of the systems
    /// passed and the total cost; nothing where the search found nothing or
    /// only an impassable way.
    pub fn describe_route(&self, found: Option<(TravelCost, Vec<u32>)>) -> (route: Option<
        (Vec<String>, u64),
    >)
        requires
            match found {
                Some((_, path)) => forall|k: int|
                    0 <= k < path@.len() ==> (#[trigger] path@[k]) < self.nodes().len(),
                None => true,
            },
        ensures
            route_model(route) == route_of(self.nodes(), found_model(found)),
    {
        match found {
            Some((cost, path)) => {
                if cost.is_impassable() {
                    return None;
                }
                let mut ids: Vec<String> = Vec::new();
                let mut k: usize = 0;
                while k < path.len()
                    invariant
                        k <= path@.len(),
                        ids@.len() == k,
                        forall|j: int|
                            0 <= j < path@.len() ==> (#[trigger] path@[j]) < self.nodes().len(),
                        forall|j: int|
                            0 <= j < k ==> (#[trigger] ids@[j])@ == self.nodes()[path@[j] as int].id,
                    decreases path@.len() - k,
                {
                    let node = &self.nodes[path[k] as usize];
                    assert(node@ == self.nodes()[path@[k as int] as int]);
                    ids.push(node.id.clone());
                    k += 1;
                }
                let route = Some((ids, cost.0));
                assert(route_model(route).unwrap().0 =~= route_of(
                    self.nodes(),
                    found_model(found),
                ).unwrap().0);
                route
            },
            None => None,
        }
    }

    /// Finds the cheapest route between two systems for a traveller of the
    /// named profile: the identifiers of the systems passed, both ends
    /// included, and the total cost. There is no route where either system
    /// is unknown, where the goal cannot be reached, or where every way is
    /// impassable for the traveller.
    pub fn find_path(&self, start_id: &str, end_id: &str, profile_str: Option<String>) -> (route:
        Option<(Vec<String>, u64)>)
        requires
            self.well_formed(),
        ensures
            route_model(route) == self.route(
                start_id@,
                end_id@,
                profile_named(
                    match profile_str {
                        Some(text) => Some(text@),
                        None => None,
                    },
                ),
            ),
    {
        let start = match self.find_node(start_id) {
            Some(i) => i,
            None => {
                return None;
            },
        };
        let goal = match self.find_node(end_id) {
            Some(i) => i,
            None => {
                return None;
            },
        };
        let profile = match &profile_str {
            Some(text) => MovementProfile::from_name(Some(text.as_str())),
            None => MovementProfile::from_name(None),
        };
        let costed = self.costed_edges(profile);
        let found = search_route(&costed, start, goal);
        self.describe_route(found)
    }
}

} // verus!
