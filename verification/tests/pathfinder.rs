use void_reckoning::pathfinder::cost::{TravelCost, IMPASSABLE};
use void_reckoning::pathfinder::{GraphTopology, MovementProfile, TerrainType};

const ONE: u64 = 1_000_000;

fn names(ids: &[&str]) -> Vec<String> {
    ids.iter().map(|s| s.to_string()).collect()
}

#[test]
fn test_simple_path() {
    let mut topo = GraphTopology::new();
    topo.add_edge("A", "B", 10 * ONE);
    topo.add_edge("B", "C", 20 * ONE);
    topo.add_edge("A", "C", 100 * ONE); // Expensive shortcut

    // A -> B -> C is 30.0
    // A -> C is 100.0
    let (path, cost) = topo.find_path("A", "C", None).unwrap();

    assert_eq!(path, vec!["A", "B", "C"]);
    assert_eq!(cost, 30 * ONE);
}

#[test]
fn test_no_path() {
    let mut topo = GraphTopology::new();
    topo.add_edge("A", "B", 10 * ONE);
    topo.add_edge("C", "D", 10 * ONE);

    let result = topo.find_path("A", "D", None);
    assert!(result.is_none());
}

#[test]
fn unknown_systems_have_no_route() {
    let mut topo = GraphTopology::new();
    topo.add_edge("A", "B", ONE);
    assert!(topo.find_path("A", "Z", None).is_none());
    assert!(topo.find_path("Z", "A", None).is_none());
    assert!(topo.find_path("B", "A", None).is_none());
}

#[test]
fn route_to_itself_costs_nothing() {
    let mut topo = GraphTopology::new();
    topo.add_node("A".to_string(), None);
    topo.add_edge("B", "C", ONE);
    assert_eq!(topo.find_path("A", "A", None), Some((names(&["A"]), 0)));
    assert_eq!(topo.find_path("C", "C", None), Some((names(&["C"]), 0)));
}

#[test]
fn terrain_changes_what_ground_and_hover_pay() {
    let mut topo = GraphTopology::new();
    topo.add_node("Peak".to_string(), Some("Mountain".to_string()));
    topo.add_node("Lake".to_string(), Some("Water".to_string()));
    topo.add_node("Wood".to_string(), Some("Forest".to_string()));
    topo.add_node("Field".to_string(), Some("Plains".to_string()));
    topo.add_node("Void".to_string(), Some("Nebula".to_string()));
    assert_eq!(topo.nodes[4].terrain, TerrainType::Space);
    topo.add_edge("Field", "Peak", 10 * ONE);
    topo.add_edge("Field", "Wood", 10 * ONE);
    topo.add_edge("Field", "Lake", 10 * ONE);
    topo.add_edge("Peak", "Void", 3);
    topo.add_edge("Wood", "Void", 3);
    topo.add_edge("Lake", "Void", 3);

    let space = topo.find_path("Field", "Void", None).unwrap();
    assert_eq!(space.1, 10 * ONE + 3);
    let space = topo.find_path("Field", "Void", Some("Submarine".to_string())).unwrap();
    assert_eq!(space.1, 10 * ONE + 3);

    let ground = topo.find_path("Field", "Void", Some("Ground".to_string())).unwrap();
    assert_eq!(ground, (names(&["Field", "Wood", "Void"]), 15 * ONE + 3));
    assert_eq!(
        topo.find_path("Field", "Peak", Some("Ground".to_string())),
        Some((names(&["Field", "Peak"]), 20 * ONE))
    );
    assert_eq!(topo.find_path("Field", "Lake", Some("Ground".to_string())), None);

    let hover = topo.find_path("Field", "Void", Some("Hover".to_string())).unwrap();
    assert_eq!(hover.1, 10 * ONE + 3);
    assert_eq!(
        topo.find_path("Field", "Peak", Some("Hover".to_string())),
        Some((names(&["Field", "Peak"]), 20 * ONE))
    );
    assert_eq!(
        topo.find_path("Field", "Lake", Some("Hover".to_string())),
        Some((names(&["Field", "Lake"]), 10 * ONE))
    );
}

#[test]
fn water_blocks_ground_travel_even_as_the_only_way() {
    let mut topo = GraphTopology::new();
    topo.add_node("Lake".to_string(), Some("Water".to_string()));
    topo.add_edge("A", "Lake", ONE);
    topo.add_edge("Lake", "B", ONE);
    assert_eq!(topo.find_path("A", "B", Some("Ground".to_string())), None);
    assert_eq!(topo.find_path("A", "B", None), Some((names(&["A", "Lake", "B"]), 2 * ONE)));
}

#[test]
fn existing_systems_keep_their_position_and_terrain() {
    let mut topo = GraphTopology::new();
    assert_eq!(topo.run_id.len(), 36);
    assert_eq!(topo.add_node("A".to_string(), Some("Forest".to_string())), 0);
    assert_eq!(topo.add_node("B".to_string(), None), 1);
    assert_eq!(topo.add_node("A".to_string(), Some("Water".to_string())), 0);
    assert_eq!(topo.nodes[0].terrain, TerrainType::Forest);
    assert_eq!(topo.node_count(), 2);
    assert_eq!(topo.find_node("B"), Some(1));
    assert_eq!(topo.find_node("C"), None);
    topo.add_edge("B", "C", 5);
    assert_eq!(topo.node_count(), 3);
    assert_eq!(topo.edge_count(), 1);
    assert_eq!((topo.edges[0].from, topo.edges[0].to, topo.edges[0].weight), (1, 2, 5));
    let run = topo.run_id.clone();
    topo.clear();
    assert_eq!(topo.node_count(), 0);
    assert_eq!(topo.edge_count(), 0);
    assert_eq!(topo.run_id, run);
    assert!(topo.find_path("B", "C", None).is_none());
}

#[test]
fn costs_saturate_at_impassable() {
    assert_eq!(TravelCost(3) + TravelCost(4), TravelCost(7));
    assert_eq!(TravelCost(IMPASSABLE) + TravelCost(4), TravelCost(IMPASSABLE));
    assert_eq!(TravelCost(IMPASSABLE - 1) + TravelCost(4), TravelCost(IMPASSABLE));
    assert!(TravelCost(IMPASSABLE).is_impassable());
    assert!(!TravelCost(0).is_impassable());
    assert!(TravelCost(1) < TravelCost(2));
    assert!(TravelCost(2) > TravelCost(1));
    assert!(TravelCost(2) <= TravelCost(2));
    assert_eq!(TravelCost::default(), TravelCost(0));
    assert_eq!(MovementProfile::Ground.cost_of(IMPASSABLE - 1, TerrainType::Mountain).0, IMPASSABLE);
    assert_eq!(MovementProfile::Ground.cost_of(7, TerrainType::Forest).0, 10);
    assert_eq!(MovementProfile::Ground.cost_of(7, TerrainType::Plains).0, 7);
    assert_eq!(MovementProfile::Hover.cost_of(7, TerrainType::Water).0, 7);
    assert_eq!(MovementProfile::Space.cost_of(7, TerrainType::Mountain).0, 7);
}

#[test]
fn cheapest_of_parallel_connections_is_taken() {
    let mut topo = GraphTopology::new();
    topo.add_edge("A", "B", 9 * ONE);
    topo.add_edge("A", "B", 4 * ONE);
    topo.add_edge("A", "B", 6 * ONE);
    assert_eq!(topo.find_path("A", "B", None), Some((names(&["A", "B"]), 4 * ONE)));
}

#[test]
fn topology_is_rebuilt_from_a_system_list() {
    let mut topo = GraphTopology::new();
    topo.add_edge("Old", "Older", 7 * ONE);
    topo.sync_topology(vec![
        ("A".to_string(), vec!["B".to_string(), "C".to_string()]),
        ("B".to_string(), vec!["C".to_string()]),
        ("D".to_string(), Vec::new()),
    ]);
    assert!(topo.is_well_formed());
    assert_eq!(topo.node_count(), 4);
    assert_eq!(topo.edge_count(), 3);
    assert_eq!(topo.find_node("Old"), None);
    assert_eq!(topo.find_node("A"), Some(0));
    assert_eq!(topo.find_node("B"), Some(1));
    assert_eq!(topo.find_node("C"), Some(2));
    assert_eq!(topo.find_node("D"), Some(3));
    assert_eq!(topo.find_path("A", "C", None), Some((names(&["A", "C"]), ONE)));
    assert_eq!(topo.find_path("B", "C", None), Some((names(&["B", "C"]), ONE)));
    assert_eq!(topo.find_path("A", "D", None), None);
    topo.sync_topology(Vec::new());
    assert_eq!(topo.node_count(), 0);
}

#[test]
fn broken_topologies_are_recognised() {
    let mut topo = GraphTopology::new();
    topo.add_edge("A", "B", ONE);
    assert!(topo.is_well_formed());
    topo.edges[0].to = 2;
    assert!(!topo.is_well_formed());
    topo.edges[0].to = 1;
    topo.nodes[1].id = "A".to_string();
    assert!(!topo.is_well_formed());
}

#[test]
fn names_stand_for_terrains_and_profiles() {
    assert_eq!(TerrainType::from_name(Some("Mountain")), TerrainType::Mountain);
    assert_eq!(TerrainType::from_name(Some("Water")), TerrainType::Water);
    assert_eq!(TerrainType::from_name(Some("Forest")), TerrainType::Forest);
    assert_eq!(TerrainType::from_name(Some("Plains")), TerrainType::Plains);
    assert_eq!(TerrainType::from_name(Some("Space")), TerrainType::Space);
    assert_eq!(TerrainType::from_name(Some("mountain")), TerrainType::Space);
    assert_eq!(TerrainType::from_name(None), TerrainType::Space);
    assert_eq!(MovementProfile::from_name(Some("Ground")), MovementProfile::Ground);
    assert_eq!(MovementProfile::from_name(Some("Hover")), MovementProfile::Hover);
    assert_eq!(MovementProfile::from_name(Some("Space")), MovementProfile::Space);
    assert_eq!(MovementProfile::from_name(Some("Swim")), MovementProfile::Space);
    assert_eq!(MovementProfile::from_name(None), MovementProfile::Space);
}
