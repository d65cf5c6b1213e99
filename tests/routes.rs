use pathfinder::{Channel, Identity, Pathfinder, RouteError, MAX_HOPS};

fn admin() -> Identity {
    Identity::from_bytes([7u8; 32])
}

fn stranger() -> Identity {
    let mut bytes = [7u8; 32];
    bytes[31] = 8;
    Identity::from_bytes(bytes)
}

#[test]
fn route_to_self_is_single_node() {
    let mut p = Pathfinder::new(admin());
    assert_eq!(p.find_route(5, 5), vec![5]);
    p.add_route(admin(), 5, 6, 1).unwrap();
    p.add_route(admin(), 5, 5, 0).unwrap();
    assert_eq!(p.find_route(5, 5), vec![5]);
    assert_eq!(p.find_route(u32::MAX, u32::MAX), vec![u32::MAX]);
}

#[test]
fn route_without_outgoing_edges_is_start_only() {
    let mut p = Pathfinder::new(admin());
    assert_eq!(p.find_route(1, 2), vec![1]);
    p.add_route(admin(), 2, 1, 10).unwrap();
    assert_eq!(p.find_route(1, 2), vec![1]);
}

#[test]
fn cost_is_directed() {
    let mut p = Pathfinder::new(admin());
    p.add_route(admin(), 4, 9, 123).unwrap();
    assert_eq!(p.get_edge_cost(4, 9), 123);
    assert_eq!(p.get_edge_cost(9, 4), 0);
    p.add_route(admin(), 9, 4, 77).unwrap();
    assert_eq!(p.get_edge_cost(4, 9), 123);
    assert_eq!(p.get_edge_cost(9, 4), 77);
}

#[test]
fn readding_overwrites_cost_without_duplicate() {
    let mut p = Pathfinder::new(admin());
    p.add_route(admin(), 1, 2, 100).unwrap();
    p.add_route(admin(), 1, 3, 5).unwrap();
    p.add_route(admin(), 1, 2, 40).unwrap();
    assert_eq!(p.get_neighbors(1), vec![2, 3]);
    assert_eq!(p.get_edge_cost(1, 2), 40);
}

#[test]
fn equal_costs_pick_first_added() {
    let mut p = Pathfinder::new(admin());
    p.add_route(admin(), 1, 2, 10).unwrap();
    p.add_route(admin(), 1, 3, 10).unwrap();
    assert_eq!(p.find_route(1, 99), vec![1, 2]);
    let mut q = Pathfinder::new(admin());
    q.add_route(admin(), 1, 3, 10).unwrap();
    q.add_route(admin(), 1, 2, 10).unwrap();
    assert_eq!(q.find_route(1, 99), vec![1, 3]);
}

#[test]
fn cycle_runs_full_hop_budget() {
    let mut p = Pathfinder::new(admin());
    p.add_route(admin(), 1, 2, 1).unwrap();
    p.add_route(admin(), 2, 3, 1).unwrap();
    p.add_route(admin(), 3, 1, 1).unwrap();
    let route = p.find_route(1, 42);
    assert_eq!(route.len(), MAX_HOPS + 1);
    assert_eq!(route, vec![1, 2, 3, 1, 2, 3, 1, 2, 3, 1, 2]);
}

#[test]
fn self_loop_repeats_until_budget() {
    let mut p = Pathfinder::new(admin());
    p.add_route(admin(), 8, 8, 0).unwrap();
    assert_eq!(p.find_route(8, 9), vec![8; 11]);
}

#[test]
fn non_admin_cannot_add_route() {
    let mut p = Pathfinder::new(admin());
    p.add_route(admin(), 1, 2, 100).unwrap();
    let before_neighbors = p.get_neighbors(1);
    assert_eq!(p.add_route(stranger(), 1, 3, 1), Err(RouteError::Unauthorized));
    assert_eq!(p.add_route(stranger(), 1, 2, 1), Err(RouteError::Unauthorized));
    assert_eq!(p.get_neighbors(1), before_neighbors);
    assert_eq!(p.get_edge_cost(1, 2), 100);
    assert_eq!(p.get_edge_cost(1, 3), 0);
    assert!(p.get_neighbors(7).is_empty());
    assert!(p.admin() == admin());
}

#[test]
fn greedy_prefers_cheapest_first_hop() {
    let a = admin();
    let mut p = Pathfinder::new(a);
    p.add_route(a, 1, 2, 100).unwrap();
    p.add_route(a, 2, 3, 50).unwrap();
    p.add_route(a, 1, 3, 500).unwrap();
    assert_eq!(p.find_route(1, 3), vec![1, 2, 3]);
}

#[test]
fn dead_end_gives_partial_route() {
    let mut p = Pathfinder::new(admin());
    p.add_route(admin(), 1, 2, 3).unwrap();
    p.add_route(admin(), 2, 5, 3).unwrap();
    assert_eq!(p.find_route(1, 9), vec![1, 2, 5]);
}

#[test]
fn greedy_walk_follows_cheapest_edge_away_from_target() {
    let mut p = Pathfinder::new(admin());
    p.add_route(admin(), 1, 2, 500).unwrap();
    p.add_route(admin(), 1, 3, 1).unwrap();
    p.add_route(admin(), 3, 1, u128::MAX).unwrap();
    assert_eq!(p.find_route(1, 2), vec![1, 3, 1, 3, 1, 3, 1, 3, 1, 3, 1]);
    assert_eq!(p.get_edge_cost(3, 1), u128::MAX);
}

#[test]
fn edge_key_packs_high_and_low_halves() {
    assert_eq!(Pathfinder::edge_key(1, 2), 0x0000_0001_0000_0002);
    assert_eq!(Pathfinder::edge_key(2, 1), 0x0000_0002_0000_0001);
    assert_eq!(Pathfinder::edge_key(0, 0), 0);
    assert_eq!(Pathfinder::edge_key(u32::MAX, u32::MAX), u64::MAX);
    assert_eq!(Pathfinder::edge_key(u32::MAX, 0), 0xffff_ffff_0000_0000);
}

#[test]
fn identities_compare_bytewise() {
    assert!(admin().same_as(&admin()));
    assert!(!admin().same_as(&stranger()));
    let p = Pathfinder::new(stranger());
    assert!(p.authorize(&stranger()));
    assert!(!p.authorize(&admin()));
}

#[test]
fn extreme_node_ids_do_not_collide() {
    let mut p = Pathfinder::new(admin());
    p.add_route(admin(), u32::MAX, 0, 11).unwrap();
    p.add_route(admin(), 0, u32::MAX, 22).unwrap();
    assert_eq!(p.get_edge_cost(u32::MAX, 0), 11);
    assert_eq!(p.get_edge_cost(0, u32::MAX), 22);
    assert_eq!(p.find_route(u32::MAX, 5), vec![u32::MAX, 0, u32::MAX, 0, u32::MAX, 0, u32::MAX, 0, u32::MAX, 0, u32::MAX]);
}

#[test]
fn channel_holds_its_fields() {
    let c = Channel { from_chain: 1, to_chain: 2, cost_estimate: 300, active: true };
    let d = c;
    assert!(c == d);
    assert_eq!(d.cost_estimate, 300);
    assert!(d.active);
}
