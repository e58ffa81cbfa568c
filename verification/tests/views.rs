//! Tests for the flowchart synthesizer: the three view kinds, the
//! view-id dispatch, and the end-to-end scenarios.

use flowscope::flowchart::{
    filter_category, generate_category_flowchart, generate_container_flowchart,
    generate_system_overview, infer_connection_type, resolve_view,
};
use flowscope::models::{
    ConnectionType, ContainerStatus, Flowchart, NodeType, ServiceCategory,
};
use flowscope::normalize::{normalize_containers, RawContainer};

fn raw_named(id: &str, name: &str, state: &str, status_text: &str) -> RawContainer {
    RawContainer {
        id: String::from(id),
        names: vec![format!("/{}", name)],
        image: String::from("img:latest"),
        state: String::from(state),
        status_text: String::from(status_text),
        ports: vec![],
        networks: vec![String::from("valnet")],
        labels: vec![],
        created: 0,
    }
}

fn running(id: &str, name: &str) -> RawContainer {
    raw_named(id, name, "running", "Up 2 hours")
}

fn node_ids(f: &Flowchart) -> Vec<String> {
    f.nodes.iter().map(|n| n.id.clone()).collect()
}

fn edge_ids(f: &Flowchart) -> Vec<String> {
    f.connections.iter().map(|e| e.id.clone()).collect()
}

#[test]
fn scenario_three_categories_system_overview() {
    let rs = normalize_containers(&vec![
        running("c1", "frontend-dashboard"),
        running("c2", "application-gateway"),
        running("c3", "infrastructure-postgres"),
    ]);
    let f = resolve_view("system-overview", rs, &vec![]).expect("view must resolve");
    assert_eq!(f.id, "system-overview");
    assert_eq!(f.name, "VAL System Overview");
    assert_eq!(f.nodes.len(), 3);
    for n in &f.nodes {
        assert_eq!(n.node_type, NodeType::Group);
    }
    let ids = node_ids(&f);
    assert_eq!(ids, vec!["application", "infrastructure", "frontend"]);
    let eids = edge_ids(&f);
    assert!(eids.contains(&String::from("frontend-to-application")));
    assert!(eids.contains(&String::from("application-to-infrastructure")));
    assert!(!eids.contains(&String::from("aiml-to-infrastructure")));
    assert_eq!(f.description, "Complete system topology: 3 containers across 3 categories");
    assert_eq!(f.parent_id, None);
}

#[test]
fn system_edges_need_both_endpoints() {
    let rs = normalize_containers(&vec![
        running("c1", "frontend-dashboard"),
        running("c2", "monitoring-grafana"),
    ]);
    let f = generate_system_overview(&rs);
    assert_eq!(f.nodes.len(), 2);
    // frontend->application needs an application node; monitoring->application
    // and monitoring->aiml need their targets: none is present.
    assert_eq!(f.connections.len(), 0);
    let rs = normalize_containers(&vec![
        running("c1", "frontend-dashboard"),
        running("c2", "application-api"),
    ]);
    let f = generate_system_overview(&rs);
    assert_eq!(edge_ids(&f), vec!["frontend-to-application"]);
    let e = &f.connections[0];
    assert_eq!(e.source, "frontend");
    assert_eq!(e.target, "application");
    assert_eq!(e.label.as_deref(), Some("API calls"));
    assert_eq!(e.connection_type, ConnectionType::Primary);
}

#[test]
fn system_group_node_shape() {
    let rs = normalize_containers(&vec![
        raw_named("c1", "aiml-memory", "running", "Up (healthy)"),
        raw_named("c2", "aiml-learning", "exited", "Exited (0)"),
    ]);
    let f = generate_system_overview(&rs);
    assert_eq!(f.nodes.len(), 1);
    let n = &f.nodes[0];
    assert_eq!(n.id, "aiml");
    assert_eq!(n.name, "AI/ML Services (2)");
    assert_eq!(n.description, "Consciousness, Learning, Memory systems");
    assert_eq!(n.status, ContainerStatus::Running); // some up, not all
    assert_eq!(n.category, ServiceCategory::Aiml);
    assert_eq!(n.port, None);
    assert_eq!(n.child_flowchart.as_deref(), Some("aiml-overview"));
}

#[test]
fn system_rollup_status_levels() {
    let all_up = normalize_containers(&vec![running("c1", "game-a"), running("c2", "game-b")]);
    let f = generate_system_overview(&all_up);
    assert_eq!(f.nodes[0].status, ContainerStatus::Healthy);
    let none_up = normalize_containers(&vec![
        raw_named("c1", "game-a", "exited", ""),
        raw_named("c2", "game-b", "dead", ""),
    ]);
    let f = generate_system_overview(&none_up);
    assert_eq!(f.nodes[0].status, ContainerStatus::Unhealthy);
}

#[test]
fn scenario_validators_natural_order_and_ring() {
    let rs = normalize_containers(&vec![
        running("val1", "val-validator-1"),
        running("val2", "val-validator-2"),
        running("val10", "val-validator-10"),
    ]);
    // the canonical listing is byte-ordered: 1, 10, 2
    let names: Vec<&str> = rs.iter().map(|r| r.name.as_str()).collect();
    assert_eq!(names, vec!["val-validator-1", "val-validator-10", "val-validator-2"]);
    let f = resolve_view("val-overview", rs, &vec![]).expect("view must resolve");
    // the category view re-sorts by the numeric suffix: 1, 2, 10
    let node_names: Vec<&str> = f.nodes.iter().map(|n| n.name.as_str()).collect();
    assert_eq!(node_names, vec!["val-validator-1", "val-validator-2", "val-validator-10"]);
    assert_eq!(f.connections.len(), 3);
    assert_eq!(edge_ids(&f), vec!["val1-to-val2", "val2-to-val10", "val10-to-val1"]);
    assert_eq!(f.id, "val-overview");
    assert_eq!(f.name, "Val Autonomy Services");
    assert_eq!(f.description, "3 services in the Val Autonomy category");
    assert_eq!(f.parent_id.as_deref(), Some("system-overview"));
}

#[test]
fn ring_has_n_edges_for_n_nodes() {
    let one = generate_category_flowchart(
        &ServiceCategory::Game,
        normalize_containers(&vec![running("g1", "game-a")]),
    );
    assert_eq!(one.nodes.len(), 1);
    assert_eq!(one.connections.len(), 0);
    let two = generate_category_flowchart(
        &ServiceCategory::Game,
        normalize_containers(&vec![running("g1", "game-a"), running("g2", "game-b")]),
    );
    assert_eq!(two.nodes.len(), 2);
    // two directed edges, one each direction, not collapsed
    assert_eq!(edge_ids(&two), vec!["g1-to-g2", "g2-to-g1"]);
    let empty = generate_category_flowchart(&ServiceCategory::Game, vec![]);
    assert_eq!(empty.nodes.len(), 0);
    assert_eq!(empty.connections.len(), 0);
}

#[test]
fn ring_degrees_are_one() {
    let f = generate_category_flowchart(
        &ServiceCategory::Game,
        normalize_containers(&vec![
            running("g1", "game-a"),
            running("g2", "game-b"),
            running("g3", "game-c"),
            running("g4", "game-d"),
        ]),
    );
    assert_eq!(f.connections.len(), 4);
    for n in &f.nodes {
        let out = f.connections.iter().filter(|e| e.source == n.id).count();
        let inn = f.connections.iter().filter(|e| e.target == n.id).count();
        assert_eq!(out, 1);
        assert_eq!(inn, 1);
    }
}

#[test]
fn category_service_node_shape() {
    let mut rc = running("s1", "game-alpha");
    rc.ports = vec![flowscope::normalize::RawPort {
        host_port: Some(7000),
        container_port: 7000,
        protocol: None,
    }];
    let f = generate_category_flowchart(&ServiceCategory::Game, normalize_containers(&vec![rc]));
    let n = &f.nodes[0];
    assert_eq!(n.id, "s1");
    assert_eq!(n.name, "game-alpha");
    assert_eq!(n.description, "Image: img:latest");
    assert_eq!(n.node_type, NodeType::Service);
    assert_eq!(n.port, Some(7000));
    assert_eq!(n.child_flowchart.as_deref(), Some("game-alpha"));
}

#[test]
fn empty_recognized_category_still_resolves() {
    let rs = normalize_containers(&vec![running("c1", "frontend-a")]);
    let f = resolve_view("game-overview", rs, &vec![]).expect("view must resolve");
    assert_eq!(f.id, "game-overview");
    assert_eq!(f.nodes.len(), 0);
    assert_eq!(f.connections.len(), 0);
}

#[test]
fn detail_view_links_network_peers() {
    let mut a = running("a1", "frontend-a");
    a.networks = vec![String::from("valnet")];
    let mut b = running("b1", "application-b");
    b.networks = vec![String::from("valnet"), String::from("bridge")];
    let mut c = running("c1", "game-c");
    c.networks = vec![String::from("othernet")];
    let mut d = running("d1", "monitoring-d");
    d.networks = vec![String::from("bridge")];
    let rs = normalize_containers(&vec![a, b, c, d]);
    let f = resolve_view("frontend-a", rs, &vec![]).expect("view must resolve");
    assert_eq!(f.id, "frontend-a");
    assert_eq!(f.name, "frontend-a Detail");
    assert_eq!(f.parent_id.as_deref(), Some("frontend-overview"));
    // seed node first, with no child view; one peer via "valnet"
    assert_eq!(f.nodes.len(), 2);
    assert_eq!(f.nodes[0].id, "a1");
    assert_eq!(f.nodes[0].child_flowchart, None);
    assert_eq!(f.nodes[1].id, "b1");
    assert_eq!(f.nodes[1].child_flowchart.as_deref(), Some("application-b"));
    assert_eq!(edge_ids(&f), vec!["a1-to-b1"]);
    assert_eq!(f.connections[0].connection_type, ConnectionType::Network);
    assert_eq!(f.description, "Container frontend-a and its 1 connected services");
}

#[test]
fn detail_view_ignores_bridge_only_sharing() {
    let mut a = running("a1", "frontend-a");
    a.networks = vec![String::from("bridge")];
    let mut b = running("b1", "application-b");
    b.networks = vec![String::from("bridge")];
    let rs = normalize_containers(&vec![a, b]);
    let f = generate_container_flowchart(&rs, 1);
    assert_eq!(f.nodes.len(), 1);
    assert_eq!(f.connections.len(), 0);
}

#[test]
fn detail_view_resolves_by_id_too() {
    let rs = normalize_containers(&vec![running("abc123", "frontend-a")]);
    let f = resolve_view("abc123", rs, &vec![]).expect("view must resolve");
    assert_eq!(f.id, "frontend-a");
}

#[test]
fn scenario_healthy_status_text_wins_over_state() {
    let rs = normalize_containers(&vec![raw_named("x1", "app-x", "running", "Up 2 hours (healthy)")]);
    assert_eq!(rs[0].status, ContainerStatus::Healthy);
    assert_eq!(rs[0].health.as_deref(), Some("healthy"));
}

#[test]
fn scenario_unknown_view_id_is_not_found() {
    let rs = normalize_containers(&vec![running("c1", "frontend-a")]);
    assert!(resolve_view("does-not-exist", rs, &vec![]).is_none());
}

#[test]
fn unrecognized_overview_tag_falls_through() {
    // a container literally named "bogus-overview" is still reachable
    let rs = normalize_containers(&vec![running("c1", "bogus-overview")]);
    let f = resolve_view("bogus-overview", rs, &vec![]).expect("view must resolve");
    assert_eq!(f.id, "bogus-overview");
    assert_eq!(f.name, "bogus-overview Detail");
}

#[test]
fn system_view_is_idempotent() {
    let raws = vec![
        running("c1", "frontend-dashboard"),
        running("c2", "application-gateway"),
        raw_named("c3", "aiml-memory", "exited", ""),
    ];
    let f1 = resolve_view("system-overview", normalize_containers(&raws), &vec![])
        .expect("view must resolve");
    let f2 = resolve_view("system-overview", normalize_containers(&raws), &vec![])
        .expect("view must resolve");
    assert_eq!(node_ids(&f1), node_ids(&f2));
    assert_eq!(edge_ids(&f1), edge_ids(&f2));
}

#[test]
fn filter_category_keeps_listing_order() {
    let rs = normalize_containers(&vec![
        running("c1", "game-b"),
        running("c2", "game-a"),
        running("c3", "frontend-x"),
    ]);
    let games = filter_category(rs, &ServiceCategory::Game);
    let names: Vec<&str> = games.iter().map(|r| r.name.as_str()).collect();
    assert_eq!(names, vec!["game-a", "game-b"]);
}

#[test]
fn empty_listing_gives_empty_system_view() {
    let f = generate_system_overview(&vec![]);
    assert_eq!(f.nodes.len(), 0);
    assert_eq!(f.connections.len(), 0);
    assert_eq!(f.description, "Complete system topology: 0 containers across 0 categories");
}

#[test]
fn infer_connection_type_heuristics() {
    assert_eq!(infer_connection_type("api-gateway", "x"), Some(ConnectionType::Primary));
    assert_eq!(infer_connection_type("edge-router", "x"), Some(ConnectionType::Primary));
    assert_eq!(infer_connection_type("x", "infrastructure-postgres"), Some(ConnectionType::Data));
    assert_eq!(infer_connection_type("x", "cache-redis"), Some(ConnectionType::Data));
    assert_eq!(infer_connection_type("x", "rabbitmq-main"), Some(ConnectionType::Secondary));
    assert_eq!(infer_connection_type("svc-a", "svc-b"), Some(ConnectionType::Control));
    assert_eq!(infer_connection_type("alpha-a", "beta-b"), None);
    assert_eq!(infer_connection_type("", ""), None);
}
