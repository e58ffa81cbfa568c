//! Tests for the classifier, status parser, resource sample
//! calculator, normalizer, and topology aggregator.

use flowscope::models::{
    category_display_name, category_of_tag, category_tag, default_tail, ContainerStatus,
    ServiceCategory,
};
use flowscope::normalize::{
    attach_stats, find_container, normalize_container, normalize_containers, normalize_network,
    sort_records_by_name, RawContainer, RawPort,
};
use flowscope::stats::{
    bytes_to_mb_hundredths, compute_sample, format_hundredths, BlockIoEntry, ContainerStats,
    RawCounters,
};
use flowscope::strutil::{natural_key_exec, parse_u32, u64_to_string};
use flowscope::topology::build_topology;
use flowscope::update::{topology_update_message, WsMessage};

fn raw(name: &str, state: &str, status_text: &str) -> RawContainer {
    RawContainer {
        id: String::from("0123456789abcdef"),
        names: vec![format!("/{}", name)],
        image: String::from("img:latest"),
        state: String::from(state),
        status_text: String::from(status_text),
        ports: vec![],
        networks: vec![],
        labels: vec![],
        created: 1700000000,
    }
}

fn counters() -> RawCounters {
    RawCounters {
        cpu_total_usage: 0,
        system_cpu_usage: 0,
        online_cpus: 4,
        memory_usage_bytes: 0,
        memory_limit_bytes: 0,
        network_rx_bytes: vec![],
        network_tx_bytes: vec![],
        block_entries: vec![],
        pid_count: 0,
    }
}

#[test]
fn classify_recognized_prefixes() {
    assert_eq!(ServiceCategory::from_name("aiml-memory"), ServiceCategory::Aiml);
    assert_eq!(ServiceCategory::from_name("application-gateway"), ServiceCategory::Application);
    assert_eq!(
        ServiceCategory::from_name("infrastructure-postgres"),
        ServiceCategory::Infrastructure
    );
    assert_eq!(ServiceCategory::from_name("frontend-dashboard"), ServiceCategory::Frontend);
    assert_eq!(ServiceCategory::from_name("monitoring-grafana"), ServiceCategory::Monitoring);
    assert_eq!(ServiceCategory::from_name("game-rpg"), ServiceCategory::Game);
    assert_eq!(ServiceCategory::from_name("val-goal-manager"), ServiceCategory::Val);
    assert_eq!(ServiceCategory::from_name("valina-validator-3"), ServiceCategory::Blockchain);
    assert_eq!(ServiceCategory::from_name("side-chain-node"), ServiceCategory::Blockchain);
}

#[test]
fn classify_is_case_insensitive() {
    assert_eq!(ServiceCategory::from_name("FRONTEND-Dashboard"), ServiceCategory::Frontend);
    assert_eq!(ServiceCategory::from_name("AiMl-core"), ServiceCategory::Aiml);
    assert_eq!(ServiceCategory::from_name("MyCHAINsvc"), ServiceCategory::Blockchain);
}

#[test]
fn classify_unrecognized_yields_other() {
    assert_eq!(ServiceCategory::from_name(""), ServiceCategory::Other);
    assert_eq!(ServiceCategory::from_name("random-service"), ServiceCategory::Other);
    assert_eq!(ServiceCategory::from_name("frontend"), ServiceCategory::Other);
    assert_eq!(ServiceCategory::from_name("aimlx-"), ServiceCategory::Other);
}

#[test]
fn classify_is_deterministic() {
    for name in ["aiml-a", "x-chain-y", "nothing", "val-1"] {
        assert_eq!(ServiceCategory::from_name(name), ServiceCategory::from_name(name));
    }
}

#[test]
fn status_from_state_lookup() {
    assert_eq!(ContainerStatus::from_state("running"), ContainerStatus::Running);
    assert_eq!(ContainerStatus::from_state("RUNNING"), ContainerStatus::Running);
    assert_eq!(ContainerStatus::from_state("healthy"), ContainerStatus::Healthy);
    assert_eq!(ContainerStatus::from_state("unhealthy"), ContainerStatus::Unhealthy);
    assert_eq!(ContainerStatus::from_state("exited"), ContainerStatus::Exited);
    assert_eq!(ContainerStatus::from_state("created"), ContainerStatus::Created);
    assert_eq!(ContainerStatus::from_state("paused"), ContainerStatus::Paused);
    assert_eq!(ContainerStatus::from_state("restarting"), ContainerStatus::Restarting);
    assert_eq!(ContainerStatus::from_state("dead"), ContainerStatus::Dead);
    assert_eq!(ContainerStatus::from_state("unknown"), ContainerStatus::Exited);
    assert_eq!(ContainerStatus::from_state(""), ContainerStatus::Exited);
}

#[test]
fn sample_zero_deltas_give_zero_cpu() {
    let mut curr = counters();
    let mut prev = counters();
    // system delta is zero
    curr.cpu_total_usage = 500;
    prev.cpu_total_usage = 100;
    curr.system_cpu_usage = 1000;
    prev.system_cpu_usage = 1000;
    assert_eq!(compute_sample(&curr, &prev).cpu_percent_hundredths, 0);
    // cpu delta is zero
    curr.cpu_total_usage = 100;
    prev.cpu_total_usage = 100;
    curr.system_cpu_usage = 2000;
    prev.system_cpu_usage = 1000;
    assert_eq!(compute_sample(&curr, &prev).cpu_percent_hundredths, 0);
    // both deltas negative
    curr.cpu_total_usage = 50;
    curr.system_cpu_usage = 500;
    assert_eq!(compute_sample(&curr, &prev).cpu_percent_hundredths, 0);
}

#[test]
fn sample_zero_limit_gives_zero_memory_percent() {
    let mut curr = counters();
    curr.memory_usage_bytes = 123456;
    curr.memory_limit_bytes = 0;
    let s = compute_sample(&curr, &counters());
    assert_eq!(s.memory_percent_hundredths, 0);
}

#[test]
fn sample_cpu_percent_exact() {
    let mut curr = counters();
    let mut prev = counters();
    prev.cpu_total_usage = 1000;
    curr.cpu_total_usage = 2000;
    prev.system_cpu_usage = 10000;
    curr.system_cpu_usage = 18000;
    curr.online_cpus = 4;
    // (1000 / 8000) * 4 * 100 = 50% -> 5000 hundredths
    assert_eq!(compute_sample(&curr, &prev).cpu_percent_hundredths, 5000);
}

#[test]
fn sample_memory_percent_exact() {
    let mut curr = counters();
    curr.memory_usage_bytes = 1048576; // 1 MB
    curr.memory_limit_bytes = 4194304; // 4 MB
    let s = compute_sample(&curr, &counters());
    assert_eq!(s.memory_percent_hundredths, 2500); // 25.00%
    assert_eq!(s.memory_usage_mb_hundredths, 100); // 1.00 MB
    assert_eq!(s.memory_limit_mb_hundredths, 400); // 4.00 MB
}

#[test]
fn sample_network_sums_all_interfaces() {
    let mut curr = counters();
    curr.network_rx_bytes = vec![1048576, 2097152]; // 3 MB
    curr.network_tx_bytes = vec![524288]; // 0.5 MB
    let s = compute_sample(&curr, &counters());
    assert_eq!(s.network_rx_mb_hundredths, 300);
    assert_eq!(s.network_tx_mb_hundredths, 50);
}

#[test]
fn sample_block_io_tags_case_insensitive() {
    let mut curr = counters();
    curr.block_entries = vec![
        BlockIoEntry { op: String::from("Read"), bytes: 1048576 },
        BlockIoEntry { op: String::from("WRITE"), bytes: 2097152 },
        BlockIoEntry { op: String::from("read"), bytes: 1048576 },
        BlockIoEntry { op: String::from("Total"), bytes: 999999999 },
    ];
    let s = compute_sample(&curr, &counters());
    assert_eq!(s.block_read_mb_hundredths, 200);
    assert_eq!(s.block_write_mb_hundredths, 200);
}

#[test]
fn sample_copies_pid_count() {
    let mut curr = counters();
    curr.pid_count = 17;
    assert_eq!(compute_sample(&curr, &counters()).pids, 17);
}

#[test]
fn rounding_memory_serializes_to_two_decimals() {
    // 129453826 bytes = 123.4567889... MB, rounds to 123.46
    let h = bytes_to_mb_hundredths(129453826);
    assert_eq!(h, 12346);
    assert_eq!(format_hundredths(h), "123.46");
}

#[test]
fn rounding_is_half_away_from_zero() {
    // 3276800 bytes = 3.125 MB exactly; the third decimal is 5
    assert_eq!(bytes_to_mb_hundredths(3276800), 313);
    assert_eq!(format_hundredths(313), "3.13");
}

#[test]
fn format_hundredths_pads_fraction() {
    assert_eq!(format_hundredths(0), "0.00");
    assert_eq!(format_hundredths(5), "0.05");
    assert_eq!(format_hundredths(1200), "12.00");
}

#[test]
fn decimal_helpers_roundtrip() {
    assert_eq!(u64_to_string(0), "0");
    assert_eq!(u64_to_string(907), "907");
    assert_eq!(parse_u32("907"), Some(907));
    assert_eq!(parse_u32(""), None);
    assert_eq!(parse_u32("12a"), None);
    assert_eq!(parse_u32("99999999999"), None);
}

#[test]
fn natural_key_extracts_trailing_number() {
    assert_eq!(natural_key_exec("validator-2"), 2);
    assert_eq!(natural_key_exec("validator-10"), 10);
    assert_eq!(natural_key_exec("abc"), 0);
    assert_eq!(natural_key_exec("abc-"), 0);
    assert_eq!(natural_key_exec("abc-x1"), 0);
    assert_eq!(natural_key_exec("x-99999999999"), 0);
}

#[test]
fn normalize_trims_name_and_truncates_id() {
    let r = normalize_container(&raw("frontend-dashboard", "running", "Up 2 hours"));
    assert_eq!(r.id, "0123456789ab");
    assert_eq!(r.name, "frontend-dashboard");
    assert_eq!(r.status, ContainerStatus::Running);
    assert_eq!(r.health, None);
    assert_eq!(r.category, ServiceCategory::Frontend);
    assert_eq!(r.created, 1700000000);
    assert!(r.stats.is_none());
    assert!(r.image_size_mb_hundredths.is_none());
}

#[test]
fn normalize_falls_back_to_id_when_unnamed() {
    let mut rc = raw("x", "exited", "");
    rc.names = vec![];
    let r = normalize_container(&rc);
    assert_eq!(r.name, "0123456789ab");
}

#[test]
fn normalize_status_text_overrides_state() {
    let r = normalize_container(&raw("app-x", "running", "Up 2 hours (healthy)"));
    assert_eq!(r.status, ContainerStatus::Healthy);
    assert_eq!(r.health.as_deref(), Some("healthy"));
    let r = normalize_container(&raw("app-y", "running", "Up 1 hour (unhealthy)"));
    assert_eq!(r.status, ContainerStatus::Unhealthy);
    assert_eq!(r.health.as_deref(), Some("unhealthy"));
}

#[test]
fn normalize_ports_lowercases_protocol_and_defaults_tcp() {
    let mut rc = raw("svc", "running", "");
    rc.ports = vec![
        RawPort { host_port: Some(8080), container_port: 80, protocol: Some(String::from("TCP")) },
        RawPort { host_port: None, container_port: 53, protocol: None },
    ];
    let r = normalize_container(&rc);
    assert_eq!(r.ports.len(), 2);
    assert_eq!(r.ports[0].host_port, Some(8080));
    assert_eq!(r.ports[0].container_port, 80);
    assert_eq!(r.ports[0].protocol, "tcp");
    assert_eq!(r.ports[1].host_port, None);
    assert_eq!(r.ports[1].protocol, "tcp");
}

#[test]
fn normalize_derives_paired_variant_hint() {
    let r = normalize_container(&raw("api-prod", "running", ""));
    assert_eq!(r.rust_equivalent.as_deref(), Some("api-rust-prod"));
    let r = normalize_container(&raw("api-rust-prod", "running", ""));
    assert_eq!(r.rust_equivalent, None);
    let r = normalize_container(&raw("api", "running", ""));
    assert_eq!(r.rust_equivalent.as_deref(), Some("api"));
}

#[test]
fn normalize_sorts_listing_by_name() {
    let raws = vec![
        raw("monitoring-b", "running", ""),
        raw("aiml-a", "running", ""),
        raw("frontend-c", "running", ""),
    ];
    let rs = normalize_containers(&raws);
    let names: Vec<&str> = rs.iter().map(|r| r.name.as_str()).collect();
    assert_eq!(names, vec!["aiml-a", "frontend-c", "monitoring-b"]);
}

#[test]
fn sort_by_name_is_byte_order() {
    let raws = vec![
        raw("validator-10", "running", ""),
        raw("validator-2", "running", ""),
    ];
    let rs = sort_records_by_name(normalize_containers(&raws));
    // byte order puts "validator-10" before "validator-2"
    assert_eq!(rs[0].name, "validator-10");
    assert_eq!(rs[1].name, "validator-2");
}

#[test]
fn find_container_matches_id_or_name() {
    let rs = normalize_containers(&vec![raw("frontend-a", "running", "")]);
    assert!(find_container(&rs, "frontend-a").is_some());
    assert!(find_container(&rs, "0123456789ab").is_some());
    assert!(find_container(&rs, "does-not-exist").is_none());
}

#[test]
fn attach_stats_merges_positionally() {
    let rs = normalize_containers(&vec![raw("a", "running", ""), raw("b", "running", "")]);
    let sample = ContainerStats {
        cpu_percent_hundredths: 1,
        memory_usage_mb_hundredths: 2,
        memory_limit_mb_hundredths: 3,
        memory_percent_hundredths: 4,
        network_rx_mb_hundredths: 5,
        network_tx_mb_hundredths: 6,
        block_read_mb_hundredths: 7,
        block_write_mb_hundredths: 8,
        pids: 9,
    };
    let merged = attach_stats(rs, &vec![Some(sample), None]);
    assert_eq!(merged[0].stats, Some(sample));
    assert_eq!(merged[1].stats, None);
    assert_eq!(merged[0].name, "a");
    assert_eq!(merged[1].name, "b");
}

#[test]
fn normalize_network_defaults_driver() {
    let n = normalize_network(
        "fedcba9876543210",
        "valnet",
        None,
        vec![String::from("c1"), String::from("c2")],
    );
    assert_eq!(n.id, "fedcba987654");
    assert_eq!(n.name, "valnet");
    assert_eq!(n.driver, "bridge");
    assert_eq!(n.containers, vec![String::from("c1"), String::from("c2")]);
    let n = normalize_network("ab", "x", Some("overlay"), vec![]);
    assert_eq!(n.id, "ab");
    assert_eq!(n.driver, "overlay");
}

#[test]
fn topology_counts_statuses_and_categories() {
    let raws = vec![
        raw("frontend-a", "running", "Up (healthy)"),
        raw("frontend-b", "running", ""),
        raw("aiml-c", "exited", ""),
        raw("other-d", "running", "Up (unhealthy)"),
    ];
    let rs = normalize_containers(&raws);
    let t = build_topology(&rs, 1700000123);
    assert_eq!(t.total_containers, 4);
    assert_eq!(t.running_containers, 2); // healthy + running
    assert_eq!(t.healthy_containers, 1);
    assert_eq!(t.unhealthy_containers, 1);
    assert_eq!(t.generated_at, 1700000123);
    let cats: Vec<(&str, usize)> =
        t.categories.iter().map(|c| (c.category.as_str(), c.count)).collect();
    assert_eq!(cats, vec![("aiml", 1), ("frontend", 2), ("other", 1)]);
}

#[test]
fn topology_summaries_start_with_system_overview() {
    let raws = vec![raw("frontend-a", "running", ""), raw("frontend-b", "running", "")];
    let rs = normalize_containers(&raws);
    let t = build_topology(&rs, 0);
    assert_eq!(t.flowcharts.len(), 2);
    assert_eq!(t.flowcharts[0].id, "system-overview");
    assert_eq!(t.flowcharts[0].name, "VAL System Overview");
    assert_eq!(t.flowcharts[0].node_count, 2);
    assert_eq!(t.flowcharts[0].category, ServiceCategory::Other);
    assert_eq!(t.flowcharts[1].id, "frontend-overview");
    assert_eq!(t.flowcharts[1].name, "Frontend Services");
    assert_eq!(t.flowcharts[1].node_count, 2);
}

#[test]
fn topology_update_message_copies_counts() {
    let rs = normalize_containers(&vec![raw("frontend-a", "running", "")]);
    let t = build_topology(&rs, 7);
    let m = topology_update_message(&t, String::from("2026-01-01T00:00:00Z"));
    match m {
        WsMessage::TopologyUpdate {
            total_containers,
            running_containers,
            healthy_containers,
            unhealthy_containers,
            timestamp,
        } => {
            assert_eq!(total_containers, 1);
            assert_eq!(running_containers, 1);
            assert_eq!(healthy_containers, 0);
            assert_eq!(unhealthy_containers, 0);
            assert_eq!(timestamp, "2026-01-01T00:00:00Z");
        }
        _ => panic!("expected a topology update"),
    }
}

#[test]
fn category_helpers_are_consistent() {
    assert_eq!(category_tag(&ServiceCategory::Aiml), "aiml");
    assert_eq!(category_tag(&ServiceCategory::Val), "val");
    assert_eq!(category_display_name(&ServiceCategory::Aiml), "AI/ML");
    assert_eq!(category_display_name(&ServiceCategory::Val), "Val Autonomy");
    assert_eq!(category_of_tag("aiml"), Some(ServiceCategory::Aiml));
    assert_eq!(category_of_tag("blockchain"), Some(ServiceCategory::Blockchain));
    assert_eq!(category_of_tag("other"), None);
    assert_eq!(category_of_tag("bogus"), None);
}

#[test]
fn empty_listing_aggregates_to_zeros() {
    let rs = normalize_containers(&vec![]);
    assert!(rs.is_empty());
    let t = build_topology(&rs, 0);
    assert_eq!(t.total_containers, 0);
    assert_eq!(t.running_containers, 0);
    assert_eq!(t.healthy_containers, 0);
    assert_eq!(t.unhealthy_containers, 0);
    assert!(t.categories.is_empty());
    assert_eq!(t.flowcharts.len(), 1);
    assert_eq!(t.flowcharts[0].id, "system-overview");
    assert_eq!(t.flowcharts[0].node_count, 0);
}

#[test]
fn duplicate_names_are_all_kept() {
    let raws = vec![
        raw("game-a", "running", ""),
        raw("game-a", "exited", ""),
        raw("game-a", "running", ""),
    ];
    let rs = normalize_containers(&raws);
    assert_eq!(rs.len(), 3);
    for r in &rs {
        assert_eq!(r.name, "game-a");
    }
    let t = build_topology(&rs, 0);
    assert_eq!(t.total_containers, 3);
    assert_eq!(t.running_containers, 2);
}

#[test]
fn default_tail_is_one_hundred() {
    assert_eq!(default_tail(), 100);
}
