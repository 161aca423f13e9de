use ntomb::config::{GraveyardMode, LatencyBucket, LatencyConfig};
use ntomb::endpoint::EndpointType;
use ntomb::net::{Connection, ConnectionState};
use ntomb::topology::{center_label, endpoint_label, process_connections, rank_endpoints, summarize_endpoints};

fn conn(remote: &str, state: ConnectionState, pid: Option<i32>) -> Connection {
    Connection {
        local_addr: "10.0.0.2".to_string(),
        local_port: 40000,
        remote_addr: remote.to_string(),
        remote_port: 443,
        state,
        inode: None,
        pid,
        process_name: pid.map(|p| format!("proc{}", p)),
    }
}

#[test]
fn groups_by_remote_in_first_seen_order() {
    let conns = vec![
        conn("8.8.8.8", ConnectionState::TimeWait, Some(1)),
        conn("0.0.0.0", ConnectionState::Listen, Some(1)),
        conn("192.168.1.5", ConnectionState::Established, Some(2)),
        conn("8.8.8.8", ConnectionState::Established, Some(1)),
        conn("0.0.0.0", ConnectionState::Close, None),
        conn("8.8.8.8", ConnectionState::Established, Some(1)),
        conn("127.0.0.1", ConnectionState::Listen, None),
    ];
    let summary = summarize_endpoints(&conns, &LatencyConfig::default());
    assert_eq!(summary.listen_count, 2);
    assert_eq!(summary.groups.len(), 2);
    let first = &summary.groups[0];
    assert_eq!(first.addr, "8.8.8.8");
    assert_eq!(first.conn_count, 3);
    assert_eq!(first.state, ConnectionState::Established);
    assert_eq!(first.endpoint_type, EndpointType::Public);
    assert_eq!(first.latency_bucket, LatencyBucket::Unknown);
    let second = &summary.groups[1];
    assert_eq!(second.addr, "192.168.1.5");
    assert_eq!(second.conn_count, 1);
    assert_eq!(second.endpoint_type, EndpointType::Private);
}

#[test]
fn dominant_state_ties_go_to_first_seen() {
    let conns = vec![
        conn("1.2.3.4", ConnectionState::CloseWait, None),
        conn("1.2.3.4", ConnectionState::Established, None),
        conn("1.2.3.4", ConnectionState::Established, None),
        conn("1.2.3.4", ConnectionState::CloseWait, None),
    ];
    let summary = summarize_endpoints(&conns, &LatencyConfig::default());
    assert_eq!(summary.groups[0].state, ConnectionState::CloseWait);
}

#[test]
fn empty_snapshot_has_no_groups() {
    let summary = summarize_endpoints(&Vec::new(), &LatencyConfig::default());
    assert!(summary.groups.is_empty());
    assert_eq!(summary.listen_count, 0);
}

#[test]
fn ranking_orders_by_count_then_first_seen() {
    assert_eq!(rank_endpoints(&vec![3, 7, 3, 9, 1], 8), vec![3, 1, 0, 2, 4]);
    assert_eq!(rank_endpoints(&vec![3, 7, 3, 9, 1], 2), vec![3, 1]);
    assert_eq!(rank_endpoints(&vec![], 8), Vec::<usize>::new());
    assert_eq!(rank_endpoints(&vec![5, 5, 5], 0), Vec::<usize>::new());
}

#[test]
fn long_labels_are_shortened() {
    assert_eq!(endpoint_label("192.168.100.200"), "192.168.100.200");
    assert_eq!(endpoint_label("2001:db8:85a3::8a2e:370:7334"), "2001:db8:85a...");
}

#[test]
fn process_filter_keeps_owned_connections() {
    let conns = vec![
        conn("8.8.8.8", ConnectionState::Established, Some(1)),
        conn("8.8.4.4", ConnectionState::Established, Some(2)),
        conn("1.1.1.1", ConnectionState::Established, None),
        conn("9.9.9.9", ConnectionState::Established, Some(1)),
    ];
    let owned = process_connections(&conns, 1);
    let remotes: Vec<&str> = owned.iter().map(|c| c.remote_addr.as_str()).collect();
    assert_eq!(remotes, vec!["8.8.8.8", "9.9.9.9"]);
}

#[test]
fn centre_label_names_the_focused_process() {
    let mut conns = vec![
        conn("8.8.8.8", ConnectionState::Established, Some(2)),
        conn("8.8.4.4", ConnectionState::Established, Some(7)),
    ];
    assert_eq!(center_label(GraveyardMode::Host, Some(7), &conns), "HOST");
    assert_eq!(center_label(GraveyardMode::Process, None, &conns), "HOST");
    assert_eq!(center_label(GraveyardMode::Process, Some(7), &conns), "proc7 (7)");
    assert_eq!(center_label(GraveyardMode::Process, Some(9), &conns), "unknown (9)");
    conns[1].process_name = Some("postgres-main".to_string());
    assert_eq!(center_label(GraveyardMode::Process, Some(7), &conns), "postg... (7)");
    conns[1].process_name = Some("postgres".to_string());
    assert_eq!(center_label(GraveyardMode::Process, Some(7), &conns), "postgres (7)");
}
