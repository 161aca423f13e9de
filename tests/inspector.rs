use ntomb::config::GraveyardMode;
use ntomb::inspector::{
    build_connection_view, build_host_view, build_process_view, build_soul_inspector_view,
    connection_state_display, Tone,
};
use ntomb::net::{Connection, ConnectionState};

fn conn(local_port: u16, remote: &str, remote_port: u16, state: ConnectionState, pid: Option<i32>, name: Option<&str>) -> Connection {
    Connection {
        local_addr: "127.0.0.1".to_string(),
        local_port,
        remote_addr: remote.to_string(),
        remote_port,
        state,
        inode: None,
        pid,
        process_name: name.map(|n| n.to_string()),
    }
}

fn sample() -> Vec<Connection> {
    vec![
        conn(8080, "0.0.0.0", 0, ConnectionState::Listen, Some(10), Some("web")),
        conn(40000, "192.168.1.1", 443, ConnectionState::Established, Some(10), Some("web")),
        conn(40001, "192.168.1.1", 443, ConnectionState::TimeWait, Some(11), None),
        conn(40002, "8.8.8.8", 53, ConnectionState::Established, None, None),
    ]
}

#[test]
fn host_view_counts_and_lists() {
    let v = build_host_view(&sample(), 500);
    assert_eq!(v.target_name, "HOST");
    assert_eq!(v.conn_count, 4);
    assert_eq!(v.state_text, "2 active, 1 listening");
    assert_eq!(v.tone, Tone::Healthy);
    assert_eq!(v.tags, vec!["server (1)".to_string(), "client (2)".to_string()]);
    assert_eq!(v.sockets.len(), 4);
    assert_eq!(v.sockets[1].display, "tcp://127.0.0.1:40000");

    let empty = build_host_view(&Vec::new(), 500);
    assert_eq!(empty.state_text, "No connections");
    assert_eq!(empty.tone, Tone::Neutral);
    assert!(empty.tags.is_empty());

    let others = vec![conn(1, "1.1.1.1", 2, ConnectionState::SynSent, None, None)];
    assert_eq!(build_host_view(&others, 500).state_text, "1 other states");
}

#[test]
fn connection_view_describes_one_socket() {
    let all = sample();
    let v = build_connection_view(&all[1], &all, 250);
    assert_eq!(v.target_name, "192.168.1.1:443");
    assert_eq!(v.conn_count, 2);
    assert_eq!(v.state_text, "ESTABLISHED (Alive)");
    assert_eq!(v.pid, Some(10));
    assert_eq!(v.tags, vec!["web".to_string()]);
    assert_eq!(v.refresh_ms, 250);

    let l = build_connection_view(&all[0], &all, 250);
    assert_eq!(l.target_name, "127.0.0.1:8080");
    assert_eq!(l.conn_count, 1);

    let long = conn(50000, "2001:db8:85a3::8a2e:370:7334", 50001, ConnectionState::Established, None, None);
    let v = build_connection_view(&long, &vec![], 500);
    assert_eq!(v.target_name, "2001:db8:85a3::8a...");
    assert!(v.suspicious);
    assert_eq!(v.tags, vec!["high-port".to_string(), "non-standard".to_string()]);
}

#[test]
fn process_view_summarises_its_connections() {
    let v = build_process_view(10, &sample(), 500);
    assert_eq!(v.target_name, "web");
    assert_eq!(v.conn_count, 2);
    assert_eq!(v.state_text, "1 established");
    assert_eq!(v.tags, vec!["web".to_string(), "server".to_string(), "client".to_string()]);

    let unnamed = build_process_view(11, &sample(), 500);
    assert_eq!(unnamed.target_name, "PID 11");
    assert_eq!(unnamed.state_text, "1 problematic");

    let none = build_process_view(-4, &sample(), 500);
    assert_eq!(none.target_name, "PID -4");
    assert_eq!(none.state_text, "No connections");
}

#[test]
fn focus_picks_the_view() {
    let all = sample();
    assert_eq!(build_soul_inspector_view(GraveyardMode::Host, None, None, &all, 500).target_name, "HOST");
    assert_eq!(
        build_soul_inspector_view(GraveyardMode::Host, Some(3), None, &all, 500).target_name,
        "8.8.8.8:53"
    );
    let stale = build_soul_inspector_view(GraveyardMode::Host, Some(9), None, &all, 500);
    assert_eq!(stale.target_name, "No target selected");
    assert!(!stale.has_selection);
    let unset = build_soul_inspector_view(GraveyardMode::Process, None, None, &all, 500);
    assert_eq!(unset.target_name, "No process selected");
    assert_eq!(build_soul_inspector_view(GraveyardMode::Process, None, Some(10), &all, 500).conn_count, 2);
}

#[test]
fn state_display_table() {
    assert_eq!(connection_state_display(ConnectionState::Close), ("🔴", "CLOSED (Dead)", Tone::Danger));
    assert_eq!(connection_state_display(ConnectionState::Unknown), ("⚪", "UNKNOWN", Tone::Neutral));
}
