use ntomb::net::{Connection, ConnectionState};
use ntomb::procfs::{
    attach_process_info, build_inode_pid_map, parse_socket_link, read_process_name, InodeOwner,
    ProcessFds,
};

fn connection(inode: Option<u64>) -> Connection {
    Connection {
        local_addr: "127.0.0.1".to_string(),
        local_port: 8080,
        remote_addr: "127.0.0.1".to_string(),
        remote_port: 9090,
        state: ConnectionState::Established,
        inode,
        pid: None,
        process_name: None,
    }
}

#[test]
fn test_attach_process_info_empty() {
    let mut conns = vec![];
    let result = attach_process_info(&mut conns, &Vec::new());
    assert!(result.is_ok());
}

#[test]
fn test_attach_process_info_no_inode() {
    let mut conns = vec![Connection {
        local_addr: "127.0.0.1".to_string(),
        local_port: 8080,
        remote_addr: "127.0.0.1".to_string(),
        remote_port: 9090,
        state: ConnectionState::Established,
        inode: None,
        pid: None,
        process_name: None,
    }];

    let result = attach_process_info(&mut conns, &Vec::new());
    assert!(result.is_ok());
    assert!(conns[0].pid.is_none());
}

#[test]
fn test_build_inode_pid_map() {
    let map = build_inode_pid_map(&Vec::new());
    assert!(map.is_empty());
}

#[test]
fn socket_links_name_inodes() {
    assert_eq!(parse_socket_link("socket:[12345]"), Some(12345));
    assert_eq!(parse_socket_link("socket:[0]"), Some(0));
    assert_eq!(parse_socket_link("socket:[]"), None);
    assert_eq!(parse_socket_link("socket:[12a]"), None);
    assert_eq!(parse_socket_link("pipe:[12345]"), None);
    assert_eq!(parse_socket_link("/dev/null"), None);
    assert_eq!(parse_socket_link("socket:[18446744073709551616]"), None);
}

#[test]
fn process_names_are_trimmed_or_unknown() {
    assert_eq!(read_process_name(&Some("sshd\n".to_string())), "sshd");
    assert_eq!(read_process_name(&Some("  a b \t".to_string())), "a b");
    assert_eq!(read_process_name(&None), "unknown");
}

#[test]
fn owner_table_follows_scan_order() {
    let procs = vec![
        ProcessFds {
            dir_name: "self".to_string(),
            comm: Some("x".to_string()),
            fd_targets: vec!["socket:[1]".to_string()],
        },
        ProcessFds {
            dir_name: "42".to_string(),
            comm: Some("nginx\n".to_string()),
            fd_targets: vec![
                "socket:[100]".to_string(),
                "/dev/null".to_string(),
                "socket:[200]".to_string(),
            ],
        },
        ProcessFds {
            dir_name: "7".to_string(),
            comm: None,
            fd_targets: vec!["socket:[200]".to_string()],
        },
    ];
    let table = build_inode_pid_map(&procs);
    let got: Vec<(u64, i32, String)> = table.iter().map(|o| (o.inode, o.pid, o.name.clone())).collect();
    assert_eq!(
        got,
        vec![
            (100, 42, "nginx".to_string()),
            (200, 42, "nginx".to_string()),
            (200, 7, "unknown".to_string()),
        ]
    );
}

#[test]
fn attribution_fills_known_inodes_only() {
    let owners = vec![
        InodeOwner { inode: 100, pid: 42, name: "nginx".to_string() },
        InodeOwner { inode: 200, pid: 42, name: "nginx".to_string() },
        InodeOwner { inode: 200, pid: 7, name: "late".to_string() },
    ];
    let mut conns = vec![connection(Some(100)), connection(Some(200)), connection(Some(300)), connection(None)];
    assert!(attach_process_info(&mut conns, &owners).is_ok());
    assert_eq!(conns[0].pid, Some(42));
    assert_eq!(conns[0].process_name.as_deref(), Some("nginx"));
    assert_eq!(conns[1].pid, Some(7));
    assert_eq!(conns[1].process_name.as_deref(), Some("late"));
    assert_eq!(conns[2].pid, None);
    assert_eq!(conns[2].process_name, None);
    assert_eq!(conns[3].pid, None);
    assert_eq!(conns[3].local_port, 8080);
}

#[test]
fn attribution_without_any_owner_table_succeeds() {
    let mut conns = vec![connection(Some(100))];
    assert!(attach_process_info(&mut conns, &Vec::new()).is_ok());
    assert!(conns[0].pid.is_none());
    assert!(conns[0].process_name.is_none());
}

#[test]
fn connections_without_inodes_keep_no_owner() {
    let owners = vec![InodeOwner { inode: 100, pid: 42, name: "nginx".to_string() }];
    let mut conns = vec![connection(None), connection(None)];
    assert!(attach_process_info(&mut conns, &owners).is_ok());
    assert!(conns.iter().all(|c| c.pid.is_none() && c.process_name.is_none()));
}
