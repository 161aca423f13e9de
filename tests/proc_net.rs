use ntomb::net::{Connection, ConnectionState};
use ntomb::proc_net::{parse_hex_addr, parse_proc_net_tcp, populate_inodes};

#[test]
fn test_parse_hex_addr_ipv4() {
    assert_eq!(parse_hex_addr("0100007F", false), "127.0.0.1");

    assert_eq!(parse_hex_addr("00000000", false), "0.0.0.0");

    assert_eq!(parse_hex_addr("0101A8C0", false), "192.168.1.1");
}

#[test]
fn test_parse_hex_addr_ipv6() {
    assert_eq!(
        parse_hex_addr("00000000000000000000000001000000", true),
        "::1"
    );

    assert_eq!(
        parse_hex_addr("00000000000000000000000000000000", true),
        "::"
    );
}

#[test]
fn hex_addresses_of_other_shapes() {
    assert_eq!(parse_hex_addr("0100007", false), "0.0.0.0");
    assert_eq!(parse_hex_addr("0100007G", false), "0.0.0.0");
    assert_eq!(parse_hex_addr("FFFFFFFF", false), "255.255.255.255");
    assert_eq!(parse_hex_addr("00", true), "::");
    assert_eq!(parse_hex_addr("0000000000000000FFFF00000100007F", true), "::ffff:127.0.0.1");
    assert_eq!(parse_hex_addr("B80D0120000000000000000001000000", true), "2001:db8::1");
    assert_eq!(parse_hex_addr("B80D0120010000000000000001000000", true), "2001:db8:0:1::1");
    assert_eq!(parse_hex_addr("B80D01200000000001000000000000000", true), "::");
    assert_eq!(parse_hex_addr("000080FE00000000FF000002FE00000B", true), "fe80::200:ff:b00:fe");
}

const TABLE: &str = "  sl  local_address rem_address   st tx_queue rx_queue tr tm->when retrnsmt   uid  timeout inode
   0: 0100007F:1F90 00000000:0000 0A 00000000:00000000 00:00000000 00000000  1000        0 12345 1 0000000000000000 100 0 0 10 0
   1: 0101A8C0:C350 08080808:01BB 01 00000000:00000000 00:00000000 00000000  1000        0 67890 1 0000000000000000 20 4 30 10 -1
   2: broken line
   3: 0100007F:1F90 00000000 0A 00000000:00000000 00:00000000 00000000  1000        0 5 1
   4: 0100007F:ZZZZ 00000000:0000 0A 00000000:00000000 00:00000000 00000000  1000        0 777 1
";

#[test]
fn table_rows_are_read_and_malformed_lines_skipped() {
    let rows = parse_proc_net_tcp(TABLE, false);
    assert_eq!(rows.len(), 3);
    assert_eq!(rows[0].local_addr, "127.0.0.1");
    assert_eq!(rows[0].local_port, 8080);
    assert_eq!(rows[0].remote_addr, "0.0.0.0");
    assert_eq!(rows[0].remote_port, 0);
    assert_eq!(rows[0].inode, 12345);
    assert_eq!(rows[1].local_addr, "192.168.1.1");
    assert_eq!(rows[1].local_port, 50000);
    assert_eq!(rows[1].remote_addr, "8.8.8.8");
    assert_eq!(rows[1].remote_port, 443);
    assert_eq!(rows[1].inode, 67890);
    assert_eq!(rows[2].local_port, 0);
    assert_eq!(rows[2].inode, 777);
}

#[test]
fn header_alone_gives_no_rows() {
    assert!(parse_proc_net_tcp("", false).is_empty());
    let header_only = TABLE.lines().next().unwrap();
    assert!(parse_proc_net_tcp(header_only, false).is_empty());
}

#[test]
fn ipv6_table_rows() {
    let table = "header\n 0: 00000000000000000000000001000000:0016 00000000000000000000000000000000:0000 0A 0 0 0 0 0 4242\n";
    let rows = parse_proc_net_tcp(table, true);
    assert_eq!(rows.len(), 1);
    assert_eq!(rows[0].local_addr, "::1");
    assert_eq!(rows[0].local_port, 22);
    assert_eq!(rows[0].remote_addr, "::");
    assert_eq!(rows[0].inode, 4242);
}

#[test]
fn inodes_are_matched_by_endpoints() {
    let rows = parse_proc_net_tcp(TABLE, false);
    let mut conns = vec![
        Connection {
            local_addr: "192.168.1.1".to_string(),
            local_port: 50000,
            remote_addr: "8.8.8.8".to_string(),
            remote_port: 443,
            state: ConnectionState::Established,
            inode: None,
            pid: None,
            process_name: None,
        },
        Connection {
            local_addr: "192.168.1.1".to_string(),
            local_port: 50001,
            remote_addr: "8.8.8.8".to_string(),
            remote_port: 443,
            state: ConnectionState::Established,
            inode: None,
            pid: None,
            process_name: None,
        },
    ];
    populate_inodes(&mut conns, &rows);
    assert_eq!(conns[0].inode, Some(67890));
    assert_eq!(conns[1].inode, None);
}
