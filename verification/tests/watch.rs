use dcw::commands::watch::parse_proc_net_tcp;

#[test]
fn parse_tcp_listen_ports() {
    let content = "\
  sl  local_address rem_address   st tx_queue rx_queue tr tm->when retrnsmt   uid  timeout inode
   0: 00000000:0BB8 00000000:0000 0A 00000000:00000000 00:00000000 00000000     0        0 12345 1 0000000000000000 100 0 0 10 0
   1: 00000000:1F90 00000000:0000 0A 00000000:00000000 00:00000000 00000000     0        0 12346 1 0000000000000000 100 0 0 10 0
   2: 0100007F:0035 00000000:0000 0A 00000000:00000000 00:00000000 00000000     0        0 12347 1 0000000000000000 100 0 0 10 0
   3: 0100007F:C350 0100007F:0BB8 01 00000000:00000000 00:00000000 00000000     0        0 12348 1 0000000000000000 100 0 0 10 0";

    let ports = parse_proc_net_tcp(content);
    assert!(ports.contains(&3000));
    assert!(ports.contains(&8080));
    assert!(ports.contains(&53));
    assert!(!ports.contains(&50000));
    assert_eq!(ports.len(), 3);
}

#[test]
fn parse_tcp_empty() {
    let content = "\
  sl  local_address rem_address   st tx_queue rx_queue tr tm->when retrnsmt   uid  timeout inode";
    let ports = parse_proc_net_tcp(content);
    assert!(ports.is_empty());
}

#[test]
fn parse_tcp6_listen_ports() {
    let content = "\
  sl  local_address                         remote_address                        st tx_queue rx_queue tr tm->when retrnsmt   uid  timeout inode
   0: 00000000000000000000000000000000:1F90 00000000000000000000000000000000:0000 0A 00000000:00000000 00:00000000 00000000     0        0 12345 1 0000000000000000 100 0 0 10 0";

    let ports = parse_proc_net_tcp(content);
    assert!(ports.contains(&8080));
    assert_eq!(ports.len(), 1);
}

#[test]
fn parse_tcp_ignores_padding_and_malformed_rows() {
    let content = "header line\n\
\t0:\t0100007F:0BB8   00000000:0000\t0A rest\n\
1: 00000000:1f90 00000000:0000 0A\r\n\
2: 00000000:C350 00000000:0000 01 more\n\
3: 00000000:0050 00000000:0000\n\
4: 00000000:ZZZZ 00000000:0000 0A\n\
5: 00000000:10000 00000000:0000 0A\n\
6: 0051 x 0B 0A\n\
7: [::1]:0052 x 0a\n\
\n\
8: a:b:0053 x 0A";
    let ports = parse_proc_net_tcp(content);
    let mut found: Vec<u16> = ports.into_iter().collect();
    found.sort();
    assert_eq!(found, vec![0x53, 3000, 8080]);
}

#[test]
fn parse_tcp_skips_the_first_line_only() {
    assert!(parse_proc_net_tcp("").is_empty());
    assert!(parse_proc_net_tcp("0: 00000000:0BB8 00000000:0000 0A").is_empty());
    let ports = parse_proc_net_tcp("\n0: 00000000:0BB8 00000000:0000 0A\n");
    assert_eq!(ports.len(), 1);
    assert!(ports.contains(&3000));
}
