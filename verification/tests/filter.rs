use ipblock::snapshot::BlockedIPs;

const PAYLOAD: &str = "24.152.57.0/24\n24.232.0.0/16\n45.4.92.0/22";

#[test]
fn blocked_payload_scenario() {
    let mut b = BlockedIPs::new();
    b.update(1000, PAYLOAD);
    assert!(!b.is_allowed("24.152.57.77"));
    assert!(!b.is_allowed("24.232.5.5"));
    assert!(!b.is_allowed("45.4.93.10"));
    assert!(b.is_allowed("23.152.57.50"));
    assert!(b.is_allowed("45.4.96.1"));
    assert!(b.is_allowed("24.152.58.1"));
}

#[test]
fn range_edges() {
    let mut b = BlockedIPs::new();
    b.update(1, "45.4.92.0/22");
    assert!(!b.allowed("45.4.92.0"));
    assert!(!b.allowed("45.4.95.255"));
    assert!(b.allowed("45.4.91.255"));
    assert!(b.allowed("45.4.96.0"));
}

#[test]
fn fail_open_before_first_sync() {
    let b = BlockedIPs::new();
    assert_eq!(b.last_update(), None);
    assert!(b.allowed("24.152.57.77"));
    assert!(b.allowed("not an ip"));
    assert!(b.is_allowed(""));
    assert!(b.is_allowed("45.4.93.10,x"));
}

#[test]
fn fail_open_on_malformed_ip() {
    let mut b = BlockedIPs::new();
    b.update(1, "0.0.0.0/0");
    assert!(!b.allowed("9.9.9.9"));
    assert!(b.allowed("not an ip"));
    assert!(b.allowed(""));
    assert!(b.allowed("999.0.0.1"));
}

#[test]
fn first_comma_token_decides() {
    let mut b = BlockedIPs::new();
    b.update(1000, PAYLOAD);
    assert!(!b.is_allowed("45.4.93.10,1.2.3.4"));
    assert!(b.is_allowed("1.2.3.4,45.4.93.10"));
    assert!(b.is_allowed(" 45.4.93.10,1.2.3.4"));
}

#[test]
fn order_and_duplicates_irrelevant() {
    let mut a = BlockedIPs::new();
    let mut b = BlockedIPs::new();
    a.update(1, "24.152.57.0/24\n24.232.0.0/16\n45.4.92.0/22");
    b.update(1, "45.4.92.0/22\n24.232.0.0/16\n24.152.57.0/24\n24.232.0.0/16\n45.4.92.0/22");
    let probes = [
        "24.152.57.77",
        "24.232.5.5",
        "45.4.93.10",
        "23.152.57.50",
        "45.4.96.1",
        "24.152.58.1",
        "0.0.0.0",
        "255.255.255.255",
    ];
    for p in probes {
        assert_eq!(a.allowed(p), b.allowed(p));
    }
}

#[test]
fn malformed_lines_are_dropped() {
    let mut b = BlockedIPs::new();
    b.update(1, "nonsense\n24.152.57.0/24\n\n300.0.0.0/8\n10.0.0.0/33");
    assert!(!b.allowed("24.152.57.9"));
    assert!(b.allowed("10.1.2.3"));
    assert!(b.allowed("44.0.0.1"));
}

#[test]
fn rebuilt_wholesale_on_update() {
    let mut b = BlockedIPs::new();
    b.update(1, "10.0.0.0/8");
    assert!(!b.allowed("10.1.2.3"));
    b.update(2, "192.168.0.0/16");
    assert!(b.allowed("10.1.2.3"));
    assert!(!b.allowed("192.168.44.5"));
    assert_eq!(b.last_update(), Some(2));
}
