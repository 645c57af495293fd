use kguardian::ipv4::{host_order, ignore_ip_key, ipv4_to_string, network_order, parse_ipv4};
use kguardian::proto::{get_drop_reason, proto_from_string, proto_to_string};
use kguardian::text::decimal_string;

#[test]
fn network_order_address_reads_as_dotted_text() {
    let host = host_order(0x0100000A);
    assert_eq!(host, 0x0A000001);
    assert_eq!(ipv4_to_string(host), "10.0.0.1");
    assert_eq!(ipv4_to_string(host_order(0x0200000A)), "10.0.0.2");
}

#[test]
fn dotted_text_of_edges() {
    assert_eq!(ipv4_to_string(0), "0.0.0.0");
    assert_eq!(ipv4_to_string(u32::MAX), "255.255.255.255");
    assert_eq!(ipv4_to_string(0xC0A80164), "192.168.1.100");
}

#[test]
fn parse_accepts_canonical_text() {
    assert_eq!(parse_ipv4("10.0.0.1"), Some(0x0A000001));
    assert_eq!(parse_ipv4("0.0.0.0"), Some(0));
    assert_eq!(parse_ipv4("255.255.255.255"), Some(u32::MAX));
    assert_eq!(parse_ipv4("192.168.1.100"), Some(0xC0A80164));
}

#[test]
fn parse_rejects_other_text() {
    for s in [
        "", "1.2.3", "1.2.3.4.5", "256.0.0.1", "01.2.3.4", "1.2.3.04", " 1.2.3.4", "1.2.3.4 ",
        "1..3.4", "a.b.c.d", "1.2.3.", "-1.2.3.4", "1000.2.3.4", "1.2.3.4.",
    ] {
        assert_eq!(parse_ipv4(s), None, "{s}");
    }
}

#[test]
fn ipv4_round_trip_over_many_values() {
    let mut net: u32 = 7;
    for _ in 0..200_000 {
        let host = host_order(net);
        let text = ipv4_to_string(host);
        let back = parse_ipv4(&text).expect("dotted text parses");
        assert_eq!(back, host);
        assert_eq!(network_order(back), net);
        net = net.wrapping_mul(2_654_435_761).wrapping_add(12_345);
    }
    for net in [0u32, 1, 0xFF, 0xFF00, 0xFF_0000, 0xFF00_0000, u32::MAX] {
        let host = host_order(net);
        assert_eq!(network_order(parse_ipv4(&ipv4_to_string(host)).unwrap()), net);
    }
}

#[test]
fn ignore_key_is_network_order() {
    assert_eq!(ignore_ip_key("10.0.0.1"), Some(0x0100000A));
    assert_eq!(ignore_ip_key("10.0.0.300"), None);
}

#[test]
fn protocol_names() {
    assert_eq!(proto_to_string(6), "TCP");
    assert_eq!(proto_to_string(17), "UDP");
    assert_eq!(proto_to_string(1), "ICMP");
    assert_eq!(proto_to_string(58), "ICMPv6");
    assert_eq!(proto_to_string(2), "UNKNOWN(2)");
    assert_eq!(proto_to_string(255), "UNKNOWN(255)");
    assert_eq!(proto_to_string(0), "UNKNOWN(0)");
}

#[test]
fn protocol_round_trip() {
    for p in [1u8, 6, 17, 58] {
        assert_eq!(proto_from_string(&proto_to_string(p)), Some(p));
    }
    for p in 0u8..=255 {
        if ![1u8, 6, 17, 58].contains(&p) {
            assert_eq!(proto_from_string(&proto_to_string(p)), None);
        }
    }
}

#[test]
fn drop_reason_with_syn_retries() {
    assert_eq!(get_drop_reason(6, 3), "Network Policy (Connection Timeout - 3 SYN retries)");
    assert_eq!(get_drop_reason(17, 1), "Network Policy (Connection Timeout - 1 SYN retries)");
}

#[test]
fn drop_reason_per_protocol() {
    assert_eq!(get_drop_reason(6, 0), "Network Policy (TCP Drop)");
    assert_eq!(get_drop_reason(17, 0), "Network Policy (UDP Drop)");
    assert_eq!(get_drop_reason(1, 0), "Network Policy (ICMP Drop)");
    assert_eq!(get_drop_reason(58, 0), "Network Policy");
    assert_eq!(get_drop_reason(99, 0), "Network Policy");
}

#[test]
fn decimal_text() {
    assert_eq!(decimal_string(0), "0");
    assert_eq!(decimal_string(9), "9");
    assert_eq!(decimal_string(10), "10");
    assert_eq!(decimal_string(65535), "65535");
    assert_eq!(decimal_string(u64::MAX), "18446744073709551615");
}
