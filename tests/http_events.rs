use kguardian::events::HttpEventData;
use kguardian::http::{build_http_event, http_method_and_path, port_host_order, HttpReporter};
use kguardian::model::{PodInfo, PodInspect};

fn event(payload: &[u8], is_request: u8) -> HttpEventData {
    let mut data = [0u8; 256];
    let n = payload.len().min(256);
    data[..n].copy_from_slice(&payload[..n]);
    HttpEventData {
        inum: 1,
        saddr: 0x0200000A,
        daddr: 0x0100000A,
        sport: 0x39D4,
        dport: 0x901F,
        is_request,
        _pad: 0,
        data_len: payload.len() as u32,
        data,
    }
}

fn pod() -> PodInspect {
    PodInspect {
        status: PodInfo {
            pod_name: "web".to_string(),
            pod_namespace: Some("default".to_string()),
            pod_ip: "10.0.0.1".to_string(),
        },
        container_id: None,
        pid: None,
        inode_num: Some(1),
    }
}

#[test]
fn method_and_path_of_a_request() {
    let e = event(b"GET /index.html HTTP/1.1\r\nHost: x\r\n\r\n", 1);
    let (m, p) = http_method_and_path(&e);
    assert_eq!(m.as_deref(), Some("GET"));
    assert_eq!(p.as_deref(), Some("/index.html"));
}

#[test]
fn method_and_path_edges() {
    assert_eq!(http_method_and_path(&event(b"", 1)), (None, None));
    assert_eq!(http_method_and_path(&event(b"   \r\nX: y", 1)), (None, None));
    assert_eq!(http_method_and_path(&event(b"POST", 1)), (Some("POST".to_string()), None));
    assert_eq!(
        http_method_and_path(&event(b"  PUT\t/a b\r\n", 1)),
        (Some("PUT".to_string()), Some("/a".to_string()))
    );
    let mut long = b"GET /".to_vec();
    long.extend(std::iter::repeat(b'a').take(400));
    let (_, p) = http_method_and_path(&event(&long, 1));
    assert_eq!(p.unwrap().len(), 252);
}

#[test]
fn ports_are_swapped_to_host_order() {
    assert_eq!(port_host_order(0x901F), 8080);
    assert_eq!(port_host_order(0x3412), 0x1234);
}

#[test]
fn request_record() {
    let e = event(b"GET /a HTTP/1.1\r\n", 1);
    let t = build_http_event(&e, &pod(), "u".to_string(), 9).unwrap();
    assert_eq!(t.traffic_type.as_deref(), Some("INGRESS"));
    assert_eq!(t.traffic_in_out_ip.as_deref(), Some("10.0.0.2"));
    assert_eq!(t.traffic_in_out_port.as_deref(), Some("0"));
    // A request's pod port is the probe's field as it stands.
    assert_eq!(t.pod_port.as_deref(), Some("36895"));
    assert_eq!(t.ip_protocol.as_deref(), Some("TCP"));
    assert_eq!(t.http_method.as_deref(), Some("GET"));
    assert_eq!(t.http_path.as_deref(), Some("/a"));
}

#[test]
fn response_record_and_self_traffic() {
    let mut e = event(b"HTTP/1.1 200 OK\r\n", 0);
    e.daddr = 0x0300000A;
    let t = build_http_event(&e, &pod(), "u".to_string(), 9).unwrap();
    assert_eq!(t.traffic_type.as_deref(), Some("EGRESS"));
    assert_eq!(t.traffic_in_out_ip.as_deref(), Some("10.0.0.3"));
    assert_eq!(t.traffic_in_out_port.as_deref(), Some("8080"));
    e.daddr = 0x0100000A;
    assert!(build_http_event(&e, &pod(), "u".to_string(), 9).is_none());
}

#[test]
fn reporter_reports_each_flow_once_delivered() {
    let mut r = HttpReporter::new();
    let e = event(b"GET /a HTTP/1.1\r\n", 1);
    let q = pod();
    assert!(r.on_http_event(&e, None, "u".to_string(), 0).is_none());
    let t = r.on_http_event(&e, Some(&q), "u".to_string(), 0).unwrap();
    // Not delivered yet: the next message of the flow is offered again.
    assert!(r.on_http_event(&e, Some(&q), "v".to_string(), 0).is_some());
    r.remember(&t);
    assert!(r.on_http_event(&e, Some(&q), "w".to_string(), 0).is_none());
}

#[test]
fn words_split_on_unicode_whitespace() {
    let e = event("GET\u{00A0}/x\u{3000}HTTP/1.1\r\n".as_bytes(), 1);
    let (m, p) = http_method_and_path(&e);
    assert_eq!(m.as_deref(), Some("GET"));
    assert_eq!(p.as_deref(), Some("/x"));
    let e2 = event("\u{2003}PUT\u{205F}/y".as_bytes(), 1);
    assert_eq!(http_method_and_path(&e2), (Some("PUT".to_string()), Some("/y".to_string())));
    let e3 = event(b"GET /\xff\xfe x", 1);
    assert_eq!(http_method_and_path(&e3).1.as_deref(), Some("/\u{FFFD}\u{FFFD}"));
    for text in ["a\u{85}b c", "GET\u{1680}/z", "x\u{2028}y\u{202F}z"] {
        let words: Vec<&str> = text.split_whitespace().collect();
        let (m, p) = http_method_and_path(&event(text.as_bytes(), 1));
        assert_eq!(m.as_deref(), words.first().copied());
        assert_eq!(p.as_deref(), words.get(1).copied());
    }
}

#[test]
fn response_port_is_in_host_order() {
    let mut e = event(b"HTTP/1.1 200 OK\r\n", 0);
    e.daddr = 0x0300000A;
    let t = build_http_event(&e, &pod(), "u".to_string(), 9).unwrap();
    assert_eq!(t.pod_port.as_deref(), Some("8080"));
}
