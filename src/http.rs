//! HTTP messages seen by the HTTP probe: the start of the message gives the
//! method and path, the probe record gives the flow, and each flow is
//! reported once.
use vstd::prelude::*;
use crate::dedup::{DedupCache, DedupKey, Keyed};
use crate::events::{HttpEventData, MAX_HTTP_DATA_LEN};
use crate::flows::{remote_ip_text, text_of, text_or_empty};
use crate::ipv4::{host_order, ipv4_to_string};
use crate::model::{opt_text, PodInspect};
use crate::proto::same_text;
use crate::broker::opt_text_eq;
use crate::text::{decimal, decimal_string};

verus! {

/// One HTTP message of a pod, as the broker's L7 table stores it.
#[derive(Clone, Debug)]
pub struct PodHttpTraffic {
    pub uuid: String,
    pub pod_name: String,
    pub pod_namespace: Option<String>,
    pub pod_ip: String,
    pub pod_port: Option<String>,
    pub traffic_in_out_ip: Option<String>,
    pub traffic_in_out_port: Option<String>,
    pub traffic_type: Option<String>,
    pub ip_protocol: Option<String>,
    pub http_path: Option<String>,
    pub http_method: Option<String>,
    pub time_stamp: i64,
}

/// The text that `String::from_utf8_lossy` makes of some bytes.
pub uninterp spec fn lossy_text(b: Seq<u8>) -> Seq<char>;

/// Relies on String::from_utf8_lossy: valid UTF-8, ASCII included, is
/// decoded as it is, and each invalid sequence becomes U+FFFD.
#[verifier::external_body]
fn utf8_lossy(b: &[u8]) -> (r: String)
    ensures
        r@ == lossy_text(b@),
        (forall|i: int| 0 <= i < b@.len() ==> b@[i] < 128) ==> r@ == b@.map_values(
            |x: u8| x as char,
        ),
{
    String::from_utf8_lossy(b).into_owned()
}

/// A port with its two bytes swapped: from network to host order.
pub open spec fn swap16(p: u16) -> u16 {
    (((p & 0xff) << 8) | (p >> 8)) as u16
}

/// The byte length of the whitespace character that starts at `i` in
/// UTF-8 text `s`, or 0 where none does. These are the characters that
/// `char::is_whitespace` accepts: tab to carriage return, space, U+0085,
/// U+00A0, U+1680, U+2000 to U+200A, U+2028, U+2029, U+202F, U+205F and
/// U+3000. Each begins with a byte that no longer sequence continues, so
/// finding them among the bytes finds them among the decoded characters.
pub open spec fn ws_len(s: Seq<u8>, i: int) -> nat {
    if i < 0 || i >= s.len() {
        0
    } else if s[i] == 32 || (9 <= s[i] && s[i] <= 13) {
        1
    } else if i + 1 < s.len() && s[i] == 0xC2 && (s[i + 1] == 0x85 || s[i + 1] == 0xA0) {
        2
    } else if i + 2 < s.len() && ((s[i] == 0xE1 && s[i + 1] == 0x9A && s[i + 2] == 0x80) || (s[i]
        == 0xE2 && s[i + 1] == 0x80 && ((0x80 <= s[i + 2] && s[i + 2] <= 0x8A) || s[i + 2] == 0xA8
        || s[i + 2] == 0xA9 || s[i + 2] == 0xAF)) || (s[i] == 0xE2 && s[i + 1] == 0x81 && s[i + 2]
        == 0x9F) || (s[i] == 0xE3 && s[i + 1] == 0x80 && s[i + 2] == 0x80)) {
        3
    } else {
        0
    }
}

/// Where the first line of `s` ends: at the first CR LF, or at the end.
pub open spec fn line_end(s: Seq<u8>, i: int) -> int
    decreases s.len() - i,
{
    if i + 1 >= s.len() {
        s.len() as int
    } else if s[i] == 13 && s[i + 1] == 10 {
        i
    } else {
        line_end(s, i + 1)
    }
}

/// The first position from `i` on that is not whitespace, or the end.
pub open spec fn skip_ws(s: Seq<u8>, i: int) -> int
    decreases s.len() - i,
{
    if i >= s.len() {
        s.len() as int
    } else if ws_len(s, i) > 0 {
        skip_ws(s, i + ws_len(s, i))
    } else {
        i
    }
}

/// The first position from `i` on that is whitespace, or the end.
pub open spec fn word_end(s: Seq<u8>, i: int) -> int
    decreases s.len() - i,
{
    if i >= s.len() {
        s.len() as int
    } else if ws_len(s, i) > 0 {
        i
    } else {
        word_end(s, i + 1)
    }
}

/// The bytes of the message that the probe copied.
pub open spec fn payload(evt: HttpEventData) -> Seq<u8> {
    evt.data@.subrange(
        0,
        if evt.data_len < 256 {
            evt.data_len as int
        } else {
            256
        },
    )
}

/// The start line of the message.
pub open spec fn start_line(evt: HttpEventData) -> Seq<u8> {
    payload(evt).subrange(0, line_end(payload(evt), 0))
}

/// The word of line `l` that starts at or after `from`, and where it ends.
pub open spec fn word_at(l: Seq<u8>, from: int) -> Option<(Seq<u8>, int)> {
    let i = skip_ws(l, from);
    if i < l.len() {
        Some((l.subrange(i, word_end(l, i)), word_end(l, i)))
    } else {
        None
    }
}

/// The HTTP method: the first word of the start line.
pub open spec fn http_method(evt: HttpEventData) -> Option<Seq<char>> {
    match word_at(start_line(evt), 0) {
        Some((w, _)) => Some(lossy_text(w)),
        None => None,
    }
}

/// The HTTP path: the second word of the start line.
pub open spec fn http_path(evt: HttpEventData) -> Option<Seq<char>> {
    match word_at(start_line(evt), 0) {
        Some((_, e)) => match word_at(start_line(evt), e) {
            Some((w, _)) => Some(lossy_text(w)),
            None => None,
        },
        None => None,
    }
}

/// A request is ingress, from the client at the source address; a response
/// is egress, to the client at the destination address and port.
pub open spec fn is_request(evt: HttpEventData) -> bool {
    evt.is_request == 1
}

pub open spec fn http_remote_ip(evt: HttpEventData) -> Seq<char> {
    if is_request(evt) {
        remote_ip_text(evt.saddr)
    } else {
        remote_ip_text(evt.daddr)
    }
}

/// The record of HTTP message `evt` carries `pod`, the flow and the method
/// and path.
pub open spec fn is_http_record(t: PodHttpTraffic, evt: HttpEventData, pod: crate::model::PodInfo) -> bool {
    &&& t.pod_name@ == pod.pod_name@
    &&& opt_text(t.pod_namespace) == opt_text(pod.pod_namespace)
    &&& t.pod_ip@ == pod.pod_ip@
    &&& opt_text(t.pod_port) == Some(
        if is_request(evt) {
            decimal(evt.dport as nat)
        } else {
            decimal(swap16(evt.dport) as nat)
        },
    )
    &&& opt_text(t.traffic_in_out_ip) == Some(http_remote_ip(evt))
    &&& opt_text(t.traffic_in_out_port) == Some(
        if is_request(evt) {
            decimal(0)
        } else {
            decimal(swap16(evt.dport) as nat)
        },
    )
    &&& opt_text(t.traffic_type) == Some(
        if is_request(evt) {
            "INGRESS"@
        } else {
            "EGRESS"@
        },
    )
    &&& opt_text(t.ip_protocol) == Some("TCP"@)
    &&& opt_text(t.http_method) == http_method(evt)
    &&& opt_text(t.http_path) == http_path(evt)
}

impl Keyed for PodHttpTraffic {
    /// Pod IP, pod port, remote IP, direction and protocol.
    open spec fn key_view(&self) -> Seq<Seq<char>> {
        seq![
            self.pod_ip@,
            text_or_empty(self.pod_port),
            text_or_empty(self.traffic_in_out_ip),
            text_or_empty(self.traffic_type),
            text_or_empty(self.ip_protocol),
        ]
    }

    open spec fn is_self_flow(&self) -> bool {
        opt_text(self.traffic_in_out_ip) == Some(self.pod_ip@)
    }

    /// Same pod IP, pod port, remote IP, direction and protocol.
    open spec fn dup_of(&self, other: &Self) -> bool {
        &&& self.pod_ip@ == other.pod_ip@
        &&& opt_text(self.pod_port) == opt_text(other.pod_port)
        &&& opt_text(self.traffic_in_out_ip) == opt_text(other.traffic_in_out_ip)
        &&& opt_text(self.traffic_type) == opt_text(other.traffic_type)
        &&& opt_text(self.ip_protocol) == opt_text(other.ip_protocol)
    }

    fn is_dup_of(&self, other: &Self) -> (r: bool) {
        same_text(self.pod_ip.as_str(), other.pod_ip.as_str()) && opt_text_eq(
            &self.pod_port,
            &other.pod_port,
        ) && opt_text_eq(&self.traffic_in_out_ip, &other.traffic_in_out_ip) && opt_text_eq(
            &self.traffic_type,
            &other.traffic_type,
        ) && opt_text_eq(&self.ip_protocol, &other.ip_protocol)
    }

    fn dedup_key(&self) -> (k: DedupKey) {
        let k = DedupKey {
            fields: vec![
                self.pod_ip.clone(),
                text_of(&self.pod_port),
                text_of(&self.traffic_in_out_ip),
                text_of(&self.traffic_type),
                text_of(&self.ip_protocol),
            ],
        };
        assert(k@ =~= self.key_view());
        k
    }
}

/// Converts a port from network to host order.
pub fn port_host_order(p: u16) -> (r: u16)
    ensures
        r == swap16(p),
{
    (((p & 0xff) << 8) | (p >> 8)) as u16
}

/// The bytes of the message that the probe copied.
pub fn payload_bytes(evt: &HttpEventData) -> (r: Vec<u8>)
    ensures
        r@ == payload(*evt),
{
    let n: usize = if (evt.data_len as u64) < (MAX_HTTP_DATA_LEN as u64) {
        evt.data_len as usize
    } else {
        MAX_HTTP_DATA_LEN
    };
    let mut out: Vec<u8> = Vec::new();
    let mut i: usize = 0;
    while i < n
        invariant
            0 <= i <= n,
            n <= 256,
            n == (if evt.data_len < 256 { evt.data_len as int } else { 256 }),
            out@ == evt.data@.subrange(0, i as int),
        decreases n - i,
    {
        out.push(evt.data[i]);
        assert(out@ =~= evt.data@.subrange(0, i + 1));
        i = i + 1;
    }
    out
}

fn find_line_end(s: &Vec<u8>) -> (r: usize)
    ensures
        r == line_end(s@, 0),
{
    let mut i: usize = 0;
    while s.len() > 0 && i < s.len() - 1
        invariant
            0 <= i <= s@.len(),
            line_end(s@, i as int) == line_end(s@, 0),
        decreases s@.len() - i,
    {
        if s[i] == 13 && s[i + 1] == 10 {
            return i;
        }
        i = i + 1;
    }
    s.len()
}

fn ws_len_at(s: &Vec<u8>, i: usize) -> (r: usize)
    requires
        i < s@.len(),
    ensures
        r == ws_len(s@, i as int),
        r <= 3,
{
    let n = s.len();
    let b = s[i];
    if b == 32 || (9 <= b && b <= 13) {
        1
    } else if n - i > 1 && b == 0xC2 && (s[i + 1] == 0x85 || s[i + 1] == 0xA0) {
        2
    } else if n - i > 2 && ((b == 0xE1 && s[i + 1] == 0x9A && s[i + 2] == 0x80) || (b == 0xE2
        && s[i + 1] == 0x80 && ((0x80 <= s[i + 2] && s[i + 2] <= 0x8A) || s[i + 2] == 0xA8 || s[i
        + 2] == 0xA9 || s[i + 2] == 0xAF)) || (b == 0xE2 && s[i + 1] == 0x81 && s[i + 2] == 0x9F)
        || (b == 0xE3 && s[i + 1] == 0x80 && s[i + 2] == 0x80)) {
        3
    } else {
        0
    }
}

proof fn lemma_skip_ws_bounds(s: Seq<u8>, i: int)
    requires
        0 <= i <= s.len(),
    ensures
        i <= skip_ws(s, i) <= s.len(),
    decreases s.len() - i,
{
    if i < s.len() && ws_len(s, i) > 0 {
        if i + ws_len(s, i) <= s.len() {
            lemma_skip_ws_bounds(s, i + ws_len(s, i));
        }
    }
}

fn find_skip_ws(s: &Vec<u8>, from: usize) -> (r: usize)
    requires
        from <= s@.len(),
    ensures
        r == skip_ws(s@, from as int),
        from <= r <= s@.len(),
{
    let mut i = from;
    while i < s.len()
        invariant
            from <= i <= s@.len(),
            skip_ws(s@, i as int) == skip_ws(s@, from as int),
        decreases s@.len() - i,
    {
        let w = ws_len_at(s, i);
        if w == 0 {
            return i;
        }
        i = i + w;
    }
    i
}

fn find_word_end(s: &Vec<u8>, from: usize) -> (r: usize)
    requires
        from <= s@.len(),
    ensures
        r == word_end(s@, from as int),
        from <= r <= s@.len(),
{
    let mut i = from;
    while i < s.len()
        invariant
            from <= i <= s@.len(),
            word_end(s@, i as int) == word_end(s@, from as int),
        decreases s@.len() - i,
    {
        if ws_len_at(s, i) > 0 {
            return i;
        }
        i = i + 1;
    }
    i
}

fn sub_bytes(s: &Vec<u8>, from: usize, to: usize) -> (r: Vec<u8>)
    requires
        from <= to <= s@.len(),
    ensures
        r@ == s@.subrange(from as int, to as int),
{
    let mut out: Vec<u8> = Vec::new();
    let mut i = from;
    while i < to
        invariant
            from <= i <= to,
            to <= s@.len(),
            out@ == s@.subrange(from as int, i as int),
        decreases to - i,
    {
        out.push(s[i]);
        assert(out@ =~= s@.subrange(from as int, i + 1));
        i = i + 1;
    }
    out
}

/// The method and path of the HTTP message `evt`: the first two words of
/// its start line.
pub fn http_method_and_path(evt: &HttpEventData) -> (r: (Option<String>, Option<String>))
    ensures
        opt_text(r.0) == http_method(*evt),
        opt_text(r.1) == http_path(*evt),
{
    let data = payload_bytes(evt);
    let end = find_line_end(&data);
    proof {
        lemma_line_end_bounds(data@, 0);
    }
    let line = sub_bytes(&data, 0, end);
    assert(line@ == start_line(*evt));
    let i0 = find_skip_ws(&line, 0);
    if i0 >= line.len() {
        return (None, None);
    }
    let e0 = find_word_end(&line, i0);
    let method = utf8_lossy(sub_bytes(&line, i0, e0).as_slice());
    let i1 = find_skip_ws(&line, e0);
    if i1 >= line.len() {
        return (Some(method), None);
    }
    let e1 = find_word_end(&line, i1);
    let path = utf8_lossy(sub_bytes(&line, i1, e1).as_slice());
    (Some(method), Some(path))
}

proof fn lemma_line_end_bounds(s: Seq<u8>, i: int)
    requires
        0 <= i <= s.len(),
    ensures
        i <= line_end(s, i) <= s.len(),
    decreases s.len() - i,
{
    if i + 1 < s.len() && !(s[i] == 13 && s[i + 1] == 10) {
        lemma_line_end_bounds(s, i + 1);
    }
}

/// The record of HTTP message `evt` of `pod_data`, with identity `uuid` and
/// time `time_stamp`; none where the client is the pod itself.
pub fn build_http_event(
    evt: &HttpEventData,
    pod_data: &PodInspect,
    uuid: String,
    time_stamp: i64,
) -> (r: Option<PodHttpTraffic>)
    ensures
        r is Some <==> http_remote_ip(*evt) != pod_data.status.pod_ip@,
        r matches Some(t) ==> is_http_record(t, *evt, pod_data.status) && t.uuid == uuid
            && t.time_stamp == time_stamp,
        r matches Some(t) ==> !t.is_self_flow(),
{
    let request = evt.is_request == 1;
    let remote = if request {
        ipv4_to_string(host_order(evt.saddr))
    } else {
        ipv4_to_string(host_order(evt.daddr))
    };
    if same_text(pod_data.status.pod_ip.as_str(), remote.as_str()) {
        return None;
    }
    let port = port_host_order(evt.dport);
    let (method, path) = http_method_and_path(evt);
    Some(
        PodHttpTraffic {
            uuid,
            pod_name: pod_data.status.pod_name.clone(),
            pod_namespace: match &pod_data.status.pod_namespace {
                Some(s) => Some(s.clone()),
                None => None,
            },
            pod_ip: pod_data.status.pod_ip.clone(),
            pod_port: Some(
                if request {
                    decimal_string(evt.dport as u64)
                } else {
                    decimal_string(port as u64)
                },
            ),
            traffic_in_out_ip: Some(remote),
            traffic_in_out_port: Some(
                if request {
                    decimal_string(0)
                } else {
                    decimal_string(port as u64)
                },
            ),
            traffic_type: Some(
                if request {
                    String::from_str("INGRESS")
                } else {
                    String::from_str("EGRESS")
                },
            ),
            ip_protocol: Some(String::from_str("TCP")),
            http_path: path,
            http_method: method,
            time_stamp,
        },
    )
}

/// The HTTP flows already reported. A flow is remembered once its record
/// was delivered, so a failed delivery is tried again with the next message.
pub struct HttpReporter {
    cache: DedupCache,
}

impl HttpReporter {
    /// Keys of flows reported and still remembered.
    pub closed spec fn reported(&self) -> Set<Seq<Seq<char>>> {
        self.cache.keys()
    }

    /// How many flows the reporter can remember.
    pub closed spec fn capacity(&self) -> nat {
        self.cache.capacity()
    }

    pub fn new() -> (r: Self)
        ensures
            r.reported() == Set::<Seq<Seq<char>>>::empty(),
            r.capacity() == crate::flows::DEDUP_CAPACITY,
    {
        HttpReporter { cache: DedupCache::new(crate::flows::DEDUP_CAPACITY) }
    }

    /// The record to deliver for HTTP message `evt` of `pod`, or of no known
    /// pod: none for an unknown pod, for the pod's own traffic, and for a
    /// flow already reported.
    pub fn on_http_event(
        &self,
        evt: &HttpEventData,
        pod: Option<&PodInspect>,
        uuid: String,
        time_stamp: i64,
    ) -> (r: Option<PodHttpTraffic>)
        ensures
            pod is None ==> r is None,
            r matches Some(t) ==> (pod matches Some(q) && is_http_record(t, *evt, q.status))
                && t.uuid == uuid && t.time_stamp == time_stamp && !self.reported().contains(
                t.key_view(),
            ) && !t.is_self_flow(),
            pod matches Some(q) ==> (r is None <==> (http_remote_ip(*evt) == q.status.pod_ip@ || (
            exists|t: PodHttpTraffic| #[trigger]
                is_http_record(t, *evt, q.status) && self.reported().contains(t.key_view())))),
    {
        match pod {
            None => None,
            Some(q) => match build_http_event(evt, q, uuid, time_stamp) {
                None => None,
                Some(t) => {
                    let key = t.dedup_key();
                    if self.cache.contains(&key) {
                        assert(is_http_record(t, *evt, q.status));
                        None
                    } else {
                        proof {
                            assert forall|u: PodHttpTraffic| #[trigger]
                                is_http_record(u, *evt, q.status) implies !self.reported().contains(
                                u.key_view(),
                            ) by {
                                assert(u.key_view() =~= t.key_view());
                            }
                        }
                        Some(t)
                    }
                },
            },
        }
    }

    /// Remembers that the record of a flow was delivered.
    pub fn remember(&mut self, t: &PodHttpTraffic)
        ensures
            final(self).reported().subset_of(old(self).reported().insert(t.key_view())),
            final(self).capacity() == old(self).capacity(),
            old(self).reported().finite() && old(self).reported().len() < old(self).capacity()
                ==> final(self).reported() == old(self).reported().insert(t.key_view()),
    {
        self.cache.insert(t.dedup_key());
    }
}

} // verus!
