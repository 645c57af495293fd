//! Names of IP protocol numbers, and the reason given for a packet that a
//! network policy dropped.
use vstd::prelude::*;
use crate::text::{decimal, push_decimal};

verus! {

pub const PROTO_ICMP: u8 = 1;
pub const PROTO_TCP: u8 = 6;
pub const PROTO_UDP: u8 = 17;
pub const PROTO_ICMPV6: u8 = 58;

/// The name of IP protocol number `p`.
pub open spec fn proto_name(p: u8) -> Seq<char> {
    if p == PROTO_TCP {
        "TCP"@
    } else if p == PROTO_UDP {
        "UDP"@
    } else if p == PROTO_ICMP {
        "ICMP"@
    } else if p == PROTO_ICMPV6 {
        "ICMPv6"@
    } else {
        "UNKNOWN("@ + decimal(p as nat) + ")"@
    }
}

/// The protocol number that a name stands for, for the four named protocols.
pub open spec fn proto_of_name(s: Seq<char>) -> Option<u8> {
    if s == "TCP"@ {
        Some(PROTO_TCP)
    } else if s == "UDP"@ {
        Some(PROTO_UDP)
    } else if s == "ICMP"@ {
        Some(PROTO_ICMP)
    } else if s == "ICMPv6"@ {
        Some(PROTO_ICMPV6)
    } else {
        None
    }
}

/// The reason recorded for a dropped packet of protocol `p` after `syn_retries`
/// unanswered SYNs.
pub open spec fn drop_reason(p: u8, syn_retries: u32) -> Seq<char> {
    if syn_retries > 0 {
        "Network Policy (Connection Timeout - "@ + decimal(syn_retries as nat) + " SYN retries)"@
    } else if p == PROTO_TCP {
        "Network Policy (TCP Drop)"@
    } else if p == PROTO_UDP {
        "Network Policy (UDP Drop)"@
    } else if p == PROTO_ICMP {
        "Network Policy (ICMP Drop)"@
    } else {
        "Network Policy"@
    }
}

/// Whether two texts are equal.
pub fn same_text(a: &str, b: &str) -> (r: bool)
    ensures
        r == (a@ == b@),
{
    let x = String::from_str(a);
    let y = String::from_str(b);
    x == y
}

/// The name of IP protocol number `proto`; numbers without a name are
/// written `UNKNOWN(n)`.
pub fn proto_to_string(proto: u8) -> (r: String)
    ensures
        r@ == proto_name(proto),
{
    if proto == PROTO_TCP {
        String::from_str("TCP")
    } else if proto == PROTO_UDP {
        String::from_str("UDP")
    } else if proto == PROTO_ICMP {
        String::from_str("ICMP")
    } else if proto == PROTO_ICMPV6 {
        String::from_str("ICMPv6")
    } else {
        let mut s = String::from_str("UNKNOWN(");
        push_decimal(&mut s, proto as u64);
        s.append(")");
        s
    }
}

/// The protocol number named by `name`, for the four named protocols.
pub fn proto_from_string(name: &str) -> (r: Option<u8>)
    ensures
        r == proto_of_name(name@),
{
    if same_text(name, "TCP") {
        Some(PROTO_TCP)
    } else if same_text(name, "UDP") {
        Some(PROTO_UDP)
    } else if same_text(name, "ICMP") {
        Some(PROTO_ICMP)
    } else if same_text(name, "ICMPv6") {
        Some(PROTO_ICMPV6)
    } else {
        None
    }
}

/// The reason recorded for a packet that a network policy dropped.
pub fn get_drop_reason(protocol: u8, syn_retries: u32) -> (r: String)
    ensures
        r@ == drop_reason(protocol, syn_retries),
{
    if syn_retries > 0 {
        let mut s = String::from_str("Network Policy (Connection Timeout - ");
        push_decimal(&mut s, syn_retries as u64);
        s.append(" SYN retries)");
        s
    } else if protocol == PROTO_TCP {
        String::from_str("Network Policy (TCP Drop)")
    } else if protocol == PROTO_UDP {
        String::from_str("Network Policy (UDP Drop)")
    } else if protocol == PROTO_ICMP {
        String::from_str("Network Policy (ICMP Drop)")
    } else {
        String::from_str("Network Policy")
    }
}

/// The four named protocols read back from their names; every other number
/// is written `UNKNOWN(n)`, which names no protocol.
pub proof fn lemma_proto_round_trip(p: u8)
    ensures
        p == PROTO_ICMP || p == PROTO_TCP || p == PROTO_UDP || p == PROTO_ICMPV6 ==> proto_of_name(
            proto_name(p),
        ) == Some(p),
        !(p == PROTO_ICMP || p == PROTO_TCP || p == PROTO_UDP || p == PROTO_ICMPV6) ==> {
            &&& proto_name(p) == "UNKNOWN("@ + decimal(p as nat) + ")"@
            &&& proto_of_name(proto_name(p)) is None
        },
{
    reveal_strlit("TCP");
    reveal_strlit("UDP");
    reveal_strlit("ICMP");
    reveal_strlit("ICMPv6");
    reveal_strlit("UNKNOWN(");
    let n = proto_name(p);
    if !(p == PROTO_ICMP || p == PROTO_TCP || p == PROTO_UDP || p == PROTO_ICMPV6) {
        assert(n[0] == 'U');
        assert(n[1] == 'N');
        assert(n != "TCP"@ && n != "ICMP"@ && n != "ICMPv6"@);
        assert(n[2] == 'K');
        assert(n != "UDP"@);
    } else {
        assert("TCP"@[0] != "UDP"@[0]);
        assert("TCP"@.len() != "ICMP"@.len());
        assert("UDP"@ != "ICMP"@);
        assert("ICMP"@ != "ICMPv6"@);
        assert("TCP"@.len() != "ICMPv6"@.len());
        assert("UDP"@.len() != "ICMPv6"@.len());
    }
}

} // verus!
