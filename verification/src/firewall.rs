//! Shell fragments that open and close the backend's port in the firewall.
//! They run inside the backend's root script, so everything fits in one
//! privilege prompt; `ufw` is used when active, `iptables` otherwise.
use vstd::prelude::*;
use crate::text::{decimal, push_decimal, push_str};

verus! {

/// Transport protocol of the rule.
#[derive(Debug, Clone, Copy, PartialEq, Eq, Structural)]
pub enum Protocol {
    Tcp,
    Udp,
}

/// Name of the protocol in firewall rules.
pub open spec fn proto_text(p: Protocol) -> Seq<char> {
    match p {
        Protocol::Tcp => "tcp"@,
        Protocol::Udp => "udp"@,
    }
}

impl Protocol {
    /// Name of the protocol in firewall rules (`tcp` / `udp`).
    pub fn as_str(&self) -> (r: &'static str)
        ensures
            r@ == proto_text(*self),
    {
        match self {
            Protocol::Tcp => "tcp",
            Protocol::Udp => "udp",
        }
    }
}

/// Produces the firewall fragments; the port and protocol come from the
/// backend.
#[derive(Debug, Default, Clone, Copy)]
pub struct FirewallManager;

pub const UFW_ACTIVE: &'static str = "if ufw status 2>/dev/null | grep -q 'Status: active'; then\n";

pub const NETFILTER_SAVE: &'static str = "  (command -v netfilter-persistent >/dev/null && netfilter-persistent save) || true\nfi";

/// The fragment that opens `port/proto`.
pub open spec fn open_fragment_text(port: u16, proto: Protocol) -> Seq<char> {
    let p = decimal(port as nat);
    let t = proto_text(proto);
    UFW_ACTIVE@ + "  ufw allow "@ + p + "/"@ + t + "\nelse\n  iptables -C INPUT -p "@ + t
        + " --dport "@ + p + " -j ACCEPT 2>/dev/null \\\n    || iptables -I INPUT -p "@ + t
        + " --dport "@ + p + " -j ACCEPT\n"@ + NETFILTER_SAVE@
}

/// The fragment that removes the rule `open_fragment` adds.
pub open spec fn close_fragment_text(port: u16, proto: Protocol) -> Seq<char> {
    let p = decimal(port as nat);
    let t = proto_text(proto);
    UFW_ACTIVE@ + "  ufw delete allow "@ + p + "/"@ + t + " || true\nelse\n  iptables -D INPUT -p "@
        + t + " --dport "@ + p + " -j ACCEPT 2>/dev/null || true\n"@ + NETFILTER_SAVE@
}

impl FirewallManager {
    /// Fragment that opens `port/proto`: `ufw` when active, otherwise
    /// `iptables` (checked with `-C` before `-I`, so idempotent), then a best
    /// effort to persist with netfilter.
    pub fn open_fragment(&self, port: u16, proto: Protocol) -> (r: String)
        ensures
            r@ == open_fragment_text(port, proto),
    {
        let t = proto.as_str();
        let mut s = UFW_ACTIVE.to_owned();
        push_str(&mut s, "  ufw allow ");
        push_decimal(&mut s, port as u64);
        push_str(&mut s, "/");
        push_str(&mut s, t);
        push_str(&mut s, "\nelse\n  iptables -C INPUT -p ");
        push_str(&mut s, t);
        push_str(&mut s, " --dport ");
        push_decimal(&mut s, port as u64);
        push_str(&mut s, " -j ACCEPT 2>/dev/null \\\n    || iptables -I INPUT -p ");
        push_str(&mut s, t);
        push_str(&mut s, " --dport ");
        push_decimal(&mut s, port as u64);
        push_str(&mut s, " -j ACCEPT\n");
        push_str(&mut s, NETFILTER_SAVE);
        s
    }

    /// Fragment that removes the rule opened by `open_fragment`; tolerant of
    /// a missing rule (`|| true`), so a rollback never fails on it.
    pub fn close_fragment(&self, port: u16, proto: Protocol) -> (r: String)
        ensures
            r@ == close_fragment_text(port, proto),
    {
        let t = proto.as_str();
        let mut s = UFW_ACTIVE.to_owned();
        push_str(&mut s, "  ufw delete allow ");
        push_decimal(&mut s, port as u64);
        push_str(&mut s, "/");
        push_str(&mut s, t);
        push_str(&mut s, " || true\nelse\n  iptables -D INPUT -p ");
        push_str(&mut s, t);
        push_str(&mut s, " --dport ");
        push_decimal(&mut s, port as u64);
        push_str(&mut s, " -j ACCEPT 2>/dev/null || true\n");
        push_str(&mut s, NETFILTER_SAVE);
        s
    }
}

} // verus!
