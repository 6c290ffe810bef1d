//! The block engine's pure part: the nftables scripts and the dnsmasq
//! configuration that enforce whole-domain website blocks at the network
//! layer, rendered from the rule set and the resolved addresses. Running
//! `nft` and `dnsmasq` with them is left to the caller.

use vstd::prelude::*;
use crate::text::{decimal, push_decimal, hex, push_hex};

verus! {

pub const FILTER_TABLE: &'static str = "mindgate";
pub const NAT_TABLE: &'static str = "mindgate_dns";

/// The canary domain Firefox queries to decide whether to use DNS over
/// HTTPS; answering it with NXDOMAIN turns DoH off for the session.
pub const FIREFOX_DOH_CANARY: &'static str = "use-application-dns.net";

/// The loopback port our own dnsmasq listens on.
pub const RESOLVER_PORT: u16 = 5353;

/// The real DNS server our resolver forwards unblocked queries to.
pub const UPSTREAM_RESOLVER: &'static str = "1.1.1.1";

/// How long a freshly spawned dnsmasq gets to bind or die before nft rules
/// are committed against it.
pub const RESOLVER_LIVENESS_CHECK_DELAY_MS: u64 = 150;

// Pieces of the filter-table script.
pub const FILTER_OPEN: &'static str = "table inet ";
pub const V4_SET_OPEN: &'static str = " {\n    set blocked_v4 {\n        type ipv4_addr;\n        flags interval;\n";
pub const SET_CLOSE: &'static str = "    }\n";
pub const V6_SET_OPEN: &'static str = "\n    set blocked_v6 {\n        type ipv6_addr;\n        flags interval;\n";
pub const CHAIN_OPEN: &'static str = "\n    chain output {\n        type filter hook output priority 0; policy accept;\n";
pub const DROP_V4: &'static str = "        ip daddr @blocked_v4 counter drop\n";
pub const DROP_V6: &'static str = "        ip6 daddr @blocked_v6 counter drop\n";
pub const DROP_DOT: &'static str = "        tcp dport 853 counter drop\n";
pub const BLOCK_CLOSE: &'static str = "    }\n}\n";
pub const ELEMENTS_OPEN: &'static str = "        elements = { ";
pub const ELEMENTS_SEP: &'static str = ", ";
pub const ELEMENTS_CLOSE: &'static str = " }\n";

// Pieces of the DNS-redirect script.
pub const NAT_OPEN: &'static str = "table ip ";
pub const NAT_CHAIN_OPEN: &'static str = " {\n    chain output {\n        type nat hook output priority -100; policy accept;\n";
pub const ACCEPT_OPEN: &'static str = "        ip daddr ";
pub const ACCEPT_CLOSE: &'static str = " accept\n";
pub const REDIRECT_OPEN: &'static str = "        meta l4proto { tcp, udp } th dport 53 redirect to :";

// Pieces of the resolver configuration.
pub const RESOLVER_HEADER: &'static str = "# Generated by mindgated \u{2014} do not edit by hand.\nno-resolv\nno-hosts\nbind-interfaces\nlisten-address=127.0.0.1\n";
pub const PORT_KEY: &'static str = "port=";
pub const SERVER_KEY: &'static str = "server=";
pub const BLACKHOLE_OPEN: &'static str = "server=/";
pub const BLACKHOLE_CLOSE: &'static str = "/\n";
pub const NEWLINE: &'static str = "\n";

/// A whole-domain website block.
#[derive(Debug, Clone)]
pub struct WebsiteRule {
    pub domain: String,
}

/// The rule set the engine enforces.
#[derive(Debug, Clone)]
pub struct RuleSet {
    pub websites: Vec<WebsiteRule>,
}

impl Default for RuleSet {
    fn default() -> (r: Self)
        ensures
            r.websites@.len() == 0,
    {
        RuleSet { websites: Vec::new() }
    }
}

impl RuleSet {
    /// The number of rules in the set.
    pub fn total_rules(&self) -> (n: usize)
        ensures
            n == self.websites@.len(),
    {
        self.websites.len()
    }
}

/// A resolved address of a blocked domain.
#[derive(Debug, Clone, Copy)]
pub enum IpAddress {
    V4([u8; 4]),
    V6([u16; 8]),
}

/// The number an IPv4 address stands for, its octets read big-endian.
pub open spec fn v4_value(o: Seq<u8>) -> int {
    ((o[0] as int * 256 + o[1] as int) * 256 + o[2] as int) * 256 + o[3] as int
}

/// The number an IPv6 address stands for, its groups read big-endian.
pub open spec fn v6_value(s: Seq<u16>) -> int {
    ((((((s[0] as int * 65536 + s[1] as int) * 65536 + s[2] as int) * 65536 + s[3] as int) * 65536
        + s[4] as int) * 65536 + s[5] as int) * 65536 + s[6] as int) * 65536 + s[7] as int
}

/// Where an address stands in the order of the standard library's
/// `IpAddr`: every IPv4 address before every IPv6 address, each family in
/// numeric order.
pub open spec fn addr_key(ip: IpAddress) -> int {
    match ip {
        IpAddress::V4(o) => v4_value(o@),
        IpAddress::V6(s) => 0x1_0000_0000_0000_0000_0000_0000_0000_0000 + v6_value(s@),
    }
}

/// Each address comes strictly after the one before it: in order, and none
/// twice.
pub open spec fn strictly_ordered(ips: Seq<IpAddress>) -> bool {
    forall|i: int, j: int| 0 <= i < j < ips.len() ==> #[trigger] addr_key(ips[i]) < #[trigger] addr_key(ips[j])
}

proof fn lemma_digit_split(a: int, b: int, c: int, d: int, base: int)
    by (nonlinear_arith)
    requires
        base > 0,
        0 <= b < base,
        0 <= d < base,
        a * base + b == c * base + d,
    ensures
        a == c,
        b == d,
{
}

/// Different addresses stand in different places of the order.
proof fn lemma_addr_key_injective(x: IpAddress, y: IpAddress)
    requires
        addr_key(x) == addr_key(y),
    ensures
        x == y,
{
    match (x, y) {
        (IpAddress::V4(o), IpAddress::V4(p)) => {
            let (o0, o1, o2, o3) = (o@[0] as int, o@[1] as int, o@[2] as int, o@[3] as int);
            let (p0, p1, p2, p3) = (p@[0] as int, p@[1] as int, p@[2] as int, p@[3] as int);
            lemma_digit_split((o0 * 256 + o1) * 256 + o2, o3, (p0 * 256 + p1) * 256 + p2, p3, 256);
            lemma_digit_split(o0 * 256 + o1, o2, p0 * 256 + p1, p2, 256);
            lemma_digit_split(o0, o1, p0, p1, 256);
            assert(o =~= p);
        },
        (IpAddress::V6(a), IpAddress::V6(b)) => {
            let a0 = a@[0] as int;
            let b0 = b@[0] as int;
            let a1 = a0 * 65536 + a@[1] as int;
            let b1 = b0 * 65536 + b@[1] as int;
            let a2 = a1 * 65536 + a@[2] as int;
            let b2 = b1 * 65536 + b@[2] as int;
            let a3 = a2 * 65536 + a@[3] as int;
            let b3 = b2 * 65536 + b@[3] as int;
            let a4 = a3 * 65536 + a@[4] as int;
            let b4 = b3 * 65536 + b@[4] as int;
            let a5 = a4 * 65536 + a@[5] as int;
            let b5 = b4 * 65536 + b@[5] as int;
            let a6 = a5 * 65536 + a@[6] as int;
            let b6 = b5 * 65536 + b@[6] as int;
            lemma_digit_split(a6, a@[7] as int, b6, b@[7] as int, 65536);
            lemma_digit_split(a5, a@[6] as int, b5, b@[6] as int, 65536);
            lemma_digit_split(a4, a@[5] as int, b4, b@[5] as int, 65536);
            lemma_digit_split(a3, a@[4] as int, b3, b@[4] as int, 65536);
            lemma_digit_split(a2, a@[3] as int, b2, b@[3] as int, 65536);
            lemma_digit_split(a1, a@[2] as int, b1, b@[2] as int, 65536);
            lemma_digit_split(a0, a@[1] as int, b0, b@[1] as int, 65536);
            assert(a =~= b);
        },
        (IpAddress::V4(o), IpAddress::V6(b)) => {
            assert(v4_value(o@) < 0x1_0000_0000);
            assert(v6_value(b@) >= 0);
        },
        (IpAddress::V6(a), IpAddress::V4(p)) => {
            assert(v4_value(p@) < 0x1_0000_0000);
            assert(v6_value(a@) >= 0);
        },
    }
}

fn v4_number(o: &[u8; 4]) -> (n: u64)
    ensures
        n == v4_value(o@),
{
    ((o[0] as u64 * 256 + o[1] as u64) * 256 + o[2] as u64) * 256 + o[3] as u64
}

fn v6_number(s: &[u16; 8]) -> (n: u128)
    ensures
        n == v6_value(s@),
{
    ((((((s[0] as u128 * 65536 + s[1] as u128) * 65536 + s[2] as u128) * 65536 + s[3] as u128) * 65536
        + s[4] as u128) * 65536 + s[5] as u128) * 65536 + s[6] as u128) * 65536 + s[7] as u128
}

/// Whether `a` comes before `b` in the order of addresses.
fn comes_before(a: &IpAddress, b: &IpAddress) -> (res: bool)
    ensures
        res == (addr_key(*a) < addr_key(*b)),
{
    match (a, b) {
        (IpAddress::V4(o), IpAddress::V4(p)) => v4_number(o) < v4_number(p),
        (IpAddress::V6(x), IpAddress::V6(y)) => v6_number(x) < v6_number(y),
        (IpAddress::V4(o), IpAddress::V6(y)) => {
            let _ = v4_number(o);
            let _ = v6_number(y);
            true
        },
        (IpAddress::V6(x), IpAddress::V4(p)) => {
            let _ = v6_number(x);
            let _ = v4_number(p);
            false
        },
    }
}

/// The resolved addresses of the blocked domains: an ordered set, each
/// address once, in the order of the standard library's `IpAddr`.
#[derive(Debug)]
pub struct AddressSet {
    addrs: Vec<IpAddress>,
}

impl View for AddressSet {
    type V = Seq<IpAddress>;

    closed spec fn view(&self) -> Seq<IpAddress> {
        self.addrs@
    }
}

impl AddressSet {
    #[verifier::type_invariant]
    spec fn ordered(self) -> bool {
        strictly_ordered(self.addrs@)
    }

    /// The empty set.
    pub fn new() -> (s: Self)
        ensures
            s@ == Seq::<IpAddress>::empty(),
    {
        AddressSet { addrs: Vec::new() }
    }

    /// The addresses in order.
    pub fn addresses(&self) -> (v: &Vec<IpAddress>)
        ensures
            v@ == self@,
            strictly_ordered(self@),
    {
        proof {
            use_type_invariant(self);
        }
        &self.addrs
    }

    /// The number of addresses.
    pub fn len(&self) -> (n: usize)
        ensures
            n == self@.len(),
    {
        self.addrs.len()
    }

    /// Adds an address; one already present is not added again.
    pub fn insert(&mut self, ip: IpAddress)
        ensures
            strictly_ordered(final(self)@),
            forall|a: IpAddress| #[trigger] final(self)@.contains(a) <==> (old(self)@.contains(a) || a == ip),
    {
        proof {
            use_type_invariant(&*self);
        }
        let old_addrs = self.addrs.clone();
        let ghost olds = old_addrs@;
        assert(olds == old(self)@);
        let mut out: Vec<IpAddress> = Vec::new();
        let mut placed = false;
        let mut i: usize = 0;
        while i < old_addrs.len()
            invariant
                0 <= i <= olds.len(),
                olds == old_addrs@,
                strictly_ordered(olds),
                strictly_ordered(out@),
                placed <==> (i > 0 && addr_key(ip) <= addr_key(olds[i - 1])),
                i > 0 ==> out@.len() > 0 && out@.last() == olds[i - 1],
                i == 0 ==> out@.len() == 0,
                forall|a: IpAddress| #[trigger] out@.contains(a) <==> (olds.subrange(0, i as int).contains(a) || (placed && a == ip)),
            decreases olds.len() - i,
        {
            let e = old_addrs[i];
            let ghost before = out@;
            let ghost sub = olds.subrange(0, i as int);
            assert(olds.subrange(0, i + 1) == sub.push(e));
            if !placed {
                if comes_before(&ip, &e) {
                    out.push(ip);
                    placed = true;
                    assert forall|a: IpAddress| #[trigger] out@.contains(a) <==> (sub.contains(a) || a == ip) by {
                        if out@.contains(a) {
                            let k = choose|k: int| 0 <= k < out@.len() && out@[k] == a;
                            if k < before.len() {
                                assert(before[k] == a);
                                assert(before.contains(a));
                            }
                        }
                        if sub.contains(a) {
                            assert(before.contains(a));
                            let k = choose|k: int| 0 <= k < before.len() && before[k] == a;
                            assert(out@[k] == a);
                        }
                        if a == ip {
                            assert(out@[out@.len() - 1] == a);
                        }
                    }
                } else if !comes_before(&e, &ip) {
                    proof {
                        lemma_addr_key_injective(e, ip);
                    }
                    placed = true;
                }
            }
            let ghost mid = out@;
            out.push(e);
            i += 1;
            proof {
                let sub1 = olds.subrange(0, i as int);
                assert forall|a: IpAddress| #[trigger] out@.contains(a) <==> (sub1.contains(a) || (placed && a == ip)) by {
                    if out@.contains(a) {
                        let k = choose|k: int| 0 <= k < out@.len() && out@[k] == a;
                        if k < mid.len() {
                            assert(mid[k] == a);
                            assert(mid.contains(a));
                            if sub.contains(a) {
                                let m = choose|m: int| 0 <= m < sub.len() && sub[m] == a;
                                assert(sub1[m] == a);
                            }
                        } else {
                            assert(sub1[i - 1] == a);
                        }
                    }
                    if sub1.contains(a) {
                        let m = choose|m: int| 0 <= m < sub1.len() && sub1[m] == a;
                        if m < i - 1 {
                            assert(sub[m] == a);
                            assert(sub.contains(a));
                            assert(mid.contains(a));
                            let k = choose|k: int| 0 <= k < mid.len() && mid[k] == a;
                            assert(out@[k] == a);
                        } else {
                            assert(out@[out@.len() - 1] == a);
                        }
                    }
                    if placed && a == ip {
                        if mid.contains(a) {
                            let k = choose|k: int| 0 <= k < mid.len() && mid[k] == a;
                            assert(out@[k] == a);
                        } else {
                            assert(addr_key(ip) == addr_key(e) || addr_key(ip) < addr_key(e));
                            assert(e == ip);
                            assert(out@[out@.len() - 1] == a);
                        }
                    }
                }
                assert forall|x: int, y: int| 0 <= x < y < out@.len() implies #[trigger] addr_key(out@[x]) < #[trigger] addr_key(out@[y]) by {
                    if y == out@.len() - 1 && x < mid.len() {
                        if x < mid.len() - 1 {
                            assert(addr_key(mid[x]) < addr_key(mid[mid.len() - 1]));
                        }
                    } else if y < mid.len() {
                        assert(mid[x] == out@[x] && mid[y] == out@[y]);
                    }
                }
            }
        }
        if !placed {
            let ghost before = out@;
            out.push(ip);
            proof {
                assert forall|x: int, y: int| 0 <= x < y < out@.len() implies #[trigger] addr_key(out@[x]) < #[trigger] addr_key(out@[y]) by {
                    if y == out@.len() - 1 {
                        if x < before.len() - 1 {
                            assert(addr_key(before[x]) < addr_key(before[before.len() - 1]));
                        }
                    } else {
                        assert(before[x] == out@[x] && before[y] == out@[y]);
                    }
                }
                assert forall|a: IpAddress| #[trigger] out@.contains(a) <==> (olds.contains(a) || a == ip) by {
                    assert(olds.subrange(0, olds.len() as int) == olds);
                    if out@.contains(a) {
                        let k = choose|k: int| 0 <= k < out@.len() && out@[k] == a;
                        if k < before.len() {
                            assert(before[k] == a);
                            assert(before.contains(a));
                        }
                    }
                    if olds.contains(a) {
                        assert(before.contains(a));
                        let k = choose|k: int| 0 <= k < before.len() && before[k] == a;
                        assert(out@[k] == a);
                    }
                    if a == ip {
                        assert(out@[out@.len() - 1] == a);
                    }
                }
            }
        } else {
            proof {
                assert(olds.subrange(0, olds.len() as int) == olds);
            }
        }
        self.addrs = out;
    }
}

/// How many zero groups follow one another from position `i` on.
pub open spec fn zero_run(segs: Seq<u16>, i: int) -> nat
    decreases segs.len() - i,
{
    if i < 0 || i >= segs.len() || segs[i] != 0 {
        0
    } else {
        1 + zero_run(segs, i + 1)
    }
}

/// `(start, len)` is the first longest run of zero groups in `segs`.
pub open spec fn first_longest_zero_run(segs: Seq<u16>, start: int, len: nat) -> bool {
    &&& 0 <= start < segs.len()
    &&& zero_run(segs, start) == len
    &&& forall|i: int| 0 <= i < segs.len() ==> #[trigger] zero_run(segs, i) <= len
    &&& forall|i: int| 0 <= i < start ==> #[trigger] zero_run(segs, i) < len
}

/// Groups in lower-case hexadecimal, joined by colons.
pub open spec fn colon_hex(segs: Seq<u16>) -> Seq<char>
    decreases segs.len(),
{
    if segs.len() == 0 {
        seq![]
    } else if segs.len() == 1 {
        hex(segs[0] as nat)
    } else {
        colon_hex(segs.drop_last()) + ":"@ + hex(segs.last() as nat)
    }
}

/// An IPv4-mapped address, `::ffff:a.b.c.d`.
pub open spec fn ipv4_mapped(segs: Seq<u16>) -> bool {
    segs[0] == 0 && segs[1] == 0 && segs[2] == 0 && segs[3] == 0 && segs[4] == 0 && segs[5] == 0xffff
}

/// The text of an IPv6 address as the standard library displays it
/// (RFC 5952): an IPv4-mapped address as `::ffff:` and the dotted IPv4
/// address; otherwise the groups in lower-case hexadecimal without leading
/// zeros, joined by colons, with the first longest run of two or more zero
/// groups written as `::`.
pub open spec fn ipv6_display(segs: Seq<u16>) -> Seq<char> {
    if ipv4_mapped(segs) {
        "::ffff:"@ + ipv4_display(
            seq![(segs[6] / 256) as u8, (segs[6] % 256) as u8, (segs[7] / 256) as u8, (segs[7] % 256) as u8],
        )
    } else {
        let (start, len) = choose|start: int, len: nat| first_longest_zero_run(segs, start, len);
        if len > 1 {
            colon_hex(segs.subrange(0, start)) + "::"@ + colon_hex(segs.subrange(start + len, segs.len() as int))
        } else {
            colon_hex(segs)
        }
    }
}

proof fn lemma_first_longest_unique(segs: Seq<u16>, s1: int, l1: nat, s2: int, l2: nat)
    requires
        first_longest_zero_run(segs, s1, l1),
        first_longest_zero_run(segs, s2, l2),
    ensures
        s1 == s2 && l1 == l2,
{
    assert(zero_run(segs, s1) <= l2);
    assert(zero_run(segs, s2) <= l1);
    if s1 < s2 {
        assert(zero_run(segs, s1) < l2);
    }
    if s2 < s1 {
        assert(zero_run(segs, s2) < l1);
    }
}

/// How many zero groups follow one another from position `i` on.
fn zero_run_at(segs: &[u16; 8], i: usize) -> (n: usize)
    requires
        i < 8,
    ensures
        n == zero_run(segs@, i as int),
        i + n <= 8,
{
    let mut j: usize = i;
    while j < 8 && segs[j] == 0
        invariant
            i <= j <= 8,
            segs@.len() == 8,
            zero_run(segs@, i as int) == (j - i) + zero_run(segs@, j as int),
        decreases 8 - j,
    {
        j += 1;
    }
    j - i
}

/// Appends the groups `segs[from..to]`, joined by colons.
fn push_colon_hex(out: &mut String, segs: &[u16; 8], from: usize, to: usize)
    requires
        from <= to <= 8,
    ensures
        final(out)@ == old(out)@ + colon_hex(segs@.subrange(from as int, to as int)),
{
    let ghost start = out@;
    let mut k: usize = from;
    while k < to
        invariant
            from <= k <= to <= 8,
            segs@.len() == 8,
            out@ == start + colon_hex(segs@.subrange(from as int, k as int)),
        decreases to - k,
    {
        let ghost prev = segs@.subrange(from as int, k as int);
        proof {
            assert(segs@.subrange(from as int, k + 1).drop_last() == prev);
            assert(segs@.subrange(from as int, k + 1).last() == segs@[k as int]);
            if k == from {
                assert(segs@.subrange(from as int, k + 1).len() == 1);
            }
        }
        if k > from {
            out.append(":");
        }
        push_hex(out, segs[k] as u64);
        k += 1;
    }
}

/// The text of an IPv6 address, as the standard library displays it.
pub fn ipv6_text(segs: &[u16; 8]) -> (s: String)
    ensures
        s@ == ipv6_display(segs@),
{
    if segs[0] == 0 && segs[1] == 0 && segs[2] == 0 && segs[3] == 0 && segs[4] == 0 && segs[5] == 0xffff {
        let mut out = String::from_str("::ffff:");
        let v4 = [(segs[6] / 256) as u8, (segs[6] % 256) as u8, (segs[7] / 256) as u8, (segs[7] % 256) as u8];
        let t = ipv4_text(&v4);
        out.append(t.as_str());
        assert(v4@ == seq![(segs@[6] / 256) as u8, (segs@[6] % 256) as u8, (segs@[7] / 256) as u8, (segs@[7] % 256) as u8]);
        return out;
    }
    let mut best: usize = 0;
    let mut best_len: usize = zero_run_at(segs, 0);
    let mut i: usize = 1;
    while i < 8
        invariant
            1 <= i <= 8,
            segs@.len() == 8,
            best < i,
            best_len == zero_run(segs@, best as int),
            best + best_len <= 8,
            forall|k: int| 0 <= k < i ==> #[trigger] zero_run(segs@, k) <= best_len,
            forall|k: int| 0 <= k < best ==> #[trigger] zero_run(segs@, k) < best_len,
        decreases 8 - i,
    {
        let r = zero_run_at(segs, i);
        if r > best_len {
            best = i;
            best_len = r;
        }
        i += 1;
    }
    proof {
        assert(first_longest_zero_run(segs@, best as int, best_len as nat));
        let (s2, l2) = choose|start: int, len: nat| first_longest_zero_run(segs@, start, len);
        lemma_first_longest_unique(segs@, best as int, best_len as nat, s2, l2);
    }
    let mut out = String::new();
    if best_len > 1 {
        push_colon_hex(&mut out, segs, 0, best);
        out.append("::");
        push_colon_hex(&mut out, segs, best + best_len, 8);
    } else {
        push_colon_hex(&mut out, segs, 0, 8);
        assert(segs@.subrange(0, 8) == segs@);
    }
    out
}

/// Dotted-decimal text of an IPv4 address.
pub open spec fn ipv4_display(o: Seq<u8>) -> Seq<char> {
    decimal(o[0] as nat) + "."@ + decimal(o[1] as nat) + "."@ + decimal(o[2] as nat) + "."@
        + decimal(o[3] as nat)
}

pub open spec fn ip_display(ip: IpAddress) -> Seq<char> {
    match ip {
        IpAddress::V4(o) => ipv4_display(o@),
        IpAddress::V6(s) => ipv6_display(s@),
    }
}

/// The texts of the addresses of one family, in order.
pub open spec fn family_texts(ips: Seq<IpAddress>, v4: bool) -> Seq<Seq<char>>
    decreases ips.len(),
{
    if ips.len() == 0 {
        seq![]
    } else {
        let prev = family_texts(ips.drop_last(), v4);
        if (ips.last() is V4) == v4 {
            prev.push(ip_display(ips.last()))
        } else {
            prev
        }
    }
}

/// `items` joined with `sep` between neighbours.
pub open spec fn join(items: Seq<Seq<char>>, sep: Seq<char>) -> Seq<char>
    decreases items.len(),
{
    if items.len() == 0 {
        seq![]
    } else if items.len() == 1 {
        items[0]
    } else {
        join(items.drop_last(), sep) + sep + items.last()
    }
}

/// The `elements` line of a set: absent for an empty set, which nft would
/// otherwise reject as a syntax error.
pub open spec fn elements_line(texts: Seq<Seq<char>>) -> Seq<char> {
    if texts.len() == 0 {
        seq![]
    } else {
        ELEMENTS_OPEN@ + join(texts, ELEMENTS_SEP@) + ELEMENTS_CLOSE@
    }
}

/// The filter-table script for the given address texts per family.
pub open spec fn filter_script(v4: Seq<Seq<char>>, v6: Seq<Seq<char>>) -> Seq<char> {
    FILTER_OPEN@ + FILTER_TABLE@ + V4_SET_OPEN@ + elements_line(v4) + SET_CLOSE@ + V6_SET_OPEN@
        + elements_line(v6) + SET_CLOSE@ + CHAIN_OPEN@ + DROP_V4@ + DROP_V6@ + DROP_DOT@
        + BLOCK_CLOSE@
}

/// The DNS-redirect script: everything outbound to port 53 goes to our
/// resolver, except traffic to `upstream`, which our resolver itself must
/// reach.
pub open spec fn dns_redirect_script(upstream: Seq<char>) -> Seq<char> {
    NAT_OPEN@ + NAT_TABLE@ + NAT_CHAIN_OPEN@ + ACCEPT_OPEN@ + upstream + ACCEPT_CLOSE@
        + REDIRECT_OPEN@ + decimal(RESOLVER_PORT as nat) + NEWLINE@ + BLOCK_CLOSE@
}

/// The dnsmasq line that answers every query for `domain` with NXDOMAIN.
pub open spec fn blackhole_line(domain: Seq<char>) -> Seq<char> {
    BLACKHOLE_OPEN@ + domain + BLACKHOLE_CLOSE@
}

pub open spec fn blackhole_lines(domains: Seq<Seq<char>>) -> Seq<char>
    decreases domains.len(),
{
    if domains.len() == 0 {
        seq![]
    } else {
        blackhole_lines(domains.drop_last()) + blackhole_line(domains.last())
    }
}

pub open spec fn rule_domains(websites: Seq<WebsiteRule>) -> Seq<Seq<char>> {
    websites.map_values(|r: WebsiteRule| r.domain@)
}

/// The resolver configuration: forward to `upstream`, and blackhole the
/// DoH canary and every blocked domain.
pub open spec fn resolver_config(domains: Seq<Seq<char>>, upstream: Seq<char>) -> Seq<char> {
    RESOLVER_HEADER@ + PORT_KEY@ + decimal(RESOLVER_PORT as nat) + NEWLINE@ + SERVER_KEY@ + upstream
        + NEWLINE@ + blackhole_line(FIREFOX_DOH_CANARY@) + blackhole_lines(domains)
}

/// `s` holds `t` starting at position `k`.
pub open spec fn occurs_at(s: Seq<char>, t: Seq<char>, k: int) -> bool {
    0 <= k && k + t.len() <= s.len() && s.subrange(k, k + t.len()) == t
}

pub open spec fn contains(s: Seq<char>, t: Seq<char>) -> bool {
    exists|k: int| occurs_at(s, t, k)
}

/// The dotted-decimal text of an IPv4 address.
pub fn ipv4_text(octets: &[u8; 4]) -> (s: String)
    ensures
        s@ == ipv4_display(octets@),
{
    let mut out = String::new();
    push_decimal(&mut out, octets[0] as u64);
    out.append(".");
    push_decimal(&mut out, octets[1] as u64);
    out.append(".");
    push_decimal(&mut out, octets[2] as u64);
    out.append(".");
    push_decimal(&mut out, octets[3] as u64);
    out
}

/// The text of an address, as the standard library displays it.
pub fn ip_text(ip: &IpAddress) -> (s: String)
    ensures
        s@ == ip_display(*ip),
{
    match ip {
        IpAddress::V4(o) => ipv4_text(o),
        IpAddress::V6(seg) => ipv6_text(seg),
    }
}

proof fn lemma_join_push(items: Seq<Seq<char>>, x: Seq<char>, sep: Seq<char>)
    ensures
        join(items.push(x), sep) == if items.len() == 0 { x } else { join(items, sep) + sep + x },
{
    assert(items.push(x).drop_last() == items);
    if items.len() == 0 {
        assert(items.push(x).len() == 1);
    }
}

/// Appends the `elements` line for `texts` to `out`.
fn push_elements_line(out: &mut String, texts: &Vec<String>)
    ensures
        final(out)@ == old(out)@ + elements_line(texts@.map_values(|t: String| t@)),
{
    let ghost items = texts@.map_values(|t: String| t@);
    if texts.len() == 0 {
        return;
    }
    out.append(ELEMENTS_OPEN);
    let ghost start = out@;
    let mut i: usize = 0;
    while i < texts.len()
        invariant
            0 <= i <= texts@.len(),
            items == texts@.map_values(|t: String| t@),
            out@ == start + join(items.subrange(0, i as int), ELEMENTS_SEP@),
        decreases texts@.len() - i,
    {
        proof {
            lemma_join_push(items.subrange(0, i as int), items[i as int], ELEMENTS_SEP@);
            assert(items.subrange(0, i + 1) == items.subrange(0, i as int).push(items[i as int]));
        }
        if i > 0 {
            out.append(ELEMENTS_SEP);
        }
        out.append(texts[i].as_str());
        i += 1;
    }
    assert(items.subrange(0, texts@.len() as int) == items);
    out.append(ELEMENTS_CLOSE);
}

/// Assembles the filter-table script from the address texts of each family.
pub fn assemble_filter_script(v4: &Vec<String>, v6: &Vec<String>) -> (s: String)
    ensures
        s@ == filter_script(v4@.map_values(|t: String| t@), v6@.map_values(|t: String| t@)),
{
    let mut out = String::from_str(FILTER_OPEN);
    out.append(FILTER_TABLE);
    out.append(V4_SET_OPEN);
    push_elements_line(&mut out, v4);
    out.append(SET_CLOSE);
    out.append(V6_SET_OPEN);
    push_elements_line(&mut out, v6);
    out.append(SET_CLOSE);
    out.append(CHAIN_OPEN);
    out.append(DROP_V4);
    out.append(DROP_V6);
    out.append(DROP_DOT);
    out.append(BLOCK_CLOSE);
    out
}

/// The texts of the addresses of each family, in order.
pub fn family_text_lists(ips: &Vec<IpAddress>) -> (res: (Vec<String>, Vec<String>))
    ensures
        res.0@.map_values(|t: String| t@) == family_texts(ips@, true),
        res.1@.map_values(|t: String| t@) == family_texts(ips@, false),
{
    let mut v4: Vec<String> = Vec::new();
    let mut v6: Vec<String> = Vec::new();
    let mut i: usize = 0;
    while i < ips.len()
        invariant
            0 <= i <= ips@.len(),
            v4@.map_values(|t: String| t@) == family_texts(ips@.subrange(0, i as int), true),
            v6@.map_values(|t: String| t@) == family_texts(ips@.subrange(0, i as int), false),
        decreases ips@.len() - i,
    {
        let ghost pre = ips@.subrange(0, i as int);
        let ghost old4 = v4@;
        let ghost old6 = v6@;
        let t = ip_text(&ips[i]);
        let is_v4 = match &ips[i] {
            IpAddress::V4(_) => true,
            IpAddress::V6(_) => false,
        };
        if is_v4 {
            v4.push(t);
            assert(v4@ == old4.push(t));
            assert(v4@.map_values(|t: String| t@) == old4.map_values(|t: String| t@).push(t@));
        } else {
            v6.push(t);
            assert(v6@ == old6.push(t));
            assert(v6@.map_values(|t: String| t@) == old6.map_values(|t: String| t@).push(t@));
        }
        i += 1;
        assert(ips@.subrange(0, i as int).drop_last() == pre);
        assert(ips@.subrange(0, i as int).last() == ips@[i - 1]);
    }
    assert(ips@.subrange(0, ips@.len() as int) == ips@);
    (v4, v6)
}

/// The block engine: the binaries it drives. Its rendering is pure; the
/// caller runs the binaries.
#[derive(Debug, Clone)]
pub struct NftEngine {
    pub nft_binary: String,
    pub dnsmasq_binary: String,
}

impl Default for NftEngine {
    fn default() -> (e: Self)
        ensures
            e.nft_binary@ == "nft"@,
            e.dnsmasq_binary@ == "dnsmasq"@,
    {
        NftEngine { nft_binary: String::from_str("nft"), dnsmasq_binary: String::from_str("dnsmasq") }
    }
}

impl NftEngine {
    /// The `--conf-file=<path>` argument that points our dnsmasq at its
    /// configuration; it must be one argument, not two.
    pub fn conf_file_arg(config_path: &str) -> (s: String)
        ensures
            s@ == "--conf-file="@ + config_path@,
    {
        let mut out = String::from_str("--conf-file=");
        out.append(config_path);
        out
    }

    /// The `pgrep -f` pattern that finds a dnsmasq we ourselves started with
    /// this configuration, and nothing else that may hold the port.
    pub fn leaked_resolver_pattern(config_path: &str) -> (s: String)
        ensures
            s@ == "dnsmasq.*--conf-file[= ]"@ + config_path@,
    {
        let mut out = String::from_str("dnsmasq.*--conf-file[= ]");
        out.append(config_path);
        out
    }

    /// The nft script for whole-domain IP blocking plus the DNS-over-TLS
    /// (port 853) drop, from the resolved addresses in order.
    pub fn render_filter_script(ips: &AddressSet) -> (s: String)
        ensures
            s@ == filter_script(family_texts(ips@, true), family_texts(ips@, false)),
    {
        let (v4, v6) = family_text_lists(ips.addresses());
        assemble_filter_script(&v4, &v6)
    }

    /// The nat-table script that redirects all outbound DNS to our resolver,
    /// exempting `upstream`.
    pub fn render_dns_redirect_script(upstream: &str) -> (s: String)
        ensures
            s@ == dns_redirect_script(upstream@),
    {
        let mut out = String::from_str(NAT_OPEN);
        out.append(NAT_TABLE);
        out.append(NAT_CHAIN_OPEN);
        out.append(ACCEPT_OPEN);
        out.append(upstream);
        out.append(ACCEPT_CLOSE);
        out.append(REDIRECT_OPEN);
        push_decimal(&mut out, RESOLVER_PORT as u64);
        out.append(NEWLINE);
        out.append(BLOCK_CLOSE);
        out
    }

    /// The dnsmasq configuration for our local resolver.
    pub fn render_resolver_config(websites: &[WebsiteRule], upstream: &str) -> (s: String)
        ensures
            s@ == resolver_config(rule_domains(websites@), upstream@),
    {
        let mut out = String::from_str(RESOLVER_HEADER);
        out.append(PORT_KEY);
        push_decimal(&mut out, RESOLVER_PORT as u64);
        out.append(NEWLINE);
        out.append(SERVER_KEY);
        out.append(upstream);
        out.append(NEWLINE);
        out.append(BLACKHOLE_OPEN);
        out.append(FIREFOX_DOH_CANARY);
        out.append(BLACKHOLE_CLOSE);
        let ghost start = out@;
        let ghost domains = rule_domains(websites@);
        let mut i: usize = 0;
        while i < websites.len()
            invariant
                0 <= i <= websites@.len(),
                domains == rule_domains(websites@),
                out@ == start + blackhole_lines(domains.subrange(0, i as int)),
            decreases websites@.len() - i,
        {
            proof {
                assert(domains.subrange(0, i + 1).drop_last() == domains.subrange(0, i as int));
                assert(domains.subrange(0, i + 1).last() == websites@[i as int].domain@);
            }
            out.append(BLACKHOLE_OPEN);
            out.append(websites[i].domain.as_str());
            out.append(BLACKHOLE_CLOSE);
            i += 1;
        }
        assert(domains.subrange(0, websites@.len() as int) == domains);
        out
    }
}

/// What the liveness check saw of a freshly spawned dnsmasq, a moment after
/// spawning it.
#[derive(Debug, Clone)]
pub enum ResolverProbe {
    /// It already exited: its exit status and its standard error, trimmed.
    Exited { status: String, stderr_trimmed: String },
    /// It is still running.
    Running,
    /// Its state could not be read.
    Unknown,
}

/// What to do about our resolver.
#[derive(Debug, Clone)]
pub enum ResolverAction {
    /// dnsmasq is not installed: enforce nothing at the DNS layer.
    SkipDryRun,
    /// The new resolver is dead: keep the old one and fail with `message`,
    /// so no nft rule is committed against a dead resolver.
    Fail { message: String },
    /// The new resolver is trusted: kill the old one and keep the new.
    ReplaceOld,
}

pub const EXITED_OPEN: &'static str = "dnsmasq exited immediately after spawn (status: ";
pub const EXITED_STDERR: &'static str = "). dnsmasq stderr: ";
pub const EMPTY_STDERR: &'static str = "<empty \u{2014} dnsmasq printed nothing to stderr>";

/// The message for a resolver that died right after it was spawned.
pub open spec fn exited_message(status: Seq<char>, stderr_trimmed: Seq<char>) -> Seq<char> {
    EXITED_OPEN@ + status + EXITED_STDERR@ + if stderr_trimmed.len() == 0 {
        EMPTY_STDERR@
    } else {
        stderr_trimmed
    }
}

/// Decides about the resolver: nothing to do without dnsmasq; otherwise the
/// new one replaces the old only once it was not seen dead.
pub fn resolver_decision(available: bool, probe: &ResolverProbe) -> (act: ResolverAction)
    ensures
        !available ==> act is SkipDryRun,
        available ==> match probe {
            ResolverProbe::Exited { status, stderr_trimmed } => act matches ResolverAction::Fail { message }
                && message@ == exited_message(status@, stderr_trimmed@),
            _ => act is ReplaceOld,
        },
{
    if !available {
        return ResolverAction::SkipDryRun;
    }
    match probe {
        ResolverProbe::Exited { status, stderr_trimmed } => {
            let mut message = String::from_str(EXITED_OPEN);
            message.append(status.as_str());
            message.append(EXITED_STDERR);
            if stderr_trimmed.as_str().is_empty() {
                message.append(EMPTY_STDERR);
            } else {
                message.append(stderr_trimmed.as_str());
            }
            ResolverAction::Fail { message }
        },
        _ => ResolverAction::ReplaceOld,
    }
}

/// How long leaked resolvers get to exit after SIGKILL, and how often they
/// are checked meanwhile.
pub const LEAKED_EXIT_WAIT_MS: u64 = 1000;
pub const LEAKED_POLL_INTERVAL_MS: u64 = 50;

/// What to do after checking whether killed leaked resolvers are gone.
#[derive(Debug, Clone, Copy, PartialEq, Eq, Structural)]
pub enum PollStep {
    /// Every one is gone: go on.
    AllGone,
    /// Some are still there after the whole wait: go on anyway; the
    /// liveness check after spawning catches a port still held.
    GiveUp,
    /// Some are still there: check again after `LEAKED_POLL_INTERVAL_MS`.
    PollAgain,
}

/// The decision after a check, `elapsed_ms` after the kill signals.
pub fn leaked_poll_step(any_alive: bool, elapsed_ms: u64) -> (step: PollStep)
    ensures
        !any_alive ==> step == PollStep::AllGone,
        any_alive && elapsed_ms >= LEAKED_EXIT_WAIT_MS ==> step == PollStep::GiveUp,
        any_alive && elapsed_ms < LEAKED_EXIT_WAIT_MS ==> step == PollStep::PollAgain,
{
    if !any_alive {
        PollStep::AllGone
    } else if elapsed_ms >= LEAKED_EXIT_WAIT_MS {
        PollStep::GiveUp
    } else {
        PollStep::PollAgain
    }
}

/// The stages of applying a rule set, in order: resolve the blocked domains
/// (before our resolver starts refusing them), start the resolver, check
/// for nft, load the DNS redirect, load the IP filter.
#[derive(Debug, Clone, Copy, PartialEq, Eq, Structural)]
pub enum ApplyStage {
    ResolveAddresses,
    StartResolver,
    CheckNft,
    LoadRedirect,
    LoadFilter,
    /// Done: everything applied, or nft missing (a dry run).
    Finished,
    /// Stopped on a failure.
    Aborted,
}

/// The stage after `stage`, given whether it succeeded (for `CheckNft`:
/// whether nft is available).
pub open spec fn apply_next(stage: ApplyStage, succeeded: bool) -> ApplyStage {
    match stage {
        ApplyStage::ResolveAddresses => ApplyStage::StartResolver,
        ApplyStage::StartResolver => if succeeded { ApplyStage::CheckNft } else { ApplyStage::Aborted },
        ApplyStage::CheckNft => if succeeded { ApplyStage::LoadRedirect } else { ApplyStage::Finished },
        ApplyStage::LoadRedirect => if succeeded { ApplyStage::LoadFilter } else { ApplyStage::Aborted },
        ApplyStage::LoadFilter => if succeeded { ApplyStage::Finished } else { ApplyStage::Aborted },
        ApplyStage::Finished => ApplyStage::Finished,
        ApplyStage::Aborted => ApplyStage::Aborted,
    }
}

/// The stage after `stage`, given whether it succeeded.
pub fn next_apply_stage(stage: ApplyStage, succeeded: bool) -> (next: ApplyStage)
    ensures
        next == apply_next(stage, succeeded),
{
    match stage {
        ApplyStage::ResolveAddresses => ApplyStage::StartResolver,
        ApplyStage::StartResolver => if succeeded { ApplyStage::CheckNft } else { ApplyStage::Aborted },
        ApplyStage::CheckNft => if succeeded { ApplyStage::LoadRedirect } else { ApplyStage::Finished },
        ApplyStage::LoadRedirect => if succeeded { ApplyStage::LoadFilter } else { ApplyStage::Aborted },
        ApplyStage::LoadFilter => if succeeded { ApplyStage::Finished } else { ApplyStage::Aborted },
        ApplyStage::Finished => ApplyStage::Finished,
        ApplyStage::Aborted => ApplyStage::Aborted,
    }
}

/// The nft stages.
pub open spec fn touches_nft(stage: ApplyStage) -> bool {
    stage == ApplyStage::LoadRedirect || stage == ApplyStage::LoadFilter
}

/// The stages reached from `stage` by `outcomes`, one per step.
pub open spec fn apply_run(stage: ApplyStage, outcomes: Seq<bool>) -> ApplyStage
    decreases outcomes.len(),
{
    if outcomes.len() == 0 {
        stage
    } else {
        apply_run(apply_next(stage, outcomes[0]), outcomes.drop_first())
    }
}

proof fn lemma_aborted_stays(outcomes: Seq<bool>)
    ensures
        apply_run(ApplyStage::Aborted, outcomes) == ApplyStage::Aborted,
    decreases outcomes.len(),
{
    if outcomes.len() > 0 {
        lemma_aborted_stays(outcomes.drop_first());
    }
}

/// A failed resolver start ends the apply: no nft stage ever follows it,
/// whatever happens next, and the apply reports the failure.
pub proof fn resolver_failure_stops_before_nft(outcomes: Seq<bool>)
    ensures
        apply_run(ApplyStage::StartResolver, seq![false] + outcomes) == ApplyStage::Aborted,
        !touches_nft(apply_run(ApplyStage::StartResolver, seq![false] + outcomes)),
{
    assert((seq![false] + outcomes).drop_first() =~= outcomes);
    lemma_aborted_stays(outcomes);
}

/// Each stage is entered only from the one before it, on its success: the
/// addresses are resolved before the resolver starts, and nft rules are
/// loaded only after the resolver started and nft was found.
pub proof fn stages_follow_in_order(stage: ApplyStage, succeeded: bool)
    ensures
        apply_next(stage, succeeded) == ApplyStage::StartResolver ==> stage == ApplyStage::ResolveAddresses,
        apply_next(stage, succeeded) == ApplyStage::CheckNft ==> stage == ApplyStage::StartResolver && succeeded,
        apply_next(stage, succeeded) == ApplyStage::LoadRedirect ==> stage == ApplyStage::CheckNft && succeeded,
        apply_next(stage, succeeded) == ApplyStage::LoadFilter ==> stage == ApplyStage::LoadRedirect && succeeded,
        apply_next(ApplyStage::Aborted, succeeded) == ApplyStage::Aborted,
        apply_next(ApplyStage::Finished, succeeded) == ApplyStage::Finished,
{
}

/// The addresses of one family, in order.
pub open spec fn of_family(ips: Seq<IpAddress>, v4: bool) -> Seq<IpAddress> {
    ips.filter(|ip: IpAddress| (ip is V4) == v4)
}

proof fn lemma_family_texts_filter(ips: Seq<IpAddress>, v4: bool)
    ensures
        family_texts(ips, v4) == of_family(ips, v4).map_values(|ip: IpAddress| ip_display(ip)),
    decreases ips.len(),
{
    reveal(Seq::filter);
    if ips.len() > 0 {
        lemma_family_texts_filter(ips.drop_last(), v4);
        let prev = of_family(ips.drop_last(), v4);
        if (ips.last() is V4) == v4 {
            assert(of_family(ips, v4) == prev.push(ips.last()));
            assert(prev.push(ips.last()).map_values(|ip: IpAddress| ip_display(ip))
                =~= prev.map_values(|ip: IpAddress| ip_display(ip)).push(ip_display(ips.last())));
        } else {
            assert(of_family(ips, v4) == prev);
        }
    }
}

proof fn lemma_family_texts_hold_each(ips: Seq<IpAddress>, v4: bool, i: int)
    requires
        0 <= i < ips.len(),
        (ips[i] is V4) == v4,
    ensures
        family_texts(ips, v4).contains(ip_display(ips[i])),
    decreases ips.len(),
{
    let prev = family_texts(ips.drop_last(), v4);
    if i == ips.len() - 1 {
        assert(family_texts(ips, v4) == prev.push(ip_display(ips.last())));
        assert(family_texts(ips, v4)[prev.len() as int] == ip_display(ips[i]));
    } else {
        lemma_family_texts_hold_each(ips.drop_last(), v4, i);
        assert(ips.drop_last()[i] == ips[i]);
        let k = choose|k: int| 0 <= k < prev.len() && prev[k] == ip_display(ips[i]);
        if (ips.last() is V4) == v4 {
            assert(family_texts(ips, v4)[k] == ip_display(ips[i]));
        } else {
            assert(family_texts(ips, v4)[k] == ip_display(ips[i]));
        }
    }
}

/// Each family's elements line lists the text of exactly the addresses of
/// that family in the set, every one of them, in the set's order, and no
/// others: the IPv4 set gets every IPv4 address and the IPv6 set every IPv6
/// address.
pub proof fn filter_script_lists_every_address_of_its_family(ips: Seq<IpAddress>, i: int)
    ensures
        family_texts(ips, true) == of_family(ips, true).map_values(|ip: IpAddress| ip_display(ip)),
        family_texts(ips, false) == of_family(ips, false).map_values(|ip: IpAddress| ip_display(ip)),
        family_texts(ips, true).len() + family_texts(ips, false).len() == ips.len(),
        0 <= i < ips.len() ==> family_texts(ips, ips[i] is V4).contains(ip_display(ips[i])),
    decreases ips.len(),
{
    lemma_family_texts_filter(ips, true);
    lemma_family_texts_filter(ips, false);
    if ips.len() > 0 {
        filter_script_lists_every_address_of_its_family(ips.drop_last(), 0);
    }
    if 0 <= i < ips.len() {
        lemma_family_texts_hold_each(ips, ips[i] is V4, i);
    }
}

/// Text found inside a part is found at the same place shifted by what
/// precedes the part, whatever follows it.
proof fn lemma_occurs_in_concat(a: Seq<char>, b: Seq<char>, c: Seq<char>, t: Seq<char>, k: int)
    requires
        occurs_at(b, t, k),
    ensures
        occurs_at(a + b + c, t, a.len() + k),
{
    assert((a + b + c).subrange(a.len() + k, a.len() + k + t.len()) =~= b.subrange(k, k + t.len()));
}

proof fn lemma_whole_occurs(t: Seq<char>)
    ensures
        occurs_at(t, t, 0),
{
    assert(t.subrange(0, t.len() as int) =~= t);
}

proof fn lemma_blackhole_lines_hold_each(domains: Seq<Seq<char>>, i: int)
    requires
        0 <= i < domains.len(),
    ensures
        contains(blackhole_lines(domains), blackhole_line(domains[i])),
    decreases domains.len(),
{
    let prev = blackhole_lines(domains.drop_last());
    let last = blackhole_line(domains.last());
    if i == domains.len() - 1 {
        lemma_whole_occurs(last);
        lemma_occurs_in_concat(prev, last, seq![], last, 0);
        assert(prev + last + seq![] =~= blackhole_lines(domains));
        assert(occurs_at(blackhole_lines(domains), last, prev.len() as int));
    } else {
        lemma_blackhole_lines_hold_each(domains.drop_last(), i);
        assert(domains.drop_last()[i] == domains[i]);
        let k = choose|k: int| occurs_at(prev, blackhole_line(domains[i]), k);
        lemma_occurs_in_concat(seq![], prev, last, blackhole_line(domains[i]), k);
        assert(seq![] + prev + last =~= blackhole_lines(domains));
        assert(occurs_at(blackhole_lines(domains), blackhole_line(domains[i]), k));
    }
}

/// The resolver configuration always blackholes the Firefox DoH canary, even
/// with no rules at all.
pub proof fn resolver_config_blackholes_doh_canary(domains: Seq<Seq<char>>, upstream: Seq<char>)
    ensures
        contains(resolver_config(domains, upstream), blackhole_line(FIREFOX_DOH_CANARY@)),
{
    let a = RESOLVER_HEADER@ + PORT_KEY@ + decimal(RESOLVER_PORT as nat) + NEWLINE@ + SERVER_KEY@ + upstream + NEWLINE@;
    let b = blackhole_line(FIREFOX_DOH_CANARY@);
    let c = blackhole_lines(domains);
    lemma_whole_occurs(b);
    lemma_occurs_in_concat(a, b, c, b, 0);
    assert(a + b + c =~= resolver_config(domains, upstream));
    assert(occurs_at(resolver_config(domains, upstream), b, a.len() as int));
}

/// The resolver configuration blackholes every blocked domain.
pub proof fn resolver_config_blackholes_each_domain(domains: Seq<Seq<char>>, upstream: Seq<char>, i: int)
    requires
        0 <= i < domains.len(),
    ensures
        contains(resolver_config(domains, upstream), blackhole_line(domains[i])),
{
    let a = RESOLVER_HEADER@ + PORT_KEY@ + decimal(RESOLVER_PORT as nat) + NEWLINE@ + SERVER_KEY@ + upstream + NEWLINE@
        + blackhole_line(FIREFOX_DOH_CANARY@);
    let b = blackhole_lines(domains);
    lemma_blackhole_lines_hold_each(domains, i);
    let k = choose|k: int| occurs_at(b, blackhole_line(domains[i]), k);
    lemma_occurs_in_concat(a, b, seq![], blackhole_line(domains[i]), k);
    assert(a + b + seq![] =~= resolver_config(domains, upstream));
    assert(occurs_at(resolver_config(domains, upstream), blackhole_line(domains[i]), a.len() + k));
}

/// The redirect script exempts the upstream resolver, and the exemption
/// comes before the redirect rule, so our own resolver's queries upstream
/// are never looped back to itself.
pub proof fn dns_redirect_exempts_upstream_first(upstream: Seq<char>)
    ensures
        ({
            let s = dns_redirect_script(upstream);
            let accept = ACCEPT_OPEN@ + upstream + ACCEPT_CLOSE@;
            exists|a: int, b: int|
                occurs_at(s, accept, a) && occurs_at(s, REDIRECT_OPEN@, b) && a + accept.len() <= b
        }),
{
    let s = dns_redirect_script(upstream);
    let accept = ACCEPT_OPEN@ + upstream + ACCEPT_CLOSE@;
    let head = NAT_OPEN@ + NAT_TABLE@ + NAT_CHAIN_OPEN@;
    let tail = decimal(RESOLVER_PORT as nat) + NEWLINE@ + BLOCK_CLOSE@;
    lemma_whole_occurs(accept);
    lemma_occurs_in_concat(head, accept, REDIRECT_OPEN@ + tail, accept, 0);
    assert(head + accept + (REDIRECT_OPEN@ + tail) =~= s);
    lemma_whole_occurs(REDIRECT_OPEN@);
    lemma_occurs_in_concat(head + accept, REDIRECT_OPEN@, tail, REDIRECT_OPEN@, 0);
    assert((head + accept) + REDIRECT_OPEN@ + tail =~= s);
    assert(occurs_at(s, accept, head.len() as int));
    assert(occurs_at(s, REDIRECT_OPEN@, (head + accept).len() as int));
}

/// The filter script always drops traffic to both blocked sets and all
/// DNS-over-TLS traffic, whatever addresses are blocked.
pub proof fn filter_script_always_drops(v4: Seq<Seq<char>>, v6: Seq<Seq<char>>)
    ensures
        contains(filter_script(v4, v6), DROP_V4@),
        contains(filter_script(v4, v6), DROP_V6@),
        contains(filter_script(v4, v6), DROP_DOT@),
{
    let s = filter_script(v4, v6);
    let head = FILTER_OPEN@ + FILTER_TABLE@ + V4_SET_OPEN@ + elements_line(v4) + SET_CLOSE@ + V6_SET_OPEN@
        + elements_line(v6) + SET_CLOSE@ + CHAIN_OPEN@;
    lemma_whole_occurs(DROP_V4@);
    lemma_whole_occurs(DROP_V6@);
    lemma_whole_occurs(DROP_DOT@);
    lemma_occurs_in_concat(head, DROP_V4@, DROP_V6@ + DROP_DOT@ + BLOCK_CLOSE@, DROP_V4@, 0);
    assert(head + DROP_V4@ + (DROP_V6@ + DROP_DOT@ + BLOCK_CLOSE@) =~= s);
    assert(occurs_at(s, DROP_V4@, head.len() as int));
    lemma_occurs_in_concat(head + DROP_V4@, DROP_V6@, DROP_DOT@ + BLOCK_CLOSE@, DROP_V6@, 0);
    assert((head + DROP_V4@) + DROP_V6@ + (DROP_DOT@ + BLOCK_CLOSE@) =~= s);
    assert(occurs_at(s, DROP_V6@, (head + DROP_V4@).len() as int));
    lemma_occurs_in_concat(head + DROP_V4@ + DROP_V6@, DROP_DOT@, BLOCK_CLOSE@, DROP_DOT@, 0);
    assert((head + DROP_V4@ + DROP_V6@) + DROP_DOT@ + BLOCK_CLOSE@ =~= s);
    assert(occurs_at(s, DROP_DOT@, (head + DROP_V4@ + DROP_V6@).len() as int));
}

/// A family with no addresses gets a set with no `elements` line at all.
pub proof fn empty_family_has_no_elements_line(texts: Seq<Seq<char>>)
    requires
        texts.len() == 0,
    ensures
        elements_line(texts) == Seq::<char>::empty(),
{
}

} // verus!
