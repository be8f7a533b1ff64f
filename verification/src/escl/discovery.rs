//! Discovery: which endpoints are probed, which addresses are local, and the list of devices.

use crate::acquisition::{devices_of, BackendInfo, Device, DeviceInfo};
use crate::error::joined;
use crate::escl::capabilities::{Caps, ScannerCapabilities};
use crate::escl::endpoint::{
    endpoint_of, host_of, ipv4_octets, is_ipv4, is_octet, normalize_host, octet, opt_str,
    parse_endpoint, read_ipv4, targets, Endpoint, Target,
};
use crate::processing::{copy_opt, opt_text};
use crate::text::{
    chars_of, decimal, digits_value, ends_with, find, find_char, has_suffix, lower_all,
    lower_chars, push_decimal, read_unsigned, same_text, split, split_chars, text_of, texts,
    trim, trimmed, unsigned_value,
};
use vstd::prelude::*;
use vstd::slice::slice_subrange;
use vstd::string::StringExecFns;

verus! {

/// Whether network discovery is on: unless its setting is `0`.
pub open spec fn discovery_on(setting: Option<Seq<char>>) -> bool {
    !(setting matches Some(text) && trim(text) == "0"@)
}

/// Whether network discovery is on.
pub fn available(setting: Option<&str>) -> (r: bool)
    ensures
        r == discovery_on(opt_str(setting)),
{
    match setting {
        Some(text) => {
            let chars = chars_of(text);
            !crate::text::same_chars(trimmed(&chars), &chars_of("0"))
        },
        None => true,
    }
}

/// The backend, available where discovery is on or scanners are simulated.
pub fn backend_info(setting: Option<&str>, simulate: bool) -> (r: BackendInfo)
    ensures
        r.id@ == "escl"@,
        r.name@ == "eSCL/AirScan network scanners"@,
        r.available == (discovery_on(opt_str(setting)) || simulate),
{
    BackendInfo {
        id: "escl".to_owned(),
        name: "eSCL/AirScan network scanners".to_owned(),
        available: available(setting) || simulate,
    }
}

// ---------------------------------------------------------------------------
// Explicit hosts
// ---------------------------------------------------------------------------

/// The optional text at an index of a list; none behind its end.
pub open spec fn text_at(texts: Seq<Option<String>>, i: int) -> Option<Seq<char>> {
    if 0 <= i < texts.len() {
        opt_text(texts[i])
    } else {
        None
    }
}

/// The endpoints that the first `n` parts name; a part that names none is left out.
pub open spec fn named_endpoints(
    parts: Seq<Seq<char>>,
    ipv6: Seq<Option<String>>,
    n: int,
) -> Seq<Target>
    decreases n,
{
    if n <= 0 {
        Seq::empty()
    } else {
        let before = named_endpoints(parts, ipv6, n - 1);
        match endpoint_of(parts[n - 1], text_at(ipv6, n - 1)) {
            Some(target) => before.push(target),
            None => before,
        }
    }
}

/// The endpoints of a comma-separated list. The canonical form of a part's IPv6 address stands at the
/// part's index in `ipv6`.
pub fn env_hosts(raw: Option<&str>, ipv6: &Vec<Option<String>>) -> (r: Vec<Endpoint>)
    ensures
        targets(r@) == match raw {
            None => Seq::<Target>::empty(),
            Some(text) => named_endpoints(
                split(text@, ','),
                ipv6@,
                split(text@, ',').len() as int,
            ),
        },
{
    let mut r: Vec<Endpoint> = Vec::new();
    assert(targets(r@) =~= Seq::<Target>::empty());
    let text = match raw {
        Some(text) => text,
        None => {
            return r;
        },
    };
    let chars = chars_of(text);
    let parts = split_chars(&chars, ',');
    let ghost all = split(text@, ',');
    assert(parts@.len() == all.len());
    let mut i: usize = 0;
    while i < parts.len()
        invariant
            i <= parts@.len(),
            parts@.len() == all.len(),
            texts(parts@) == all,
            targets(r@) == named_endpoints(all, ipv6@, i as int),
        decreases parts@.len() - i,
    {
        assert(all[i as int] == parts@[i as int]@) by {
            assert(texts(parts@)[i as int] == parts@[i as int]@);
        }
        let part = text_of(&parts[i]);
        let found = if i < ipv6.len() {
            match &ipv6[i] {
                Some(canonical) => parse_endpoint(part.as_str(), Some(canonical.as_str())),
                None => parse_endpoint(part.as_str(), None),
            }
        } else {
            parse_endpoint(part.as_str(), None)
        };
        let ghost before = targets(r@);
        match found {
            Some(endpoint) => {
                let ghost target = endpoint@;
                r.push(endpoint);
                assert(targets(r@) =~= before.push(target));
            },
            None => {},
        }
        i += 1;
    }
    r
}

// ---------------------------------------------------------------------------
// Local addresses
// ---------------------------------------------------------------------------

/// A network address: the octets of IPv4, or the first segment of IPv6.
#[derive(Debug, Clone, Copy, PartialEq, Eq, Structural)]
pub enum Address {
    V4(u8, u8, u8, u8),
    V6(u16),
}

/// A private or link-local IPv4 address.
pub open spec fn is_local_v4(a: int, b: int) -> bool {
    a == 10 || a == 172 && 16 <= b <= 31 || a == 192 && b == 168 || a == 169 && b == 254
}

/// A private or link-local IPv4 address, by its first two octets.
pub fn ipv4_address_is_local(a: u8, b: u8) -> (r: bool)
    ensures
        r == (a == 10 || (a == 172 && 16 <= b <= 31) || (a == 192 && b == 168) || (a == 169 && b == 254)),
        r == is_local_v4(a as int, b as int),
{
    a == 10 || (a == 172 && 16 <= b && b <= 31) || (a == 192 && b == 168) || (a == 169 && b == 254)
}

/// A local unicast address: private or link-local IPv4, unique local or link-local IPv6.
pub open spec fn is_local(address: Address) -> bool {
    match address {
        Address::V4(a, b, _c, _d) => is_local_v4(a as int, b as int),
        Address::V6(first) => 0xFC00 <= first <= 0xFDFF || 0xFE80 <= first <= 0xFEBF,
    }
}

/// A local unicast address.
pub fn mdns_address_is_local(address: Address) -> (r: bool)
    ensures
        address matches Address::V4(a, b, _, _) ==> r == (a == 10 || (a == 172 && 16 <= b <= 31) || (a == 192
            && b == 168) || (a == 169 && b == 254)),
        address matches Address::V6(first) ==> r == (0xFC00 <= first <= 0xFDFF || 0xFE80 <= first <= 0xFEBF),
        r == is_local(address),
{
    match address {
        Address::V4(a, b, _c, _d) => ipv4_address_is_local(a, b),
        Address::V6(first) => (0xFC00 <= first && first <= 0xFDFF) || (0xFE80 <= first && first
            <= 0xFEBF),
    }
}

/// The local addresses among the first `n`.
pub open spec fn local_addresses(addresses: Seq<Address>, n: int) -> Seq<Address>
    decreases n,
{
    if n <= 0 {
        Seq::empty()
    } else if is_local(addresses[n - 1]) {
        local_addresses(addresses, n - 1).push(addresses[n - 1])
    } else {
        local_addresses(addresses, n - 1)
    }
}

/// The addresses that may be used for a host: for a `.local` name only the local ones, of which there
/// must be one.
pub open spec fn usable_addresses(host: Option<Seq<char>>, addresses: Seq<Address>) -> Option<
    Seq<Address>,
> {
    match host {
        Some(name) => if ends_with(lower_all(name), ".local"@) {
            let kept = local_addresses(addresses, addresses.len() as int);
            if kept.len() == 0 {
                None
            } else {
                Some(kept)
            }
        } else {
            Some(addresses)
        },
        None => Some(addresses),
    }
}

/// The addresses that may be used for a host; none where a `.local` name has no local address.
pub fn filter_mdns_resolved_addresses(host: Option<&str>, addresses: &Vec<Address>) -> (r: Option<
    Vec<Address>,
>)
    ensures
        host is None ==> r is Some && r->0@ == addresses@,
        host is Some && !ends_with(lower_all(host->0@), ".local"@) ==> r is Some && r->0@ == addresses@,
        match r {
            Some(kept) => usable_addresses(opt_str(host), addresses@) == Some(kept@),
            None => usable_addresses(opt_str(host), addresses@) is None,
        },
{
    let restricted = match host {
        Some(name) => {
            let chars = lower_chars(&chars_of(name));
            has_suffix(&chars, &chars_of(".local"))
        },
        None => false,
    };
    if !restricted {
        return Some(vstd::slice::slice_to_vec(addresses.as_slice()));
    }
    let mut kept: Vec<Address> = Vec::new();
    let mut i: usize = 0;
    while i < addresses.len()
        invariant
            i <= addresses@.len(),
            kept@ == local_addresses(addresses@, i as int),
        decreases addresses@.len() - i,
    {
        if mdns_address_is_local(addresses[i]) {
            kept.push(addresses[i]);
        }
        i += 1;
    }
    if kept.len() == 0 {
        None
    } else {
        Some(kept)
    }
}

/// What the filter keeps for a `.local` name is local.
pub proof fn local_names_resolve_locally(host: Seq<char>, addresses: Seq<Address>, i: int)
    requires
        ends_with(lower_all(host), ".local"@),
        usable_addresses(Some(host), addresses) is Some,
        0 <= i < usable_addresses(Some(host), addresses)->0.len(),
    ensures
        is_local(usable_addresses(Some(host), addresses)->0[i]),
{
    lemma_kept_are_local(addresses, addresses.len() as int, i);
}

proof fn lemma_kept_are_local(addresses: Seq<Address>, n: int, i: int)
    requires
        0 <= i < local_addresses(addresses, n).len(),
    ensures
        is_local(local_addresses(addresses, n)[i]),
    decreases n,
{
    if n > 0 && i < local_addresses(addresses, n - 1).len() {
        lemma_kept_are_local(addresses, n - 1, i);
    }
}

// ---------------------------------------------------------------------------
// Announced services
// ---------------------------------------------------------------------------

/// The text without trailing dots.
pub open spec fn undotted(s: Seq<char>) -> Seq<char>
    decreases s.len(),
{
    if s.len() > 0 && s.last() == '.' {
        undotted(s.drop_last())
    } else {
        s
    }
}

fn undot(s: &[char]) -> (r: &[char])
    ensures
        r@ == undotted(s@),
{
    let mut end: usize = s.len();
    assert(s@.take(end as int) =~= s@);
    while end > 0 && s[end - 1] == '.'
        invariant
            end <= s@.len(),
            undotted(s@.take(end as int)) == undotted(s@),
        decreases end,
    {
        assert(s@.take(end as int).drop_last() =~= s@.take(end - 1));
        end -= 1;
    }
    let r = slice_subrange(s, 0, end);
    assert(r@ =~= s@.take(end as int));
    r
}

/// What a network service announces. `literal` is the address that its host name writes, with the
/// canonical text, where the name without trailing dots is an address.
#[derive(Debug)]
pub struct Service {
    pub addresses: Vec<Address>,
    pub port: u16,
    pub https: Option<String>,
    pub hostname: String,
    pub literal: Option<(Address, String)>,
}

/// Whether one of the addresses is local.
pub open spec fn any_local(addresses: Seq<Address>) -> bool {
    exists|i: int| 0 <= i < addresses.len() && is_local(#[trigger] addresses[i])
}

/// The host of a service: its `.local` name, or the local address that its name writes.
pub open spec fn service_host(service: Service) -> Option<Seq<char>> {
    let name = host_of(undotted(service.hostname@));
    if name matches Some(host) && ends_with(host, ".local"@) {
        name
    } else {
        match service.literal {
            Some((address, text)) => if is_local(address) {
                Some(text@)
            } else {
                None
            },
            None => None,
        }
    }
}

/// The endpoint of a service with a local address.
pub open spec fn service_endpoints(service: Service, secure_service: bool) -> Seq<Target> {
    if !any_local(service.addresses@) {
        Seq::empty()
    } else {
        match service_host(service) {
            Some(host) => seq![
                Target {
                    host,
                    port: service.port,
                    secure: secure_service || service.port == 443 || opt_text(service.https) == Some(
                        "1"@,
                    ) || opt_text(service.https) == Some("true"@),
                },
            ],
            None => Seq::empty(),
        }
    }
}

/// The endpoint of a service with a local address.
pub fn endpoints_for_service(service: &Service, secure_service: bool) -> (r: Vec<Endpoint>)
    ensures
        r@.len() <= 1,
        r@.len() == 1 ==> any_local(service.addresses@),
        r@.len() == 1 ==> r@[0].port == service.port,
        r@.len() == 1 ==> (r@[0].secure <==> secure_service || service.port == 443 || (service.https is Some
            && (service.https->0@ == "1"@ || service.https->0@ == "true"@))),
        targets(r@) == service_endpoints(*service, secure_service),
{
    let mut r: Vec<Endpoint> = Vec::new();
    assert(targets(r@) =~= Seq::<Target>::empty());
    let mut local = false;
    let mut i: usize = 0;
    while i < service.addresses.len()
        invariant
            i <= service.addresses@.len(),
            local ==> any_local(service.addresses@),
            !local ==> forall|j: int|
                0 <= j < i ==> !is_local(#[trigger] service.addresses@[j]),
        decreases service.addresses@.len() - i,
    {
        if mdns_address_is_local(service.addresses[i]) {
            local = true;
        }
        i += 1;
    }
    if !local {
        return r;
    }
    let https = match &service.https {
        Some(value) => same_text(value.as_str(), "1") || same_text(value.as_str(), "true"),
        None => false,
    };
    let secure = secure_service || service.port == 443 || https;
    let chars = chars_of(service.hostname.as_str());
    let mut host: Option<String> = None;
    match normalize_host(undot(&chars)) {
        Some(name) => {
            if has_suffix(&name, &chars_of(".local")) {
                host = Some(text_of(&name));
            }
        },
        None => {},
    }
    if host.is_none() {
        match &service.literal {
            Some((address, text)) => {
                if mdns_address_is_local(*address) {
                    host = Some(text.clone());
                }
            },
            None => {},
        }
    }
    match host {
        Some(host) => {
            let endpoint = Endpoint { host, port: service.port, secure };
            let ghost target = endpoint@;
            r.push(endpoint);
            assert(targets(r@) =~= seq![target]);
        },
        None => {},
    }
    r
}

// ---------------------------------------------------------------------------
// Subnets
// ---------------------------------------------------------------------------

/// The octets of an address given as a number, as text.
pub open spec fn dotted(n: int) -> Seq<char> {
    decimal((n / 16777216) as nat) + "."@ + decimal((n / 65536 % 256) as nat) + "."@ + decimal(
        (n / 256 % 256) as nat,
    ) + "."@ + decimal((n % 256) as nat)
}

fn dotted_text(n: u32) -> (r: String)
    ensures
        r@ == dotted(n as int),
{
    let mut r = String::new();
    push_decimal(&mut r, (n / 16777216) as u64);
    assert(r@ =~= decimal((n as int / 16777216) as nat));
    r.append(".");
    push_decimal(&mut r, (n / 65536 % 256) as u64);
    r.append(".");
    push_decimal(&mut r, (n / 256 % 256) as u64);
    r.append(".");
    push_decimal(&mut r, (n % 256) as u64);
    r
}

/// The plain endpoint at an address.
pub open spec fn plain_target(n: int) -> Target {
    Target { host: dotted(n), port: 80, secure: false }
}

/// The first `cap` local addresses from `first` to `last`.
pub open spec fn local_range(first: int, last: int, cap: int) -> Seq<Target>
    decreases last - first + 1,
{
    if first > last || cap <= 0 {
        Seq::empty()
    } else if is_local_v4(first / 16777216, first / 65536 % 256) {
        seq![plain_target(first)] + local_range(first + 1, last, cap - 1)
    } else {
        local_range(first + 1, last, cap)
    }
}

fn range_endpoints(first: u32, last: u32, cap: usize) -> (r: Vec<Endpoint>)
    requires
        last < u32::MAX,
    ensures
        targets(r@) == local_range(first as int, last as int, cap as int),
{
    let mut r: Vec<Endpoint> = Vec::new();
    let mut n: u32 = first;
    let mut left: usize = cap;
    let ghost goal = local_range(first as int, last as int, cap as int);
    assert(targets(r@) + goal =~= goal);
    while n <= last && left > 0
        invariant
            last < u32::MAX,
            targets(r@) + local_range(n as int, last as int, left as int) == goal,
        decreases last + 1 - n,
    {
        let ghost before = targets(r@);
        if ipv4_address_is_local((n / 16777216) as u8, (n / 65536 % 256) as u8) {
            r.push(Endpoint { host: dotted_text(n), port: 80, secure: false });
            left -= 1;
            proof {
                assert(targets(r@) =~= before.push(plain_target(n as int)));
                let rest = local_range(n + 1, last as int, left as int);
                assert(before.push(plain_target(n as int)) + rest =~= before + (seq![
                    plain_target(n as int),
                ] + rest));
            }
        }
        n += 1;
    }
    assert(targets(r@) + Seq::<Target>::empty() =~= targets(r@));
    r
}

/// An address as a number.
pub open spec fn ipv4_number(octets: Seq<int>) -> int {
    octets[0] * 16777216 + octets[1] * 65536 + octets[2] * 256 + octets[3]
}

/// The block of addresses that share the leading bits of an address: how many there are.
pub open spec fn block_size(prefix: int) -> int
    decreases 32 - prefix,
{
    if prefix >= 32 {
        1
    } else {
        2 * block_size(prefix + 1)
    }
}

fn block_of(prefix: u8) -> (r: u32)
    requires
        16 <= prefix <= 30,
    ensures
        r == block_size(prefix as int),
        4 <= r <= 65536,
{
    let mut size: u32 = 1;
    let mut at: u8 = 32;
    while at > prefix
        invariant
            16 <= prefix <= at <= 32,
            size == block_size(at as int),
            size == 1 || at < 32,
            at == 32 ==> size == 1,
            at <= 30 ==> size >= 4,
            at <= 31 ==> size >= 2,
            size <= pow_bound(32 - at),
        decreases at,
    {
        proof {
            assert(pow_bound(32 - at + 1) == 2 * pow_bound(32 - at));
            lemma_pow_bound(32 - at);
        }
        at -= 1;
        size = size * 2;
    }
    proof {
        lemma_pow_bound(32 - at);
        lemma_pow_bound_grows(32 - at, 16);
        reveal_with_fuel(pow_bound, 20);
    }
    size
}

spec fn pow_bound(k: int) -> int
    decreases k,
{
    if k <= 0 {
        1
    } else {
        2 * pow_bound(k - 1)
    }
}

proof fn lemma_pow_bound(k: int)
    requires
        0 <= k <= 16,
    ensures
        1 <= pow_bound(k) <= 65536,
{
    lemma_pow_bound_grows(k, 16);
    lemma_pow_bound_grows(0, k);
    reveal_with_fuel(pow_bound, 20);
}

proof fn lemma_pow_bound_grows(j: int, k: int)
    requires
        0 <= j <= k,
    ensures
        1 <= pow_bound(j) <= pow_bound(k),
    decreases k,
{
    if j < k {
        lemma_pow_bound_grows(j, k - 1);
    } else if j > 0 {
        lemma_pow_bound_grows(j - 1, k - 1);
    }
}

/// The endpoints of a subnet, given as an address with a prefix length from 16 to 30, or as three
/// octets: at most `cap` of them, and only local ones. Without a prefix it is 24.
pub open spec fn subnet_targets(value: Seq<char>, cap: int) -> Seq<Target> {
    let k = find(value, '/');
    let address = if k < value.len() {
        value.take(k)
    } else {
        value
    };
    let prefix = if k < value.len() {
        unsigned_value(value.skip(k + 1), 255)
    } else {
        Some(24)
    };
    match prefix {
        None => Seq::empty(),
        Some(bits) => if is_ipv4(address) {
            if 16 <= bits <= 30 {
                let size = block_size(bits);
                let n = ipv4_number(ipv4_octets(address));
                let base = n - n % size;
                local_range(base + 1, base + size - 2, cap)
            } else {
                Seq::empty()
            }
        } else {
            let parts = split(undotted(address), '.');
            if parts.len() == 3 && is_octet(parts[0]) && is_octet(parts[1]) && is_octet(parts[2]) {
                let base = digits_value(parts[0]) * 16777216 + digits_value(parts[1]) * 65536
                    + digits_value(parts[2]) * 256;
                let count = if cap < 254 {
                    cap
                } else {
                    254
                };
                local_range(base + 1, base + count, cap)
            } else {
                Seq::empty()
            }
        },
    }
}

/// The endpoints of a subnet.
#[verifier::rlimit(40)]
pub fn subnet_candidates(value: &[char], cap: usize) -> (r: Vec<Endpoint>)
    ensures
        targets(r@) == subnet_targets(value@, cap as int),
{
    let none: Vec<Endpoint> = Vec::new();
    assert(targets(none@) =~= Seq::<Target>::empty());
    let k: usize = find_char(value, '/');
    let address = slice_subrange(value, 0, k);
    assert(address@ =~= if k < value@.len() {
        value@.take(k as int)
    } else {
        value@
    });
    let prefix: u64 = if k < value.len() {
        let bits = slice_subrange(value, k + 1, value.len());
        assert(bits@ =~= value@.skip(k + 1));
        match read_unsigned(bits, 255) {
            Some(bits) => bits,
            None => {
                return none;
            },
        }
    } else {
        24
    };
    match read_ipv4(address) {
        Some((a, b, c, d)) => {
            if prefix < 16 || prefix > 30 {
                return none;
            }
            let size: u32 = block_of(prefix as u8);
            let n: u32 = a as u32 * 16777216 + b as u32 * 65536 + c as u32 * 256 + d as u32;
            assert(n == ipv4_number(ipv4_octets(address@)));
            proof {
                lemma_block(n as int, size as int, prefix as int);
            }
            let base: u32 = n - n % size;
            range_endpoints(base + 1, base + (size - 2), cap)
        },
        None => {
            let parts = split_chars(undot(address), '.');
            let ghost all = split(undotted(address@), '.');
            assert(parts@.len() == all.len());
            if parts.len() != 3 {
                return none;
            }
            assert(forall|i: int| 0 <= i < 3 ==> all[i] == (#[trigger] parts@[i])@) by {
                assert(texts(parts@) == all);
            }
            match (octet(&parts[0]), octet(&parts[1]), octet(&parts[2])) {
                (Some(a), Some(b), Some(c)) => {
                    let base: u32 = a as u32 * 16777216 + b as u32 * 65536 + c as u32 * 256;
                    let count: u32 = if cap < 254 {
                        cap as u32
                    } else {
                        254
                    };
                    range_endpoints(base + 1, base + count, cap)
                },
                _ => none,
            }
        },
    }
}

/// A block that starts at its own multiple ends within 32 bits.
proof fn lemma_block(n: int, size: int, prefix: int)
    requires
        0 <= n <= u32::MAX,
        16 <= prefix <= 30,
        size == block_size(prefix),
        4 <= size <= 65536,
    ensures
        0 <= n - n % size,
        n - n % size + size - 1 <= u32::MAX,
{
    lemma_product(prefix);
    let q = block_size(32 - prefix);
    let k = n / size;
    assert(n == k * size + n % size && 0 <= n % size < size) by (nonlinear_arith)
        requires
            k == n / size,
            size > 0,
    ;
    assert(k < q) by (nonlinear_arith)
        requires
            n == k * size + n % size,
            0 <= n % size,
            n < q * size,
            size > 0,
    ;
    assert(k * size + size <= q * size) by (nonlinear_arith)
        requires
            k + 1 <= q,
            size > 0,
    ;
    assert(0 <= n - n % size) by (nonlinear_arith)
        requires
            n == k * size + n % size,
            k >= 0,
            size > 0,
    ;
}

/// The sizes of complementary prefixes multiply to the whole address space.
proof fn lemma_product(prefix: int)
    requires
        0 <= prefix <= 32,
    ensures
        block_size(32 - prefix) * block_size(prefix) == 4294967296,
    decreases prefix,
{
    if prefix == 0 {
        assert(block_size(32) == 1);
        assert(block_size(0) == 4294967296) by {
            reveal_with_fuel(block_size, 34);
        }
    } else {
        lemma_product(prefix - 1);
        let a = block_size(32 - prefix);
        let b = block_size(33 - prefix);
        let c = block_size(prefix - 1);
        let d = block_size(prefix);
        assert(a == 2 * b);
        assert(c == 2 * d);
        assert(a * d == b * c) by (nonlinear_arith)
            requires
                a == 2 * b,
                c == 2 * d,
        ;
    }
}

/// The endpoints of the first `n` subnets of a list.
pub open spec fn subnets_targets(parts: Seq<Seq<char>>, cap: int, n: int) -> Seq<Target>
    decreases n,
{
    if n <= 0 {
        Seq::empty()
    } else {
        subnets_targets(parts, cap, n - 1) + subnet_targets(trim(parts[n - 1]), cap)
    }
}

/// At most `n` elements from the front.
pub open spec fn first_of<T>(s: Seq<T>, n: int) -> Seq<T> {
    if s.len() <= n {
        s
    } else {
        s.take(n)
    }
}

/// The endpoints of a comma-separated list of subnets: at most `limit`, and never more than 64.
pub open spec fn listed_subnets(raw: Option<Seq<char>>, limit: int) -> Seq<Target> {
    let cap = if limit < 64 {
        limit
    } else {
        64
    };
    match raw {
        None => Seq::empty(),
        Some(text) => first_of(
            subnets_targets(split(text, ','), cap, split(text, ',').len() as int),
            cap,
        ),
    }
}

/// The endpoints of a comma-separated list of subnets.
pub fn subnet_endpoints(raw: Option<&str>, limit: usize) -> (r: Vec<Endpoint>)
    ensures
        targets(r@) == listed_subnets(opt_str(raw), limit as int),
        r@.len() <= limit,
        r@.len() <= 64,
{
    let mut r: Vec<Endpoint> = Vec::new();
    assert(targets(r@) =~= Seq::<Target>::empty());
    let text = match raw {
        Some(text) => text,
        None => {
            return r;
        },
    };
    let cap: usize = if limit < 64 {
        limit
    } else {
        64
    };
    let chars = chars_of(text);
    let parts = split_chars(&chars, ',');
    let ghost all = split(text@, ',');
    assert(parts@.len() == all.len());
    let mut i: usize = 0;
    while i < parts.len()
        invariant
            i <= parts@.len(),
            parts@.len() == all.len(),
            texts(parts@) == all,
            targets(r@) == subnets_targets(all, cap as int, i as int),
        decreases parts@.len() - i,
    {
        assert(all[i as int] == parts@[i as int]@) by {
            assert(texts(parts@)[i as int] == parts@[i as int]@);
        }
        let mut found = subnet_candidates(trimmed(&parts[i]), cap);
        let ghost before = r@;
        let ghost more = found@;
        r.append(&mut found);
        assert(targets(before + more) =~= targets(before) + targets(more));
        i += 1;
    }
    let ghost whole = r@;
    assert(targets(whole).len() == whole.len());
    if r.len() > cap {
        r.truncate(cap);
        assert(targets(r@) =~= targets(whole).take(cap as int));
    }
    r
}

// ---------------------------------------------------------------------------
// Probing and listing
// ---------------------------------------------------------------------------

/// The number of hosts that are probed: from 1 to 64.
pub open spec fn host_cap(max_hosts: int) -> int {
    if max_hosts < 1 {
        1
    } else if max_hosts > 64 {
        64
    } else {
        max_hosts
    }
}

/// The endpoints to probe: explicit ones first, then announced ones, then those of subnets, up to the
/// cap.
pub open spec fn probe_targets(
    explicit: Seq<Target>,
    announced: Seq<Target>,
    subnets: Option<Seq<char>>,
    max_hosts: int,
) -> Seq<Target> {
    let cap = host_cap(max_hosts);
    let known = explicit + announced;
    let room = if known.len() < cap {
        cap - known.len()
    } else {
        0
    };
    first_of(known + listed_subnets(subnets, room), cap)
}

/// The endpoints to probe.
pub fn plan_probes(
    explicit: Vec<Endpoint>,
    announced: Vec<Endpoint>,
    subnets: Option<&str>,
    max_hosts: usize,
) -> (r: Vec<Endpoint>)
    ensures
        targets(r@) == probe_targets(
            targets(explicit@),
            targets(announced@),
            opt_str(subnets),
            max_hosts as int,
        ),
        r@.len() <= 64,
{
    let cap: usize = if max_hosts < 1 {
        1
    } else if max_hosts > 64 {
        64
    } else {
        max_hosts
    };
    let mut r = explicit;
    let mut more = announced;
    r.append(&mut more);
    assert(targets(explicit@ + announced@) =~= targets(explicit@) + targets(announced@));
    let room: usize = if r.len() < cap {
        cap - r.len()
    } else {
        0
    };
    let ghost known = r@;
    let mut last = subnet_endpoints(subnets, room);
    let ghost extra = last@;
    r.append(&mut last);
    assert(targets(known + extra) =~= targets(known) + targets(extra));
    let ghost whole = r@;
    assert(targets(whole).len() == whole.len());
    if r.len() > cap {
        r.truncate(cap);
        assert(targets(r@) =~= targets(whole).take(cap as int));
    }
    r
}

/// The device of an endpoint that answered with its capabilities.
pub open spec fn probed_device(target: Target, caps: Caps) -> Device {
    Device {
        id: target.device_id(),
        name: match caps.make_and_model {
            Some(name) => name,
            None => "eSCL scanner @ "@ + target.host + ":"@ + decimal(target.port as nat),
        },
        backend: "escl"@,
    }
}

/// The device of an endpoint that answered with its capabilities.
pub fn probe_endpoint(endpoint: &Endpoint, capabilities: &ScannerCapabilities) -> (r: DeviceInfo)
    ensures
        r.id@ == endpoint@.device_id(),
        capabilities.make_and_model is Some ==> r.name@ == capabilities.make_and_model->0@,
        capabilities.make_and_model is None ==> r.name@ == "eSCL scanner @ "@ + endpoint.host@ + ":"@ + decimal(
            endpoint.port as nat,
        ),
        r.backend@ == "escl"@,
        r@ == probed_device(endpoint@, capabilities@),
{
    let name = match copy_opt(&capabilities.make_and_model) {
        Some(name) => name,
        None => {
            let mut text = joined("eSCL scanner @ ", endpoint.host.as_str());
            text.append(":");
            push_decimal(&mut text, endpoint.port as u64);
            text
        },
    };
    DeviceInfo::new(endpoint.device_id(), name, "escl")
}

/// Whether indices rise.
pub open spec fn rising(found: Seq<(usize, DeviceInfo)>) -> bool {
    forall|i: int, j: int| 0 <= i < j < found.len() ==> found[i].0 <= found[j].0
}

/// Devices in the order of the endpoints that they were found at, each with its index.
pub fn sort_found(found: Vec<(usize, DeviceInfo)>) -> (r: Vec<(usize, DeviceInfo)>)
    ensures
        rising(r@),
        r@.to_multiset() == found@.to_multiset(),
{
    let mut rest = found;
    let mut r: Vec<(usize, DeviceInfo)> = Vec::new();
    proof {
        found@.to_multiset_ensures();
        r@.to_multiset_ensures();
        assert(r@.to_multiset().add(rest@.to_multiset()) =~= found@.to_multiset());
    }
    while rest.len() > 0
        invariant
            rising(r@),
            r@.to_multiset().add(rest@.to_multiset()) == found@.to_multiset(),
        decreases rest@.len(),
    {
        let ghost rest0 = rest@;
        let item = rest.remove(0);
        let mut at: usize = r.len();
        while at > 0 && r[at - 1].0 > item.0
            invariant
                at <= r@.len(),
                rising(r@),
                forall|j: int| at <= j < r@.len() ==> item.0 < r@[j].0,
            decreases at,
        {
            at -= 1;
        }
        let ghost before = r@;
        r.insert(at, item);
        proof {
            assert(r@ =~= before.insert(at as int, item));
            before.to_multiset_ensures();
            rest0.to_multiset_ensures();
            assert(rest0.remove(0) =~= rest@);
            r@.to_multiset_ensures();
            assert(r@.remove(at as int) =~= before);
            assert(r@[at as int] == item);
            assert(r@.contains(item));
            assert(r@.to_multiset() =~= before.to_multiset().insert(item));
            assert(rest@.to_multiset() =~= rest0.to_multiset().remove(rest0[0]));
            assert(r@.to_multiset().add(rest@.to_multiset()) =~= found@.to_multiset());
            assert forall|i: int, j: int| 0 <= i < j < r@.len() implies r@[i].0 <= r@[j].0 by {
                if i < at && j < at {
                    assert(before[i].0 <= before[j].0);
                } else if i < at && j == at {
                    assert(before[i].0 <= before[at - 1].0);
                } else if i < at {
                    assert(before[i].0 <= before[j - 1].0);
                } else if i > at {
                    assert(before[i - 1].0 <= before[j - 1].0);
                }
            }
        }
    }
    proof {
        rest@.to_multiset_ensures();
        assert(rest@ =~= Seq::empty());
        assert(r@.to_multiset() =~= found@.to_multiset());
    }
    r
}

/// Whether a device with an id is listed.
pub open spec fn has_device(devices: Seq<Device>, id: Seq<char>) -> bool {
    exists|i: int| 0 <= i < devices.len() && (#[trigger] devices[i]).id == id
}

/// Whether a device with an id is listed.
pub fn lists_device(devices: &Vec<DeviceInfo>, id: &str) -> (r: bool)
    ensures
        r == has_device(devices_of(devices@), id@),
{
    let mut i: usize = 0;
    while i < devices.len()
        invariant
            i <= devices@.len(),
            forall|j: int| 0 <= j < i ==> (#[trigger] devices_of(devices@)[j]).id != id@,
        decreases devices@.len() - i,
    {
        assert(devices_of(devices@)[i as int].id == devices@[i as int].id@);
        if same_text(devices[i].id.as_str(), id) {
            return true;
        }
        i += 1;
    }
    false
}

/// The simulated device.
pub open spec fn simulated_device() -> Device {
    Device { id: "escl:sim"@, name: "eSCL Simulated Scanner"@, backend: "escl"@ }
}

/// The devices of a discovery: none where it is off or was cancelled, and the simulated one added
/// where scanners are simulated.
pub open spec fn discovered(
    on: bool,
    simulate: bool,
    cancelled: bool,
    found: Seq<Device>,
) -> Seq<Device> {
    if !on && !simulate || cancelled {
        Seq::empty()
    } else if simulate && !has_device(found, "escl:sim"@) {
        found.push(simulated_device())
    } else {
        found
    }
}

/// The devices of a discovery, from what the probes found.
#[verifier::spinoff_prover]
#[verifier::rlimit(60)]
pub fn discover_devices(on: bool, simulate: bool, cancelled: bool, found: Vec<DeviceInfo>) -> (r: Vec<
    DeviceInfo,
>)
    ensures
        cancelled || (!on && !simulate) ==> r@.len() == 0,
        on && !simulate && !cancelled ==> devices_of(r@) == devices_of(found@),
        simulate && !cancelled ==> exists|i: int| 0 <= i < r@.len() && (#[trigger] r@[i]).id@ == "escl:sim"@,
        simulate && !cancelled ==> r@.len() >= found@.len() && devices_of(r@).take(found@.len() as int)
            == devices_of(found@),
        devices_of(r@) == discovered(on, simulate, cancelled, devices_of(found@)),
{
    if (!on && !simulate) || cancelled {
        let none: Vec<DeviceInfo> = Vec::new();
        assert(devices_of(none@) =~= Seq::<Device>::empty());
        return none;
    }
    let mut r = found;
    if simulate && !lists_device(&r, "escl:sim") {
        r.push(
            DeviceInfo::new(
                "escl:sim".to_owned(),
                "eSCL Simulated Scanner".to_owned(),
                "escl",
            ),
        );
        assert(devices_of(r@) =~= devices_of(found@).push(simulated_device()));
        assert(devices_of(r@)[r@.len() - 1] == r@[r@.len() - 1]@);
    }
    proof {
        if simulate {
            let i = choose|i: int|
                0 <= i < r@.len() && (#[trigger] devices_of(r@)[i]).id == "escl:sim"@;
            assert(r@[i].id@ == devices_of(r@)[i].id);
        }
        assert(devices_of(r@).take(found@.len() as int) =~= devices_of(found@));
    }
    r
}

/// The devices of the last discovery, where there was one.
#[derive(Debug)]
pub struct DeviceCache {
    devices: Option<Vec<DeviceInfo>>,
}

impl View for DeviceCache {
    type V = Option<Seq<Device>>;

    closed spec fn view(&self) -> Option<Seq<Device>> {
        match self.devices {
            Some(devices) => Some(devices_of(devices@)),
            None => None,
        }
    }
}

fn copy_devices(devices: &Vec<DeviceInfo>) -> (r: Vec<DeviceInfo>)
    ensures
        devices_of(r@) == devices_of(devices@),
{
    let mut r: Vec<DeviceInfo> = Vec::new();
    let mut i: usize = 0;
    while i < devices.len()
        invariant
            i <= devices@.len(),
            devices_of(r@) == devices_of(devices@).take(i as int),
        decreases devices@.len() - i,
    {
        let ghost before = devices_of(r@);
        r.push(devices[i].clone());
        assert(devices_of(r@) =~= before.push(devices_of(devices@)[i as int]));
        i += 1;
        assert(devices_of(r@) =~= devices_of(devices@).take(i as int));
    }
    assert(devices_of(devices@).take(i as int) =~= devices_of(devices@));
    r
}

impl DeviceCache {
    /// Nothing was discovered yet.
    pub fn new() -> (r: Self)
        ensures
            r@ is None,
    {
        DeviceCache { devices: None }
    }

    /// The devices of the last discovery.
    pub fn cached(&self) -> (r: Option<Vec<DeviceInfo>>)
        ensures
            match r {
                Some(devices) => self@ == Some(devices_of(devices@)),
                None => self@ is None,
            },
    {
        match &self.devices {
            Some(devices) => Some(copy_devices(devices)),
            None => None,
        }
    }

    /// Keeps the devices of a fresh discovery and gives them.
    pub fn refresh_devices(&mut self, fresh: Vec<DeviceInfo>) -> (r: Vec<DeviceInfo>)
        ensures
            devices_of(r@) == devices_of(fresh@),
            final(self)@ == Some(devices_of(fresh@)),
    {
        let r = copy_devices(&fresh);
        self.devices = Some(fresh);
        r
    }
}

/// The devices of the last discovery; where there was none, those of the one made now, which is
/// kept.
pub fn list_escl_devices_safe(cache: &mut DeviceCache, fresh: Vec<DeviceInfo>) -> (r: Vec<DeviceInfo>)
    ensures
        devices_of(r@) == match old(cache)@ {
            Some(devices) => devices,
            None => devices_of(fresh@),
        },
        final(cache)@ == Some(devices_of(r@)),
{
    match cache.cached() {
        Some(devices) => devices,
        None => cache.refresh_devices(fresh),
    }
}

/// The devices for an operation that can be cancelled: none once it is, else those of the last
/// discovery, else those of the one made now, which is not kept.
pub fn list_escl_devices_safe_with_cancellation(
    cache: &DeviceCache,
    cancelled: bool,
    fresh: Vec<DeviceInfo>,
) -> (r: Vec<DeviceInfo>)
    ensures
        devices_of(r@) == if cancelled {
            Seq::<Device>::empty()
        } else {
            match cache@ {
                Some(devices) => devices,
                None => devices_of(fresh@),
            }
        },
{
    if cancelled {
        let none: Vec<DeviceInfo> = Vec::new();
        assert(devices_of(none@) =~= Seq::<Device>::empty());
        return none;
    }
    match cache.cached() {
        Some(devices) => devices,
        None => fresh,
    }
}

proof fn lemma_all_local_kept(addresses: Seq<Address>, n: int, j: int)
    requires
        0 <= j < n <= addresses.len(),
        is_local(addresses[j]),
    ensures
        local_addresses(addresses, n).contains(addresses[j]),
    decreases n,
{
    let kept = local_addresses(addresses, n);
    if j == n - 1 {
        assert(kept.last() == addresses[j]);
        assert(kept[kept.len() - 1] == addresses[j]);
    } else {
        lemma_all_local_kept(addresses, n - 1, j);
        let before = local_addresses(addresses, n - 1);
        let k = choose|k: int| 0 <= k < before.len() && before[k] == addresses[j];
        assert(kept[k] == addresses[j]);
    }
}

/// A `.local` name that has a local address keeps each of its local addresses; one that has none cannot be
/// used.
pub proof fn local_addresses_are_kept(host: Seq<char>, addresses: Seq<Address>, j: int)
    requires
        ends_with(lower_all(host), ".local"@),
        0 <= j < addresses.len(),
        is_local(addresses[j]),
    ensures
        usable_addresses(Some(host), addresses) is Some,
        usable_addresses(Some(host), addresses)->0.contains(addresses[j]),
{
    lemma_all_local_kept(addresses, addresses.len() as int, j);
}

/// Whether a target is the plain endpoint at a local address: four numbers below 256 with dots between
/// them, the most significant first, at port 80.
pub open spec fn is_plain_local(target: Target, n: int, a: nat, b: nat, c: nat, d: nat) -> bool {
    &&& a < 256 && b < 256 && c < 256 && d < 256
    &&& n == a * 16777216 + b * 65536 + c * 256 + d
    &&& a == 10 || (a == 172 && 16 <= b <= 31) || (a == 192 && b == 168) || (a == 169 && b == 254)
    &&& target.host == decimal(a) + "."@ + decimal(b) + "."@ + decimal(c) + "."@ + decimal(d)
    &&& target.port == 80
    &&& !target.secure
}

/// Whether a target is the plain endpoint at the local address with a number.
pub open spec fn is_local_endpoint(target: Target, n: int) -> bool {
    exists|a: nat, b: nat, c: nat, d: nat| #[trigger] is_plain_local(target, n, a, b, c, d)
}

proof fn lemma_plain_local(n: int)
    requires
        0 <= n < 0x1_0000_0000,
        is_local_v4(n / 16777216, n / 65536 % 256),
    ensures
        is_local_endpoint(plain_target(n), n),
{
    let a = (n / 16777216) as nat;
    let b = (n / 65536 % 256) as nat;
    let c = (n / 256 % 256) as nat;
    let d = (n % 256) as nat;
    assert(n == a * 16777216 + b * 65536 + c * 256 + d && a < 256) by {
        assert(n == 256 * (n / 256) + n % 256);
        assert(n / 256 == 256 * (n / 65536) + n / 256 % 256);
        assert(n / 65536 == 256 * (n / 16777216) + n / 65536 % 256);
    }
    assert(is_plain_local(plain_target(n), n, a, b, c, d));
}

/// Each endpoint of a subnet is the plain endpoint at a local address of it, no more than the limit are
/// taken, and the lower addresses come first.
pub proof fn subnets_give_local_endpoints(first: int, last: int, cap: int, i: int) -> (n: int)
    requires
        0 <= first,
        last < 0x1_0000_0000,
        0 <= i < local_range(first, last, cap).len(),
    ensures
        local_range(first, last, cap).len() <= cap,
        first + i <= n <= last,
        is_local_endpoint(local_range(first, last, cap)[i], n),
    decreases last - first + 1,
{
    let all = local_range(first, last, cap);
    lemma_range_len(first, last, cap);
    if is_local_v4(first / 16777216, first / 65536 % 256) {
        let rest = local_range(first + 1, last, cap - 1);
        assert(all == seq![plain_target(first)] + rest);
        if i == 0 {
            lemma_plain_local(first);
            assert(all[0] == plain_target(first));
            first
        } else {
            assert(all[i] == rest[i - 1]);
            subnets_give_local_endpoints(first + 1, last, cap - 1, i - 1)
        }
    } else {
        subnets_give_local_endpoints(first + 1, last, cap, i)
    }
}

proof fn lemma_range_len(first: int, last: int, cap: int)
    requires
        cap >= 0,
    ensures
        local_range(first, last, cap).len() <= cap,
    decreases last - first + 1,
{
    if first <= last && cap > 0 {
        if is_local_v4(first / 16777216, first / 65536 % 256) {
            lemma_range_len(first + 1, last, cap - 1);
        } else {
            lemma_range_len(first + 1, last, cap);
        }
    }
}

/// Explicit hosts are probed before announced ones and those before subnets; at least one host and never
/// more than 64 can be probed.
#[verifier::spinoff_prover]
#[verifier::rlimit(60)]
pub proof fn explicit_hosts_are_probed_first(
    explicit: Seq<Target>,
    announced: Seq<Target>,
    subnets: Option<Seq<char>>,
    max_hosts: int,
    i: int,
)
    requires
        0 <= i < probe_targets(explicit, announced, subnets, max_hosts).len(),
    ensures
        probe_targets(explicit, announced, subnets, max_hosts).len() <= 64,
        max_hosts >= 1 ==> probe_targets(explicit, announced, subnets, max_hosts).len() <= max_hosts,
        i < explicit.len() ==> probe_targets(explicit, announced, subnets, max_hosts)[i] == explicit[i],
        explicit.len() <= i < explicit.len() + announced.len() ==> probe_targets(
            explicit,
            announced,
            subnets,
            max_hosts,
        )[i] == announced[i - explicit.len()],
        explicit.len() <= max_hosts && explicit.len() <= 64 ==> probe_targets(
            explicit,
            announced,
            subnets,
            max_hosts,
        ).take(explicit.len() as int) == explicit,
{
    let all = probe_targets(explicit, announced, subnets, max_hosts);
    if explicit.len() <= max_hosts && explicit.len() <= 64 {
        assert(all.take(explicit.len() as int) =~= explicit);
    }
}

/// A block of addresses halves with each further bit of the prefix, down to a single address.
pub proof fn blocks_halve(prefix: int)
    requires
        0 <= prefix <= 32,
    ensures
        block_size(32) == 1,
        prefix < 32 ==> block_size(prefix) == 2 * block_size(prefix + 1),
        block_size(30) == 4,
        block_size(24) == 256,
        block_size(16) == 65536,
{
    reveal_with_fuel(block_size, 18);
}

proof fn lemma_octet(s: Seq<char>)
    requires
        is_octet(s),
    ensures
        0 <= digits_value(s) <= 255,
{
    crate::text::lemma_digits_grow(s, 0);
    assert(s.take(0) =~= Seq::<char>::empty());
}

proof fn lemma_smallest_block(prefix: int)
    requires
        prefix <= 32,
    ensures
        block_size(prefix) >= 1,
        prefix <= 31 ==> block_size(prefix) >= 2,
        prefix <= 30 ==> block_size(prefix) >= 4,
    decreases 32 - prefix,
{
    if prefix < 32 {
        lemma_smallest_block(prefix + 1);
    }
}

proof fn lemma_largest_block(prefix: int)
    requires
        16 <= prefix <= 32,
    ensures
        block_size(prefix) <= 65536,
    decreases prefix,
{
    if prefix == 16 {
        blocks_halve(16);
    } else {
        lemma_largest_block(prefix - 1);
        lemma_smallest_block(prefix);
    }
}

/// A subnet given with a prefix is probed at the local addresses of its block, without the first and the
/// last, which name the network and all of its hosts.
pub proof fn subnets_are_probed_inside_their_block(value: Seq<char>, k: int, cap: int, i: int) -> (n: int)
    requires
        0 <= k < value.len(),
        value[k] == '/',
        forall|j: int| 0 <= j < k ==> value[j] != '/',
        is_ipv4(value.take(k)),
        0 <= i < subnet_targets(value, cap).len(),
    ensures
        unsigned_value(value.skip(k + 1), 255) matches Some(bits) && 16 <= bits <= 30 && ({
            let size = block_size(bits);
            let number = ipv4_number(ipv4_octets(value.take(k)));
            &&& number - number % size < n < number - number % size + size - 1
            &&& is_local_endpoint(subnet_targets(value, cap)[i], n)
        }),
        subnet_targets(value, cap).len() <= cap,
{
    crate::text::lemma_find_is(value, '/', k);
    let bits = unsigned_value(value.skip(k + 1), 255)->0;
    let size = block_size(bits);
    let number = ipv4_number(ipv4_octets(value.take(k)));
    let base = number - number % size;
    lemma_smallest_block(bits);
    lemma_largest_block(bits);
    let parts = split(value.take(k), '.');
    assert(ipv4_octets(value.take(k)) =~= parts.map_values(
        |part: Seq<char>| digits_value(part),
    ));
    lemma_octet(parts[0]);
    lemma_octet(parts[1]);
    lemma_octet(parts[2]);
    lemma_octet(parts[3]);
    lemma_block(number, size, bits);
    subnets_give_local_endpoints(base + 1, base + size - 2, cap, i)
}

} // verus!
