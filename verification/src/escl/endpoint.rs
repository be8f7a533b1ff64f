//! Scanner endpoints: parsing, canonical ids and request URLs.

use crate::text::{
    all_digits, chars_of, copied, decimal, digits_value, find, find_char, has_prefix, is_digit,
    is_space, lemma_decimal, lemma_find, lemma_find_is, lower, lower_all, lower_chars, push_decimal,
    read_digits, same_chars, same_text, space, split, split_chars, starts_with, text_of, texts,
};
use vstd::prelude::*;
use vstd::slice::slice_subrange;
use vstd::string::StringExecFns;

verus! {

/// A scanner that answers HTTP requests.
#[derive(Debug, PartialEq, Eq)]
pub struct Endpoint {
    pub host: String,
    pub port: u16,
    pub secure: bool,
}

/// An endpoint with its host as a sequence.
pub struct Target {
    pub host: Seq<char>,
    pub port: u16,
    pub secure: bool,
}

impl View for Endpoint {
    type V = Target;

    open spec fn view(&self) -> Target {
        Target { host: self.host@, port: self.port, secure: self.secure }
    }
}

impl Clone for Endpoint {
    fn clone(&self) -> (r: Self)
        ensures
            r@ == self@,
    {
        Endpoint { host: self.host.clone(), port: self.port, secure: self.secure }
    }
}

/// The endpoint in an option.
pub open spec fn opt_target(o: Option<Endpoint>) -> Option<Target> {
    match o {
        Some(endpoint) => Some(endpoint@),
        None => None,
    }
}

/// The endpoints that a vector holds.
pub open spec fn targets(v: Seq<Endpoint>) -> Seq<Target> {
    v.map_values(|e: Endpoint| e@)
}

impl Target {
    /// The URL of a path at the endpoint; an IPv6 host stands in brackets.
    pub open spec fn url(self, path: Seq<char>) -> Seq<char> {
        (if self.secure {
            "https"@
        } else {
            "http"@
        }) + "://"@ + (if find(self.host, ':') < self.host.len() && !starts_with(self.host, "["@) {
            "["@ + self.host + "]"@
        } else {
            self.host
        }) + ":"@ + decimal(self.port as nat) + path
    }

    /// The device id of the endpoint.
    pub open spec fn device_id(self) -> Seq<char> {
        (if self.secure {
            "escl:https@"@
        } else {
            "escl:"@
        }) + (if find(self.host, ':') < self.host.len() {
            "["@ + self.host + "]"@
        } else {
            self.host
        }) + ":"@ + decimal(self.port as nat)
    }
}

impl Endpoint {
    /// The URL of a path at the endpoint.
    pub fn url(&self, path: &str) -> (r: String)
        ensures
            r@ == self@.url(path@),
    {
        let mut r = if self.secure {
            "https".to_owned()
        } else {
            "http".to_owned()
        };
        r.append("://");
        let host = chars_of(self.host.as_str());
        if find_char(&host, ':') < host.len() && !has_prefix(&host, &chars_of("[")) {
            let mut bracketed = "[".to_owned();
            bracketed.append(self.host.as_str());
            bracketed.append("]");
            r.append(bracketed.as_str());
        } else {
            r.append(self.host.as_str());
        }
        r.append(":");
        push_decimal(&mut r, self.port as u64);
        r.append(path);
        r
    }

    /// The device id of the endpoint.
    pub fn device_id(&self) -> (r: String)
        ensures
            r@ == self@.device_id(),
    {
        let mut r = if self.secure {
            "escl:https@".to_owned()
        } else {
            "escl:".to_owned()
        };
        let host = chars_of(self.host.as_str());
        if find_char(&host, ':') < host.len() {
            let mut bracketed = "[".to_owned();
            bracketed.append(self.host.as_str());
            bracketed.append("]");
            r.append(bracketed.as_str());
        } else {
            r.append(self.host.as_str());
        }
        r.append(":");
        push_decimal(&mut r, self.port as u64);
        r
    }

    /// Whether two endpoints are the same.
    pub fn same(&self, other: &Endpoint) -> (r: bool)
        ensures
            r == (self@ == other@),
    {
        same_text(self.host.as_str(), other.host.as_str()) && self.port == other.port
            && self.secure == other.secure
    }
}

// ---------------------------------------------------------------------------
// Characters and small parts
// ---------------------------------------------------------------------------

/// A control character.
pub open spec fn is_control(c: char) -> bool {
    c as u32 <= 0x1F || 0x7F <= c as u32 <= 0x9F
}

/// White space or a control character.
pub open spec fn is_unclean(c: char) -> bool {
    is_space(c) || is_control(c)
}

/// Whether no character is white space or a control character.
pub open spec fn is_clean(s: Seq<char>) -> bool {
    forall|i: int| 0 <= i < s.len() ==> !is_unclean(#[trigger] s[i])
}

/// Whether no character is white space or a control character.
pub fn clean(s: &[char]) -> (r: bool)
    ensures
        r == is_clean(s@),
{
    let mut i: usize = 0;
    while i < s.len()
        invariant
            i <= s@.len(),
            forall|j: int| 0 <= j < i ==> !is_unclean(#[trigger] s@[j]),
        decreases s@.len() - i,
    {
        let n: u32 = s[i] as u32;
        if space(s[i]) || n <= 0x1F || (0x7F <= n && n <= 0x9F) {
            assert(is_unclean(s@[i as int]));
            return false;
        }
        i += 1;
    }
    true
}

/// An octet of a dotted address: decimal, at most 255, without leading zeros.
pub open spec fn is_octet(s: Seq<char>) -> bool {
    1 <= s.len() <= 3 && all_digits(s) && (s.len() == 1 || s[0] != '0') && digits_value(s) <= 255
}

/// The value of an octet.
pub fn octet(s: &[char]) -> (r: Option<u8>)
    ensures
        r is Some <==> is_octet(s@),
        r is Some ==> r->0 == digits_value(s@),
{
    if s.len() == 0 || s.len() > 3 || (s.len() > 1 && s[0] == '0') {
        return None;
    }
    match read_digits(s, 255) {
        Some(value) => Some(value as u8),
        None => None,
    }
}

/// A dotted IPv4 address.
pub open spec fn is_ipv4(s: Seq<char>) -> bool {
    let parts = split(s, '.');
    parts.len() == 4 && is_octet(parts[0]) && is_octet(parts[1]) && is_octet(parts[2]) && is_octet(
        parts[3],
    )
}

/// The octets of a dotted IPv4 address.
pub open spec fn ipv4_octets(s: Seq<char>) -> Seq<int> {
    split(s, '.').map_values(|part: Seq<char>| digits_value(part))
}

/// The octets of a dotted IPv4 address, where the text is one.
pub fn read_ipv4(s: &[char]) -> (r: Option<(u8, u8, u8, u8)>)
    ensures
        r is Some <==> is_ipv4(s@),
        r is Some ==> ipv4_octets(s@) == seq![
            (r->0).0 as int,
            (r->0).1 as int,
            (r->0).2 as int,
            (r->0).3 as int,
        ],
{
    let parts = split_chars(s, '.');
    if parts.len() != 4 {
        assert(split(s@, '.').len() == parts@.len());
        return None;
    }
    assert(forall|i: int| 0 <= i < 4 ==> split(s@, '.')[i] == (#[trigger] parts@[i])@);
    let a = octet(&parts[0]);
    let b = octet(&parts[1]);
    let c = octet(&parts[2]);
    let d = octet(&parts[3]);
    match (a, b, c, d) {
        (Some(a), Some(b), Some(c), Some(d)) => {
            assert(ipv4_octets(s@) =~= seq![a as int, b as int, c as int, d as int]);
            Some((a, b, c, d))
        },
        _ => None,
    }
}

/// A letter or digit of ASCII, or a hyphen.
pub open spec fn is_label_char(c: char) -> bool {
    is_digit(c) || 'a' <= c <= 'z' || 'A' <= c <= 'Z' || c == '-'
}

/// A label of a host name.
pub open spec fn is_label(s: Seq<char>) -> bool {
    1 <= s.len() <= 63 && s[0] != '-' && s.last() != '-' && forall|i: int|
        0 <= i < s.len() ==> is_label_char(#[trigger] s[i])
}

fn label(s: &[char]) -> (r: bool)
    ensures
        r == is_label(s@),
{
    if s.len() == 0 || s.len() > 63 || s[0] == '-' || s[s.len() - 1] == '-' {
        return false;
    }
    let mut i: usize = 0;
    while i < s.len()
        invariant
            i <= s@.len(),
            forall|j: int| 0 <= j < i ==> is_label_char(#[trigger] s@[j]),
        decreases s@.len() - i,
    {
        let c = s[i];
        if !(('0' <= c && c <= '9') || ('a' <= c && c <= 'z') || ('A' <= c && c <= 'Z') || c
            == '-') {
            assert(!is_label_char(s@[i as int]));
            return false;
        }
        i += 1;
    }
    true
}

/// Whether every part is a label.
pub open spec fn all_labels(parts: Seq<Seq<char>>) -> bool {
    forall|i: int| 0 <= i < parts.len() ==> is_label(#[trigger] parts[i])
}

/// Whether a text looks like a dotted address: only digits and dots, and at least one dot.
pub open spec fn looks_numeric(s: Seq<char>) -> bool {
    find(s, '.') < s.len() && forall|i: int|
        0 <= i < s.len() ==> is_digit(#[trigger] s[i]) || s[i] == '.'
}

fn numeric(s: &[char]) -> (r: bool)
    ensures
        r == looks_numeric(s@),
{
    if find_char(s, '.') == s.len() {
        return false;
    }
    let mut i: usize = 0;
    while i < s.len()
        invariant
            i <= s@.len(),
            forall|j: int| 0 <= j < i ==> is_digit(#[trigger] s@[j]) || s@[j] == '.',
        decreases s@.len() - i,
    {
        let c = s[i];
        if !(('0' <= c && c <= '9') || c == '.') {
            assert(!is_digit(s@[i as int]));
            return false;
        }
        i += 1;
    }
    proof {
        lemma_find(s@, '.');
    }
    true
}

/// The canonical form of a host: a dotted address as it is, a name in lower case. A text of
/// digits and dots that is no address, and anything that is no host name, has none.
pub open spec fn host_of(s: Seq<char>) -> Option<Seq<char>> {
    if s.len() == 0 {
        None
    } else if is_ipv4(s) {
        Some(s)
    } else if looks_numeric(s) {
        None
    } else if s.len() <= 253 && all_labels(split(s, '.')) {
        Some(lower_all(s))
    } else {
        None
    }
}

/// The canonical form of a host.
pub fn normalize_host(s: &[char]) -> (r: Option<Vec<char>>)
    ensures
        match r {
            Some(host) => host_of(s@) == Some(host@),
            None => host_of(s@) is None,
        },
{
    if s.len() == 0 {
        return None;
    }
    if read_ipv4(s).is_some() {
        return Some(copied(s));
    }
    if numeric(s) {
        return None;
    }
    if s.len() > 253 {
        return None;
    }
    let parts = split_chars(s, '.');
    assert(parts@.len() == split(s@, '.').len());
    let mut i: usize = 0;
    while i < parts.len()
        invariant
            i <= parts@.len(),
            texts(parts@) == split(s@, '.'),
            forall|j: int| 0 <= j < i ==> is_label(#[trigger] split(s@, '.')[j]),
        decreases parts@.len() - i,
    {
        assert(split(s@, '.')[i as int] == parts@[i as int]@);
        if !label(&parts[i]) {
            return None;
        }
        i += 1;
    }
    Some(lower_chars(s))
}

/// The port that follows a host: the default where nothing follows, else a colon and a decimal
/// number from 1 to 65535.
pub open spec fn port_of(suffix: Seq<char>, default_port: u16) -> Option<u16> {
    if suffix.len() == 0 {
        Some(default_port)
    } else if suffix[0] != ':' {
        None
    } else {
        let digits = suffix.skip(1);
        if digits.len() > 0 && all_digits(digits) && 1 <= digits_value(digits) <= 65535 {
            Some(digits_value(digits) as u16)
        } else {
            None
        }
    }
}

/// The port that follows a host.
pub fn parse_endpoint_port(suffix: &[char], default_port: u16) -> (r: Option<u16>)
    ensures
        suffix@.len() == 0 ==> r == Some(default_port),
        suffix@.len() > 0 && suffix@[0] != ':' ==> r is None,
        r is Some && suffix@.len() > 0 ==> r->0 == digits_value(suffix@.skip(1)) && r->0 >= 1,
        r == port_of(suffix@, default_port),
{
    if suffix.len() == 0 {
        return Some(default_port);
    }
    if suffix[0] != ':' {
        return None;
    }
    let digits = slice_subrange(suffix, 1, suffix.len());
    assert(digits@ =~= suffix@.skip(1));
    match read_digits(digits, 65535) {
        Some(value) => if value == 0 {
            None
        } else {
            Some(value as u16)
        },
        None => None,
    }
}

/// Whether a URL names a secure endpoint, and what follows the scheme.
pub open spec fn authority_of(value: Seq<char>) -> (bool, Seq<char>) {
    if starts_with(value, "https://"@) {
        (true, value.skip(8))
    } else if starts_with(value, "http://"@) {
        (false, value.skip(7))
    } else {
        (false, value)
    }
}

/// Whether a URL names a secure endpoint, and what follows the scheme.
pub fn endpoint_authority(value: &[char]) -> (r: (bool, &[char]))
    ensures
        r.0 <==> starts_with(value@, "https://"@),
        r.0 ==> value@ == "https://"@ + r.1@,
        !r.0 ==> value@ == r.1@ || value@ == "http://"@ + r.1@,
        !r.0 && starts_with(value@, "http://"@) ==> value@ == "http://"@ + r.1@,
        r.0 == authority_of(value@).0,
        r.1@ == authority_of(value@).1,
{
    proof {
        reveal_strlit("https://");
        reveal_strlit("http://");
    }
    if has_prefix(value, &chars_of("https://")) {
        let rest = slice_subrange(value, 8, value.len());
        assert(rest@ =~= value@.skip(8));
        (true, rest)
    } else if has_prefix(value, &chars_of("http://")) {
        let rest = slice_subrange(value, 7, value.len());
        assert(rest@ =~= value@.skip(7));
        (false, rest)
    } else {
        (false, value)
    }
}

/// A character that cannot stand in a host and port.
pub open spec fn is_delimiter(c: char) -> bool {
    c == '/' || c == '?' || c == '#' || c == '@' || c == '[' || c == ']' || c == '\\'
}

/// Whether no character is a delimiter.
pub open spec fn no_delimiter(s: Seq<char>) -> bool {
    forall|i: int| 0 <= i < s.len() ==> !is_delimiter(#[trigger] s[i])
}

fn undelimited(s: &[char]) -> (r: bool)
    ensures
        r == no_delimiter(s@),
{
    let mut i: usize = 0;
    while i < s.len()
        invariant
            i <= s@.len(),
            forall|j: int| 0 <= j < i ==> !is_delimiter(#[trigger] s@[j]),
        decreases s@.len() - i,
    {
        let c = s[i];
        if c == '/' || c == '?' || c == '#' || c == '@' || c == '[' || c == ']' || c == '\\' {
            assert(is_delimiter(s@[i as int]));
            return false;
        }
        i += 1;
    }
    true
}

/// The host in brackets at the start of an authority, and what follows it.
pub open spec fn bracketed(authority: Seq<char>) -> Option<(Seq<char>, Seq<char>)> {
    if authority.len() == 0 || authority[0] != '[' {
        None
    } else {
        let rest = authority.skip(1);
        let k = find(rest, ']');
        if k == rest.len() || k == 0 || find(rest.skip(k + 1), ']') < rest.skip(k + 1).len() {
            None
        } else {
            Some((rest.take(k), rest.skip(k + 1)))
        }
    }
}

/// The host and port of an authority. For a host in brackets, `ipv6` is its canonical form, absent
/// where the host is no IPv6 address.
#[verifier::opaque]
pub open spec fn host_port(authority: Seq<char>, secure: bool, ipv6: Option<Seq<char>>) -> Option<
    (Seq<char>, u16),
> {
    let default_port: u16 = if secure {
        443
    } else {
        80
    };
    if authority.len() > 0 && authority[0] == '[' {
        match (bracketed(authority), ipv6) {
            (Some((_host, suffix)), Some(canonical)) => match port_of(suffix, default_port) {
                Some(port) => Some((canonical, port)),
                None => None,
            },
            _ => None,
        }
    } else if !no_delimiter(authority) {
        None
    } else {
        let k = find(authority, ':');
        let port = if k == authority.len() {
            Some(default_port)
        } else {
            port_of(authority.skip(k), default_port)
        };
        match (host_of(authority.take(k)), port) {
            (Some(host), Some(port)) => Some((host, port)),
            _ => None,
        }
    }
}

/// The text of an optional string slice.
pub open spec fn opt_str(o: Option<&str>) -> Option<Seq<char>> {
    match o {
        Some(text) => Some(text@),
        None => None,
    }
}

/// The host and port of an authority.
pub fn endpoint_host_port(authority: &[char], secure: bool, ipv6: Option<&str>) -> (r: Option<
    (String, u16),
>)
    ensures
        match r {
            Some((host, port)) => host_port(authority@, secure, opt_str(ipv6)) == Some(
                (host@, port),
            ),
            None => host_port(authority@, secure, opt_str(ipv6)) is None,
        },
{
    proof {
        reveal(host_port);
    }
    let default_port: u16 = if secure {
        443
    } else {
        80
    };
    if authority.len() > 0 && authority[0] == '[' {
        let rest = slice_subrange(authority, 1, authority.len());
        assert(rest@ =~= authority@.skip(1));
        let k: usize = find_char(rest, ']');
        if k == rest.len() || k == 0 {
            return None;
        }
        let suffix = slice_subrange(rest, k + 1, rest.len());
        assert(suffix@ =~= rest@.skip(k + 1));
        if find_char(suffix, ']') < suffix.len() {
            return None;
        }
        match (ipv6, parse_endpoint_port(suffix, default_port)) {
            (Some(canonical), Some(port)) => {
                return Some((canonical.to_owned(), port));
            },
            _ => {
                return None;
            },
        }
    }
    if !undelimited(authority) {
        return None;
    }
    let k: usize = find_char(authority, ':');
    let host = slice_subrange(authority, 0, k);
    assert(host@ =~= authority@.take(k as int));
    let port: Option<u16> = if k == authority.len() {
        Some(default_port)
    } else {
        let suffix = slice_subrange(authority, k, authority.len());
        assert(suffix@ =~= authority@.skip(k as int));
        parse_endpoint_port(suffix, default_port)
    };
    match (normalize_host(host), port) {
        (Some(name), Some(port)) => Some((text_of(&name), port)),
        _ => None,
    }
}

/// The endpoint that a text names: a host, `host:port` or `http(s)://host:port`.
pub open spec fn endpoint_of(value: Seq<char>, ipv6: Option<Seq<char>>) -> Option<Target> {
    if value.len() == 0 || !is_clean(value) {
        None
    } else {
        let (secure, authority) = authority_of(value);
        match host_port(authority, secure, ipv6) {
            Some((host, port)) => Some(Target { host, port, secure }),
            None => None,
        }
    }
}

/// The endpoint that a text names. Where the text has a host in brackets, `ipv6` is the canonical
/// form of that address, and absent where it is none.
pub fn parse_endpoint(value: &str, ipv6: Option<&str>) -> (r: Option<Endpoint>)
    ensures
        opt_target(r) == endpoint_of(value@, opt_str(ipv6)),
{
    let chars = chars_of(value);
    if chars.len() == 0 || !clean(&chars) {
        return None;
    }
    let (secure, authority) = endpoint_authority(&chars);
    match endpoint_host_port(authority, secure, ipv6) {
        Some((host, port)) => Some(Endpoint { host, port, secure }),
        None => None,
    }
}

/// The host in brackets that an endpoint text has, whose canonical form parsing needs.
pub fn bracketed_host(value: &str) -> (r: Option<String>)
    ensures
        match r {
            Some(host) => bracketed(authority_of(value@).1) matches Some(found) && found.0 == host@,
            None => bracketed(authority_of(value@).1) is None,
        },
{
    let chars = chars_of(value);
    let (_secure, authority) = endpoint_authority(&chars);
    if authority.len() == 0 || authority[0] != '[' {
        return None;
    }
    let rest = slice_subrange(authority, 1, authority.len());
    assert(rest@ =~= authority@.skip(1));
    let k: usize = find_char(rest, ']');
    if k == rest.len() || k == 0 {
        return None;
    }
    let suffix = slice_subrange(rest, k + 1, rest.len());
    assert(suffix@ =~= rest@.skip(k + 1));
    if find_char(suffix, ']') < suffix.len() {
        return None;
    }
    let host = slice_subrange(rest, 0, k);
    assert(host@ =~= rest@.take(k as int));
    Some(text_of(host))
}

/// The endpoint that a device id names: `escl:sim`, `escl:host:port` or `escl:https@host:port`.
#[verifier::opaque]
pub open spec fn escl_id(id: Seq<char>, ipv6: Option<Seq<char>>) -> Option<Target> {
    if !starts_with(id, "escl:"@) {
        None
    } else {
        let rest = id.skip(5);
        if rest == "sim"@ {
            Some(Target { host: "sim"@, port: 0, secure: false })
        } else if starts_with(rest, "https@"@) {
            endpoint_of("https://"@ + rest.skip(6), ipv6)
        } else {
            endpoint_of("http://"@ + rest, ipv6)
        }
    }
}

/// The endpoint that a device id names.
pub fn parse_escl_id(device_id: &str, ipv6: Option<&str>) -> (r: Option<Endpoint>)
    ensures
        opt_target(r) == escl_id(device_id@, opt_str(ipv6)),
{
    proof {
        reveal(escl_id);
    }
    proof {
        reveal_strlit("escl:");
        reveal_strlit("https@");
    }
    let id = chars_of(device_id);
    if !has_prefix(&id, &chars_of("escl:")) {
        return None;
    }
    let rest = slice_subrange(&id, 5, id.len());
    assert(rest@ =~= device_id@.skip(5));
    if same_chars(rest, &chars_of("sim")) {
        return Some(Endpoint { host: "sim".to_owned(), port: 0, secure: false });
    }
    if has_prefix(rest, &chars_of("https@")) {
        let tail = slice_subrange(rest, 6, rest.len());
        assert(tail@ =~= rest@.skip(6));
        let mut url = "https://".to_owned();
        url.append(text_of(tail).as_str());
        parse_endpoint(url.as_str(), ipv6)
    } else {
        let mut url = "http://".to_owned();
        url.append(text_of(rest).as_str());
        parse_endpoint(url.as_str(), ipv6)
    }
}

// ---------------------------------------------------------------------------
// Laws
// ---------------------------------------------------------------------------

/// Where the parts between dots are made of label characters, the text is made of them and dots.
proof fn lemma_part_chars(s: Seq<char>)
    requires
        forall|i: int, j: int|
            0 <= i < split(s, '.').len() && 0 <= j < split(s, '.')[i].len() ==> is_label_char(
                #[trigger] split(s, '.')[i][j],
            ),
    ensures
        forall|i: int| 0 <= i < s.len() ==> is_label_char(#[trigger] s[i]) || s[i] == '.',
    decreases s.len(),
{
    let k = find(s, '.');
    lemma_find(s, '.');
    let parts = split(s, '.');
    assert(parts[0] == s.take(k) || k == s.len());
    if k < s.len() {
        let rest = s.skip(k + 1);
        assert forall|i: int, j: int|
            0 <= i < split(rest, '.').len() && 0 <= j < split(rest, '.')[i].len()
            implies is_label_char(#[trigger] split(rest, '.')[i][j]) by {
            assert(parts[i + 1] == split(rest, '.')[i]);
            assert(is_label_char(parts[i + 1][j]));
        }
        lemma_part_chars(rest);
        assert forall|i: int| 0 <= i < s.len() implies is_label_char(#[trigger] s[i]) || s[i]
            == '.' by {
            if i < k {
                assert(parts[0][i] == s[i]);
                assert(is_label_char(parts[0][i]));
            } else if i > k {
                assert(rest[i - k - 1] == s[i]);
            }
        }
    } else {
        assert(parts[0] == s);
        assert forall|i: int| 0 <= i < s.len() implies is_label_char(#[trigger] s[i]) || s[i]
            == '.' by {
            assert(is_label_char(parts[0][i]));
        }
    }
}

/// Lower case keeps the places of the dots.
proof fn lemma_find_lower(s: Seq<char>)
    ensures
        find(lower_all(s), '.') == find(s, '.'),
{
    lemma_find(s, '.');
    lemma_find_is(lower_all(s), '.', find(s, '.'));
}

/// The parts of a text in lower case are the parts in lower case.
proof fn lemma_split_lower(s: Seq<char>)
    ensures
        split(lower_all(s), '.') == split(s, '.').map_values(|part: Seq<char>| lower_all(part)),
    decreases s.len(),
{
    let k = find(s, '.');
    lemma_find(s, '.');
    lemma_find_lower(s);
    let low = lower_all(s);
    let f = |part: Seq<char>| lower_all(part);
    if k < s.len() {
        lemma_split_lower(s.skip(k + 1));
        assert(low.take(k) =~= lower_all(s.take(k)));
        assert(low.skip(k + 1) =~= lower_all(s.skip(k + 1)));
        assert(split(s, '.') == seq![s.take(k)] + split(s.skip(k + 1), '.'));
        assert(split(low, '.') == seq![low.take(k)] + split(low.skip(k + 1), '.'));
        assert(split(low, '.') =~= split(s, '.').map_values(f));
    } else {
        assert(split(s, '.') == seq![s]);
        assert(split(low, '.') == seq![low]);
        assert(split(low, '.') =~= split(s, '.').map_values(f));
    }
}

/// A text whose lower case has only digits and dots is in lower case.
proof fn lemma_numeric_lower(s: Seq<char>)
    requires
        forall|i: int|
            0 <= i < s.len() ==> is_digit(#[trigger] lower_all(s)[i]) || lower_all(s)[i] == '.',
    ensures
        lower_all(s) == s,
{
    assert forall|i: int| 0 <= i < s.len() implies lower_all(s)[i] == s[i] by {
        assert(is_digit(lower_all(s)[i]) || lower_all(s)[i] == '.');
    }
    assert(lower_all(s) =~= s);
}

/// An address is made of digits and dots.
proof fn lemma_ipv4_chars(s: Seq<char>)
    requires
        is_ipv4(s),
    ensures
        forall|i: int| 0 <= i < s.len() ==> is_digit(#[trigger] s[i]) || s[i] == '.',
{
    lemma_digit_parts(s);
}

proof fn lemma_digit_parts(s: Seq<char>)
    requires
        forall|i: int| 0 <= i < split(s, '.').len() ==> all_digits(#[trigger] split(s, '.')[i]),
    ensures
        forall|i: int| 0 <= i < s.len() ==> is_digit(#[trigger] s[i]) || s[i] == '.',
    decreases s.len(),
{
    let k = find(s, '.');
    lemma_find(s, '.');
    let parts = split(s, '.');
    assert(all_digits(parts[0]));
    if k < s.len() {
        let rest = s.skip(k + 1);
        assert forall|i: int| 0 <= i < split(rest, '.').len() implies all_digits(
            #[trigger] split(rest, '.')[i],
        ) by {
            assert(parts[i + 1] == split(rest, '.')[i]);
        }
        lemma_digit_parts(rest);
        assert forall|i: int| 0 <= i < s.len() implies is_digit(#[trigger] s[i]) || s[i] == '.' by {
            if i < k {
                assert(is_digit(parts[0][i]));
            } else if i > k {
                assert(rest[i - k - 1] == s[i]);
            }
        }
    } else {
        assert(parts[0] == s);
    }
}

/// The canonical form of a host is its own canonical form, and has only letters, digits, hyphens
/// and dots.
pub proof fn canonical_host_is_stable(s: Seq<char>)
    requires
        host_of(s) is Some,
    ensures
        host_of(host_of(s)->0) == host_of(s),
        host_of(s)->0.len() > 0,
        forall|i: int|
            0 <= i < host_of(s)->0.len() ==> is_label_char(#[trigger] host_of(s)->0[i])
                || host_of(s)->0[i] == '.',
{
    if is_ipv4(s) {
        lemma_ipv4_chars(s);
    } else {
        let low = lower_all(s);
        lemma_split_lower(s);
        lemma_find_lower(s);
        if is_ipv4(low) {
            lemma_ipv4_chars(low);
            lemma_numeric_lower(s);
        }
        if looks_numeric(low) {
            lemma_numeric_lower(s);
        }
        assert(all_labels(split(low, '.'))) by {
            assert forall|i: int| 0 <= i < split(low, '.').len() implies is_label(
                #[trigger] split(low, '.')[i],
            ) by {
                let part = split(s, '.')[i];
                assert(is_label(part));
                assert(split(low, '.')[i] == lower_all(part));
                assert(lower_all(part)[0] == lower(part[0]));
                assert(lower_all(part).last() == lower(part.last()));
                assert forall|j: int| 0 <= j < part.len() implies is_label_char(
                    #[trigger] lower_all(part)[j],
                ) by {
                    assert(is_label_char(part[j]));
                }
            }
        }
        assert(lower_all(low) =~= low);
        assert forall|i: int, j: int|
            0 <= i < split(low, '.').len() && 0 <= j < split(low, '.')[i].len()
            implies is_label_char(#[trigger] split(low, '.')[i][j]) by {
            assert(is_label(split(low, '.')[i]));
        }
        lemma_part_chars(low);
    }
}

/// The characters of an IPv6 address: hexadecimal digits, colons and dots, with a colon.
pub open spec fn is_ipv6_text(s: Seq<char>) -> bool {
    find(s, ':') < s.len() && forall|i: int|
        0 <= i < s.len() ==> is_digit(#[trigger] s[i]) || 'a' <= s[i] <= 'f' || s[i] == ':' || s[i]
            == '.'
}

/// The port of a parsed endpoint is read back from its digits.
proof fn lemma_port(port: u16, default_port: u16)
    requires
        port != 0,
    ensures
        port_of(":"@ + decimal(port as nat), default_port) == Some(port),
{
    reveal_strlit(":");
    lemma_decimal(port as nat);
    let suffix = ":"@ + decimal(port as nat);
    assert(suffix.skip(1) =~= decimal(port as nat));
}

/// A parsed endpoint has a port other than 0.
proof fn lemma_parsed_port(value: Seq<char>, ipv6: Option<Seq<char>>)
    requires
        endpoint_of(value, ipv6) is Some,
    ensures
        endpoint_of(value, ipv6)->0.port != 0,
{
    reveal(host_port);
}

/// Whether a text has only characters of hosts and ports: letters, digits, hyphens, dots, colons
/// and brackets.
spec fn is_plain(s: Seq<char>) -> bool {
    forall|i: int|
        0 <= i < s.len() ==> is_label_char(#[trigger] s[i]) || s[i] == '.' || s[i] == ':' || s[i]
            == '[' || s[i] == ']'
}

/// A URL of plain characters is read by its scheme and authority.
proof fn lemma_url(rest: Seq<char>, secure: bool, ipv6: Option<Seq<char>>)
    requires
        is_plain(rest),
    ensures
        endpoint_of(
            (if secure {
                "https://"@
            } else {
                "http://"@
            }) + rest,
            ipv6,
        ) == match host_port(rest, secure, ipv6) {
            Some((host, port)) => Some(Target { host, port, secure }),
            None => None,
        },
{
    reveal_strlit("https://");
    reveal_strlit("http://");
    let scheme = if secure {
        "https://"@
    } else {
        "http://"@
    };
    let url = scheme + rest;
    assert forall|i: int| 0 <= i < url.len() implies !is_unclean(#[trigger] url[i]) by {
        if i >= scheme.len() {
            assert(url[i] == rest[i - scheme.len()]);
        }
    }
    assert(url.take(scheme.len() as int) =~= scheme);
    assert(url.skip(scheme.len() as int) =~= rest);
    if !secure && starts_with(url, "https://"@) {
        assert(url.take(8)[4] == 's');
        assert(url[4] == ':');
    }
}

/// A device id of plain characters is read by its scheme and authority.
proof fn lemma_id(rest: Seq<char>, secure: bool, ipv6: Option<Seq<char>>)
    requires
        is_plain(rest),
        rest != "sim"@,
    ensures
        escl_id(
            (if secure {
                "escl:https@"@
            } else {
                "escl:"@
            }) + rest,
            ipv6,
        ) == endpoint_of(
            (if secure {
                "https://"@
            } else {
                "http://"@
            }) + rest,
            ipv6,
        ),
{
    reveal(escl_id);
    reveal_strlit("escl:");
    reveal_strlit("escl:https@");
    reveal_strlit("https@");
    reveal_strlit("sim");
    let id = (if secure {
        "escl:https@"@
    } else {
        "escl:"@
    }) + rest;
    assert(id.take(5) =~= "escl:"@);
    let tail = id.skip(5);
    if secure {
        assert(tail =~= "https@"@ + rest);
        assert(tail.take(6) =~= "https@"@);
        assert(tail.skip(6) =~= rest);
        assert(tail.len() >= 6);
    } else {
        assert(tail =~= rest);
        if starts_with(rest, "https@"@) {
            assert(rest.take(6)[5] == '@');
            assert(rest[5] == '@');
        }
    }
}

/// A canonical host with a port is read back.
proof fn lemma_host_authority(host: Seq<char>, port: u16, secure: bool, ipv6: Option<Seq<char>>)
    requires
        port != 0,
        host.len() > 0,
        host_of(host) == Some(host),
        forall|i: int| 0 <= i < host.len() ==> is_label_char(#[trigger] host[i]) || host[i] == '.',
    ensures
        is_plain(host + ":"@ + decimal(port as nat)),
        host + ":"@ + decimal(port as nat) != "sim"@,
        host_port(host + ":"@ + decimal(port as nat), secure, ipv6) == Some((host, port)),
        find(host, ':') == host.len(),
{
    reveal(host_port);
    reveal_strlit(":");
    reveal_strlit("sim");
    let dec = decimal(port as nat);
    lemma_decimal(port as nat);
    lemma_port(
        port,
        if secure {
            443
        } else {
            80
        },
    );
    let rest = host + ":"@ + dec;
    assert forall|i: int| 0 <= i < rest.len() implies !is_delimiter(#[trigger] rest[i]) && (
    is_label_char(rest[i]) || rest[i] == '.' || rest[i] == ':') by {
        if i < host.len() {
            assert(rest[i] == host[i]);
        } else if i > host.len() {
            assert(rest[i] == dec[i - host.len() - 1]);
            assert(is_digit(dec[i - host.len() - 1]));
        }
    }
    assert forall|i: int| 0 <= i < host.len() implies #[trigger] rest[i] != ':' by {
        assert(rest[i] == host[i]);
    }
    assert(rest[host.len() as int] == ':');
    lemma_find_is(rest, ':', host.len() as int);
    assert forall|i: int| 0 <= i < host.len() implies #[trigger] host[i] != ':' by {
        assert(is_label_char(host[i]) || host[i] == '.');
    }
    lemma_find_is(host, ':', host.len() as int);
    assert(rest.take(host.len() as int) =~= host);
    assert(rest.skip(host.len() as int) =~= ":"@ + dec);
    assert(rest[0] == host[0]);
    if rest == "sim"@ {
        assert(rest[host.len() as int] != ':');
    }
}

/// A bracketed address with a port is read back.
proof fn lemma_bracket_authority(host: Seq<char>, port: u16, secure: bool)
    requires
        port != 0,
        is_ipv6_text(host),
    ensures
        is_plain("["@ + host + "]"@ + ":"@ + decimal(port as nat)),
        "["@ + host + "]"@ + ":"@ + decimal(port as nat) != "sim"@,
        host_port("["@ + host + "]"@ + ":"@ + decimal(port as nat), secure, Some(host)) == Some(
            (host, port),
        ),
{
    reveal(host_port);
    reveal_strlit(":");
    reveal_strlit("[");
    reveal_strlit("]");
    reveal_strlit("sim");
    lemma_find(host, ':');
    let dec = decimal(port as nat);
    lemma_decimal(port as nat);
    lemma_port(
        port,
        if secure {
            443
        } else {
            80
        },
    );
    let rest = "["@ + host + "]"@ + ":"@ + dec;
    assert(rest[0] == '[');
    let inner = rest.skip(1);
    assert(inner =~= host + ("]"@ + (":"@ + dec)));
    assert forall|i: int| 0 <= i < host.len() implies #[trigger] inner[i] != ']' by {
        assert(inner[i] == host[i]);
    }
    assert(inner[host.len() as int] == ']');
    lemma_find_is(inner, ']', host.len() as int);
    let suffix = inner.skip(host.len() as int + 1);
    assert(suffix =~= ":"@ + dec);
    assert forall|i: int| 0 <= i < suffix.len() implies #[trigger] suffix[i] != ']' by {
        if i > 0 {
            assert(suffix[i] == dec[i - 1]);
            assert(is_digit(dec[i - 1]));
        }
    }
    lemma_find_is(suffix, ']', suffix.len() as int);
    assert(inner.take(host.len() as int) =~= host);
    assert forall|i: int| 0 <= i < rest.len() implies is_label_char(#[trigger] rest[i]) || rest[i]
        == '.' || rest[i] == ':' || rest[i] == '[' || rest[i] == ']' by {
        if 0 < i <= host.len() {
            assert(rest[i] == host[i - 1]);
        } else if i > host.len() + 2 {
            assert(rest[i] == dec[i - host.len() - 3]);
            assert(is_digit(dec[i - host.len() - 3]));
        }
    }
}

/// A host that parsing can give: a canonical name or address, or the text of an IPv6 address.
spec fn is_host(host: Seq<char>) -> bool {
    is_ipv6_text(host) || host.len() > 0 && host_of(host) == Some(host) && forall|i: int|
        0 <= i < host.len() ==> is_label_char(#[trigger] host[i]) || host[i] == '.'
}

proof fn lemma_parsed(value: Seq<char>, ipv6: Option<Seq<char>>)
    requires
        endpoint_of(value, ipv6) is Some,
        ipv6 is Some ==> is_ipv6_text(ipv6->0),
    ensures
        endpoint_of(value, ipv6)->0.port != 0,
        is_host(endpoint_of(value, ipv6)->0.host),
{
    reveal(host_port);
    let (secure, authority) = authority_of(value);
    lemma_parsed_port(value, ipv6);
    if !(authority.len() > 0 && authority[0] == '[') {
        canonical_host_is_stable(authority.take(find(authority, ':')));
    }
}

proof fn lemma_device_id(t: Target)
    requires
        t.port != 0,
        is_host(t.host),
    ensures
        escl_id(t.device_id(), Some(t.host)) == Some(t),
{
    let dec = decimal(t.port as nat);
    let prefix = if t.secure {
        "escl:https@"@
    } else {
        "escl:"@
    };
    if is_ipv6_text(t.host) {
        let rest = "["@ + t.host + "]"@ + ":"@ + dec;
        lemma_bracket_authority(t.host, t.port, t.secure);
        lemma_id(rest, t.secure, Some(t.host));
        lemma_url(rest, t.secure, Some(t.host));
        assert(t.device_id() =~= prefix + rest);
    } else {
        let rest = t.host + ":"@ + dec;
        lemma_host_authority(t.host, t.port, t.secure, Some(t.host));
        lemma_id(rest, t.secure, Some(t.host));
        lemma_url(rest, t.secure, Some(t.host));
        assert(t.device_id() =~= prefix + rest);
    }
}

/// The device id of a parsed endpoint names that endpoint.
pub proof fn device_id_names_its_endpoint(value: Seq<char>, ipv6: Option<Seq<char>>)
    requires
        endpoint_of(value, ipv6) is Some,
        ipv6 is Some ==> is_ipv6_text(ipv6->0),
    ensures
        ({
            let t = endpoint_of(value, ipv6)->0;
            escl_id(t.device_id(), Some(t.host)) == Some(t)
        }),
{
    lemma_parsed(value, ipv6);
    lemma_device_id(endpoint_of(value, ipv6)->0);
}

/// A host without a port is reached at port 80, over a secure connection at port 443, and with a port at
/// that one; without a scheme the connection is a plain one.
#[verifier::spinoff_prover]
#[verifier::rlimit(60)]
pub proof fn hosts_are_reached_at_their_port(host: Seq<char>, name: Seq<char>, port: u16)
    requires
        host_of(host) == Some(name),
        is_clean(host),
        no_delimiter(host),
        forall|i: int| 0 <= i < host.len() ==> host[i] != ':',
        port >= 1,
    ensures
        endpoint_of(host, None) == Some(Target { host: name, port: 80, secure: false }),
        endpoint_of("http://"@ + host, None) == Some(
            Target { host: name, port: 80, secure: false },
        ),
        endpoint_of("https://"@ + host, None) == Some(
            Target { host: name, port: 443, secure: true },
        ),
        endpoint_of("https://"@ + host + ":"@ + decimal(port as nat), None) == Some(
            Target { host: name, port, secure: true },
        ),
{
    reveal(host_port);
    reveal_strlit("https://");
    reveal_strlit("http://");
    reveal_strlit(":");
    crate::text::lemma_decimal(port as nat);
    let n = host.len() as int;
    lemma_find_is(host, ':', n);
    assert(host.take(n) =~= host);
    if host.len() >= 7 {
        assert(host.take(7)[4] == host[4] || host.len() < 7);
        assert("http://"@[4] == ':' && "https://"@[5] == ':');
    }
    if host.len() >= 8 {
        assert(host.take(8)[5] == host[5]);
    }
    assert(host.len() > 0 && host[0] != '[');
    let plain = "http://"@ + host;
    let secure = "https://"@ + host;
    let ported = "https://"@ + host + ":"@ + decimal(port as nat);
    assert(plain.take(7) =~= "http://"@);
    assert(plain.skip(7) =~= host);
    assert(plain[4] == ':');
    if plain.len() >= 8 {
        assert(plain.take(8)[4] == ':');
        assert("https://"@[4] == 's');
    }
    assert(secure.take(8) =~= "https://"@);
    assert(secure.skip(8) =~= host);
    assert(ported.take(8) =~= "https://"@);
    let rest = host + ":"@ + decimal(port as nat);
    assert(ported.skip(8) =~= rest);
    assert forall|i: int| 0 <= i < n implies rest[i] != ':' by {
        assert(rest[i] == host[i]);
    }
    assert(rest[n] == ':');
    lemma_find_is(rest, ':', n);
    assert(rest.take(n) =~= host);
    let suffix = rest.skip(n);
    assert(suffix[0] == ':');
    assert(suffix.skip(1) =~= decimal(port as nat));
    assert forall|i: int| 0 <= i < plain.len() implies !is_unclean(#[trigger] plain[i]) by {
        if i >= 7 {
            assert(plain[i] == host[i - 7]);
        } else {
            assert(plain[i] == "http://"@[i]);
        }
    }
    assert forall|i: int| 0 <= i < secure.len() implies !is_unclean(#[trigger] secure[i]) by {
        if i >= 8 {
            assert(secure[i] == host[i - 8]);
        } else {
            assert(secure[i] == "https://"@[i]);
        }
    }
    assert forall|i: int| 0 <= i < ported.len() implies !is_unclean(#[trigger] ported[i]) by {
        if i < 8 {
            assert(ported[i] == "https://"@[i]);
        } else if i < 8 + n {
            assert(ported[i] == host[i - 8]);
        } else if i > 8 + n {
            assert(ported[i] == decimal(port as nat)[i - 9 - n]);
        }
    }
    assert forall|i: int| 0 <= i < rest.len() implies !is_delimiter(#[trigger] rest[i]) by {
        if i < n {
            assert(rest[i] == host[i]);
        } else if i > n {
            assert(rest[i] == decimal(port as nat)[i - 1 - n]);
        }
    }
}

/// The URL of a path names the scheme, the host, the port and the path, in this order.
#[verifier::spinoff_prover]
#[verifier::rlimit(60)]
pub proof fn urls_name_their_endpoint(host: Seq<char>, port: u16, path: Seq<char>)
    requires
        forall|i: int| 0 <= i < host.len() ==> host[i] != ':',
    ensures
        (Target { host, port, secure: false }).url(path) == "http://"@ + host + ":"@ + decimal(
            port as nat,
        ) + path,
        (Target { host, port, secure: true }).url(path) == "https://"@ + host + ":"@ + decimal(
            port as nat,
        ) + path,
{
    reveal_strlit("https://");
    reveal_strlit("http://");
    reveal_strlit("https");
    reveal_strlit("http");
    reveal_strlit("://");
    lemma_find_is(host, ':', host.len() as int);
    assert("http"@ + "://"@ =~= "http://"@);
    assert("https"@ + "://"@ =~= "https://"@);
}

} // verus!
