//! Network-layer signals: IP classification, ASN and organisation lookups,
//! time-zone consistency, WebRTC leaks, user agents, and the risk levels of
//! the per-network counters. Risks are in thousandths (0..=1000).

use vstd::prelude::*;
use crate::text::{
    chars_of, contains, has_infix, has_prefix, lowercase_of, starts_with, str_eq, to_lower,
};

verus! {

/// How an IP address reaches us.
#[derive(Debug, PartialEq, Eq, Structural, Clone, Copy)]
pub enum NetworkType {
    Residential,
    Mobile,
    Datacenter,
    VPN,
    Unknown,
}

/// What the IP information service reports for an address.
#[derive(Debug)]
pub struct IpInfo {
    pub country_code: Option<String>,
    pub asn: Option<String>,
    pub as_name: Option<String>,
}

// ── numbers ──────────────────────────────────────────────────────────────────

/// Whether `s` is a non-empty run of ASCII digits.
pub open spec fn all_digits(s: Seq<char>) -> bool {
    forall|i: int| 0 <= i < s.len() ==> '0' <= #[trigger] s[i] <= '9'
}

/// The decimal value of a run of ASCII digits.
pub open spec fn digits_value(s: Seq<char>) -> nat
    decreases s.len(),
{
    if s.len() == 0 {
        0
    } else {
        digits_value(s.drop_last()) * 10 + ((s.last() as u32) - ('0' as u32)) as nat
    }
}

/// The `u32` that `str::parse` reads from `s`: an optional `+` followed by
/// one or more ASCII digits whose value fits in 32 bits.
pub open spec fn parsed_u32(s: Seq<char>) -> Option<u32> {
    let body = if s.len() > 0 && s[0] == '+' { s.drop_first() } else { s };
    if body.len() > 0 && all_digits(body) && digits_value(body) <= u32::MAX {
        Some(digits_value(body) as u32)
    } else {
        None
    }
}

/// Reads a decimal `u32` as `str::parse` does (see [`parsed_u32`]).
pub fn parse_u32(s: &str) -> (r: Option<u32>)
    ensures
        r == parsed_u32(s@),
{
    let c = chars_of(s);
    let start: usize = if c.len() > 0 && c[0] == '+' { 1 } else { 0 };
    let ghost body = if s@.len() > 0 && s@[0] == '+' { s@.drop_first() } else { s@ };
    assert(body =~= s@.subrange(start as int, s@.len() as int));
    if start >= c.len() {
        return None;
    }
    let mut value: u64 = 0;
    let mut i: usize = start;
    while i < c.len()
        invariant
            c@ == s@,
            start <= i <= c.len(),
            body == s@.subrange(start as int, s@.len() as int),
            body == (if s@.len() > 0 && s@[0] == '+' { s@.drop_first() } else { s@ }),
            all_digits(body.subrange(0, i - start)),
            value == digits_value(body.subrange(0, i - start)),
            value <= u32::MAX,
        decreases c.len() - i,
    {
        let ch = c[i];
        if ch < '0' || ch > '9' {
            proof {
                assert(body[i - start] == ch);
                assert(!('0' <= body[i - start] <= '9'));
                assert(!all_digits(body));
                assert(parsed_u32(s@) is None);
            }
            return None;
        }
        let d = (ch as u32 - '0' as u32) as u64;
        let next = value * 10 + d;
        let ghost pre = body.subrange(0, i - start);
        let ghost post = body.subrange(0, i + 1 - start);
        assert(post.drop_last() =~= pre);
        assert(post.last() == ch);
        if next > u32::MAX as u64 {
            proof {
                if all_digits(body) {
                    lemma_digits_value_prefix_le(body, i + 1 - start);
                }
                assert(parsed_u32(s@) is None);
            }
            return None;
        }
        value = next;
        i = i + 1;
    }
    assert(body.subrange(0, i - start) =~= body);
    Some(value as u32)
}

proof fn lemma_digits_value_prefix_le(s: Seq<char>, k: int)
    requires
        0 <= k <= s.len(),
        all_digits(s),
    ensures
        digits_value(s.subrange(0, k)) <= digits_value(s),
    decreases s.len(),
{
    if k < s.len() {
        lemma_digits_value_prefix_le(s.drop_last(), k);
        assert(s.drop_last().subrange(0, k) =~= s.subrange(0, k));
        assert(all_digits(s.drop_last()));
    } else {
        assert(s.subrange(0, k) =~= s);
    }
}

/// `s` with every leading copy of `p` removed (`p` must not be empty).
pub open spec fn strip_all_prefix(s: Seq<char>, p: Seq<char>) -> Seq<char>
    decreases s.len(),
{
    if p.len() > 0 && has_prefix(s, p) {
        strip_all_prefix(s.subrange(p.len() as int, s.len() as int), p)
    } else {
        s
    }
}

/// The autonomous-system number of an `ASnnnn` string: every leading `AS`
/// removed, then the rest read as a `u32`.
pub open spec fn asn_number(asn: Seq<char>) -> Option<u32> {
    parsed_u32(strip_all_prefix(asn, "AS"@))
}

/// Reads an autonomous-system number (see [`asn_number`]).
pub fn parse_asn(asn: &str) -> (r: Option<u32>)
    ensures
        r == asn_number(asn@),
{
    proof {
        reveal_strlit("AS");
    }
    let mut rest: &str = asn;
    let mut n = rest.unicode_len();
    while n >= 2 && starts_with(rest, "AS")
        invariant
            n == rest@.len(),
            strip_all_prefix(rest@, "AS"@) == strip_all_prefix(asn@, "AS"@),
        decreases n,
    {
        proof {
            reveal_strlit("AS");
        }
        let ghost before = rest@;
        rest = rest.substring_char(2, n);
        n = rest.unicode_len();
        assert(strip_all_prefix(before, "AS"@) == strip_all_prefix(rest@, "AS"@));
    }
    parse_u32(rest)
}

// ── network type ─────────────────────────────────────────────────────────────

/// Autonomous systems of the large hosting and cloud providers.
pub open spec fn is_datacenter_asn(n: u32) -> bool {
    n == 14618 || n == 16509 || n == 15169 || n == 8075 || n == 14061 || n == 20473 || n == 63949
        || n == 24940 || n == 16276 || n == 36351 || n == 13335 || n == 54113 || n == 20940 || n
        == 8560 || n == 46606 || n == 60781 || n == 395954 || n == 9009 || n == 51167 || n == 47583
        || n == 40676 || n == 32475 || n == 22612 || n == 21844 || n == 26347 || n == 29990 || n
        == 35916 || n == 33070 || n == 19318 || n == 55293
}

/// Whether `n` is a hosting provider's autonomous system.
pub fn datacenter_asn(n: u32) -> (r: bool)
    ensures
        r == is_datacenter_asn(n),
{
    n == 14618 || n == 16509 || n == 15169 || n == 8075 || n == 14061 || n == 20473 || n == 63949
        || n == 24940 || n == 16276 || n == 36351 || n == 13335 || n == 54113 || n == 20940 || n
        == 8560 || n == 46606 || n == 60781 || n == 395954 || n == 9009 || n == 51167 || n == 47583
        || n == 40676 || n == 32475 || n == 22612 || n == 21844 || n == 26347 || n == 29990 || n
        == 35916 || n == 33070 || n == 19318 || n == 55293
}

/// The autonomous systems of the large hosting and cloud providers, listed.
pub open spec fn datacenter_asn_list() -> Seq<u32> {
    seq![
        14618u32, 16509, 15169, 8075, 14061, 20473, 63949, 24940, 16276, 36351, 13335, 54113,
        20940, 8560, 46606, 60781, 395954, 9009, 51167, 47583, 40676, 32475, 22612, 21844, 26347,
        29990, 35916, 33070, 19318, 55293,
    ]
}

/// Exactly the listed autonomous systems are datacenters: an address whose
/// ASN is on the list, and that is not a known VPN exit, is a datacenter
/// whatever its organisation name; one whose ASN is off the list is not
/// classified by ASN.
pub proof fn lemma_datacenter_asns(n: u32, asn: Seq<char>, as_name: Option<Seq<char>>)
    ensures
        is_datacenter_asn(n) <==> datacenter_asn_list().contains(n),
        asn_number(asn) == Some(n) && datacenter_asn_list().contains(n) ==> network_type_of(
            false,
            Some((Some(asn), as_name)),
        ) == NetworkType::Datacenter,
{
    let l = datacenter_asn_list();
    if is_datacenter_asn(n) {
        if n == 14618 { assert(l[0] == n); } else if n == 16509 { assert(l[1] == n); }
        else if n == 15169 { assert(l[2] == n); } else if n == 8075 { assert(l[3] == n); }
        else if n == 14061 { assert(l[4] == n); } else if n == 20473 { assert(l[5] == n); }
        else if n == 63949 { assert(l[6] == n); } else if n == 24940 { assert(l[7] == n); }
        else if n == 16276 { assert(l[8] == n); } else if n == 36351 { assert(l[9] == n); }
        else if n == 13335 { assert(l[10] == n); } else if n == 54113 { assert(l[11] == n); }
        else if n == 20940 { assert(l[12] == n); } else if n == 8560 { assert(l[13] == n); }
        else if n == 46606 { assert(l[14] == n); } else if n == 60781 { assert(l[15] == n); }
        else if n == 395954 { assert(l[16] == n); } else if n == 9009 { assert(l[17] == n); }
        else if n == 51167 { assert(l[18] == n); } else if n == 47583 { assert(l[19] == n); }
        else if n == 40676 { assert(l[20] == n); } else if n == 32475 { assert(l[21] == n); }
        else if n == 22612 { assert(l[22] == n); } else if n == 21844 { assert(l[23] == n); }
        else if n == 26347 { assert(l[24] == n); } else if n == 29990 { assert(l[25] == n); }
        else if n == 35916 { assert(l[26] == n); } else if n == 33070 { assert(l[27] == n); }
        else if n == 19318 { assert(l[28] == n); } else { assert(l[29] == n); }
    }
    if l.contains(n) {
        let i = choose|i: int| 0 <= i < l.len() && l[i] == n;
        assert(is_datacenter_asn(l[i]));
    }
}

/// Whether an organisation name (lower case) names a known VPN provider.
pub open spec fn names_vpn_provider(org: Seq<char>) -> bool {
    has_infix(org, "nordvpn"@) || has_infix(org, "expressvpn"@) || has_infix(org, "mullvad"@)
        || has_infix(org, "protonvpn"@) || has_infix(org, "surfshark"@) || has_infix(
        org,
        "tor project"@,
    ) || has_infix(org, "ipvanish"@) || has_infix(org, "cyberghost"@) || has_infix(
        org,
        "privatevpn"@,
    ) || has_infix(org, "perfect privacy"@) || has_infix(org, "hide.me"@) || has_infix(
        org,
        "windscribe"@,
    ) || has_infix(org, "purevpn"@) || has_infix(org, "tunnelbear"@)
}

/// Whether an organisation name (lower case) names a mobile carrier.
pub open spec fn names_mobile_carrier(org: Seq<char>) -> bool {
    has_infix(org, "mobile"@) || has_infix(org, "cellular"@) || has_infix(org, "mts"@)
        || has_infix(org, "beeline"@) || has_infix(org, "megafon"@)
}

fn vpn_provider(org: &str) -> (r: bool)
    ensures
        r == names_vpn_provider(org@),
{
    contains(org, "nordvpn") || contains(org, "expressvpn") || contains(org, "mullvad") || contains(
        org,
        "protonvpn",
    ) || contains(org, "surfshark") || contains(org, "tor project") || contains(org, "ipvanish")
        || contains(org, "cyberghost") || contains(org, "privatevpn") || contains(
        org,
        "perfect privacy",
    ) || contains(org, "hide.me") || contains(org, "windscribe") || contains(org, "purevpn")
        || contains(org, "tunnelbear")
}

fn mobile_carrier(org: &str) -> (r: bool)
    ensures
        r == names_mobile_carrier(org@),
{
    contains(org, "mobile") || contains(org, "cellular") || contains(org, "mts") || contains(
        org,
        "beeline",
    ) || contains(org, "megafon")
}

/// The network type of an address: a confirmed VPN exit is a VPN; without
/// service information it is unknown; a hosting provider's ASN makes it a
/// datacenter; then the lower-cased organisation name decides between VPN,
/// mobile and residential.
pub open spec fn network_type_of(
    known_vpn: bool,
    info: Option<(Option<Seq<char>>, Option<Seq<char>>)>,
) -> NetworkType {
    if known_vpn {
        NetworkType::VPN
    } else {
        match info {
            None => NetworkType::Unknown,
            Some((asn, as_name)) => {
                let dc = match asn {
                    Some(a) => match asn_number(a) {
                        Some(n) => is_datacenter_asn(n),
                        None => false,
                    },
                    None => false,
                };
                let org = lowercase_of(
                    match as_name {
                        Some(x) => x,
                        None => Seq::<char>::empty(),
                    },
                );
                if dc {
                    NetworkType::Datacenter
                } else if names_vpn_provider(org) {
                    NetworkType::VPN
                } else if names_mobile_carrier(org) {
                    NetworkType::Mobile
                } else {
                    NetworkType::Residential
                }
            },
        }
    }
}

/// The ASN and organisation of the service's answer, as plain values.
pub open spec fn info_view(info: Option<&IpInfo>) -> Option<(Option<Seq<char>>, Option<Seq<char>>)> {
    match info {
        None => None,
        Some(i) => Some(
            (
                match i.asn {
                    Some(a) => Some(a@),
                    None => None,
                },
                match i.as_name {
                    Some(n) => Some(n@),
                    None => None,
                },
            ),
        ),
    }
}

/// Classifies an address from what is known of it (see [`network_type_of`]).
pub fn classify_network(known_vpn: bool, info: Option<&IpInfo>) -> (r: NetworkType)
    ensures
        r == network_type_of(known_vpn, info_view(info)),
{
    if known_vpn {
        return NetworkType::VPN;
    }
    let info = match info {
        Some(i) => i,
        None => return NetworkType::Unknown,
    };
    if let Some(asn) = &info.asn {
        if let Some(n) = parse_asn(asn.as_str()) {
            if datacenter_asn(n) {
                return NetworkType::Datacenter;
            }
        }
    }
    let org = match &info.as_name {
        Some(x) => to_lower(x.as_str()),
        None => to_lower(""),
    };
    proof {
        assert(""@ =~= Seq::<char>::empty()) by {
            reveal_strlit("");
        }
    }
    if vpn_provider(org.as_str()) {
        return NetworkType::VPN;
    }
    if mobile_carrier(org.as_str()) {
        return NetworkType::Mobile;
    }
    NetworkType::Residential
}

/// A remembered VPN exit is a VPN whatever the information service says,
/// so its risk needs no lookup.
pub proof fn lemma_known_vpn_needs_no_lookup(
    info_a: Option<(Option<Seq<char>>, Option<Seq<char>>)>,
    info_b: Option<(Option<Seq<char>>, Option<Seq<char>>)>,
)
    ensures
        network_type_of(true, info_a) == NetworkType::VPN,
        network_type_of(true, info_a) == network_type_of(true, info_b),
{
}

// ── risk levels (thousandths) ───────────────────────────────────────────────

/// Risk of the network type of the request address.
pub open spec fn asn_risk_of(t: NetworkType) -> u32 {
    match t {
        NetworkType::VPN => 900,
        NetworkType::Datacenter => 700,
        NetworkType::Mobile => 50,
        NetworkType::Residential => 0,
        NetworkType::Unknown => 200,
    }
}

/// The risk of a network type (see [`asn_risk_of`]).
pub fn asn_risk(t: NetworkType) -> (r: u32)
    ensures
        r == asn_risk_of(t),
{
    match t {
        NetworkType::VPN => 900,
        NetworkType::Datacenter => 700,
        NetworkType::Mobile => 50,
        NetworkType::Residential => 0,
        NetworkType::Unknown => 200,
    }
}

/// The shared-IP risk when it needs no count: an unknown address is mildly
/// suspicious; an empty one or the loopback address is not; any other
/// address must be looked up (`None`).
pub fn shared_ip_shortcut(ip: Option<&str>) -> (r: Option<u32>)
    ensures
        match ip {
            None => r == Some(100u32),
            Some(a) => if a@.len() == 0 || a@ == "127.0.0.1"@ {
                r == Some(0u32)
            } else {
                r is None
            },
        },
{
    match ip {
        None => Some(100),
        Some(a) => {
            if a.is_empty() || str_eq(a, "127.0.0.1") {
                Some(0)
            } else {
                None
            }
        },
    }
}

/// Risk of an address by the number of distinct visitors seen on it in the last day.
pub open spec fn shared_ip_risk_of(unique_visitors: i64) -> u32 {
    if 0 <= unique_visitors <= 2 {
        0
    } else if 3 <= unique_visitors <= 10 {
        150
    } else if 11 <= unique_visitors <= 50 {
        400
    } else if 51 <= unique_visitors <= 200 {
        700
    } else {
        900
    }
}

/// The shared-IP risk (see [`shared_ip_risk_of`]).
pub fn shared_ip_risk(unique_visitors: i64) -> (r: u32)
    ensures
        r == shared_ip_risk_of(unique_visitors),
{
    if 0 <= unique_visitors && unique_visitors <= 2 {
        0
    } else if 3 <= unique_visitors && unique_visitors <= 10 {
        150
    } else if 11 <= unique_visitors && unique_visitors <= 50 {
        400
    } else if 51 <= unique_visitors && unique_visitors <= 200 {
        700
    } else {
        900
    }
}

/// Risk of a visitor by the number of distinct addresses it used in the last week.
pub open spec fn ip_rotation_risk_of(ip_count: i64) -> u32 {
    if 0 <= ip_count <= 3 {
        0
    } else if 4 <= ip_count <= 8 {
        200
    } else if 9 <= ip_count <= 20 {
        550
    } else {
        850
    }
}

/// The IP-rotation risk (see [`ip_rotation_risk_of`]).
pub fn ip_rotation_risk(ip_count: i64) -> (r: u32)
    ensures
        r == ip_rotation_risk_of(ip_count),
{
    if 0 <= ip_count && ip_count <= 3 {
        0
    } else if 4 <= ip_count && ip_count <= 8 {
        200
    } else if 9 <= ip_count && ip_count <= 20 {
        550
    } else {
        850
    }
}

/// Risk of a device fingerprint by the number of distinct visitors sharing it in the last week.
pub open spec fn fingerprint_risk_of(collisions: i64) -> u32 {
    if 0 <= collisions <= 2 {
        0
    } else if 3 <= collisions <= 10 {
        300
    } else if 11 <= collisions <= 30 {
        650
    } else {
        900
    }
}

/// The fingerprint-collision risk (see [`fingerprint_risk_of`]).
pub fn fingerprint_risk(collisions: i64) -> (r: u32)
    ensures
        r == fingerprint_risk_of(collisions),
{
    if 0 <= collisions && collisions <= 2 {
        0
    } else if 3 <= collisions && collisions <= 10 {
        300
    } else if 11 <= collisions && collisions <= 30 {
        650
    } else {
        900
    }
}

/// Risk of an address by the number of distinct hours of the day it was
/// active in the last week (round-the-clock activity is machine-like).
pub open spec fn temporal_risk_of(active_hours: i64) -> u32 {
    if 0 <= active_hours <= 8 {
        0
    } else if 9 <= active_hours <= 14 {
        150
    } else if 15 <= active_hours <= 20 {
        400
    } else {
        750
    }
}

/// The temporal-pattern risk (see [`temporal_risk_of`]).
pub fn temporal_risk(active_hours: i64) -> (r: u32)
    ensures
        r == temporal_risk_of(active_hours),
{
    if 0 <= active_hours && active_hours <= 8 {
        0
    } else if 9 <= active_hours && active_hours <= 14 {
        150
    } else if 15 <= active_hours && active_hours <= 20 {
        400
    } else {
        750
    }
}

/// More sharing never lowers a counter-based risk: each of the four counter
/// risks is monotone in its (non-negative) count.
pub proof fn lemma_counter_risks_monotone(a: i64, b: i64)
    requires
        0 <= a <= b,
    ensures
        shared_ip_risk_of(a) <= shared_ip_risk_of(b),
        ip_rotation_risk_of(a) <= ip_rotation_risk_of(b),
        fingerprint_risk_of(a) <= fingerprint_risk_of(b),
        temporal_risk_of(a) <= temporal_risk_of(b),
{
}

// ── time zone ────────────────────────────────────────────────────────────────

/// The country that a browser time zone implies, for the zones that imply one.
pub open spec fn timezone_country(tz: Seq<char>) -> Option<Seq<char>> {
    if has_prefix(tz, "Europe/Moscow"@) || has_prefix(tz, "Europe/Kaliningrad"@) {
        Some("RU"@)
    } else if has_prefix(tz, "Europe/London"@) {
        Some("GB"@)
    } else if has_prefix(tz, "Europe/Berlin"@) || has_prefix(tz, "Europe/Hamburg"@) {
        Some("DE"@)
    } else if has_prefix(tz, "America/New_York"@) || has_prefix(tz, "America/Los_Angeles"@) {
        Some("US"@)
    } else if has_prefix(tz, "Asia/Shanghai"@) || has_prefix(tz, "Asia/Chongqing"@) {
        Some("CN"@)
    } else if has_prefix(tz, "Europe/Riga"@) {
        Some("LV"@)
    } else {
        None
    }
}

/// The country code that a time zone implies (see [`timezone_country`]).
pub fn timezone_to_country(tz: &str) -> (r: Option<&'static str>)
    ensures
        match r {
            Some(c) => timezone_country(tz@) == Some(c@),
            None => timezone_country(tz@) is None,
        },
{
    if starts_with(tz, "Europe/Moscow") || starts_with(tz, "Europe/Kaliningrad") {
        Some("RU")
    } else if starts_with(tz, "Europe/London") {
        Some("GB")
    } else if starts_with(tz, "Europe/Berlin") || starts_with(tz, "Europe/Hamburg") {
        Some("DE")
    } else if starts_with(tz, "America/New_York") || starts_with(tz, "America/Los_Angeles") {
        Some("US")
    } else if starts_with(tz, "Asia/Shanghai") || starts_with(tz, "Asia/Chongqing") {
        Some("CN")
    } else if starts_with(tz, "Europe/Riga") {
        Some("LV")
    } else {
        None
    }
}

proof fn lemma_prefix_char(s: Seq<char>, p: Seq<char>, i: int)
    requires
        has_prefix(s, p),
        0 <= i < p.len(),
    ensures
        s[i] == p[i],
{
    assert(s.subrange(0, p.len() as int)[i] == p[i]);
}

/// The zone-to-country table: each of the eleven zone prefixes implies its
/// country.
pub proof fn lemma_timezone_table(tz: Seq<char>)
    ensures
        has_prefix(tz, "Europe/Moscow"@) ==> timezone_country(tz) == Some("RU"@),
        has_prefix(tz, "Europe/Kaliningrad"@) ==> timezone_country(tz) == Some("RU"@),
        has_prefix(tz, "Europe/London"@) ==> timezone_country(tz) == Some("GB"@),
        has_prefix(tz, "Europe/Berlin"@) ==> timezone_country(tz) == Some("DE"@),
        has_prefix(tz, "Europe/Hamburg"@) ==> timezone_country(tz) == Some("DE"@),
        has_prefix(tz, "America/New_York"@) ==> timezone_country(tz) == Some("US"@),
        has_prefix(tz, "America/Los_Angeles"@) ==> timezone_country(tz) == Some("US"@),
        has_prefix(tz, "Asia/Shanghai"@) ==> timezone_country(tz) == Some("CN"@),
        has_prefix(tz, "Asia/Chongqing"@) ==> timezone_country(tz) == Some("CN"@),
        has_prefix(tz, "Europe/Riga"@) ==> timezone_country(tz) == Some("LV"@),
{
    reveal_strlit("Europe/Moscow");
    reveal_strlit("Europe/Kaliningrad");
    reveal_strlit("Europe/London");
    reveal_strlit("Europe/Berlin");
    reveal_strlit("Europe/Hamburg");
    reveal_strlit("America/New_York");
    reveal_strlit("America/Los_Angeles");
    reveal_strlit("Asia/Shanghai");
    reveal_strlit("Asia/Chongqing");
    reveal_strlit("Europe/Riga");
    // zones of different families differ in their first two letters, zones
    // of Europe in their eighth
    if tz.len() > 7 {
        let c0 = tz[0];
        let c1 = tz[1];
        let c7 = tz[7];
        if has_prefix(tz, "Europe/Moscow"@) { lemma_prefix_char(tz, "Europe/Moscow"@, 7); }
        if has_prefix(tz, "Europe/Kaliningrad"@) { lemma_prefix_char(tz, "Europe/Kaliningrad"@, 7); }
        if has_prefix(tz, "Europe/London"@) { lemma_prefix_char(tz, "Europe/London"@, 7); }
        if has_prefix(tz, "Europe/Berlin"@) { lemma_prefix_char(tz, "Europe/Berlin"@, 7); }
        if has_prefix(tz, "Europe/Hamburg"@) { lemma_prefix_char(tz, "Europe/Hamburg"@, 7); }
        if has_prefix(tz, "Europe/Riga"@) { lemma_prefix_char(tz, "Europe/Riga"@, 7); }
        if has_prefix(tz, "America/New_York"@) { lemma_prefix_char(tz, "America/New_York"@, 1); }
        if has_prefix(tz, "America/Los_Angeles"@) { lemma_prefix_char(tz, "America/Los_Angeles"@, 1); }
        if has_prefix(tz, "Asia/Shanghai"@) { lemma_prefix_char(tz, "Asia/Shanghai"@, 1); }
        if has_prefix(tz, "Asia/Chongqing"@) { lemma_prefix_char(tz, "Asia/Chongqing"@, 1); }
        if has_prefix(tz, "Europe/Moscow"@) { lemma_prefix_char(tz, "Europe/Moscow"@, 1); }
        if has_prefix(tz, "Europe/Kaliningrad"@) { lemma_prefix_char(tz, "Europe/Kaliningrad"@, 1); }
        if has_prefix(tz, "Europe/London"@) { lemma_prefix_char(tz, "Europe/London"@, 1); }
        if has_prefix(tz, "Europe/Berlin"@) { lemma_prefix_char(tz, "Europe/Berlin"@, 1); }
        if has_prefix(tz, "Europe/Hamburg"@) { lemma_prefix_char(tz, "Europe/Hamburg"@, 1); }
        if has_prefix(tz, "Europe/Riga"@) { lemma_prefix_char(tz, "Europe/Riga"@, 1); }
    }
}

/// A time zone that implies another country than the address's is a
/// mismatch: a New York zone on an address outside the US scores 700.
pub proof fn lemma_timezone_mismatch_flagged(tz: Seq<char>, country: Seq<char>)
    ensures
        has_prefix(tz, "America/New_York"@) && country != "US"@ ==> timezone_mismatch_of(
            Some(country),
            tz,
        ) == 700,
        has_prefix(tz, "America/New_York"@) ==> timezone_mismatch_of(Some("US"@), tz) == 0,
        timezone_country(tz) matches Some(c) && c != country ==> timezone_mismatch_of(
            Some(country),
            tz,
        ) == 700,
{
    lemma_timezone_table(tz);
}

/// Risk of a browser time zone that contradicts the country of the address.
pub open spec fn timezone_mismatch_of(ip_country: Option<Seq<char>>, tz: Seq<char>) -> u32 {
    match ip_country {
        None => 0,
        Some(c) => match timezone_country(tz) {
            None => 0,
            Some(t) => if c != t { 700 } else { 0 },
        },
    }
}

/// The time-zone mismatch risk, given the address's country as the IP
/// service reported it (see [`timezone_mismatch_of`]).
pub fn timezone_mismatch_risk(ip_country: Option<&str>, tz: &str) -> (r: u32)
    ensures
        r == timezone_mismatch_of(
            match ip_country {
                Some(c) => Some(c@),
                None => None,
            },
            tz@,
        ),
{
    let country = match ip_country {
        Some(c) => c,
        None => return 0,
    };
    match timezone_to_country(tz) {
        None => 0,
        Some(t) => if str_eq(country, t) { 0 } else { 700 },
    }
}

// ── addresses ───────────────────────────────────────────────────────────────

/// Whether an address is private, loopback or unique-local.
pub open spec fn is_private(ip: Seq<char>) -> bool {
    has_prefix(ip, "192.168."@) || has_prefix(ip, "10."@) || has_prefix(ip, "172.16."@)
        || has_prefix(ip, "127."@) || has_prefix(ip, "::1"@) || has_prefix(ip, "fc"@)
        || has_prefix(ip, "fd"@)
}

/// Whether an address is private (see [`is_private`]).
pub fn is_private_ip(ip: &str) -> (r: bool)
    ensures
        r == is_private(ip@),
{
    starts_with(ip, "192.168.") || starts_with(ip, "10.") || starts_with(ip, "172.16.")
        || starts_with(ip, "127.") || starts_with(ip, "::1") || starts_with(ip, "fc")
        || starts_with(ip, "fd")
}

/// The first position at or after `from` that holds `c`, or -1.
pub open spec fn index_from(s: Seq<char>, c: char, from: int) -> int
    decreases s.len() - from,
{
    if from < 0 || from >= s.len() {
        -1
    } else if s[from] == c {
        from
    } else {
        index_from(s, c, from + 1)
    }
}

/// The first two dot-separated parts of an address; `None` without a dot.
pub open spec fn prefix_of(ip: Seq<char>) -> Option<(Seq<char>, Seq<char>)> {
    let d1 = index_from(ip, '.', 0);
    if d1 < 0 {
        None
    } else {
        let d2 = index_from(ip, '.', d1 + 1);
        let end = if d2 < 0 { ip.len() as int } else { d2 };
        Some((ip.subrange(0, d1), ip.subrange(d1 + 1, end)))
    }
}

proof fn lemma_index_from_range(s: Seq<char>, c: char, from: int)
    ensures
        index_from(s, c, from) == -1 || (from <= index_from(s, c, from) < s.len() && s[index_from(
            s,
            c,
            from,
        )] == c),
    decreases s.len() - from,
{
    if from >= 0 && from < s.len() && s[from] != c {
        lemma_index_from_range(s, c, from + 1);
    }
}

fn find_char(s: &Vec<char>, c: char, from: usize) -> (r: Option<usize>)
    ensures
        match r {
            Some(i) => i == index_from(s@, c, from as int),
            None => index_from(s@, c, from as int) == -1,
        },
{
    let mut i = from;
    while i < s.len()
        invariant
            from <= i,
            index_from(s@, c, from as int) == index_from(s@, c, i as int),
        decreases s.len() - i,
    {
        if s[i] == c {
            return Some(i);
        }
        i = i + 1;
    }
    None
}

/// The first two dot-separated parts of an address (see [`prefix_of`]).
pub fn ip_prefix(ip: &str) -> (r: Option<(&str, &str)>)
    ensures
        match r {
            Some((a, b)) => prefix_of(ip@) == Some((a@, b@)),
            None => prefix_of(ip@) is None,
        },
{
    let c = chars_of(ip);
    let d1 = match find_char(&c, '.', 0) {
        Some(i) => i,
        None => return None,
    };
    proof {
        lemma_index_from_range(c@, '.', 0);
        assert(d1 < c.len());
    }
    let end = match find_char(&c, '.', d1 + 1) {
        Some(i) => i,
        None => c.len(),
    };
    proof {
        lemma_index_from_range(c@, '.', d1 + 1);
    }
    Some((ip.substring_char(0, d1), ip.substring_char(d1 + 1, end)))
}

fn same_prefix(a: Option<(&str, &str)>, b: Option<(&str, &str)>) -> (r: bool)
    ensures
        r == (match a {
            Some((x, y)) => Some((x@, y@)),
            None => None,
        } == match b {
            Some((x, y)) => Some((x@, y@)),
            None => None,
        }),
{
    match (a, b) {
        (None, None) => true,
        (Some((x1, y1)), Some((x2, y2))) => str_eq(x1, x2) && str_eq(y1, y2),
        _ => false,
    }
}

/// What the WebRTC check concludes: a public WebRTC address whose first two
/// parts differ from the request address reveals a VPN exit (risk 850, and
/// the request address is to be remembered as a VPN); otherwise a public,
/// non-empty IPv6 address beside the request address is a weaker signal
/// (risk 600); otherwise nothing.
pub open spec fn webrtc_verdict(
    request_ip: Option<Seq<char>>,
    webrtc_ip: Option<Seq<char>>,
    ipv6: Option<Seq<char>>,
) -> (u32, bool) {
    if request_ip is Some && webrtc_ip is Some && !is_private(webrtc_ip->0) && prefix_of(
        request_ip->0,
    ) != prefix_of(webrtc_ip->0) {
        (850, true)
    } else if request_ip is Some && ipv6 is Some && !is_private(ipv6->0) && ipv6->0.len() > 0 {
        (600, false)
    } else {
        (0, false)
    }
}

/// The WebRTC leak check (see [`webrtc_verdict`]): the risk, and whether the
/// request address is a confirmed VPN exit.
pub fn webrtc_mismatch(
    request_ip: Option<&str>,
    webrtc_ip: Option<&str>,
    ipv6: Option<&str>,
) -> (r: (u32, bool))
    ensures
        r == webrtc_verdict(
            crate::identity::opt_view(request_ip),
            crate::identity::opt_view(webrtc_ip),
            crate::identity::opt_view(ipv6),
        ),
{
    if let (Some(req), Some(wrt)) = (request_ip, webrtc_ip) {
        if !is_private_ip(wrt) && !same_prefix(ip_prefix(req), ip_prefix(wrt)) {
            return (850, true);
        }
    }
    if let (Some(_), Some(v6)) = (request_ip, ipv6) {
        if !is_private_ip(v6) && !v6.is_empty() {
            return (600, false);
        }
    }
    (0, false)
}

/// Whether a lower-cased user agent names a browser-automation tool.
pub open spec fn names_automation(ua: Seq<char>) -> bool {
    has_infix(ua, "headless"@) || has_infix(ua, "phantomjs"@) || has_infix(ua, "selenium"@)
        || has_infix(ua, "webdriver"@) || has_infix(ua, "puppeteer"@)
}

/// A user agent that names a browser-automation tool (in any letter case) is
/// nearly certain to be automated, whatever else it says.
pub proof fn lemma_automation_tools_flagged(ua: Seq<char>)
    ensures
        has_infix(lowercase_of(ua), "headless"@) ==> user_agent_risk_of(Some(ua)) == 950,
        has_infix(lowercase_of(ua), "phantomjs"@) ==> user_agent_risk_of(Some(ua)) == 950,
        has_infix(lowercase_of(ua), "selenium"@) ==> user_agent_risk_of(Some(ua)) == 950,
        has_infix(lowercase_of(ua), "webdriver"@) ==> user_agent_risk_of(Some(ua)) == 950,
        has_infix(lowercase_of(ua), "puppeteer"@) ==> user_agent_risk_of(Some(ua)) == 950,
        ua.len() == 0 ==> user_agent_risk_of(Some(ua)) == 950,
{
}

/// Risk of a user agent: a missing one is half-suspicious; an empty one or
/// one naming an automation tool is nearly certain; one that names neither
/// Mozilla nor WebKit is suspicious; browsers are not.
pub open spec fn user_agent_risk_of(ua: Option<Seq<char>>) -> u32 {
    match ua {
        None => 500,
        Some(u) => {
            let low = lowercase_of(u);
            if names_automation(low) || u.len() == 0 {
                950
            } else if !has_infix(low, "mozilla"@) && !has_infix(low, "webkit"@) {
                600
            } else {
                0
            }
        },
    }
}

/// The user-agent risk (see [`user_agent_risk_of`]).
pub fn user_agent_risk(ua: Option<&str>) -> (r: u32)
    ensures
        r == user_agent_risk_of(crate::identity::opt_view(ua)),
{
    let ua = match ua {
        Some(u) => u,
        None => return 500,
    };
    let low = to_lower(ua);
    let l = low.as_str();
    if contains(l, "headless") || contains(l, "phantomjs") || contains(l, "selenium") || contains(
        l,
        "webdriver",
    ) || contains(l, "puppeteer") || ua.is_empty() {
        return 950;
    }
    if !contains(l, "mozilla") && !contains(l, "webkit") {
        return 600;
    }
    0
}

} // verus!
