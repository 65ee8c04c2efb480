use madrigal::network::{
    asn_risk, classify_network, datacenter_asn, fingerprint_risk, ip_prefix, ip_rotation_risk,
    is_private_ip, parse_asn, parse_u32, shared_ip_risk, shared_ip_shortcut, temporal_risk,
    timezone_mismatch_risk, timezone_to_country, user_agent_risk, webrtc_mismatch, IpInfo,
    NetworkType,
};

fn info(asn: Option<&str>, name: Option<&str>) -> IpInfo {
    IpInfo {
        country_code: None,
        asn: asn.map(String::from),
        as_name: name.map(String::from),
    }
}

#[test]
fn u32_parsing_follows_std() {
    for s in ["0", "42", "+7", "007", "4294967295", "4294967296", "", "+", "-1", "1a", " 1", "AS12"] {
        assert_eq!(parse_u32(s), s.parse::<u32>().ok(), "input {:?}", s);
    }
}

#[test]
fn asn_prefix_is_stripped_repeatedly() {
    assert_eq!(parse_asn("AS16509"), Some(16509));
    assert_eq!(parse_asn("ASAS13335"), Some(13335));
    assert_eq!(parse_asn("16509"), Some(16509));
    assert_eq!(parse_asn("as16509"), None);
    assert_eq!(parse_asn("AS"), None);
}

#[test]
fn datacenter_list() {
    assert!(datacenter_asn(16509));
    assert!(datacenter_asn(395954));
    assert!(!datacenter_asn(12389));
}

#[test]
fn network_classification() {
    assert_eq!(classify_network(true, None), NetworkType::VPN);
    assert_eq!(classify_network(false, None), NetworkType::Unknown);
    assert_eq!(
        classify_network(false, Some(&info(Some("AS14061"), Some("DigitalOcean, LLC")))),
        NetworkType::Datacenter
    );
    assert_eq!(
        classify_network(false, Some(&info(Some("AS9009"), Some("NordVPN")))),
        NetworkType::Datacenter
    );
    assert_eq!(
        classify_network(false, Some(&info(Some("AS123"), Some("Mullvad VPN AB")))),
        NetworkType::VPN
    );
    assert_eq!(
        classify_network(false, Some(&info(None, Some("PJSC MegaFon")))),
        NetworkType::Mobile
    );
    assert_eq!(
        classify_network(false, Some(&info(Some("bogus"), Some("Comcast Cable")))),
        NetworkType::Residential
    );
    assert_eq!(classify_network(false, Some(&info(None, None))), NetworkType::Residential);
}

#[test]
fn network_type_risks() {
    assert_eq!(asn_risk(NetworkType::VPN), 900);
    assert_eq!(asn_risk(NetworkType::Datacenter), 700);
    assert_eq!(asn_risk(NetworkType::Mobile), 50);
    assert_eq!(asn_risk(NetworkType::Residential), 0);
    assert_eq!(asn_risk(NetworkType::Unknown), 200);
}

#[test]
fn shared_ip_buckets() {
    assert_eq!(shared_ip_shortcut(None), Some(100));
    assert_eq!(shared_ip_shortcut(Some("")), Some(0));
    assert_eq!(shared_ip_shortcut(Some("127.0.0.1")), Some(0));
    assert_eq!(shared_ip_shortcut(Some("8.8.8.8")), None);
    let cases = [(0, 0), (2, 0), (3, 150), (10, 150), (11, 400), (50, 400), (51, 700), (200, 700), (201, 900), (-1, 900)];
    for (n, r) in cases {
        assert_eq!(shared_ip_risk(n), r, "count {}", n);
    }
}

#[test]
fn rotation_fingerprint_temporal_buckets() {
    let rot = [(0, 0), (3, 0), (4, 200), (8, 200), (9, 550), (20, 550), (21, 850)];
    for (n, r) in rot { assert_eq!(ip_rotation_risk(n), r); }
    let fp = [(2, 0), (3, 300), (10, 300), (11, 650), (30, 650), (31, 900)];
    for (n, r) in fp { assert_eq!(fingerprint_risk(n), r); }
    let tp = [(8, 0), (9, 150), (14, 150), (15, 400), (20, 400), (21, 750), (24, 750)];
    for (n, r) in tp { assert_eq!(temporal_risk(n), r); }
}

#[test]
fn counter_risks_never_decrease() {
    for n in 0i64..300 {
        assert!(shared_ip_risk(n) <= shared_ip_risk(n + 1));
        assert!(ip_rotation_risk(n) <= ip_rotation_risk(n + 1));
        assert!(fingerprint_risk(n) <= fingerprint_risk(n + 1));
        assert!(temporal_risk(n) <= temporal_risk(n + 1));
    }
}

#[test]
fn timezones_map_to_countries() {
    assert_eq!(timezone_to_country("Europe/Moscow"), Some("RU"));
    assert_eq!(timezone_to_country("Europe/Kaliningrad"), Some("RU"));
    assert_eq!(timezone_to_country("Europe/London"), Some("GB"));
    assert_eq!(timezone_to_country("Europe/Berlin"), Some("DE"));
    assert_eq!(timezone_to_country("America/Los_Angeles"), Some("US"));
    assert_eq!(timezone_to_country("Asia/Chongqing"), Some("CN"));
    assert_eq!(timezone_to_country("Europe/Riga"), Some("LV"));
    assert_eq!(timezone_to_country("Europe/Paris"), None);
    assert_eq!(timezone_to_country("Asia/Tokyo"), None);
}

#[test]
fn timezone_mismatch() {
    assert_eq!(timezone_mismatch_risk(Some("US"), "Europe/Moscow"), 700);
    assert_eq!(timezone_mismatch_risk(Some("RU"), "Europe/Moscow"), 0);
    assert_eq!(timezone_mismatch_risk(Some("US"), "Asia/Tokyo"), 0);
    assert_eq!(timezone_mismatch_risk(None, "Europe/Moscow"), 0);
}

#[test]
fn private_addresses() {
    for ip in ["192.168.1.4", "10.0.0.1", "172.16.3.3", "127.0.0.1", "::1", "fc00::1", "fd12::3"] {
        assert!(is_private_ip(ip), "{}", ip);
    }
    for ip in ["8.8.8.8", "172.17.0.1", "2001:db8::1", "11.0.0.1"] {
        assert!(!is_private_ip(ip), "{}", ip);
    }
}

#[test]
fn prefixes_are_first_two_parts() {
    assert_eq!(ip_prefix("203.0.113.7"), Some(("203", "0")));
    assert_eq!(ip_prefix("1.2"), Some(("1", "2")));
    assert_eq!(ip_prefix("1."), Some(("1", "")));
    assert_eq!(ip_prefix("2001:db8::1"), None);
}

#[test]
fn webrtc_leaks() {
    assert_eq!(webrtc_mismatch(Some("203.0.113.7"), Some("198.51.100.2"), None), (850, true));
    assert_eq!(webrtc_mismatch(Some("203.0.113.7"), Some("203.0.9.9"), None), (0, false));
    assert_eq!(webrtc_mismatch(Some("203.0.113.7"), Some("192.168.0.2"), None), (0, false));
    assert_eq!(webrtc_mismatch(Some("203.0.113.7"), None, Some("2001:db8::1")), (600, false));
    assert_eq!(webrtc_mismatch(Some("203.0.113.7"), None, Some("fd00::1")), (0, false));
    assert_eq!(webrtc_mismatch(Some("203.0.113.7"), None, Some("")), (0, false));
    assert_eq!(webrtc_mismatch(None, Some("198.51.100.2"), Some("2001:db8::1")), (0, false));
}

#[test]
fn user_agents() {
    assert_eq!(user_agent_risk(None), 500);
    assert_eq!(user_agent_risk(Some("")), 950);
    assert_eq!(user_agent_risk(Some("Mozilla/5.0 HeadlessChrome/120")), 950);
    assert_eq!(user_agent_risk(Some("python-requests/2.31")), 600);
    assert_eq!(user_agent_risk(Some("Mozilla/5.0 (X11; Linux x86_64)")), 0);
    assert_eq!(user_agent_risk(Some("AppleWebKit/605")), 0);
}

#[test]
fn remembered_vpn_exit_needs_no_lookup() {
    let dc = info(Some("AS16509"), Some("Amazon.com"));
    assert_eq!(classify_network(true, Some(&dc)), NetworkType::VPN);
    assert_eq!(classify_network(true, None), classify_network(true, Some(&dc)));
}
