use madrigal::identity::{namespace_graph_key, resolve_graph_key, resolve_user_id, uuid_bytes, NAMESPACE_DNS};
use uuid::Uuid;

const PYTHON_ORG_V5: u128 = 0x886313e1_3b8a_5372_9b90_0c9aee199e5d;

#[test]
fn namespace_dns_matches_rfc_value() {
    assert_eq!(NAMESPACE_DNS, Uuid::NAMESPACE_DNS.as_u128());
}

#[test]
fn non_uuid_user_id_is_hashed_in_dns_namespace() {
    assert_eq!(resolve_user_id("python.org"), PYTHON_ORG_V5);
}

#[test]
fn uuid_user_id_is_used_as_is() {
    assert_eq!(
        resolve_user_id("a1a2a3a4-b1b2-c1c2-d1d2-d3d4d5d6d7d8"),
        0xa1a2a3a4b1b2c1c2d1d2d3d4d5d6d7d8
    );
    // the simple (unhyphenated) form is a UUID too
    assert_eq!(
        resolve_user_id("a1a2a3a4b1b2c1c2d1d2d3d4d5d6d7d8"),
        0xa1a2a3a4b1b2c1c2d1d2d3d4d5d6d7d8
    );
}

#[test]
fn uuid_bytes_are_big_endian() {
    let b = uuid_bytes(0x000102030405060708090a0b0c0d0e0f);
    assert_eq!(b, (0u8..16).collect::<Vec<u8>>());
    assert_eq!(uuid_bytes(PYTHON_ORG_V5), Uuid::from_u128(PYTHON_ORG_V5).as_bytes().to_vec());
}

#[test]
fn graph_key_is_v5_of_subject_in_tenant_namespace() {
    let tenant: u128 = 0x11111111_2222_3333_4444_555555555555;
    let subject: u128 = PYTHON_ORG_V5;
    let expected = Uuid::new_v5(&Uuid::from_u128(tenant), Uuid::from_u128(subject).as_bytes()).as_u128();
    assert_eq!(namespace_graph_key(tenant, subject), expected);
    assert_ne!(namespace_graph_key(tenant, subject), subject);
}

#[test]
fn graph_key_prefers_user_over_visitor() {
    let tenant: u128 = 7;
    let with_visitor = resolve_graph_key(Some(tenant), Some("python.org"), Some("device-1"));
    let without_visitor = resolve_graph_key(Some(tenant), Some("python.org"), None);
    assert_eq!(with_visitor, without_visitor);
    assert_eq!(with_visitor, Some(namespace_graph_key(tenant, PYTHON_ORG_V5)));
}

#[test]
fn graph_key_falls_back_to_visitor() {
    let tenant: u128 = 7;
    let visitor_uuid = Uuid::new_v5(&Uuid::NAMESPACE_DNS, b"device-1").as_u128();
    assert_eq!(
        resolve_graph_key(Some(tenant), None, Some("device-1")),
        Some(namespace_graph_key(tenant, visitor_uuid))
    );
}

#[test]
fn graph_key_needs_tenant_and_identity() {
    assert_eq!(resolve_graph_key(None, Some("u"), Some("v")), None);
    assert_eq!(resolve_graph_key(Some(1), None, None), None);
}

#[test]
fn graph_keys_differ_between_tenants() {
    let a = resolve_graph_key(Some(1), Some("same-user"), None);
    let b = resolve_graph_key(Some(2), Some("same-user"), None);
    assert_ne!(a, b);
}
