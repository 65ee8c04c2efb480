//! Identities as 128-bit UUID values: parsing, name-based (version 5)
//! derivation, random (version 4) generation and text forms, and the key
//! under which a user's behaviour graph is kept.

use vstd::prelude::*;

verus! {

/// The RFC 4122 namespace for DNS names, 6ba7b810-9dad-11d1-80b4-00c04fd430c8.
pub const NAMESPACE_DNS: u128 = 0x6ba7b8109dad11d180b400c04fd430c8u128;

/// What `uuid::Uuid::parse_str` returns for `text`, as a 128-bit value
/// (`None` when the text is not a UUID).
pub uninterp spec fn parsed_uuid(text: Seq<char>) -> Option<u128>;

/// The version-5 (SHA-1, name-based) UUID of `name` in `namespace`,
/// as `uuid::Uuid::new_v5` computes it.
pub uninterp spec fn uuid_v5_of(namespace: u128, name: Seq<u8>) -> u128;

/// The `k`-th hex digit (0 = most significant) of a 128-bit value.
pub open spec fn nibble(u: u128, k: int) -> u128 {
    (u >> ((124 - 4 * k) as u32)) & 0xf
}

/// Lower-case hexadecimal digit of a value below sixteen.
pub open spec fn hex_char(n: u128) -> char {
    if n < 10 {
        (('0' as u32) + (n as u32)) as char
    } else {
        (('a' as u32) + (n as u32) - 10) as char
    }
}

/// The 32 lower-case hex digits of a UUID, most significant first.
pub open spec fn simple_form(u: u128) -> Seq<char> {
    Seq::new(32, |k: int| hex_char(nibble(u, k)))
}

/// The hyphenated text of a UUID: 8-4-4-4-12 lower-case hex digits.
pub open spec fn hyphenated_form(u: u128) -> Seq<char> {
    let h = simple_form(u);
    h.subrange(0, 8) + seq!['-'] + h.subrange(8, 12) + seq!['-'] + h.subrange(12, 16) + seq!['-']
        + h.subrange(16, 20) + seq!['-'] + h.subrange(20, 32)
}

/// The 16 bytes of a UUID value, most significant first.
pub open spec fn uuid_bytes_of(u: u128) -> Seq<u8> {
    Seq::new(16, |i: int| ((u >> ((120 - 8 * i) as u32)) & 0xff) as u8)
}

/// Whether a value carries the version-4 and RFC 4122 variant bits.
pub open spec fn is_random_uuid(u: u128) -> bool {
    (u >> 76u32) & 0xf == 4 && (u >> 62u32) & 0x3 == 2
}

/// Parses `text` as a UUID with `uuid::Uuid::parse_str`; `None` when it is not one.
#[verifier::external_body]
pub(crate) fn parse_uuid(text: &str) -> (r: Option<u128>)
    ensures
        r == parsed_uuid(text@),
{
    match uuid::Uuid::parse_str(text) {
        Ok(u) => Some(u.as_u128()),
        Err(_) => None,
    }
}

/// `uuid::Uuid::new_v5`: the name-based UUID of `name` in `namespace`.
#[verifier::external_body]
fn uuid_v5(namespace: u128, name: &[u8]) -> (r: u128)
    ensures
        r == uuid_v5_of(namespace, name@),
{
    uuid::Uuid::new_v5(&uuid::Uuid::from_u128(namespace), name).as_u128()
}

/// `uuid::Uuid::new_v4`: a random UUID. Its bits are random except the
/// version nibble (4) and the variant bits (binary 10), which the crate sets.
#[verifier::external_body]
pub(crate) fn random_uuid() -> (r: u128)
    ensures
        is_random_uuid(r),
{
    uuid::Uuid::new_v4().as_u128()
}

/// `to_string` of a `uuid::Uuid`: its hyphenated lower-case text, which
/// `uuid::Uuid::parse_str` reads back as the same UUID.
#[verifier::external_body]
pub(crate) fn hyphenated(u: u128) -> (r: String)
    ensures
        r@ == hyphenated_form(u),
        parsed_uuid(r@) == Some(u),
{
    uuid::Uuid::from_u128(u).to_string()
}

/// The 16 bytes of a UUID value, most significant first.
pub fn uuid_bytes(u: u128) -> (r: Vec<u8>)
    ensures
        r@ == uuid_bytes_of(u),
{
    let mut r: Vec<u8> = Vec::new();
    let mut i: u32 = 0;
    while i < 16
        invariant
            i <= 16,
            r.len() == i,
            forall|k: int| 0 <= k < i ==> #[trigger] r@[k] == ((u >> ((120 - 8 * k) as u32)) & 0xff) as u8,
        decreases 16 - i,
    {
        let shift: u32 = 120 - 8 * i;
        let b = ((u >> shift) & 0xff) as u8;
        r.push(b);
        i = i + 1;
    }
    assert(r@ =~= uuid_bytes_of(u));
    r
}

/// The user id that the SDK sent, as a UUID: a valid UUID text is used as
/// it is; any other text is mapped to the version-5 UUID of its UTF-8 bytes
/// in the DNS namespace.
pub open spec fn resolved_user_id(text: Seq<char>) -> u128 {
    match parsed_uuid(text) {
        Some(u) => u,
        None => uuid_v5_of(NAMESPACE_DNS, vstd::utf8::encode_utf8(text)),
    }
}

/// Resolves the SDK's user id to a UUID (see [`resolved_user_id`]).
pub fn resolve_user_id(text: &str) -> (r: u128)
    ensures
        r == resolved_user_id(text@),
{
    match parse_uuid(text) {
        Some(u) => u,
        None => uuid_v5(NAMESPACE_DNS, text.as_bytes()),
    }
}

/// The graph key of `subject` within tenant `tenant`: the version-5 UUID of
/// the subject's bytes in the tenant's namespace.
pub open spec fn namespaced_key(tenant: u128, subject: u128) -> u128 {
    uuid_v5_of(tenant, uuid_bytes_of(subject))
}

/// Scopes a subject to a tenant (see [`namespaced_key`]).
pub fn namespace_graph_key(tenant: u128, subject: u128) -> (r: u128)
    ensures
        r == namespaced_key(tenant, subject),
{
    let bytes = uuid_bytes(subject);
    uuid_v5(tenant, bytes.as_slice())
}

/// The key of the behaviour graph for an event: none without a tenant;
/// otherwise the authenticated end-user's id when there is one, else the
/// anonymous visitor id (hashed in the DNS namespace); none without either.
pub open spec fn graph_key_of(
    tenant: Option<u128>,
    user_id: Option<Seq<char>>,
    visitor_id: Option<Seq<char>>,
) -> Option<u128> {
    match tenant {
        None => None,
        Some(t) => match (user_id, visitor_id) {
            (Some(uid), _) => Some(namespaced_key(t, resolved_user_id(uid))),
            (None, Some(vid)) => Some(
                namespaced_key(t, uuid_v5_of(NAMESPACE_DNS, vstd::utf8::encode_utf8(vid))),
            ),
            (None, None) => None,
        },
    }
}

/// The text views of an optional slice.
pub open spec fn opt_view(s: Option<&str>) -> Option<Seq<char>> {
    match s {
        Some(x) => Some(x@),
        None => None,
    }
}

/// Resolves the graph key for an event (see [`graph_key_of`]).
pub fn resolve_graph_key(
    tenant: Option<u128>,
    user_id: Option<&str>,
    visitor_id: Option<&str>,
) -> (r: Option<u128>)
    ensures
        r == graph_key_of(tenant, opt_view(user_id), opt_view(visitor_id)),
{
    let t = match tenant {
        Some(t) => t,
        None => return None,
    };
    match (user_id, visitor_id) {
        (Some(uid), _) => Some(namespace_graph_key(t, resolve_user_id(uid))),
        (None, Some(vid)) => {
            let vid_key = uuid_v5(NAMESPACE_DNS, vid.as_bytes());
            Some(namespace_graph_key(t, vid_key))
        },
        (None, None) => None,
    }
}

/// The authenticated end-user outranks the device: once a user id is known,
/// the graph key does not depend on the visitor id at all.
pub proof fn lemma_user_id_outranks_visitor(
    tenant: Option<u128>,
    user_id: Seq<char>,
    visitor_a: Option<Seq<char>>,
    visitor_b: Option<Seq<char>>,
)
    ensures
        graph_key_of(tenant, Some(user_id), visitor_a) == graph_key_of(tenant, Some(user_id), visitor_b),
{
}

/// Without a tenant there is no graph: events are never scored under the
/// merchant's own identity.
pub proof fn lemma_no_tenant_no_graph(user_id: Option<Seq<char>>, visitor_id: Option<Seq<char>>)
    ensures
        graph_key_of(None, user_id, visitor_id) is None,
{
}

/// A user id that is already a UUID's text is used as that UUID.
pub proof fn lemma_uuid_text_used_as_is(text: Seq<char>, u: u128)
    requires
        parsed_uuid(text) == Some(u),
    ensures
        resolved_user_id(text) == u,
{
}

} // verus!
