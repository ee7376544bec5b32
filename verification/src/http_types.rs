//! The parts of the `http` crate that the client uses: header maps, header
//! names and values, and status codes. Each item here is trusted: its
//! contract states what the `http` source shows.
use vstd::prelude::*;
use http::header::{HeaderMap, HeaderName, HeaderValue};
use vstd::string::StringSliceAdditionalSpecFns;

verus! {

#[verifier::external_type_specification]
#[verifier::external_body]
#[verifier::reject_recursive_types(T)]
pub struct ExHeaderMap<T>(HeaderMap<T>);

#[verifier::external_type_specification]
#[verifier::external_body]
pub struct ExHeaderName(HeaderName);

#[verifier::external_type_specification]
#[verifier::external_body]
pub struct ExHeaderValue(HeaderValue);

/// What a header map holds: for each header name (its lower-case bytes), the
/// bytes of the values stored under it, in insertion order.
pub uninterp spec fn header_map_view(m: HeaderMap) -> Map<Seq<u8>, Seq<Seq<u8>>>;

/// The names of a header map in the order the map keeps them: the order in
/// which names were first inserted (removals aside, which the library does
/// not make).
pub uninterp spec fn header_map_keys(m: HeaderMap) -> Seq<Seq<u8>>;

/// The bytes that a header name holds (always lower case).
pub uninterp spec fn header_name_bytes(n: HeaderName) -> Seq<u8>;

/// The bytes that a header value holds.
pub uninterp spec fn header_value_bytes(v: HeaderValue) -> Seq<u8>;

/// The contents of a map without headers.
pub open spec fn no_headers() -> Map<Seq<u8>, Seq<Seq<u8>>> {
    Map::empty()
}

/// The names list each name of the map once and nothing else.
pub open spec fn keys_match(keys: Seq<Seq<u8>>, m: Map<Seq<u8>, Seq<Seq<u8>>>) -> bool {
    &&& keys.no_duplicates()
    &&& forall|k: Seq<u8>| #[trigger] keys.contains(k) <==> m.dom().contains(k)
}

/// The names after inserting `name`: unchanged where the map had it, else
/// with `name` added last.
pub open spec fn keys_after_insert(
    keys: Seq<Seq<u8>>,
    m: Map<Seq<u8>, Seq<Seq<u8>>>,
    name: Seq<u8>,
) -> Seq<Seq<u8>> {
    if m.dom().contains(name) {
        keys
    } else {
        keys.push(name)
    }
}

/// The (name, value) pairs of a map, name by name in the order `keys`
/// gives, and under each name its values in order.
pub open spec fn ordered_pairs(keys: Seq<Seq<u8>>, m: Map<Seq<u8>, Seq<Seq<u8>>>) -> Seq<(Seq<u8>, Seq<u8>)>
    decreases keys.len(),
{
    if keys.len() == 0 {
        Seq::empty()
    } else {
        let k = keys.last();
        ordered_pairs(keys.drop_last(), m) + m[k].map_values(|v: Seq<u8>| (k, v))
    }
}

/// The most distinct names a header map may hold before an insertion, so
/// that the insertion cannot exceed the map's maximal capacity.
pub open spec fn header_map_insert_limit() -> nat {
    6553
}

/// A byte that may stand in a header name (an RFC 9110 token character).
pub open spec fn is_token_byte(b: u8) -> bool {
    ||| (48u8 <= b && b <= 57u8)
    ||| (97u8 <= b && b <= 122u8)
    ||| (65u8 <= b && b <= 90u8)
    ||| b == 33u8 || b == 35u8 || b == 36u8 || b == 37u8 || b == 38u8 || b == 39u8
    ||| b == 42u8 || b == 43u8 || b == 45u8 || b == 46u8 || b == 94u8 || b == 95u8
    ||| b == 96u8 || b == 124u8 || b == 126u8
}

/// The bytes of a valid header name: between 1 and 65535 token bytes.
pub open spec fn is_valid_header_name(bytes: Seq<u8>) -> bool {
    &&& 1 <= bytes.len() <= 65535
    &&& forall|i: int| 0 <= i < bytes.len() ==> is_token_byte(#[trigger] bytes[i])
}

pub open spec fn lower_byte(b: u8) -> u8 {
    if 65u8 <= b && b <= 90u8 {
        (b + 32) as u8
    } else {
        b
    }
}

/// The bytes of a header name as the map stores it: ASCII letters lowered.
pub open spec fn lowercase_bytes(bytes: Seq<u8>) -> Seq<u8> {
    bytes.map_values(|b: u8| lower_byte(b))
}

/// A byte that a header value may hold.
pub open spec fn is_value_byte(b: u8) -> bool {
    (b >= 32 && b != 127) || b == 9
}

pub open spec fn is_valid_header_value(bytes: Seq<u8>) -> bool {
    forall|i: int| 0 <= i < bytes.len() ==> is_value_byte(#[trigger] bytes[i])
}

/// A visible ASCII byte (or a tab): what a header value must hold to be read
/// as text.
pub open spec fn is_visible_byte(b: u8) -> bool {
    (b >= 32 && b < 127) || b == 9
}

pub open spec fn is_visible_text(bytes: Seq<u8>) -> bool {
    forall|i: int| 0 <= i < bytes.len() ==> is_visible_byte(#[trigger] bytes[i])
}

/// The characters that ASCII bytes stand for.
pub open spec fn ascii_chars(bytes: Seq<u8>) -> Seq<char> {
    bytes.map_values(|b: u8| b as char)
}

/// The bytes of the characters of an ASCII text.
pub open spec fn ascii_bytes(chars: Seq<char>) -> Seq<u8> {
    chars.map_values(|c: char| c as u8)
}

/// `HeaderMap::new`: an empty map.
#[verifier::external_body]
pub fn header_map_new() -> (m: HeaderMap)
    ensures
        header_map_view(m) == no_headers(),
        header_map_keys(m).len() == 0,
{
    HeaderMap::new()
}

/// `HeaderMap::with_capacity`: an empty map; the call panics on capacities
/// above 24576, which `requires` leaves out.
#[verifier::external_body]
pub fn header_map_with_capacity(capacity: usize) -> (m: HeaderMap)
    requires
        capacity <= 24576,
    ensures
        header_map_view(m) == no_headers(),
        header_map_keys(m).len() == 0,
{
    HeaderMap::with_capacity(capacity)
}

/// `HeaderMap::insert`: the name now maps to the one value given; all values
/// it had before are gone; a new name goes last in the map's order. The call
/// panics only when the map would outgrow its maximal capacity, which cannot
/// happen below `header_map_insert_limit()` distinct names.
#[verifier::external_body]
pub fn header_map_insert(m: &mut HeaderMap, name: HeaderName, value: HeaderValue)
    requires
        header_map_view(*old(m)).dom().finite(),
        header_map_view(*old(m)).dom().len() <= header_map_insert_limit(),
    ensures
        header_map_view(*final(m)) == header_map_view(*old(m)).insert(
            header_name_bytes(name),
            seq![header_value_bytes(value)],
        ),
        header_map_keys(*final(m)) == keys_after_insert(
            header_map_keys(*old(m)),
            header_map_view(*old(m)),
            header_name_bytes(name),
        ),
{
    m.insert(name, value);
}

/// `HeaderMap::try_insert`: as `insert` where it succeeds; where the map
/// would outgrow its maximal capacity it fails and leaves the map as it was.
/// Whether it fails past `header_map_insert_limit()` names depends on how the
/// names hash, which the contract leaves open; below that it succeeds.
#[verifier::external_body]
pub fn header_map_try_insert(m: &mut HeaderMap, name: HeaderName, value: HeaderValue) -> (ok: bool)
    ensures
        ok ==> header_map_view(*final(m)) == header_map_view(*old(m)).insert(
            header_name_bytes(name),
            seq![header_value_bytes(value)],
        ),
        ok ==> header_map_keys(*final(m)) == keys_after_insert(
            header_map_keys(*old(m)),
            header_map_view(*old(m)),
            header_name_bytes(name),
        ),
        !ok ==> header_map_view(*final(m)) == header_map_view(*old(m)),
        !ok ==> header_map_keys(*final(m)) == header_map_keys(*old(m)),
        header_map_view(*old(m)).dom().finite() && header_map_view(*old(m)).dom().len()
            <= header_map_insert_limit() ==> ok,
{
    m.try_insert(name, value).is_ok()
}

/// `HeaderMap::keys_len`: the number of distinct names in the map.
#[verifier::external_body]
pub fn header_map_keys_len(m: &HeaderMap) -> (count: usize)
    ensures
        count == header_map_view(*m).dom().len(),
        count == header_map_keys(*m).len(),
        count >= 0 ==> header_map_view(*m).dom().finite(),
{
    m.keys_len()
}

/// The bytes of a sequence of (name, value) pairs.
pub open spec fn pairs_bytes(items: Seq<(HeaderName, HeaderValue)>) -> Seq<(Seq<u8>, Seq<u8>)> {
    items.map_values(|p: (HeaderName, HeaderValue)| (header_name_bytes(p.0), header_value_bytes(p.1)))
}

/// The values that the pairs hold under `name`, in their order.
pub open spec fn values_for(items: Seq<(Seq<u8>, Seq<u8>)>, name: Seq<u8>) -> Seq<Seq<u8>>
    decreases items.len(),
{
    if items.len() == 0 {
        Seq::empty()
    } else {
        let rest = values_for(items.drop_last(), name);
        if items.last().0 == name {
            rest.push(items.last().1)
        } else {
            rest
        }
    }
}

/// The pairs list exactly what the map holds: every name of a pair is in the
/// map, and under each name of the map the pairs hold its values in order.
pub open spec fn pairs_agree(items: Seq<(Seq<u8>, Seq<u8>)>, m: Map<Seq<u8>, Seq<Seq<u8>>>) -> bool {
    &&& m.dom().finite()
    &&& forall|i: int| 0 <= i < items.len() ==> m.dom().contains(#[trigger] items[i].0)
    &&& forall|k: Seq<u8>| #[trigger] m.dom().contains(k) ==> values_for(items, k) == m[k] && m[k].len() > 0
}

/// `HeaderMap::iter`: every (name, value) pair of the map, each name once per
/// value: name by name in the map's order, and under one name the values in
/// insertion order.
#[verifier::external_body]
pub fn header_map_pairs(m: &HeaderMap) -> (items: Vec<(HeaderName, HeaderValue)>)
    ensures
        pairs_agree(pairs_bytes(items@), header_map_view(*m)),
        pairs_bytes(items@) == ordered_pairs(header_map_keys(*m), header_map_view(*m)),
        items@.len() >= 0 ==> keys_match(header_map_keys(*m), header_map_view(*m)),
{
    m.iter().map(|(k, v)| (k.clone(), v.clone())).collect()
}

/// `HeaderName::try_from(&String)`: a name exists exactly for the valid
/// names, and holds them lower-cased.
#[verifier::external_body]
pub fn header_name_from_string(s: &String) -> (n: Option<HeaderName>)
    ensures
        n is Some <==> is_valid_header_name(vstd::utf8::encode_utf8(s@)),
        n matches Some(name) ==> header_name_bytes(name) == lowercase_bytes(vstd::utf8::encode_utf8(s@)),
{
    HeaderName::try_from(s).ok()
}

/// `HeaderName::as_str`: the characters of the name's bytes.
#[verifier::external_body]
pub fn header_name_as_str(n: &HeaderName) -> (s: &str)
    ensures
        s@ == ascii_chars(header_name_bytes(*n)),
        s.spec_bytes() == header_name_bytes(*n),
{
    n.as_str()
}

/// `http::header::ACCEPT`.
#[verifier::external_body]
pub fn accept_name() -> (n: HeaderName)
    ensures
        header_name_bytes(n) == seq![97u8, 99u8, 99u8, 101u8, 112u8, 116u8],
{
    http::header::ACCEPT
}

/// `http::header::USER_AGENT`.
#[verifier::external_body]
pub fn user_agent_name() -> (n: HeaderName)
    ensures
        header_name_bytes(n) == seq![117u8, 115u8, 101u8, 114u8, 45u8, 97u8, 103u8, 101u8, 110u8, 116u8],
{
    http::header::USER_AGENT
}

/// `HeaderValue::try_from(&str)`: a value exists exactly when every byte of
/// the text may stand in a header value, and holds those bytes.
#[verifier::external_body]
pub fn header_value_from_str(s: &str) -> (v: Option<HeaderValue>)
    ensures
        v is Some <==> is_valid_header_value(s.spec_bytes()),
        v matches Some(value) ==> header_value_bytes(value) == s.spec_bytes(),
{
    HeaderValue::try_from(s).ok()
}

/// `HeaderValue::from_bytes`: a value exists exactly when every byte may
/// stand in a header value, and holds those bytes.
#[verifier::external_body]
pub fn header_value_from_bytes(bytes: &[u8]) -> (v: Option<HeaderValue>)
    ensures
        v is Some <==> is_valid_header_value(bytes@),
        v matches Some(value) ==> header_value_bytes(value) == bytes@,
{
    HeaderValue::from_bytes(bytes).ok()
}

/// `HeaderValue::from_static`: panics unless every byte is visible ASCII,
/// which `requires` leaves out.
#[verifier::external_body]
pub fn header_value_from_static(s: &'static str) -> (v: HeaderValue)
    requires
        is_visible_text(s.spec_bytes()),
    ensures
        header_value_bytes(v) == s.spec_bytes(),
{
    HeaderValue::from_static(s)
}

/// `HeaderValue::to_str`: text exactly when every byte is visible ASCII, and
/// then the text of those bytes.
#[verifier::external_body]
pub fn header_value_to_str(v: &HeaderValue) -> (s: Option<&str>)
    ensures
        s is Some <==> is_visible_text(header_value_bytes(*v)),
        s matches Some(text) ==> text.spec_bytes() == header_value_bytes(*v)
            && text@ == ascii_chars(header_value_bytes(*v)),
{
    v.to_str().ok()
}

/// `StatusCode::from_u16`: a status code exists exactly for 100 through 999,
/// and keeps the number.
#[verifier::external_body]
pub fn status_code_from_u16(code: u16) -> (s: Option<u16>)
    ensures
        s is Some <==> 100 <= code <= 999,
        s matches Some(c) ==> c == code,
{
    match http::StatusCode::from_u16(code) {
        Ok(status) => Some(status.as_u16()),
        Err(_) => None,
    }
}

} // verus!
