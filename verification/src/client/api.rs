//! The portal's API: the shapes of its requests and responses, its routes,
//! and how an error response becomes a `ForgeError`.
use vstd::prelude::*;

use crate::error::ForgeError;
use crate::text::{append_text, copy_opt, text_eq, text_from};

verus! {

// ── Response types matching server JSON ──────────────────────────────

pub struct CatalogResponse {
    pub projects: Vec<CatalogProject>,
}

pub struct CatalogProject {
    pub id: i64,
    pub name: String,
    pub slug: String,
    pub tools: Vec<CatalogTool>,
}

/// A tool of the catalog. `platforms` holds the server's map from platform
/// key to build as pairs, in the order the map was read, each key once
/// (`platform_keys_unique`): `platform_map` makes the pairs so.
pub struct CatalogTool {
    pub id: i64,
    pub name: String,
    pub slug: String,
    pub prerequisites: Option<String>,
    pub platforms: Vec<(String, PlatformInfo)>,
    pub mappings: Vec<MappingInfo>,
}

pub struct PlatformInfo {
    pub latest_filename: String,
    pub latest_url: Option<String>,
    pub version: Option<String>,
    pub sha256: Option<String>,
    pub size_bytes: Option<i64>,
}

impl Clone for PlatformInfo {
    fn clone(&self) -> (r: Self)
        ensures
            r == *self,
    {
        PlatformInfo {
            latest_filename: self.latest_filename.clone(),
            latest_url: copy_opt(&self.latest_url),
            version: copy_opt(&self.version),
            sha256: copy_opt(&self.sha256),
            size_bytes: self.size_bytes,
        }
    }
}

pub struct ToolDetailResponse {
    pub project: ToolDetailProject,
    pub tool: ToolDetailTool,
}

pub struct ToolDetailProject {
    pub name: String,
    pub slug: String,
}

/// The detail of one tool. `platforms` holds the server's map from platform
/// key to build as pairs, in the order the map was read, each key once
/// (`platform_keys_unique`): `platform_map` makes the pairs so.
pub struct ToolDetailTool {
    pub id: i64,
    pub name: String,
    pub slug: String,
    pub prerequisites: Option<String>,
    pub platforms: Vec<(String, PlatformInfo)>,
    pub mappings: Vec<MappingInfo>,
    pub dependencies: Vec<ToolDependency>,
    pub releases: Vec<ReleaseInfo>,
}

pub struct MappingInfo {
    pub platform_arch: String,
    pub latest_filename: String,
    pub latest_url: Option<String>,
    pub version: Option<String>,
    pub sha256: Option<String>,
    pub size_bytes: Option<i64>,
}

pub struct ToolDependency {
    pub tool_id: i64,
    pub tool_name: String,
    pub tool_slug: String,
    pub project_name: String,
    pub project_slug: String,
    pub dependency_type: String,
    pub sort_order: i32,
}

pub struct ReleaseInfo {
    pub id: i64,
    pub version: Option<String>,
    pub created_at: Option<String>,
    pub notes: Option<String>,
}

pub struct PresignResponse {
    pub url: String,
    pub expires_at: String,
    pub sha256: Option<String>,
    pub size_bytes: Option<i64>,
    pub filename: String,
}

// ── Pairing types ────────────────────────────────────────────────────

pub struct PairingStartRequest {
    pub org_slug: String,
    pub app_id: String,
    pub instance_id: String,
    pub requested_scopes: Vec<String>,
    pub metadata: PairingMetadata,
}

pub struct PairingMetadata {
    pub hostname: String,
    pub platform: String,
    pub arch: String,
}

pub struct PairingStartResponse {
    pub pairing_code: String,
    pub pairing_url: String,
    pub expires_in: i64,
}

pub struct PairingStatusResponse {
    pub status: String,
    pub exchange_token: Option<String>,
    pub exchange_expires_in: Option<i64>,
    pub effective_ttl_seconds: Option<i64>,
    pub expires_at: Option<String>,
}

pub struct PairingExchangeRequest {
    pub pairing_code: String,
    pub exchange_token: String,
}

pub struct PairingExchangeResponse {
    pub access_token: String,
    pub token_type: String,
    pub expires_at: String,
    pub scopes: Vec<String>,
}

// ── Presign request ──────────────────────────────────────────────────

pub struct PresignLatestRequest {
    pub project: String,
    pub tool: String,
    pub platform_arch: String,
    pub latest_filename: String,
}

// ── Platform maps ────────────────────────────────────────────────────

/// The index of the first entry for platform key `key`.
pub open spec fn platform_position(ps: Seq<(String, PlatformInfo)>, key: Seq<char>) -> Option<int>
    decreases ps.len(),
{
    if ps.len() == 0 {
        None
    } else if ps[0].0@ == key {
        Some(0)
    } else {
        match platform_position(ps.drop_first(), key) {
            Some(i) => Some(i + 1),
            None => None,
        }
    }
}

/// The build recorded for platform key `key`.
pub open spec fn platform_lookup(ps: Seq<(String, PlatformInfo)>, key: Seq<char>) -> Option<
    PlatformInfo,
> {
    match platform_position(ps, key) {
        Some(i) => Some(ps[i].1),
        None => None,
    }
}

/// The platform keys, in order.
pub open spec fn platform_keys(ps: Seq<(String, PlatformInfo)>) -> Seq<Seq<char>> {
    ps.map_values(|e: (String, PlatformInfo)| e.0@)
}

proof fn lemma_platform_position_at(ps: Seq<(String, PlatformInfo)>, key: Seq<char>, i: int)
    requires
        0 <= i <= ps.len(),
        forall|j: int| 0 <= j < i ==> (#[trigger] ps[j]).0@ != key,
        i < ps.len() ==> ps[i].0@ == key,
    ensures
        platform_position(ps, key) == (if i < ps.len() { Some(i) } else { None::<int> }),
    decreases i,
{
    if i > 0 {
        assert forall|j: int| 0 <= j < i - 1 implies (#[trigger] ps.drop_first()[j]).0@ != key by {
            assert(ps.drop_first()[j] == ps[j + 1]);
        }
        assert(ps[0].0@ != key);
        lemma_platform_position_at(ps.drop_first(), key, i - 1);
    }
}

/// The index of the build for platform key `key` (std's `HashMap::get` on
/// the server's map).
pub fn platform_index(ps: &Vec<(String, PlatformInfo)>, key: &str) -> (r: Option<usize>)
    ensures
        match r {
            Some(i) => i < ps@.len() && platform_position(ps@, key@) == Some(i as int),
            None => platform_position(ps@, key@) is None,
        },
{
    let n = ps.len();
    let mut i: usize = 0;
    while i < n
        invariant
            n == ps@.len(),
            i <= n,
            forall|j: int| 0 <= j < i ==> (#[trigger] ps@[j]).0@ != key@,
        decreases n - i,
    {
        if text_eq(ps[i].0.as_str(), key) {
            proof {
                lemma_platform_position_at(ps@, key@, i as int);
            }
            return Some(i);
        }
        i = i + 1;
    }
    proof {
        lemma_platform_position_at(ps@, key@, n as int);
    }
    None
}

/// No platform key occurs twice: the pairs are a map, as the server sends
/// them. Every platform map of the library is made by `platform_map`,
/// which keeps this.
pub open spec fn platform_keys_unique(ps: Seq<(String, PlatformInfo)>) -> bool {
    forall|i: int, j: int| 0 <= i < j < ps.len() ==> (#[trigger] ps[i]).0@ != (#[trigger] ps[j]).0@
}

proof fn lemma_platform_position_none(ps: Seq<(String, PlatformInfo)>, key: Seq<char>)
    ensures
        platform_position(ps, key) is None <==> forall|j: int| 0 <= j < ps.len() ==> (#[trigger] ps[j]).0@ != key,
        platform_position(ps, key) matches Some(i) ==> 0 <= i < ps.len() && ps[i].0@ == key,
    decreases ps.len(),
{
    if ps.len() > 0 {
        lemma_platform_position_none(ps.drop_first(), key);
        if ps[0].0@ != key {
            if platform_position(ps.drop_first(), key) is None {
                assert forall|j: int| 0 <= j < ps.len() implies (#[trigger] ps[j]).0@ != key by {
                    if j > 0 {
                        assert(ps.drop_first()[j - 1] == ps[j]);
                    }
                }
            } else {
                let i = platform_position(ps.drop_first(), key)->0;
                assert(ps.drop_first()[i] == ps[i + 1]);
            }
        }
    }
}

proof fn lemma_platform_position_push(ps: Seq<(String, PlatformInfo)>, e: (String, PlatformInfo), key: Seq<char>)
    ensures
        platform_position(ps.push(e), key) == match platform_position(ps, key) {
            Some(i) => Some(i),
            None => if e.0@ == key {
                Some(ps.len() as int)
            } else {
                None
            },
        },
    decreases ps.len(),
{
    if ps.len() > 0 {
        assert(ps.push(e)[0] == ps[0]);
        assert(ps.push(e).drop_first() =~= ps.drop_first().push(e));
        lemma_platform_position_push(ps.drop_first(), e, key);
    } else {
        assert(ps.push(e)[0] == e);
        assert(ps.push(e).drop_first() =~= Seq::<(String, PlatformInfo)>::empty());
        assert(platform_position(Seq::<(String, PlatformInfo)>::empty(), key) is None);
    }
}

proof fn lemma_platform_push(ps: Seq<(String, PlatformInfo)>, e: (String, PlatformInfo), key: Seq<char>)
    ensures
        platform_lookup(ps.push(e), key) == match platform_lookup(ps, key) {
            Some(b) => Some(b),
            None => if e.0@ == key {
                Some(e.1)
            } else {
                None
            },
        },
{
    lemma_platform_position_push(ps, e, key);
    lemma_platform_position_none(ps, key);
    match platform_position(ps, key) {
        Some(i) => {
            assert(ps.push(e)[i] == ps[i]);
        },
        None => {
            assert(ps.push(e)[ps.len() as int] == e);
        },
    }
}

/// With no key twice, every entry is what its key looks up, wherever it
/// stands: the first entry for a key is its only one.
pub proof fn law_platform_lookup_finds_each(ps: Seq<(String, PlatformInfo)>, i: int)
    requires
        platform_keys_unique(ps),
        0 <= i < ps.len(),
    ensures
        platform_lookup(ps, ps[i].0@) == Some(ps[i].1),
{
    assert forall|j: int| 0 <= j < i implies (#[trigger] ps[j]).0@ != ps[i].0@ by {
        assert(ps[j].0@ != ps[i].0@);
    }
    lemma_platform_position_at(ps, ps[i].0@, i);
}

/// The platform map of a list of pairs: each key once, with the build of
/// its first pair, in the order the keys first occur. It looks up every key
/// as the pairs do.
pub fn platform_map(pairs: Vec<(String, PlatformInfo)>) -> (r: Vec<(String, PlatformInfo)>)
    ensures
        platform_keys_unique(r@),
        forall|k: Seq<char>| #[trigger] platform_lookup(r@, k) == platform_lookup(pairs@, k),
{
    let mut r: Vec<(String, PlatformInfo)> = Vec::new();
    let n = pairs.len();
    let mut i: usize = 0;
    while i < n
        invariant
            n == pairs@.len(),
            i <= n,
            platform_keys_unique(r@),
            forall|k: Seq<char>| #[trigger] platform_lookup(r@, k) == platform_lookup(pairs@.take(i as int), k),
        decreases n - i,
    {
        let e = &pairs[i];
        let ghost before = r@;
        assert(pairs@.take(i + 1) =~= pairs@.take(i as int).push(*e));
        let found = platform_index(&r, e.0.as_str());
        if found.is_none() {
            let entry = (e.0.clone(), e.1.clone());
            assert(entry == *e);
            r.push(entry);
            proof {
                lemma_platform_position_none(before, e.0@);
                assert forall|a: int, b: int| 0 <= a < b < r@.len() implies (#[trigger] r@[a]).0@ != (
                #[trigger] r@[b]).0@ by {
                    if b == before.len() {
                        assert(before[a] == r@[a]);
                    } else {
                        assert(before[a] == r@[a] && before[b] == r@[b]);
                    }
                }
                assert forall|k: Seq<char>| #[trigger] platform_lookup(r@, k) == platform_lookup(
                    pairs@.take(i + 1),
                    k,
                ) by {
                    lemma_platform_push(before, *e, k);
                    lemma_platform_push(pairs@.take(i as int), *e, k);
                }
            }
        } else {
            proof {
                assert forall|k: Seq<char>| #[trigger] platform_lookup(r@, k) == platform_lookup(
                    pairs@.take(i + 1),
                    k,
                ) by {
                    lemma_platform_push(pairs@.take(i as int), *e, k);
                    lemma_platform_position_none(r@, e.0@);
                }
            }
        }
        i = i + 1;
    }
    assert(pairs@.take(n as int) =~= pairs@);
    r
}

/// The platform keys, in order.
pub fn platform_key_list(ps: &Vec<(String, PlatformInfo)>) -> (r: Vec<String>)
    ensures
        r@.map_values(|s: String| s@) == platform_keys(ps@),
{
    let mut r: Vec<String> = Vec::new();
    let n = ps.len();
    let mut i: usize = 0;
    while i < n
        invariant
            n == ps@.len(),
            i <= n,
            r@.map_values(|s: String| s@) == platform_keys(ps@).take(i as int),
        decreases n - i,
    {
        r.push(ps[i].0.clone());
        assert(platform_keys(ps@).take(i + 1) =~= platform_keys(ps@).take(i as int).push(ps@[i as int].0@));
        assert(r@.map_values(|s: String| s@) =~= platform_keys(ps@).take(i + 1));
        i = i + 1;
    }
    assert(platform_keys(ps@).take(n as int) =~= platform_keys(ps@));
    r
}

// ── Routes ───────────────────────────────────────────────────────────

/// `s` without its trailing '/' characters.
pub open spec fn trim_trailing_slashes(s: Seq<char>) -> Seq<char>
    decreases s.len(),
{
    if s.len() > 0 && s.last() == '/' {
        trim_trailing_slashes(s.drop_last())
    } else {
        s
    }
}

/// A normalized base URL does not end in '/', and normalizing it again
/// changes nothing.
pub proof fn law_base_url_normalized(s: Seq<char>)
    ensures
        trim_trailing_slashes(s).len() == 0 || trim_trailing_slashes(s).last() != '/',
        trim_trailing_slashes(trim_trailing_slashes(s)) == trim_trailing_slashes(s),
    decreases s.len(),
{
    if s.len() > 0 && s.last() == '/' {
        law_base_url_normalized(s.drop_last());
    }
}

/// The base URL of the portal: the given URL without trailing '/' characters.
pub fn normalize_base_url(portal_url: &str) -> (r: String)
    ensures
        r@ == trim_trailing_slashes(portal_url@),
{
    let mut end = portal_url.unicode_len();
    assert(portal_url@.subrange(0, end as int) =~= portal_url@);
    while end > 0 && portal_url.get_char(end - 1) == '/'
        invariant
            end <= portal_url@.len(),
            trim_trailing_slashes(portal_url@) == trim_trailing_slashes(
                portal_url@.subrange(0, end as int),
            ),
        decreases end,
    {
        assert(portal_url@.subrange(0, end as int).drop_last() =~= portal_url@.subrange(
            0,
            end - 1,
        ));
        end = end - 1;
    }
    let r = text_from(portal_url.substring_char(0, end));
    assert(portal_url@.subrange(0, end as int).len() == 0 || portal_url@.subrange(
        0,
        end as int,
    ).last() != '/');
    r
}

/// `base` followed by `path`.
pub fn route(base: &str, path: &str) -> (r: String)
    ensures
        r@ == base@ + path@,
{
    let mut r = text_from(base);
    append_text(&mut r, path);
    r
}

/// The route that starts a pairing.
pub fn pairing_start_url(base: &str) -> (r: String)
    ensures
        r@ == base@ + "/api/v2/pairing/start"@,
{
    route(base, "/api/v2/pairing/start")
}

/// The route that reports a pairing's status.
pub fn pairing_status_url(base: &str, code: &str) -> (r: String)
    ensures
        r@ == base@ + "/api/v2/pairing/status/"@ + code@,
{
    let mut r = route(base, "/api/v2/pairing/status/");
    append_text(&mut r, code);
    r
}

/// The route that exchanges an approved pairing for a token.
pub fn pairing_exchange_url(base: &str) -> (r: String)
    ensures
        r@ == base@ + "/api/v2/pairing/exchange"@,
{
    route(base, "/api/v2/pairing/exchange")
}

/// The route of the registry catalog.
pub fn catalog_url(base: &str) -> (r: String)
    ensures
        r@ == base@ + "/api/v2/registry/catalog"@,
{
    route(base, "/api/v2/registry/catalog")
}

/// The route of one tool's detail.
pub fn tool_detail_url(base: &str, project_slug: &str, tool_slug: &str) -> (r: String)
    ensures
        r@ == base@ + "/api/v2/registry/tool/"@ + project_slug@ + "/"@ + tool_slug@,
{
    let mut r = route(base, "/api/v2/registry/tool/");
    append_text(&mut r, project_slug);
    append_text(&mut r, "/");
    append_text(&mut r, tool_slug);
    r
}

/// The route that presigns the latest build of a tool.
pub fn presign_latest_url(base: &str) -> (r: String)
    ensures
        r@ == base@ + "/api/v2/presign-latest"@,
{
    route(base, "/api/v2/presign-latest")
}

/// The value of the `Authorization` header for `token`.
pub fn bearer_value(token: &str) -> (r: String)
    ensures
        r@ == "Bearer "@ + token@,
{
    route("Bearer ", token)
}

// ── Headers ──────────────────────────────────────────────────────────

#[verifier::external_type_specification]
#[verifier::external_body]
pub struct ExHeaderValue(reqwest::header::HeaderValue);

#[verifier::external_type_specification]
#[verifier::external_body]
pub struct ExInvalidHeaderValue(reqwest::header::InvalidHeaderValue);

/// A byte that a header value may hold: a tab, or a byte from 32 on other than 127.
pub open spec fn header_byte_ok(b: u8) -> bool {
    (b >= 32 && b != 127) || b == 9
}

/// Bytes that a header value may hold.
pub open spec fn header_bytes_ok(bytes: Seq<u8>) -> bool {
    forall|i: int| 0 <= i < bytes.len() ==> header_byte_ok(#[trigger] bytes[i])
}

/// The bytes a header value holds, as `HeaderValue::as_bytes` gives them.
pub uninterp spec fn header_bytes(v: reqwest::header::HeaderValue) -> Seq<u8>;

/// `HeaderValue::from_str` of the `http` crate (re-exported by reqwest):
/// it accepts `s` exactly when every byte of its UTF-8 form may stand in a
/// header value, and the value then holds a copy of those bytes.
#[verifier::external_body]
fn header_value(s: &str) -> (r: Result<reqwest::header::HeaderValue, reqwest::header::InvalidHeaderValue>)
    ensures
        r is Ok <==> header_bytes_ok(vstd::utf8::encode_utf8(s@)),
        r matches Ok(v) ==> header_bytes(v) == vstd::utf8::encode_utf8(s@),
{
    reqwest::header::HeaderValue::from_str(s)
}

/// Why a client cannot be made.
pub enum ClientError {
    /// The token holds characters a header value cannot.
    InvalidToken,
}

impl ClientError {
    /// The text shown for this error.
    pub fn message(&self) -> (r: String)
        ensures
            r@ == "Invalid token characters"@,
    {
        text_from("Invalid token characters")
    }
}

/// The `Authorization` header carrying `token`: the UTF-8 bytes of
/// `Bearer <token>`, refused when they hold a byte a header value cannot.
pub fn authorization_header(token: &str) -> (r: Result<reqwest::header::HeaderValue, ClientError>)
    ensures
        r is Ok <==> header_bytes_ok(vstd::utf8::encode_utf8("Bearer "@ + token@)),
        r matches Ok(v) ==> header_bytes(v) == vstd::utf8::encode_utf8("Bearer "@ + token@),
{
    let text = bearer_value(token);
    match header_value(text.as_str()) {
        Ok(v) => Ok(v),
        Err(_) => Err(ClientError::InvalidToken),
    }
}

// ── Error responses ──────────────────────────────────────────────────

/// What `serde_json` reads as the string field `key` of a JSON object
/// body; `None` when the body is not JSON, not an object, or has no such
/// string field.
pub uninterp spec fn json_string_field(body: Seq<char>, key: Seq<char>) -> Option<Seq<char>>;

/// Parses `body` with `serde_json::from_str` into a `serde_json::Value`,
/// then takes `Value::get(key)` and keeps it when it is a `Value::String`.
/// The contract only names the result.
#[verifier::external_body]
fn json_string(body: &str, key: &str) -> (r: Option<String>)
    ensures
        match r {
            Some(d) => json_string_field(body@, key@) == Some(d@),
            None => json_string_field(body@, key@) is None,
        },
{
    match serde_json::from_str::<serde_json::Value>(body) {
        Ok(v) => match v.get(key) {
            Some(serde_json::Value::String(s)) => Some(s.clone()),
            _ => None,
        },
        Err(_) => None,
    }
}

/// The message of an error response: its JSON `detail` field, or the whole body.
pub open spec fn error_detail(body: Seq<char>) -> Seq<char> {
    match json_string_field(body, "detail"@) {
        Some(d) => d,
        None => body,
    }
}

/// Whether `e` is the error for an error response with `status` and
/// message `detail`.
pub open spec fn is_status_error(e: ForgeError, status: u16, detail: Seq<char>) -> bool {
    match e {
        ForgeError::NotAuthenticated => status == 401,
        ForgeError::Forbidden(m) => status == 403 && m@ == detail,
        ForgeError::NotFound(m) => status == 404 && m@ == detail,
        ForgeError::ApiError(s, m) => s == status && status != 401 && status != 403 && status
            != 404 && m@ == detail,
        ForgeError::TokenExpired => false,
    }
}

/// The error for a response with `status` and `body`, given the body's
/// `detail` field as read: none below 400; otherwise 401 is
/// `NotAuthenticated`, 403 `Forbidden`, 404 `NotFound` and any other status
/// `ApiError`, each carrying `detail` when there is one, else the whole body.
pub fn status_error(status: u16, body: &str, detail: Option<&str>) -> (r: Option<ForgeError>)
    ensures
        status < 400 <==> r is None,
        r matches Some(e) ==> is_status_error(
            e,
            status,
            match detail {
                Some(d) => d@,
                None => body@,
            },
        ),
{
    if status < 400 {
        return None;
    }
    let message = match detail {
        Some(d) => text_from(d),
        None => text_from(body),
    };
    if status == 401 {
        Some(ForgeError::NotAuthenticated)
    } else if status == 403 {
        Some(ForgeError::Forbidden(message))
    } else if status == 404 {
        Some(ForgeError::NotFound(message))
    } else {
        Some(ForgeError::ApiError(status, message))
    }
}

/// The error for a response: `status_error` with the `detail` field that
/// `serde_json` reads from the body.
pub fn api_error(status: u16, body: &str) -> (r: Option<ForgeError>)
    ensures
        status < 400 <==> r is None,
        r matches Some(e) ==> is_status_error(e, status, error_detail(body@)),
{
    if status < 400 {
        return None;
    }
    match json_string(body, "detail") {
        Some(d) => status_error(status, body, Some(d.as_str())),
        None => status_error(status, body, None),
    }
}

} // verus!
