//! Agent metadata documents and how an agent URI is resolved to one: inline
//! `data:` documents are decoded here, `ipfs://` and `http(s)://` URIs become
//! the URL to fetch.

use vstd::prelude::*;
use crate::text::push_str;

verus! {

/// Public gateway that `ipfs://` URIs are fetched through.
pub const IPFS_GATEWAY: &'static str = "https://ipfs.io/ipfs/";

/// Seconds after which a metadata fetch is given up.
pub const FETCH_TIMEOUT_SECS: u64 = 15;

/// One endpoint an agent document lists.
#[derive(Debug)]
pub struct AgentEndpointMeta {
    pub url: String,
    pub protocol: Option<String>,
}

/// An agent metadata document; every field may be missing.
#[derive(Debug)]
pub struct AgentUriMetadata {
    pub name: Option<String>,
    pub description: Option<String>,
    pub image: Option<String>,
    pub categories: Option<Vec<String>>,
    pub x402_support: Option<bool>,
    pub endpoints: Option<Vec<AgentEndpointMeta>>,
    pub capabilities: Option<Vec<String>>,
}

/// One endpoint in an agent's stored metadata.
#[derive(Debug)]
pub struct AgentEndpoint {
    pub url: String,
    pub protocol: Option<String>,
}

/// The structured part of an agent's stored metadata.
#[derive(Debug)]
pub struct AgentMetadata {
    pub version: Option<String>,
    pub endpoints: Option<Vec<AgentEndpoint>>,
    pub capabilities: Option<Vec<String>>,
}

/// Number of agents in one category.
#[derive(Debug)]
pub struct CategoryCount {
    pub category: String,
    pub count: i64,
}

/// Where the document of an agent URI comes from.
#[derive(Debug)]
pub enum MetadataSource {
    /// A `data:` URI with a base64 payload, decoded to the document's bytes.
    InlineBytes(Vec<u8>),
    /// A `data:` URI with a percent-encoded payload, decoded to the document's text.
    InlineText(String),
    /// A URL to fetch the document from.
    Fetch(String),
}

/// Why an agent URI names no document that can be read.
#[derive(Clone, Copy, Debug, PartialEq, Eq, Structural)]
pub enum ResolveError {
    /// A `data:` URI whose media type is not `application/json`.
    UnsupportedDataUri,
    /// A base64 payload that does not decode.
    InvalidBase64,
    /// A percent-encoded payload that does not decode to UTF-8 text.
    InvalidPercentEncoding,
}

/// What `MetadataSource` holds, as plain values.
pub ghost enum SourceView {
    Bytes(Seq<u8>),
    Text(Seq<char>),
    Url(Seq<char>),
}

impl MetadataSource {
    pub open spec fn view(&self) -> SourceView {
        match self {
            MetadataSource::InlineBytes(b) => SourceView::Bytes(b@),
            MetadataSource::InlineText(t) => SourceView::Text(t@),
            MetadataSource::Fetch(u) => SourceView::Url(u@),
        }
    }
}

/// The bytes a standard-alphabet, padded base64 text decodes to, if it is valid.
pub uninterp spec fn base64_decoded(s: Seq<char>) -> Option<Seq<u8>>;

/// The text a percent-encoded text decodes to, if the result is valid UTF-8.
pub uninterp spec fn percent_decoded(s: Seq<char>) -> Option<Seq<char>>;

/// Whether a character has the Unicode White_Space property.
pub open spec fn is_white_space(c: char) -> bool {
    let u = c as u32;
    ||| 0x09 <= u <= 0x0d
    ||| u == 0x20
    ||| u == 0x85
    ||| u == 0xa0
    ||| u == 0x1680
    ||| 0x2000 <= u <= 0x200a
    ||| u == 0x2028
    ||| u == 0x2029
    ||| u == 0x202f
    ||| u == 0x205f
    ||| u == 0x3000
}

/// A text without its leading White_Space characters.
pub open spec fn trimmed_start(s: Seq<char>) -> Seq<char>
    decreases s.len(),
{
    if s.len() > 0 && is_white_space(s[0]) {
        trimmed_start(s.drop_first())
    } else {
        s
    }
}

/// A text without its trailing White_Space characters.
pub open spec fn trimmed_end(s: Seq<char>) -> Seq<char>
    decreases s.len(),
{
    if s.len() > 0 && is_white_space(s.last()) {
        trimmed_end(s.drop_last())
    } else {
        s
    }
}

/// A text without its leading and trailing White_Space characters.
pub open spec fn trimmed(s: Seq<char>) -> Seq<char> {
    trimmed_end(trimmed_start(s))
}

/// Relies on `base64::engine::general_purpose::STANDARD.decode`: the bytes of
/// a standard base64 text, or an error; it does not panic.
#[verifier::external_body]
fn decode_base64(s: &str) -> (r: Option<Vec<u8>>)
    ensures
        r matches Some(v) ==> base64_decoded(s@) == Some(v@),
        r is None ==> base64_decoded(s@) is None,
{
    match base64::Engine::decode(&base64::engine::general_purpose::STANDARD, s) {
        Ok(v) => Some(v),
        Err(_) => None,
    }
}

/// Relies on `urlencoding::decode`: `%XX` escapes decoded, the result checked
/// to be UTF-8; a text without `%` comes back unchanged.
#[verifier::external_body]
fn decode_percent(s: &str) -> (r: Option<String>)
    ensures
        r matches Some(t) ==> percent_decoded(s@) == Some(t@),
        r is None ==> percent_decoded(s@) is None,
        r is None ==> s@.contains('%'),
        !s@.contains('%') ==> r->Some_0@ == s@,
{
    match urlencoding::decode(s) {
        Ok(t) => Some(t.into_owned()),
        Err(_) => None,
    }
}

/// Relies on `str::trim`: the text without its leading and trailing
/// characters of the Unicode White_Space property.
#[verifier::external_body]
fn trim_text(s: &str) -> (r: &str)
    ensures
        r@ == trimmed(s@),
{
    s.trim()
}

/// The rest of `s` after the prefix `p`, if `s` starts with `p`.
pub fn strip_prefix<'a>(s: &'a str, p: &str) -> (r: Option<&'a str>)
    ensures
        r is Some <==> p@.is_prefix_of(s@),
        r matches Some(t) ==> t@ == s@.skip(p@.len() as int),
{
    let n = s.unicode_len();
    let m = p.unicode_len();
    if m > n {
        return None;
    }
    let mut i: usize = 0;
    while i < m
        invariant
            i <= m <= n,
            n == s@.len(),
            m == p@.len(),
            forall|j: int| 0 <= j < i ==> s@[j] == p@[j],
        decreases m - i,
    {
        if s.get_char(i) != p.get_char(i) {
            return None;
        }
        i = i + 1;
    }
    let rest = s.substring_char(m, n);
    assert(rest@ =~= s@.skip(m as int));
    Some(rest)
}

/// Media-type prefixes of inline documents.
pub open spec fn base64_json_prefix() -> Seq<char> {
    "application/json;base64,"@
}

pub open spec fn spaced_base64_json_prefix() -> Seq<char> {
    "application/json; base64,"@
}

pub open spec fn plain_json_prefix() -> Seq<char> {
    "application/json,"@
}

/// Where the document of an agent URI comes from:
/// - `data:application/json;base64,<payload>` (or with `; base64`): the
///   trimmed payload, base64-decoded;
/// - `data:application/json,<payload>`: the payload, percent-decoded;
/// - any other `data:` URI: unsupported;
/// - `ipfs://<path>`: fetched from the public gateway;
/// - anything else: fetched as it stands.
pub open spec fn metadata_source(uri: Seq<char>) -> Result<SourceView, ResolveError> {
    if "data:"@.is_prefix_of(uri) {
        let rest = uri.skip(5);
        if base64_json_prefix().is_prefix_of(rest) || spaced_base64_json_prefix().is_prefix_of(rest) {
            let payload = if base64_json_prefix().is_prefix_of(rest) {
                rest.skip(base64_json_prefix().len() as int)
            } else {
                rest.skip(spaced_base64_json_prefix().len() as int)
            };
            match base64_decoded(trimmed(payload)) {
                Some(b) => Ok(SourceView::Bytes(b)),
                None => Err(ResolveError::InvalidBase64),
            }
        } else if plain_json_prefix().is_prefix_of(rest) {
            match percent_decoded(rest.skip(plain_json_prefix().len() as int)) {
                Some(t) => Ok(SourceView::Text(t)),
                None => Err(ResolveError::InvalidPercentEncoding),
            }
        } else {
            Err(ResolveError::UnsupportedDataUri)
        }
    } else if "ipfs://"@.is_prefix_of(uri) {
        Ok(SourceView::Url(IPFS_GATEWAY@ + uri.skip(7)))
    } else {
        Ok(SourceView::Url(uri))
    }
}

/// Resolves an agent URI to where its metadata document comes from; inline
/// documents are decoded without any network access.
pub fn resolve_metadata_uri(uri: &str) -> (r: Result<MetadataSource, ResolveError>)
    ensures
        r matches Ok(src) ==> metadata_source(uri@) == Ok::<SourceView, ResolveError>(src@),
        r matches Err(e) ==> metadata_source(uri@) == Err::<SourceView, ResolveError>(e),
{
    proof {
        reveal_strlit("data:");
        reveal_strlit("ipfs://");
        reveal_strlit("application/json;base64,");
        reveal_strlit("application/json; base64,");
        reveal_strlit("application/json,");
    }
    if let Some(rest) = strip_prefix(uri, "data:") {
        let b64 = match strip_prefix(rest, "application/json;base64,") {
            Some(p) => Some(p),
            None => strip_prefix(rest, "application/json; base64,"),
        };
        if let Some(payload) = b64 {
            return match decode_base64(trim_text(payload)) {
                Some(bytes) => Ok(MetadataSource::InlineBytes(bytes)),
                None => Err(ResolveError::InvalidBase64),
            };
        }
        if let Some(payload) = strip_prefix(rest, "application/json,") {
            return match decode_percent(payload) {
                Some(text) => Ok(MetadataSource::InlineText(text)),
                None => Err(ResolveError::InvalidPercentEncoding),
            };
        }
        return Err(ResolveError::UnsupportedDataUri);
    }
    if let Some(path) = strip_prefix(uri, "ipfs://") {
        let mut url = String::new();
        push_str(&mut url, IPFS_GATEWAY);
        push_str(&mut url, path);
        proof {
            assert(url@ =~= IPFS_GATEWAY@ + uri@.skip(7));
        }
        return Ok(MetadataSource::Fetch(url));
    }
    let mut url = String::new();
    push_str(&mut url, uri);
    assert(url@ =~= uri@);
    Ok(MetadataSource::Fetch(url))
}

} // verus!
