use vstd::prelude::*;
use vstd::utf8::{decode_utf8, valid_utf8};

use crate::claims::{claims_json, ClaimsView, EdrClaims};
use crate::edr::{uuid_string, uuid_text, EdrEntryView};
use crate::service::Context;
use crate::store::{entry_of, record_of};
use crate::text::{literal_at, push_char, push_str, text_eq};
use crate::token::{token_claims, TokenError, TokenManagerImpl};
use crate::transfer::{
    absolute_url, is_http_data_type, transfer_kind_of, BaseUrl, HttpData, TransferStatus,
    TransferView,
};

verus! {

/// The path under which the data proxy answers.
pub const PUBLIC_PATH: &'static str = "/api/v1/public";

/// Why a request to the data proxy is refused.
#[derive(Debug)]
pub enum ProxyError {
    TokenError(TokenError),
    MissingToken,
    InvalidTransfer,
    InvalidUri,
    /// The data source could not be reached, or answered no HTTP response.
    Upstream,
}

impl ProxyError {
    /// The HTTP status that answers the refused request.
    pub fn to_response_code(&self) -> (r: u16)
        ensures
            (self is TokenError || self is MissingToken || self is InvalidTransfer) ==> r == 403,
            (self is InvalidUri || self is Upstream) ==> r == 502,
    {
        match self {
            ProxyError::TokenError(_) => 403,
            ProxyError::MissingToken => 403,
            ProxyError::InvalidTransfer => 403,
            ProxyError::InvalidUri => 502,
            ProxyError::Upstream => 502,
        }
    }

    /// The HTTP status and message that answer the refused request.
    pub fn to_response(&self) -> (r: (u16, &'static str))
        ensures
            self is MissingToken ==> r.0 == 403 && r.1@ == "Missing token"@,
            self matches ProxyError::TokenError(e) ==> r.0 == 403 && (if e is Expired {
                r.1@ == "Expired token"@
            } else {
                r.1@ == "Invalid token"@
            }),
            self is InvalidTransfer ==> r.0 == 403 && r.1@ == "Transfer not valid or not found"@,
            (self is InvalidUri || self is Upstream) ==> r.0 == 502 && r.1@ == "Bad gateway"@,
    {
        match self {
            ProxyError::TokenError(TokenError::Expired(_)) => (403, "Expired token"),
            ProxyError::TokenError(_) => (403, "Invalid token"),
            ProxyError::MissingToken => (403, "Missing token"),
            ProxyError::InvalidTransfer => (403, "Transfer not valid or not found"),
            ProxyError::InvalidUri => (502, "Bad gateway"),
            ProxyError::Upstream => (502, "Bad gateway"),
        }
    }
}

/// Why a bearer token was not accepted, as the answer tells it.
#[derive(Clone, Copy, Debug, PartialEq, Eq, Structural)]
pub enum AuthError {
    WrongCredentials,
    MissingCredentials,
    TokenCreation,
    InvalidToken,
    ExpiredToken,
}

impl AuthError {
    /// How a token that was not accepted is reported.
    pub fn from_token_error(e: &TokenError) -> (r: AuthError)
        ensures
            r == (if e is Expired {
                AuthError::ExpiredToken
            } else {
                AuthError::InvalidToken
            }),
    {
        match e {
            TokenError::Expired(_) => AuthError::ExpiredToken,
            _ => AuthError::InvalidToken,
        }
    }

    /// The HTTP status and message that answer the request.
    pub fn to_response(&self) -> (r: (u16, &'static str))
        ensures
            *self == AuthError::WrongCredentials ==> r.0 == 401 && r.1@ == "Wrong credentials"@,
            *self == AuthError::MissingCredentials ==> r.0 == 400 && r.1@ == "Missing credentials"@,
            *self == AuthError::TokenCreation ==> r.0 == 500 && r.1@ == "Token creation error"@,
            *self == AuthError::InvalidToken ==> r.0 == 400 && r.1@ == "Invalid token"@,
            *self == AuthError::ExpiredToken ==> r.0 == 403 && r.1@ == "Expired token"@,
    {
        match self {
            AuthError::WrongCredentials => (401, "Wrong credentials"),
            AuthError::MissingCredentials => (400, "Missing credentials"),
            AuthError::TokenCreation => (500, "Token creation error"),
            AuthError::InvalidToken => (400, "Invalid token"),
            AuthError::ExpiredToken => (403, "Expired token"),
        }
    }
}

/// Relies on `std::str::from_utf8`: the text that valid UTF-8 encodes.
#[verifier::external_body]
fn from_utf8(b: &[u8]) -> (r: Option<String>)
    ensures
        match r {
            Some(s) => valid_utf8(b@) && s@ == decode_utf8(b@),
            None => !valid_utf8(b@),
        },
{
    match std::str::from_utf8(b) {
        Ok(s) => Some(s.to_string()),
        Err(_) => None,
    }
}

/// The token of an `Authorization` header: what follows `Bearer `, or the
/// whole text where it does not start so.
pub open spec fn bearer_of(h: Seq<char>) -> Seq<char> {
    if h.len() >= 7 && h.take(7) == "Bearer "@ {
        h.skip(7)
    } else {
        h
    }
}

/// The characters of `s` from `from` on, as a text.
fn text_from(s: &Vec<char>, from: usize) -> (r: String)
    requires
        from <= s@.len(),
    ensures
        r@ == s@.skip(from as int),
{
    let mut out = String::new();
    let mut i: usize = from;
    while i < s.len()
        invariant
            from <= i <= s@.len(),
            out@ == s@.subrange(from as int, i as int),
        decreases s@.len() - i,
    {
        push_char(&mut out, s[i]);
        assert(out@ =~= s@.subrange(from as int, i + 1));
        i += 1;
    }
    assert(out@ =~= s@.skip(from as int));
    out
}

/// The token of an `Authorization` header.
pub fn bearer_token(header: &str) -> (r: String)
    ensures
        r@ == bearer_of(header@),
{
    let s = crate::text::chars_of(header);
    if literal_at(&s, 0, "Bearer ") {
        proof {
            reveal_strlit("Bearer ");
            assert(s@.take(7) =~= s@.subrange(0, 7));
        }
        text_from(&s, 7)
    } else {
        proof {
            reveal_strlit("Bearer ");
            if s@.len() >= 7 {
                assert(s@.take(7) =~= s@.subrange(0, 7));
            }
        }
        text_from(&s, 0)
    }
}

/// Whether a request to the data proxy may go on for these claims: the token
/// is the access token kept for a transfer, and the transfer is started.
pub open spec fn proxy_allowed(
    transfers: Seq<TransferView>,
    edrs: Seq<EdrEntryView>,
    transfer_id: Seq<char>,
    jti: Seq<char>,
) -> bool {
    &&& entry_of(edrs, transfer_id) matches Some(e) && uuid_text(e.token_id.0) == jti
    &&& record_of(transfers, transfer_id) matches Some(t) && t.status == TransferStatus::Started
}

/// A request that may be forwarded, and the data source it goes to.
#[derive(Debug)]
pub struct TransferRequest {
    pub data: HttpData,
}

impl TransferRequest {
    pub open spec fn wf(&self) -> bool {
        self.data.base_url.scheme is Some && self.data.base_url.host is Some
    }

    /// The host of the data source.
    pub fn upstream_host(&self) -> (r: &str)
        requires
            self.wf(),
        ensures
            Some(r@) == crate::transfer::text_option(self.data.base_url.host),
    {
        match &self.data.base_url.host {
            Some(h) => h.as_str(),
            None => "",
        }
    }

    /// Whether the data source is reached over TLS: where its scheme is `https`.
    pub fn is_tls(&self) -> (r: bool)
        ensures
            r == (crate::transfer::text_option(self.data.base_url.scheme) == Some("https"@)),
    {
        match &self.data.base_url.scheme {
            Some(s) => text_eq(s.as_str(), "https"),
            None => false,
        }
    }

    /// The port of the data source: the one its URL names, else 443 over TLS
    /// and 80 without.
    pub fn upstream_port(&self) -> (r: u16)
        ensures
            r == match self.data.base_url.port {
                Some(p) => p,
                None => if crate::transfer::text_option(self.data.base_url.scheme) == Some(
                    "https"@,
                ) {
                    443u16
                } else {
                    80u16
                },
            },
    {
        match self.data.base_url.port {
            Some(p) => p,
            None => if self.is_tls() {
                443
            } else {
                80
            },
        }
    }

    /// The path and query sent to the data source: the path of its URL, then
    /// the request's path below the proxy's, then the request's query.
    pub fn to_upstream_uri(&self, path: &str, query: Option<&str>) -> (r: String)
        requires
            PUBLIC_PATH@.len() <= path@.len(),
            path@.take(PUBLIC_PATH@.len() as int) == PUBLIC_PATH@,
        ensures
            r@ == self.data.base_url.path@ + path@.skip(PUBLIC_PATH@.len() as int) + match query {
                Some(q) => seq!['?'] + q@,
                None => Seq::empty(),
            },
    {
        let s = crate::text::chars_of(path);
        let k = crate::text::chars_of(PUBLIC_PATH).len();
        let rest = text_from(&s, k);
        let mut out = self.data.base_url.path.clone();
        push_str(&mut out, rest.as_str());
        match query {
            Some(q) => {
                push_char(&mut out, '?');
                push_str(&mut out, q);
                assert(out@ =~= self.data.base_url.path@ + path@.skip(PUBLIC_PATH@.len() as int)
                    + (seq!['?'] + q@));
            },
            None => {
                assert(out@ =~= self.data.base_url.path@ + path@.skip(PUBLIC_PATH@.len() as int)
                    + Seq::<char>::empty());
            },
        }
        out
    }
}

/// Checks the requests to the data proxy and finds where they go.
pub struct PublicProxy {
    pub tokens: TokenManagerImpl,
}

impl PublicProxy {
    pub fn new(tokens: TokenManagerImpl) -> (r: PublicProxy)
        ensures
            r.tokens == tokens,
    {
        PublicProxy { tokens }
    }

    /// Whether a request path lies under the proxy's path.
    pub fn can_handle(path: &str) -> (r: bool)
        ensures
            r == (PUBLIC_PATH@.len() <= path@.len() && path@.take(PUBLIC_PATH@.len() as int)
                == PUBLIC_PATH@),
    {
        let s = crate::text::chars_of(path);
        let r = literal_at(&s, 0, PUBLIC_PATH);
        assert(r ==> s@.take(PUBLIC_PATH@.len() as int) =~= s@.subrange(0, PUBLIC_PATH@.len() as int));
        assert(PUBLIC_PATH@.len() <= s@.len() ==> s@.take(PUBLIC_PATH@.len() as int) =~= s@.subrange(
            0,
            PUBLIC_PATH@.len() as int,
        ));
        r
    }

    /// Reads the token of an `Authorization` header and checks it.
    pub fn validate_token(&self, header: Option<&[u8]>) -> (r: Result<EdrClaims, ProxyError>)
        ensures
            header is None ==> r matches Err(ProxyError::MissingToken),
            (header matches Some(h) && !valid_utf8(h@)) ==> r matches Err(
                ProxyError::MissingToken,
            ),
            r matches Err(ProxyError::MissingToken) ==> (header is None || (header matches Some(h)
                && !valid_utf8(h@))),
            (header matches Some(h) && valid_utf8(h@)) && !self.tokens.supported() ==> r matches Err(
                ProxyError::TokenError(TokenError::UnsupportedFormat(..)),
            ),
            r matches Err(e) ==> (e is MissingToken || e is TokenError),
            r matches Ok(c) ==> (header matches Some(h) && valid_utf8(h@) && token_claims(
                bearer_of(decode_utf8(h@)),
            ) == Some(claims_json(c@)) && c.aud@ == self.tokens@.audience),
            r matches Err(ProxyError::TokenError(e)) ==> (e is UnsupportedFormat <==> !self.tokens.supported()),
            r matches Err(ProxyError::TokenError(TokenError::Claims)) ==> (header matches Some(h)
                && valid_utf8(h@) && (token_claims(bearer_of(decode_utf8(h@))) matches Some(t)
                && forall|m: ClaimsView| #[trigger] claims_json(m) != t)),
    {
        let bytes = match header {
            Some(b) => b,
            None => return Err(ProxyError::MissingToken),
        };
        let text = match from_utf8(bytes) {
            Some(t) => t,
            None => return Err(ProxyError::MissingToken),
        };
        let token = bearer_token(text.as_str());
        match self.tokens.validate_claims(token.as_str()) {
            Ok(c) => Ok(c),
            Err(e) => Err(ProxyError::TokenError(e)),
        }
    }

    /// Finds where a request with these checked claims goes: the transfer's
    /// access token must be the one presented, the transfer started, and its
    /// source an HTTP data source.
    pub fn authorize(ctx: &Context, claims: &EdrClaims) -> (r: Result<TransferRequest, ProxyError>)
        requires
            ctx.wf(),
        ensures
            !proxy_allowed(ctx.transfers@, ctx.edrs@, claims.transfer_id@, claims.jti@) ==> r matches Err(
                ProxyError::InvalidTransfer,
            ),
            proxy_allowed(ctx.transfers@, ctx.edrs@, claims.transfer_id@, claims.jti@) ==> match r {
                Ok(req) => req.wf() && (record_of(ctx.transfers@, claims.transfer_id@) matches Some(t)
                    && transfer_kind_of(t.source_type, t.source) == Ok::<
                    _,
                    crate::transfer::TransferKindError,
                >(req.data.base_url@)),
                Err(e) => e is InvalidUri && (record_of(ctx.transfers@, claims.transfer_id@) matches Some(
                    t,
                ) && transfer_kind_of(t.source_type, t.source) is Err),
            },
    {
        let entry = match ctx.edrs.fetch_by_id(claims.transfer_id.as_str()) {
            Some(e) => e,
            None => return Err(ProxyError::InvalidTransfer),
        };
        let current = uuid_string(entry.token_id.0);
        if !text_eq(current.as_str(), claims.jti.as_str()) {
            return Err(ProxyError::InvalidTransfer);
        }
        let transfer = match ctx.transfers.fetch_by_id(claims.transfer_id.as_str()) {
            Some(t) => t,
            None => return Err(ProxyError::InvalidTransfer),
        };
        if transfer.status != TransferStatus::Started {
            return Err(ProxyError::InvalidTransfer);
        }
        match crate::transfer::TransferKind::try_from(&transfer.source) {
            Ok(crate::transfer::TransferKind::HttpData(data)) => {
                Ok(TransferRequest { data })
            },
            Err(_) => Err(ProxyError::InvalidUri),
        }
    }

    /// Checks the `Authorization` header of a request and finds where the
    /// request goes.
    pub fn parse_upstream_request(&self, ctx: &Context, header: Option<&[u8]>) -> (r: Result<
        TransferRequest,
        ProxyError,
    >)
        requires
            ctx.wf(),
        ensures
            header is None ==> r matches Err(ProxyError::MissingToken),
            (header matches Some(h) && !valid_utf8(h@)) ==> r matches Err(
                ProxyError::MissingToken,
            ),
            r matches Err(ProxyError::MissingToken) ==> (header is None || (header matches Some(h)
                && !valid_utf8(h@))),
            (header matches Some(h) && valid_utf8(h@)) && !self.tokens.supported() ==> r matches Err(
                ProxyError::TokenError(TokenError::UnsupportedFormat(..)),
            ),
            r matches Ok(req) ==> req.wf() && (header matches Some(h) && valid_utf8(h@) && exists|
                c: ClaimsView,
            |
                token_claims(bearer_of(decode_utf8(h@))) == Some(#[trigger] claims_json(c))
                    && proxy_allowed(ctx.transfers@, ctx.edrs@, c.transfer_id, c.jti) && (record_of(
                    ctx.transfers@,
                    c.transfer_id,
                ) matches Some(t) && transfer_kind_of(t.source_type, t.source) == Ok::<
                    _,
                    crate::transfer::TransferKindError,
                >(req.data.base_url@))),
            r matches Err(ProxyError::TokenError(e)) ==> (e is UnsupportedFormat <==> !self.tokens.supported()),
            r matches Err(ProxyError::TokenError(TokenError::Claims)) ==> (header matches Some(h)
                && valid_utf8(h@) && (token_claims(bearer_of(decode_utf8(h@))) matches Some(t)
                && forall|m: ClaimsView| #[trigger] claims_json(m) != t)),
            r matches Err(ProxyError::InvalidUri) ==> (header matches Some(h) && valid_utf8(h@)
                && exists|c: ClaimsView|
                token_claims(bearer_of(decode_utf8(h@))) == Some(#[trigger] claims_json(c))
                    && proxy_allowed(ctx.transfers@, ctx.edrs@, c.transfer_id, c.jti) && (record_of(
                    ctx.transfers@,
                    c.transfer_id,
                ) matches Some(t) && transfer_kind_of(t.source_type, t.source) is Err)),
            r matches Err(e) ==> (e is MissingToken || e is TokenError || e is InvalidTransfer
                || e is InvalidUri),
            r matches Err(ProxyError::InvalidTransfer) ==> (header matches Some(h) && valid_utf8(h@)
                && exists|c: ClaimsView|
                token_claims(bearer_of(decode_utf8(h@))) == Some(#[trigger] claims_json(c))
                    && !proxy_allowed(ctx.transfers@, ctx.edrs@, c.transfer_id, c.jti)),
    {
        let claims = match self.validate_token(header) {
            Ok(c) => c,
            Err(e) => return Err(e),
        };
        let r = PublicProxy::authorize(ctx, &claims);
        assert(claims_json(claims@) == claims_json(claims@));
        r
    }
}

} // verus!
