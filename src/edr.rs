use vstd::prelude::*;
use vstd::string::StringExecFns;

use crate::claims::{claims_json, decimal, hex_digit, hex_value, push_decimal, ClaimsView, EdrClaims};
use crate::namespace::{edc_iri, Namespace, EDC_PREFIX, IDSA_PREFIX};
use crate::signaling::{DataAddress, EndpointProperty};
use crate::token::{token_claims, TokenError, TokenManagerImpl};
use crate::transfer::Transfer;

verus! {

/// The id of an access token: a UUID, as its 128 bits.
#[derive(Clone, Copy, Debug, PartialEq, Eq, Structural)]
pub struct TokenId(pub u128);

/// The id of a refresh token: a UUID, as its 128 bits.
#[derive(Clone, Copy, Debug, PartialEq, Eq, Structural)]
pub struct RefreshTokenId(pub u128);

/// The `n` lower-case hexadecimal digits of `b`, most significant first.
pub open spec fn hex_digits(b: nat, n: nat) -> Seq<char>
    decreases n,
{
    if n == 0 {
        Seq::empty()
    } else {
        hex_digits(b / 16, (n - 1) as nat).push(hex_digit((b % 16) as u32))
    }
}

/// `16` to the power `n`.
pub open spec fn pow16(n: nat) -> nat
    decreases n,
{
    if n == 0 {
        1
    } else {
        16 * pow16((n - 1) as nat)
    }
}

/// The hyphenated lower-case text of the UUID with these 128 bits: 32 hex
/// digits, in groups of 8, 4, 4, 4 and 12.
pub open spec fn uuid_text(bits: u128) -> Seq<char> {
    let h = hex_digits(bits as nat, 32);
    h.subrange(0, 8) + seq!['-'] + h.subrange(8, 12) + seq!['-'] + h.subrange(12, 16) + seq!['-']
        + h.subrange(16, 20) + seq!['-'] + h.subrange(20, 32)
}

proof fn lemma_hex_digits_len(b: nat, n: nat)
    ensures
        hex_digits(b, n).len() == n,
    decreases n,
{
    if n > 0 {
        lemma_hex_digits_len(b / 16, (n - 1) as nat);
    }
}

proof fn lemma_hex_digits_injective(a: nat, b: nat, n: nat)
    requires
        a < pow16(n),
        b < pow16(n),
        hex_digits(a, n) == hex_digits(b, n),
    ensures
        a == b,
    decreases n,
{
    if n > 0 {
        let m = (n - 1) as nat;
        let p = pow16(m);
        assert(hex_digits(a, n).last() == hex_digit((a % 16) as u32));
        assert(hex_digits(b, n).last() == hex_digit((b % 16) as u32));
        assert(hex_value(hex_digit((a % 16) as u32)) == Some((a % 16) as u32));
        assert(hex_value(hex_digit((b % 16) as u32)) == Some((b % 16) as u32));
        assert(a % 16 == b % 16);
        assert(hex_digits(a, n).drop_last() =~= hex_digits(a / 16, m));
        assert(hex_digits(b, n).drop_last() =~= hex_digits(b / 16, m));
        assert(a / 16 < p) by (nonlinear_arith)
            requires
                a < 16 * p,
        ;
        assert(b / 16 < p) by (nonlinear_arith)
            requires
                b < 16 * p,
        ;
        lemma_hex_digits_injective(a / 16, b / 16, m);
    }
}

/// Two UUIDs with one text are one UUID.
pub proof fn lemma_uuid_text_injective(x: u128, y: u128)
    requires
        uuid_text(x) == uuid_text(y),
    ensures
        x == y,
{
    let hx = hex_digits(x as nat, 32);
    let hy = hex_digits(y as nat, 32);
    lemma_hex_digits_len(x as nat, 32);
    lemma_hex_digits_len(y as nat, 32);
    let u = uuid_text(x);
    assert forall|i: int| 0 <= i < 32 implies hx[i] == hy[i] by {
        if i < 8 {
            assert(u[i] == hx[i] && uuid_text(y)[i] == hy[i]);
        } else if i < 12 {
            assert(u[i + 1] == hx[i] && uuid_text(y)[i + 1] == hy[i]);
        } else if i < 16 {
            assert(u[i + 2] == hx[i] && uuid_text(y)[i + 2] == hy[i]);
        } else if i < 20 {
            assert(u[i + 3] == hx[i] && uuid_text(y)[i + 3] == hy[i]);
        } else {
            assert(u[i + 4] == hx[i] && uuid_text(y)[i + 4] == hy[i]);
        }
    }
    assert(hx =~= hy);
    reveal_with_fuel(pow16, 33);
    assert(pow16(32) == 0x1_0000_0000_0000_0000_0000_0000_0000_0000);
    lemma_hex_digits_injective(x as nat, y as nat, 32);
}

/// Relies on `uuid::Uuid::from_u128`, which keeps the bits most significant
/// first, and on its hyphenated rendering in lower case.
#[verifier::external_body]
pub(crate) fn uuid_string(bits: u128) -> (r: String)
    ensures
        r@ == uuid_text(bits),
{
    uuid::Uuid::from_u128(bits).hyphenated().to_string()
}

/// Relies on `uuid::Uuid::new_v4`: fresh random bits, of which nothing is
/// promised here.
#[verifier::external_body]
pub(crate) fn new_uuid() -> (r: u128) {
    uuid::Uuid::new_v4().as_u128()
}

/// The token ids of a transfer, as kept.
#[derive(Debug)]
pub struct EdrEntry {
    pub transfer_id: String,
    pub token_id: TokenId,
    pub refresh_token_id: RefreshTokenId,
}

/// The mathematical value of an entry.
pub struct EdrEntryView {
    pub transfer_id: Seq<char>,
    pub token_id: TokenId,
    pub refresh_token_id: RefreshTokenId,
}

impl View for EdrEntry {
    type V = EdrEntryView;

    open spec fn view(&self) -> EdrEntryView {
        EdrEntryView {
            transfer_id: self.transfer_id@,
            token_id: self.token_id,
            refresh_token_id: self.refresh_token_id,
        }
    }
}

impl EdrEntry {
    pub fn copy(&self) -> (r: EdrEntry)
        ensures
            r@ == self@,
    {
        EdrEntry {
            transfer_id: self.transfer_id.clone(),
            token_id: self.token_id,
            refresh_token_id: self.refresh_token_id,
        }
    }
}

/// What a consumer is handed: the token ids and the data address that carries
/// the tokens.
#[derive(Debug)]
pub struct Edr {
    pub token_id: TokenId,
    pub refresh_token_id: RefreshTokenId,
    pub data_address: DataAddress,
}

/// A request for a new pair of tokens.
#[derive(Debug)]
pub struct TokenRequest {
    pub refresh_token: String,
    pub client_id: String,
}

/// A new pair of tokens, and how many seconds the access token lasts.
#[derive(Debug)]
pub struct TokenResponse {
    pub access_token: String,
    pub refresh_token: String,
    pub expires_in: String,
}

/// Why tokens could not be made.
#[derive(Debug)]
pub enum EdrError {
    /// The expiry time lies beyond what can be written.
    Generic,
    Token(TokenError),
}

/// Makes the tokens of transfers and the data addresses that carry them.
pub struct EdrManager {
    pub proxy_url: String,
    pub token_url: String,
    pub issuer: String,
    pub jwks_url: String,
    pub tokens: TokenManagerImpl,
    /// Lifetime of an access token, in seconds.
    pub token_duration: u64,
    /// Lifetime of a refresh token, in seconds.
    pub refresh_token_duration: u64,
}

/// The names and values of the properties of a data address handed to a
/// consumer.
pub open spec fn edr_properties(
    proxy_url: Seq<char>,
    access_token: Seq<char>,
    refresh_token: Seq<char>,
    token_url: Seq<char>,
    expires_in: Seq<char>,
    jwks_url: Seq<char>,
) -> Seq<(Seq<char>, Seq<char>)> {
    seq![
        (edc_iri("endpoint"@), proxy_url),
        (edc_iri("access_token"@), access_token),
        (edc_iri("token_type"@), "Bearer"@),
        (edc_iri("refresh_token"@), refresh_token),
        (edc_iri("refresh_endpoint"@), token_url),
        (edc_iri("expires_in"@), expires_in),
        (edc_iri("jwks_url"@), jwks_url),
    ]
}

impl EdrManager {
    /// The claims of a token with id `jti` for the participant `sub` and the
    /// transfer `transfer_id`, issued at `now` and lasting `duration` seconds;
    /// none where the expiry does not fit in an `i64`.
    pub open spec fn claims_for(
        &self,
        now: i64,
        jti: Seq<char>,
        sub: Seq<char>,
        transfer_id: Seq<char>,
        duration: u64,
    ) -> Option<ClaimsView> {
        if now + duration > i64::MAX {
            None
        } else {
            Some(
                ClaimsView {
                    jti,
                    aud: self.proxy_url@,
                    iss: self.issuer@,
                    sub,
                    exp: (now + duration) as i64,
                    iat: now,
                    transfer_id,
                },
            )
        }
    }

    /// The token with these claims, as the token manager makes it.
    pub open spec fn token_for(
        &self,
        now: i64,
        jti: Seq<char>,
        sub: Seq<char>,
        transfer_id: Seq<char>,
        duration: u64,
    ) -> Option<Seq<char>> {
        match self.claims_for(now, jti, sub, transfer_id, duration) {
            Some(c) => self.tokens.issued(claims_json(c)),
            None => None,
        }
    }

    /// An error of the token manager when it makes a token: the key could not
    /// be read or used, or its algorithm and format go together nowhere here.
    pub open spec fn token_error(&self, e: TokenError) -> bool {
        &&& e is Encode || e is Format || e is UnsupportedFormat
        &&& e is UnsupportedFormat <==> !self.tokens.supported()
    }

    /// Whether an expiry `duration` seconds after `now` fits in an `i64`.
    pub open spec fn expiry_fits(now: i64, duration: u64) -> bool {
        now + duration <= i64::MAX
    }

    /// Makes a token of id `jti` that lasts `duration` seconds from `now`.
    fn issue_generic_token(
        &self,
        now: i64,
        jti: &str,
        participant_id: &str,
        process_id: &str,
        duration: u64,
    ) -> (r: Result<String, EdrError>)
        ensures
            match r {
                Ok(t) => self.token_for(now, jti@, participant_id@, process_id@, duration) == Some(
                    t@,
                ),
                Err(EdrError::Generic) => self.claims_for(
                    now,
                    jti@,
                    participant_id@,
                    process_id@,
                    duration,
                ) is None,
                Err(EdrError::Token(e)) => self.claims_for(
                    now,
                    jti@,
                    participant_id@,
                    process_id@,
                    duration,
                ) is Some && self.token_for(now, jti@, participant_id@, process_id@, duration)
                    is None && self.token_error(e),
            },
    {
        if duration as i128 > i64::MAX as i128 - now as i128 {
            return Err(EdrError::Generic);
        }
        let exp = (now as i128 + duration as i128) as i64;
        let claims = EdrClaims {
            jti: String::from_str(jti),
            aud: self.proxy_url.clone(),
            iss: self.issuer.clone(),
            sub: String::from_str(participant_id),
            exp,
            iat: now,
            transfer_id: String::from_str(process_id),
        };
        let text = claims.to_json();
        match self.tokens.issue(text.as_str()) {
            Ok(t) => Ok(t),
            Err(e) => Err(EdrError::Token(e)),
        }
    }

    /// The tokens of a transfer for these ids, issued at `now`.
    pub open spec fn tokens_for(
        &self,
        now: i64,
        token_id: TokenId,
        refresh_token_id: RefreshTokenId,
        sub: Seq<char>,
        transfer_id: Seq<char>,
    ) -> Option<(Seq<char>, Seq<char>)> {
        match (
            self.token_for(now, uuid_text(token_id.0), sub, transfer_id, self.token_duration),
            self.token_for(
                now,
                uuid_text(refresh_token_id.0),
                sub,
                transfer_id,
                self.refresh_token_duration,
            ),
        ) {
            (Some(a), Some(b)) => Some((a, b)),
            _ => None,
        }
    }

    /// Makes the access token and the refresh token of a transfer.
    pub fn issue_token(
        &self,
        now: i64,
        token_id: TokenId,
        refresh_token_id: RefreshTokenId,
        participant_id: &str,
        process_id: &str,
    ) -> (r: Result<TokenResponse, EdrError>)
        ensures
            match r {
                Ok(t) => self.tokens_for(
                    now,
                    token_id,
                    refresh_token_id,
                    participant_id@,
                    process_id@,
                ) == Some((t.access_token@, t.refresh_token@)) && t.expires_in@ == decimal(
                    self.token_duration as nat,
                ),
                Err(_) => self.tokens_for(
                    now,
                    token_id,
                    refresh_token_id,
                    participant_id@,
                    process_id@,
                ) is None,
            },
            !Self::expiry_fits(now, self.token_duration) ==> r matches Err(EdrError::Generic),
            r matches Err(EdrError::Generic) ==> !Self::expiry_fits(now, self.token_duration)
                || !Self::expiry_fits(now, self.refresh_token_duration),
            r matches Err(EdrError::Token(e)) ==> Self::expiry_fits(now, self.token_duration)
                && self.token_error(e),
    {
        let access_id = uuid_string(token_id.0);
        let access_token = self.issue_generic_token(
            now,
            access_id.as_str(),
            participant_id,
            process_id,
            self.token_duration,
        )?;
        let refresh_id = uuid_string(refresh_token_id.0);
        let refresh_token = self.issue_generic_token(
            now,
            refresh_id.as_str(),
            participant_id,
            process_id,
            self.refresh_token_duration,
        )?;
        let mut expires_in = String::new();
        push_decimal(&mut expires_in, self.token_duration);
        assert(expires_in@ =~= decimal(self.token_duration as nat));
        Ok(TokenResponse { access_token, refresh_token, expires_in })
    }

    /// The seven properties of the data address handed to a consumer.
    fn endpoint_properties(&self, tokens: TokenResponse) -> (r: Vec<EndpointProperty>)
        ensures
            crate::signaling::properties_view(r@) == edr_properties(
                self.proxy_url@,
                tokens.access_token@,
                tokens.refresh_token@,
                self.token_url@,
                tokens.expires_in@,
                self.jwks_url@,
            ),
    {
        let ns = Namespace(EDC_PREFIX);
        let mut v: Vec<EndpointProperty> = Vec::new();
        v.push(EndpointProperty { name: ns.to_iri("endpoint"), value: self.proxy_url.clone() });
        v.push(EndpointProperty { name: ns.to_iri("access_token"), value: tokens.access_token });
        v.push(EndpointProperty { name: ns.to_iri("token_type"), value: String::from_str("Bearer") });
        v.push(EndpointProperty { name: ns.to_iri("refresh_token"), value: tokens.refresh_token });
        v.push(EndpointProperty { name: ns.to_iri("refresh_endpoint"), value: self.token_url.clone() });
        v.push(EndpointProperty { name: ns.to_iri("expires_in"), value: tokens.expires_in });
        v.push(EndpointProperty { name: ns.to_iri("jwks_url"), value: self.jwks_url.clone() });
        assert(crate::signaling::properties_view(v@) =~= edr_properties(
            self.proxy_url@,
            tokens.access_token@,
            tokens.refresh_token@,
            self.token_url@,
            tokens.expires_in@,
            self.jwks_url@,
        ));
        v
    }

    /// Makes the tokens of a transfer for these ids, issued at `now`, and the
    /// data address that carries them.
    pub fn create_edr_with(
        &self,
        req: &Transfer,
        token_id: TokenId,
        refresh_token_id: RefreshTokenId,
        now: i64,
    ) -> (r: Result<Edr, EdrError>)
        ensures
            match r {
                Ok(edr) => edr.token_id == token_id && edr.refresh_token_id == refresh_token_id
                    && edr.data_address.endpoint_type@ == IDSA_PREFIX@ + "HTTP"@ && exists|
                    a: Seq<char>,
                    b: Seq<char>,
                |
                    self.tokens_for(now, token_id, refresh_token_id, req.participant_id@, req.id@)
                        == Some((a, b)) && edr.data_address.properties() == edr_properties(
                        self.proxy_url@,
                        a,
                        b,
                        self.token_url@,
                        decimal(self.token_duration as nat),
                        self.jwks_url@,
                    ),
                Err(_) => self.tokens_for(
                    now,
                    token_id,
                    refresh_token_id,
                    req.participant_id@,
                    req.id@,
                ) is None,
            },
            !Self::expiry_fits(now, self.token_duration) ==> r matches Err(EdrError::Generic),
            r matches Err(EdrError::Generic) ==> !Self::expiry_fits(now, self.token_duration)
                || !Self::expiry_fits(now, self.refresh_token_duration),
            r matches Err(EdrError::Token(e)) ==> Self::expiry_fits(now, self.token_duration)
                && self.token_error(e),
    {
        let tokens = self.issue_token(
            now,
            token_id,
            refresh_token_id,
            req.participant_id.as_str(),
            req.id.as_str(),
        )?;
        let properties = self.endpoint_properties(tokens);
        let data_address = DataAddress {
            endpoint_type: Namespace(IDSA_PREFIX).to_iri("HTTP"),
            endpoint_properties: properties,
        };
        Ok(Edr { token_id, refresh_token_id, data_address })
    }

    /// Makes fresh token ids for a transfer, its tokens issued at `now`, and
    /// the data address that carries them.
    pub fn create_edr(&self, req: &Transfer, now: i64) -> (r: Result<Edr, EdrError>)
        ensures
            match r {
                Ok(edr) => edr.data_address.endpoint_type@ == IDSA_PREFIX@ + "HTTP"@ && exists|
                    a: Seq<char>,
                    b: Seq<char>,
                |
                    self.tokens_for(
                        now,
                        edr.token_id,
                        edr.refresh_token_id,
                        req.participant_id@,
                        req.id@,
                    ) == Some((a, b)) && edr.data_address.properties() == edr_properties(
                        self.proxy_url@,
                        a,
                        b,
                        self.token_url@,
                        decimal(self.token_duration as nat),
                        self.jwks_url@,
                    ),
                Err(_) => exists|t: TokenId, rt: RefreshTokenId|
                    #[trigger] self.tokens_for(now, t, rt, req.participant_id@, req.id@) is None,
            },
            !Self::expiry_fits(now, self.token_duration) ==> r matches Err(EdrError::Generic),
            r matches Err(EdrError::Generic) ==> !Self::expiry_fits(now, self.token_duration)
                || !Self::expiry_fits(now, self.refresh_token_duration),
            r matches Err(EdrError::Token(e)) ==> Self::expiry_fits(now, self.token_duration)
                && self.token_error(e),
    {
        let token_id = TokenId(new_uuid());
        let refresh_token_id = RefreshTokenId(new_uuid());
        self.create_edr_with(req, token_id, refresh_token_id, now)
    }

    /// Checks a refresh token and makes a new pair of tokens, with fresh ids
    /// and issued at `now`, for the participant and the transfer that the
    /// token's claims name. The ids kept for the transfer are not touched here.
    pub fn refresh_token(&self, req: TokenRequest, now: i64) -> (r: Result<TokenResponse, EdrError>)
        ensures
            !self.tokens.supported() ==> r matches Err(
                EdrError::Token(TokenError::UnsupportedFormat(..)),
            ),
            r matches Ok(t) ==> exists|
                c: ClaimsView,
                token_id: TokenId,
                refresh_token_id: RefreshTokenId,
            |
                token_claims(req.refresh_token@) == Some(#[trigger] claims_json(c)) && #[trigger] self.tokens_for(
                    now,
                    token_id,
                    refresh_token_id,
                    c.sub,
                    c.transfer_id,
                ) == Some((t.access_token@, t.refresh_token@)) && t.expires_in@ == decimal(
                    self.token_duration as nat,
                ),
            r matches Err(EdrError::Token(e)) ==> (e is UnsupportedFormat <==> !self.tokens.supported())
                && (e is Claims ==> (token_claims(req.refresh_token@) matches Some(t) && forall|
                m: ClaimsView,
            | #[trigger] claims_json(m) != t)),
            r is Err ==> (r matches Err(EdrError::Token(_)) || exists|
                c: ClaimsView,
                token_id: TokenId,
                refresh_token_id: RefreshTokenId,
            |
                token_claims(req.refresh_token@) == Some(#[trigger] claims_json(c)) && #[trigger] self.tokens_for(
                    now,
                    token_id,
                    refresh_token_id,
                    c.sub,
                    c.transfer_id,
                ) is None),
    {
        let claims = match self.tokens.validate_claims(req.refresh_token.as_str()) {
            Ok(c) => c,
            Err(e) => return Err(EdrError::Token(e)),
        };
        let token_id = TokenId(new_uuid());
        let refresh_token_id = RefreshTokenId(new_uuid());
        let r = self.issue_token(
            now,
            token_id,
            refresh_token_id,
            claims.sub.as_str(),
            claims.transfer_id.as_str(),
        );
        assert(token_claims(req.refresh_token@) == Some(claims_json(claims@)));
        assert(r is Err ==> self.tokens_for(now, token_id, refresh_token_id, claims@.sub, claims@.transfer_id)
            is None);
        assert(r matches Ok(t) ==> self.tokens_for(
            now,
            token_id,
            refresh_token_id,
            claims@.sub,
            claims@.transfer_id,
        ) == Some((t.access_token@, t.refresh_token@)));
        r
    }
}

} // verus!
