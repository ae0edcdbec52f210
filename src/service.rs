use vstd::prelude::*;

use crate::claims::{claims_json, decimal, ClaimsView, EdrClaims};
use crate::edr::{
    edr_properties, new_uuid, uuid_text, EdrEntry, EdrEntryView, EdrError, EdrManager,
    RefreshTokenId, TokenId, TokenRequest, TokenResponse,
};
use crate::signaling::{DataFlowResponseMessage, DataFlowStartMessage};
use crate::store::{
    entry_deleted, entry_of, entry_saved, record_of, status_changed, transfer_deleted,
    transfer_saved, EdrStore, TransferStore,
};
use crate::token::{token_claims, TokenError};
use crate::transfer::{
    transfer_kind_of, Transfer, TransferKind, TransferKindError, TransferStatus, TransferView,
};

verus! {

/// The stores that the managers share.
pub struct Context {
    pub transfers: TransferStore,
    pub edrs: EdrStore,
}

impl Context {
    pub open spec fn wf(&self) -> bool {
        self.transfers.wf() && self.edrs.wf()
    }

    pub fn new() -> (r: Context)
        ensures
            r.wf(),
            r.transfers@.len() == 0,
            r.edrs@.len() == 0,
    {
        Context { transfers: TransferStore::new(), edrs: EdrStore::new() }
    }
}

/// Why a signal of the control plane failed.
#[derive(Debug)]
pub enum SignalingError {
    InvalidSourceDataAddress(TransferKindError),
    EdrError(EdrError),
    Generic,
}

impl SignalingError {
    /// The HTTP status and message that answer the signal.
    pub fn to_response(&self) -> (r: (u16, &'static str))
        ensures
            self is InvalidSourceDataAddress ==> r.0 == 400 && r.1@ == "Invalid Source Data Address"@,
            self is EdrError ==> r.0 == 500 && r.1@ == "Internal Server Error"@,
            self is Generic ==> r.0 == 500 && r.1@ == "Internal server error"@,
    {
        match self {
            SignalingError::InvalidSourceDataAddress(_) => (400, "Invalid Source Data Address"),
            SignalingError::EdrError(_) => (500, "Internal Server Error"),
            SignalingError::Generic => (500, "Internal server error"),
        }
    }
}

/// The record that a start request makes at time `now`.
pub open spec fn started_record(req: DataFlowStartMessage, now: i64) -> TransferView {
    TransferView {
        id: req.process_id@,
        status: TransferStatus::Started,
        source_type: req.source_data_address.endpoint_type@,
        source: req.source_data_address.properties(),
        participant_id: req.participant_id@,
        created_at: now,
        updated_at: now,
    }
}

/// `x`, or another value where `x` is `y`.
fn other_than(x: u128, y: u128) -> (r: u128)
    ensures
        r != y,
        x != y ==> r == x,
{
    if x != y {
        x
    } else if x == u128::MAX {
        0
    } else {
        x + 1
    }
}

/// Fresh token ids for a transfer: drawn at random, and never the ids kept
/// for it.
fn fresh_ids(kept: &Option<EdrEntry>) -> (r: (TokenId, RefreshTokenId))
    ensures
        kept matches Some(e) ==> r.0 != e.token_id && r.1 != e.refresh_token_id,
{
    let t = new_uuid();
    let rt = new_uuid();
    match kept {
        Some(e) => (
            TokenId(other_than(t, e.token_id.0)),
            RefreshTokenId(other_than(rt, e.refresh_token_id.0)),
        ),
        None => (TokenId(t), RefreshTokenId(rt)),
    }
}

/// Drives transfers through their states: started, suspended, and deleted
/// when terminated.
pub struct TransferService {
    pub edrs: EdrManager,
}

impl TransferService {
    pub fn new(edrs: EdrManager) -> (r: TransferService)
        ensures
            r.edrs == edrs,
    {
        TransferService { edrs }
    }

    /// What a start with these token ids at time `now` does: it fails with
    /// `InvalidSourceDataAddress` exactly where the source names no data
    /// source that can be transferred, with `EdrError` exactly where the
    /// tokens cannot be made, and changes nothing then; otherwise it saves the
    /// token ids and the record of the transfer and answers with the data
    /// address that carries the tokens.
    pub open spec fn start_done(
        &self,
        old_transfers: Seq<TransferView>,
        old_edrs: Seq<EdrEntryView>,
        new_transfers: Seq<TransferView>,
        new_edrs: Seq<EdrEntryView>,
        req: DataFlowStartMessage,
        token_id: TokenId,
        refresh_token_id: RefreshTokenId,
        now: i64,
        r: Result<DataFlowResponseMessage, SignalingError>,
    ) -> bool {
        let kind = transfer_kind_of(
            req.source_data_address.endpoint_type@,
            req.source_data_address.properties(),
        );
        let tokens = self.edrs.tokens_for(
            now,
            token_id,
            refresh_token_id,
            req.participant_id@,
            req.process_id@,
        );
        match r {
            Ok(resp) => kind is Ok && (tokens matches Some((a, b)) && (resp.data_address matches Some(d)
                && d.properties() == edr_properties(
                self.edrs.proxy_url@,
                a,
                b,
                self.edrs.token_url@,
                decimal(self.edrs.token_duration as nat),
                self.edrs.jwks_url@,
            ))) && (entry_of(old_edrs, req.process_id@) matches Some(e0) ==> e0.token_id != token_id
                && e0.refresh_token_id != refresh_token_id) && new_transfers == transfer_saved(
                old_transfers,
                started_record(req, now),
            )
                && new_edrs == entry_saved(
                old_edrs,
                EdrEntryView { transfer_id: req.process_id@, token_id, refresh_token_id },
            ),
            Err(SignalingError::InvalidSourceDataAddress(e)) => kind == Err::<
                (Option<Seq<char>>, Option<Seq<char>>, Option<u16>, Seq<char>),
                _,
            >(e) && new_transfers == old_transfers && new_edrs == old_edrs,
            Err(SignalingError::EdrError(_)) => kind is Ok && tokens is None && new_transfers
                == old_transfers && new_edrs == old_edrs,
            Err(SignalingError::Generic) => false,
        }
    }

    /// Starts a transfer with these token ids, which differ from those kept
    /// for it, at time `now`: its tokens are made, then its token ids and its record are saved, replacing those of
    /// an earlier start with the same process id.
    pub fn start_with(
        &self,
        ctx: &mut Context,
        req: DataFlowStartMessage,
        token_id: TokenId,
        refresh_token_id: RefreshTokenId,
        now: i64,
    ) -> (r: Result<DataFlowResponseMessage, SignalingError>)
        requires
            old(ctx).wf(),
            entry_of(old(ctx).edrs@, req.process_id@) matches Some(e) ==> e.token_id != token_id
                && e.refresh_token_id != refresh_token_id,
        ensures
            final(ctx).wf(),
            self.start_done(
                old(ctx).transfers@,
                old(ctx).edrs@,
                final(ctx).transfers@,
                final(ctx).edrs@,
                req,
                token_id,
                refresh_token_id,
                now,
                r,
            ),
    {
        match TransferKind::try_from(&req.source_data_address) {
            Ok(_) => {},
            Err(e) => return Err(SignalingError::InvalidSourceDataAddress(e)),
        }
        let transfer = Transfer {
            id: req.process_id,
            status: TransferStatus::Started,
            source: req.source_data_address,
            participant_id: req.participant_id,
            created_at: now,
            updated_at: now,
        };
        assert(transfer@ == started_record(req, now));
        let edr = match self.edrs.create_edr_with(&transfer, token_id, refresh_token_id, now) {
            Ok(edr) => edr,
            Err(e) => return Err(SignalingError::EdrError(e)),
        };
        let entry = EdrEntry { transfer_id: transfer.id.clone(), token_id, refresh_token_id };
        ctx.edrs.save(entry);
        ctx.transfers.save(transfer);
        Ok(DataFlowResponseMessage::new(Some(edr.data_address)))
    }

    /// Starts a transfer at time `now`, with fresh token ids that differ from
    /// those kept for it.
    pub fn start(&self, ctx: &mut Context, req: DataFlowStartMessage, now: i64) -> (r: Result<
        DataFlowResponseMessage,
        SignalingError,
    >)
        requires
            old(ctx).wf(),
        ensures
            final(ctx).wf(),
            exists|token_id: TokenId, refresh_token_id: RefreshTokenId|
                #[trigger] self.start_done(
                    old(ctx).transfers@,
                    old(ctx).edrs@,
                    final(ctx).transfers@,
                    final(ctx).edrs@,
                    req,
                    token_id,
                    refresh_token_id,
                    now,
                    r,
                ),
            !(r matches Err(SignalingError::Generic)),
            transfer_kind_of(
                req.source_data_address.endpoint_type@,
                req.source_data_address.properties(),
            ) is Err ==> r matches Err(SignalingError::InvalidSourceDataAddress(_)),
    {
        let kept = ctx.edrs.fetch_by_id(req.process_id.as_str());
        let (token_id, refresh_token_id) = fresh_ids(&kept);
        let ghost g = req;
        let r = self.start_with(ctx, req, token_id, refresh_token_id, now);
        assert(self.start_done(
            old(ctx).transfers@,
            old(ctx).edrs@,
            ctx.transfers@,
            ctx.edrs@,
            g,
            token_id,
            refresh_token_id,
            now,
            r,
        ));
        r
    }

    /// The record of a transfer.
    pub fn get(&self, ctx: &Context, id: &str) -> (r: Option<Transfer>)
        requires
            ctx.wf(),
        ensures
            match r {
                Some(t) => record_of(ctx.transfers@, id@) == Some(t@),
                None => record_of(ctx.transfers@, id@) is None,
            },
    {
        ctx.transfers.fetch_by_id(id)
    }

    /// Suspends a transfer at time `now`; nothing happens where there is none.
    pub fn suspend(&self, ctx: &mut Context, id: &str, now: i64)
        requires
            old(ctx).wf(),
        ensures
            final(ctx).wf(),
            final(ctx).transfers@ == status_changed(
                old(ctx).transfers@,
                id@,
                TransferStatus::Suspended,
                now,
            ),
            final(ctx).edrs@ == old(ctx).edrs@,
    {
        ctx.transfers.change_status(id, TransferStatus::Suspended, now);
    }

    /// Terminates a transfer: its record and its token ids are deleted; nothing
    /// happens where there are none. The reason is not kept.
    pub fn terminate(&self, ctx: &mut Context, id: &str, reason: Option<String>)
        requires
            old(ctx).wf(),
        ensures
            final(ctx).wf(),
            final(ctx).transfers@ == transfer_deleted(old(ctx).transfers@, id@),
            final(ctx).edrs@ == entry_deleted(old(ctx).edrs@, id@),
    {
        ctx.transfers.delete(id);
        ctx.edrs.delete(id);
    }
}

/// Why a refresh failed. Whatever the cause, the caller is told no more than
/// that the credentials were wrong.
#[derive(Debug)]
pub enum RefreshError {
    Token(TokenError),
    Edr(EdrError),
    InvalidTransfer,
}

impl RefreshError {
    /// The HTTP status and message that answer a failed refresh.
    pub fn to_response(&self) -> (r: (u16, &'static str))
        ensures
            r.0 == 400 && r.1@ == "Wrong credentials"@,
    {
        (400, "Wrong credentials")
    }
}

/// Whether the claims of a refresh token may be exchanged: the transfer is
/// started and the token's id is the refresh token id kept for it.
pub open spec fn refresh_allowed(
    transfers: Seq<TransferView>,
    edrs: Seq<EdrEntryView>,
    transfer_id: Seq<char>,
    jti: Seq<char>,
) -> bool {
    &&& record_of(transfers, transfer_id) matches Some(t) && t.status == TransferStatus::Started
    &&& entry_of(edrs, transfer_id) matches Some(e) && uuid_text(e.refresh_token_id.0) == jti
}

/// Exchanges refresh tokens for new pairs of tokens.
pub struct RefreshManager {
    pub edrs: EdrManager,
}

impl RefreshManager {
    pub fn new(edrs: EdrManager) -> (r: RefreshManager)
        ensures
            r.edrs == edrs,
    {
        RefreshManager { edrs }
    }

    /// Exchanges the checked claims of a refresh token for a new pair of tokens
    /// with these ids, which differ from those kept, issued at `now`; the ids kept for the transfer are
    /// replaced by them.
    pub fn refresh_with_claims(
        &self,
        ctx: &mut Context,
        claims: &EdrClaims,
        token_id: TokenId,
        refresh_token_id: RefreshTokenId,
        now: i64,
    ) -> (r: Result<TokenResponse, RefreshError>)
        requires
            old(ctx).wf(),
            entry_of(old(ctx).edrs@, claims.transfer_id@) matches Some(e) ==> e.token_id != token_id
                && e.refresh_token_id != refresh_token_id,
        ensures
            final(ctx).wf(),
            final(ctx).transfers@ == old(ctx).transfers@,
            !refresh_allowed(
                old(ctx).transfers@,
                old(ctx).edrs@,
                claims.transfer_id@,
                claims.jti@,
            ) ==> (r matches Err(RefreshError::InvalidTransfer)) && final(ctx).edrs@ == old(ctx).edrs@,
            refresh_allowed(old(ctx).transfers@, old(ctx).edrs@, claims.transfer_id@, claims.jti@)
                ==> match r {
                Ok(t) => self.edrs.tokens_for(
                    now,
                    token_id,
                    refresh_token_id,
                    claims.sub@,
                    claims.transfer_id@,
                ) == Some((t.access_token@, t.refresh_token@)) && t.expires_in@ == decimal(
                    self.edrs.token_duration as nat,
                ) && final(ctx).edrs@ == entry_saved(
                    old(ctx).edrs@,
                    EdrEntryView { transfer_id: claims.transfer_id@, token_id, refresh_token_id },
                ),
                Err(e) => e is Edr && self.edrs.tokens_for(
                    now,
                    token_id,
                    refresh_token_id,
                    claims.sub@,
                    claims.transfer_id@,
                ) is None && final(ctx).edrs@ == old(ctx).edrs@,
            },
    {
        let transfer = match ctx.transfers.fetch_by_id(claims.transfer_id.as_str()) {
            Some(t) => t,
            None => return Err(RefreshError::InvalidTransfer),
        };
        if transfer.status != TransferStatus::Started {
            return Err(RefreshError::InvalidTransfer);
        }
        let entry = match ctx.edrs.fetch_by_id(claims.transfer_id.as_str()) {
            Some(e) => e,
            None => return Err(RefreshError::InvalidTransfer),
        };
        let current = crate::edr::uuid_string(entry.refresh_token_id.0);
        if !crate::text::text_eq(current.as_str(), claims.jti.as_str()) {
            return Err(RefreshError::InvalidTransfer);
        }
        let response = match self.edrs.issue_token(
            now,
            token_id,
            refresh_token_id,
            claims.sub.as_str(),
            claims.transfer_id.as_str(),
        ) {
            Ok(t) => t,
            Err(e) => return Err(RefreshError::Edr(e)),
        };
        if !ctx.edrs.rotate(
            claims.transfer_id.as_str(),
            entry.refresh_token_id,
            token_id,
            refresh_token_id,
        ) {
            return Err(RefreshError::InvalidTransfer);
        }
        Ok(response)
    }

    /// Checks a refresh token and exchanges it for a new pair of tokens with
    /// fresh ids, which differ from those kept, issued at `now`. Once the token is checked, the exchange
    /// fails exactly where its claims may not be exchanged or the tokens cannot
    /// be made, and then changes nothing.
    pub fn refresh_token(&self, ctx: &mut Context, req: TokenRequest, now: i64) -> (r: Result<
        TokenResponse,
        RefreshError,
    >)
        requires
            old(ctx).wf(),
        ensures
            final(ctx).wf(),
            final(ctx).transfers@ == old(ctx).transfers@,
            r is Err ==> final(ctx).edrs@ == old(ctx).edrs@,
            !self.edrs.tokens.supported() ==> r matches Err(
                RefreshError::Token(TokenError::UnsupportedFormat(..)),
            ),
            r matches Ok(resp) ==> exists|
                c: ClaimsView,
                token_id: TokenId,
                refresh_token_id: RefreshTokenId,
            |
                token_claims(req.refresh_token@) == Some(#[trigger] claims_json(c)) && refresh_allowed(
                    old(ctx).transfers@,
                    old(ctx).edrs@,
                    c.transfer_id,
                    c.jti,
                ) && (entry_of(old(ctx).edrs@, c.transfer_id) matches Some(e0) && e0.token_id
                    != token_id && e0.refresh_token_id != refresh_token_id) && final(ctx).edrs@
                    == entry_saved(
                    old(ctx).edrs@,
                    EdrEntryView { transfer_id: c.transfer_id, token_id, refresh_token_id },
                ) && #[trigger] self.edrs.tokens_for(
                    now,
                    token_id,
                    refresh_token_id,
                    c.sub,
                    c.transfer_id,
                ) == Some((resp.access_token@, resp.refresh_token@)),
            r matches Err(RefreshError::Token(e)) ==> (e is UnsupportedFormat
                <==> !self.edrs.tokens.supported()) && (e is Claims ==> (token_claims(
                req.refresh_token@,
            ) matches Some(t) && forall|m: ClaimsView| #[trigger] claims_json(m) != t)),
            r matches Err(RefreshError::InvalidTransfer) ==> exists|c: ClaimsView|
                token_claims(req.refresh_token@) == Some(#[trigger] claims_json(c)) && !refresh_allowed(
                    old(ctx).transfers@,
                    old(ctx).edrs@,
                    c.transfer_id,
                    c.jti,
                ),
            r matches Err(RefreshError::Edr(_)) ==> exists|
                c: ClaimsView,
                token_id: TokenId,
                refresh_token_id: RefreshTokenId,
            |
                token_claims(req.refresh_token@) == Some(#[trigger] claims_json(c)) && refresh_allowed(
                    old(ctx).transfers@,
                    old(ctx).edrs@,
                    c.transfer_id,
                    c.jti,
                ) && #[trigger] self.edrs.tokens_for(
                    now,
                    token_id,
                    refresh_token_id,
                    c.sub,
                    c.transfer_id,
                ) is None,
    {
        let claims = match self.edrs.tokens.validate_claims(req.refresh_token.as_str()) {
            Ok(c) => c,
            Err(e) => return Err(RefreshError::Token(e)),
        };
        let kept = ctx.edrs.fetch_by_id(claims.transfer_id.as_str());
        let (token_id, refresh_token_id) = fresh_ids(&kept);
        let r = self.refresh_with_claims(ctx, &claims, token_id, refresh_token_id, now);
        assert(token_claims(req.refresh_token@) == Some(claims_json(claims@)));
        assert(self.edrs.tokens_for(now, token_id, refresh_token_id, claims@.sub, claims@.transfer_id)
            == self.edrs.tokens_for(
            now,
            token_id,
            refresh_token_id,
            claims.sub@,
            claims.transfer_id@,
        ));
        r
    }
}

} // verus!
