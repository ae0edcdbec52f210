use vstd::prelude::*;

use crate::claims::{
    claims_json, claims_read, lemma_claims_json_trimmed, lemma_claims_read, ClaimsView,
};
use crate::edr::{lemma_uuid_text_injective, uuid_text, EdrEntryView, RefreshTokenId, TokenId};
use crate::proxy::proxy_allowed;
use crate::service::refresh_allowed;
use crate::store::{
    entries_valid, entry_deleted, entry_of, entry_saved, record_of, status_changed,
    transfer_deleted, transfer_saved, transfers_valid,
};
use crate::token::{ed_signed_token, json_trimmed, token_claims, TokenManagerImpl};
use crate::transfer::{TransferStatus, TransferView};

verus! {

/// Claims written as a token's JSON object are read back unchanged.
pub proof fn claims_round_trip(c: ClaimsView)
    ensures
        claims_read(claims_json(c)) == Some(c),
{
    lemma_claims_read(c);
}

/// The claims text of a token that the library issues is read back, as it
/// is, by the check of that token: `issue` keeps a trimmed claims text in the
/// token, and `validate` returns the claims text that the token carries.
pub proof fn issued_claims_are_validated(c: ClaimsView, issued: Seq<char>, validated: Seq<char>)
    requires
        token_claims(issued) == Some(claims_json(c)) || !json_trimmed(claims_json(c)),
        token_claims(issued) == Some(validated),
    ensures
        validated == claims_json(c),
        claims_read(validated) == Some(c),
{
    lemma_claims_json_trimmed(c);
    lemma_claims_read(c);
}

/// After saving a record, it is the one kept under its id, and the records
/// stay valid.
pub proof fn lemma_record_after_save(s: Seq<TransferView>, t: TransferView)
    requires
        transfers_valid(s),
        t.created_at <= t.updated_at,
    ensures
        transfers_valid(transfer_saved(s, t)),
        record_of(transfer_saved(s, t), t.id) == Some(t),
{
    let s2 = transfer_saved(s, t);
    if exists|i: int| 0 <= i < s.len() && s[i].id == t.id {
        let c = choose|i: int| 0 <= i < s.len() && s[i].id == t.id;
        assert(s2 == s.update(c, t));
        assert(s2[c].id == t.id);
        let c2 = choose|i: int| 0 <= i < s2.len() && s2[i].id == t.id;
        if c2 != c {
            assert(s2[c2] == s[c2]);
        }
    } else {
        assert(s2 == s.push(t));
        assert(s2[s.len() as int].id == t.id);
        let c2 = choose|i: int| 0 <= i < s2.len() && s2[i].id == t.id;
        if c2 != s.len() {
            assert(s2[c2] == s[c2]);
        }
    }
}

/// Saving two records with one id leaves the second kept under it.
pub proof fn transfer_upsert_idempotent(s: Seq<TransferView>, r1: TransferView, r2: TransferView)
    requires
        transfers_valid(s),
        r1.id == r2.id,
        r1.created_at <= r1.updated_at,
        r2.created_at <= r2.updated_at,
    ensures
        record_of(transfer_saved(transfer_saved(s, r1), r2), r1.id) == Some(r2),
{
    lemma_record_after_save(s, r1);
    lemma_record_after_save(transfer_saved(s, r1), r2);
}

/// After saving an entry, it is the one kept for its transfer, and the
/// entries stay valid.
pub proof fn lemma_entry_after_save(s: Seq<EdrEntryView>, e: EdrEntryView)
    requires
        entries_valid(s),
    ensures
        entries_valid(entry_saved(s, e)),
        entry_of(entry_saved(s, e), e.transfer_id) == Some(e),
{
    let s2 = entry_saved(s, e);
    if exists|i: int| 0 <= i < s.len() && s[i].transfer_id == e.transfer_id {
        let c = choose|i: int| 0 <= i < s.len() && s[i].transfer_id == e.transfer_id;
        assert(s2 == s.update(c, e));
        assert(s2[c].transfer_id == e.transfer_id);
        let c2 = choose|i: int| 0 <= i < s2.len() && s2[i].transfer_id == e.transfer_id;
        if c2 != c {
            assert(s2[c2] == s[c2]);
        }
    } else {
        assert(s2 == s.push(e));
        assert(s2[s.len() as int].transfer_id == e.transfer_id);
        let c2 = choose|i: int| 0 <= i < s2.len() && s2[i].transfer_id == e.transfer_id;
        if c2 != s.len() {
            assert(s2[c2] == s[c2]);
        }
    }
}

/// Saving two entries for one transfer leaves the second kept for it.
pub proof fn entry_upsert_idempotent(s: Seq<EdrEntryView>, e1: EdrEntryView, e2: EdrEntryView)
    requires
        entries_valid(s),
        e1.transfer_id == e2.transfer_id,
    ensures
        entry_of(entry_saved(entry_saved(s, e1), e2), e1.transfer_id) == Some(e2),
{
    lemma_entry_after_save(s, e1);
    lemma_entry_after_save(entry_saved(s, e1), e2);
}

/// Deleting a record twice does what deleting it once does, and leaves none
/// under its id.
pub proof fn transfer_delete_idempotent(s: Seq<TransferView>, id: Seq<char>)
    requires
        transfers_valid(s),
    ensures
        record_of(transfer_deleted(s, id), id) is None,
        transfer_deleted(transfer_deleted(s, id), id) == transfer_deleted(s, id),
{
    let s2 = transfer_deleted(s, id);
    if exists|i: int| 0 <= i < s.len() && s[i].id == id {
        let c = choose|i: int| 0 <= i < s.len() && s[i].id == id;
        assert(s2 == s.remove(c));
        assert forall|k: int| 0 <= k < s2.len() implies s2[k].id != id by {
            if k < c {
                assert(s2[k] == s[k]);
            } else {
                assert(s2[k] == s[k + 1]);
            }
        }
    }
}

/// Deleting an entry twice does what deleting it once does, and leaves none
/// for its transfer.
pub proof fn entry_delete_idempotent(s: Seq<EdrEntryView>, transfer_id: Seq<char>)
    requires
        entries_valid(s),
    ensures
        entry_of(entry_deleted(s, transfer_id), transfer_id) is None,
        entry_deleted(entry_deleted(s, transfer_id), transfer_id) == entry_deleted(s, transfer_id),
{
    let s2 = entry_deleted(s, transfer_id);
    if exists|i: int| 0 <= i < s.len() && s[i].transfer_id == transfer_id {
        let c = choose|i: int| 0 <= i < s.len() && s[i].transfer_id == transfer_id;
        assert(s2 == s.remove(c));
        assert forall|k: int| 0 <= k < s2.len() implies s2[k].transfer_id != transfer_id by {
            if k < c {
                assert(s2[k] == s[k]);
            } else {
                assert(s2[k] == s[k + 1]);
            }
        }
    }
}

/// Two starts with one process id keep one record under it, the second; the
/// second adds no record.
pub proof fn start_replay_keeps_one_record(s: Seq<TransferView>, t1: TransferView, t2: TransferView)
    requires
        transfers_valid(s),
        t1.id == t2.id,
        t1.created_at <= t1.updated_at,
        t2.created_at <= t2.updated_at,
    ensures
        transfers_valid(transfer_saved(transfer_saved(s, t1), t2)),
        record_of(transfer_saved(transfer_saved(s, t1), t2), t1.id) == Some(t2),
        transfer_saved(transfer_saved(s, t1), t2).len() == transfer_saved(s, t1).len(),
        forall|i: int, j: int|
            0 <= i < transfer_saved(transfer_saved(s, t1), t2).len() && 0 <= j
                < transfer_saved(transfer_saved(s, t1), t2).len() && transfer_saved(
                transfer_saved(s, t1),
                t2,
            )[i].id == t1.id && transfer_saved(transfer_saved(s, t1), t2)[j].id == t1.id ==> i == j,
{
    lemma_record_after_save(s, t1);
    let s1 = transfer_saved(s, t1);
    lemma_record_after_save(s1, t2);
    assert(exists|i: int| 0 <= i < s1.len() && s1[i].id == t2.id);
}

/// Two sets of claims with one text are one set of claims: a token carries
/// the same claims each time it is presented.
pub proof fn claims_text_injective(c1: ClaimsView, c2: ClaimsView)
    requires
        claims_json(c1) == claims_json(c2),
    ensures
        c1 == c2,
{
    lemma_claims_read(c1);
    lemma_claims_read(c2);
}

/// After a refresh rotates the ids kept for a transfer to fresh ones, the
/// refresh token it consumed is refused, and so is the access token of the
/// old id.
pub proof fn refresh_rotates(
    transfers: Seq<TransferView>,
    edrs: Seq<EdrEntryView>,
    transfer_id: Seq<char>,
    jti: Seq<char>,
    old_token_id: TokenId,
    old_refresh_token_id: RefreshTokenId,
    token_id: TokenId,
    refresh_token_id: RefreshTokenId,
)
    requires
        entries_valid(edrs),
        refresh_allowed(transfers, edrs, transfer_id, jti),
        entry_of(edrs, transfer_id) == Some(
            EdrEntryView {
                transfer_id,
                token_id: old_token_id,
                refresh_token_id: old_refresh_token_id,
            },
        ),
        refresh_token_id != old_refresh_token_id,
        token_id != old_token_id,
    ensures
        !refresh_allowed(
            transfers,
            entry_saved(edrs, EdrEntryView { transfer_id, token_id, refresh_token_id }),
            transfer_id,
            jti,
        ),
        !proxy_allowed(
            transfers,
            entry_saved(edrs, EdrEntryView { transfer_id, token_id, refresh_token_id }),
            transfer_id,
            uuid_text(old_token_id.0),
        ),
{
    lemma_entry_after_save(edrs, EdrEntryView { transfer_id, token_id, refresh_token_id });
    if uuid_text(refresh_token_id.0) == jti {
        lemma_uuid_text_injective(refresh_token_id.0, old_refresh_token_id.0);
    }
    if uuid_text(token_id.0) == uuid_text(old_token_id.0) {
        lemma_uuid_text_injective(token_id.0, old_token_id.0);
    }
}

/// After a Start is replayed for a transfer with fresh ids, the access token
/// and the refresh token of the ids kept before are refused, whatever the
/// records hold.
pub proof fn restart_refuses_old_tokens(
    transfers: Seq<TransferView>,
    edrs: Seq<EdrEntryView>,
    transfer_id: Seq<char>,
    old_token_id: TokenId,
    old_refresh_token_id: RefreshTokenId,
    token_id: TokenId,
    refresh_token_id: RefreshTokenId,
)
    requires
        entries_valid(edrs),
        entry_of(edrs, transfer_id) == Some(
            EdrEntryView {
                transfer_id,
                token_id: old_token_id,
                refresh_token_id: old_refresh_token_id,
            },
        ),
        refresh_token_id != old_refresh_token_id,
        token_id != old_token_id,
    ensures
        !proxy_allowed(
            transfers,
            entry_saved(edrs, EdrEntryView { transfer_id, token_id, refresh_token_id }),
            transfer_id,
            uuid_text(old_token_id.0),
        ),
        !refresh_allowed(
            transfers,
            entry_saved(edrs, EdrEntryView { transfer_id, token_id, refresh_token_id }),
            transfer_id,
            uuid_text(old_refresh_token_id.0),
        ),
{
    lemma_entry_after_save(edrs, EdrEntryView { transfer_id, token_id, refresh_token_id });
    if uuid_text(refresh_token_id.0) == uuid_text(old_refresh_token_id.0) {
        lemma_uuid_text_injective(refresh_token_id.0, old_refresh_token_id.0);
    }
    if uuid_text(token_id.0) == uuid_text(old_token_id.0) {
        lemma_uuid_text_injective(token_id.0, old_token_id.0);
    }
}

/// Once a transfer is suspended, no request to the data proxy goes on for it,
/// whatever token is presented.
pub proof fn suspended_blocks_proxy(
    transfers: Seq<TransferView>,
    edrs: Seq<EdrEntryView>,
    id: Seq<char>,
    jti: Seq<char>,
    now: i64,
)
    requires
        transfers_valid(transfers),
    ensures
        !proxy_allowed(status_changed(transfers, id, TransferStatus::Suspended, now), edrs, id, jti),
{
    let s2 = status_changed(transfers, id, TransferStatus::Suspended, now);
    if exists|i: int| 0 <= i < transfers.len() && transfers[i].id == id {
        let c = choose|i: int| 0 <= i < transfers.len() && transfers[i].id == id;
        assert(s2[c].id == id);
        let c2 = choose|i: int| 0 <= i < s2.len() && s2[i].id == id;
        if c2 != c {
            assert(s2[c2] == transfers[c2]);
        }
    }
}

/// Once a transfer is terminated, no request to the data proxy goes on for
/// it, whatever token is presented.
pub proof fn terminated_blocks_proxy(
    transfers: Seq<TransferView>,
    edrs: Seq<EdrEntryView>,
    id: Seq<char>,
    jti: Seq<char>,
)
    requires
        transfers_valid(transfers),
        entries_valid(edrs),
    ensures
        !proxy_allowed(transfer_deleted(transfers, id), entry_deleted(edrs, id), id, jti),
{
    transfer_delete_idempotent(transfers, id);
}

/// The key id that the published key carries is the one in the header of
/// every token the manager makes.
pub proof fn jwks_names_signing_kid(m: TokenManagerImpl, claims: Seq<char>)
    ensures
        m.published_key() matches Some(k) ==> k.5 == m@.kid,
        m.supported() ==> m.issued(claims) == ed_signed_token(m@.kid, m@.signing_key, claims),
{
}

} // verus!
