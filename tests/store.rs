use edc_dataplane::edr::{EdrEntry, RefreshTokenId, TokenId};
use edc_dataplane::signaling::DataAddress;
use edc_dataplane::store::{EdrStore, TransferQuery, TransferStore};
use edc_dataplane::transfer::{Transfer, TransferStatus};

fn transfer(id: &str, participant: &str) -> Transfer {
    Transfer {
        id: id.to_string(),
        status: TransferStatus::Started,
        source: DataAddress { endpoint_type: "HttpData".to_string(), endpoint_properties: vec![] },
        participant_id: participant.to_string(),
        created_at: 10,
        updated_at: 10,
    }
}

#[test]
fn save_twice_keeps_the_last() {
    let mut s = TransferStore::new();
    s.save(transfer("a", "first"));
    s.save(transfer("a", "second"));
    assert_eq!(s.fetch_by_id("a").unwrap().participant_id, "second");
    assert_eq!(s.query(&TransferQuery::new(None)).len(), 1);
}

#[test]
fn delete_twice_is_fine() {
    let mut s = TransferStore::new();
    s.save(transfer("a", "p"));
    s.delete("a");
    s.delete("a");
    s.delete("never");
    assert!(s.fetch_by_id("a").is_none());
}

#[test]
fn query_keeps_insertion_order_and_pages() {
    let mut s = TransferStore::new();
    for id in ["c", "a", "b"] {
        s.save(transfer(id, "p"));
    }
    s.save(transfer("a", "again"));
    let all: Vec<String> = s.query(&TransferQuery::new(None)).into_iter().map(|t| t.id).collect();
    assert_eq!(all, vec!["c", "a", "b"]);
    let page = s.query(&TransferQuery { limit: 1, offset: 1, id: None });
    assert_eq!(page.len(), 1);
    assert_eq!(page[0].id, "a");
    assert_eq!(s.query(&TransferQuery { limit: -1, offset: 5, id: None }).len(), 0);
    let one = s.query(&TransferQuery::new(Some("b".to_string())));
    assert_eq!(one.len(), 1);
    assert_eq!(one[0].id, "b");
    assert!(s.query(&TransferQuery::new(Some("z".to_string()))).is_empty());
}

#[test]
fn change_status_touches_status_and_update_time() {
    let mut s = TransferStore::new();
    s.save(transfer("a", "p"));
    s.change_status("a", TransferStatus::Suspended, 20);
    let t = s.fetch_by_id("a").unwrap();
    assert_eq!(t.status, TransferStatus::Suspended);
    assert_eq!(t.updated_at, 20);
    assert_eq!(t.created_at, 10);
    s.change_status("a", TransferStatus::Started, 5);
    assert_eq!(s.fetch_by_id("a").unwrap().updated_at, 20);
    s.change_status("missing", TransferStatus::Suspended, 30);
    assert!(s.fetch_by_id("missing").is_none());
}

#[test]
fn edr_entries_rotate_only_from_the_expected_id() {
    let mut s = EdrStore::new();
    s.save(EdrEntry { transfer_id: "a".to_string(), token_id: TokenId(1), refresh_token_id: RefreshTokenId(2) });
    assert!(!s.rotate("a", RefreshTokenId(9), TokenId(3), RefreshTokenId(4)));
    assert!(s.rotate("a", RefreshTokenId(2), TokenId(3), RefreshTokenId(4)));
    assert!(!s.rotate("a", RefreshTokenId(2), TokenId(5), RefreshTokenId(6)));
    let e = s.fetch_by_id("a").unwrap();
    assert_eq!(e.token_id, TokenId(3));
    assert_eq!(e.refresh_token_id, RefreshTokenId(4));
    s.delete("a");
    s.delete("a");
    assert!(s.fetch_by_id("a").is_none());
}
