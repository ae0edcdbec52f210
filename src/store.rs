use vstd::prelude::*;

use crate::edr::{EdrEntry, EdrEntryView, RefreshTokenId, TokenId};
use crate::text::text_eq;
use crate::transfer::{text_option, Transfer, TransferStatus, TransferView};

verus! {

/// The record kept under `id`, if any.
pub open spec fn record_of(s: Seq<TransferView>, id: Seq<char>) -> Option<TransferView> {
    if exists|i: int| 0 <= i < s.len() && s[i].id == id {
        Some(s[choose|i: int| 0 <= i < s.len() && s[i].id == id])
    } else {
        None
    }
}

/// The records after saving `t`: it takes the place of the record with its id,
/// or comes last.
pub open spec fn transfer_saved(s: Seq<TransferView>, t: TransferView) -> Seq<TransferView> {
    if exists|i: int| 0 <= i < s.len() && s[i].id == t.id {
        s.update(choose|i: int| 0 <= i < s.len() && s[i].id == t.id, t)
    } else {
        s.push(t)
    }
}

/// The records after deleting the one with `id`, if any.
pub open spec fn transfer_deleted(s: Seq<TransferView>, id: Seq<char>) -> Seq<TransferView> {
    if exists|i: int| 0 <= i < s.len() && s[i].id == id {
        s.remove(choose|i: int| 0 <= i < s.len() && s[i].id == id)
    } else {
        s
    }
}

/// The records after the status of the one with `id`, if any, is set to
/// `status`, at time `now`.
pub open spec fn status_changed(
    s: Seq<TransferView>,
    id: Seq<char>,
    status: TransferStatus,
    now: i64,
) -> Seq<TransferView> {
    if exists|i: int| 0 <= i < s.len() && s[i].id == id {
        let i = choose|i: int| 0 <= i < s.len() && s[i].id == id;
        s.update(
            i,
            TransferView {
                status,
                updated_at: if now > s[i].updated_at { now } else { s[i].updated_at },
                ..s[i]
            },
        )
    } else {
        s
    }
}

/// A filter on the kept transfers: at most `limit` of them (all where it is
/// negative) after skipping `offset`, and only the one with `id` where given.
pub struct TransferQuery {
    pub limit: i32,
    pub offset: i32,
    pub id: Option<String>,
}

impl TransferQuery {
    /// The query of the first fifty transfers.
    pub fn new(id: Option<String>) -> (r: TransferQuery)
        ensures
            r.limit == 50,
            r.offset == 0,
            r.id == id,
    {
        TransferQuery { limit: 50, offset: 0, id }
    }
}

/// What a query returns, in the order in which the records were first saved.
pub open spec fn query_result(
    s: Seq<TransferView>,
    id: Option<Seq<char>>,
    limit: i32,
    offset: i32,
) -> Seq<TransferView> {
    let matching = match id {
        Some(x) => match record_of(s, x) {
            Some(t) => seq![t],
            None => Seq::empty(),
        },
        None => s,
    };
    let skip = if offset <= 0 { 0 } else if offset > matching.len() { matching.len() as int } else { offset as int };
    let rest = matching.skip(skip);
    if limit < 0 || limit >= rest.len() {
        rest
    } else {
        rest.take(limit as int)
    }
}

/// The transfers, kept in the order in which they were first saved, one per id.
pub struct TransferStore {
    records: Vec<Transfer>,
}

impl View for TransferStore {
    type V = Seq<TransferView>;

    closed spec fn view(&self) -> Seq<TransferView> {
        self.records@.map_values(|t: Transfer| t@)
    }
}

/// No two records share an id, and none was updated before it was created.
pub open spec fn transfers_valid(s: Seq<TransferView>) -> bool {
    &&& forall|i: int, j: int| 0 <= i < s.len() && 0 <= j < s.len() && i != j ==> s[i].id != s[j].id
    &&& forall|i: int| 0 <= i < s.len() ==> s[i].created_at <= s[i].updated_at
}

impl TransferStore {
    /// The records are valid.
    pub open spec fn wf(&self) -> bool {
        transfers_valid(self@)
    }

    pub fn new() -> (r: TransferStore)
        ensures
            r.wf(),
            r@ == Seq::<TransferView>::empty(),
    {
        let r = TransferStore { records: Vec::new() };
        assert(r@ =~= Seq::<TransferView>::empty());
        r
    }

    fn index_of(&self, id: &str) -> (r: Option<usize>)
        requires
            self.wf(),
        ensures
            match r {
                Some(i) => i < self@.len() && self@[i as int].id == id@ && (choose|k: int|
                    0 <= k < self@.len() && self@[k].id == id@) == i,
                None => forall|k: int| 0 <= k < self@.len() ==> self@[k].id != id@,
            },
    {
        let mut i: usize = 0;
        while i < self.records.len()
            invariant
                self.wf(),
                i <= self@.len(),
                self@.len() == self.records@.len(),
                forall|k: int| 0 <= k < i ==> self@[k].id != id@,
            decreases self@.len() - i,
        {
            assert(self@[i as int] == self.records@[i as int]@);
            if text_eq(self.records[i].id.as_str(), id) {
                assert(self@[i as int].id == id@);
                let ghost c = choose|k: int| 0 <= k < self@.len() && self@[k].id == id@;
                proof {
                    assert(self@[c].id == id@);
                    if c != i {
                        assert(self@[c].id != self@[i as int].id);
                    }
                }
                return Some(i);
            }
            i += 1;
        }
        None
    }

    /// Saves `t`: it replaces the record with its id, or is added last.
    pub fn save(&mut self, t: Transfer)
        requires
            old(self).wf(),
            t.created_at <= t.updated_at,
        ensures
            final(self).wf(),
            final(self)@ == transfer_saved(old(self)@, t@),
    {
        let ghost tv = t@;
        match self.index_of(t.id.as_str()) {
            Some(i) => {
                self.records.set(i, t);
                assert(self@ =~= old(self)@.update(i as int, tv));
            },
            None => {
                self.records.push(t);
                assert(self@ =~= old(self)@.push(tv));
            },
        }
    }

    /// The record kept under `id`.
    pub fn fetch_by_id(&self, id: &str) -> (r: Option<Transfer>)
        requires
            self.wf(),
        ensures
            match r {
                Some(t) => record_of(self@, id@) == Some(t@),
                None => record_of(self@, id@) is None,
            },
    {
        match self.index_of(id) {
            Some(i) => {
                assert(self@[i as int] == self.records@[i as int]@);
                Some(self.records[i].copy())
            },
            None => None,
        }
    }

    /// Deletes the record kept under `id`; nothing happens where there is none.
    pub fn delete(&mut self, id: &str)
        requires
            old(self).wf(),
        ensures
            final(self).wf(),
            final(self)@ == transfer_deleted(old(self)@, id@),
    {
        match self.index_of(id) {
            Some(i) => {
                self.records.remove(i);
                assert(self@ =~= old(self)@.remove(i as int));
            },
            None => {},
        }
    }

    /// Sets the status of the record kept under `id`, and its update time to
    /// `now` unless that lies before it; nothing happens where there is none.
    pub fn change_status(&mut self, id: &str, status: TransferStatus, now: i64)
        requires
            old(self).wf(),
        ensures
            final(self).wf(),
            final(self)@ == status_changed(old(self)@, id@, status, now),
    {
        match self.index_of(id) {
            Some(i) => {
                let mut t = self.records[i].copy();
                t.status = status;
                if now > t.updated_at {
                    t.updated_at = now;
                }
                let ghost tv = t@;
                self.records.set(i, t);
                assert(self@ =~= old(self)@.update(i as int, tv));
            },
            None => {},
        }
    }

    /// The records that a query selects, in the order in which they were first
    /// saved.
    pub fn query(&self, q: &TransferQuery) -> (r: Vec<Transfer>)
        requires
            self.wf(),
        ensures
            r@.map_values(|t: Transfer| t@) == query_result(self@, text_option(q.id), q.limit, q.offset),
    {
        let ghost idv = text_option(q.id);
        let mut matching: Vec<Transfer> = Vec::new();
        match &q.id {
            Some(x) => {
                match self.fetch_by_id(x.as_str()) {
                    Some(t) => {
                        matching.push(t);
                    },
                    None => {},
                }
            },
            None => {
                let mut i: usize = 0;
                while i < self.records.len()
                    invariant
                        i <= self.records@.len(),
                        self@.len() == self.records@.len(),
                        matching@.len() == i,
                        forall|k: int| 0 <= k < i ==> #[trigger] matching@[k]@ == self@[k],
                    decreases self.records@.len() - i,
                {
                    assert(self@[i as int] == self.records@[i as int]@);
                    matching.push(self.records[i].copy());
                    i += 1;
                }
            },
        }
        let ghost mv = matching@.map_values(|t: Transfer| t@);
        assert(mv =~= match idv {
            Some(x) => match record_of(self@, x) {
                Some(t) => seq![t],
                None => Seq::empty(),
            },
            None => self@,
        });
        let skip: usize = if q.offset <= 0 {
            0
        } else if q.offset as usize > matching.len() {
            matching.len()
        } else {
            q.offset as usize
        };
        let mut out: Vec<Transfer> = Vec::new();
        let mut j: usize = skip;
        let n = matching.len();
        while j < n && (q.limit < 0 || j - skip < q.limit as usize)
            invariant
                skip <= j <= n,
                n == matching@.len(),
                out@.len() == j - skip,
                forall|k: int| 0 <= k < out@.len() ==> #[trigger] out@[k]@ == mv[skip + k],
                mv == matching@.map_values(|t: Transfer| t@),
                q.limit >= 0 ==> j - skip <= q.limit,
            decreases n - j,
        {
            out.push(matching[j].copy());
            j += 1;
        }
        let ghost rest = mv.skip(skip as int);
        let ghost expected = if q.limit < 0 || q.limit >= rest.len() {
            rest
        } else {
            rest.take(q.limit as int)
        };
        assert(expected == query_result(self@, idv, q.limit, q.offset));
        assert(out@.map_values(|t: Transfer| t@) =~= expected);
        out
    }
}

/// The entry kept for `transfer_id`, if any.
pub open spec fn entry_of(s: Seq<EdrEntryView>, transfer_id: Seq<char>) -> Option<EdrEntryView> {
    if exists|i: int| 0 <= i < s.len() && s[i].transfer_id == transfer_id {
        Some(s[choose|i: int| 0 <= i < s.len() && s[i].transfer_id == transfer_id])
    } else {
        None
    }
}

/// The entries after saving `e`: it takes the place of the entry of its
/// transfer, or comes last.
pub open spec fn entry_saved(s: Seq<EdrEntryView>, e: EdrEntryView) -> Seq<EdrEntryView> {
    if exists|i: int| 0 <= i < s.len() && s[i].transfer_id == e.transfer_id {
        s.update(choose|i: int| 0 <= i < s.len() && s[i].transfer_id == e.transfer_id, e)
    } else {
        s.push(e)
    }
}

/// The entries after deleting the one of `transfer_id`, if any.
pub open spec fn entry_deleted(s: Seq<EdrEntryView>, transfer_id: Seq<char>) -> Seq<EdrEntryView> {
    if exists|i: int| 0 <= i < s.len() && s[i].transfer_id == transfer_id {
        s.remove(choose|i: int| 0 <= i < s.len() && s[i].transfer_id == transfer_id)
    } else {
        s
    }
}

/// The token ids of the transfers, one entry per transfer.
pub struct EdrStore {
    entries: Vec<EdrEntry>,
}

impl View for EdrStore {
    type V = Seq<EdrEntryView>;

    closed spec fn view(&self) -> Seq<EdrEntryView> {
        self.entries@.map_values(|e: EdrEntry| e@)
    }
}

/// No two entries belong to one transfer.
pub open spec fn entries_valid(s: Seq<EdrEntryView>) -> bool {
    forall|i: int, j: int|
        0 <= i < s.len() && 0 <= j < s.len() && i != j ==> s[i].transfer_id != s[j].transfer_id
}

impl EdrStore {
    /// The entries are valid.
    pub open spec fn wf(&self) -> bool {
        entries_valid(self@)
    }

    pub fn new() -> (r: EdrStore)
        ensures
            r.wf(),
            r@ == Seq::<EdrEntryView>::empty(),
    {
        let r = EdrStore { entries: Vec::new() };
        assert(r@ =~= Seq::<EdrEntryView>::empty());
        r
    }

    fn index_of(&self, transfer_id: &str) -> (r: Option<usize>)
        requires
            self.wf(),
        ensures
            match r {
                Some(i) => i < self@.len() && self@[i as int].transfer_id == transfer_id@ && (choose|
                    k: int,
                | 0 <= k < self@.len() && self@[k].transfer_id == transfer_id@) == i,
                None => forall|k: int| 0 <= k < self@.len() ==> self@[k].transfer_id != transfer_id@,
            },
    {
        let mut i: usize = 0;
        while i < self.entries.len()
            invariant
                self.wf(),
                i <= self@.len(),
                self@.len() == self.entries@.len(),
                forall|k: int| 0 <= k < i ==> self@[k].transfer_id != transfer_id@,
            decreases self@.len() - i,
        {
            assert(self@[i as int] == self.entries@[i as int]@);
            if text_eq(self.entries[i].transfer_id.as_str(), transfer_id) {
                assert(self@[i as int].transfer_id == transfer_id@);
                let ghost c = choose|k: int| 0 <= k < self@.len() && self@[k].transfer_id == transfer_id@;
                proof {
                    assert(self@[c].transfer_id == transfer_id@);
                    if c != i {
                        assert(self@[c].transfer_id != self@[i as int].transfer_id);
                    }
                }
                return Some(i);
            }
            i += 1;
        }
        None
    }

    /// Saves `e`: it replaces the entry of its transfer, or is added last.
    pub fn save(&mut self, e: EdrEntry)
        requires
            old(self).wf(),
        ensures
            final(self).wf(),
            final(self)@ == entry_saved(old(self)@, e@),
    {
        let ghost ev = e@;
        match self.index_of(e.transfer_id.as_str()) {
            Some(i) => {
                self.entries.set(i, e);
                assert(self@ =~= old(self)@.update(i as int, ev));
            },
            None => {
                self.entries.push(e);
                assert(self@ =~= old(self)@.push(ev));
            },
        }
    }

    /// The entry kept for `transfer_id`.
    pub fn fetch_by_id(&self, transfer_id: &str) -> (r: Option<EdrEntry>)
        requires
            self.wf(),
        ensures
            match r {
                Some(e) => entry_of(self@, transfer_id@) == Some(e@),
                None => entry_of(self@, transfer_id@) is None,
            },
    {
        match self.index_of(transfer_id) {
            Some(i) => {
                assert(self@[i as int] == self.entries@[i as int]@);
                Some(self.entries[i].copy())
            },
            None => None,
        }
    }

    /// Deletes the entry of `transfer_id`; nothing happens where there is none.
    pub fn delete(&mut self, transfer_id: &str)
        requires
            old(self).wf(),
        ensures
            final(self).wf(),
            final(self)@ == entry_deleted(old(self)@, transfer_id@),
    {
        match self.index_of(transfer_id) {
            Some(i) => {
                self.entries.remove(i);
                assert(self@ =~= old(self)@.remove(i as int));
            },
            None => {},
        }
    }

    /// Replaces both token ids of the entry of `transfer_id`, only while its
    /// refresh token id is still `expected`; tells whether it did.
    pub fn rotate(
        &mut self,
        transfer_id: &str,
        expected: RefreshTokenId,
        token_id: TokenId,
        refresh_token_id: RefreshTokenId,
    ) -> (r: bool)
        requires
            old(self).wf(),
        ensures
            final(self).wf(),
            r == (entry_of(old(self)@, transfer_id@) matches Some(e) && e.refresh_token_id
                == expected),
            r ==> final(self)@ == entry_saved(
                old(self)@,
                EdrEntryView { transfer_id: transfer_id@, token_id, refresh_token_id },
            ),
            !r ==> final(self)@ == old(self)@,
    {
        match self.index_of(transfer_id) {
            Some(i) => {
                if self.entries[i].refresh_token_id == expected {
                    let e = EdrEntry {
                        transfer_id: self.entries[i].transfer_id.clone(),
                        token_id,
                        refresh_token_id,
                    };
                    let ghost ev = e@;
                    assert(self@[i as int] == self.entries@[i as int]@);
                    self.entries.set(i, e);
                    assert(self@ =~= old(self)@.update(i as int, ev));
                    true
                } else {
                    assert(self@[i as int] == self.entries@[i as int]@);
                    false
                }
            },
            None => false,
        }
    }
}

} // verus!
