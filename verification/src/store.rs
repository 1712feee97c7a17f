//! The record store: the table of records and the operations on it.

use vstd::prelude::*;
use crate::identity::{principal_text, Identity};
use crate::record::{AccessChange, AccessChangeView, MedicalRecord, RecordInput, RecordView};
use crate::laws::{law_owned_records_exact, law_shared_records_exact};
use crate::seq_facts::{lemma_filter_empty, lemma_filter_push};
use crate::table::{
    has_id, inserted, is_owned_by, is_shared_with, lemma_inserted_well_formed,
    lemma_mutated_well_formed, may_mutate, mutated, owned_records, shared_records, well_formed,
};
use crate::text::{compose_record_id, record_id_text};

verus! {

/// What a list of records holds, record by record.
pub open spec fn record_views(records: Seq<MedicalRecord>) -> Seq<RecordView> {
    records.map_values(|r: MedicalRecord| r@)
}

/// The table of all records. It is the only place where records live.
pub struct RecordStore {
    records: Vec<MedicalRecord>,
}

impl View for RecordStore {
    type V = Seq<RecordView>;

    closed spec fn view(&self) -> Seq<RecordView> {
        record_views(self.records@)
    }
}

/// Where a caller stands with regard to a record.
enum Access {
    /// No record goes by the identifier.
    NotFound,
    /// The record belongs to somebody else.
    Forbidden,
    /// The caller owns the record, which is at this place in the table.
    Owner(usize),
}

impl RecordStore {
    /// The table is valid at all times.
    #[verifier::type_invariant]
    pub open spec fn valid(self) -> bool {
        well_formed(self@)
    }

    /// An empty store.
    pub fn new() -> (store: RecordStore)
        ensures
            store@ == Seq::<RecordView>::empty(),
    {
        let store = RecordStore { records: Vec::new() };
        assert(store@ =~= Seq::<RecordView>::empty());
        store
    }

    /// The number of records.
    pub fn len(&self) -> (n: usize)
        ensures
            n == self@.len(),
    {
        self.records.len()
    }

    /// Where the record that goes by `id` is, if there is one.
    fn position(&self, id: &String) -> (at: Option<usize>)
        ensures
            match at {
                Some(i) => i < self@.len() && self@[i as int].id == id@,
                None => !has_id(self@, id@),
            },
    {
        let mut i: usize = 0;
        while i < self.records.len()
            invariant
                i <= self.records.len(),
                forall|j: int| 0 <= j < i ==> self@[j].id != id@,
            decreases self.records.len() - i,
        {
            if self.records[i].id == *id {
                return Some(i);
            }
            i += 1;
        }
        None
    }

    /// Puts `record` into the table under its identifier. A record that
    /// went by that identifier before is replaced.
    fn insert(&mut self, record: MedicalRecord)
        requires
            record@.well_formed(),
        ensures
            final(self)@ == inserted(old(self)@, record@),
    {
        proof {
            use_type_invariant(&*self);
            lemma_inserted_well_formed(self@, record@);
        }
        let at = self.position(&record.id);
        // The list is taken out while it changes, so that the store is
        // valid at every step.
        let mut records: Vec<MedicalRecord> = Vec::new();
        core::mem::swap(&mut self.records, &mut records);
        match at {
            Some(i) => {
                records[i] = record;
            },
            None => {
                records.push(record);
            },
        }
        assert(record_views(records@) =~= inserted(old(self)@, record@));
        self.records = records;
    }

    /// Tells where `caller` stands with regard to the record `id`.
    fn authorize(&self, id: &String, caller: &Identity) -> (access: Access)
        ensures
            match access {
                Access::NotFound => !has_id(self@, id@),
                Access::Forbidden => has_id(self@, id@) && !may_mutate(self@, id@, caller@),
                Access::Owner(i) => i < self@.len() && self@[i as int].id == id@
                    && self@[i as int].owned_by(caller@),
            },
    {
        proof {
            use_type_invariant(self);
        }
        match self.position(id) {
            None => Access::NotFound,
            Some(i) => if self.records[i].is_owned_by(caller) {
                Access::Owner(i)
            } else {
                Access::Forbidden
            },
        }
    }

    /// Makes `change` to the access list of the record `id` if `caller`
    /// owns that record, and tells whether it did. Nothing else writes to a
    /// record once it is in the table.
    pub fn mutate_if_owner(&mut self, id: &String, caller: &Identity, change: AccessChange) -> (done:
        bool)
        ensures
            done == may_mutate(old(self)@, id@, caller@),
            final(self)@ == mutated(old(self)@, id@, caller@, change@),
            !done ==> final(self)@ == old(self)@,
    {
        proof {
            use_type_invariant(&*self);
            lemma_mutated_well_formed(self@, id@, caller@, change@);
        }
        match self.authorize(id, caller) {
            Access::Owner(i) => {
                let mut records: Vec<MedicalRecord> = Vec::new();
                core::mem::swap(&mut self.records, &mut records);
                records[i].apply(change);
                assert(record_views(records@) =~= mutated(old(self)@, id@, caller@, change@));
                self.records = records;
                true
            },
            _ => {
                assert(self@ =~= mutated(old(self)@, id@, caller@, change@));
                false
            },
        }
    }

    /// Copies out the records of which `keep` holds, in table order. The
    /// copies are a snapshot: what happens to the table later does not
    /// reach them.
    fn filter_by<F: Fn(&MedicalRecord) -> bool>(
        &self,
        keep: F,
        Ghost(pred): Ghost<spec_fn(RecordView) -> bool>,
    ) -> (out: Vec<MedicalRecord>)
        requires
            forall|r: &MedicalRecord| call_requires(keep, (r,)),
            forall|r: &MedicalRecord, b: bool| call_ensures(keep, (r,), b) ==> b == pred(r@),
        ensures
            record_views(out@) == self@.filter(pred),
    {
        let ghost table = self@;
        let mut out: Vec<MedicalRecord> = Vec::new();
        let mut i: usize = 0;
        proof {
            lemma_filter_empty(pred);
            assert(table.take(0) =~= Seq::<RecordView>::empty());
            assert(record_views(out@) =~= Seq::<RecordView>::empty());
        }
        while i < self.records.len()
            invariant
                i <= self.records.len(),
                table == self@,
                forall|r: &MedicalRecord| call_requires(keep, (r,)),
                forall|r: &MedicalRecord, b: bool| call_ensures(keep, (r,), b) ==> b == pred(r@),
                record_views(out@) == table.take(i as int).filter(pred),
            decreases self.records.len() - i,
        {
            let ghost before = out@;
            proof {
                lemma_filter_push(table.take(i as int), table[i as int], pred);
                assert(table.take(i + 1) =~= table.take(i as int).push(table[i as int]));
            }
            if keep(&self.records[i]) {
                out.push(self.records[i].clone());
                assert(record_views(out@) =~= record_views(before).push(table[i as int]));
            }
            i += 1;
        }
        assert(table.take(i as int) =~= table);
        out
    }

    /// Creates a record of `input` for `caller` at time `now`, and returns
    /// its identifier. The record is readable by nobody else. Should a
    /// record go by the same identifier already, the new one takes its
    /// place.
    pub fn add_record(&mut self, caller: &Identity, input: RecordInput, now: u64) -> (id: String)
        ensures
            id@ == record_id_text(principal_text(caller@), input.record_type@, now),
            final(self)@ == inserted(
                old(self)@,
                RecordView {
                    id: id@,
                    patient_id: caller@,
                    record_type: input.record_type@,
                    content: input.content@,
                    timestamp: now,
                    authorized_providers: Seq::empty(),
                },
            ),
    {
        let owner_text = caller.to_text();
        let id = compose_record_id(owner_text.as_str(), input.record_type.as_str(), now);
        let record = MedicalRecord::new(id.clone(), caller.clone(), input, now);
        self.insert(record);
        id
    }

    /// The records that `caller` owns, in table order.
    pub fn get_my_records(&self, caller: &Identity) -> (out: Vec<MedicalRecord>)
        ensures
            record_views(out@) == owned_records(self@, caller@),
            forall|r: RecordView| #[trigger]
                record_views(out@).contains(r) <==> self@.contains(r) && r.owned_by(caller@),
    {
        proof {
            law_owned_records_exact(self@, caller@);
        }
        let owned = |r: &MedicalRecord| -> (b: bool)
            ensures
                b == r@.owned_by(caller@),
            { r.is_owned_by(caller) };
        self.filter_by(owned, Ghost(is_owned_by(caller@)))
    }

    /// Lets `provider_id` read the record `record_id`, if `caller` owns
    /// that record, and tells whether `caller` does. A provider that could
    /// read the record already is not listed again. A record that does not
    /// exist and one that belongs to somebody else give the same answer.
    pub fn share_with_provider(
        &mut self,
        caller: &Identity,
        record_id: String,
        provider_id: Identity,
    ) -> (done: bool)
        ensures
            done == may_mutate(old(self)@, record_id@, caller@),
            final(self)@ == mutated(
                old(self)@,
                record_id@,
                caller@,
                AccessChangeView::Grant(provider_id@),
            ),
            !done ==> final(self)@ == old(self)@,
    {
        self.mutate_if_owner(&record_id, caller, AccessChange::Grant(provider_id))
    }

    /// The records that `caller` may read as a provider, in table order.
    pub fn get_shared_records(&self, caller: &Identity) -> (out: Vec<MedicalRecord>)
        ensures
            record_views(out@) == shared_records(self@, caller@),
            forall|r: RecordView| #[trigger]
                record_views(out@).contains(r) <==> self@.contains(r) && r.shared_with(caller@),
    {
        proof {
            law_shared_records_exact(self@, caller@);
        }
        let shared = |r: &MedicalRecord| -> (b: bool)
            ensures
                b == r@.shared_with(caller@),
            { r.is_shared_with(caller) };
        self.filter_by(shared, Ghost(is_shared_with(caller@)))
    }

    /// Takes from `provider_id` the right to read the record `record_id`,
    /// if `caller` owns that record, and tells whether `caller` does. A
    /// provider that could not read the record changes nothing.
    pub fn revoke_access(
        &mut self,
        caller: &Identity,
        record_id: String,
        provider_id: Identity,
    ) -> (done: bool)
        ensures
            done == may_mutate(old(self)@, record_id@, caller@),
            final(self)@ == mutated(
                old(self)@,
                record_id@,
                caller@,
                AccessChangeView::Revoke(provider_id@),
            ),
            !done ==> final(self)@ == old(self)@,
    {
        self.mutate_if_owner(&record_id, caller, AccessChange::Revoke(provider_id))
    }
}

} // verus!
