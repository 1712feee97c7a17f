//! Medical records and their access lists.

use vstd::prelude::*;
use crate::identity::{
    clone_identities, contains_identity, identity_views, other_than, without_identity, Identity,
};
use crate::seq_facts::{lemma_filter_members, lemma_filter_no_duplicates};

verus! {

/// A change to the access list of a record.
#[derive(Debug)]
pub enum AccessChange {
    /// Let the provider read the record.
    Grant(Identity),
    /// Let the provider read it no longer.
    Revoke(Identity),
}

/// A change to an access list, as a mathematical value.
pub enum AccessChangeView {
    Grant(Seq<u8>),
    Revoke(Seq<u8>),
}

impl View for AccessChange {
    type V = AccessChangeView;

    open spec fn view(&self) -> AccessChangeView {
        match self {
            AccessChange::Grant(provider) => AccessChangeView::Grant(provider@),
            AccessChange::Revoke(provider) => AccessChangeView::Revoke(provider@),
        }
    }
}

/// What a record holds, as mathematical values.
pub struct RecordView {
    pub id: Seq<char>,
    pub patient_id: Seq<u8>,
    pub record_type: Seq<char>,
    pub content: Seq<char>,
    pub timestamp: u64,
    pub authorized_providers: Seq<Seq<u8>>,
}

impl RecordView {
    /// No provider is listed twice.
    pub open spec fn well_formed(self) -> bool {
        self.authorized_providers.no_duplicates()
    }

    /// `who` is the patient the record belongs to.
    pub open spec fn owned_by(self, who: Seq<u8>) -> bool {
        self.patient_id == who
    }

    /// `who` is among the providers that may read the record.
    pub open spec fn shared_with(self, who: Seq<u8>) -> bool {
        self.authorized_providers.contains(who)
    }

    /// How many times the access list names `provider`.
    pub open spec fn times_listed(self, provider: Seq<u8>) -> nat {
        self.authorized_providers.to_multiset().count(provider)
    }

    /// The record after `provider` was given access: listed last if it was
    /// not listed before, unchanged if it was.
    pub open spec fn grant(self, provider: Seq<u8>) -> RecordView {
        if self.authorized_providers.contains(provider) {
            self
        } else {
            RecordView {
                authorized_providers: self.authorized_providers.push(provider),
                ..self
            }
        }
    }

    /// The record after access was taken from `provider`: every occurrence
    /// is gone, the other providers keep their order.
    pub open spec fn revoke(self, provider: Seq<u8>) -> RecordView {
        RecordView {
            authorized_providers: self.authorized_providers.filter(other_than(provider)),
            ..self
        }
    }

    /// The record after `change` was made to its access list.
    pub open spec fn apply(self, change: AccessChangeView) -> RecordView {
        match change {
            AccessChangeView::Grant(provider) => self.grant(provider),
            AccessChangeView::Revoke(provider) => self.revoke(provider),
        }
    }

    /// A change to the access list touches nothing else, and keeps a
    /// record well formed.
    pub proof fn lemma_apply_well_formed(self, change: AccessChangeView)
        requires
            self.well_formed(),
        ensures
            self.apply(change).well_formed(),
            self.apply(change).id == self.id,
            self.apply(change).patient_id == self.patient_id,
    {
        match change {
            AccessChangeView::Grant(provider) => self.lemma_grant_well_formed(provider),
            AccessChangeView::Revoke(provider) => self.lemma_revoke_well_formed(provider),
        }
    }

    /// Granting access keeps a record well formed.
    pub proof fn lemma_grant_well_formed(self, provider: Seq<u8>)
        requires
            self.well_formed(),
        ensures
            self.grant(provider).well_formed(),
            self.grant(provider).shared_with(provider),
    {
        if !self.authorized_providers.contains(provider) {
            let after = self.authorized_providers.push(provider);
            assert(after[after.len() - 1] == provider);
            assert forall|i: int, j: int| 0 <= i < after.len() && 0 <= j < after.len() && i != j
                implies after[i] != after[j] by {
                if i == after.len() - 1 {
                    assert(self.authorized_providers[j] == after[j]);
                } else if j == after.len() - 1 {
                    assert(self.authorized_providers[i] == after[i]);
                }
            }
        }
    }

    /// Revoking access keeps a record well formed, and the provider is no
    /// longer listed.
    pub proof fn lemma_revoke_well_formed(self, provider: Seq<u8>)
        requires
            self.well_formed(),
        ensures
            self.revoke(provider).well_formed(),
            !self.revoke(provider).shared_with(provider),
    {
        lemma_filter_no_duplicates(self.authorized_providers, other_than(provider));
        lemma_filter_members(self.authorized_providers, other_than(provider), provider);
    }
}

/// What a patient hands in to create a record.
#[derive(Debug)]
pub struct RecordInput {
    pub record_type: String,
    pub content: String,
}

impl Clone for RecordInput {
    fn clone(&self) -> (out: RecordInput)
        ensures
            out.record_type@ == self.record_type@,
            out.content@ == self.content@,
    {
        RecordInput { record_type: self.record_type.clone(), content: self.content.clone() }
    }
}

/// A medical record: its payload, the patient who owns it and the providers
/// who may read it.
#[derive(Debug)]
pub struct MedicalRecord {
    pub id: String,
    pub patient_id: Identity,
    pub record_type: String,
    pub content: String,
    pub timestamp: u64,
    pub authorized_providers: Vec<Identity>,
}

impl View for MedicalRecord {
    type V = RecordView;

    open spec fn view(&self) -> RecordView {
        RecordView {
            id: self.id@,
            patient_id: self.patient_id@,
            record_type: self.record_type@,
            content: self.content@,
            timestamp: self.timestamp,
            authorized_providers: identity_views(self.authorized_providers@),
        }
    }
}

impl Clone for MedicalRecord {
    fn clone(&self) -> (out: MedicalRecord)
        ensures
            out@ == self@,
    {
        MedicalRecord {
            id: self.id.clone(),
            patient_id: self.patient_id.clone(),
            record_type: self.record_type.clone(),
            content: self.content.clone(),
            timestamp: self.timestamp,
            authorized_providers: clone_identities(&self.authorized_providers),
        }
    }
}

impl MedicalRecord {
    /// A record that `owner` creates at time `now`, readable by nobody else.
    pub fn new(id: String, owner: Identity, input: RecordInput, now: u64) -> (record: MedicalRecord)
        ensures
            record@ == (RecordView {
                id: id@,
                patient_id: owner@,
                record_type: input.record_type@,
                content: input.content@,
                timestamp: now,
                authorized_providers: Seq::empty(),
            }),
            record@.well_formed(),
    {
        let record = MedicalRecord {
            id,
            patient_id: owner,
            record_type: input.record_type,
            content: input.content,
            timestamp: now,
            authorized_providers: Vec::new(),
        };
        assert(identity_views(record.authorized_providers@) =~= Seq::<Seq<u8>>::empty());
        record
    }

    /// Tells whether `who` owns the record.
    pub fn is_owned_by(&self, who: &Identity) -> (owned: bool)
        ensures
            owned == self@.owned_by(who@),
    {
        self.patient_id == *who
    }

    /// Tells whether `who` may read the record as a provider.
    pub fn is_shared_with(&self, who: &Identity) -> (shared: bool)
        ensures
            shared == self@.shared_with(who@),
    {
        contains_identity(&self.authorized_providers, who)
    }

    /// Gives `provider` access. A provider that has it already is not
    /// listed again.
    pub fn grant(&mut self, provider: Identity)
        ensures
            final(self)@ == old(self)@.grant(provider@),
            old(self)@.well_formed() ==> final(self)@.well_formed(),
    {
        proof {
            if old(self)@.well_formed() {
                old(self)@.lemma_grant_well_formed(provider@);
            }
        }
        if !contains_identity(&self.authorized_providers, &provider) {
            self.authorized_providers.push(provider);
            assert(identity_views(self.authorized_providers@) =~= identity_views(
                old(self).authorized_providers@,
            ).push(provider@));
        }
    }

    /// Makes `change` to the access list.
    pub fn apply(&mut self, change: AccessChange)
        ensures
            final(self)@ == old(self)@.apply(change@),
            old(self)@.well_formed() ==> final(self)@.well_formed(),
    {
        match change {
            AccessChange::Grant(provider) => self.grant(provider),
            AccessChange::Revoke(provider) => self.revoke(&provider),
        }
    }

    /// Takes access from `provider`, wherever it is listed.
    pub fn revoke(&mut self, provider: &Identity)
        ensures
            final(self)@ == old(self)@.revoke(provider@),
            old(self)@.well_formed() ==> final(self)@.well_formed(),
    {
        proof {
            if old(self)@.well_formed() {
                old(self)@.lemma_revoke_well_formed(provider@);
            }
        }
        self.authorized_providers = without_identity(&self.authorized_providers, provider);
    }
}

} // verus!
