//! What holds of the store whatever the table and whoever calls.

use vstd::prelude::*;
use crate::identity::other_than;
use crate::record::{AccessChangeView, RecordView};
use crate::seq_facts::{lemma_filter_keeps_all, lemma_filter_members, lemma_filter_no_duplicates};
use crate::table::{
    distinct_ids, is_owned_by, is_shared_with, may_mutate, mutated, owned_records, shared_records,
    well_formed,
};

verus! {

/// No change to an access list moves, adds or removes a record, and none
/// touches the owner, the identifier, the type, the content or the time of
/// creation of any record.
pub proof fn law_owner_is_fixed(
    table: Seq<RecordView>,
    id: Seq<char>,
    caller: Seq<u8>,
    change: AccessChangeView,
)
    ensures
        mutated(table, id, caller, change).len() == table.len(),
        forall|i: int|
            #![trigger mutated(table, id, caller, change)[i]]
            0 <= i < table.len() ==> {
                let after = mutated(table, id, caller, change)[i];
                &&& after.patient_id == table[i].patient_id
                &&& after.id == table[i].id
                &&& after.record_type == table[i].record_type
                &&& after.content == table[i].content
                &&& after.timestamp == table[i].timestamp
            },
{
}

/// A change reaches only the record that goes by the identifier and that
/// the caller owns: every other record stays as it is.
pub proof fn law_change_is_confined(
    table: Seq<RecordView>,
    id: Seq<char>,
    caller: Seq<u8>,
    change: AccessChangeView,
)
    ensures
        forall|i: int|
            #![trigger mutated(table, id, caller, change)[i]]
            0 <= i < table.len() && !(table[i].id == id && table[i].owned_by(caller))
                ==> mutated(table, id, caller, change)[i] == table[i],
{
}

/// Granting is idempotent: the second of two equal grants changes nothing,
/// and after them the owner's record lists the provider exactly once.
pub proof fn law_grant_is_idempotent(
    table: Seq<RecordView>,
    id: Seq<char>,
    caller: Seq<u8>,
    provider: Seq<u8>,
)
    requires
        well_formed(table),
    ensures
        ({
            let once = mutated(table, id, caller, AccessChangeView::Grant(provider));
            let twice = mutated(once, id, caller, AccessChangeView::Grant(provider));
            &&& twice == once
            &&& forall|i: int|
                #![trigger twice[i]]
                0 <= i < table.len() && table[i].id == id && table[i].owned_by(caller)
                    ==> twice[i].times_listed(provider) == 1
        }),
{
    let once = mutated(table, id, caller, AccessChangeView::Grant(provider));
    let twice = mutated(once, id, caller, AccessChangeView::Grant(provider));
    assert forall|i: int| 0 <= i < table.len() implies #[trigger] twice[i] == once[i] by {
        if table[i].id == id && table[i].owned_by(caller) {
            table[i].lemma_grant_well_formed(provider);
        }
    }
    assert(twice =~= once);
    assert forall|i: int|
        #![trigger twice[i]]
        0 <= i < table.len() && table[i].id == id && table[i].owned_by(caller)
        implies twice[i].times_listed(provider) == 1 by {
        assert(table[i].well_formed());
        table[i].lemma_grant_well_formed(provider);
        let list = once[i].authorized_providers;
        list.to_multiset_ensures();
        list.lemma_multiset_has_no_duplicates();
    }
}

/// Revoking is idempotent: taking access from a provider that the record
/// does not list changes nothing, and so the second of two equal
/// revocations changes nothing. Who could revoke before can revoke after,
/// so the second call answers as the first did.
pub proof fn law_revoke_is_idempotent(
    table: Seq<RecordView>,
    id: Seq<char>,
    caller: Seq<u8>,
    provider: Seq<u8>,
)
    ensures
        (forall|i: int|
            0 <= i < table.len() && #[trigger] table[i].id == id ==> !table[i].shared_with(
                provider,
            )) ==> mutated(table, id, caller, AccessChangeView::Revoke(provider)) == table,
        ({
            let once = mutated(table, id, caller, AccessChangeView::Revoke(provider));
            &&& mutated(once, id, caller, AccessChangeView::Revoke(provider)) == once
            &&& may_mutate(once, id, caller) == may_mutate(table, id, caller)
        }),
{
    let once = mutated(table, id, caller, AccessChangeView::Revoke(provider));
    let twice = mutated(once, id, caller, AccessChangeView::Revoke(provider));
    if forall|i: int|
        0 <= i < table.len() && #[trigger] table[i].id == id ==> !table[i].shared_with(provider) {
        assert forall|i: int| 0 <= i < table.len() implies #[trigger] once[i] == table[i] by {
            if table[i].id == id && table[i].owned_by(caller) {
                lemma_absent_provider(table[i], provider);
            }
        }
        assert(once =~= table);
    }
    assert forall|i: int| 0 <= i < table.len() implies #[trigger] twice[i] == once[i] by {
        if table[i].id == id && table[i].owned_by(caller) {
            lemma_filter_members(table[i].authorized_providers, other_than(provider), provider);
            lemma_absent_provider(once[i], provider);
        }
    }
    assert(twice =~= once);
    law_rights_are_fixed(table, id, caller, AccessChangeView::Revoke(provider), id, caller);
}

/// A change to an access list changes nobody's right to change one.
pub proof fn law_rights_are_fixed(
    table: Seq<RecordView>,
    id: Seq<char>,
    caller: Seq<u8>,
    change: AccessChangeView,
    other_id: Seq<char>,
    other_caller: Seq<u8>,
)
    ensures
        may_mutate(mutated(table, id, caller, change), other_id, other_caller) == may_mutate(
            table,
            other_id,
            other_caller,
        ),
{
    let after = mutated(table, id, caller, change);
    if may_mutate(table, other_id, other_caller) {
        let i = choose|i: int|
            0 <= i < table.len() && #[trigger] table[i].id == other_id && table[i].owned_by(
                other_caller,
            );
        assert(after[i].id == other_id && after[i].owned_by(other_caller));
    }
    if may_mutate(after, other_id, other_caller) {
        let i = choose|i: int|
            0 <= i < after.len() && #[trigger] after[i].id == other_id && after[i].owned_by(
                other_caller,
            );
        assert(table[i].id == other_id && table[i].owned_by(other_caller));
    }
}

/// Taking access from a provider that is not listed leaves a record as it
/// is.
proof fn lemma_absent_provider(record: RecordView, provider: Seq<u8>)
    requires
        !record.shared_with(provider),
    ensures
        record.revoke(provider) == record,
{
    assert forall|i: int| 0 <= i < record.authorized_providers.len() implies other_than(provider)(
        #[trigger] record.authorized_providers[i],
    ) by {
        assert(record.authorized_providers.contains(record.authorized_providers[i]));
    }
    lemma_filter_keeps_all(record.authorized_providers, other_than(provider));
}

/// Who does not own the record changes nothing, whatever is asked for; nor
/// does anybody change a record that does not exist.
pub proof fn law_non_owner_changes_nothing(
    table: Seq<RecordView>,
    id: Seq<char>,
    caller: Seq<u8>,
    change: AccessChangeView,
)
    requires
        !may_mutate(table, id, caller),
    ensures
        mutated(table, id, caller, change) == table,
{
    let after = mutated(table, id, caller, change);
    assert forall|i: int| 0 <= i < table.len() implies #[trigger] after[i] == table[i] by {
        if table[i].id == id && table[i].owned_by(caller) {
            assert(may_mutate(table, id, caller));
        }
    }
    assert(after =~= table);
}

/// The records listed for an owner are exactly the records of the table
/// that the owner owns, each listed once.
pub proof fn law_owned_records_exact(table: Seq<RecordView>, who: Seq<u8>)
    ensures
        forall|r: RecordView| #[trigger]
            owned_records(table, who).contains(r) <==> table.contains(r) && r.owned_by(who),
        distinct_ids(table) ==> distinct_ids(owned_records(table, who)),
{
    assert forall|r: RecordView| #[trigger]
        owned_records(table, who).contains(r) <==> table.contains(r) && r.owned_by(who) by {
        lemma_filter_members(table, is_owned_by(who), r);
    }
    if distinct_ids(table) {
        lemma_filter_distinct_ids(table, is_owned_by(who));
    }
}

/// The records listed for a provider are exactly the records of the table
/// that the provider may read, each listed once.
pub proof fn law_shared_records_exact(table: Seq<RecordView>, who: Seq<u8>)
    ensures
        forall|r: RecordView| #[trigger]
            shared_records(table, who).contains(r) <==> table.contains(r) && r.shared_with(who),
        distinct_ids(table) ==> distinct_ids(shared_records(table, who)),
{
    assert forall|r: RecordView| #[trigger]
        shared_records(table, who).contains(r) <==> table.contains(r) && r.shared_with(who) by {
        lemma_filter_members(table, is_shared_with(who), r);
    }
    if distinct_ids(table) {
        lemma_filter_distinct_ids(table, is_shared_with(who));
    }
}

/// A selection from a table with unique identifiers has unique identifiers.
proof fn lemma_filter_distinct_ids(table: Seq<RecordView>, pred: spec_fn(RecordView) -> bool)
    requires
        distinct_ids(table),
    ensures
        distinct_ids(table.filter(pred)),
{
    let kept = table.filter(pred);
    assert(table.no_duplicates()) by {
        assert forall|i: int, j: int| 0 <= i < table.len() && 0 <= j < table.len() && i != j
            implies table[i] != table[j] by {
            assert(table[i].id != table[j].id);
        }
    }
    lemma_filter_no_duplicates(table, pred);
    assert forall|i: int, j: int| 0 <= i < kept.len() && 0 <= j < kept.len() && i != j implies
        #[trigger] kept[i].id != #[trigger] kept[j].id by {
        assert(kept.contains(kept[i]));
        assert(kept.contains(kept[j]));
        lemma_filter_members(table, pred, kept[i]);
        lemma_filter_members(table, pred, kept[j]);
        let a = choose|a: int| 0 <= a < table.len() && table[a] == kept[i];
        let b = choose|b: int| 0 <= b < table.len() && table[b] == kept[j];
        assert(kept[i] != kept[j]);
        assert(a != b);
        assert(table[a].id != table[b].id);
    }
}

} // verus!
