//! The record table as a mathematical value: the records in the order in
//! which their identifiers first came in, and what each operation makes of
//! them.

use vstd::prelude::*;
use crate::record::{AccessChangeView, RecordView};

verus! {

/// Some record of the table goes by `id`.
pub open spec fn has_id(table: Seq<RecordView>, id: Seq<char>) -> bool {
    exists|i: int| 0 <= i < table.len() && #[trigger] table[i].id == id
}

/// No two records of the table share an identifier.
pub open spec fn distinct_ids(table: Seq<RecordView>) -> bool {
    forall|i: int, j: int|
        0 <= i < table.len() && 0 <= j < table.len() && i != j ==> #[trigger] table[i].id
            != #[trigger] table[j].id
}

/// The table is valid: identifiers are unique, and each record is well
/// formed.
pub open spec fn well_formed(table: Seq<RecordView>) -> bool {
    &&& distinct_ids(table)
    &&& forall|i: int| 0 <= i < table.len() ==> #[trigger] table[i].well_formed()
}

/// The table after `record` was put in: in the place of the record with the
/// same identifier if there is one, at the end otherwise.
pub open spec fn inserted(table: Seq<RecordView>, record: RecordView) -> Seq<RecordView> {
    if has_id(table, record.id) {
        table.map_values(
            |r: RecordView|
                if r.id == record.id {
                    record
                } else {
                    r
                },
        )
    } else {
        table.push(record)
    }
}

/// `caller` may change the access list of the record `id`: the record
/// exists and `caller` owns it.
pub open spec fn may_mutate(table: Seq<RecordView>, id: Seq<char>, caller: Seq<u8>) -> bool {
    exists|i: int| 0 <= i < table.len() && #[trigger] table[i].id == id && table[i].owned_by(caller)
}

/// The table after `caller` asked for `change` on the record `id`: the
/// change is made on the record of that identifier that `caller` owns, and
/// on nothing else.
pub open spec fn mutated(
    table: Seq<RecordView>,
    id: Seq<char>,
    caller: Seq<u8>,
    change: AccessChangeView,
) -> Seq<RecordView> {
    table.map_values(
        |r: RecordView|
            if r.id == id && r.owned_by(caller) {
                r.apply(change)
            } else {
                r
            },
    )
}

/// The predicate "`who` owns the record".
pub open spec fn is_owned_by(who: Seq<u8>) -> spec_fn(RecordView) -> bool {
    |r: RecordView| r.owned_by(who)
}

/// The predicate "`who` may read the record as a provider".
pub open spec fn is_shared_with(who: Seq<u8>) -> spec_fn(RecordView) -> bool {
    |r: RecordView| r.shared_with(who)
}

/// The records that `who` owns, in table order.
pub open spec fn owned_records(table: Seq<RecordView>, who: Seq<u8>) -> Seq<RecordView> {
    table.filter(is_owned_by(who))
}

/// The records that `who` may read as a provider, in table order.
pub open spec fn shared_records(table: Seq<RecordView>, who: Seq<u8>) -> Seq<RecordView> {
    table.filter(is_shared_with(who))
}

/// Putting a well-formed record into a valid table leaves a valid table.
pub proof fn lemma_inserted_well_formed(table: Seq<RecordView>, record: RecordView)
    requires
        well_formed(table),
        record.well_formed(),
    ensures
        well_formed(inserted(table, record)),
{
    let after = inserted(table, record);
    if has_id(table, record.id) {
        assert forall|i: int| #![trigger after[i]] 0 <= i < after.len() implies after[i].id
            == table[i].id && after[i].well_formed() by {
            assert(table[i].well_formed());
        }
        assert forall|i: int, j: int|
            0 <= i < after.len() && 0 <= j < after.len() && i != j implies #[trigger] after[i].id
            != #[trigger] after[j].id by {
            assert(table[i].id != table[j].id);
        }
    } else {
        assert forall|i: int| 0 <= i < table.len() implies #[trigger] after[i].id != record.id by {
            assert(table[i].id != record.id);
        }
        assert forall|i: int| 0 <= i < after.len() implies #[trigger] after[i].well_formed() by {
            if i < table.len() {
                assert(table[i].well_formed());
            }
        }
    }
}

/// A change to an access list leaves a valid table.
pub proof fn lemma_mutated_well_formed(
    table: Seq<RecordView>,
    id: Seq<char>,
    caller: Seq<u8>,
    change: AccessChangeView,
)
    requires
        well_formed(table),
    ensures
        well_formed(mutated(table, id, caller, change)),
{
    let after = mutated(table, id, caller, change);
    assert forall|i: int| #![trigger after[i]] 0 <= i < after.len() implies after[i].id
        == table[i].id && after[i].well_formed() by {
        assert(table[i].well_formed());
        table[i].lemma_apply_well_formed(change);
    }
    assert forall|i: int, j: int|
        0 <= i < after.len() && 0 <= j < after.len() && i != j implies #[trigger] after[i].id
        != #[trigger] after[j].id by {
        assert(table[i].id != table[j].id);
    }
}

} // verus!
