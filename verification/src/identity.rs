//! Principals: the opaque identities of patients and providers.

use vstd::prelude::*;
use crate::seq_facts::{lemma_filter_empty, lemma_filter_push};

verus! {

/// The longest byte string that names a principal.
pub const MAX_IDENTITY_BYTES: usize = 29;

/// The textual form of a principal, as a function of its bytes: a checksum
/// and the bytes in lower-case base 32, grouped by dashes.
pub uninterp spec fn principal_text(bytes: Seq<u8>) -> Seq<char>;

/// An authenticated principal, patient or provider alike.
///
/// It is kept as its significant bytes, of which there are at most
/// [`MAX_IDENTITY_BYTES`]. Two identities are the same exactly when their
/// bytes are.
#[derive(Debug)]
pub struct Identity {
    bytes: Vec<u8>,
}

impl View for Identity {
    type V = Seq<u8>;

    closed spec fn view(&self) -> Seq<u8> {
        self.bytes@
    }
}

/// `candid::Principal::from_slice` followed by `Principal::to_text`.
///
/// Trusted: the text that comes back depends on the bytes alone.
/// `from_slice` panics on more than 29 bytes, which the precondition excludes.
#[verifier::external_body]
fn text_of_principal(bytes: &[u8]) -> (text: String)
    requires
        bytes@.len() <= MAX_IDENTITY_BYTES,
    ensures
        text@ == principal_text(bytes@),
{
    candid::Principal::from_slice(bytes).to_text()
}

impl Identity {
    #[verifier::type_invariant]
    spec fn within_limit(self) -> bool {
        self.bytes@.len() <= MAX_IDENTITY_BYTES
    }

    /// Makes an identity of `bytes`, unless there are too many of them.
    pub fn new(bytes: Vec<u8>) -> (out: Option<Identity>)
        ensures
            bytes@.len() <= MAX_IDENTITY_BYTES ==> out.is_some() && out.unwrap()@ == bytes@,
            bytes@.len() > MAX_IDENTITY_BYTES ==> out.is_none(),
    {
        if bytes.len() <= MAX_IDENTITY_BYTES {
            Some(Identity { bytes })
        } else {
            None
        }
    }

    /// The significant bytes.
    pub fn as_slice(&self) -> (out: &[u8])
        ensures
            out@ == self@,
            out@.len() <= MAX_IDENTITY_BYTES,
    {
        proof {
            use_type_invariant(self);
        }
        self.bytes.as_slice()
    }

    /// The textual form of the principal.
    pub fn to_text(&self) -> (text: String)
        ensures
            text@ == principal_text(self@),
    {
        text_of_principal(self.as_slice())
    }
}

impl Clone for Identity {
    fn clone(&self) -> (out: Identity)
        ensures
            out@ == self@,
    {
        proof {
            use_type_invariant(self);
        }
        Identity { bytes: self.bytes.clone() }
    }
}

impl PartialEq for Identity {
    fn eq(&self, other: &Identity) -> (same: bool) {
        let same = self.bytes == other.bytes;
        proof {
            if same {
                assert(self.bytes@ =~= other.bytes@);
            }
        }
        same
    }
}

impl Eq for Identity {

}

impl vstd::std_specs::cmp::PartialEqSpecImpl for Identity {
    open spec fn obeys_eq_spec() -> bool {
        true
    }

    open spec fn eq_spec(&self, other: &Identity) -> bool {
        self@ == other@
    }
}

/// The byte strings of a list of identities, in order.
pub open spec fn identity_views(list: Seq<Identity>) -> Seq<Seq<u8>> {
    list.map_values(|p: Identity| p@)
}

/// The predicate that holds of every byte string but `who`.
pub open spec fn other_than(who: Seq<u8>) -> spec_fn(Seq<u8>) -> bool {
    |q: Seq<u8>| q != who
}

/// Tells whether `who` is in `list`.
pub fn contains_identity(list: &Vec<Identity>, who: &Identity) -> (found: bool)
    ensures
        found == identity_views(list@).contains(who@),
{
    let mut i: usize = 0;
    while i < list.len()
        invariant
            i <= list.len(),
            forall|j: int| 0 <= j < i ==> identity_views(list@)[j] != who@,
        decreases list.len() - i,
    {
        if list[i] == *who {
            assert(identity_views(list@)[i as int] == who@);
            return true;
        }
        i += 1;
    }
    false
}

/// Copies `list` without any occurrence of `who`, keeping the order of the
/// rest.
pub fn without_identity(list: &Vec<Identity>, who: &Identity) -> (kept: Vec<Identity>)
    ensures
        identity_views(kept@) == identity_views(list@).filter(other_than(who@)),
{
    let ghost all = identity_views(list@);
    let mut kept: Vec<Identity> = Vec::new();
    let mut i: usize = 0;
    proof {
        lemma_filter_empty(other_than(who@));
        assert(all.take(0) =~= Seq::<Seq<u8>>::empty());
        assert(identity_views(kept@) =~= Seq::<Seq<u8>>::empty());
    }
    while i < list.len()
        invariant
            i <= list.len(),
            all == identity_views(list@),
            identity_views(kept@) == all.take(i as int).filter(other_than(who@)),
        decreases list.len() - i,
    {
        let ghost before = kept@;
        proof {
            lemma_filter_push(all.take(i as int), all[i as int], other_than(who@));
            assert(all.take(i + 1) =~= all.take(i as int).push(all[i as int]));
        }
        if list[i] != *who {
            kept.push(list[i].clone());
            assert(identity_views(kept@) =~= identity_views(before).push(all[i as int]));
        }
        i += 1;
    }
    assert(all.take(i as int) =~= all);
    kept
}

/// Copies `list`.
pub fn clone_identities(list: &Vec<Identity>) -> (out: Vec<Identity>)
    ensures
        identity_views(out@) == identity_views(list@),
{
    let mut out: Vec<Identity> = Vec::new();
    let mut i: usize = 0;
    while i < list.len()
        invariant
            i <= list.len(),
            out@.len() == i,
            forall|j: int| 0 <= j < i ==> out@[j]@ == list@[j]@,
        decreases list.len() - i,
    {
        out.push(list[i].clone());
        i += 1;
    }
    assert(identity_views(out@) =~= identity_views(list@));
    out
}

} // verus!
