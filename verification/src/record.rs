use vstd::prelude::*;

use crate::trial::{all_base58, base58_of, TrialKey};

verus! {

/// A discovered address, immutable once created: the public address text, a
/// stable reversible encoding of the private key, and which suffix it was
/// searched for. All three fields are plain byte strings.
pub struct AddressRecord {
    pub pub_key: Vec<u8>,
    pub private_key: Vec<u8>,
    pub suffix_type: Vec<u8>,
}

/// The mathematical content of an [`AddressRecord`].
pub struct RecordView {
    pub pub_key: Seq<u8>,
    pub private_key: Seq<u8>,
    pub suffix_type: Seq<u8>,
}

impl View for AddressRecord {
    type V = RecordView;

    open spec fn view(&self) -> RecordView {
        RecordView {
            pub_key: self.pub_key@,
            private_key: self.private_key@,
            suffix_type: self.suffix_type@,
        }
    }
}

/// The views of a buffer of records, in order.
pub open spec fn seq_views(s: Seq<AddressRecord>) -> Seq<RecordView> {
    s.map_values(|r: AddressRecord| r@)
}

impl AddressRecord {
    /// A structural copy; the records themselves are never mutated, so a copy
    /// carries exactly the same three fields.
    pub fn duplicate(&self) -> (r: AddressRecord)
        ensures
            r@ == self@,
    {
        let r = AddressRecord {
            pub_key: self.pub_key.clone(),
            private_key: self.private_key.clone(),
            suffix_type: self.suffix_type.clone(),
        };
        proof {
            assert(r.pub_key@ =~= self.pub_key@);
            assert(r.private_key@ =~= self.private_key@);
            assert(r.suffix_type@ =~= self.suffix_type@);
        }
        r
    }
}

/// Build the record for a winning trial: the derived address as the public
/// key, the base58 encoding of the keypair bytes as the private key, and the
/// suffix the search was run for.
pub fn make_record(winner: &TrialKey, suffix: &Vec<u8>) -> (r: AddressRecord)
    ensures
        r@.pub_key == winner.address@,
        r@.private_key == base58_of(winner.secret@),
        all_base58(r@.private_key),
        r@.suffix_type == suffix@,
{
    let private_key = crate::trial::bs58_encode(&winner.secret);
    let r = AddressRecord {
        pub_key: winner.address.clone(),
        private_key,
        suffix_type: suffix.clone(),
    };
    proof {
        assert(r.pub_key@ =~= winner.address@);
        assert(r.suffix_type@ =~= suffix@);
    }
    r
}

} // verus!
