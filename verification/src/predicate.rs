use vstd::prelude::*;

verus! {

/// `suffix` is a suffix of `s`: the trailing bytes of `s` equal `suffix`
/// exactly (case-sensitive, no normalization).
pub open spec fn is_suffix_of(suffix: Seq<u8>, s: Seq<u8>) -> bool {
    &&& suffix.len() <= s.len()
    &&& s.subrange(s.len() - suffix.len(), s.len() as int) == suffix
}

/// The suffix predicate: true iff `addr` ends with `suffix`.
pub fn ends_with_suffix(addr: &Vec<u8>, suffix: &Vec<u8>) -> (r: bool)
    ensures
        r == is_suffix_of(suffix@, addr@),
{
    if suffix.len() > addr.len() {
        return false;
    }
    let offset: usize = addr.len() - suffix.len();
    let mut i: usize = 0;
    while i < suffix.len()
        invariant
            addr@.len() <= usize::MAX,
            suffix@.len() <= addr@.len(),
            offset == addr@.len() - suffix@.len(),
            i <= suffix@.len(),
            forall|j: int| 0 <= j < i ==> addr@[offset + j] == suffix@[j],
        decreases suffix@.len() - i,
    {
        if addr[offset + i] != suffix[i] {
            assert(addr@.subrange(addr@.len() - suffix@.len(), addr@.len() as int)[i as int]
                != suffix@[i as int]);
            return false;
        }
        i += 1;
    }
    assert(addr@.subrange(addr@.len() - suffix@.len(), addr@.len() as int) =~= suffix@);
    true
}

} // verus!
