use vstd::prelude::*;

use crate::record::{AddressRecord, RecordView};

verus! {

/// ASCII comma, the field separator of a backup line.
pub const SEPARATOR: u8 = 44;

/// ASCII line feed, the terminator of a backup line.
pub const TERMINATOR: u8 = 10;

/// The one line that a record appends to the local backup log:
/// `pub_key,private_key,suffix_type\n`.
pub open spec fn backup_line_spec(r: RecordView) -> Seq<u8> {
    r.pub_key + seq![SEPARATOR] + r.private_key + seq![SEPARATOR] + r.suffix_type
        + seq![TERMINATOR]
}

/// No byte of `s` is the field separator.
pub open spec fn comma_free(s: Seq<u8>) -> bool {
    forall|i: int| 0 <= i < s.len() ==> s[i] != SEPARATOR
}

/// `line` is the backup line of some record whose first two fields are
/// separator-free (as every base58 field is).
pub open spec fn line_shaped(line: Seq<u8>) -> bool {
    exists|rv: RecordView|
        #[trigger] backup_line_spec(rv) == line && comma_free(rv.pub_key) && comma_free(
            rv.private_key,
        )
}

/// Where each part of a record stands inside its backup line.
pub proof fn lemma_backup_line_parts(r: RecordView)
    ensures
        backup_line_spec(r).len() == r.pub_key.len() + 1 + r.private_key.len() + 1
            + r.suffix_type.len() + 1,
        backup_line_spec(r).subrange(0, r.pub_key.len() as int) == r.pub_key,
        backup_line_spec(r)[r.pub_key.len() as int] == SEPARATOR,
        backup_line_spec(r).subrange(
            (r.pub_key.len() as int) + 1,
            (r.pub_key.len() as int) + 1 + (r.private_key.len() as int),
        ) == r.private_key,
        backup_line_spec(r)[(r.pub_key.len() as int) + 1 + (r.private_key.len() as int)]
            == SEPARATOR,
        backup_line_spec(r).subrange(
            (r.pub_key.len() as int) + 1 + (r.private_key.len() as int) + 1,
            (backup_line_spec(r).len() as int) - 1,
        ) == r.suffix_type,
        backup_line_spec(r)[(backup_line_spec(r).len() as int) - 1] == TERMINATOR,
{
    let l = backup_line_spec(r);
    let p = r.pub_key.len() as int;
    let k = r.private_key.len() as int;
    assert(l.subrange(0, p) =~= r.pub_key);
    assert(l.subrange(p + 1, p + 1 + k) =~= r.private_key);
    assert(l.subrange(p + 1 + k + 1, l.len() - 1) =~= r.suffix_type);
}

/// Law: the backup line format is lossless. Two records whose address and
/// private-key fields are separator-free (base58 text always is) and that
/// write the same backup line carry the identical
/// `(pub_key, private_key, suffix_type)` tuple.
pub proof fn lemma_backup_round_trip(a: RecordView, b: RecordView)
    requires
        comma_free(a.pub_key),
        comma_free(a.private_key),
        comma_free(b.pub_key),
        comma_free(b.private_key),
        backup_line_spec(a) == backup_line_spec(b),
    ensures
        a.pub_key == b.pub_key,
        a.private_key == b.private_key,
        a.suffix_type == b.suffix_type,
{
    let l = backup_line_spec(a);
    let pa = a.pub_key.len() as int;
    let pb = b.pub_key.len() as int;
    let ka = a.private_key.len() as int;
    let kb = b.private_key.len() as int;
    lemma_backup_line_parts(a);
    lemma_backup_line_parts(b);
    assert(pa == pb) by {
        if pa < pb {
            assert(l[pa] == SEPARATOR);
            assert(backup_line_spec(b).subrange(0, pb)[pa] == b.pub_key[pa]);
            assert(false);
        }
        if pb < pa {
            assert(l[pb] == SEPARATOR);
            assert(backup_line_spec(a).subrange(0, pa)[pb] == a.pub_key[pb]);
            assert(false);
        }
    }
    assert(ka == kb) by {
        if ka < kb {
            let i = pa + 1 + ka;
            assert(l[i] == SEPARATOR);
            let j = i - (pb + 1);
            assert(backup_line_spec(b).subrange(pb + 1, pb + 1 + kb)[j] == b.private_key[j]);
            assert(false);
        }
        if kb < ka {
            let i = pb + 1 + kb;
            assert(l[i] == SEPARATOR);
            let j = i - (pa + 1);
            assert(backup_line_spec(a).subrange(pa + 1, pa + 1 + ka)[j] == a.private_key[j]);
            assert(false);
        }
    }
}

/// Append every byte of `src` to `dst`.
fn push_all(dst: &mut Vec<u8>, src: &Vec<u8>)
    ensures
        final(dst)@ == old(dst)@ + src@,
{
    let mut i: usize = 0;
    while i < src.len()
        invariant
            i <= src@.len(),
            dst@ == old(dst)@ + src@.subrange(0, i as int),
        decreases src@.len() - i,
    {
        dst.push(src[i]);
        proof {
            assert(old(dst)@ + src@.subrange(0, i as int) + seq![src@[i as int]] =~= old(dst)@
                + src@.subrange(0, i + 1));
        }
        i += 1;
    }
    proof {
        assert(src@.subrange(0, src@.len() as int) =~= src@);
    }
}

/// Copy `line[from..to]` into a fresh vector.
fn copy_range(line: &Vec<u8>, from: usize, to: usize) -> (r: Vec<u8>)
    requires
        from <= to <= line@.len(),
    ensures
        r@ == line@.subrange(from as int, to as int),
{
    let mut r: Vec<u8> = Vec::new();
    let mut i: usize = from;
    while i < to
        invariant
            from <= i <= to <= line@.len(),
            r@ == line@.subrange(from as int, i as int),
        decreases to - i,
    {
        r.push(line[i]);
        proof {
            assert(line@.subrange(from as int, i as int) + seq![line@[i as int]]
                =~= line@.subrange(from as int, i + 1));
        }
        i += 1;
    }
    r
}

/// Find the first occurrence of `target` in `line` at or after `from`.
fn find_byte(line: &Vec<u8>, from: usize, target: u8) -> (r: Option<usize>)
    requires
        from <= line@.len(),
    ensures
        r matches Some(i) ==> from <= i < line@.len() && line@[i as int] == target
            && forall|j: int| from <= j < i ==> line@[j] != target,
        r is None ==> forall|j: int| from <= j < line@.len() ==> line@[j] != target,
{
    let mut i: usize = from;
    while i < line.len()
        invariant
            from <= i <= line@.len(),
            forall|j: int| from <= j < i ==> line@[j] != target,
        decreases line@.len() - i,
    {
        if line[i] == target {
            return Some(i);
        }
        i += 1;
    }
    None
}

/// Write the backup line for one record.
pub fn format_backup_line(r: &AddressRecord) -> (line: Vec<u8>)
    ensures
        line@ == backup_line_spec(r@),
{
    let mut line: Vec<u8> = Vec::new();
    push_all(&mut line, &r.pub_key);
    line.push(SEPARATOR);
    push_all(&mut line, &r.private_key);
    line.push(SEPARATOR);
    push_all(&mut line, &r.suffix_type);
    line.push(TERMINATOR);
    proof {
        assert(line@ =~= backup_line_spec(r@));
    }
    line
}

/// Read one backup line back into a record. Succeeds exactly on the lines
/// that some record with separator-free address and private-key fields
/// writes, and then returns a record that writes that very line.
pub fn parse_backup_line(line: &Vec<u8>) -> (r: Option<AddressRecord>)
    ensures
        r matches Some(rec) ==> backup_line_spec(rec@) == line@ && comma_free(rec@.pub_key)
            && comma_free(rec@.private_key),
        r is Some <==> line_shaped(line@),
{
    let n: usize = line.len();
    let ghost gl = line@;
    if n == 0 || line[n - 1] != TERMINATOR {
        proof {
            if line_shaped(gl) {
                let rv = choose|rv: RecordView|
                    #[trigger] backup_line_spec(rv) == gl && comma_free(rv.pub_key)
                        && comma_free(rv.private_key);
                lemma_backup_line_parts(rv);
                assert(false);
            }
        }
        return None;
    }
    let c1 = match find_byte(line, 0, SEPARATOR) {
        Some(i) => i,
        None => {
            proof {
                if line_shaped(gl) {
                    let rv = choose|rv: RecordView|
                        #[trigger] backup_line_spec(rv) == gl && comma_free(rv.pub_key)
                            && comma_free(rv.private_key);
                    lemma_backup_line_parts(rv);
                    assert(gl[rv.pub_key.len() as int] == SEPARATOR);
                    assert(false);
                }
            }
            return None;
        },
    };
    let c2 = match find_byte(line, c1 + 1, SEPARATOR) {
        Some(i) => i,
        None => {
            proof {
                if line_shaped(gl) {
                    let rv = choose|rv: RecordView|
                        #[trigger] backup_line_spec(rv) == gl && comma_free(rv.pub_key)
                            && comma_free(rv.private_key);
                    lemma_backup_line_parts(rv);
                    // The first separator the scan found is the one after the
                    // first field, so the second field's separator lies ahead.
                    assert(gl[rv.pub_key.len() as int] == SEPARATOR);
                    assert(c1 == rv.pub_key.len()) by {
                        if c1 < rv.pub_key.len() {
                            assert(gl.subrange(0, rv.pub_key.len() as int)[c1 as int]
                                == rv.pub_key[c1 as int]);
                            assert(false);
                        }
                    }
                    assert(gl[(rv.pub_key.len() as int) + 1 + (rv.private_key.len() as int)]
                        == SEPARATOR);
                    assert(false);
                }
            }
            return None;
        },
    };
    // The line ends in the terminator and `c2` holds a separator, so the
    // suffix field spans `c2 + 1 .. n - 1`.
    assert(c2 < n - 1);
    let pub_key = copy_range(line, 0, c1);
    let private_key = copy_range(line, c1 + 1, c2);
    let suffix_type = copy_range(line, c2 + 1, n - 1);
    let rec = AddressRecord { pub_key, private_key, suffix_type };
    proof {
        assert(backup_line_spec(rec@) =~= gl);
        assert(line_shaped(gl)) by {
            assert(backup_line_spec(rec@) == gl && comma_free(rec@.pub_key) && comma_free(
                rec@.private_key,
            ));
        }
    }
    Some(rec)
}

} // verus!
