use vstd::prelude::*;

use crate::text::chars_of;

verus! {

/// One entry of a directory listing.
#[derive(Debug)]
pub struct DirEntry {
    pub name: String,
    /// Whether the entry is a regular file.
    pub is_file: bool,
}

/// The name of a raw profile fragment: `default*.profraw`.
pub open spec fn is_fragment(name: Seq<char>) -> bool {
    &&& name.len() >= 8
    &&& name.take(7) == seq!['d', 'e', 'f', 'a', 'u', 'l', 't']
    &&& name.skip(name.len() - 8) == seq!['.', 'p', 'r', 'o', 'f', 'r', 'a', 'w']
}

/// The names of the regular files of a listing that are raw profile fragments, in order.
pub open spec fn doomed(entries: Seq<DirEntry>) -> Seq<Seq<char>>
    decreases entries.len(),
{
    if entries.len() == 0 {
        seq![]
    } else {
        let e = entries.last();
        let rest = doomed(entries.drop_last());
        if e.is_file && is_fragment(e.name@) {
            rest.push(e.name@)
        } else {
            rest
        }
    }
}

/// Whether `name` is the name of a raw profile fragment.
pub fn is_fragment_name(name: &str) -> (r: bool)
    ensures
        r == is_fragment(name@),
{
    let cs = chars_of(name);
    let n = cs.len();
    if n < 8 {
        return false;
    }
    let head = cs[0] == 'd' && cs[1] == 'e' && cs[2] == 'f' && cs[3] == 'a' && cs[4] == 'u'
        && cs[5] == 'l' && cs[6] == 't';
    let tail = cs[n - 8] == '.' && cs[n - 7] == 'p' && cs[n - 6] == 'r' && cs[n - 5] == 'o'
        && cs[n - 4] == 'f' && cs[n - 3] == 'r' && cs[n - 2] == 'a' && cs[n - 1] == 'w';
    let ghost t = cs@.take(7);
    let ghost u = cs@.skip(n - 8);
    assert(t =~= seq![t[0], t[1], t[2], t[3], t[4], t[5], t[6]]);
    assert(u =~= seq![u[0], u[1], u[2], u[3], u[4], u[5], u[6], u[7]]);
    if !head {
        assert(t[0] != 'd' || t[1] != 'e' || t[2] != 'f' || t[3] != 'a' || t[4] != 'u' || t[5]
            != 'l' || t[6] != 't');
        assert(t != seq!['d', 'e', 'f', 'a', 'u', 'l', 't']) by {
            if t == seq!['d', 'e', 'f', 'a', 'u', 'l', 't'] {
                assert(seq!['d', 'e', 'f', 'a', 'u', 'l', 't'][0] == 'd');
            }
        }
    }
    if !tail {
        assert(u[0] != '.' || u[1] != 'p' || u[2] != 'r' || u[3] != 'o' || u[4] != 'f' || u[5]
            != 'r' || u[6] != 'a' || u[7] != 'w');
    }
    head && tail
}

/// The files that a purge deletes from a listing of the project directory: the regular
/// files named `default*.profraw`.
pub fn fragments_to_delete(entries: &Vec<DirEntry>) -> (r: Vec<String>)
    ensures
        r.len() == doomed(entries@).len(),
        forall|k: int| 0 <= k < r.len() ==> #[trigger] r[k]@ == doomed(entries@)[k],
{
    let mut out: Vec<String> = Vec::new();
    let mut i: usize = 0;
    while i < entries.len()
        invariant
            i <= entries.len(),
            out.len() == doomed(entries@.take(i as int)).len(),
            forall|k: int| 0 <= k < out.len() ==> #[trigger] out[k]@ == doomed(entries@.take(i as int))[k],
        decreases entries.len() - i,
    {
        assert(entries@.take(i + 1).drop_last() =~= entries@.take(i as int));
        let e = &entries[i];
        if e.is_file && is_fragment_name(e.name.as_str()) {
            out.push(e.name.clone());
        }
        i = i + 1;
    }
    assert(entries@.take(entries.len() as int) =~= entries@);
    out
}

/// A purge leaves no fragment behind: every regular file of the listing whose name is not
/// among those deleted is no raw profile fragment, and only fragments are deleted.
pub proof fn lemma_purge_leaves_no_fragment(entries: Seq<DirEntry>)
    ensures
        forall|k: int|
            0 <= k < entries.len() && (#[trigger] entries[k]).is_file && !doomed(entries).contains(
                entries[k].name@,
            ) ==> !is_fragment(entries[k].name@),
        forall|j: int| 0 <= j < doomed(entries).len() ==> is_fragment(#[trigger] doomed(entries)[j]),
    decreases entries.len(),
{
    if entries.len() > 0 {
        let rest = entries.drop_last();
        lemma_purge_leaves_no_fragment(rest);
        let d = doomed(entries);
        let dr = doomed(rest);
        assert forall|k: int|
            0 <= k < entries.len() && (#[trigger] entries[k]).is_file && !d.contains(
                entries[k].name@,
            ) implies !is_fragment(entries[k].name@) by {
            if k < rest.len() {
                assert(rest[k] == entries[k]);
                if dr.contains(entries[k].name@) {
                    let j = choose|j: int| 0 <= j < dr.len() && dr[j] == entries[k].name@;
                    assert(d[j] == dr[j]);
                }
            } else if is_fragment(entries[k].name@) {
                assert(d[d.len() - 1] == entries[k].name@);
            }
        }
    }
}

/// A file-system operation on the artifact directory.
#[derive(Clone, Copy, Debug, PartialEq, Eq, Structural)]
pub enum DirOp {
    /// Remove the directory with everything in it.
    RemoveAll,
    /// Create the directory; this fails where something already stands there.
    Create,
}

/// The artifact directory as a model: `None` where nothing stands at its path, else the
/// names it holds. Running `ops` gives the final state, or `None` where an operation fails.
pub open spec fn run_ops(
    ops: Seq<DirOp>,
    dir: Option<Set<Seq<char>>>,
) -> Option<Option<Set<Seq<char>>>>
    decreases ops.len(),
{
    if ops.len() == 0 {
        Some(dir)
    } else {
        match ops[0] {
            DirOp::RemoveAll => run_ops(ops.skip(1), None),
            DirOp::Create => if dir is None {
                run_ops(ops.skip(1), Some(Set::empty()))
            } else {
                None
            },
        }
    }
}

/// Removes the directory if it exists, then creates it.
pub open spec fn reset_ops(exists: bool) -> Seq<DirOp> {
    if exists {
        seq![DirOp::RemoveAll, DirOp::Create]
    } else {
        seq![DirOp::Create]
    }
}

/// How to bring the artifact directory to an empty state, given whether it exists.
pub fn reset_plan(exists: bool) -> (r: Vec<DirOp>)
    ensures
        r@ == reset_ops(exists),
{
    let mut ops: Vec<DirOp> = Vec::new();
    if exists {
        ops.push(DirOp::RemoveAll);
    }
    ops.push(DirOp::Create);
    assert(ops@ =~= reset_ops(exists));
    ops
}

/// A reset leaves an empty directory whatever stood there before, so a second reset right
/// after the first ends in the same state.
pub proof fn lemma_reset_is_idempotent(dir: Option<Set<Seq<char>>>)
    ensures
        run_ops(reset_ops(dir is Some), dir) == Some(Some(Set::<Seq<char>>::empty())),
        run_ops(reset_ops(true), Some(Set::<Seq<char>>::empty())) == Some(
            Some(Set::<Seq<char>>::empty()),
        ),
{
    let two = seq![DirOp::RemoveAll, DirOp::Create];
    let one = seq![DirOp::Create];
    assert(two.skip(1) =~= one);
    assert(one.skip(1) =~= Seq::<DirOp>::empty());
    let empty = Some(Set::<Seq<char>>::empty());
    assert(run_ops(Seq::<DirOp>::empty(), empty) == Some(empty));
    assert(one[0] == DirOp::Create);
    assert(run_ops(one, None) == Some(empty));
    assert(two[0] == DirOp::RemoveAll);
    assert(run_ops(two, dir) == run_ops(one, None));
}

} // verus!
