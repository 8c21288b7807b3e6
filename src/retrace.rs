//! Reconciling the path of the span printed last with the path of the span
//! about to be printed.
use vstd::prelude::*;

verus! {

/// The length of the longest common prefix of `a` and `b`.
pub open spec fn common_prefix_len(a: Seq<u64>, b: Seq<u64>) -> nat
    decreases a.len(),
{
    if a.len() == 0 || b.len() == 0 || a[0] != b[0] {
        0
    } else {
        1 + common_prefix_len(a.drop_first(), b.drop_first())
    }
}

/// The part of the path `new` below its longest common prefix with `old`:
/// the spans that have to be printed, root first.
pub open spec fn path_suffix(old: Seq<u64>, new: Seq<u64>) -> Seq<u64> {
    new.skip(common_prefix_len(old, new) as int)
}

/// The common prefix of two paths is a prefix of both, and no longer one
/// is.
pub proof fn lemma_common_prefix(a: Seq<u64>, b: Seq<u64>)
    ensures
        common_prefix_len(a, b) <= a.len(),
        common_prefix_len(a, b) <= b.len(),
        a.take(common_prefix_len(a, b) as int) == b.take(common_prefix_len(a, b) as int),
        common_prefix_len(a, b) < a.len() && common_prefix_len(a, b) < b.len() ==> a[common_prefix_len(
            a,
            b,
        ) as int] != b[common_prefix_len(a, b) as int],
    decreases a.len(),
{
    if a.len() == 0 || b.len() == 0 || a[0] != b[0] {
        assert(a.take(0) =~= b.take(0));
    } else {
        let (a1, b1) = (a.drop_first(), b.drop_first());
        lemma_common_prefix(a1, b1);
        let k = common_prefix_len(a1, b1) as int;
        assert(a.take(k + 1) =~= seq![a[0]] + a1.take(k));
        assert(b.take(k + 1) =~= seq![b[0]] + b1.take(k));
    }
}

/// Paths that agree on their first `i` spans: their common prefix is those
/// spans and the common prefix of what follows.
pub proof fn lemma_common_prefix_skip(a: Seq<u64>, b: Seq<u64>, i: int)
    requires
        0 <= i <= a.len(),
        i <= b.len(),
        a.take(i) == b.take(i),
    ensures
        common_prefix_len(a, b) == i + common_prefix_len(a.skip(i), b.skip(i)),
    decreases i,
{
    if i > 0 {
        assert(a[0] == a.take(i)[0]);
        assert(b[0] == b.take(i)[0]);
        let (a1, b1) = (a.drop_first(), b.drop_first());
        assert(a1.take(i - 1) =~= a.take(i).drop_first());
        assert(b1.take(i - 1) =~= b.take(i).drop_first());
        lemma_common_prefix_skip(a1, b1, i - 1);
        assert(a1.skip(i - 1) =~= a.skip(i));
        assert(b1.skip(i - 1) =~= b.skip(i));
    } else {
        assert(a.skip(0) =~= a);
        assert(b.skip(0) =~= b);
    }
}

/// Computes the length of the longest common prefix of two paths.
pub fn common_prefix(a: &Vec<u64>, b: &Vec<u64>) -> (r: usize)
    ensures
        r == common_prefix_len(a@, b@),
{
    let mut i: usize = 0;
    while i < a.len() && i < b.len() && a[i] == b[i]
        invariant
            i <= a.len(),
            i <= b.len(),
            a@.take(i as int) == b@.take(i as int),
        decreases a.len() - i,
    {
        proof {
            assert(a@.take(i + 1) =~= a@.take(i as int).push(a@[i as int]));
            assert(b@.take(i + 1) =~= b@.take(i as int).push(b@[i as int]));
        }
        i = i + 1;
    }
    proof {
        lemma_common_prefix_skip(a@, b@, i as int);
        let (a1, b1) = (a@.skip(i as int), b@.skip(i as int));
        if a1.len() > 0 && b1.len() > 0 {
            assert(a1[0] == a@[i as int]);
            assert(b1[0] == b@[i as int]);
        }
    }
    i
}

/// Walks the path `right` and hands out the spans that lie below its
/// longest common prefix with the path `left`, root first.
pub struct DifferenceIter {
    right: Vec<u64>,
    pos: usize,
}

impl DifferenceIter {
    /// What the walk has still to hand out.
    pub closed spec fn remaining(&self) -> Seq<u64> {
        self.right@.skip(self.pos as int)
    }

    pub closed spec fn wf(&self) -> bool {
        self.pos <= self.right.len()
    }

    pub fn new(left: &Vec<u64>, right: Vec<u64>) -> (r: Self)
        ensures
            r.wf(),
            r.remaining() == path_suffix(left@, right@),
    {
        let pos = common_prefix(left, &right);
        proof {
            lemma_common_prefix(left@, right@);
        }
        DifferenceIter { right, pos }
    }

    pub fn next(&mut self) -> (r: Option<u64>)
        requires
            old(self).wf(),
        ensures
            final(self).wf(),
            old(self).remaining().len() == 0 ==> r is None && final(self).remaining()
                == old(self).remaining(),
            old(self).remaining().len() > 0 ==> r == Some(old(self).remaining()[0])
                && final(self).remaining() == old(self).remaining().drop_first(),
    {
        if self.pos < self.right.len() {
            let v = self.right[self.pos];
            self.pos = self.pos + 1;
            proof {
                assert(self.right@.skip(self.pos as int) =~= old(self).remaining().drop_first());
            }
            Some(v)
        } else {
            None
        }
    }
}

/// Collects the spans below the longest common prefix of `old` and `new`.
pub fn path_difference(old: &Vec<u64>, new: Vec<u64>) -> (r: Vec<u64>)
    ensures
        r@ == path_suffix(old@, new@),
{
    let mut it = DifferenceIter::new(old, new);
    let ghost all = it.remaining();
    let mut out: Vec<u64> = Vec::new();
    loop
        invariant
            it.wf(),
            out@ + it.remaining() == all,
        ensures
            out@ == all,
        decreases it.remaining().len(),
    {
        match it.next() {
            Some(v) => {
                out.push(v);
                proof {
                    assert(out@ + it.remaining() =~= all);
                }
            },
            None => {
                proof {
                    assert(out@ =~= all);
                }
                break;
            },
        }
    }
    out
}

} // verus!
