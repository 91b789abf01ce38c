//! The list of input sequences that a merge pulls from.
//!
//! A merge owns its sources for its whole duration and advances them
//! destructively: pulling from source `i` removes and returns that source's
//! front item. The view of a [`Sources`] is the remaining contents of every
//! source, front first.

use vstd::prelude::*;

verus! {

/// The caller-supplied input sequences, referenced by position.
///
/// Internally each sequence is kept back-to-front so that a pull is a `pop`;
/// the view hides this and shows every sequence front first.
pub struct Sources<T> {
    streams: Vec<Vec<T>>,
}

impl<T> View for Sources<T> {
    type V = Seq<Seq<T>>;

    closed spec fn view(&self) -> Seq<Seq<T>> {
        Seq::new(self.streams@.len(), |i: int| self.streams@[i]@.reverse())
    }
}

/// The contents of a run of sequences, front first.
pub open spec fn views_of<T>(s: Seq<Vec<T>>) -> Seq<Seq<T>> {
    Seq::new(s.len(), |i: int| s[i]@)
}

/// The remaining contents of a list of sequences, front first.
pub open spec fn seqs_of<T>(v: Vec<Vec<T>>) -> Seq<Seq<T>> {
    views_of(v@)
}

/// The total number of items still held across all sources.
pub open spec fn total_len<T>(ss: Seq<Seq<T>>) -> nat
    decreases ss.len(),
{
    if ss.len() == 0 {
        0
    } else {
        ss[0].len() + total_len(ss.drop_first())
    }
}

/// Pulling from one source lowers the total by exactly one.
pub proof fn lemma_total_len_update<T>(ss: Seq<Seq<T>>, i: int)
    requires
        0 <= i < ss.len(),
        ss[i].len() > 0,
    ensures
        total_len(ss.update(i, ss[i].drop_first())) + 1 == total_len(ss),
    decreases ss.len(),
{
    let ss2 = ss.update(i, ss[i].drop_first());
    if i == 0 {
        assert(ss2.drop_first() =~= ss.drop_first());
    } else {
        assert(ss2.drop_first() =~= ss.drop_first().update(i - 1, ss.drop_first()[i - 1].drop_first()));
        lemma_total_len_update(ss.drop_first(), i - 1);
    }
}

impl<T> Sources<T> {
    /// Takes ownership of the given sequences, each given front first.
    pub fn new(seqs: Vec<Vec<T>>) -> (r: Sources<T>)
        ensures
            r@ == seqs_of(seqs),
    {
        let ghost gseqs = seqs;
        let mut rest = seqs;
        let mut streams: Vec<Vec<T>> = Vec::new();
        let ghost orig = rest@;
        let mut k: usize = 0;
        while k < rest.len()
            invariant
                k <= rest.len(),
                rest@.len() == orig.len(),
                forall|i: int| k <= i < orig.len() ==> rest@[i] == orig[i],
                streams@.len() == k,
                forall|i: int| 0 <= i < k ==> #[trigger] streams@[i]@.reverse() == orig[i]@,
            decreases rest.len() - k,
        {
            let mut cur: Vec<T> = Vec::new();
            core::mem::swap(&mut rest[k], &mut cur);
            let ghost front = cur@;
            let mut rev: Vec<T> = Vec::new();
            loop
                invariant
                    cur@ == front.take(cur@.len() as int),
                    cur@.len() <= front.len(),
                    rev@.len() == front.len() - cur@.len(),
                    forall|t: int| 0 <= t < rev@.len() ==> rev@[t] == front[front.len() - 1 - t],
                ensures
                    rev@.len() == front.len(),
                    forall|t: int| 0 <= t < rev@.len() ==> rev@[t] == front[front.len() - 1 - t],
                decreases cur@.len(),
            {
                assert(cur@ =~= front.take(cur@.len() as int));
                match cur.pop() {
                    Some(item) => {
                        rev.push(item);
                    },
                    None => {
                        break;
                    },
                }
            }
            assert(rev@.reverse() =~= front);
            streams.push(rev);
            k = k + 1;
        }
        let r = Sources { streams };
        proof {
            assert forall|i: int| 0 <= i < orig.len() implies r@[i] == orig[i]@ by {
                assert(streams@[i]@.reverse() == orig[i]@);
            }
            assert(r@ =~= seqs_of(gseqs));
        }
        r
    }

    /// How many sources there are.
    pub fn len(&self) -> (n: usize)
        ensures
            n == self@.len(),
    {
        self.streams.len()
    }

    /// Pulls the next item from source `i`: its front item if one remains,
    /// `None` once it is exhausted. No other source changes.
    pub fn pull(&mut self, i: usize) -> (r: Option<T>)
        requires
            i < old(self)@.len(),
        ensures
            match r {
                Some(t) => old(self)@[i as int].len() > 0 && t == old(self)@[i as int][0]
                    && final(self)@ =~= old(self)@.update(i as int, old(self)@[i as int].drop_first()),
                None => old(self)@[i as int].len() == 0 && final(self)@ =~= old(self)@,
            },
    {
        let s = &mut self.streams[i];
        let ghost pre = s@;
        let r = s.pop();
        proof {
            if pre.len() > 0 {
                assert(s@.reverse() =~= pre.reverse().drop_first());
            }
        }
        r
    }
}

} // verus!
