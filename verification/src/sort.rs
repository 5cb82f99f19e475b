use vstd::prelude::*;
use vstd::seq_lib::group_to_multiset_ensures;
use vstd::multiset::group_multiset_axioms;

use crate::danmaku::Danmaku;

verus! {

/// The queue's ordering: ascending scheduled start time.
pub open spec fn sorted_by_start(s: Seq<Danmaku>) -> bool {
    forall|i: int, j: int| 0 <= i < j < s.len() ==> s[i].start <= s[j].start
}

/// Sorting a message list by scheduled start time.  Ties between equal start
/// times may end up in either order.
pub trait SortByTime {
    fn sort_by_time(&mut self);
}

impl SortByTime for Vec<Danmaku> {
    fn sort_by_time(&mut self)
        ensures
            sorted_by_start(final(self)@),
            final(self)@.to_multiset() == old(self)@.to_multiset(),
    {
        let ghost original: Seq<Danmaku> = self@;
        let mut sorted_out: Vec<Danmaku> = Vec::new();
        proof {
            broadcast use group_to_multiset_ensures;
            broadcast use group_multiset_axioms;

            assert(sorted_out@.to_multiset().add(self@.to_multiset()) =~= original.to_multiset());
        }
        while self.len() > 0
            invariant
                sorted_by_start(sorted_out@),
                sorted_out@.to_multiset().add(self@.to_multiset()) == original.to_multiset(),
            decreases self.len(),
        {
            let ghost before_pop: Seq<Danmaku> = self@;
            let ghost out_before: Seq<Danmaku> = sorted_out@;
            let d = self.pop().unwrap();
            proof {
                broadcast use group_to_multiset_ensures;
                broadcast use group_multiset_axioms;

                assert(before_pop =~= self@.push(d));
                assert(before_pop.to_multiset() == self@.to_multiset().insert(d));
            }
            let mut pos: usize = 0;
            while pos < sorted_out.len() && sorted_out[pos].start <= d.start
                invariant
                    pos <= sorted_out.len(),
                    sorted_out@ == out_before,
                    forall|i: int| 0 <= i < pos ==> sorted_out@[i].start <= d.start,
                decreases sorted_out.len() - pos,
            {
                pos = pos + 1;
            }
            sorted_out.insert(pos, d);
            proof {
                broadcast use group_to_multiset_ensures;
                broadcast use group_multiset_axioms;

                assert(sorted_out@ =~= out_before.take(pos as int).push(d)
                    + out_before.skip(pos as int));
                assert forall|i: int, j: int| 0 <= i < j < sorted_out@.len() implies
                    sorted_out@[i].start <= sorted_out@[j].start by {
                    if j > pos && i == pos {
                        assert(out_before[pos as int].start <= out_before[j - 1].start);
                    }
                }
                assert(sorted_out@.to_multiset() == out_before.to_multiset().insert(d));
                assert(sorted_out@.to_multiset().add(self@.to_multiset())
                    =~= out_before.to_multiset().add(before_pop.to_multiset()));
            }
        }
        proof {
            broadcast use group_to_multiset_ensures;
            broadcast use group_multiset_axioms;

            assert(self@.len() == 0);
            assert(sorted_out@.to_multiset().add(self@.to_multiset())
                =~= sorted_out@.to_multiset());
        }
        *self = sorted_out;
    }
}

} // verus!
