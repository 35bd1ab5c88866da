//! The bookkeeping of a worker, which handles the rows of one thread strictly in order.

use vstd::prelude::*;

verus! {

/// What a worker keeps track of. Rows are known by their id.
#[derive(Debug)]
pub struct WorkerState {
    /// The row in hand.
    pub current_row: Option<i64>,
    /// Rows that were handled without being completed.
    pub retained_rows: Vec<i64>,
    /// Rows that are not completed yet, in the order in which they came.
    pub pending: Vec<i64>,
}

/// Tells the other rows from one.
pub open spec fn other_than(row_id: i64) -> spec_fn(i64) -> bool {
    |other: i64| other != row_id
}

/// The rows without one, in their order.
pub open spec fn without_row(rows: Seq<i64>, row_id: i64) -> Seq<i64> {
    rows.filter(other_than(row_id))
}

/// Leaving out a row leaves out that row and no other.
pub proof fn only_that_row_is_left_out(rows: Seq<i64>, row_id: i64)
    ensures
        forall|other: i64| #[trigger]
            without_row(rows, row_id).contains(other) <==> rows.contains(other) && other != row_id,
    decreases rows.len(),
{
    reveal(Seq::filter);
    if rows.len() > 0 {
        let front = rows.drop_last();
        let kept = without_row(front, row_id);
        only_that_row_is_left_out(front, row_id);
        assert forall|other: i64| #[trigger]
            without_row(rows, row_id).contains(other) <==> rows.contains(other) && other
                != row_id by {
            assert(rows.contains(other) <==> front.contains(other) || rows.last() == other) by {
                if front.contains(other) {
                    let i = choose|i: int| 0 <= i < front.len() && front[i] == other;
                    assert(rows[i] == other);
                }
                if rows.contains(other) && rows.last() != other {
                    let i = choose|i: int| 0 <= i < rows.len() && rows[i] == other;
                    assert(front[i] == other);
                }
                if rows.last() == other {
                    assert(rows[rows.len() - 1] == other);
                }
            }
            if rows.last() != row_id {
                let all = kept.push(rows.last());
                assert(without_row(rows, row_id) == all);
                assert(all.contains(other) <==> kept.contains(other) || rows.last() == other) by {
                    if kept.contains(other) {
                        let i = choose|i: int| 0 <= i < kept.len() && kept[i] == other;
                        assert(all[i] == other);
                    }
                    if all.contains(other) && rows.last() != other {
                        let i = choose|i: int| 0 <= i < all.len() && all[i] == other;
                        assert(kept[i] == other);
                    }
                    if rows.last() == other {
                        assert(all[all.len() - 1] == other);
                    }
                }
            }
        }
    }
}

/// Leaves out a row.
fn leave_out(rows: &Vec<i64>, row_id: i64) -> (kept: Vec<i64>)
    ensures
        kept@ == without_row(rows@, row_id),
{
    let mut kept: Vec<i64> = Vec::new();
    let mut i: usize = 0;
    proof {
        reveal(Seq::filter);
        assert(rows@.take(0) =~= Seq::<i64>::empty());
    }
    while i < rows.len()
        invariant
            i <= rows@.len(),
            kept@ == without_row(rows@.take(i as int), row_id),
        decreases rows@.len() - i,
    {
        proof {
            reveal(Seq::filter);
            assert(rows@.take(i + 1).drop_last() =~= rows@.take(i as int));
        }
        if rows[i] != row_id {
            kept.push(rows[i]);
        }
        i = i + 1;
    }
    assert(rows@.take(rows@.len() as int) =~= rows@);
    kept
}

impl WorkerState {
    /// Takes a row in hand.
    pub fn begin_row(&mut self, row_id: i64)
        ensures
            final(self).current_row == Some(row_id),
            final(self).retained_rows@ == without_row(old(self).retained_rows@, row_id),
            final(self).pending@ == old(self).pending@,
    {
        self.current_row = Some(row_id);
        let kept = leave_out(&self.retained_rows, row_id);
        self.retained_rows = kept;
    }

    /// Lays down a row. A completed one is forgotten; another one is retained.
    pub fn finish_row(&mut self, row_id: i64, completed: bool)
        ensures
            final(self).current_row is None,
            completed ==> final(self).pending@ == without_row(old(self).pending@, row_id)
                && final(self).retained_rows@ == without_row(old(self).retained_rows@, row_id),
            !completed ==> final(self).pending@ == old(self).pending@
                && final(self).retained_rows@ == without_row(
                old(self).retained_rows@,
                row_id,
            ).push(row_id),
    {
        self.current_row = None;
        let retained = leave_out(&self.retained_rows, row_id);
        self.retained_rows = retained;
        if completed {
            let pending = leave_out(&self.pending, row_id);
            self.pending = pending;
        } else {
            self.retained_rows.push(row_id);
        }
    }
}

/// Whether a row in hand is to be stopped, given the row that was last asked to stop.
pub fn is_interrupted(stopped_row: i64, row_id: i64) -> (yes: bool)
    ensures
        yes == (stopped_row == row_id),
{
    stopped_row == row_id
}

/// The rows that are kept stay in their order.
pub proof fn kept_rows_stay_in_order(rows: Seq<i64>, next: i64, row_id: i64)
    ensures
        without_row(Seq::empty(), row_id) == Seq::<i64>::empty(),
        without_row(rows.push(next), row_id) == (if next == row_id {
            without_row(rows, row_id)
        } else {
            without_row(rows, row_id).push(next)
        }),
{
    reveal(Seq::filter);
    assert(rows.push(next).drop_last() =~= rows);
}

} // verus!
