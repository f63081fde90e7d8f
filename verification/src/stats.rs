//! How many subscription cursors there are.

use vstd::prelude::*;

verus! {

/// The cursors of a session.
#[derive(Debug, Clone, Copy, PartialEq, Eq, Structural)]
pub struct CursorNums {
    pub subsription_cursor_nums: i64,
    pub invalid_subsription_cursor_nums: i64,
}

/// How many cursors the sessions have.
pub open spec fn cursor_total(q: Seq<CursorNums>) -> int
    decreases q.len(),
{
    if q.len() == 0 {
        0
    } else {
        cursor_total(q.drop_last()) + q.last().subsription_cursor_nums
    }
}

/// How many invalid cursors the sessions have.
pub open spec fn invalid_cursor_total(q: Seq<CursorNums>) -> int
    decreases q.len(),
{
    if q.len() == 0 {
        0
    } else {
        invalid_cursor_total(q.drop_last()) + q.last().invalid_subsription_cursor_nums
    }
}

/// No sum on the way to the total is too large.
pub open spec fn totals_fit(q: Seq<CursorNums>) -> bool {
    forall|i: int|
        0 <= i <= q.len() ==> {
            let head = #[trigger] q.take(i);
            i64::MIN <= cursor_total(head) <= i64::MAX && i64::MIN <= invalid_cursor_total(head)
                <= i64::MAX
        }
}

/// How many cursors, and how many invalid ones, all sessions have together.
pub fn sum_cursor_nums(sessions: &Vec<CursorNums>) -> (r: CursorNums)
    requires
        totals_fit(sessions@),
    ensures
        r.subsription_cursor_nums == cursor_total(sessions@),
        r.invalid_subsription_cursor_nums == invalid_cursor_total(sessions@),
{
    let mut valid: i64 = 0;
    let mut invalid: i64 = 0;
    let mut i: usize = 0;
    assert(sessions@.take(0) =~= Seq::empty());
    while i < sessions.len()
        invariant
            i <= sessions.len(),
            totals_fit(sessions@),
            valid == cursor_total(sessions@.take(i as int)),
            invalid == invalid_cursor_total(sessions@.take(i as int)),
        decreases sessions.len() - i,
    {
        let n = sessions[i];
        proof {
            let head = sessions@.take(i + 1);
            assert(head.drop_last() =~= sessions@.take(i as int));
            assert(head.last() == n);
        }
        valid = valid + n.subsription_cursor_nums;
        invalid = invalid + n.invalid_subsription_cursor_nums;
        i = i + 1;
    }
    assert(sessions@.take(i as int) =~= sessions@);
    CursorNums { subsription_cursor_nums: valid, invalid_subsription_cursor_nums: invalid }
}

/// The cursors of all sessions are those of some of them and those of the others, each kind for itself; of
/// one session they are its own.
pub proof fn law_cursors_add_up(a: Seq<CursorNums>, b: Seq<CursorNums>, one: CursorNums)
    ensures
        cursor_total(a + b) == cursor_total(a) + cursor_total(b),
        invalid_cursor_total(a + b) == invalid_cursor_total(a) + invalid_cursor_total(b),
        cursor_total(seq![one]) == one.subsription_cursor_nums,
        invalid_cursor_total(seq![one]) == one.invalid_subsription_cursor_nums,
        cursor_total(Seq::empty()) == 0,
        invalid_cursor_total(Seq::empty()) == 0,
    decreases b.len(),
{
    assert(seq![one].drop_last() =~= Seq::empty());
    assert(cursor_total(seq![one].drop_last()) == 0);
    assert(invalid_cursor_total(seq![one].drop_last()) == 0);
    if b.len() == 0 {
        assert(a + b =~= a);
    } else {
        law_cursors_add_up(a, b.drop_last(), one);
        assert((a + b).drop_last() =~= a + b.drop_last());
        assert((a + b).last() == b.last());
    }
}

} // verus!
