//! Keeping a day's windows in ascending order of their start.
//!
//! A list is sorted by putting its windows, one after the other, into an
//! ordered list, each behind the windows that start no later than it does.
//! Windows that start together therefore stay in the order in which they
//! were given.

use vstd::prelude::*;
use vstd::seq_lib::to_multiset_build;
use vstd::seq_lib::to_multiset_insert;

use crate::clock::TimeWindow;
use crate::clock::WindowView;

verus! {

/// The windows of a list, as contracts see them.
pub open spec fn window_views(windows: Seq<TimeWindow>) -> Seq<WindowView> {
    windows.map_values(|w: TimeWindow| w@)
}

/// No window starts before one that stands earlier in the list.
pub open spec fn sorted_by_start(windows: Seq<WindowView>) -> bool {
    forall|i: int, j: int| 0 <= i <= j < windows.len() ==> windows[i].start <= windows[j].start
}

/// Every window of the list is well formed.
pub open spec fn all_well_formed(windows: Seq<WindowView>) -> bool {
    forall|i: int| 0 <= i < windows.len() ==> (#[trigger] windows[i]).wf()
}

/// Where a window that starts at `start` goes into the list: behind the last
/// window that starts no later.
pub open spec fn insertion_point(windows: Seq<WindowView>, start: int) -> int
    decreases windows.len(),
{
    if windows.len() == 0 {
        0
    } else if windows.last().start <= start {
        windows.len() as int
    } else {
        insertion_point(windows.drop_last(), start)
    }
}

/// The list with `window` put in at its insertion point.
pub open spec fn inserted(windows: Seq<WindowView>, window: WindowView) -> Seq<WindowView> {
    windows.insert(insertion_point(windows, window.start), window)
}

/// The windows of the list in ascending order of their start; windows that
/// start together keep their order.
pub open spec fn sorted_stably(windows: Seq<WindowView>) -> Seq<WindowView>
    decreases windows.len(),
{
    if windows.len() == 0 {
        windows
    } else {
        inserted(sorted_stably(windows.drop_last()), windows.last())
    }
}

/// The windows of the list that start at `start`, in their order.
pub open spec fn starting_at(windows: Seq<WindowView>, start: int) -> Seq<WindowView>
    decreases windows.len(),
{
    if windows.len() == 0 {
        windows
    } else if windows.last().start == start {
        starting_at(windows.drop_last(), start).push(windows.last())
    } else {
        starting_at(windows.drop_last(), start)
    }
}

/// The insertion point lies in the list or at its end; the window before it,
/// if any, starts no later than `start`, and every window from it on starts
/// later.
pub proof fn lemma_insertion_point(windows: Seq<WindowView>, start: int)
    ensures
        0 <= insertion_point(windows, start) <= windows.len(),
        insertion_point(windows, start) > 0 ==> windows[insertion_point(windows, start) - 1].start
            <= start,
        forall|i: int|
            insertion_point(windows, start) <= i < windows.len() ==> (#[trigger] windows[i]).start
                > start,
    decreases windows.len(),
{
    if windows.len() > 0 && windows.last().start > start {
        lemma_insertion_point(windows.drop_last(), start);
        let point = insertion_point(windows.drop_last(), start);
        assert forall|i: int| point <= i < windows.len() implies (#[trigger] windows[i]).start
            > start by {
            if i < windows.len() - 1 {
                assert(windows.drop_last()[i] == windows[i]);
            }
        }
        if point > 0 {
            assert(windows.drop_last()[point - 1] == windows[point - 1]);
        }
    }
}

/// Putting a window into an ordered list leaves the list ordered, one window
/// longer, and made of the same windows plus the new one.
pub proof fn lemma_inserted(windows: Seq<WindowView>, window: WindowView)
    requires
        sorted_by_start(windows),
    ensures
        sorted_by_start(inserted(windows, window)),
        inserted(windows, window).len() == windows.len() + 1,
        inserted(windows, window).to_multiset() == windows.to_multiset().insert(window),
        all_well_formed(windows) && window.wf() ==> all_well_formed(inserted(windows, window)),
{
    lemma_insertion_point(windows, window.start);
    let point = insertion_point(windows, window.start);
    let longer = inserted(windows, window);
    windows.insert_ensures(point, window);
    assert forall|i: int, j: int| 0 <= i <= j < longer.len() implies longer[i].start
        <= longer[j].start by {
        if i < point {
            assert(longer[i] == windows[i]);
            assert(windows[i].start <= windows[point - 1].start);
        } else if i > point {
            assert(longer[i] == windows[i - 1]);
        }
        if j < point {
            assert(longer[j] == windows[j]);
        } else if j > point {
            assert(longer[j] == windows[j - 1]);
        }
    }
    to_multiset_insert(windows, point, window);
    if all_well_formed(windows) && window.wf() {
        assert forall|i: int| 0 <= i < longer.len() implies (#[trigger] longer[i]).wf() by {
            if i < point {
                assert(longer[i] == windows[i]);
            } else if i > point {
                assert(longer[i] == windows[i - 1]);
            }
        }
    }
}

/// Sorting gives an ordered list of the same windows.
pub proof fn lemma_sorted_stably(windows: Seq<WindowView>)
    ensures
        sorted_by_start(sorted_stably(windows)),
        sorted_stably(windows).len() == windows.len(),
        sorted_stably(windows).to_multiset() == windows.to_multiset(),
        all_well_formed(windows) ==> all_well_formed(sorted_stably(windows)),
    decreases windows.len(),
{
    if windows.len() > 0 {
        let front = windows.drop_last();
        lemma_sorted_stably(front);
        lemma_inserted(sorted_stably(front), windows.last());
        assert(front.push(windows.last()) == windows);
        to_multiset_build(front, windows.last());
        if all_well_formed(windows) {
            assert forall|i: int| 0 <= i < front.len() implies (#[trigger] front[i]).wf() by {
                assert(front[i] == windows[i]);
            }
        }
    }
}

/// The windows of a joined list that start at `start` are those of its two
/// parts, one after the other.
pub proof fn lemma_starting_at_joined(front: Seq<WindowView>, back: Seq<WindowView>, start: int)
    ensures
        starting_at(front + back, start) == starting_at(front, start) + starting_at(back, start),
    decreases back.len(),
{
    if back.len() == 0 {
        assert(front + back == front);
    } else {
        lemma_starting_at_joined(front, back.drop_last(), start);
        assert((front + back).drop_last() == front + back.drop_last());
        assert((front + back).last() == back.last());
    }
}

/// A list in which no window starts at `start` holds none that does.
pub proof fn lemma_starting_at_absent(windows: Seq<WindowView>, start: int)
    requires
        forall|i: int| 0 <= i < windows.len() ==> (#[trigger] windows[i]).start != start,
    ensures
        starting_at(windows, start) == Seq::<WindowView>::empty(),
    decreases windows.len(),
{
    if windows.len() > 0 {
        assert forall|i: int| 0 <= i < windows.drop_last().len() implies (
        #[trigger] windows.drop_last()[i]).start != start by {
            assert(windows.drop_last()[i] == windows[i]);
        }
        lemma_starting_at_absent(windows.drop_last(), start);
        assert(windows[windows.len() - 1].start != start);
    }
}

/// A window put into an ordered list goes behind the windows that start when
/// it does, and leaves the windows of every other start as they were.
pub proof fn lemma_inserted_keeps_order(windows: Seq<WindowView>, window: WindowView, start: int)
    requires
        sorted_by_start(windows),
    ensures
        starting_at(inserted(windows, window), start) == if window.start == start {
            starting_at(windows, start).push(window)
        } else {
            starting_at(windows, start)
        },
{
    lemma_insertion_point(windows, window.start);
    let point = insertion_point(windows, window.start);
    let front = windows.subrange(0, point);
    let back = windows.subrange(point, windows.len() as int);
    assert(windows == front + back);
    assert(inserted(windows, window) == front.push(window) + back);
    assert(front.push(window).drop_last() == front);
    lemma_starting_at_joined(front.push(window), back, start);
    lemma_starting_at_joined(front, back, start);
    if window.start == start {
        assert forall|i: int| 0 <= i < back.len() implies (#[trigger] back[i]).start != start by {
            assert(back[i] == windows[point + i]);
        }
        lemma_starting_at_absent(back, start);
        assert(starting_at(front, start) + Seq::<WindowView>::empty() == starting_at(front, start));
        assert(starting_at(front, start).push(window) + Seq::<WindowView>::empty() == starting_at(
            front,
            start,
        ).push(window));
    }
}

/// Sorting is stable: the windows that start together come out in the order
/// in which they went in.
pub proof fn lemma_sorted_stably_keeps_order(windows: Seq<WindowView>, start: int)
    ensures
        starting_at(sorted_stably(windows), start) == starting_at(windows, start),
    decreases windows.len(),
{
    if windows.len() > 0 {
        let front = windows.drop_last();
        lemma_sorted_stably(front);
        lemma_sorted_stably_keeps_order(front, start);
        lemma_inserted_keeps_order(sorted_stably(front), windows.last(), start);
    }
}

/// Puts `window` into an ordered list, behind the windows that start no
/// later than it does.
pub(crate) fn insert_sorted(list: &mut Vec<TimeWindow>, window: TimeWindow)
    requires
        sorted_by_start(window_views(old(list)@)),
    ensures
        window_views(final(list)@) == inserted(window_views(old(list)@), window@),
        sorted_by_start(window_views(final(list)@)),
{
    let start = window.start().seconds_from_midnight();
    let ghost before = window_views(list@);
    let mut point = list.len();
    proof {
        assert(before.subrange(0, point as int) == before);
    }
    while point > 0 && list[point - 1].start().seconds_from_midnight() > start
        invariant
            point <= list.len(),
            before == window_views(list@),
            start == window@.start,
            insertion_point(before, start as int) == insertion_point(
                before.subrange(0, point as int),
                start as int,
            ),
        decreases point,
    {
        proof {
            let front = before.subrange(0, point as int);
            assert(front.last() == before[point - 1]);
            assert(front.drop_last() == before.subrange(0, point - 1));
        }
        point = point - 1;
    }
    proof {
        let front = before.subrange(0, point as int);
        if point > 0 {
            assert(front.last() == before[point - 1]);
        }
        assert(before.subrange(0, before.len() as int) == before);
        assert(insertion_point(before, start as int) == point);
        lemma_inserted(before, window@);
    }
    list.insert(point, window);
    proof {
        assert(window_views(list@) == before.insert(point as int, window@));
    }
}

} // verus!
