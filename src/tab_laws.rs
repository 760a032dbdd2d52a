//! Laws of the tab session, stated over its model.

use vstd::prelude::*;
use vstd::arithmetic::div_mod::{lemma_mod_self_0, lemma_small_mod};
use crate::tabs::{
    SessionView, TabInfo, lemma_closed_wf, lemma_position_bounds, lemma_position_of_unique,
    lemma_switched_wf, position,
};

verus! {

/// The session after opening each of `infos` in order.
pub open spec fn opened_all(s: SessionView, infos: Seq<TabInfo>) -> SessionView
    decreases infos.len(),
{
    if infos.len() == 0 {
        s
    } else {
        opened_all(s, infos.drop_last()).opened(infos.last())
    }
}

/// After opening N tabs the session holds N more tabs, and the last one
/// opened is active.
pub proof fn lemma_open_many(s: SessionView, infos: Seq<TabInfo>)
    ensures
        opened_all(s, infos).tabs.len() == s.tabs.len() + infos.len(),
        infos.len() > 0 ==> opened_all(s, infos).active == infos.last().id@,
    decreases infos.len(),
{
    if infos.len() > 0 {
        lemma_open_many(s, infos.drop_last());
    }
}

/// Closing a tab other than the active one leaves the active tab as it was
/// and removes exactly one tab.
pub proof fn lemma_close_inactive(s: SessionView, id: Seq<char>)
    requires
        s.wf(),
        s.tabs.len() > 1,
        position(s.tabs, id) is Some,
        id != s.active,
    ensures
        s.closed(id).active == s.active,
        s.closed(id).tabs.len() == s.tabs.len() - 1,
{
    lemma_position_bounds(s.tabs, id);
}

/// Closing the active tab at index `i` activates index `i` of the shorter
/// list, or its last index when `i` was the last.
pub proof fn lemma_close_active(s: SessionView, i: int)
    requires
        s.wf(),
        s.tabs.len() > 1,
        position(s.tabs, s.active) == Some(i),
    ensures
        ({
            let t = s.closed(s.active);
            let n = t.tabs.len() as int;
            &&& n == s.tabs.len() - 1
            &&& position(t.tabs, t.active) == Some(if i < n { i } else { n - 1 })
        }),
{
    lemma_position_bounds(s.tabs, s.active);
    lemma_closed_wf(s, s.active);
    let t = s.closed(s.active);
    let k = SessionView::successor_index(i, t.tabs.len() as int);
    lemma_position_of_unique(t.tabs, k);
}

/// Closing the sole tab changes nothing.
pub proof fn lemma_close_sole(s: SessionView, id: Seq<char>)
    requires
        s.tabs.len() == 1,
    ensures
        s.closed(id) == s,
{
}

/// With more than one tab, moving to the next tab and then to the previous
/// one returns to the tab that was active, and so does the reverse order.
pub proof fn lemma_next_prev_round_trip(s: SessionView)
    requires
        s.wf(),
        s.tabs.len() > 1,
    ensures
        s.to_next().to_prev().active == s.active,
        s.to_prev().to_next().active == s.active,
{
    let n = s.tabs.len() as int;
    let c = s.current_index();
    lemma_position_bounds(s.tabs, s.active);
    let ni = s.next_index();
    let pi = s.prev_index();
    lemma_switched_wf(s, ni);
    lemma_switched_wf(s, pi);
    lemma_position_of_unique(s.tabs, ni);
    lemma_position_of_unique(s.tabs, pi);
    lemma_position_of_unique(s.tabs, c);
    let a = s.to_next();
    assert(a.current_index() == ni);
    if c + 1 < n {
        lemma_small_mod((c + 1) as nat, n as nat);
        assert(ni == c + 1);
    } else {
        lemma_mod_self_0(n);
        assert(ni == 0);
    }
    assert(a.prev_index() == c);
    let b = s.to_prev();
    assert(b.current_index() == pi);
    if c == 0 {
        lemma_mod_self_0(n);
    } else {
        lemma_small_mod(c as nat, n as nat);
    }
    assert(b.next_index() == c);
}

} // verus!
