//! The window monitor: a two-state machine over the registry. Starting
//! snapshots the visible titles, stopping clears the active flag and
//! leaves the stale snapshot harmless, and each externally timed check
//! reports the monitored titles that were seen last time but are gone
//! now, then adopts the fresh snapshot.

use vstd::prelude::*;

use crate::state::{AppState, StateView};
use crate::text::clone_string_vec;

verus! {

/// The test one check applies to a monitored title: seen at the last
/// check and absent from the current snapshot.
pub open spec fn gone_since(last_seen: Seq<Seq<char>>, current: Seq<Seq<char>>) -> spec_fn(
    Seq<char>,
) -> bool {
    |t: Seq<char>| last_seen.contains(t) && !current.contains(t)
}

/// What one check reports: the monitored titles, in list order and with
/// duplicates kept, that were present in the last snapshot and are
/// absent from the current one.
pub open spec fn closed_titles(
    monitored: Seq<Seq<char>>,
    last_seen: Seq<Seq<char>>,
    current: Seq<Seq<char>>,
) -> Seq<Seq<char>> {
    monitored.filter(gone_since(last_seen, current))
}

/// The registry after monitoring starts on snapshot `current`.
pub open spec fn started(s: StateView, current: Seq<Seq<char>>) -> StateView {
    StateView { monitoring_active: true, last_seen_windows: current, ..s }
}

/// The registry after monitoring stops: only the flag falls, the stale
/// snapshot stays behind.
pub open spec fn stopped(s: StateView) -> StateView {
    StateView { monitoring_active: false, ..s }
}

/// The registry after one check: an active monitor adopts the fresh
/// snapshot, an idle one is left exactly as it was.
pub open spec fn checked(s: StateView, current: Seq<Seq<char>>) -> StateView {
    if s.monitoring_active {
        StateView { last_seen_windows: current, ..s }
    } else {
        s
    }
}

/// What one check returns: nothing while idle, the closed titles while
/// active.
pub open spec fn check_result(s: StateView, current: Seq<Seq<char>>) -> Seq<Seq<char>> {
    if s.monitoring_active {
        closed_titles(s.monitored_windows, s.last_seen_windows, current)
    } else {
        Seq::empty()
    }
}

impl AppState {
    /// Starts monitoring: records the given snapshot of currently
    /// visible titles and raises the active flag.
    pub fn start_window_monitoring(&mut self, current: Vec<String>) -> (msg: String)
        ensures
            final(self)@ == started(old(self)@, current.deep_view()),
            msg@ == "Window monitoring started"@,
    {
        self.monitoring_active = true;
        self.last_seen_windows = current;
        String::from_str("Window monitoring started")
    }

    /// Stops monitoring: only the active flag falls.
    pub fn stop_window_monitoring(&mut self) -> (msg: String)
        ensures
            final(self)@ == stopped(old(self)@),
            msg@ == "Window monitoring stopped"@,
    {
        self.monitoring_active = false;
        String::from_str("Window monitoring stopped")
    }

    /// One timed check against the given snapshot: while idle it reports
    /// nothing and changes nothing; while active it reports the
    /// monitored titles gone since the last snapshot and adopts this
    /// one.
    #[verifier::loop_isolation(false)]
    pub fn check_window_changes(&mut self, current: Vec<String>) -> (closed: Vec<String>)
        ensures
            final(self)@ == checked(old(self)@, current.deep_view()),
            closed.deep_view() == check_result(old(self)@, current.deep_view()),
    {
        let mut closed: Vec<String> = Vec::new();
        if !self.monitoring_active {
            proof {
                assert(closed.deep_view() =~= Seq::<Seq<char>>::empty());
            }
            return closed;
        }
        let ghost m = self.monitored_windows.deep_view();
        let ghost pred = gone_since(
            self.last_seen_windows.deep_view(),
            current.deep_view(),
        );
        let mut i: usize = 0;
        while i < self.monitored_windows.len()
            invariant
                i <= self.monitored_windows.len(),
                closed.deep_view() =~= m.take(i as int).filter(pred),
            decreases self.monitored_windows.len() - i,
        {
            let title = &self.monitored_windows[i];
            proof {
                assert(m[i as int] == title@);
            }
            let was_seen = contains_title(&self.last_seen_windows, title);
            let ghost dv = closed.deep_view();
            if was_seen && !contains_title(&current, title) {
                closed.push(title.clone());
                proof {
                    assert(closed.deep_view() =~= dv.push(title@));
                }
            }
            proof {
                reveal(Seq::filter);
                assert(m.take(i as int + 1).drop_last() =~= m.take(i as int));
                assert(m.take(i as int + 1).last() == m[i as int]);
                assert(closed.deep_view() =~= m.take(i as int + 1).filter(pred));
            }
            i = i + 1;
        }
        proof {
            assert(m.take(self.monitored_windows.len() as int) =~= m);
        }
        self.last_seen_windows = current;
        closed
    }
}

/// Whether the list carries this exact title.
fn contains_title(v: &Vec<String>, t: &String) -> (r: bool)
    ensures
        r == v.deep_view().contains(t@),
{
    let mut i: usize = 0;
    while i < v.len()
        invariant
            i <= v.len(),
            forall|k: int| 0 <= k < i ==> v.deep_view()[k] != t@,
        decreases v.len() - i,
    {
        if v[i].eq(t) {
            proof {
                assert(v.deep_view()[i as int] == t@);
            }
            return true;
        }
        i = i + 1;
    }
    proof {
        assert(!v.deep_view().contains(t@));
    }
    false
}

/// How often this exact title stands in a list.
pub open spec fn occurrences(l: Seq<Seq<char>>, t: Seq<char>) -> nat
    decreases l.len(),
{
    if l.len() == 0 {
        0
    } else {
        occurrences(l.drop_last(), t) + if l.last() == t {
            1nat
        } else {
            0nat
        }
    }
}

/// Filtering keeps the count of a title that passes the test and drops
/// to zero the count of one that fails it.
pub proof fn lemma_occurrences_filter(
    l: Seq<Seq<char>>,
    pred: spec_fn(Seq<char>) -> bool,
    t: Seq<char>,
)
    ensures
        occurrences(l.filter(pred), t) == if pred(t) {
            occurrences(l, t)
        } else {
            0
        },
    decreases l.len(),
{
    reveal(Seq::filter);
    if l.len() > 0 {
        lemma_occurrences_filter(l.drop_last(), pred, t);
        if pred(l.last()) {
            assert(l.filter(pred) == l.drop_last().filter(pred).push(l.last()));
            assert(l.filter(pred).drop_last() =~= l.drop_last().filter(pred));
            assert(l.filter(pred).last() == l.last());
        }
    }
}

/// Starting monitoring and checking at once against the very snapshot
/// that was recorded reports nothing closed.
pub proof fn lemma_check_after_start_empty(s: StateView, snapshot: Seq<Seq<char>>)
    ensures
        check_result(started(s, snapshot), snapshot) == Seq::<Seq<char>>::empty(),
{
    let a = started(s, snapshot);
    let pred = gone_since(snapshot, snapshot);
    assert forall|i: int| 0 <= i < a.monitored_windows.len() implies !pred(
        #[trigger] a.monitored_windows[i],
    ) by {}
    lemma_filter_all_false(a.monitored_windows, pred);
}

proof fn lemma_filter_all_false(l: Seq<Seq<char>>, pred: spec_fn(Seq<char>) -> bool)
    requires
        forall|i: int| 0 <= i < l.len() ==> !pred(#[trigger] l[i]),
    ensures
        l.filter(pred) == Seq::<Seq<char>>::empty(),
    decreases l.len(),
{
    reveal(Seq::filter);
    if l.len() > 0 {
        assert(forall|i: int| 0 <= i < l.drop_last().len() ==> l.drop_last()[i] == l[i]);
        lemma_filter_all_false(l.drop_last(), pred);
        assert(!pred(l.last()));
    }
}

/// A monitored title seen at the last check and gone from the current
/// snapshot is reported exactly as often as the monitored list carries
/// it — once, for a title listed once; and the very next check no
/// longer reports it, because the adopted snapshot no longer carries
/// it, unless some later snapshot carried it again.
pub proof fn lemma_closed_reported_once(s: StateView, current: Seq<Seq<char>>, t: Seq<char>)
    requires
        s.monitoring_active,
        s.last_seen_windows.contains(t),
        !current.contains(t),
    ensures
        occurrences(check_result(s, current), t) == occurrences(s.monitored_windows, t),
        forall|next: Seq<Seq<char>>|
            occurrences(#[trigger] check_result(checked(s, current), next), t) == 0,
{
    let pred = gone_since(s.last_seen_windows, current);
    lemma_occurrences_filter(s.monitored_windows, pred, t);
    let after = checked(s, current);
    assert forall|next: Seq<Seq<char>>|
        occurrences(#[trigger] check_result(after, next), t) == 0 by {
        let pred2 = gone_since(current, next);
        lemma_occurrences_filter(after.monitored_windows, pred2, t);
        assert(!pred2(t));
    }
}

/// A title the last snapshot did not carry is never reported by the
/// next check, whatever the monitored list and the current snapshot.
pub proof fn lemma_unseen_never_reported(s: StateView, current: Seq<Seq<char>>, t: Seq<char>)
    requires
        !s.last_seen_windows.contains(t),
    ensures
        occurrences(check_result(s, current), t) == 0,
{
    if s.monitoring_active {
        let pred = gone_since(s.last_seen_windows, current);
        lemma_occurrences_filter(s.monitored_windows, pred, t);
        assert(!pred(t));
    }
}

/// Once the seen set has dropped a title, a run of checks whose
/// snapshots never carry it again reports it in none of its results:
/// only an intervening snapshot that shows the title can re-admit it.
pub proof fn lemma_gone_title_stays_silent(
    s: StateView,
    snapshots: Seq<Seq<Seq<char>>>,
    t: Seq<char>,
)
    requires
        !s.last_seen_windows.contains(t),
        forall|i: int| 0 <= i < snapshots.len() ==> !(#[trigger] snapshots[i]).contains(t),
    ensures
        run_check_results(s, snapshots).len() == snapshots.len(),
        forall|i: int|
            0 <= i < snapshots.len() ==> occurrences(
                #[trigger] run_check_results(s, snapshots)[i],
                t,
            ) == 0,
    decreases snapshots.len(),
{
    if snapshots.len() > 0 {
        lemma_unseen_never_reported(s, snapshots[0], t);
        let after = checked(s, snapshots[0]);
        assert(!after.last_seen_windows.contains(t));
        assert(forall|i: int|
            0 <= i < snapshots.drop_first().len() ==> !(
            #[trigger] snapshots.drop_first()[i]).contains(t)) by {
            assert(forall|i: int|
                0 <= i < snapshots.drop_first().len() ==> snapshots.drop_first()[i] == snapshots[i
                    + 1]);
        }
        lemma_gone_title_stays_silent(after, snapshots.drop_first(), t);
        let whole = run_check_results(s, snapshots);
        let rest = run_check_results(after, snapshots.drop_first());
        assert forall|i: int| 0 <= i < snapshots.len() implies occurrences(
            #[trigger] whole[i],
            t,
        ) == 0 by {
            if i == 0 {
                assert(whole[0] == check_result(s, snapshots[0]));
            } else {
                assert(whole[i] == rest[i - 1]);
            }
        }
    }
}

/// The results of a run of checks, each against the next snapshot.
pub open spec fn run_check_results(s: StateView, snapshots: Seq<Seq<Seq<char>>>) -> Seq<
    Seq<Seq<char>>,
>
    decreases snapshots.len(),
{
    if snapshots.len() == 0 {
        Seq::empty()
    } else {
        seq![check_result(s, snapshots[0])] + run_check_results(
            checked(s, snapshots[0]),
            snapshots.drop_first(),
        )
    }
}

/// After a stop, any number of checks all report nothing closed, no
/// matter what the snapshots show.
pub proof fn lemma_stopped_checks_report_nothing(s: StateView, snapshots: Seq<Seq<Seq<char>>>)
    ensures
        run_check_results(stopped(s), snapshots).len() == snapshots.len(),
        forall|i: int|
            0 <= i < snapshots.len() ==> #[trigger] run_check_results(stopped(s), snapshots)[i]
                == Seq::<Seq<char>>::empty(),
{
    lemma_idle_checks_report_nothing(stopped(s), snapshots);
}

proof fn lemma_idle_checks_report_nothing(s: StateView, snapshots: Seq<Seq<Seq<char>>>)
    requires
        !s.monitoring_active,
    ensures
        run_check_results(s, snapshots).len() == snapshots.len(),
        forall|i: int|
            0 <= i < snapshots.len() ==> #[trigger] run_check_results(s, snapshots)[i]
                == Seq::<Seq<char>>::empty(),
    decreases snapshots.len(),
{
    if snapshots.len() > 0 {
        assert(checked(s, snapshots[0]) == s);
        lemma_idle_checks_report_nothing(s, snapshots.drop_first());
        let whole = run_check_results(s, snapshots);
        let rest = run_check_results(s, snapshots.drop_first());
        assert forall|i: int| 0 <= i < snapshots.len() implies #[trigger] whole[i] == Seq::<
            Seq<char>,
        >::empty() by {
            if i == 0 {
                assert(whole[0] == check_result(s, snapshots[0]));
            } else {
                assert(whole[i] == rest[i - 1]);
                assert(snapshots.drop_first()[i - 1] == snapshots[i]);
            }
        }
    }
}

} // verus!
