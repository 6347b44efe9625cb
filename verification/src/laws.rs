//! Laws of the supervisor model.
//!
//! These proof functions state, over whole event sequences, what the
//! per-event contract of `Supervisor::handle_event` adds up to: the
//! ready notification fires exactly once, the published configuration
//! is the one fixed by the first line at which both markers are known,
//! and queries agree with the transition from every point on.

use vstd::prelude::*;
use crate::supervisor::ConfigView;
use crate::supervisor::EventView;
use crate::supervisor::ExitInfo;
use crate::supervisor::NoteView;
use crate::supervisor::PendingView;
use crate::supervisor::StateView;
use crate::supervisor::apply_markers;
use crate::supervisor::config_of_pending;
use crate::supervisor::pending_complete;
use crate::supervisor::published_config;
use crate::supervisor::spec_step;

verus! {

/// The state after a sequence of events.
pub open spec fn run_events(s: StateView, events: Seq<EventView>) -> StateView
    decreases events.len(),
{
    if events.len() == 0 {
        s
    } else {
        run_events(spec_step(s, events[0]).0, events.drop_first())
    }
}

/// All notifications a sequence of events gives rise to, in order.
pub open spec fn emitted(s: StateView, events: Seq<EventView>) -> Seq<NoteView>
    decreases events.len(),
{
    if events.len() == 0 {
        Seq::empty()
    } else {
        let stepped = spec_step(s, events[0]);
        (match stepped.1 {
            Some(n) => seq![n],
            None => Seq::<NoteView>::empty(),
        }) + emitted(stepped.0, events.drop_first())
    }
}

/// How many ready notifications a sequence of notifications holds.
pub open spec fn ready_note_count(notes: Seq<NoteView>) -> nat
    decreases notes.len(),
{
    if notes.len() == 0 {
        0
    } else {
        (if notes[0] is Ready {
            1nat
        } else {
            0nat
        }) + ready_note_count(notes.drop_first())
    }
}

/// The ready transition has happened: a configuration is published.
pub open spec fn reached_ready(s: StateView) -> bool {
    published_config(s) is Some
}

/// One step keeps a published configuration, unchanged; and it emits the
/// ready notification exactly when it makes the configuration appear,
/// carrying exactly that configuration.
pub proof fn lemma_step_publication(s: StateView, e: EventView)
    ensures
        reached_ready(s) ==> published_config(spec_step(s, e).0) == published_config(s),
        (spec_step(s, e).1 matches Some(n) && n is Ready) <==> (!reached_ready(s) && reached_ready(
            spec_step(s, e).0,
        )),
        (spec_step(s, e).1 matches Some(n) ==> (n is Ready ==> Some(n->Ready_0)
            == published_config(spec_step(s, e).0))),
{
}

/// A run from a state with a published configuration keeps it.
pub proof fn lemma_config_stable(s: StateView, events: Seq<EventView>)
    requires
        reached_ready(s),
    ensures
        published_config(run_events(s, events)) == published_config(s),
    decreases events.len(),
{
    if events.len() > 0 {
        lemma_step_publication(s, events[0]);
        lemma_config_stable(spec_step(s, events[0]).0, events.drop_first());
    }
}

/// Running a concatenation is running the two parts in turn.
pub proof fn lemma_run_append(s: StateView, a: Seq<EventView>, b: Seq<EventView>)
    ensures
        run_events(s, a + b) == run_events(run_events(s, a), b),
    decreases a.len(),
{
    if a.len() == 0 {
        assert(a + b =~= b);
    } else {
        assert((a + b)[0] == a[0]);
        assert((a + b).drop_first() =~= a.drop_first() + b);
        lemma_run_append(spec_step(s, a[0]).0, a.drop_first(), b);
    }
}

/// The notifications of a concatenation are the notifications of the
/// two parts in turn.
pub proof fn lemma_emitted_append(s: StateView, a: Seq<EventView>, b: Seq<EventView>)
    ensures
        emitted(s, a + b) == emitted(s, a) + emitted(run_events(s, a), b),
    decreases a.len(),
{
    if a.len() == 0 {
        assert(a + b =~= b);
        assert(emitted(s, a) + emitted(run_events(s, a), b) =~= emitted(s, b));
    } else {
        let s1 = spec_step(s, a[0]).0;
        assert((a + b)[0] == a[0]);
        assert((a + b).drop_first() =~= a.drop_first() + b);
        lemma_emitted_append(s1, a.drop_first(), b);
        let first = match spec_step(s, a[0]).1 {
            Some(n) => seq![n],
            None => Seq::<NoteView>::empty(),
        };
        assert(first + (emitted(s1, a.drop_first()) + emitted(run_events(s1, a.drop_first()), b))
            =~= (first + emitted(s1, a.drop_first())) + emitted(run_events(s1, a.drop_first()), b));
    }
}

/// The ready notification fires exactly once per supervisor run: a run
/// emits one ready notification when it crosses the transition and none
/// when the transition lies before it or is never reached.
pub proof fn lemma_ready_fires_exactly_once(s: StateView, events: Seq<EventView>)
    ensures
        ready_note_count(emitted(s, events)) == (if !reached_ready(s) && reached_ready(
            run_events(s, events),
        ) {
            1nat
        } else {
            0nat
        }),
    decreases events.len(),
{
    if events.len() == 0 {
    } else {
        let stepped = spec_step(s, events[0]);
        let rest = emitted(stepped.0, events.drop_first());
        lemma_step_publication(s, events[0]);
        lemma_ready_fires_exactly_once(stepped.0, events.drop_first());
        match stepped.1 {
            Some(n) => {
                assert((seq![n] + rest)[0] == n);
                assert((seq![n] + rest).drop_first() =~= rest);
            },
            None => {
                assert(Seq::<NoteView>::empty() + rest =~= rest);
            },
        }
        if reached_ready(stepped.0) {
            lemma_config_stable(stepped.0, events.drop_first());
        }
    }
}

/// Queries cohere with the ready transition: a query that saw the
/// configuration pins every later query to the same value, and a query
/// that saw nothing means every earlier query saw nothing.
pub proof fn lemma_query_coherence(s: StateView, events: Seq<EventView>, i: int, j: int)
    requires
        0 <= i <= j <= events.len(),
    ensures
        reached_ready(run_events(s, events.take(i))) ==> published_config(
            run_events(s, events.take(j)),
        ) == published_config(run_events(s, events.take(i))),
        !reached_ready(run_events(s, events.take(j))) ==> !reached_ready(
            run_events(s, events.take(i)),
        ),
{
    assert(events.take(j) =~= events.take(i) + events.subrange(i, j));
    lemma_run_append(s, events.take(i), events.subrange(i, j));
    if reached_ready(run_events(s, events.take(i))) {
        lemma_config_stable(run_events(s, events.take(i)), events.subrange(i, j));
    }
}

/// Around the ready transition itself: a query issued at any point up
/// to the transition sees nothing, and a query issued at any point
/// after it sees exactly the configuration the transition published.
pub proof fn lemma_query_around_transition(
    s: StateView,
    events: Seq<EventView>,
    t: int,
    i: int,
)
    requires
        0 <= t < events.len(),
        !reached_ready(run_events(s, events.take(t))),
        reached_ready(run_events(s, events.take(t + 1))),
        0 <= i <= events.len(),
    ensures
        i <= t ==> !reached_ready(run_events(s, events.take(i))),
        i > t ==> published_config(run_events(s, events.take(i))) == published_config(
            run_events(s, events.take(t + 1)),
        ),
{
    if i <= t {
        lemma_query_coherence(s, events, i, t);
    } else {
        lemma_query_coherence(s, events, t + 1, i);
    }
}

/// `Terminated` and `LaunchFailed` are terminal: no later event moves
/// the state again.
pub proof fn lemma_terminal_states_absorb(s: StateView, events: Seq<EventView>)
    requires
        s is Terminated || s is LaunchFailed,
    ensures
        run_events(s, events) == s,
    decreases events.len(),
{
    if events.len() > 0 {
        lemma_terminal_states_absorb(spec_step(s, events[0]).0, events.drop_first());
    }
}

/// The events of a sequence of standard-output lines.
pub open spec fn stdout_events(lines: Seq<Seq<char>>) -> Seq<EventView> {
    lines.map_values(|l: Seq<char>| EventView::StdoutLine(l))
}

/// The pending fields after a sequence of lines, last writer wins per
/// field, line by line.
pub open spec fn pending_after(p: PendingView, lines: Seq<Seq<char>>) -> PendingView
    decreases lines.len(),
{
    if lines.len() == 0 {
        p
    } else {
        pending_after(apply_markers(p, lines[0]), lines.drop_first())
    }
}

/// A field once seen is never unseen: completeness is monotone over
/// further lines.
pub proof fn lemma_pending_monotone(p: PendingView, lines: Seq<Seq<char>>)
    ensures
        p.port is Some ==> pending_after(p, lines).port is Some,
        p.token is Some ==> pending_after(p, lines).token is Some,
        pending_complete(p) ==> pending_complete(pending_after(p, lines)),
    decreases lines.len(),
{
    if lines.len() > 0 {
        lemma_pending_monotone(apply_markers(p, lines[0]), lines.drop_first());
    }
}

/// Helper: the pending fields after a prefix of lines, shifted by one.
proof fn lemma_pending_shift(p: PendingView, lines: Seq<Seq<char>>, i: int)
    requires
        0 <= i < lines.len(),
    ensures
        pending_after(p, lines.take(i + 1)) == pending_after(
            apply_markers(p, lines[0]),
            lines.drop_first().take(i),
        ),
{
    assert(lines.take(i + 1)[0] == lines[0]);
    assert(lines.take(i + 1).drop_first() =~= lines.drop_first().take(i));
}

/// While the markers are incomplete, the worker keeps running and the
/// pending fields are exactly the line-by-line accumulation.
pub proof fn lemma_runs_while_incomplete(p: PendingView, lines: Seq<Seq<char>>)
    requires
        !pending_complete(pending_after(p, lines)),
    ensures
        run_events((StateView::Running { pending: p }), stdout_events(lines)) == (
        StateView::Running { pending: pending_after(p, lines) }),
    decreases lines.len(),
{
    let events = stdout_events(lines);
    if lines.len() == 0 {
    } else {
        let p1 = apply_markers(p, lines[0]);
        lemma_pending_monotone(p1, lines.drop_first());
        assert(!pending_complete(p1));
        assert(events[0] == EventView::StdoutLine(lines[0]));
        assert(events.drop_first() =~= stdout_events(lines.drop_first()));
        lemma_runs_while_incomplete(p1, lines.drop_first());
    }
}

/// The first line-by-line moment at which both fields are non-empty
/// fixes the published configuration: the whole run of lines publishes
/// exactly the pair accumulated up to that moment, and later lines,
/// whatever they carry, never change it.
pub proof fn lemma_first_complete_wins(p: PendingView, lines: Seq<Seq<char>>, k: int)
    requires
        !pending_complete(p),
        0 <= k < lines.len(),
        pending_complete(pending_after(p, lines.take(k + 1))),
        forall|j: int| 0 <= j < k ==> !pending_complete(#[trigger] pending_after(
            p,
            lines.take(j + 1),
        )),
    ensures
        published_config(run_events((StateView::Running { pending: p }), stdout_events(lines)))
            == Some(config_of_pending(pending_after(p, lines.take(k + 1)))),
    decreases lines.len(),
{
    let events = stdout_events(lines);
    let p1 = apply_markers(p, lines[0]);
    assert(events[0] == EventView::StdoutLine(lines[0]));
    assert(events.drop_first() =~= stdout_events(lines.drop_first()));
    assert(lines.take(1) =~= seq![lines[0]]);
    assert(pending_after(p, lines.take(1)) == p1) by {
        assert(lines.take(1)[0] == lines[0]);
        assert(lines.take(1).drop_first() =~= Seq::<Seq<char>>::empty());
        assert(pending_after(apply_markers(p, lines[0]), Seq::<Seq<char>>::empty())
            == apply_markers(p, lines[0]));
    }
    if k == 0 {
        let c = config_of_pending(p1);
        assert(spec_step(StateView::Running { pending: p }, events[0]).0 == StateView::Ready {
            config: c,
        });
        lemma_config_stable(StateView::Ready { config: c }, events.drop_first());
    } else {
        assert(!pending_complete(p1));
        assert(forall|j: int| 0 <= j < k - 1 ==> !pending_complete(#[trigger] pending_after(
            p1,
            lines.drop_first().take(j + 1),
        ))) by {
            assert forall|j: int| 0 <= j < k - 1 implies !pending_complete(
                #[trigger] pending_after(p1, lines.drop_first().take(j + 1)),
            ) by {
                lemma_pending_shift(p, lines, j + 1);
            }
        }
        lemma_pending_shift(p, lines, k);
        lemma_first_complete_wins(p1, lines.drop_first(), k - 1);
    }
}

/// A worker that terminates before both markers were seen never becomes
/// ready: the run ends terminated with nothing published, and the
/// termination is notified.
pub proof fn lemma_terminated_before_ready(p: PendingView, lines: Seq<Seq<char>>, exit: ExitInfo)
    requires
        !pending_complete(pending_after(p, lines)),
    ensures
        run_events(
            (StateView::Running { pending: p }),
            stdout_events(lines) + seq![EventView::Terminated(exit)],
        ) == (StateView::Terminated { exit, config: None::<ConfigView> }),
        published_config(
            run_events(
                (StateView::Running { pending: p }),
                stdout_events(lines) + seq![EventView::Terminated(exit)],
            ),
        ) is None,
        emitted(
            (StateView::Running { pending: pending_after(p, lines) }),
            seq![EventView::Terminated(exit)],
        ) == seq![NoteView::ProcessTerminated(exit)],
{
    lemma_run_append(
        StateView::Running { pending: p },
        stdout_events(lines),
        seq![EventView::Terminated(exit)],
    );
    lemma_runs_while_incomplete(p, lines);
    let s1 = StateView::Running { pending: pending_after(p, lines) };
    let term = seq![EventView::Terminated(exit)];
    let s2 = StateView::Terminated { exit, config: None::<ConfigView> };
    assert(term[0] == EventView::Terminated(exit));
    assert(term.drop_first() =~= Seq::<EventView>::empty());
    assert(spec_step(s1, term[0]).0 == s2);
    assert(run_events(s1, term) == run_events(s2, term.drop_first()));
    assert(run_events(s2, Seq::<EventView>::empty()) == s2);
    assert(emitted(s1, term) == seq![NoteView::ProcessTerminated(exit)] + emitted(
        s2,
        term.drop_first(),
    ));
    assert(emitted(s2, Seq::<EventView>::empty()) =~= Seq::<NoteView>::empty());
    assert(seq![NoteView::ProcessTerminated(exit)] + Seq::<NoteView>::empty() =~= seq![
        NoteView::ProcessTerminated(exit),
    ]);
}

/// A worker that terminates after reaching ready still has the
/// termination notified, and the published configuration survives it.
pub proof fn lemma_terminate_after_ready(c: ConfigView, exit: ExitInfo)
    ensures
        spec_step((StateView::Ready { config: c }), EventView::Terminated(exit)).0 == (
        StateView::Terminated { exit, config: Some(c) }),
        spec_step((StateView::Ready { config: c }), EventView::Terminated(exit)).1 == Some(
            NoteView::ProcessTerminated(exit),
        ),
        published_config(
            spec_step((StateView::Ready { config: c }), EventView::Terminated(exit)).0,
        ) == Some(c),
{
}

} // verus!
