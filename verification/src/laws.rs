//! What holds of every run of the controller.

use crate::config::{ConfigView, TaskSpecView};
use crate::docker::DockerMetaView;
use crate::logbuf::keep_last;
use crate::model::{
    Area, CommandView, Event, KeyCode, Kind, MouseKind, PendingView, PopupView, ReplyView,
    SnapshotView, TaskSignalView,
};
use crate::state::{AppView, fresh_task, initial, quiet, runtimes, StepView};
use crate::tasks::{
    distinct_names, history_line, lemma_position_by_names, lemma_position_found,
    lemma_step_keeps_inv, Phase, position, TaskStatus, TaskStep,
};
use vstd::prelude::*;

verus! {

/// A step of one task keeps the controller's invariant, and changes nothing
/// but that task.
pub proof fn lemma_task_step_wf(s: AppView, name: Seq<char>, step: TaskStep)
    requires
        s.wf(),
    ensures
        s.task_step(name, step).wf(),
        s.task_step(name, step).tasks.len() == s.tasks.len(),
        forall|i: int|
            0 <= i < s.tasks.len() ==> (#[trigger] s.task_step(name, step).tasks[i]).spec
                == s.tasks[i].spec,
        forall|n: Seq<char>| position(s.task_step(name, step).tasks, n) == position(s.tasks, n),
{
    lemma_position_found(s.tasks, name);
    match position(s.tasks, name) {
        Some(i) => {
            let after = s.task_step(name, step);
            lemma_step_keeps_inv(s.tasks[i], step);
            assert forall|k: int| 0 <= k < after.tasks.len() implies (#[trigger] after.tasks[k]).inv()
                && after.tasks[k].cap == after.cap() by {
                if k != i {
                    assert(after.tasks[k] == s.tasks[k]);
                }
            }
            assert forall|a: int, b: int| 0 <= a < b < after.tasks.len() implies (
            #[trigger] after.tasks[a]).spec.name != (#[trigger] after.tasks[b]).spec.name by {
                assert(after.tasks[a].spec.name == s.tasks[a].spec.name);
                assert(after.tasks[b].spec.name == s.tasks[b].spec.name);
            }
            assert forall|n: Seq<char>| position(after.tasks, n) == position(s.tasks, n) by {
                lemma_position_by_names(after.tasks, s.tasks, n);
            }
        },
        None => {},
    }
}

/// Rebuilding the rows keeps the invariant.
pub proof fn lemma_rebuild_wf(s: AppView)
    requires
        s.wf(),
    ensures
        s.rebuild().wf(),
        s.rebuild().pending == s.pending,
        s.rebuild().follower == s.follower,
{
}

/// A switch-over keeps the invariant.
pub proof fn lemma_select_wf(s: AppView, idx: int)
    requires
        s.wf(),
        s.pending is Idle,
        0 <= idx,
    ensures
        s.select(idx).app.wf(),
{
}

/// One report from a task keeps the invariant.
pub proof fn lemma_signal_wf(s: AppView, sig: TaskSignalView)
    requires
        s.wf(),
    ensures
        s.signal(sig).wf(),
        s.signal(sig).pending == s.pending,
        s.signal(sig).follower == s.follower,
{
    match sig {
        TaskSignalView::Line { name, line } => {
            lemma_task_step_wf(s, name, TaskStep::Line(line));
        },
        TaskSignalView::Exited { name, code } => {
            lemma_task_step_wf(s, name, TaskStep::Exited(code as int));
        },
    }
}

/// Any number of reports keeps the invariant.
pub proof fn lemma_signals_wf(s: AppView, sigs: Seq<TaskSignalView>)
    requires
        s.wf(),
    ensures
        s.signals(sigs).wf(),
        s.signals(sigs).pending == s.pending,
        s.signals(sigs).follower == s.follower,
    decreases sigs.len(),
{
    if sigs.len() > 0 {
        lemma_signals_wf(s, sigs.drop_last());
        lemma_signal_wf(s.signals(sigs.drop_last()), sigs.last());
    }
}

/// A drain keeps the invariant.
pub proof fn lemma_pump_wf(
    s: AppView,
    id: Seq<char>,
    lines: Seq<Seq<char>>,
    sigs: Seq<TaskSignalView>,
)
    requires
        s.wf(),
    ensures
        s.pump(id, lines, sigs).wf(),
{
    lemma_signals_wf(s.follower_lines(id, lines), sigs);
}

/// What follows a snapshot keeps the invariant.
#[verifier::rlimit(50)]
pub proof fn lemma_after_fetch_wf(
    s: AppView,
    result: Option<SnapshotView>,
    reselect: bool,
    startup: bool,
)
    requires
        s.wf(),
        s.pending is Idle,
    ensures
        s.after_fetch(result, reselect, startup).app.wf(),
{
    let r = s.with_snapshot(result).rebuild();
    lemma_rebuild_wf(s.with_snapshot(result));
    lemma_select_wf(r, 0);
    lemma_select_wf(r, r.selected);
}

/// A restart keeps the invariant.
pub proof fn lemma_run_task_wf(s: AppView, name: Seq<char>)
    requires
        s.wf(),
        s.pending is Idle,
    ensures
        s.run_task(name).app.wf(),
{
    lemma_task_step_wf(s, name, TaskStep::Restart);
}

/// A stop keeps the invariant and leaves the controller as idle as it was.
pub proof fn lemma_stop_task_wf(s: AppView, name: Seq<char>)
    requires
        s.wf(),
    ensures
        s.stop_task(name).app.wf(),
        s.stop_task(name).app.pending == s.pending,
        s.stop_task(name).app.follower == s.follower,
{
    lemma_task_step_wf(s, name, TaskStep::Stop);
}

/// A key in a dialog keeps the invariant.
#[verifier::rlimit(50)]
pub proof fn lemma_popup_key_wf(s: AppView, popup: PopupView, code: KeyCode)
    requires
        s.wf(),
        s.pending is Idle,
    ensures
        s.popup_key(popup, code).app.wf(),
{
}

/// A navigation key keeps the invariant.
pub proof fn lemma_navigate_wf(s: AppView, code: KeyCode)
    requires
        s.wf(),
        s.pending is Idle,
    ensures
        s.navigate(code).app.wf(),
{
    lemma_select_wf(s, s.selected);
}

/// A restart key on a task row keeps the invariant.
pub proof fn lemma_restart_selected_wf(s: AppView, name: Seq<char>)
    requires
        s.wf(),
        s.pending is Idle,
    ensures
        s.restart_selected_task(name).app.wf(),
{
    lemma_run_task_wf(s, name);
    let r = s.rebuild();
    lemma_rebuild_wf(s);
    lemma_select_wf(r, r.selected);
}

/// A stop key on a task row keeps the invariant.
pub proof fn lemma_stop_selected_wf(s: AppView, name: Seq<char>)
    requires
        s.wf(),
        s.pending is Idle,
    ensures
        s.stop_selected_task(name).app.wf(),
{
    lemma_stop_task_wf(s, name);
    let st = s.stop_task(name);
    lemma_rebuild_wf(st.app);
    let r = st.app.rebuild();
    lemma_select_wf(r, r.selected);
}

/// A letter key keeps the invariant.
#[verifier::rlimit(50)]
pub proof fn lemma_action_wf(s: AppView, c: char)
    requires
        s.wf(),
        s.pending is Idle,
    ensures
        s.action(c).app.wf(),
{
    match s.current_item() {
        Some(item) => {
            lemma_restart_selected_wf(s, item.id);
            lemma_stop_selected_wf(s, item.id);
        },
        None => {},
    }
}

/// A mouse event keeps the invariant.
#[verifier::rlimit(50)]
pub proof fn lemma_mouse_wf(s: AppView, kind: MouseKind, column: u16, row: u16)
    requires
        s.wf(),
        s.pending is Idle,
    ensures
        s.mouse(kind, column, row).app.wf(),
{
    let focused = AppView { focus_on_list: true, ..s };
    let index = s.list_offset + (row - s.list_area.y - 1);
    if index >= 0 {
        lemma_select_wf(focused, index);
    }
}

/// An input event keeps the invariant.
#[verifier::rlimit(50)]
pub proof fn lemma_handle_event_wf(s: AppView, ev: Event)
    requires
        s.wf(),
    ensures
        s.handle_event(ev).app.wf(),
{
    if s.pending is Idle {
        match ev {
            Event::Key { code, ctrl } => {
                match s.popup {
                    Some(popup) => {
                        lemma_popup_key_wf(s, popup, code);
                    },
                    None => {
                        match code {
                            KeyCode::Char(c) => {
                                lemma_action_wf(s, c);
                            },
                            _ => {
                                lemma_navigate_wf(s, code);
                            },
                        }
                    },
                }
            },
            Event::Mouse { kind, column, row } => {
                lemma_mouse_wf(s, kind, column, row);
            },
            Event::Other => {},
        }
    }
}

/// The answer to a request for a task's process keeps the invariant.
#[verifier::rlimit(50)]
pub proof fn lemma_answer_task_wf(s: AppView, name: Seq<char>, reply: ReplyView)
    requires
        s.wf(),
        s.pending is Idle,
    ensures
        s.answer_task(name, reply).app.wf(),
{
    lemma_task_step_wf(s, name, TaskStep::Started);
    lemma_task_step_wf(s, name, TaskStep::SpawnFailed(Seq::empty()));
    match reply {
        ReplyView::SpawnFailed { reason } => {
            lemma_task_step_wf(s, name, TaskStep::SpawnFailed(reason));
        },
        _ => {},
    }
    let t = match reply {
        ReplyView::Started => s.task_step(name, TaskStep::Started),
        ReplyView::SpawnFailed { reason } => s.task_step(name, TaskStep::SpawnFailed(reason)),
        _ => s.task_step(name, TaskStep::SpawnFailed(Seq::empty())),
    };
    lemma_rebuild_wf(t.sync_visible(name));
    let r = t.sync_visible(name).rebuild();
    lemma_select_wf(r, r.selected);
}

/// An answer from the host keeps the invariant.
#[verifier::rlimit(50)]
pub proof fn lemma_resume_wf(s: AppView, reply: ReplyView)
    requires
        s.wf(),
    ensures
        s.resume(reply).app.wf(),
{
    let i = s.idle();
    match s.pending {
        PendingView::Task { name } => {
            lemma_answer_task_wf(i, name, reply);
        },
        PendingView::Fetch { reselect, startup } => {
            match reply {
                ReplyView::Snapshot { containers } => {
                    lemma_after_fetch_wf(i, containers, reselect, startup);
                },
                _ => {
                    lemma_after_fetch_wf(i, None, reselect, startup);
                },
            }
        },
        _ => {},
    }
}

/// The runtime records made for a task list obey the task invariant, share
/// the capacity, and no two of them share a name.
pub proof fn lemma_runtimes_wf(specs: Seq<TaskSpecView>, cap: nat)
    ensures
        forall|i: int|
            0 <= i < runtimes(specs, cap).len() ==> (#[trigger] runtimes(specs, cap)[i]).inv()
                && runtimes(specs, cap)[i].cap == cap,
        distinct_names(runtimes(specs, cap)),
    decreases specs.len(),
{
    if specs.len() > 0 {
        let rest = runtimes(specs.drop_last(), cap);
        lemma_runtimes_wf(specs.drop_last(), cap);
        let t = fresh_task(specs.last(), cap);
        lemma_position_found(rest, t.spec.name);
        let all = runtimes(specs, cap);
        assert forall|i: int| 0 <= i < all.len() implies (#[trigger] all[i]).inv() && all[i].cap
            == cap by {
            match position(rest, t.spec.name) {
                Some(k) => {
                    if i != k {
                        assert(all[i] == rest[i]);
                    }
                },
                None => {
                    if i < rest.len() {
                        assert(all[i] == rest[i]);
                    }
                },
            }
        }
        assert forall|a: int, b: int| 0 <= a < b < all.len() implies (#[trigger] all[a]).spec.name
            != (#[trigger] all[b]).spec.name by {
            match position(rest, t.spec.name) {
                Some(k) => {
                    assert(all[a].spec.name == rest[a].spec.name);
                    assert(all[b].spec.name == rest[b].spec.name);
                },
                None => {
                    if b < rest.len() {
                        assert(all[a] == rest[a]);
                        assert(all[b] == rest[b]);
                    } else {
                        assert(all[a] == rest[a]);
                    }
                },
            }
        }
    }
}

/// The controller starts in a state that obeys its invariant.
pub proof fn lemma_initial_wf(cfg: ConfigView, docker: DockerMetaView)
    ensures
        initial(cfg, docker).wf(),
        initial(cfg, docker).pending is Idle,
        initial(cfg, docker).live_followers() == 0,
{
    lemma_runtimes_wf(cfg.post_up_tasks, cfg.max_log_lines);
}

/// The number of follower processes that may be alive once the host has
/// carried out `cmds`, if `n` may have been alive before: a kill ends the
/// follower, a spawn may add one.
pub open spec fn followers_after(n: nat, cmds: Seq<CommandView>) -> nat
    decreases cmds.len(),
{
    if cmds.len() == 0 {
        n
    } else {
        let before = followers_after(n, cmds.drop_last());
        match cmds.last() {
            CommandView::KillFollower => 0,
            CommandView::SpawnFollower { .. } => before + 1,
            _ => before,
        }
    }
}

/// While the host carries out `cmds`, there are never two followers.
pub open spec fn never_two_followers(n: nat, cmds: Seq<CommandView>) -> bool {
    forall|k: int| 0 <= k <= cmds.len() ==> #[trigger] followers_after(n, cmds.take(k)) <= 1
}

/// None of `cmds` starts or ends a follower.
pub open spec fn leaves_follower_alone(cmds: Seq<CommandView>) -> bool {
    forall|k: int|
        0 <= k < cmds.len() ==> !((#[trigger] cmds[k]) is KillFollower) && !(cmds[k]
            is SpawnFollower)
}

/// Commands that leave the follower alone do not change how many there are.
pub proof fn lemma_followers_untouched(n: nat, cmds: Seq<CommandView>)
    requires
        leaves_follower_alone(cmds),
    ensures
        followers_after(n, cmds) == n,
        n <= 1 ==> never_two_followers(n, cmds),
    decreases cmds.len(),
{
    if cmds.len() > 0 {
        assert(cmds.last() == cmds[cmds.len() - 1]);
        assert forall|k: int| 0 <= k < cmds.drop_last().len() implies !((
        #[trigger] cmds.drop_last()[k]) is KillFollower) && !(cmds.drop_last()[k]
            is SpawnFollower) by {
            assert(cmds.drop_last()[k] == cmds[k]);
        }
        lemma_followers_untouched(n, cmds.drop_last());
    }
    if n <= 1 {
        assert forall|k: int| 0 <= k <= cmds.len() implies #[trigger] followers_after(
            n,
            cmds.take(k),
        ) <= 1 by {
            assert forall|j: int| 0 <= j < cmds.take(k).len() implies !((
            #[trigger] cmds.take(k)[j]) is KillFollower) && !(cmds.take(k)[j]
                is SpawnFollower) by {
                assert(cmds.take(k)[j] == cmds[j]);
            }
            lemma_followers_untouched_count(n, cmds.take(k));
        }
    }
}

proof fn lemma_followers_untouched_count(n: nat, cmds: Seq<CommandView>)
    requires
        leaves_follower_alone(cmds),
    ensures
        followers_after(n, cmds) == n,
    decreases cmds.len(),
{
    if cmds.len() > 0 {
        assert(cmds.last() == cmds[cmds.len() - 1]);
        assert forall|k: int| 0 <= k < cmds.drop_last().len() implies !((
        #[trigger] cmds.drop_last()[k]) is KillFollower) && !(cmds.drop_last()[k]
            is SpawnFollower) by {
            assert(cmds.drop_last()[k] == cmds[k]);
        }
        lemma_followers_untouched_count(n, cmds.drop_last());
    }
}

/// Carrying out `a` and then `b` is carrying out `a + b`.
pub proof fn lemma_followers_concat(n: nat, a: Seq<CommandView>, b: Seq<CommandView>)
    ensures
        followers_after(n, a + b) == followers_after(followers_after(n, a), b),
        never_two_followers(n, a) && never_two_followers(followers_after(n, a), b)
            ==> never_two_followers(n, a + b),
    decreases b.len(),
{
    lemma_followers_concat_count(n, a, b);
    if never_two_followers(n, a) && never_two_followers(followers_after(n, a), b) {
        assert forall|k: int| 0 <= k <= (a + b).len() implies #[trigger] followers_after(
            n,
            (a + b).take(k),
        ) <= 1 by {
            if k <= a.len() {
                assert((a + b).take(k) =~= a.take(k));
            } else {
                assert((a + b).take(k) =~= a + b.take(k - a.len()));
                lemma_followers_concat_count(n, a, b.take(k - a.len()));
            }
        }
    }
}

proof fn lemma_followers_concat_count(n: nat, a: Seq<CommandView>, b: Seq<CommandView>)
    ensures
        followers_after(n, a + b) == followers_after(followers_after(n, a), b),
    decreases b.len(),
{
    if b.len() == 0 {
        assert(a + b =~= a);
    } else {
        assert((a + b).drop_last() =~= a + b.drop_last());
        assert((a + b).last() == b.last());
        lemma_followers_concat_count(n, a, b.drop_last());
    }
}

/// A switch-over never lets two followers live: the old one is killed before
/// the new one is asked for, and afterwards exactly the followers the state
/// speaks of may be alive.
#[verifier::rlimit(50)]
pub proof fn lemma_select_single_follower(s: AppView, idx: int)
    requires
        s.wf(),
        s.pending is Idle,
        0 <= idx,
    ensures
        never_two_followers(s.live_followers(), s.select(idx).commands),
        followers_after(s.live_followers(), s.select(idx).commands) == s.select(
            idx,
        ).app.live_followers(),
        s.select(idx).app.live_followers() <= 1,
{
    let cmds = s.select(idx).commands;
    let n = s.live_followers();
    let kill = s.kill_follower();
    assert(followers_after(n, Seq::<CommandView>::empty()) == n);
    assert(kill.len() == 1 ==> kill.drop_last() =~= Seq::<CommandView>::empty());
    assert(followers_after(n, kill) == 0);
    if cmds.len() > kill.len() {
        assert(cmds.drop_last() =~= kill);
    }
    assert forall|k: int| 0 <= k <= cmds.len() implies #[trigger] followers_after(
        n,
        cmds.take(k),
    ) <= 1 by {
        if k == 0 {
            assert(cmds.take(0) =~= Seq::<CommandView>::empty());
        } else if k == cmds.len() {
            assert(cmds.take(k) =~= cmds);
        } else {
            assert(cmds.take(k) =~= kill);
        }
    }
}

/// An input event never lets two followers live, and a quit leaves none.
#[verifier::rlimit(50)]
pub proof fn lemma_handle_event_single_follower(s: AppView, ev: Event)
    requires
        s.wf(),
    ensures
        never_two_followers(s.live_followers(), s.handle_event(ev).commands),
        followers_after(s.live_followers(), s.handle_event(ev).commands) == s.handle_event(
            ev,
        ).app.live_followers(),
        s.handle_event(ev).quit ==> s.handle_event(ev).app.live_followers() == 0,
{
    let st = s.handle_event(ev);
    let n = s.live_followers();
    if !(s.pending is Idle) {
        lemma_followers_untouched(n, st.commands);
    } else {
        match ev {
            Event::Key { code, ctrl } => {
                if (code == KeyCode::Char('c') && ctrl) || code == KeyCode::Char('q') {
                    let kill = s.kill_follower();
                    assert(followers_after(n, Seq::<CommandView>::empty()) == n);
                    assert(kill.len() == 1 ==> kill.drop_last() =~= Seq::<CommandView>::empty());
                    assert forall|k: int| 0 <= k <= kill.len() implies #[trigger] followers_after(
                        n,
                        kill.take(k),
                    ) <= 1 by {
                        if k == 0 {
                            assert(kill.take(0) =~= Seq::<CommandView>::empty());
                        } else {
                            assert(kill.take(k) =~= kill);
                        }
                    }
                } else {
                    match s.popup {
                        Some(popup) => {
                            lemma_followers_untouched(n, st.commands);
                        },
                        None => match code {
                            KeyCode::Tab => {
                                lemma_followers_untouched(n, st.commands);
                            },
                            KeyCode::Char(c) => {
                                lemma_action_single_follower(s, c);
                            },
                            _ => {
                                if s.focus_on_list && code == KeyCode::Enter {
                                    lemma_select_single_follower(s, s.selected);
                                } else {
                                    lemma_followers_untouched(n, st.commands);
                                }
                            },
                        },
                    }
                }
            },
            Event::Mouse { kind, column, row } => {
                let focused = AppView { focus_on_list: true, ..s };
                let index = s.list_offset + (row - s.list_area.y - 1);
                if kind == MouseKind::LeftDown && s.in_list(column, row) && row > s.list_area.y
                    && row < s.list_area.y + s.list_area.height - 1 && index < s.items.len() {
                    lemma_select_single_follower(focused, index);
                } else {
                    lemma_followers_untouched(n, st.commands);
                }
            },
            Event::Other => {
                lemma_followers_untouched(n, st.commands);
            },
        }
    }
}

/// A letter key never lets two followers live.
#[verifier::rlimit(50)]
pub proof fn lemma_action_single_follower(s: AppView, c: char)
    requires
        s.wf(),
        s.pending is Idle,
    ensures
        never_two_followers(s.live_followers(), s.action(c).commands),
        followers_after(s.live_followers(), s.action(c).commands) == s.action(
            c,
        ).app.live_followers(),
{
    let st = s.action(c);
    let n = s.live_followers();
    match s.current_item() {
        Some(item) => {
            if item.kind == Kind::Task && (c == 'r' || c == 't') && c != 'o' && c != 'c' {
                match position(s.tasks, item.id) {
                    Some(_) => {
                        lemma_followers_untouched(n, st.commands);
                    },
                    None => {
                        let r = s.rebuild();
                        lemma_rebuild_wf(s);
                        lemma_select_single_follower(r, r.selected);
                    },
                }
            } else if item.kind == Kind::Task && c == 's' {
                let stop = s.stop_task(item.id);
                lemma_stop_task_wf(s, item.id);
                lemma_rebuild_wf(stop.app);
                let r = stop.app.rebuild();
                lemma_followers_untouched(n, stop.commands);
                lemma_select_single_follower(r, r.selected);
                lemma_followers_concat(n, stop.commands, r.select(r.selected).commands);
            } else {
                lemma_followers_untouched(n, st.commands);
            }
        },
        None => {
            lemma_followers_untouched(n, st.commands);
        },
    }
}

/// The followers that may be alive once the host has answered: the one that
/// was asked for is not if the answer says that it did not start.
pub open spec fn followers_settled(s: AppView, reply: ReplyView) -> nat {
    if s.pending is Follower && !(reply is Started) {
        (s.live_followers() - 1) as nat
    } else {
        s.live_followers()
    }
}

/// An answer from the host never lets two followers live.
#[verifier::rlimit(50)]
pub proof fn lemma_resume_single_follower(s: AppView, reply: ReplyView)
    requires
        s.wf(),
    ensures
        never_two_followers(followers_settled(s, reply), s.resume(reply).commands),
        followers_after(followers_settled(s, reply), s.resume(reply).commands) == s.resume(
            reply,
        ).app.live_followers(),
{
    let st = s.resume(reply);
    let n = followers_settled(s, reply);
    let i = s.idle();
    match s.pending {
        PendingView::Task { name } => {
            lemma_answer_task_wf(i, name, reply);
            lemma_task_step_wf(i, name, TaskStep::Started);
            lemma_task_step_wf(i, name, TaskStep::SpawnFailed(Seq::empty()));
            match reply {
                ReplyView::SpawnFailed { reason } => {
                    lemma_task_step_wf(i, name, TaskStep::SpawnFailed(reason));
                },
                _ => {},
            }
            let t = match reply {
                ReplyView::Started => i.task_step(name, TaskStep::Started),
                ReplyView::SpawnFailed { reason } => i.task_step(name, TaskStep::SpawnFailed(reason)),
                _ => i.task_step(name, TaskStep::SpawnFailed(Seq::empty())),
            };
            lemma_rebuild_wf(t.sync_visible(name));
            let r = t.sync_visible(name).rebuild();
            lemma_select_single_follower(r, r.selected);
        },
        PendingView::Fetch { reselect, startup } => {
            let result = match reply {
                ReplyView::Snapshot { containers } => containers,
                _ => None,
            };
            lemma_rebuild_wf(i.with_snapshot(result));
            let r = i.with_snapshot(result).rebuild();
            if startup {
                lemma_select_single_follower(r, 0);
            } else if reselect {
                lemma_select_single_follower(r, r.selected);
            } else {
                lemma_followers_untouched(n, st.commands);
            }
        },
        _ => {
            lemma_followers_untouched(n, st.commands);
        },
    }
}

/// The start of the dashboard and a timer tick leave the follower alone.
pub proof fn lemma_start_and_tick_leave_follower(s: AppView)
    requires
        s.wf(),
    ensures
        leaves_follower_alone(s.start().commands),
        leaves_follower_alone(s.tick().commands),
        s.start().app.live_followers() == s.live_followers(),
        s.tick().app.live_followers() == s.live_followers(),
{
}

/// A tick while a fetch is in flight is skipped: nothing is asked of the
/// host and the state stays as it is.
pub proof fn lemma_tick_single_flight(s: AppView)
    ensures
        s.refreshing ==> s.tick() == quiet(s),
        s.tick().commands.len() > 0 ==> s.tick().app.refreshing && !s.refreshing,
        s.tick().app.refreshing == (s.refreshing || s.may_refresh()),
{
}

/// Reports reach the tasks' histories in the same way whatever is shown:
/// two states with the same task records have the same task records after
/// the same reports.
pub proof fn lemma_signals_ignore_view(a: AppView, b: AppView, sigs: Seq<TaskSignalView>)
    requires
        a.tasks == b.tasks,
    ensures
        a.signals(sigs).tasks == b.signals(sigs).tasks,
    decreases sigs.len(),
{
    if sigs.len() > 0 {
        lemma_signals_ignore_view(a, b, sigs.drop_last());
    }
}

/// Switching away from a task and back loses nothing: when task row `back`
/// is selected after a drain, the visible log is the task's stored history,
/// and that history is what it would be had the task been shown all along.
#[verifier::rlimit(50)]
pub proof fn lemma_history_survives_switch(
    shown: AppView,
    hidden: AppView,
    id: Seq<char>,
    lines: Seq<Seq<char>>,
    sigs: Seq<TaskSignalView>,
    back: int,
)
    requires
        shown.wf(),
        hidden.wf(),
        hidden.pending is Idle,
        shown.tasks == hidden.tasks,
        0 <= back < hidden.items.len(),
        hidden.items[back].kind == Kind::Task,
    ensures
        ({
            let name = hidden.items[back].id;
            let drained = hidden.pump(id, lines, sigs);
            let returned = drained.select(back).app;
            &&& drained.items == hidden.items
            &&& returned.shows_task(name)
            &&& returned.log == drained.history_of(name)
            &&& drained.history_of(name) == shown.pump(id, lines, sigs).history_of(name)
            &&& returned.tasks == drained.tasks
        }),
{
    let name = hidden.items[back].id;
    let drained = hidden.pump(id, lines, sigs);
    lemma_signals_ignore_view(
        hidden.follower_lines(id, lines),
        shown.follower_lines(id, lines),
        sigs,
    );
    lemma_signals_keep_rows(hidden.follower_lines(id, lines), sigs);
    lemma_pump_wf(hidden, id, lines, sigs);
    lemma_position_found(drained.tasks, name);
}

/// Reports change neither the rows nor what the controller waits for.
pub proof fn lemma_signals_keep_rows(s: AppView, sigs: Seq<TaskSignalView>)
    ensures
        s.signals(sigs).items == s.items,
        s.signals(sigs).cfg == s.cfg,
        s.signals(sigs).log_cap == s.log_cap,
        s.signals(sigs).current_target == s.current_target,
    decreases sigs.len(),
{
    if sigs.len() > 0 {
        lemma_signals_keep_rows(s, sigs.drop_last());
    }
}

/// While a task is shown, the visible log mirrors its stored history: if
/// they agree before a report, they agree after it.
pub proof fn lemma_visible_mirrors_history(s: AppView, shown: Seq<char>, sig: TaskSignalView)
    requires
        s.wf(),
        s.shows_task(shown),
        position(s.tasks, shown) is Some,
        s.log == s.history_of(shown),
    ensures
        s.signal(sig).log == s.signal(sig).history_of(shown),
        s.signal(sig).shows_task(shown),
        position(s.signal(sig).tasks, shown) is Some,
{
    let name = match sig {
        TaskSignalView::Line { name, .. } => name,
        TaskSignalView::Exited { name, .. } => name,
    };
    lemma_position_found(s.tasks, name);
    lemma_position_found(s.tasks, shown);
    match sig {
        TaskSignalView::Line { name, line } => {
            lemma_task_step_wf(s, name, TaskStep::Line(line));
        },
        TaskSignalView::Exited { name, code } => {
            lemma_task_step_wf(s, name, TaskStep::Exited(code as int));
        },
    }
    let after = s.signal(sig);
    lemma_position_found(after.tasks, shown);
}

/// The visible log never mixes two targets: a report from a task changes it
/// only if that task is shown, and the lines of a follower change it only if
/// that follower is the live one, which is the follower of the container
/// that is shown.
pub proof fn lemma_no_mixing(
    s: AppView,
    sig: TaskSignalView,
    id: Seq<char>,
    lines: Seq<Seq<char>>,
)
    requires
        s.wf(),
    ensures
        s.signal(sig).log != s.log ==> s.shows_task(
            match sig {
                TaskSignalView::Line { name, .. } => name,
                TaskSignalView::Exited { name, .. } => name,
            },
        ),
        s.follower_lines(id, lines).log != s.log ==> s.follower == Some(id) && s.shows_container(
            id,
        ),
        s.signal(sig).current_target == s.current_target,
        s.follower_lines(id, lines).current_target == s.current_target,
{
}

/// Only the operator ends the dashboard: an event asks to quit exactly when
/// it is `q` or `Ctrl-c` and the controller waits for nothing; a timer tick,
/// the start and an answer from the host never do.
pub proof fn lemma_quit_only_on_request(s: AppView, ev: Event, reply: ReplyView)
    ensures
        s.handle_event(ev).quit <==> (s.pending is Idle && (ev matches Event::Key { code, ctrl }
            && ((code == KeyCode::Char('c') && ctrl) || code == KeyCode::Char('q')))),
        !s.tick().quit,
        !s.start().quit,
        !s.resume(reply).quit,
{
}

/// A task's status changes to `Fail` or `Okay` only when its process
/// reports the matching exit; no other report, and no report for another
/// task, does it.
pub proof fn lemma_signal_status_causes(s: AppView, sig: TaskSignalView, i: int)
    requires
        s.wf(),
        0 <= i < s.tasks.len(),
    ensures
        s.signal(sig).tasks.len() == s.tasks.len(),
        s.signal(sig).tasks[i].status == TaskStatus::Fail && s.tasks[i].status
            != TaskStatus::Fail ==> (sig matches TaskSignalView::Exited { name, code } && name
            == s.tasks[i].spec.name && code != 0),
        s.signal(sig).tasks[i].status == TaskStatus::Okay && s.tasks[i].status
            != TaskStatus::Okay ==> (sig matches TaskSignalView::Exited { name, code } && name
            == s.tasks[i].spec.name && code == 0),
        s.signal(sig).tasks[i].status == TaskStatus::Run ==> s.tasks[i].status == TaskStatus::Run,
{
    let name = match sig {
        TaskSignalView::Line { name, .. } => name,
        TaskSignalView::Exited { name, .. } => name,
    };
    lemma_position_found(s.tasks, name);
    match sig {
        TaskSignalView::Line { name, line } => {
            lemma_task_step_wf(s, name, TaskStep::Line(line));
        },
        TaskSignalView::Exited { name, code } => {
            lemma_task_step_wf(s, name, TaskStep::Exited(code as int));
        },
    }
}

/// In a state that obeys the invariant no buffer holds more lines than the
/// configured maximum: not the visible log, and no task's history.
pub proof fn lemma_buffers_bounded(s: AppView)
    requires
        s.wf(),
    ensures
        s.log.len() <= s.cfg.max_log_lines,
        forall|i: int|
            0 <= i < s.tasks.len() ==> (#[trigger] s.tasks[i]).lines.len() <= s.cfg.max_log_lines,
{
    assert forall|i: int| 0 <= i < s.tasks.len() implies (#[trigger] s.tasks[i]).lines.len()
        <= s.cfg.max_log_lines by {
        assert(s.tasks[i].inv());
    }
}

/// A step of one task that is neither an exit nor a start leaves every task
/// that was not in `Fail`, `Okay` or `Run` out of those states.
pub proof fn lemma_task_step_never_judges(s: AppView, name: Seq<char>, step: TaskStep, i: int)
    requires
        s.wf(),
        0 <= i < s.tasks.len(),
        !(step is Exited),
    ensures
        s.task_step(name, step).tasks.len() == s.tasks.len(),
        s.task_step(name, step).tasks[i].status == TaskStatus::Fail ==> s.tasks[i].status
            == TaskStatus::Fail,
        s.task_step(name, step).tasks[i].status == TaskStatus::Okay ==> s.tasks[i].status
            == TaskStatus::Okay,
        s.task_step(name, step).tasks[i].status == TaskStatus::Run && s.tasks[i].status
            != TaskStatus::Run ==> step is Started && s.tasks[i].status == TaskStatus::Pending,
{
    lemma_position_found(s.tasks, name);
}

/// A key in a dialog, a navigation key and a mouse event leave the tasks
/// alone.
#[verifier::rlimit(50)]
pub proof fn lemma_tasks_untouched(s: AppView, popup: PopupView, code: KeyCode, kind: MouseKind, column: u16, row: u16)
    ensures
        s.popup_key(popup, code).app.tasks == s.tasks,
        s.navigate(code).app.tasks == s.tasks,
        s.mouse(kind, column, row).app.tasks == s.tasks,
{
}

/// A letter key changes the tasks only by restarting or stopping the task
/// under the cursor.
#[verifier::rlimit(50)]
pub proof fn lemma_action_tasks(s: AppView, c: char)
    ensures
        s.action(c).app.tasks == s.tasks || (s.current_item() matches Some(item) && (s.action(
            c,
        ).app.tasks == s.task_step(item.id, TaskStep::Restart).tasks || s.action(c).app.tasks
            == s.task_step(item.id, TaskStep::Stop).tasks)),
{
}

/// No input event makes a task fail or succeed, and none puts a task in
/// `Run`: an event can only stop a task or send it back to `Pending`.
#[verifier::rlimit(50)]
pub proof fn lemma_event_never_judges(s: AppView, ev: Event, i: int)
    requires
        s.wf(),
        0 <= i < s.tasks.len(),
    ensures
        s.handle_event(ev).app.tasks.len() == s.tasks.len(),
        s.handle_event(ev).app.tasks[i].status == TaskStatus::Fail ==> s.tasks[i].status
            == TaskStatus::Fail,
        s.handle_event(ev).app.tasks[i].status == TaskStatus::Okay ==> s.tasks[i].status
            == TaskStatus::Okay,
        s.handle_event(ev).app.tasks[i].status == TaskStatus::Run ==> s.tasks[i].status
            == TaskStatus::Run,
{
    let post = s.handle_event(ev).app.tasks;
    if s.pending is Idle {
        match ev {
            Event::Key { code, ctrl } => {
                if (code == KeyCode::Char('c') && ctrl) || code == KeyCode::Char('q') {
                } else {
                    match s.popup {
                        Some(popup) => {
                            lemma_tasks_untouched(s, popup, code, MouseKind::Other, 0, 0);
                        },
                        None => match code {
                            KeyCode::Tab => {},
                            KeyCode::Char(c) => {
                                lemma_action_tasks(s, c);
                                match s.current_item() {
                                    Some(item) => {
                                        lemma_task_step_never_judges(
                                            s,
                                            item.id,
                                            TaskStep::Restart,
                                            i,
                                        );
                                        lemma_task_step_never_judges(s, item.id, TaskStep::Stop, i);
                                    },
                                    None => {},
                                }
                            },
                            _ => {
                                lemma_tasks_untouched(
                                    s,
                                    PopupView::ConfirmComposeRestart { infra_running: false },
                                    code,
                                    MouseKind::Other,
                                    0,
                                    0,
                                );
                            },
                        },
                    }
                }
            },
            Event::Mouse { kind, column, row } => {
                lemma_tasks_untouched(
                    s,
                    PopupView::ConfirmComposeRestart { infra_running: false },
                    KeyCode::Other,
                    kind,
                    column,
                    row,
                );
            },
            Event::Other => {},
        }
    }
}

/// An answer from the host changes the tasks only when a task's process
/// was asked for, and then only by the step the answer stands for.
#[verifier::rlimit(50)]
pub proof fn lemma_resume_tasks(s: AppView, reply: ReplyView)
    ensures
        !(s.pending is Task) ==> s.resume(reply).app.tasks == s.tasks,
        s.pending matches PendingView::Task { name } ==> s.resume(reply).app.tasks == (match reply {
            ReplyView::Started => s.task_step(name, TaskStep::Started),
            ReplyView::SpawnFailed { reason } => s.task_step(name, TaskStep::SpawnFailed(reason)),
            _ => s.task_step(name, TaskStep::SpawnFailed(Seq::empty())),
        }).tasks,
{
}

/// No answer from the host makes a task fail or succeed; a task enters
/// `Run` only from `Pending`, on the answer that its process has started.
#[verifier::rlimit(50)]
pub proof fn lemma_resume_never_judges(s: AppView, reply: ReplyView, i: int)
    requires
        s.wf(),
        0 <= i < s.tasks.len(),
    ensures
        s.resume(reply).app.tasks.len() == s.tasks.len(),
        s.resume(reply).app.tasks[i].status == TaskStatus::Fail ==> s.tasks[i].status
            == TaskStatus::Fail,
        s.resume(reply).app.tasks[i].status == TaskStatus::Okay ==> s.tasks[i].status
            == TaskStatus::Okay,
        s.resume(reply).app.tasks[i].status == TaskStatus::Run && s.tasks[i].status
            != TaskStatus::Run ==> s.pending is Task && reply is Started && s.tasks[i].status
            == TaskStatus::Pending,
{
    lemma_resume_tasks(s, reply);
    match s.pending {
        PendingView::Task { name } => {
            let step = match reply {
                ReplyView::Started => TaskStep::Started,
                ReplyView::SpawnFailed { reason } => TaskStep::SpawnFailed(reason),
                _ => TaskStep::SpawnFailed(Seq::empty()),
            };
            lemma_task_step_never_judges(s, name, step, i);
        },
        _ => {},
    }
}

/// A line from a running task reaches its history whether or not the task
/// is shown: the history grows by that line, oldest lines evicted.
pub proof fn lemma_line_reaches_history(s: AppView, name: Seq<char>, line: Seq<char>)
    requires
        s.wf(),
        position(s.tasks, name) matches Some(i) && s.tasks[i].phase == Phase::Running,
    ensures
        s.signal(TaskSignalView::Line { name, line }).history_of(name) == keep_last(
            s.history_of(name).push(history_line(name, line)),
            s.cap(),
        ),
{
    lemma_position_found(s.tasks, name);
    lemma_task_step_wf(s, name, TaskStep::Line(line));
}

/// A timer tick, the start, the arrival of a background fetch's result and
/// a report from the renderer keep the invariant.
pub proof fn lemma_small_steps_wf(
    s: AppView,
    result: Option<SnapshotView>,
    list_area: Area,
    list_offset: int,
    log_height: u16,
)
    requires
        s.wf(),
        0 <= list_offset,
    ensures
        s.tick().app.wf(),
        s.start().app.wf(),
        s.refresh_done(result).wf(),
        s.layout(list_area, list_offset, log_height).wf(),
{
    lemma_rebuild_wf(AppView { refreshing: false, ..s }.with_snapshot(result));
    lemma_rebuild_wf(
        s.push_log(
            "Docker unavailable. Colima: colima start ; docker context use colima ; docker ps"@,
        ),
    );
}

/// Everything that can reach the controller from outside.
pub enum Input {
    /// The dashboard starts.
    Start,
    /// The refresh timer ticks.
    Tick,
    /// The operator does something.
    Event(Event),
    /// The host answers the command the controller waits on.
    Answer(ReplyView),
    /// A background fetch delivers its result.
    Refreshed(Option<SnapshotView>),
    /// The background channels were drained.
    Drained { id: Seq<char>, lines: Seq<Seq<char>>, sigs: Seq<TaskSignalView> },
    /// The renderer reports what it drew.
    Drawn { list_area: Area, list_offset: nat, log_height: u16 },
}

/// The step the controller takes on an input.
pub open spec fn step(s: AppView, input: Input) -> StepView {
    match input {
        Input::Start => s.start(),
        Input::Tick => s.tick(),
        Input::Event(ev) => s.handle_event(ev),
        Input::Answer(reply) => s.resume(reply),
        Input::Refreshed(result) => quiet(s.refresh_done(result)),
        Input::Drained { id, lines, sigs } => quiet(s.pump(id, lines, sigs)),
        Input::Drawn { list_area, list_offset, log_height } => quiet(
            s.layout(list_area, list_offset as int, log_height),
        ),
    }
}

/// The state after a run of inputs.
pub open spec fn after(s: AppView, inputs: Seq<Input>) -> AppView
    decreases inputs.len(),
{
    if inputs.len() == 0 {
        s
    } else {
        step(after(s, inputs.drop_last()), inputs.last()).app
    }
}

/// The followers that may be alive when the host starts on the commands of a
/// step: those of the state, less the one that an answer says did not start.
pub open spec fn followers_before(s: AppView, input: Input) -> nat {
    match input {
        Input::Answer(reply) => followers_settled(s, reply),
        _ => s.live_followers(),
    }
}

/// Whatever the input, a step keeps the invariant, and while the host
/// carries out its commands there are never two followers; afterwards
/// exactly the followers the new state speaks of may be alive.
#[verifier::rlimit(50)]
pub proof fn lemma_step_keeps_invariant(s: AppView, input: Input)
    requires
        s.wf(),
    ensures
        step(s, input).app.wf(),
        step(s, input).app.live_followers() <= 1,
        never_two_followers(followers_before(s, input), step(s, input).commands),
        followers_after(followers_before(s, input), step(s, input).commands) == step(
            s,
            input,
        ).app.live_followers(),
{
    let st = step(s, input);
    let n = followers_before(s, input);
    match input {
        Input::Start => {
            lemma_small_steps_wf(s, None, s.list_area, 0, 0);
            lemma_start_and_tick_leave_follower(s);
            lemma_followers_untouched(n, st.commands);
        },
        Input::Tick => {
            lemma_small_steps_wf(s, None, s.list_area, 0, 0);
            lemma_start_and_tick_leave_follower(s);
            lemma_followers_untouched(n, st.commands);
        },
        Input::Event(ev) => {
            lemma_handle_event_wf(s, ev);
            lemma_handle_event_single_follower(s, ev);
        },
        Input::Answer(reply) => {
            lemma_resume_wf(s, reply);
            lemma_resume_single_follower(s, reply);
        },
        Input::Refreshed(result) => {
            lemma_small_steps_wf(s, result, s.list_area, 0, 0);
            lemma_followers_untouched(n, st.commands);
        },
        Input::Drained { id, lines, sigs } => {
            lemma_pump_wf(s, id, lines, sigs);
            lemma_signals_wf(s.follower_lines(id, lines), sigs);
            lemma_followers_untouched(n, st.commands);
        },
        Input::Drawn { list_area, list_offset, log_height } => {
            lemma_small_steps_wf(s, None, list_area, list_offset as int, log_height);
            lemma_followers_untouched(n, st.commands);
        },
    }
}

/// Every run keeps the invariant: whatever happens, in whatever order, no
/// buffer exceeds its capacity and at most one follower may be alive.
pub proof fn lemma_run_keeps_invariant(s: AppView, inputs: Seq<Input>)
    requires
        s.wf(),
    ensures
        after(s, inputs).wf(),
        after(s, inputs).live_followers() <= 1,
        after(s, inputs).log.len() <= after(s, inputs).cfg.max_log_lines,
        forall|i: int|
            0 <= i < after(s, inputs).tasks.len() ==> (#[trigger] after(s, inputs).tasks[i]).lines.len()
                <= after(s, inputs).cfg.max_log_lines,
    decreases inputs.len(),
{
    if inputs.len() > 0 {
        lemma_run_keeps_invariant(s, inputs.drop_last());
        lemma_step_keeps_invariant(after(s, inputs.drop_last()), inputs.last());
    }
    lemma_buffers_bounded(after(s, inputs));
}

/// Every state the dashboard can reach from its start obeys the invariant.
pub proof fn lemma_reachable_states(cfg: ConfigView, docker: DockerMetaView, inputs: Seq<Input>)
    ensures
        after(initial(cfg, docker), inputs).wf(),
        after(initial(cfg, docker), inputs).live_followers() <= 1,
{
    lemma_initial_wf(cfg, docker);
    lemma_run_keeps_invariant(initial(cfg, docker), inputs);
}

} // verus!
