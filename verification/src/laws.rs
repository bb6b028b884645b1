//! Properties that span several operations of the library, stated over the
//! specifications that the operations' contracts use, and proved.
use vstd::prelude::*;
use crate::backend::{delay_for, external_fail_limit, health_next, port_plan_of, retry_delays};
use crate::controls::{
    decode_from, is_open, plugin_quiet_ms, shown_theme, theme_colors_of, theme_record, watch_due, with_open,
    Overlay, OverlayState,
};
use crate::downloads::{
    is_active, lemma_task_index, restored, spec_cancel, spec_finish, spec_offer_ask,
    spec_pause, spec_register, spec_remove, spec_retry, spec_take_pending, pause_each, st_canceled, st_done, st_downloading, task_index,
    unique_ids, task_index_from, has_dup, wf, DlView, TaskView,
};
use crate::environments::{
    activation_plan, collapse_seps, entry_in_use, profile_path, entry_index, lemma_entry_index_from, norm_path, path_under,
    profile_name_error,
};
use crate::settings::{ostr, versions_of, Settings, VersionEntryView};
use crate::paths::{has_drive, is_bare_drive, join_path};
use crate::text::{dec, digit, trim, zpad_signed};
use vstd::arithmetic::div_mod::{lemma_fundamental_div_mod_converse, lemma_mod_multiples_vanish};
use crate::util::{civil_from_days_spec, date_text, time_text, utc_text};

verus! {

// ───────────────────────────── downloads ─────────────────────────────

/// The list is newest first: ids strictly decrease down the list.
pub open spec fn newest_first(ts: Seq<TaskView>) -> bool {
    forall|a: int, b: int| 0 <= a < b < ts.len() ==> #[trigger] ts[a].id > #[trigger] ts[b].id
}

/// The same ids in the same places.
pub open spec fn same_ids(ts: Seq<TaskView>, us: Seq<TaskView>) -> bool {
    ts.len() == us.len() && forall|i: int| 0 <= i < ts.len() ==> #[trigger] us[i].id == ts[i].id
}

proof fn lemma_same_ids_keep(ts: Seq<TaskView>, us: Seq<TaskView>)
    requires
        newest_first(ts),
        same_ids(ts, us),
    ensures
        newest_first(us),
{
    assert forall|a: int, b: int| 0 <= a < b < us.len() implies #[trigger] us[a].id > #[trigger] us[b].id by {
        assert(us[a].id == ts[a].id && us[b].id == ts[b].id);
    }
}

/// A list that is newest first holds no id twice.
pub proof fn law_newest_first_unique(ts: Seq<TaskView>)
    requires
        newest_first(ts),
    ensures
        unique_ids(ts),
{
}

/// Pausing any number of transfers changes tasks only in place.
proof fn lemma_pause_each_ids(m: DlView, ids: Seq<u64>)
    ensures
        same_ids(m.tasks, pause_each(m, ids).tasks),
    decreases ids.len(),
{
    if ids.len() > 0 {
        lemma_pause_each_ids(m, ids.drop_last());
        let m1 = pause_each(m, ids.drop_last());
        lemma_task_index(m1.tasks, ids.last());
        assert(same_ids(m1.tasks, spec_pause(m1, ids.last(), true).0.tasks));
    }
}

/// The download list stays newest first through every change: a new transfer
/// goes in front with an id above every other, a removal takes one task out,
/// and cancelling, pausing, resuming, retrying and finishing change a task in
/// its place.
pub proof fn law_newest_first_kept(
    m: DlView,
    id: u64,
    on: bool,
    ids: Seq<u64>,
    url: Seq<char>,
    file: Seq<char>,
    name: Seq<char>,
    ok: bool,
    bytes: u64,
    total: u64,
    err: Seq<char>,
)
    requires
        wf(m),
        newest_first(m.tasks),
    ensures
        newest_first(spec_register(m, url, file, name).tasks),
        newest_first(spec_remove(m, id).0.tasks),
        newest_first(spec_cancel(m, id).0.tasks),
        newest_first(spec_pause(m, id, on).0.tasks),
        newest_first(pause_each(m, ids).tasks),
        newest_first(spec_retry(m, id).0.tasks),
        newest_first(spec_finish(m, id, ok, bytes, total, err).0.tasks),
{
    lemma_task_index(m.tasks, id);
    let r = spec_register(m, url, file, name).tasks;
    assert forall|a: int, b: int| 0 <= a < b < r.len() implies #[trigger] r[a].id > #[trigger] r[b].id by {
        if a == 0 {
            assert(r[b] == m.tasks[b - 1]);
        } else {
            assert(r[a] == m.tasks[a - 1] && r[b] == m.tasks[b - 1]);
        }
    }
    match task_index(m.tasks, id) {
        Some(k) => {
            let t = spec_remove(m, id).0.tasks;
            assert(t == m.tasks.remove(k));
            assert forall|a: int, b: int| 0 <= a < b < t.len() implies #[trigger] t[a].id > #[trigger] t[b].id by {
                let a0 = if a < k { a } else { a + 1 };
                let b0 = if b < k { b } else { b + 1 };
                assert(t[a] == m.tasks[a0] && t[b] == m.tasks[b0]);
            }
        },
        None => {},
    }
    assert(same_ids(m.tasks, spec_pause(m, id, on).0.tasks));
    lemma_same_ids_keep(m.tasks, spec_pause(m, id, on).0.tasks);
    assert(same_ids(m.tasks, spec_retry(m, id).0.tasks));
    lemma_same_ids_keep(m.tasks, spec_retry(m, id).0.tasks);
    assert(same_ids(m.tasks, spec_finish(m, id, ok, bytes, total, err).0.tasks));
    lemma_same_ids_keep(m.tasks, spec_finish(m, id, ok, bytes, total, err).0.tasks);
    lemma_pause_each_ids(m, ids);
    lemma_same_ids_keep(m.tasks, pause_each(m, ids).tasks);
}

/// A link counts as already downloading only while a task of it is unfinished:
/// when every task with that link is done, failed or canceled (none is
/// downloading or paused), it is no duplicate, so starting it registers a new
/// task; when one is downloading or paused, it is a duplicate.
pub proof fn law_duplicate_only_while_unfinished(ts: Seq<TaskView>, url: Seq<char>)
    ensures
        (forall|i: int| 0 <= i < ts.len() && #[trigger] ts[i].url == url ==> ts[i].state != "downloading"@
            && ts[i].state != "paused"@) ==> !has_dup(ts, url),
        (exists|i: int| 0 <= i < ts.len() && #[trigger] ts[i].url == url && (ts[i].state == "downloading"@
            || ts[i].state == "paused"@)) ==> has_dup(ts, url),
{
}

/// A download offered with "ask where to save" is the one handed out when the
/// user answers: taking the pending request gives back the offer's link and
/// name, and leaves nothing pending.
pub proof fn law_offer_then_take(m: DlView, url: Seq<char>, name: Seq<char>)
    requires
        !has_dup(m.tasks, url),
    ensures
        spec_offer_ask(m, url, name).1,
        spec_take_pending(spec_offer_ask(m, url, name).0).1 == Some((url, name)),
        spec_take_pending(spec_offer_ask(m, url, name).0).0.pending is None,
        spec_take_pending(spec_offer_ask(m, url, name).0).0.tasks == m.tasks,
{
}

/// A pending request is handed out once: taking it twice gives nothing the
/// second time.
pub proof fn law_take_once(m: DlView)
    ensures
        spec_take_pending(spec_take_pending(m).0).1 is None,
{
}

/// Retrying reuses the task's entry: the list keeps its length and every
/// task its id and link.
pub proof fn law_retry_in_place(m: DlView, id: u64)
    ensures
        spec_retry(m, id).0.tasks.len() == m.tasks.len(),
        forall|i: int| 0 <= i < m.tasks.len() ==> #[trigger] spec_retry(m, id).0.tasks[i].id == m.tasks[i].id
            && spec_retry(m, id).0.tasks[i].url == m.tasks[i].url,
{
    lemma_task_index(m.tasks, id);
}

/// A removed task is gone: with distinct ids, no task with its id remains.
pub proof fn law_remove_forgets(m: DlView, id: u64)
    requires
        unique_ids(m.tasks),
    ensures
        task_index(spec_remove(m, id).0.tasks, id) is None,
        spec_remove(m, id).1 == (task_index(m.tasks, id) is Some),
{
    lemma_task_index(m.tasks, id);
    let r = spec_remove(m, id).0.tasks;
    lemma_task_index(r, id);
    match task_index(m.tasks, id) {
        Some(k) => {
            assert forall|j: int| 0 <= j < r.len() implies r[j].id != id by {
                if j < k {
                } else {
                    assert(r[j] == m.tasks[j + 1]);
                    assert(m.tasks[k].id != m.tasks[j + 1].id);
                }
            }
        },
        None => {},
    }
}

/// A transfer that was asked to cancel and then stops is shown as canceled.
pub proof fn law_cancel_then_stop(m: DlView, id: u64, err: Seq<char>)
    requires
        m.workers.contains_key(id),
        task_index(m.tasks, id) is Some,
    ensures
        spec_finish(spec_cancel(m, id).0, id, false, 0, 0, err).0.tasks[task_index(m.tasks, id).unwrap()].state == st_canceled(),
{
    lemma_task_index(m.tasks, id);
}

/// A task that is retried and then completes is shown done, with its size.
pub proof fn law_retry_then_complete(m: DlView, id: u64, bytes: u64, total: u64)
    requires
        !m.workers.contains_key(id),
        task_index(m.tasks, id) is Some,
    ensures
        spec_retry(m, id).1,
        spec_finish(spec_retry(m, id).0, id, true, bytes, total, Seq::empty()).0.tasks[task_index(m.tasks, id).unwrap()].state
            == st_done(),
        spec_finish(spec_retry(m, id).0, id, true, bytes, total, Seq::empty()).0.tasks[task_index(m.tasks, id).unwrap()].bytes
            == bytes,
{
    lemma_task_index(m.tasks, id);
    let k = task_index(m.tasks, id).unwrap();
    let r = spec_retry(m, id).0;
    lemma_task_index(r.tasks, id);
    assert(r.tasks[k].id == id);
    assert(task_index(r.tasks, id) == Some(k)) by {
        let j = task_index(r.tasks, id).unwrap();
        if j < k {
            assert(r.tasks[j].id == m.tasks[j].id);
        }
    }
}

/// After a restart no task is left transferring: an unfinished task comes back
/// paused (its bytes on disk kept) or failed.
pub proof fn law_restart_leaves_nothing_running(t: TaskView, on_disk: u64)
    ensures
        restored(t, on_disk).state != st_downloading(),
        is_active(t.state) && on_disk > 0 ==> restored(t, on_disk).bytes == on_disk,
{
    reveal_strlit("downloading");
    reveal_strlit("paused");
    reveal_strlit("error");
    assert("downloading"@[0] != "paused"@[0]);
    assert("downloading"@[0] != "error"@[0]);
}

/// Pausing a running transfer and resuming it shows it transferring again,
/// its flags no longer paused.
pub proof fn law_pause_then_resume(m: DlView, id: u64)
    requires
        m.workers.contains_key(id),
        task_index(m.tasks, id) is Some,
    ensures
        ({
            let p = spec_pause(spec_pause(m, id, true).0, id, false);
            &&& p.1
            &&& p.0.tasks[task_index(m.tasks, id).unwrap()].state == st_downloading()
            &&& !p.0.workers[id].pause
        }),
{
    lemma_task_index(m.tasks, id);
    let a = spec_pause(m, id, true).0;
    lemma_same_task_ids(m.tasks, a.tasks, id, 0);
}

proof fn lemma_same_task_ids(a: Seq<TaskView>, b: Seq<TaskView>, id: u64, i: int)
    requires
        a.len() == b.len(),
        forall|j: int| 0 <= j < a.len() ==> #[trigger] a[j].id == b[j].id,
        0 <= i,
    ensures
        task_index_from(a, id, i) == task_index_from(b, id, i),
    decreases a.len() - i,
{
    if i < a.len() {
        lemma_same_task_ids(a, b, id, i + 1);
    }
}

// ───────────────────────────── the backend ─────────────────────────────

/// The back-off between restarts starts at one second, never shortens, and
/// stops growing at thirty seconds.
pub proof fn law_backoff(a: nat, b: nat)
    requires
        a <= b,
    ensures
        delay_for(0) == 1,
        delay_for(a) <= delay_for(b),
        1 <= delay_for(a) <= 30,
        b >= 5 ==> delay_for(b) == 30,
{
    assert(retry_delays() =~= seq![1u64, 2, 4, 8, 15, 30]);
}

/// Starting never spawns onto a port that another service holds: a port
/// that answers is either adopted (dsh) or given up for a system-chosen one.
pub proof fn law_port_conflict(port: u16, is_dsh: bool)
    requires
        port != 0,
    ensures
        is_dsh ==> port_plan_of(port, Some((true, is_dsh))) is None,
        !is_dsh ==> port_plan_of(port, Some((true, is_dsh))) == Some(0u16),
{
}

/// Where the health checks of an adopted instance stop it, from check `i` on
/// with `streak` failures in a row so far: the index of the stopping check.
pub open spec fn adoption_stop(oks: Seq<bool>, streak: u32, i: int) -> Option<int>
    decreases oks.len() - i,
{
    if i < 0 || i >= oks.len() || streak >= external_fail_limit() {
        None
    } else {
        let (n, stop) = health_next(streak, oks[i]);
        if stop {
            Some(i)
        } else {
            adoption_stop(oks, n, i + 1)
        }
    }
}

/// Check `i` is the third failed check in a row.
pub open spec fn third_failure_in_a_row(oks: Seq<bool>, i: int) -> bool {
    2 <= i < oks.len() && !oks[i - 2] && !oks[i - 1] && !oks[i]
}

/// The first check, from `i` on, that is the third failure in a row.
pub open spec fn first_third_failure(oks: Seq<bool>, i: int) -> Option<int>
    decreases oks.len() - i,
{
    if i < 0 || i >= oks.len() {
        None
    } else if third_failure_in_a_row(oks, i) {
        Some(i)
    } else {
        first_third_failure(oks, i + 1)
    }
}

/// How many checks right before `i` failed in a row.
pub open spec fn failures_before(oks: Seq<bool>, i: int) -> nat
    decreases i,
{
    if i <= 0 || i > oks.len() || oks[i - 1] {
        0
    } else {
        1 + failures_before(oks, i - 1)
    }
}

proof fn lemma_adoption_stop(oks: Seq<bool>, streak: u32, i: int)
    requires
        0 <= i <= oks.len(),
        streak < external_fail_limit(),
        streak == failures_before(oks, i),
    ensures
        adoption_stop(oks, streak, i) == first_third_failure(oks, i),
    decreases oks.len() - i,
{
    if i < oks.len() {
        if i >= 1 && !oks[i - 1] {
            assert(failures_before(oks, i) == 1 + failures_before(oks, i - 1));
            if i >= 2 && !oks[i - 2] {
                assert(failures_before(oks, i - 1) == 1 + failures_before(oks, i - 2));
            }
        }
        assert(third_failure_in_a_row(oks, i) <==> (!oks[i] && streak == 2));
        if !oks[i] {
            assert(failures_before(oks, i + 1) == 1 + failures_before(oks, i));
        }
        if !(!oks[i] && streak == 2) {
            lemma_adoption_stop(oks, health_next(streak, oks[i]).0, i + 1);
        }
    }
}

/// An adopted dsh instance is given up at the first check that fails for the
/// third time in a row, and never earlier: any check that succeeds starts the
/// count again, and a run of fewer than three failures is tolerated.
pub proof fn law_adoption_ends_after_three_failed_checks(oks: Seq<bool>)
    ensures
        adoption_stop(oks, 0, 0) == first_third_failure(oks, 0),
{
    lemma_adoption_stop(oks, 0, 0);
}

/// The check, from `i` on, at which the plugin watcher announces a change
/// (the times of the checks in `checks`), given what is pending.
pub open spec fn announced_at(pending: Option<u64>, checks: Seq<u64>, i: int) -> Option<int>
    decreases checks.len() - i,
{
    if i < 0 || i >= checks.len() {
        None
    } else if watch_due(pending, checks[i]).1 {
        Some(i)
    } else {
        announced_at(watch_due(pending, checks[i]).0, checks, i + 1)
    }
}

/// The first check, from `i` on, made once the quiet period after a change at
/// `t` has passed.
pub open spec fn first_quiet_check(checks: Seq<u64>, t: u64, i: int) -> Option<int>
    decreases checks.len() - i,
{
    if i < 0 || i >= checks.len() {
        None
    } else if checks[i] >= t + plugin_quiet_ms() {
        Some(i)
    } else {
        first_quiet_check(checks, t, i + 1)
    }
}

proof fn lemma_announced_after_quiet(checks: Seq<u64>, t: u64, i: int)
    requires
        0 <= i <= checks.len(),
    ensures
        announced_at(Some(t), checks, i) == first_quiet_check(checks, t, i),
    decreases checks.len() - i,
{
    if i < checks.len() {
        lemma_announced_after_quiet(checks, t, i + 1);
    }
}

proof fn lemma_nothing_pending(checks: Seq<u64>, i: int)
    requires
        0 <= i <= checks.len(),
    ensures
        announced_at(None, checks, i) is None,
    decreases checks.len() - i,
{
    if i < checks.len() {
        lemma_nothing_pending(checks, i + 1);
    }
}

/// A plugin change (last seen at `t`) is announced at the first check made
/// once things have stayed quiet for 6 s, never before; once announced,
/// nothing more is announced until the plugins change again.
pub proof fn law_plugin_change_announced_once(t: u64, checks: Seq<u64>)
    ensures
        announced_at(Some(t), checks, 0) == first_quiet_check(checks, t, 0),
        announced_at(Some(t), checks, 0) matches Some(k) ==> announced_at(
            watch_due(Some(t), checks[k]).0,
            checks,
            k + 1,
        ) is None,
{
    lemma_announced_after_quiet(checks, t, 0);
    if let Some(k) = announced_at(Some(t), checks, 0) {
        lemma_first_quiet_in_range(checks, t, 0);
        lemma_nothing_pending(checks, k + 1);
    }
}

proof fn lemma_first_quiet_in_range(checks: Seq<u64>, t: u64, i: int)
    requires
        0 <= i,
    ensures
        first_quiet_check(checks, t, i) matches Some(k) ==> i <= k < checks.len() && checks[k] >= t + plugin_quiet_ms(),
    decreases checks.len() - i,
{
    if i < checks.len() {
        lemma_first_quiet_in_range(checks, t, i + 1);
    }
}

// ───────────────────────────── the shell ─────────────────────────────

/// Toggling an overlay twice leaves every overlay as it was.
pub proof fn law_toggle_twice(st: OverlayState, o: Overlay, p: Overlay)
    ensures
        is_open(with_open(with_open(st, o, !is_open(st, o)), o, is_open(st, o)), p) == is_open(st, p),
{
}

/// The titlebar follows the page shown: a theme report from the page that is
/// not shown changes neither what is shown nor what is pushed, while a report
/// (with a background) from the page shown is pushed and becomes what is shown.
pub proof fn law_titlebar_follows_the_page_shown(
    deepseek_shown: bool,
    dsh: Option<(Seq<char>, Seq<char>)>,
    deepseek: Option<(Seq<char>, Seq<char>)>,
    src: Seq<char>,
    text: Seq<char>,
)
    ensures
        ({
            let (d2, s2, pushed) = theme_record(deepseek_shown, dsh, deepseek, src, text);
            &&& (src == "deepseek"@) != deepseek_shown ==> shown_theme(deepseek_shown, d2, s2) == shown_theme(
                deepseek_shown,
                dsh,
                deepseek,
            ) && pushed is None
            &&& (src == "deepseek"@) == deepseek_shown && theme_colors_of(text).0.len() > 0 ==> pushed == Some(
                theme_colors_of(text),
            ) && shown_theme(deepseek_shown, d2, s2) == Some(theme_colors_of(text))
        }),
{
}

/// Text without `%` or `+`, all ASCII, decodes to itself.
pub proof fn law_plain_text_decodes_to_itself(b: Seq<u8>, i: int)
    requires
        0 <= i <= b.len(),
        forall|k: int| 0 <= k < b.len() ==> #[trigger] b[k] < 0x80 && b[k] != 0x25 && b[k] != 0x2b,
    ensures
        decode_from(b, i) == b.subrange(i, b.len() as int).map_values(|x: u8| x as char),
    decreases b.len() - i,
{
    if i < b.len() {
        law_plain_text_decodes_to_itself(b, i + 1);
        assert(decode_from(b, i) =~= b.subrange(i, b.len() as int).map_values(|x: u8| x as char));
    } else {
        assert(decode_from(b, i) =~= b.subrange(i, b.len() as int).map_values(|x: u8| x as char));
    }
}


// ───────────────────────────── profiles ─────────────────────────────

proof fn lemma_collapse_append_plain(x: Seq<char>, t: Seq<char>)
    requires
        forall|i: int| 0 <= i < t.len() ==> #[trigger] t[i] != '/' && t[i] != '\\',
    ensures
        collapse_seps(x + t) == collapse_seps(x) + t,
    decreases t.len(),
{
    if t.len() == 0 {
        assert(x + t =~= x);
        assert(collapse_seps(x) + t =~= collapse_seps(x));
    } else {
        lemma_collapse_append_plain(x, t.drop_last());
        assert((x + t).drop_last() =~= x + t.drop_last());
        assert((x + t).last() == t.last());
        assert(collapse_seps(x) + t =~= (collapse_seps(x) + t.drop_last()).push(t.last()));
    }
}

proof fn lemma_collapse_last(x: Seq<char>)
    requires
        x.len() > 0,
    ensures
        collapse_seps(x).len() > 0,
        (x.last() == '/' || x.last() == '\\') ==> collapse_seps(x).last() == '\\',
        !(x.last() == '/' || x.last() == '\\') ==> collapse_seps(x).last() == x.last(),
{
}

proof fn lemma_collapse_sep(x: Seq<char>)
    requires
        x.len() > 0,
        !(x.last() == '/' || x.last() == '\\'),
    ensures
        collapse_seps(x + seq!['\\']) == collapse_seps(x).push('\\'),
{
    lemma_collapse_last(x);
    assert((x + seq!['\\']).drop_last() =~= x);
}

/// A valid profile name without a drive prefix never leaves the profiles
/// folder: its folder is inside the profiles folder (one that is not a bare
/// drive such as `C:`), so deleting a profile can only delete under it.
pub proof fn law_profile_folder_inside(profiles: Seq<char>, name: Seq<char>)
    requires
        profile_name_error(name) is None,
        !has_drive(trim(name)),
        !is_bare_drive(profiles),
    ensures
        path_under(profile_path(profiles, trim(name)), profiles),
{
    let t = trim(name);
    assert(!t.contains('/') && !t.contains('\\'));
    assert forall|i: int| 0 <= i < t.len() implies #[trigger] t[i] != '/' && t[i] != '\\' by {
        if t[i] == '/' {
            assert(t.contains('/'));
        }
        if t[i] == '\\' {
            assert(t.contains('\\'));
        }
    }
    assert(t.len() > 0);
    if profiles.len() == 0 {
        return;
    }
    let p = join_path(profiles, t);
    lemma_collapse_last(profiles);
    let cb = collapse_seps(profiles);
    if profiles.last() == '/' || profiles.last() == '\\' {
        assert(p == profiles + t);
        lemma_collapse_append_plain(profiles, t);
        let np = cb + t;
        assert(collapse_seps(p) == np);
        assert(np.last() == t.last());
        assert(norm_path(p) == np);
        if cb.len() > 1 {
            assert(norm_path(profiles) == cb.drop_last());
            assert(np.take(cb.len() - 1) =~= cb.drop_last());
            assert(np[cb.len() - 1] == '\\');
        } else {
            assert(norm_path(profiles) == cb);
            assert(cb =~= seq!['\\']);
            assert(np[0] == '\\');
        }
    } else {
        assert(p == profiles + seq!['\\'] + t);
        lemma_collapse_sep(profiles);
        lemma_collapse_append_plain(profiles + seq!['\\'], t);
        let np = cb.push('\\') + t;
        assert(collapse_seps(p) == np);
        assert(np.last() == t.last());
        assert(norm_path(p) == np);
        assert(norm_path(profiles) == cb);
        assert(np.take(cb.len() as int) =~= cb);
        assert(np[cb.len() as int] == '\\');
    }
}


// ───────────────────────────── versions ─────────────────────────────

/// A version switched to is the one in use: once the settings take the
/// planned script and id, the entry planned is in use.
pub proof fn law_switched_version_in_use(s: Settings, id: Seq<char>, g: Option<Seq<char>>, after: Settings)
    requires
        activation_plan(s, id, g) matches Ok(p) && p.1 is Some,
        activation_plan(s, id, g) matches Ok(p) && ostr(after.dsh_bin) == Some(p.0) && ostr(after.active_version_id) == Some(
            p.1.unwrap().0,
        ),
    ensures
        entry_index(versions_of(s), id) matches Some(k) && entry_in_use(after, versions_of(s)[k]),
{
    lemma_entry_index_from(versions_of(s), id, 0);
}

/// Relabelling a version changes its label only: every entry keeps its id,
/// script, folder and class.
pub proof fn law_relabel_keeps_the_rest(vs: Seq<VersionEntryView>, k: int, label: Seq<char>, j: int)
    requires
        0 <= k < vs.len(),
        0 <= j < vs.len(),
    ensures
        ({
            let after = vs.update(k, VersionEntryView { label, ..vs[k] });
            &&& after[j].id == vs[j].id
            &&& after[j].bin == vs[j].bin
            &&& after[j].dir == vs[j].dir
            &&& after[j].source == vs[j].source
            &&& j != k ==> after[j] == vs[j]
        }),
{
}

/// Within an era of 400 years (`doe` days in), the day of the year that
/// `civil_from_days` computes lies between 0 and 365.
proof fn lemma_day_of_year(doe: u64, yoe: u64, base: u64)
    requires
        doe < 146097,
        yoe == ((doe - doe / 1460 + doe / 36524 - doe / 146096) / 365) as u64,
        base == (365 * yoe + yoe / 4 - yoe / 100) as u64,
    ensures
        yoe <= 399,
        base <= doe,
        doe - base <= 365,
{
    assert(yoe <= 399 && base <= doe && doe - base <= 365) by (bit_vector)
        requires
            doe < 146097,
            yoe == ((doe - doe / 1460 + doe / 36524 - doe / 146096) / 365) as u64,
            base == (365 * yoe + yoe / 4 - yoe / 100) as u64,
    ;
}

/// A day of the year (counted from March) falls in a month 1..12, on a day 1..31.
proof fn lemma_month_and_day(doy: u64, mp: u64, start: u64)
    requires
        doy <= 365,
        mp == ((5 * doy + 2) / 153) as u64,
        start == ((153 * mp + 2) / 5) as u64,
    ensures
        mp <= 11,
        start <= doy,
        doy - start <= 30,
{
    assert(mp <= 11 && start <= doy && doy - start <= 30) by (bit_vector)
        requires
            doy <= 365,
            mp == ((5 * doy + 2) / 153) as u64,
            start == ((153 * mp + 2) / 5) as u64,
    ;
}

/// Every time the log prints is well formed: whatever the second, the month
/// lies in 1..12, the day in 1..31, the hour in 0..23 and the minute and
/// second in 0..59.
pub proof fn law_utc_fields_in_range(secs: int)
    ensures
        ({
            let (y, m, d) = civil_from_days_spec(secs / 86400);
            let tod = secs % 86400;
            &&& 1 <= m <= 12
            &&& 1 <= d <= 31
            &&& 0 <= tod / 3600 <= 23
            &&& 0 <= (tod % 3600) / 60 <= 59
            &&& 0 <= tod % 60 <= 59
        }),
{
    let z2 = secs / 86400 + 719468;
    let doe = z2 % 146097;
    let yoe = (doe - doe / 1460 + doe / 36524 - doe / 146096) / 365;
    assert(0 <= doe < 146097);
    assert(0 <= yoe <= 146097) by (nonlinear_arith)
        requires
            0 <= doe < 146097,
            yoe == (doe - doe / 1460 + doe / 36524 - doe / 146096) / 365,
    ;
    let base = 365 * yoe + yoe / 4 - yoe / 100;
    assert(0 <= base <= 365 * 146097 + 146097);
    lemma_day_of_year(doe as u64, yoe as u64, base as u64);
    let doy = doe - base;
    let mp = (5 * doy + 2) / 153;
    assert(0 <= mp <= 200) by (nonlinear_arith)
        requires
            0 <= doy <= 365,
            mp == (5 * doy + 2) / 153,
    ;
    let start = (153 * mp + 2) / 5;
    assert(0 <= start <= 153 * 200) by (nonlinear_arith)
        requires
            0 <= mp <= 200,
            start == (153 * mp + 2) / 5,
    ;
    lemma_month_and_day(doy as u64, mp as u64, start as u64);
    let tod = secs % 86400;
    assert(0 <= tod < 86400);
    assert(tod / 3600 <= 23 && (tod % 3600) / 60 <= 59) by (nonlinear_arith)
        requires
            0 <= tod < 86400,
    ;
}

/// A day later the log prints the same time of day, with the date of the day
/// numbered one more since 1970-01-01.
pub proof fn law_utc_a_day_later(secs: int)
    ensures
        utc_text(secs) == date_text(civil_from_days_spec(secs / 86400)) + seq![' '] + time_text(secs % 86400),
        utc_text(secs + 86400) == date_text(civil_from_days_spec(secs / 86400 + 1)) + seq![' '] + time_text(
            secs % 86400,
        ),
{
    assert((secs + 86400) / 86400 == secs / 86400 + 1 && (secs + 86400) % 86400 == secs % 86400) by (nonlinear_arith);
}

/// Within a 400-year era, one day more either stays in the same year (counted
/// from March) or starts the next one; the last day of a year is day 364, or
/// day 365 when the February it ends with has 29 days (`lp` is 1 then).
#[verifier::rlimit(100)]
proof fn lemma_year_step(doe: u64, yoe: u64, base: u64, yoe1: u64, base1: u64, lp: u64)
    requires
        doe < 146096,
        yoe == ((doe - doe / 1460 + doe / 36524 - doe / 146096) / 365) as u64,
        base == (365 * yoe + yoe / 4 - yoe / 100) as u64,
        yoe1 == (((doe + 1) as u64 - (doe + 1) as u64 / 1460 + (doe + 1) as u64 / 36524 - (doe + 1) as u64
            / 146096) / 365) as u64,
        base1 == (365 * yoe1 + yoe1 / 4 - yoe1 / 100) as u64,
        lp == (if (yoe + 1) as u64 % 4 == 0 && ((yoe + 1) as u64 % 100 != 0 || yoe == 399) { 1u64 } else { 0u64 }),
    ensures
        yoe <= 399,
        base <= doe,
        (yoe1 == yoe && base1 == base && doe - base < 364 + lp) || (yoe1 == yoe + 1 && base1 == doe + 1 && doe
            - base == 364 + lp),
{
    assert((yoe1 == yoe && base1 == base && ((doe - base) as u64) < ((364 + lp) as u64)) || (yoe1 == (yoe + 1) as u64
        && base1 == (doe + 1) as u64 && (doe - base) as u64 == (364 + lp) as u64)) by (bit_vector)
        requires
            doe < 146096,
            yoe == ((doe - doe / 1460 + doe / 36524 - doe / 146096) / 365) as u64,
            base == (365 * yoe + yoe / 4 - yoe / 100) as u64,
            yoe1 == (((doe + 1) as u64 - (doe + 1) as u64 / 1460 + (doe + 1) as u64 / 36524 - (doe + 1) as u64
                / 146096) / 365) as u64,
            base1 == (365 * yoe1 + yoe1 / 4 - yoe1 / 100) as u64,
            lp == (if (yoe + 1) as u64 % 4 == 0 && ((yoe + 1) as u64 % 100 != 0 || yoe == 399) { 1u64 } else { 0u64 }),
    ;
    lemma_day_of_year(doe, yoe, base);
}

/// Within a year counted from March, one day more either stays in the same
/// month or starts the next one on its first day.
proof fn lemma_month_step(doy: u64, mp: u64, st: u64, mp1: u64, st1: u64)
    requires
        doy < 365,
        mp == ((5 * doy + 2) / 153) as u64,
        st == ((153 * mp + 2) / 5) as u64,
        mp1 == ((5 * (doy + 1) + 2) / 153) as u64,
        st1 == ((153 * mp1 + 2) / 5) as u64,
    ensures
        (mp1 == mp && st1 == st && (mp < 11 ==> doy + 1 < (153 * (mp + 1) + 2) / 5)) || (mp1 == mp + 1 && st1
            == doy + 1),
{
    assert((mp1 == mp && st1 == st && (mp < 11 ==> ((doy + 1) as u64) < (((153 * (mp + 1) + 2) / 5) as u64))) || (mp1
        == (mp + 1) as u64 && st1 == (doy + 1) as u64)) by (bit_vector)
        requires
            doy < 365,
            mp == ((5 * doy + 2) / 153) as u64,
            st == ((153 * mp + 2) / 5) as u64,
            mp1 == ((5 * (doy + 1) + 2) / 153) as u64,
            st1 == ((153 * mp1 + 2) / 5) as u64,
    ;
}

/// Gregorian leap years.
pub open spec fn is_leap(y: int) -> bool {
    y % 4 == 0 && (y % 100 != 0 || y % 400 == 0)
}

/// The number of days of month `m` of year `y`.
pub open spec fn days_in_month(y: int, m: int) -> int {
    if m == 2 {
        if is_leap(y) {
            29
        } else {
            28
        }
    } else if m == 4 || m == 6 || m == 9 || m == 11 {
        30
    } else {
        31
    }
}

/// The calendar day after (year, month, day).
pub open spec fn next_date(ymd: (int, int, int)) -> (int, int, int) {
    if ymd.2 < days_in_month(ymd.0, ymd.1) {
        (ymd.0, ymd.1, ymd.2 + 1)
    } else if ymd.1 < 12 {
        (ymd.0, ymd.1 + 1, 1)
    } else {
        (ymd.0 + 1, 1, 1)
    }
}

/// `civil_from_days_spec` from the era and the day within it.
spec fn civil_in_era(era: int, doe: int) -> (int, int, int) {
    let yoe = (doe - doe / 1460 + doe / 36524 - doe / 146096) / 365;
    let y = yoe + era * 400;
    let doy = doe - (365 * yoe + yoe / 4 - yoe / 100);
    let mp = (5 * doy + 2) / 153;
    let d = doy - (153 * mp + 2) / 5 + 1;
    let m = if mp < 10 {
        mp + 3
    } else {
        mp - 9
    };
    (if m <= 2 {
        y + 1
    } else {
        y
    }, m, d)
}

/// Year `400 * era + w` is leap exactly when `w` is, for `w` in 1..400.
proof fn lemma_leap_in_era(era: int, w: int)
    requires
        1 <= w <= 400,
    ensures
        is_leap(era * 400 + w) == (w % 4 == 0 && (w % 100 != 0 || w == 400)),
{
    lemma_mod_multiples_vanish(era * 100, w, 4);
    lemma_mod_multiples_vanish(era * 4, w, 100);
    lemma_mod_multiples_vanish(era, w, 400);
    assert(4 * (era * 100) == era * 400 && 100 * (era * 4) == era * 400 && 400 * era == era * 400) by (nonlinear_arith);
}

/// The month lengths of a year counted from March: month `mp` starts on day
/// `(153 * mp + 2) / 5`.
proof fn lemma_month_lengths(y: int, mp: int)
    requires
        0 <= mp < 11,
    ensures
        (153 * (mp + 1) + 2) / 5 - (153 * mp + 2) / 5 == days_in_month(y, if mp < 10 { mp + 3 } else { mp - 9 }),
{
    if mp == 0 {
    } else if mp == 1 {
    } else if mp == 2 {
    } else if mp == 3 {
    } else if mp == 4 {
    } else if mp == 5 {
    } else if mp == 6 {
    } else if mp == 7 {
    } else if mp == 8 {
    } else if mp == 9 {
    } else {
    }
}

proof fn lemma_step_in_era(era: int, doe: int)
    requires
        0 <= doe < 146096,
    ensures
        civil_in_era(era, doe + 1) == next_date(civil_in_era(era, doe)),
{
    let yoe = (doe - doe / 1460 + doe / 36524 - doe / 146096) / 365;
    let base = 365 * yoe + yoe / 4 - yoe / 100;
    let doe1 = doe + 1;
    let yoe1 = (doe1 - doe1 / 1460 + doe1 / 36524 - doe1 / 146096) / 365;
    let base1 = 365 * yoe1 + yoe1 / 4 - yoe1 / 100;
    assert(0 <= yoe <= 146097 && 0 <= yoe1 <= 146097) by (nonlinear_arith)
        requires
            0 <= doe < 146096,
            doe1 == doe + 1,
            yoe == (doe - doe / 1460 + doe / 36524 - doe / 146096) / 365,
            yoe1 == (doe1 - doe1 / 1460 + doe1 / 36524 - doe1 / 146096) / 365,
    ;
    let lp: int = if (yoe + 1) % 4 == 0 && ((yoe + 1) % 100 != 0 || yoe == 399) { 1 } else { 0 };
    lemma_year_step(doe as u64, yoe as u64, base as u64, yoe1 as u64, base1 as u64, lp as u64);
    let doy = doe - base;
    let mp = (5 * doy + 2) / 153;
    let st = (153 * mp + 2) / 5;
    let y = yoe + era * 400;
    lemma_leap_in_era(era, yoe + 1);
    if yoe1 == yoe {
        let doy1 = doy + 1;
        let mp1 = (5 * doy1 + 2) / 153;
        let st1 = (153 * mp1 + 2) / 5;
        lemma_month_step(doy as u64, mp as u64, st as u64, mp1 as u64, st1 as u64);
        lemma_month_and_day(doy1 as u64, mp1 as u64, st1 as u64);
        if mp < 11 {
            lemma_month_lengths(y, mp);
            lemma_month_lengths(y + 1, mp);
        }
    } else {
        assert(doy == 364 + lp);
        assert(mp == 11 && st == 337);
    }
}

/// The day after the last day of an era is the first of the next.
proof fn lemma_step_across_eras(era: int)
    ensures
        civil_in_era(era + 1, 0) == next_date(civil_in_era(era, 146096)),
{
    lemma_leap_in_era(era, 400);
    assert((era + 1) * 400 == era * 400 + 400) by (nonlinear_arith);
}

/// The log's calendar counts days without gap or repeat: the date of day
/// `z + 1` (since 1970-01-01) is the calendar day after the date of day `z`,
/// with months of 31, 30 and 28 or 29 days and Gregorian leap years.
pub proof fn law_civil_next_day(z: int)
    ensures
        civil_from_days_spec(z + 1) == next_date(civil_from_days_spec(z)),
{
    let z2 = z + 719468;
    let era = z2 / 146097;
    let doe = z2 % 146097;
    assert(z2 == era * 146097 + doe && 0 <= doe < 146097) by (nonlinear_arith)
        requires
            era == z2 / 146097,
            doe == z2 % 146097,
    ;
    assert(civil_from_days_spec(z) == civil_in_era(era, doe));
    if doe < 146096 {
        lemma_fundamental_div_mod_converse(z2 + 1, 146097, era, doe + 1);
        assert(civil_from_days_spec(z + 1) == civil_in_era(era, doe + 1));
        lemma_step_in_era(era, doe);
    } else {
        lemma_fundamental_div_mod_converse(z2 + 1, 146097, era + 1, 0);
        assert(civil_from_days_spec(z + 1) == civil_in_era(era + 1, 0));
        lemma_step_across_eras(era);
    }
}

/// Calendar order of (year, month, day).
pub open spec fn date_before(p: (int, int, int), q: (int, int, int)) -> bool {
    p.0 < q.0 || (p.0 == q.0 && (p.1 < q.1 || (p.1 == q.1 && p.2 < q.2)))
}

proof fn lemma_civil_increasing(z1: int, z2: int)
    requires
        z1 < z2,
    ensures
        date_before(civil_from_days_spec(z1), civil_from_days_spec(z2)),
    decreases z2 - z1,
{
    law_civil_next_day(z2 - 1);
    if z1 < z2 - 1 {
        lemma_civil_increasing(z1, z2 - 1);
    }
}

/// The log's times follow the seconds: of two instants, the earlier has the
/// earlier date, or the same date and an earlier second of the day.
pub proof fn law_utc_in_order(a: int, b: int)
    requires
        a < b,
    ensures
        date_before(civil_from_days_spec(a / 86400), civil_from_days_spec(b / 86400)) || (a / 86400 == b / 86400
            && a % 86400 < b % 86400),
{
    assert(a / 86400 <= b / 86400) by (nonlinear_arith)
        requires
            a < b,
    ;
    if a / 86400 < b / 86400 {
        lemma_civil_increasing(a / 86400, b / 86400);
    } else {
        assert(a % 86400 < b % 86400) by (nonlinear_arith)
            requires
                a < b,
                a / 86400 == b / 86400,
        ;
    }
}

/// Two digits of `n`.
pub open spec fn two_digits(n: int) -> Seq<char> {
    seq![digit(n / 10), digit(n % 10)]
}

/// Four digits of `n`.
pub open spec fn four_digits(n: int) -> Seq<char> {
    seq![digit(n / 1000), digit((n / 100) % 10), digit((n / 10) % 10), digit(n % 10)]
}

proof fn lemma_pad_two(n: int)
    requires
        0 <= n < 100,
    ensures
        zpad_signed(n, 2) == two_digits(n),
{
    reveal_with_fuel(dec, 3);
    if n < 10 {
        assert(zpad_signed(n, 2) =~= two_digits(n));
    } else {
        assert(zpad_signed(n, 2) =~= two_digits(n));
    }
}

proof fn lemma_pad_four(n: int)
    requires
        0 <= n < 10000,
    ensures
        zpad_signed(n, 4) == four_digits(n),
{
    reveal_with_fuel(dec, 5);
    if n < 10 {
        assert(zpad_signed(n, 4) =~= four_digits(n));
    } else if n < 100 {
        assert(dec(n as nat) =~= seq![digit(n / 10), digit(n % 10)]);
        assert(zpad_signed(n, 4) =~= four_digits(n));
    } else if n < 1000 {
        assert((n / 10) / 10 == n / 100 && (n / 10) % 10 == (n / 10) % 10);
        assert(dec(n as nat) =~= seq![digit(n / 100), digit((n / 10) % 10), digit(n % 10)]);
        assert(zpad_signed(n, 4) =~= four_digits(n));
    } else {
        assert((n / 10) / 10 == n / 100 && (n / 100) / 10 == n / 1000);
        assert(dec(n as nat) =~= four_digits(n));
        assert(zpad_signed(n, 4) =~= four_digits(n));
    }
}

/// `s` comes before `t` in dictionary order, at the first place where they differ.
pub open spec fn text_before(s: Seq<char>, t: Seq<char>) -> bool {
    exists|i: int| 0 <= i < s.len() && i < t.len() && #[trigger] s.take(i) == t.take(i) && (s[i] as int) < (t[i] as int)
}

proof fn lemma_before_left(p: Seq<char>, q: Seq<char>, s: Seq<char>, t: Seq<char>)
    requires
        text_before(p, q),
        p.len() == q.len(),
    ensures
        text_before(p + s, q + t),
{
    let i = choose|i: int| 0 <= i < p.len() && i < q.len() && #[trigger] p.take(i) == q.take(i) && (p[i] as int) < (q[i] as int);
    assert((p + s).take(i) =~= p.take(i));
    assert((q + t).take(i) =~= q.take(i));
    assert((p + s)[i] == p[i] && (q + t)[i] == q[i]);
    assert((p + s).take(i) == (q + t).take(i));
}

proof fn lemma_before_right(p: Seq<char>, s: Seq<char>, t: Seq<char>)
    requires
        text_before(s, t),
    ensures
        text_before(p + s, p + t),
{
    let i = choose|i: int| 0 <= i < s.len() && i < t.len() && #[trigger] s.take(i) == t.take(i) && (s[i] as int) < (t[i] as int);
    let j = p.len() + i;
    assert((p + s).take(j) =~= p + s.take(i));
    assert((p + t).take(j) =~= p + t.take(i));
    assert((p + s)[j] == s[i] && (p + t)[j] == t[i]);
    assert((p + s).take(j) == (p + t).take(j));
}

proof fn lemma_digit_order(x: int, y: int)
    requires
        0 <= x < y <= 9,
    ensures
        (digit(x) as int) < (digit(y) as int),
{
}

proof fn lemma_two_before(n: int, m: int)
    requires
        0 <= n < m < 100,
    ensures
        text_before(two_digits(n), two_digits(m)),
{
    let s = two_digits(n);
    let t = two_digits(m);
    assert(n / 10 < m / 10 || (n / 10 == m / 10 && n % 10 < m % 10)) by (nonlinear_arith)
        requires
            0 <= n < m < 100,
    ;
    assert(0 <= n / 10 <= 9 && 0 <= m / 10 <= 9);
    if n / 10 < m / 10 {
        lemma_digit_order(n / 10, m / 10);
        assert(s.take(0) =~= t.take(0));
    } else {
        lemma_digit_order(n % 10, m % 10);
        assert(s.take(1) =~= t.take(1));
    }
}

proof fn lemma_four_before(n: int, m: int)
    requires
        0 <= n < m < 10000,
    ensures
        text_before(four_digits(n), four_digits(m)),
{
    let s = four_digits(n);
    let t = four_digits(m);
    assert(n / 1000 < m / 1000 || (n / 1000 == m / 1000 && ((n / 100) % 10 < (m / 100) % 10 || ((n / 100) % 10
        == (m / 100) % 10 && ((n / 10) % 10 < (m / 10) % 10 || ((n / 10) % 10 == (m / 10) % 10 && n % 10 < m
        % 10)))))) by (nonlinear_arith)
        requires
            0 <= n < m < 10000,
    ;
    assert(0 <= n / 1000 <= 9 && 0 <= m / 1000 <= 9) by (nonlinear_arith)
        requires
            0 <= n < m < 10000,
    ;
    if n / 1000 < m / 1000 {
        lemma_digit_order(n / 1000, m / 1000);
        assert(s.take(0) =~= t.take(0));
    } else if (n / 100) % 10 < (m / 100) % 10 {
        lemma_digit_order((n / 100) % 10, (m / 100) % 10);
        assert(s.take(1) =~= t.take(1));
    } else if (n / 10) % 10 < (m / 10) % 10 {
        lemma_digit_order((n / 10) % 10, (m / 10) % 10);
        assert(s.take(2) =~= t.take(2));
    } else {
        lemma_digit_order(n % 10, m % 10);
        assert(s.take(3) =~= t.take(3));
    }
}

/// The printed form with its digits spelled out.
spec fn utc_render(y: int, mo: int, d: int, tod: int) -> Seq<char> {
    four_digits(y) + (seq!['-'] + (two_digits(mo) + (seq!['-'] + (two_digits(d) + (seq![' '] + (two_digits(
        tod / 3600,
    ) + (seq![':'] + (two_digits((tod % 3600) / 60) + (seq![':'] + two_digits(tod % 60))))))))))
}

/// Days 0 to 2932896 are the dates 1970-01-01 to 9999-12-31.
proof fn lemma_years_in_range(z: int)
    requires
        0 <= z <= 2932896,
    ensures
        1970 <= civil_from_days_spec(z).0 <= 9999,
{
    assert(719468int / 146097 == 4 && 719468int % 146097 == 135080);
    assert(135080int / 1460 == 92 && 135080int / 36524 == 3 && 135080int / 146096 == 0);
    assert(134991int / 365 == 369 && 369int / 4 == 92 && 369int / 100 == 3);
    assert(1532int / 153 == 10 && 1532int / 5 == 306);
    assert(civil_from_days_spec(0) == (1970int, 1int, 1int));
    assert(3652364int / 146097 == 24 && 3652364int % 146097 == 146036);
    assert(146036int / 1460 == 100 && 146036int / 36524 == 3 && 146036int / 146096 == 0);
    assert(145939int / 365 == 399 && 399int / 4 == 99 && 399int / 100 == 3);
    assert(1527int / 153 == 9 && 1379int / 5 == 275);
    assert(civil_from_days_spec(2932896) == (9999int, 12int, 31int));
    if z > 0 {
        lemma_civil_increasing(0, z);
    }
    if z < 2932896 {
        lemma_civil_increasing(z, 2932896);
    }
}

proof fn lemma_utc_render(secs: int)
    requires
        0 <= secs <= 253402300799,
    ensures
        ({
            let ymd = civil_from_days_spec(secs / 86400);
            &&& utc_text(secs) == utc_render(ymd.0, ymd.1, ymd.2, secs % 86400)
            &&& utc_text(secs).len() == 19
            &&& 0 <= ymd.0 <= 9999
            &&& 1 <= ymd.1 <= 12
            &&& 1 <= ymd.2 <= 31
            &&& 0 <= secs % 86400 < 86400
        }),
{
    let ymd = civil_from_days_spec(secs / 86400);
    let tod = secs % 86400;
    assert(0 <= secs / 86400 <= 2932896);
    lemma_years_in_range(secs / 86400);
    law_utc_fields_in_range(secs);
    lemma_pad_four(ymd.0);
    lemma_pad_two(ymd.1);
    lemma_pad_two(ymd.2);
    lemma_pad_two(tod / 3600);
    lemma_pad_two((tod % 3600) / 60);
    lemma_pad_two(tod % 60);
    assert(utc_text(secs) =~= utc_render(ymd.0, ymd.1, ymd.2, tod));
}

/// The rest of the printed form after the date's month, and after its day.
proof fn lemma_render_time_before(ta: int, tb: int)
    requires
        0 <= ta < tb < 86400,
    ensures
        text_before(
            two_digits(ta / 3600) + (seq![':'] + (two_digits((ta % 3600) / 60) + (seq![':'] + two_digits(ta % 60)))),
            two_digits(tb / 3600) + (seq![':'] + (two_digits((tb % 3600) / 60) + (seq![':'] + two_digits(tb % 60)))),
        ),
{
    let (ha, ma, sa) = (ta / 3600, (ta % 3600) / 60, ta % 60);
    let (hb, mb, sb) = (tb / 3600, (tb % 3600) / 60, tb % 60);
    assert(ha < hb || (ha == hb && (ma < mb || (ma == mb && sa < sb)))) by (nonlinear_arith)
        requires
            0 <= ta < tb < 86400,
            ha == ta / 3600,
            hb == tb / 3600,
            ma == (ta % 3600) / 60,
            mb == (tb % 3600) / 60,
            sa == ta % 60,
            sb == tb % 60,
    ;
    assert(0 <= ha <= 23 && 0 <= hb <= 23 && 0 <= ma <= 59 && 0 <= mb <= 59) by (nonlinear_arith)
        requires
            0 <= ta < tb < 86400,
            ha == ta / 3600,
            hb == tb / 3600,
            ma == (ta % 3600) / 60,
            mb == (tb % 3600) / 60,
    ;
    let colon = seq![':'];
    if ha < hb {
        lemma_two_before(ha, hb);
        lemma_before_left(two_digits(ha), two_digits(hb), colon + (two_digits(ma) + (colon + two_digits(sa))), colon
            + (two_digits(mb) + (colon + two_digits(sb))));
    } else if ma < mb {
        lemma_two_before(ma, mb);
        lemma_before_left(two_digits(ma), two_digits(mb), colon + two_digits(sa), colon + two_digits(sb));
        lemma_before_right(colon, two_digits(ma) + (colon + two_digits(sa)), two_digits(mb) + (colon + two_digits(sb)));
        lemma_before_right(two_digits(ha), colon + (two_digits(ma) + (colon + two_digits(sa))), colon + (two_digits(mb)
            + (colon + two_digits(sb))));
    } else {
        lemma_two_before(sa, sb);
        lemma_before_right(colon, two_digits(sa), two_digits(sb));
        lemma_before_right(two_digits(ma), colon + two_digits(sa), colon + two_digits(sb));
        lemma_before_right(colon, two_digits(ma) + (colon + two_digits(sa)), two_digits(mb) + (colon + two_digits(sb)));
        lemma_before_right(two_digits(ha), colon + (two_digits(ma) + (colon + two_digits(sa))), colon + (two_digits(mb)
            + (colon + two_digits(sb))));
    }
}

#[verifier::spinoff_prover]
#[verifier::rlimit(50)]
proof fn lemma_render_before(p: (int, int, int), ta: int, q: (int, int, int), tb: int)
    requires
        0 <= p.0 <= 9999,
        0 <= q.0 <= 9999,
        1 <= p.1 <= 12,
        1 <= q.1 <= 12,
        1 <= p.2 <= 31,
        1 <= q.2 <= 31,
        0 <= ta < 86400,
        0 <= tb < 86400,
        date_before(p, q) || (p == q && ta < tb),
    ensures
        text_before(utc_render(p.0, p.1, p.2, ta), utc_render(q.0, q.1, q.2, tb)),
{
    let dash = seq!['-'];
    let time_a = two_digits(ta / 3600) + (seq![':'] + (two_digits((ta % 3600) / 60) + (seq![':'] + two_digits(ta % 60))));
    let time_b = two_digits(tb / 3600) + (seq![':'] + (two_digits((tb % 3600) / 60) + (seq![':'] + two_digits(tb % 60))));
    let day_a = two_digits(p.2) + (seq![' '] + time_a);
    let day_b = two_digits(q.2) + (seq![' '] + time_b);
    let mon_a = two_digits(p.1) + (dash + day_a);
    let mon_b = two_digits(q.1) + (dash + day_b);
    assert(utc_render(p.0, p.1, p.2, ta) == four_digits(p.0) + (dash + mon_a));
    assert(utc_render(q.0, q.1, q.2, tb) == four_digits(q.0) + (dash + mon_b));
    if p.0 < q.0 {
        lemma_four_before(p.0, q.0);
        lemma_before_left(four_digits(p.0), four_digits(q.0), dash + mon_a, dash + mon_b);
    } else {
        if p.1 < q.1 {
            lemma_two_before(p.1, q.1);
            lemma_before_left(two_digits(p.1), two_digits(q.1), dash + day_a, dash + day_b);
        } else {
            if p.2 < q.2 {
                lemma_two_before(p.2, q.2);
                lemma_before_left(two_digits(p.2), two_digits(q.2), seq![' '] + time_a, seq![' '] + time_b);
            } else {
                lemma_render_time_before(ta, tb);
                lemma_before_right(seq![' '], time_a, time_b);
                lemma_before_right(two_digits(p.2), seq![' '] + time_a, seq![' '] + time_b);
            }
            lemma_before_right(dash, day_a, day_b);
            lemma_before_right(two_digits(p.1), dash + day_a, dash + day_b);
        }
        lemma_before_right(dash, mon_a, mon_b);
        lemma_before_right(four_digits(p.0), dash + mon_a, dash + mon_b);
    }
}

/// The log's times sort as text in the order of the instants: from
/// 1970-01-01 00:00:00 to 9999-12-31 23:59:59, each is 19 characters long and
/// an earlier second prints a text that comes first in dictionary order.
pub proof fn law_utc_text_in_order(a: int, b: int)
    requires
        0 <= a < b <= 253402300799,
    ensures
        utc_text(a).len() == 19,
        utc_text(b).len() == 19,
        text_before(utc_text(a), utc_text(b)),
{
    lemma_utc_render(a);
    lemma_utc_render(b);
    law_utc_in_order(a, b);
    lemma_render_before(civil_from_days_spec(a / 86400), a % 86400, civil_from_days_spec(b / 86400), b % 86400);
}

} // verus!
