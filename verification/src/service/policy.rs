//! What holds of supervision as a whole: whose FPM is ever touched, what a
//! failure leaves behind, and how launches are numbered.

use crate::service::managed::{
    failed, started, stop_next, stopped, ManagedView, StopStageView, WaitedView,
};
use crate::service::supervisor::{
    barred, crashed_service, is_place, launched, minted, place, place_is, relaunching, replace_begin,
    replace_next, restart_begin, restart_next, start_begin, with_service,
    ReplaceOutcomeView, ReplaceStageView, RestartOutcomeView, RestartStageView, SupReplyView,
    SupView, TOO_MANY,
};
use crate::service::sweep::{
    advance, sweep_begin, sweep_next, visit, SweepJob, SweepStageView, SweepView,
};
use crate::service::{failed_at, reset_of, tripped, ServiceKind, ServiceStateView};
use vstd::prelude::*;

verus! {

/// While Herd owns FPM, or while its ownership is unknown, Hearth's own FPM is
/// barred, which refuses its registration and reconfiguration, and a start,
/// restart or replacement of it ends at once without changing anything.
pub proof fn foreign_fpm_is_left_alone(s: SupView)
    requires
        !(s.ownership is Unowned),
    ensures
        barred(s, ServiceKind::PhpFpm) is Some,
        start_begin(s, ServiceKind::PhpFpm).0 == s,
        start_begin(s, ServiceKind::PhpFpm).1 is Err,
        restart_begin(s).0 == s,
        restart_begin(s).1 is Done,
        replace_begin(s) is Done,
{
}

/// What a sweep may wait for while FPM is not Hearth's to activate: never the
/// spawn or the crash recovery of FPM, nor its restart.
pub open spec fn spares_fpm(s: SupView, run: SweepView) -> bool {
    &&& !(run.stage is Fpm)
    &&& run.at >= 0
    &&& (run.stage is Spawning || run.stage is Probing) ==> {
        &&& run.at < s.services.len()
        &&& s.services[run.at].kind != ServiceKind::PhpFpm
    }
    &&& (run.stage is Stopping && run.job == SweepJob::RestartAll) ==> {
        &&& run.at < s.services.len()
        &&& s.services[run.at].kind != ServiceKind::PhpFpm
    }
}

proof fn advance_spares_fpm(s: SupView, run: SweepView)
    requires
        !(s.ownership is Unowned),
        run.at >= 0,
    ensures
        spares_fpm(advance(s, run).0, advance(s, run).1),
        advance(s, run).0.ownership == s.ownership,
    decreases s.services.len() - run.at,
{
    if run.at < s.services.len() {
        let (t, o) = visit(s, run.job, run.at);
        if o is None {
            advance_spares_fpm(t, SweepView { at: run.at + 1, ..run });
        }
    }
}

/// While Herd owns FPM, or while its ownership is unknown, a sweep of any kind
/// never spawns Hearth's own FPM: not where it begins, and not at any step.
pub proof fn sweeps_never_spawn_foreign_fpm(
    s: SupView,
    job: SweepJob,
    run: SweepView,
    reply: SupReplyView,
)
    requires
        !(s.ownership is Unowned),
    ensures
        spares_fpm(sweep_begin(s, job).0, sweep_begin(s, job).1),
        spares_fpm(s, run) ==> spares_fpm(sweep_next(s, run, reply).0, sweep_next(s, run, reply).1),
{
    advance_spares_fpm(
        s,
        SweepView {
            job,
            at: 0,
            stage: SweepStageView::Finished,
            crashed: Seq::empty(),
            errors: Seq::empty(),
            fpm: None,
        },
    );
    if spares_fpm(s, run) {
        let v = s.services[run.at];
        assert forall|t: SupView, r: SweepView|
            t.ownership == s.ownership && r.at >= 0 implies spares_fpm(
            #[trigger] advance(t, r).0,
            advance(t, r).1,
        ) by {
            advance_spares_fpm(t, r);
        }
    }
}

/// An FPM restart after some replies.
pub open spec fn restart_after(s: SupView, replies: Seq<SupReplyView>) -> (
    SupView,
    RestartStageView,
)
    decreases replies.len(),
{
    if replies.len() == 0 {
        restart_begin(s)
    } else {
        let (t, stage) = restart_after(s, replies.drop_last());
        restart_next(t, stage, replies.last())
    }
}

/// A registration whose old child is confirmed gone and that is about to be
/// spawned again.
pub open spec fn rearmed(v: ManagedView) -> ManagedView {
    ManagedView { breaker: reset_of(v.breaker), ..stopped(v) }
}

/// What an FPM restart has done to the supervisor by a stage of it.
pub open spec fn restart_effect(s: SupView, t: SupView, stage: RestartStageView) -> bool {
    let at = place(s.services, ServiceKind::PhpFpm);
    match stage {
        RestartStageView::Stopping { stop } => t == s && at is Some && s.services[at->0].child
            is Some && !(stop is Done),
        RestartStageView::Spawning { generation } => at is Some && generation == minted(s).counter
            && t == minted(with_service(s, at->0, rearmed(s.services[at->0]))),
        RestartStageView::Done { outcome } => match outcome {
            RestartOutcomeView::Restarted => at is Some && exists|pid: u32, now: u64|
                t == minted(
                    with_service(
                        s,
                        at->0,
                        #[trigger] started(
                            rearmed(s.services[at->0]),
                            pid,
                            minted(s).counter,
                            now,
                        ),
                    ),
                ),
            RestartOutcomeView::StartFailed { error } => at is Some && t == minted(
                with_service(s, at->0, failed(rearmed(s.services[at->0]), error)),
            ),
            _ => t == s,
        },
    }
}

/// The FPM restart is a transaction: a skip, a missing registration and an
/// unconfirmed stop leave everything as it was, and so does everything up to
/// the confirmed stop; afterwards the registration is running under a new
/// launch, or `Failed` without a child.
pub proof fn restart_is_transactional(s: SupView, replies: Seq<SupReplyView>)
    ensures
        restart_effect(s, restart_after(s, replies).0, restart_after(s, replies).1),
    decreases replies.len(),
{
    let at = place(s.services, ServiceKind::PhpFpm);
    if at is Some {
        let i = choose|i: int| is_place(s.services, ServiceKind::PhpFpm, i);
        place_is(s.services, ServiceKind::PhpFpm, i);
        let v = s.services[i];
        assert(with_service(s, i, v) =~= s);
        assert(relaunching(with_service(s, i, stopped(v)), i) =~= minted(
            with_service(s, i, rearmed(v)),
        ));
        if replies.len() > 0 {
            restart_is_transactional(s, replies.drop_last());
            let (t, stage) = restart_after(s, replies.drop_last());
            let reply = replies.last();
            if stage is Spawning {
                let m = minted(with_service(s, i, rearmed(v)));
                assert(t == m);
                assert forall|j: int| 0 <= j < i implies (#[trigger] m.services[j]).kind
                    != ServiceKind::PhpFpm by {
                    assert(s.services[j].kind != ServiceKind::PhpFpm);
                }
                place_is(m.services, ServiceKind::PhpFpm, i);
                if let SupReplyView::Spawned { result, now } = reply {
                    let w = launched(rearmed(v), minted(s).counter, result, now);
                    assert(with_service(m, i, w) =~= minted(with_service(s, i, w)));
                }
            }
        }
    } else if replies.len() > 0 {
        restart_is_transactional(s, replies.drop_last());
    }
}

/// A replacement that cannot be prepared never stops a running child, and a
/// running child that cannot be confirmed stopped keeps its registration as it
/// was.
pub proof fn replacement_keeps_a_running_child(
    s: SupView,
    i: int,
    stage: ReplaceStageView,
    reply: SupReplyView,
)
    requires
        place(s.services, ServiceKind::PhpFpm) == Some(i),
        is_place(s.services, ServiceKind::PhpFpm, i),
        s.services[i].child is Some,
        stage is Building || stage is Stopping,
    ensures
        match replace_next(s, stage, reply) {
            (t, ReplaceStageView::Done { outcome }) => t == s && (outcome
                is BuildFailed || outcome is StopFailed),
            (t, ReplaceStageView::Spawning { generation }) => stage is Stopping && generation
                == minted(s).counter,
            (t, _) => t == s,
        },
{
    assert(with_service(s, i, s.services[i]) =~= s);
}

/// A replacement whose start fails stays registered, `Failed` for that reason
/// and without the old child; one that starts is running under the launch
/// minted for it.
pub proof fn replacement_ends_registered(
    s: SupView,
    i: int,
    generation: u64,
    result: Result<u32, Seq<char>>,
    now: u64,
)
    requires
        place(s.services, ServiceKind::PhpFpm) == Some(i),
        is_place(s.services, ServiceKind::PhpFpm, i),
    ensures
        ({
            let (t, stage) = replace_next(
                s,
                ReplaceStageView::Spawning { generation },
                SupReplyView::Spawned { result, now },
            );
            let v = t.services[i];
            &&& t.services.len() == s.services.len()
            &&& forall|j: int|
                0 <= j < s.services.len() && j != i ==> #[trigger] t.services[j] == s.services[j]
            &&& match result {
                Ok(pid) => stage == (ReplaceStageView::Done {
                    outcome: ReplaceOutcomeView::Replaced,
                }) && v.state == (ServiceStateView::Running { pid }) && v.child == Some(pid)
                    && v.launch_generation == Some(generation),
                Err(error) => stage == (ReplaceStageView::Done {
                    outcome: ReplaceOutcomeView::StartFailed { error },
                }) && v.state == (ServiceStateView::Failed { reason: error }) && v.child
                    == s.services[i].child,
            }
        }),
{
}

/// How launches are numbered by one step: by counting up, and the launch that
/// is then spawned is the newest.
pub open spec fn numbered(before: u64, after: u64, spawning: Option<u64>) -> bool {
    match spawning {
        Some(generation) => generation == after && after == before + 1,
        None => after == before,
    }
}

pub open spec fn fresh_launch(stage: SweepStageView) -> Option<u64> {
    match stage {
        SweepStageView::Spawning { generation } => Some(generation),
        SweepStageView::Fpm { restart } => match restart {
            RestartStageView::Spawning { generation } => Some(generation),
            _ => None,
        },
        _ => None,
    }
}

proof fn advance_numbers(s: SupView, run: SweepView)
    requires
        s.counter < u64::MAX,
    ensures
        numbered(s.counter, advance(s, run).0.counter, fresh_launch(advance(s, run).1.stage)),
    decreases s.services.len() - run.at,
{
    if 0 <= run.at < s.services.len() {
        let (t, o) = visit(s, run.job, run.at);
        if o is None {
            advance_numbers(t, SweepView { at: run.at + 1, ..run });
        }
    }
}

/// Launch generations strictly increase: an operation that comes to spawn a
/// service has minted one number more than any before it, and nothing else
/// moves the count.
pub proof fn launches_count_up(
    s: SupView,
    kind: ServiceKind,
    job: SweepJob,
    run: SweepView,
    restart: RestartStageView,
    replace: ReplaceStageView,
    reply: SupReplyView,
)
    requires
        s.counter < u64::MAX,
        fresh_launch(run.stage) is None || sweep_next(s, run, reply) != (s, run),
    ensures
        match start_begin(s, kind) {
            (t, Ok(generation)) => numbered(s.counter, t.counter, Some(generation)),
            (t, Err(_)) => t.counter == s.counter || t.counter == s.counter + 1,
        },
        numbered(
            s.counter,
            sweep_begin(s, job).0.counter,
            fresh_launch(sweep_begin(s, job).1.stage),
        ),
        numbered(
            s.counter,
            sweep_next(s, run, reply).0.counter,
            fresh_launch(sweep_next(s, run, reply).1.stage),
        ),
        !(restart is Spawning) ==> match restart_next(s, restart, reply) {
            (t, RestartStageView::Spawning { generation }) => numbered(
                s.counter,
                t.counter,
                Some(generation),
            ),
            (t, _) => t.counter == s.counter,
        },
        !(replace is Spawning) ==> match replace_next(s, replace, reply) {
            (t, ReplaceStageView::Spawning { generation }) => numbered(
                s.counter,
                t.counter,
                Some(generation),
            ),
            (t, _) => t.counter == s.counter,
        },
{
    advance_numbers(
        s,
        SweepView {
            job,
            at: 0,
            stage: SweepStageView::Finished,
            crashed: Seq::empty(),
            errors: Seq::empty(),
            fpm: None,
        },
    );
    assert forall|t: SupView, r: SweepView| t.counter < u64::MAX implies numbered(
        t.counter,
        (#[trigger] advance(t, r)).0.counter,
        fresh_launch(advance(t, r).1.stage),
    ) by {
        advance_numbers(t, r);
    }
}

// ---- crashes ----
proof fn advance_keeps_earlier(s: SupView, run: SweepView, j: int)
    requires
        0 <= j < run.at,
        j < s.services.len(),
    ensures
        advance(s, run).0.services.len() == s.services.len(),
        advance(s, run).0.services[j] == s.services[j] || run.job == SweepJob::RestartAll,
        advance(s, run).1.at >= run.at,
        advance(s, run).1.crashed == run.crashed,
    decreases s.services.len() - run.at,
{
    if run.at < s.services.len() {
        let (t, o) = visit(s, run.job, run.at);
        if o is None {
            advance_keeps_earlier(t, SweepView { at: run.at + 1, ..run }, j);
        }
    }
}

/// The circuit breaker ends restart loops: a health check that finds a service
/// dead once too often reports it, marks it `Failed` and goes on without
/// spawning it again; one that finds it dead less often reports it and spawns
/// it under a new launch.
pub proof fn breaker_ends_restart_loops(s: SupView, run: SweepView, waited: WaitedView, now: u128)
    requires
        run.job == SweepJob::Health,
        run.stage is Probing,
        0 <= run.at < s.services.len(),
        s.services[run.at].child is None || !(waited is Running),
    ensures
        ({
            let v = s.services[run.at];
            let (t, next) = sweep_next(s, run, SupReplyView::Probed { waited, now });
            &&& next.crashed == run.crashed.push(v.kind)
            &&& t.services.len() == s.services.len()
            &&& t.services[run.at].breaker == failed_at(v.breaker, now)
            &&& if tripped(failed_at(v.breaker, now)) {
                t.services[run.at].state == (ServiceStateView::Failed { reason: TOO_MANY@ })
                    && next.at > run.at
            } else {
                next.at == run.at && next.stage == (SweepStageView::Spawning {
                    generation: minted(s).counter,
                })
            }
        }),
{
    let v = s.services[run.at];
    let t = with_service(s, run.at, crashed_service(v, waited, now));
    let found = SweepView { crashed: run.crashed.push(v.kind), ..run };
    if tripped(failed_at(v.breaker, now)) {
        advance_keeps_earlier(
            t,
            SweepView { at: run.at + 1, stage: SweepStageView::Finished, ..found },
            run.at,
        );
    }
}

// ---- stopping everything ----
/// Whether a child that is still there is reported among the failures.
pub open spec fn accounted(v: ManagedView, errors: Seq<(ServiceKind, Seq<char>)>) -> bool {
    v.child is None || exists|k: int|
        0 <= k < errors.len() && (#[trigger] errors[k]).0 == v.kind
}

/// Every service that a stop of everything is done with has no child, or is
/// reported.
pub open spec fn stops_cleanly(s: SupView, run: SweepView) -> bool {
    &&& run.job == SweepJob::StopAll
    &&& 0 <= run.at <= s.services.len()
    &&& run.stage is Finished || run.stage is Stopping
    &&& run.stage is Finished ==> run.at == s.services.len()
    &&& match run.stage {
        SweepStageView::Stopping { stop } => run.at < s.services.len() && !(stop is Done)
            && s.services[run.at].child is Some,
        _ => true,
    }
    &&& forall|j: int|
        0 <= j < run.at && j < s.services.len() ==> accounted(
            #[trigger] s.services[j],
            run.errors,
        )
}

proof fn advance_stops_cleanly(s: SupView, run: SweepView)
    requires
        run.job == SweepJob::StopAll,
        0 <= run.at <= s.services.len(),
        forall|j: int|
            0 <= j < run.at && j < s.services.len() ==> accounted(
                #[trigger] s.services[j],
                run.errors,
            ),
    ensures
        stops_cleanly(advance(s, run).0, advance(s, run).1),
        advance(s, run).0.services.len() == s.services.len(),
    decreases s.services.len() - run.at,
{
    if run.at < s.services.len() {
        let (t, o) = visit(s, run.job, run.at);
        if o is None {
            assert forall|j: int| 0 <= j < run.at + 1 && j < t.services.len() implies accounted(
                #[trigger] t.services[j],
                run.errors,
            ) by {
                if j < run.at {
                    assert(t.services[j] == s.services[j]);
                }
            }
            advance_stops_cleanly(t, SweepView { at: run.at + 1, ..run });
        }
    }
}

proof fn more_errors_account(
    v: ManagedView,
    errors: Seq<(ServiceKind, Seq<char>)>,
    row: (ServiceKind, Seq<char>),
)
    requires
        accounted(v, errors) || row.0 == v.kind,
    ensures
        accounted(v, errors.push(row)),
{
    let more = errors.push(row);
    if row.0 == v.kind {
        assert(more[errors.len() as int].0 == v.kind);
    } else if v.child is Some {
        let k = choose|k: int| 0 <= k < errors.len() && (#[trigger] errors[k]).0 == v.kind;
        assert(more[k].0 == v.kind);
    }
}

/// A stop of everything attempts every service and hides nothing: at each
/// step, whatever is replied, each service that it is done with has no child
/// any more or is reported as failed; it finishes only when it is done with
/// all of them.
pub proof fn stop_all_hides_no_child(s: SupView, run: SweepView, reply: SupReplyView)
    ensures
        stops_cleanly(sweep_begin(s, SweepJob::StopAll).0, sweep_begin(s, SweepJob::StopAll).1),
        stops_cleanly(s, run) ==> stops_cleanly(
            sweep_next(s, run, reply).0,
            sweep_next(s, run, reply).1,
        ),
{
    advance_stops_cleanly(
        s,
        SweepView {
            job: SweepJob::StopAll,
            at: 0,
            stage: SweepStageView::Finished,
            crashed: Seq::empty(),
            errors: Seq::empty(),
            fpm: None,
        },
    );
    if stops_cleanly(s, run) {
        match (run.stage, reply) {
            (SweepStageView::Stopping { stop }, SupReplyView::Stop(r)) => {
                let i = run.at;
                let v = s.services[i];
                let (w, after) = stop_next(v, stop, r);
                let t = with_service(s, i, w);
                let fresh = SweepView { at: i + 1, stage: SweepStageView::Finished, ..run };
                assert forall|j: int| 0 <= j < i implies accounted(
                    #[trigger] t.services[j],
                    run.errors,
                ) by {
                    assert(t.services[j] == s.services[j]);
                }
                match after {
                    StopStageView::Done { result: Ok(_) } => {
                        if w.child is None {
                            advance_stops_cleanly(t, fresh);
                        }
                    },
                    StopStageView::Done { result: Err(e) } => {
                        let more = run.errors.push((v.kind, e));
                        assert forall|j: int| 0 <= j < i + 1 implies accounted(
                            #[trigger] t.services[j],
                            more,
                        ) by {
                            more_errors_account(t.services[j], run.errors, (v.kind, e));
                        }
                        advance_stops_cleanly(t, SweepView { errors: more, ..fresh });
                    },
                    _ => {},
                }
            },
            _ => {},
        }
    }
}

} // verus!
