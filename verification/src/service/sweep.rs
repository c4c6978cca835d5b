//! Operations over every registered service: starting, stopping, restarting
//! and health-checking all of them, one service at a time.

use crate::scan;
use crate::service::managed::{stop_begin, stop_next, StopStage, StopStageView};
use crate::service::supervisor::{
    barred, crashed_service, launched, lost_service, minted, place, relaunching, restart_begin,
    restart_next, same_places, with_service, FpmOwnership, FpmRestartTxOutcome,
    RestartOutcomeView, RestartStage, RestartStageView, ServiceSupervisor, SupReply, SupReplyView,
    SupView,
};
use crate::service::managed::Waited;
use crate::service::{failed_at, name_of, tripped, ServiceKind};
use crate::text;
use vstd::prelude::*;

verus! {

#[derive(Debug, Clone, Copy, PartialEq, Eq, Structural)]
pub enum SweepJob {
    StartAll,
    StopAll,
    RestartAll,
    Health,
}

/// What a sweep waits for.
#[derive(Debug)]
pub enum SweepStage {
    /// A step of the stop of the current service.
    Stopping { stop: StopStage },
    /// Whether the child of the current service is alive.
    Probing,
    /// The spawn of the current service.
    Spawning { generation: u64 },
    /// A step of the FPM restart that ends the sweep.
    Fpm { restart: RestartStage },
    Finished,
}

pub enum SweepStageView {
    Stopping { stop: StopStageView },
    Probing,
    Spawning { generation: u64 },
    Fpm { restart: RestartStageView },
    Finished,
}

impl View for SweepStage {
    type V = SweepStageView;

    open spec fn view(&self) -> SweepStageView {
        match self {
            SweepStage::Stopping { stop } => SweepStageView::Stopping { stop: stop@ },
            SweepStage::Probing => SweepStageView::Probing,
            SweepStage::Spawning { generation } => SweepStageView::Spawning {
                generation: *generation,
            },
            SweepStage::Fpm { restart } => SweepStageView::Fpm { restart: restart@ },
            SweepStage::Finished => SweepStageView::Finished,
        }
    }
}

/// A sweep under way.
#[derive(Debug)]
pub struct SweepRun {
    pub job: SweepJob,
    /// The place of the current service.
    pub at: usize,
    pub stage: SweepStage,
    /// The services that were found dead.
    pub crashed: Vec<ServiceKind>,
    /// What went wrong, by service.
    pub errors: Vec<(ServiceKind, String)>,
    /// What became of FPM in a restart of everything.
    pub fpm: Option<FpmRestartTxOutcome>,
}

#[verifier::ext_equal]
pub struct SweepView {
    pub job: SweepJob,
    pub at: int,
    pub stage: SweepStageView,
    pub crashed: Seq<ServiceKind>,
    pub errors: Seq<(ServiceKind, Seq<char>)>,
    pub fpm: Option<RestartOutcomeView>,
}

pub open spec fn fault_rows(v: Seq<(ServiceKind, String)>) -> Seq<(ServiceKind, Seq<char>)> {
    v.map_values(|r: (ServiceKind, String)| (r.0, r.1@))
}

pub open spec fn opt_outcome(o: Option<FpmRestartTxOutcome>) -> Option<RestartOutcomeView> {
    match o {
        Some(x) => Some(x@),
        None => None,
    }
}

impl View for SweepRun {
    type V = SweepView;

    open spec fn view(&self) -> SweepView {
        SweepView {
            job: self.job,
            at: self.at as int,
            stage: self.stage@,
            crashed: self.crashed@,
            errors: fault_rows(self.errors@),
            fpm: opt_outcome(self.fpm),
        }
    }
}

/// What a sweep does first with the service at a place; nothing is waited for
/// where it is done with the service at once.
///
/// - Starting never launches Hearth FPM while Herd owns it or ownership is
///   unknown; other services start normally.
/// - Restarting leaves FPM to the transaction at the end.
/// - Health supervision obeys CURRENT ownership. While Herd owns FPM, Hearth's
///   OWN still-running FPM child is relinquished (Hearth stops only its own
///   process group); one that is gone is recorded as stopped. While ownership
///   is UNKNOWN there is no restart, no relinquish and no replacement.
pub open spec fn visit(s: SupView, job: SweepJob, i: int) -> (SupView, Option<SweepStageView>) {
    let v = s.services[i];
    let (w, stop) = stop_begin(v);
    match job {
        SweepJob::StartAll => if barred(s, v.kind) is Some {
            (s, None)
        } else {
            (minted(s), Some(SweepStageView::Spawning { generation: minted(s).counter }))
        },
        SweepJob::StopAll => if v.child is None {
            (with_service(s, i, w), None)
        } else {
            (s, Some(SweepStageView::Stopping { stop }))
        },
        SweepJob::RestartAll => if v.kind == ServiceKind::PhpFpm {
            (s, None)
        } else if v.child is None {
            (
                relaunching(with_service(s, i, w), i),
                Some(SweepStageView::Spawning { generation: minted(s).counter }),
            )
        } else {
            (s, Some(SweepStageView::Stopping { stop }))
        },
        SweepJob::Health => if v.kind == ServiceKind::PhpFpm && s.ownership is Owned {
            if v.child is Some {
                (s, Some(SweepStageView::Stopping { stop }))
            } else if v.state is Running {
                (with_service(s, i, lost_service(v)), None)
            } else {
                (s, None)
            }
        } else if v.kind == ServiceKind::PhpFpm && s.ownership is Unknown {
            (s, None)
        } else if v.state is Running {
            (s, Some(SweepStageView::Probing))
        } else {
            (s, None)
        },
    }
}

/// The FPM restart that ends a restart of everything.
pub open spec fn ending(s: SupView, run: SweepView, restart: RestartStageView) -> (
    SupView,
    SweepView,
) {
    match restart {
        RestartStageView::Done { outcome } => (
            s,
            SweepView { stage: SweepStageView::Finished, fpm: Some(outcome), ..run },
        ),
        _ => (s, SweepView { stage: SweepStageView::Fpm { restart }, ..run }),
    }
}

/// From the service at the current place on, until something is waited for.
pub open spec fn advance(s: SupView, run: SweepView) -> (SupView, SweepView)
    decreases s.services.len() - run.at,
{
    if run.at < 0 || run.at >= s.services.len() {
        if run.job == SweepJob::RestartAll && place(s.services, ServiceKind::PhpFpm) is Some {
            let (t, restart) = restart_begin(s);
            ending(t, run, restart)
        } else {
            (s, SweepView { stage: SweepStageView::Finished, ..run })
        }
    } else {
        match visit(s, run.job, run.at) {
            (t, Some(stage)) => (t, SweepView { stage, ..run }),
            (t, None) => advance(t, SweepView { at: run.at + 1, ..run }),
        }
    }
}

/// On to the next service.
pub open spec fn onward(s: SupView, run: SweepView) -> (SupView, SweepView) {
    advance(s, SweepView { at: run.at + 1, stage: SweepStageView::Finished, ..run })
}

pub open spec fn with_error(run: SweepView, kind: ServiceKind, e: Seq<char>) -> SweepView {
    SweepView { errors: run.errors.push((kind, e)), ..run }
}

pub open spec fn sweep_begin(s: SupView, job: SweepJob) -> (SupView, SweepView) {
    advance(
        s,
        SweepView {
            job,
            at: 0,
            stage: SweepStageView::Finished,
            crashed: Seq::empty(),
            errors: Seq::empty(),
            fpm: None,
        },
    )
}

/// Where a sweep is once the stop of its current service has come to `stop`.
pub open spec fn after_stop(s: SupView, run: SweepView, stop: StopStageView) -> (
    SupView,
    SweepView,
) {
    let kind = s.services[run.at].kind;
    match stop {
        StopStageView::Done { result: Ok(_) } => if run.job == SweepJob::RestartAll {
            (
                relaunching(s, run.at),
                SweepView {
                    stage: SweepStageView::Spawning { generation: minted(s).counter },
                    ..run
                },
            )
        } else {
            onward(s, run)
        },
        StopStageView::Done { result: Err(e) } => match run.job {
            SweepJob::StopAll => onward(s, with_error(run, kind, e)),
            SweepJob::RestartAll => onward(s, with_error(run, kind, "stop failed: "@ + e)),
            _ => onward(s, run),
        },
        _ => (s, SweepView { stage: SweepStageView::Stopping { stop }, ..run }),
    }
}

/// One step of a sweep. A reply that the stage does not wait for changes
/// nothing.
pub open spec fn sweep_next(s: SupView, run: SweepView, reply: SupReplyView) -> (
    SupView,
    SweepView,
) {
    let i = run.at;
    let v = s.services[i];
    match (run.stage, reply) {
        (SweepStageView::Fpm { restart }, _) => {
            let (t, next) = restart_next(s, restart, reply);
            ending(t, run, next)
        },
        _ if !(0 <= i < s.services.len()) => (s, run),
        (SweepStageView::Stopping { stop }, SupReplyView::Stop(r)) => {
            let (w, after) = stop_next(v, stop, r);
            after_stop(with_service(s, i, w), run, after)
        },
        (SweepStageView::Probing, SupReplyView::Probed { waited, now }) => if v.child is Some
            && waited is Running {
            onward(s, run)
        } else {
            let t = with_service(s, i, crashed_service(v, waited, now));
            let found = SweepView { crashed: run.crashed.push(v.kind), ..run };
            if tripped(failed_at(v.breaker, now)) {
                onward(t, found)
            } else {
                (
                    minted(t),
                    SweepView {
                        stage: SweepStageView::Spawning { generation: minted(t).counter },
                        ..found
                    },
                )
            }
        },
        (SweepStageView::Spawning { generation }, SupReplyView::Spawned { result, now }) => {
            let t = with_service(s, i, launched(v, generation, result, now));
            match result {
                Err(e) if run.job == SweepJob::RestartAll => onward(
                    t,
                    with_error(run, v.kind, "start failed: "@ + e),
                ),
                _ => onward(t, run),
            }
        },
        _ => (s, run),
    }
}

/// Whether the next step can number a launch if it has to: all but a stop of
/// everything may have to.
pub open spec fn can_mint(s: SupView, run: SweepView) -> bool {
    s.counter < u64::MAX || (run.job == SweepJob::StopAll && (run.stage is Stopping
        || run.stage is Finished))
}

impl SweepRun {
    pub fn is_finished(&self) -> (r: bool)
        ensures
            r == (self@.stage is Finished),
    {
        match &self.stage {
            SweepStage::Finished => true,
            _ => false,
        }
    }

    fn end(&mut self, restart: RestartStage, Ghost(s): Ghost<SupView>)
        ensures
            (s, final(self)@) == ending(s, old(self)@, restart@),
    {
        match restart {
            RestartStage::Done { outcome } => {
                self.stage = SweepStage::Finished;
                self.fpm = Some(outcome);
            },
            restart => {
                self.stage = SweepStage::Fpm { restart };
            },
        }
    }

    fn advance(&mut self, sup: &mut ServiceSupervisor)
        requires
            old(sup).wf(),
            can_mint(old(sup)@, old(self)@),
        ensures
            final(sup).wf(),
            (final(sup)@, final(self)@) == advance(old(sup)@, old(self)@),
    {
        let ghost goal = advance(sup@, self@);
        while self.at < sup.len()
            invariant
                sup.wf(),
                can_mint(sup@, self@),
                goal == advance(sup@, self@),
                goal == advance(old(sup)@, old(self)@),
            decreases sup@.services.len() - self.at,
        {
            let ghost before = sup@;
            let i: usize = self.at;
            let kind = sup.service_at(i).kind();
            let has_child = sup.service_at(i).child().is_some();
            let running = sup.service_at(i).state().is_running();
            let mut wait: Option<SweepStage> = None;
            match self.job {
                SweepJob::StartAll => {
                    if sup.bar(kind).is_none() {
                        let generation: u64 = sup.mint_launch_stamp().generation();
                        wait = Some(SweepStage::Spawning { generation });
                    }
                },
                SweepJob::StopAll => {
                    let stop = sup.stop_at(i);
                    if has_child {
                        wait = Some(SweepStage::Stopping { stop });
                    }
                },
                SweepJob::RestartAll => {
                    if kind != ServiceKind::PhpFpm {
                        let stop = sup.stop_at(i);
                        if has_child {
                            wait = Some(SweepStage::Stopping { stop });
                        } else {
                            let generation: u64 = sup.relaunch_at(i);
                            wait = Some(SweepStage::Spawning { generation });
                        }
                    }
                },
                SweepJob::Health => {
                    let ownership = if kind == ServiceKind::PhpFpm {
                        sup.current_fpm_ownership()
                    } else {
                        FpmOwnership::Unowned
                    };
                    match ownership {
                        FpmOwnership::Owned => {
                            if has_child {
                                let stop = sup.stop_at(i);
                                wait = Some(SweepStage::Stopping { stop });
                            } else if running {
                                sup.lost_at(i);
                            }
                        },
                        FpmOwnership::Unknown(_) => {},
                        FpmOwnership::Unowned => {
                            if running {
                                wait = Some(SweepStage::Probing);
                            }
                        },
                    }
                },
            }
            proof {
                assert(sup@ =~= visit(before, self@.job, i as int).0);
                same_places(before.services, sup@.services);
            }
            match wait {
                Some(stage) => {
                    self.stage = stage;
                    return;
                },
                None => {
                    self.at = i + 1;
                },
            }
        }
        if self.job == SweepJob::RestartAll && sup.service(ServiceKind::PhpFpm).is_some() {
            let restart = sup.restart_fpm_service();
            self.end(restart, Ghost(sup@));
        } else {
            self.stage = SweepStage::Finished;
        }
    }
}

impl SweepRun {
    fn onward(&mut self, sup: &mut ServiceSupervisor)
        requires
            old(sup).wf(),
            can_mint(old(sup)@, old(self)@),
            old(self).at < old(sup)@.services.len(),
        ensures
            final(sup).wf(),
            (final(sup)@, final(self)@) == onward(old(sup)@, old(self)@),
    {
        let _count: usize = sup.len();
        self.at = self.at + 1;
        self.stage = SweepStage::Finished;
        self.advance(sup);
    }

    fn fault(&mut self, kind: ServiceKind, e: String)
        ensures
            final(self)@ == with_error(old(self)@, kind, e@),
    {
        self.errors.push((kind, e));
        proof {
            assert(fault_rows(self.errors@) =~= fault_rows(old(self).errors@).push((kind, e@)));
        }
    }

    fn after_stop(&mut self, sup: &mut ServiceSupervisor, stop: StopStage)
        requires
            old(sup).wf(),
            can_mint(old(sup)@, old(self)@),
            old(self).at < old(sup)@.services.len(),
        ensures
            final(sup).wf(),
            (final(sup)@, final(self)@) == after_stop(old(sup)@, old(self)@, stop@),
    {
        let i: usize = self.at;
        let kind = sup.service_at(i).kind();
        match stop {
            StopStage::Done { result } => match result {
                Ok(_) => {
                    if self.job == SweepJob::RestartAll {
                        let generation: u64 = sup.relaunch_at(i);
                        proof {
                            same_places(old(sup)@.services, sup@.services);
                        }
                        self.stage = SweepStage::Spawning { generation };
                    } else {
                        self.onward(sup);
                    }
                },
                Err(e) => {
                    match self.job {
                        SweepJob::StopAll => {
                            self.fault(kind, e);
                        },
                        SweepJob::RestartAll => {
                            self.fault(kind, text::cat2("stop failed: ", e.as_str()));
                        },
                        _ => {},
                    }
                    self.onward(sup);
                },
            },
            stop => {
                self.stage = SweepStage::Stopping { stop };
            },
        }
    }

    /// One step of the sweep.
    pub fn step(self, sup: &mut ServiceSupervisor, reply: SupReply) -> (r: Self)
        requires
            old(sup).wf(),
            can_mint(old(sup)@, self@),
        ensures
            final(sup).wf(),
            (final(sup)@, r@) == sweep_next(old(sup)@, self@, reply@),
    {
        let SweepRun { job, at, stage, crashed, errors, fpm } = self;
        let mut run = SweepRun { job, at, stage: SweepStage::Finished, crashed, errors, fpm };
        match (stage, reply) {
            (SweepStage::Fpm { restart }, reply) => {
                let next = sup.restart_fpm_step(restart, reply);
                run.end(next, Ghost(sup@));
            },
            (stage, _) if at >= sup.len() => {
                run.stage = stage;
            },
            (SweepStage::Stopping { stop }, SupReply::Stop(r)) => {
                let after = sup.stop_step_at(at, stop, r);
                proof {
                    same_places(old(sup)@.services, sup@.services);
                }
                run.after_stop(sup, after);
            },
            (SweepStage::Probing, SupReply::Probed { waited, now }) => {
                let alive = match waited {
                    Waited::Running => sup.service_at(at).child().is_some(),
                    _ => false,
                };
                if alive {
                    run.onward(sup);
                } else {
                    let kind = sup.service_at(at).kind();
                    let over = sup.crashed_at(at, &waited, now);
                    proof {
                        same_places(old(sup)@.services, sup@.services);
                    }
                    run.crashed.push(kind);
                    if over {
                        run.onward(sup);
                    } else {
                        let generation: u64 = sup.mint_launch_stamp().generation();
                        run.stage = SweepStage::Spawning { generation };
                    }
                }
            },
            (SweepStage::Spawning { generation }, SupReply::Spawned { result, now }) => {
                let kind = sup.service_at(at).kind();
                let error = sup.launched_at(at, generation, result, now);
                proof {
                    same_places(old(sup)@.services, sup@.services);
                }
                match error {
                    Some(e) => {
                        if job == SweepJob::RestartAll {
                            run.fault(kind, text::cat2("start failed: ", e.as_str()));
                        }
                    },
                    None => {},
                }
                run.onward(sup);
            },
            (stage, _) => {
                run.stage = stage;
            },
        }
        run
    }
}

impl ServiceSupervisor {
    fn sweep(&mut self, job: SweepJob) -> (r: SweepRun)
        requires
            old(self).wf(),
            old(self)@.counter < u64::MAX || job == SweepJob::StopAll,
        ensures
            final(self).wf(),
            (final(self)@, r@) == sweep_begin(old(self)@, job),
    {
        let mut run = SweepRun {
            job,
            at: 0,
            stage: SweepStage::Finished,
            crashed: Vec::new(),
            errors: Vec::new(),
            fpm: None,
        };
        proof {
            assert(fault_rows(run.errors@) =~= Seq::empty());
        }
        run.advance(self);
        run
    }

    /// Start all registered services.
    ///
    /// Services that fail to start (e.g., binary not found) are marked failed
    /// and skipped — one broken service doesn't prevent the others from
    /// running.
    pub fn start_all(&mut self) -> (r: SweepRun)
        requires
            old(self).wf(),
            old(self)@.counter < u64::MAX,
        ensures
            final(self).wf(),
            (final(self)@, r@) == sweep_begin(old(self)@, SweepJob::StartAll),
    {
        self.sweep(SweepJob::StartAll)
    }

    /// Stop all services, killing entire process groups. Every service is
    /// attempted; failures are collected.
    pub fn stop_all(&mut self) -> (r: SweepRun)
        requires
            old(self).wf(),
        ensures
            final(self).wf(),
            (final(self)@, r@) == sweep_begin(old(self)@, SweepJob::StopAll),
    {
        self.sweep(SweepJob::StopAll)
    }

    /// All-services restart. PHP-FPM goes through its atomic ownership
    /// transaction; every other registered service is stopped and started
    /// normally, with per-service failures collected instead of aborting the
    /// rest. An FPM skip/refusal never reads as "restarted".
    pub fn restart_all(&mut self) -> (r: SweepRun)
        requires
            old(self).wf(),
            old(self)@.counter < u64::MAX,
        ensures
            final(self).wf(),
            (final(self)@, r@) == sweep_begin(old(self)@, SweepJob::RestartAll),
    {
        self.sweep(SweepJob::RestartAll)
    }

    /// Run one health check pass, which collects the services that crashed.
    pub fn health_check(&mut self) -> (r: SweepRun)
        requires
            old(self).wf(),
            old(self)@.counter < u64::MAX,
        ensures
            final(self).wf(),
            (final(self)@, r@) == sweep_begin(old(self)@, SweepJob::Health),
    {
        self.sweep(SweepJob::Health)
    }
}

/// One line per failure of a stop.
pub open spec fn fault_lines(errors: Seq<(ServiceKind, Seq<char>)>) -> Seq<Seq<char>> {
    errors.map_values(|r: (ServiceKind, Seq<char>)| name_of(r.0) + ": "@ + r.1)
}

/// The result of stopping everything: failures are AGGREGATED and returned —
/// never a false blanket success while a child could not be confirmed stopped.
pub fn stop_all_result(run: &SweepRun) -> (r: Result<(), String>)
    ensures
        match r {
            Ok(_) => run@.errors.len() == 0,
            Err(e) => run@.errors.len() > 0 && e@ == "failed to stop: "@ + scan::glued(
                fault_lines(run@.errors),
                "; "@,
            ),
        },
{
    if run.errors.len() == 0 {
        return Ok(());
    }
    let mut lines: Vec<String> = Vec::new();
    let mut i: usize = 0;
    while i < run.errors.len()
        invariant
            i <= run.errors.len(),
            lines@.len() == i,
            run@.errors == fault_rows(run.errors@),
            forall|j: int|
                0 <= j < i ==> (#[trigger] lines@[j])@ == name_of(run.errors@[j].0) + ": "@
                    + run.errors@[j].1@,
        decreases run.errors.len() - i,
    {
        let row = &run.errors[i];
        lines.push(text::cat3(row.0.name(), ": ", row.1.as_str()));
        i = i + 1;
    }
    proof {
        assert(text::texts(lines@) =~= fault_lines(run@.errors));
    }
    let all = scan::glue(&lines, "; ");
    Err(text::cat2("failed to stop: ", all.as_str()))
}

} // verus!
