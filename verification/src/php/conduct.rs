//! What holds of the configuration engine as a whole: what comes first, what
//! never writes, and that every run ends.

use crate::config::IniStore;
use crate::php::assembly::{probeable, target_of};
use crate::php::engine::{
    blank, engine_next, gated, mutation_begin, observation_begin, probing, report_of, settled,
    switch_next, EngineHost, EngineJobView, EngineReplyView, EngineStageView, EngineView,
    SwitchReplyView, SwitchView, World,
};
use crate::php::mutation::{mutated, mutation_refusal, scope_version};
use crate::php::roots::RootsView;
use crate::php::targets::{discoveries, unprobed};
use crate::socket::{ConfigOutcomeView, ScopeView};
use vstd::prelude::*;

verus! {

/// A Set or Unset begins with its save, unless it is refused: a refused one is
/// over at once, with an error and with the store as it was.
pub proof fn mutation_begins_with_its_save(
    scope: ScopeView,
    key: Seq<char>,
    value: Option<Seq<char>>,
    store: IniStore,
    default_php: Seq<char>,
)
    ensures
        ({
            let first = mutation_begin(scope, key, value, store, default_php);
            match mutation_refusal(scope, key, value) {
                Some(why) => first.store == store && report_of(first) == Err::<
                    ConfigOutcomeView,
                    Seq<char>,
                >(why),
                None => first.stage == (EngineStageView::Saving { prior: store }) && first.store
                    == mutated(store, scope_version(scope, default_php), key, value),
            }
        }),
{
}

/// Nothing is reconciled that was not persisted: a Set or Unset goes on only
/// after its save, and a failed save puts the store back and ends the run.
pub proof fn persistence_comes_first(
    v: EngineView,
    prior: IniStore,
    reply: EngineReplyView,
    h: EngineHost,
    w: World,
)
    requires
        v.stage == (EngineStageView::Saving { prior }),
    ensures
        match reply {
            EngineReplyView::Did(Ok(_)) => engine_next(v, reply, h, w) == settled(v, h.roots, w),
            EngineReplyView::Did(Err(_)) => engine_next(v, reply, h, w).store == prior
                && engine_next(v, reply, h, w).stage is Done && report_of(
                engine_next(v, reply, h, w),
            ) is Err,
            _ => engine_next(v, reply, h, w) == v,
        },
{
}

/// The stages in which a run only reads.
pub open spec fn read_only(stage: EngineStageView) -> bool {
    stage is Probing || stage is Observing || stage is Done
}

proof fn probing_reads(v: EngineView, at: int, roots: RootsView, w: World)
    requires
        v.job is Observe,
    ensures
        read_only(probing(v, at, roots, w).stage),
        probing(v, at, roots, w).job == v.job,
        probing(v, at, roots, w).store == v.store,
        probing(v, at, roots, w).files == v.files,
    decreases v.ids.len() - at,
{
    if 0 <= at < v.ids.len() && !probeable(v.ids[at], roots, w.disk@) {
        let t = v.targets.push(target_of(v.ids[at], unprobed(), roots, w.disk@));
        probing_reads(EngineView { targets: t, ..v }, at + 1, roots, w);
    }
}

/// Show and Status never write: such a run never comes to a stage in which
/// anything is saved, created, reconciled, materialized or removed; it never
/// changes the store, and its report lists no file.
pub proof fn observation_is_read_only(
    key: Option<Seq<char>>,
    echo: bool,
    token: Option<Seq<char>>,
    store: IniStore,
    default_php: Seq<char>,
    v: EngineView,
    reply: EngineReplyView,
    h: EngineHost,
    w: World,
)
    ensures
        ({
            let first = observation_begin(key, echo, token, store, default_php, h.roots, w);
            first.job is Observe && read_only(first.stage) && first.store == store
                && first.files.len() == 0
        }),
        v.job is Observe && read_only(v.stage) ==> ({
            let next = engine_next(v, reply, h, w);
            next.job == v.job && read_only(next.stage) && next.store == v.store && next.files
                == v.files
        }),
{
    let job = EngineJobView::Observe { key, echo, token };
    let start = blank(job, store, default_php, EngineStageView::Reconciling);
    let ids = discoveries(30, h.roots.hearth, h.roots.herd, h.roots.homebrew, w.disk@);
    probing_reads(
        EngineView { ids, targets: Seq::empty(), probes: Seq::empty(), ..start },
        0,
        h.roots,
        w,
    );
    if v.job is Observe && read_only(v.stage) {
        match (v.stage, reply) {
            (EngineStageView::Probing { at }, EngineReplyView::Probed(info)) => {
                if 0 <= at < v.ids.len() {
                    probing_reads(
                        EngineView {
                            targets: v.targets.push(
                                target_of(v.ids[at], info, h.roots, w.disk@),
                            ),
                            ..v
                        },
                        at + 1,
                        h.roots,
                        w,
                    );
                }
            },
            _ => {},
        }
    }
}

/// Whether a reply is one that a run waits for.
pub open spec fn awaits(v: EngineView, reply: EngineReplyView) -> bool {
    match v.stage {
        EngineStageView::Migrating => reply is Migrated,
        EngineStageView::Creating { dirs, at } => reply is Did && 0 <= at < dirs.len(),
        EngineStageView::Probing { at } => reply is Probed && 0 <= at < v.ids.len(),
        EngineStageView::Reconciling => reply is Reconciled,
        EngineStageView::Materializing => reply is Materialized,
        EngineStageView::Observing { at } => reply is Observed && 0 <= at < v.probes.len(),
        EngineStageView::RemovingIni => reply is Removed,
        EngineStageView::RemovingFpm => reply is Removed,
        EngineStageView::Done { result } => false,
        _ => reply is Did,
    }
}

/// How many phases a run has before it at most.
pub open spec fn phases_left(stage: EngineStageView) -> nat {
    match stage {
        EngineStageView::Guarding => 9,
        EngineStageView::RecoveringIni => 8,
        EngineStageView::RecoveringFpm => 7,
        EngineStageView::Saving { prior } => 6,
        EngineStageView::Migrating => 6,
        EngineStageView::Creating { dirs, at } => 5,
        EngineStageView::Probing { at } => 4,
        EngineStageView::Reconciling => 3,
        EngineStageView::Materializing => 2,
        EngineStageView::RemovingIni => 2,
        EngineStageView::Observing { at } => 1,
        EngineStageView::RemovingFpm => 1,
        EngineStageView::Done { result } => 0,
    }
}

/// How much a run has before it within its phase.
pub open spec fn items_left(v: EngineView) -> int {
    match v.stage {
        EngineStageView::Creating { dirs, at } => dirs.len() - at,
        EngineStageView::Probing { at } => v.ids.len() - at,
        EngineStageView::Observing { at } => v.probes.len() - at,
        _ => 0,
    }
}

proof fn probing_goes_on(v: EngineView, at: int, roots: RootsView, w: World)
    requires
        0 <= at,
    ensures
        ({
            let next = probing(v, at, roots, w);
            next.stage matches EngineStageView::Probing { at: n } ==> at <= n < v.ids.len()
                && next.ids == v.ids
        }),
        phases_left(probing(v, at, roots, w).stage) <= 4,
        !(probing(v, at, roots, w).stage is Probing) ==> phases_left(
            probing(v, at, roots, w).stage,
        ) <= 3,
    decreases v.ids.len() - at,
{
    if at < v.ids.len() && !probeable(v.ids[at], roots, w.disk@) {
        let t = v.targets.push(target_of(v.ids[at], unprobed(), roots, w.disk@));
        probing_goes_on(EngineView { targets: t, ..v }, at + 1, roots, w);
    }
}

/// Every awaited reply brings a run nearer to its end: it comes to a later
/// phase, or has less before it within its phase.
pub proof fn engine_makes_progress(v: EngineView, reply: EngineReplyView, h: EngineHost, w: World)
    requires
        awaits(v, reply),
    ensures
        ({
            let next = engine_next(v, reply, h, w);
            ||| phases_left(next.stage) < phases_left(v.stage)
            ||| phases_left(next.stage) == phases_left(v.stage) && 0 <= items_left(next)
                < items_left(v)
        }),
{
    assert forall|u: EngineView, at: int| 0 <= at implies {
        let next = #[trigger] probing(u, at, h.roots, w);
        &&& next.stage matches EngineStageView::Probing { at: n } ==> at <= n < u.ids.len()
            && next.ids == u.ids
        &&& phases_left(next.stage) <= 4
        &&& !(next.stage is Probing) ==> phases_left(next.stage) <= 3
    } by {
        probing_goes_on(u, at, h.roots, w);
    }
}

/// A keyed status is certified by echoing exactly the key that was applied and
/// the token of the request; no other report echoes anything.
pub proof fn only_status_echoes(v: EngineView)
    requires
        report_of(v) is Ok,
    ensures
        match v.job {
            EngineJobView::Observe { key, echo, token } => if echo {
                report_of(v)->Ok_0.status_key == key && report_of(v)->Ok_0.status_token == token
            } else {
                report_of(v)->Ok_0.status_key is None && report_of(v)->Ok_0.status_token is None
            },
            _ => report_of(v)->Ok_0.status_key is None && report_of(v)->Ok_0.status_token is None,
        },
        report_of(v)->Ok_0.persisted is Some <==> v.job is Mutate,
{
}

/// A switch replaces FPM only after the new default was saved and the
/// reconcile had no hard failure.
pub proof fn switch_is_gated(version: Seq<char>, stage: SwitchView, reply: SwitchReplyView)
    requires
        !(stage is Replacing),
        switch_next(version, stage, reply) is Replacing,
    ensures
        stage is Syncing,
        match reply {
            SwitchReplyView::Synced(r) => gated(r) is Ok,
            _ => false,
        },
{
}

} // verus!
