//! What holds of every run: which steps a push, a pull and a reconcile take,
//! that nothing is overwritten without consent, that a staging directory is
//! removed before its run ends, and that every run ends.

use crate::confirm::{affirms, Prompt};
use crate::digest::{tree_digest, EntryView};
use crate::sidecar::{lemma_sidecar_matches, sidecar_bytes};
use crate::sync::{
    begin_pull, begin_push, clean_up, consistent, finish, first_step, mode_of, next, pushed,
    staging_in_use, write_step, ActionView, EventView, Mode, Outcome, Phase, Place, Run, Stage,
    UsageError,
};
use crate::transport::{merge_command_of, presence, TransportError};
use vstd::prelude::*;

verus! {

/// The run after a step: the same settings, in the phase the step leads to.
pub open spec fn after(r: Run, ev: EventView) -> Run {
    Run { phase: next(r, ev).0, ..r }
}

/// The step a run answers an event with.
pub open spec fn answer(r: Run, ev: EventView) -> ActionView {
    next(r, ev).1
}

/// Flags name a mode unless they ask for a push and a pull at once; only
/// then is a run refused, and it is refused before its first step.
pub proof fn lemma_push_excludes_pull(push: bool, pull: bool)
    ensures
        mode_of(push, pull) is Err <==> push && pull,
        !push && !pull ==> mode_of(push, pull) == Ok::<Mode, UsageError>(Mode::Reconcile),
{
}

/// A reconcile whose remote sidecar carries the digest of the local tree
/// ends at once: after reading the sidecar and listing the tree it reads no
/// archive, runs no merge and writes nothing.
pub proof fn lemma_equal_digests_end_reconcile(
    r: Run,
    sidecar: Seq<u8>,
    listing: Seq<EntryView>,
)
    requires
        r.phase == Phase::ReadingSidecar,
        sidecar == sidecar_bytes(tree_digest(listing)),
    ensures
        answer(r, EventView::Bytes(sidecar)) == (ActionView::Walk { dir: r.cfg.dir }),
        next(after(r, EventView::Bytes(sidecar)), EventView::Listing(Some(listing))) == finish(
            Outcome::UpToDate,
        ),
{
    lemma_sidecar_matches(sidecar, tree_digest(listing));
}

/// A reconcile goes on to pull into staging whenever it cannot tell that
/// both sides agree: the remote sidecar is absent or carries another digest,
/// or the local tree has no digest.
pub proof fn lemma_unequal_digests_pull(r: Run, far: EventView, near: EventView)
    requires
        r.phase == Phase::ReadingSidecar,
        match (far, near) {
            (EventView::Bytes(sidecar), EventView::Listing(Some(listing))) => sidecar
                != sidecar_bytes(tree_digest(listing)),
            _ => true,
        },
    ensures
        answer(r, far) == (ActionView::Walk { dir: r.cfg.dir }),
        next(after(r, far), near) == begin_pull(r, Place::Staging),
        answer(after(r, far), near) == (ActionView::Read { file: r.cfg.tar }),
{
    match (far, near) {
        (EventView::Bytes(sidecar), EventView::Listing(Some(listing))) => {
            lemma_sidecar_matches(sidecar, tree_digest(listing));
        },
        _ => {},
    }
}

/// The steps of a push once it is under way: the tree is listed, packed and
/// encrypted, the encrypted archive is written as it came, and the sidecar
/// that follows carries the digest of the listing. A warning from the
/// archive's transfer does not keep the sidecar back.
pub proof fn lemma_push_steps(
    r: Run,
    listing: Seq<EntryView>,
    packed: Seq<u8>,
    sealed: Seq<u8>,
    status: Option<i32>,
)
    requires
        r.phase == Phase::Walking,
    ensures
        ({
            let r1 = after(r, EventView::Listing(Some(listing)));
            let r2 = after(r1, EventView::Bytes(packed));
            let r3 = after(r2, EventView::Bytes(sealed));
            let r4 = after(r3, EventView::Status(status));
            &&& answer(r, EventView::Listing(Some(listing))) == (ActionView::Pack {
                dir: r.cfg.dir,
            })
            &&& answer(r1, EventView::Bytes(packed)) == (ActionView::Encrypt {
                bytes: packed,
                recipient: r.cfg.gpg_id,
                engine: r.cfg.gpg_bin,
                symmetric: r.cfg.symmetric,
                armor: true,
            })
            &&& answer(r2, EventView::Bytes(sealed)) == write_step(r, sealed, r.cfg.tar)
            &&& answer(r3, EventView::Status(status)) == write_step(
                r,
                sidecar_bytes(tree_digest(listing)),
                r.cfg.tar_hash,
            )
            &&& r4.phase == Phase::WritingSidecar
        }),
{
}

/// A push whose tree has no digest still writes the archive, and then ends
/// without writing a sidecar.
pub proof fn lemma_push_without_digest(
    r: Run,
    packed: Seq<u8>,
    sealed: Seq<u8>,
    status: Option<i32>,
)
    requires
        r.phase == Phase::Walking,
        r.mode == Mode::Push,
    ensures
        ({
            let r1 = after(r, EventView::Listing(None));
            let r2 = after(r1, EventView::Bytes(packed));
            let r3 = after(r2, EventView::Bytes(sealed));
            &&& answer(r2, EventView::Bytes(sealed)) == write_step(r, sealed, r.cfg.tar)
            &&& next(r3, EventView::Status(status)) == finish(Outcome::Pushed)
        }),
{
}

/// Reconciling twice transfers nothing the second time. The sidecar that the
/// first run writes for its tree is the one that a second run, finding a
/// tree of the same digest, takes as proof that nothing changed.
pub proof fn lemma_second_reconcile_transfers_nothing(
    first: Run,
    second: Run,
    listing: Seq<EntryView>,
    again: Seq<EntryView>,
    packed: Seq<u8>,
    sealed: Seq<u8>,
    status: Option<i32>,
)
    requires
        first.phase == Phase::Walking,
        second.phase == Phase::ReadingSidecar,
        second.cfg == first.cfg,
        tree_digest(again) == tree_digest(listing),
    ensures
        ({
            let r1 = after(first, EventView::Listing(Some(listing)));
            let r2 = after(r1, EventView::Bytes(packed));
            let r3 = after(r2, EventView::Bytes(sealed));
            let written = sidecar_bytes(tree_digest(listing));
            &&& answer(r3, EventView::Status(status)) == write_step(
                first,
                written,
                first.cfg.tar_hash,
            )
            &&& first_step(second.cfg, Mode::Reconcile).1 == (ActionView::Read {
                file: first.cfg.tar_hash,
            })
            &&& answer(second, EventView::Bytes(written)) == (ActionView::Walk {
                dir: second.cfg.dir,
            })
            &&& next(after(second, EventView::Bytes(written)), EventView::Listing(Some(again)))
                == finish(Outcome::UpToDate)
        }),
{
    lemma_sidecar_matches(sidecar_bytes(tree_digest(listing)), tree_digest(again));
}

/// A push that finds the remote archive in place asks before it overwrites,
/// unless consent is assumed; and an answer that gives no consent ends the
/// run as a success, with nothing listed, packed or written.
pub proof fn lemma_push_asks_before_overwriting(r: Run, line: Seq<char>)
    requires
        r.phase == Phase::ProbingRemote,
        !r.assume_yes,
    ensures
        ({
            let found = EventView::Status(Some(0));
            &&& answer(r, found) == (ActionView::Ask { prompt: Prompt::OverwriteRemote })
            &&& !affirms(line) ==> next(after(r, found), EventView::Answer(line)) == finish(
                Outcome::Declined,
            )
            &&& affirms(line) ==> next(after(r, found), EventView::Answer(line)) == begin_push(r)
            &&& Outcome::Declined.status() == 0
        }),
{
}

/// A push goes ahead unasked where the remote archive is absent or consent
/// is assumed, and fails where the remote state cannot be told.
pub proof fn lemma_push_probe(r: Run, status: Option<i32>)
    requires
        r.phase == Phase::ProbingRemote,
    ensures
        presence(status) == Ok::<bool, TransportError>(false) ==> next(
            r,
            EventView::Status(status),
        ) == begin_push(r),
        presence(status) is Ok && r.assume_yes ==> next(r, EventView::Status(status))
            == begin_push(r),
        presence(status) is Err ==> next(r, EventView::Status(status)) == finish(
            Outcome::Failed(Stage::Probe),
        ),
{
}

/// A pull with consent assumed asks nothing: found or not, the local
/// directory is written over by what the remote archive holds. Without it,
/// a directory that exists makes the run ask first.
pub proof fn lemma_pull_steps(r: Run, exists: bool, sealed: Seq<u8>, packed: Seq<u8>)
    requires
        r.phase == Phase::ProbingLocal,
    ensures
        ({
            let r1 = after(r, EventView::Found(exists));
            let r2 = after(r1, EventView::Bytes(sealed));
            let r3 = after(r2, EventView::Bytes(packed));
            &&& exists && !r.assume_yes ==> answer(r, EventView::Found(exists)) == (
            ActionView::Ask { prompt: Prompt::OverwriteLocal })
            &&& r.assume_yes || !exists ==> {
                &&& answer(r, EventView::Found(exists)) == (ActionView::Read { file: r.cfg.tar })
                &&& answer(r1, EventView::Bytes(sealed)) == (ActionView::Decrypt {
                    bytes: sealed,
                    engine: r.cfg.gpg_bin,
                })
                &&& answer(r2, EventView::Bytes(packed)) == (ActionView::Unpack {
                    bytes: packed,
                    dest: r.cfg.dir,
                })
                &&& next(r3, EventView::Done) == finish(Outcome::Pulled)
            }
        }),
{
}

/// A reconcile that finds no remote sidecar goes the whole way: it pulls the
/// archive into staging, merges, pushes the live directory back, removes the
/// staging directory and ends.
pub proof fn lemma_reconcile_without_sidecar(
    r: Run,
    near: Option<Seq<EntryView>>,
    sealed: Seq<u8>,
    packed: Seq<u8>,
    merged: Seq<EntryView>,
    repacked: Seq<u8>,
    resealed: Seq<u8>,
    s1: Option<i32>,
    s2: Option<i32>,
    removed: EventView,
)
    requires
        r.phase == Phase::ReadingSidecar,
        r.mode == Mode::Reconcile,
    ensures
        ({
            let r1 = after(r, EventView::Failed);
            let r2 = after(r1, EventView::Listing(near));
            let r3 = after(r2, EventView::Bytes(sealed));
            let r4 = after(r3, EventView::Bytes(packed));
            let r5 = after(r4, EventView::Done);
            let r6 = after(r5, EventView::Merged(true));
            let r7 = after(r6, EventView::Listing(Some(merged)));
            let r8 = after(r7, EventView::Bytes(repacked));
            let r9 = after(r8, EventView::Bytes(resealed));
            let r10 = after(r9, EventView::Status(s1));
            let r11 = after(r10, EventView::Status(s2));
            &&& answer(r, EventView::Failed) == (ActionView::Walk { dir: r.cfg.dir })
            &&& answer(r1, EventView::Listing(near)) == (ActionView::Read { file: r.cfg.tar })
            &&& answer(r2, EventView::Bytes(sealed)) == (ActionView::Decrypt {
                bytes: sealed,
                engine: r.cfg.gpg_bin,
            })
            &&& answer(r3, EventView::Bytes(packed)) == (ActionView::Unpack {
                bytes: packed,
                dest: r.cfg.temp,
            })
            &&& answer(r4, EventView::Done) == (ActionView::Merge {
                command: merge_command_of(r.cfg.dir, r.cfg.temp, r.assume_yes),
            })
            &&& answer(r5, EventView::Merged(true)) == (ActionView::Walk { dir: r.cfg.dir })
            &&& answer(r6, EventView::Listing(Some(merged))) == (ActionView::Pack {
                dir: r.cfg.dir,
            })
            &&& answer(r8, EventView::Bytes(resealed)) == write_step(r, resealed, r.cfg.tar)
            &&& answer(r9, EventView::Status(s1)) == write_step(
                r,
                sidecar_bytes(tree_digest(merged)),
                r.cfg.tar_hash,
            )
            &&& answer(r10, EventView::Status(s2)) == (ActionView::RemoveStaging {
                dir: r.cfg.temp,
            })
            &&& next(r11, removed) == finish(Outcome::Reconciled)
        }),
{
}

/// After a merge that reported a failure the run asks before it pushes,
/// unless consent is assumed; a refusal ends it by way of the cleanup.
pub proof fn lemma_failed_merge_asks(r: Run, line: Seq<char>)
    requires
        r.phase == Phase::Merging,
    ensures
        ({
            let failed = EventView::Merged(false);
            &&& r.assume_yes ==> next(r, failed) == begin_push(r)
            &&& !r.assume_yes ==> answer(r, failed) == (ActionView::Ask {
                prompt: Prompt::PushAfterFailedMerge,
            })
            &&& !r.assume_yes && !affirms(line) ==> next(
                after(r, failed),
                EventView::Answer(line),
            ) == clean_up(r, Outcome::Declined)
            &&& !r.assume_yes && affirms(line) ==> next(after(r, failed), EventView::Answer(line))
                == begin_push(r)
        }),
{
}

/// A run that uses a staging directory never ends without removing it:
/// whatever a step brings, failure included, the run either goes on with the
/// directory still in use, or turns to removing it and keeps its outcome for
/// afterwards. Once the removal was tried the run ends with that outcome,
/// whether or not the removal succeeded.
pub proof fn lemma_staging_is_removed(r: Run, ev: EventView)
    requires
        staging_in_use(r),
    ensures
        !(answer(r, ev) is Finish),
        staging_in_use(after(r, ev)) || (after(r, ev).phase is Cleaning && next(r, ev) == clean_up(
            r,
            after(r, ev).phase->Cleaning_outcome,
        )),
        forall|removal: EventView|
            after(r, ev).phase is Cleaning ==> #[trigger] next(after(r, ev), removal) == finish(
                after(r, ev).phase->Cleaning_outcome,
            ),
{
}

/// A reconcile takes up its staging directory only when it starts to pull,
/// and from then on the directory is in use.
pub proof fn lemma_reconcile_enters_staging(r: Run, ev: EventView)
    requires
        r.phase is Comparing,
        r.mode == Mode::Reconcile,
    ensures
        next(r, ev) == finish(Outcome::UpToDate) || (next(r, ev) == begin_pull(r, Place::Staging)
            && staging_in_use(after(r, ev))),
{
}

/// How far a run has come.
pub open spec fn progress(p: Phase) -> nat {
    match p {
        Phase::ProbingRemote => 0,
        Phase::ProbingLocal => 0,
        Phase::ReadingSidecar => 0,
        Phase::ConfirmingPush => 1,
        Phase::ConfirmingPull => 1,
        Phase::Comparing { .. } => 1,
        Phase::Fetching { .. } => 2,
        Phase::Decrypting { .. } => 3,
        Phase::Unpacking { .. } => 4,
        Phase::Merging => 5,
        Phase::ConfirmingMerge => 6,
        Phase::Walking => 7,
        Phase::Packing { .. } => 8,
        Phase::Encrypting { .. } => 9,
        Phase::WritingArchive { .. } => 10,
        Phase::WritingSidecar => 11,
        Phase::Cleaning { .. } => 12,
        Phase::Finished { .. } => 13,
    }
}

/// Every step brings a run closer to its end, so every run ends: no phase is
/// entered twice, and a finished run stays finished with its outcome.
pub proof fn lemma_every_step_advances(r: Run, ev: EventView)
    ensures
        !(r.phase is Finished) ==> progress(next(r, ev).0) > progress(r.phase),
        progress(next(r, ev).0) <= 13,
        answer(r, ev) is Finish <==> next(r, ev).0 is Finished,
        r.phase matches Phase::Finished { outcome } ==> next(r, ev) == finish(outcome),
{
}

/// A run fails only on a step it cannot do without: a digest that cannot be
/// had, a warning from a transfer and a staging directory that cannot be
/// removed fail nothing.
pub proof fn lemma_soft_failures(r: Run, status: Option<i32>)
    ensures
        r.phase == Phase::Walking ==> answer(r, EventView::Failed) == (ActionView::Pack {
            dir: r.cfg.dir,
        }),
        r.phase is WritingArchive || r.phase == Phase::WritingSidecar ==> !(next(
            r,
            EventView::Status(status),
        ) == finish(Outcome::Failed(Stage::Write))) && !(next(r, EventView::Status(status))
            == clean_up(r, Outcome::Failed(Stage::Write))),
        r.phase == (Phase::Cleaning { outcome: pushed(r) }) ==> next(r, EventView::Failed)
            == finish(pushed(r)),
{
}

/// The run after a sequence of steps, each answering one event.
pub open spec fn after_all(r: Run, events: Seq<EventView>) -> Run
    decreases events.len(),
{
    if events.len() == 0 {
        r
    } else {
        after(after_all(r, events.drop_last()), events.last())
    }
}

/// The step that answers the event at position `k` of a sequence.
pub open spec fn answer_at(r: Run, events: Seq<EventView>, k: int) -> ActionView {
    answer(after_all(r, events.take(k)), events[k])
}

proof fn lemma_after_all_unfolds(r: Run, events: Seq<EventView>)
    requires
        events.len() > 0,
    ensures
        after_all(r, events) == after_all(after(r, events[0]), events.drop_first()),
    decreases events.len(),
{
    if events.len() == 1 {
        assert(events.drop_last() =~= Seq::<EventView>::empty());
        assert(events.drop_first() =~= Seq::<EventView>::empty());
        assert(after_all(r, events.drop_last()) == r);
    } else {
        let init = events.drop_last();
        lemma_after_all_unfolds(r, init);
        assert(init.drop_first() =~= events.drop_first().drop_last());
        assert(init[0] == events[0]);
        assert(events.drop_first().last() == events.last());
    }
}

proof fn lemma_after_all_keeps_settings(r: Run, events: Seq<EventView>)
    ensures
        after_all(r, events).cfg == r.cfg,
        after_all(r, events).mode == r.mode,
        after_all(r, events).assume_yes == r.assume_yes,
        after_all(r, events).strategy == r.strategy,
    decreases events.len(),
{
    if events.len() > 0 {
        lemma_after_all_keeps_settings(r, events.drop_last());
    }
}

proof fn lemma_finished_stays(r: Run, events: Seq<EventView>)
    requires
        r.phase is Finished,
    ensures
        after_all(r, events).phase == r.phase,
    decreases events.len(),
{
    if events.len() > 0 {
        lemma_finished_stays(r, events.drop_last());
    }
}

/// Every run ends: whatever the steps bring, none is left to take after
/// thirteen of them.
pub proof fn lemma_every_run_ends(r: Run, events: Seq<EventView>)
    ensures
        progress(after_all(r, events).phase) >= progress(r.phase),
        after_all(r, events).phase is Finished || progress(after_all(r, events).phase)
            >= events.len(),
        events.len() >= 13 ==> after_all(r, events).phase is Finished,
    decreases events.len(),
{
    if events.len() > 0 {
        lemma_every_run_ends(r, events.drop_last());
        lemma_every_step_advances(after_all(r, events.drop_last()), events.last());
    }
}

/// Whether an event is an answer that gives consent.
pub open spec fn consents(ev: EventView) -> bool {
    ev matches EventView::Answer(line) && affirms(line)
}

/// A push that may not assume consent writes nothing to the remote host
/// unless it found the archive absent, or found it and the operator
/// consented: whatever else the steps bring, no step of the run is a write.
pub proof fn lemma_push_writes_only_with_consent(r: Run, events: Seq<EventView>, k: int)
    requires
        r.phase == Phase::ProbingRemote,
        !r.assume_yes,
        0 <= k < events.len(),
        answer_at(r, events, k) is Write,
    ensures
        events[0] matches EventView::Status(code) && match presence(code) {
            Ok(true) => k >= 2 && consents(events[1]),
            Ok(false) => k >= 1,
            Err(_) => false,
        },
{
    let seen = events.take(k);
    if k >= 1 {
        lemma_after_all_unfolds(r, seen);
        let r1 = after(r, events[0]);
        let rest = seen.drop_first();
        assert(seen[0] == events[0]);
        if r1.phase is Finished {
            lemma_finished_stays(r1, rest);
        } else if r1.phase == Phase::ConfirmingPush {
            if k >= 2 {
                lemma_after_all_unfolds(r1, rest);
                assert(rest[0] == events[1]);
                let r2 = after(r1, events[1]);
                if r2.phase is Finished {
                    lemma_finished_stays(r2, rest.drop_first());
                }
            } else {
                assert(rest =~= Seq::<EventView>::empty());
            }
        }
    } else {
        assert(seen =~= Seq::<EventView>::empty());
    }
}

/// A pull that may not assume consent unpacks nothing unless it found the
/// local directory absent, or found it and the operator consented.
pub proof fn lemma_pull_unpacks_only_with_consent(r: Run, events: Seq<EventView>, k: int)
    requires
        r.phase == Phase::ProbingLocal,
        !r.assume_yes,
        0 <= k < events.len(),
        answer_at(r, events, k) is Unpack,
    ensures
        events[0] matches EventView::Found(exists) && (exists ==> k >= 2 && consents(events[1])),
{
    let seen = events.take(k);
    if k >= 1 {
        lemma_after_all_unfolds(r, seen);
        let r1 = after(r, events[0]);
        let rest = seen.drop_first();
        assert(seen[0] == events[0]);
        if r1.phase is Finished {
            lemma_finished_stays(r1, rest);
        } else if r1.phase == Phase::ConfirmingPull {
            if k >= 2 {
                lemma_after_all_unfolds(r1, rest);
                assert(rest[0] == events[1]);
                let r2 = after(r1, events[1]);
                if r2.phase is Finished {
                    lemma_finished_stays(r2, rest.drop_first());
                }
            } else {
                assert(rest =~= Seq::<EventView>::empty());
            }
        }
    } else {
        assert(seen =~= Seq::<EventView>::empty());
    }
}

/// A run stays in the phases of its mode, whatever its steps bring.
pub proof fn lemma_runs_stay_consistent(r: Run, events: Seq<EventView>)
    requires
        consistent(r),
    ensures
        consistent(after_all(r, events)),
        after_all(r, events).mode == r.mode,
    decreases events.len(),
{
    if events.len() > 0 {
        lemma_runs_stay_consistent(r, events.drop_last());
    }
}

/// A pull sends nothing to the remote host and leaves the staging directory
/// alone: no step of it lists, packs, encrypts, writes, merges or removes.
pub proof fn lemma_pull_only_pulls(r: Run, events: Seq<EventView>, k: int)
    requires
        consistent(r),
        r.mode == Mode::Pull,
        0 <= k < events.len(),
    ensures
        ({
            let step = answer_at(r, events, k);
            !(step is Walk) && !(step is Pack) && !(step is Encrypt) && !(step is Write) && !(step
                is Merge) && !(step is RemoveStaging) && !(step is ProbeRemote)
        }),
        answer_at(r, events, k) matches ActionView::Unpack { dest, .. } ==> dest == r.cfg.dir,
{
    lemma_runs_stay_consistent(r, events.take(k));
    lemma_after_all_keeps_settings(r, events.take(k));
}

/// A push takes nothing from the remote host: no step of it reads, decrypts,
/// unpacks, merges or removes.
pub proof fn lemma_push_only_pushes(r: Run, events: Seq<EventView>, k: int)
    requires
        consistent(r),
        r.mode == Mode::Push,
        0 <= k < events.len(),
    ensures
        ({
            let step = answer_at(r, events, k);
            !(step is Read) && !(step is Decrypt) && !(step is Unpack) && !(step is Merge) && !(step
                is RemoveStaging) && !(step is ProbeLocal)
        }),
{
    lemma_runs_stay_consistent(r, events.take(k));
}

/// A reconcile unpacks into the staging directory only, never over the live
/// one.
pub proof fn lemma_reconcile_unpacks_into_staging(r: Run, events: Seq<EventView>, k: int)
    requires
        consistent(r),
        r.mode == Mode::Reconcile,
        0 <= k < events.len(),
    ensures
        answer_at(r, events, k) matches ActionView::Unpack { dest, .. } ==> dest == r.cfg.temp,
{
    lemma_runs_stay_consistent(r, events.take(k));
    lemma_after_all_keeps_settings(r, events.take(k));
}

/// However a reconcile ends, the step before its end is the removal of the
/// staging directory, unless it ends as up to date, before it ever used one.
pub proof fn lemma_reconcile_ends_after_cleanup(r: Run, events: Seq<EventView>, k: int)
    requires
        r.mode == Mode::Reconcile,
        r.phase == Phase::ReadingSidecar,
        0 <= k < events.len(),
        answer_at(r, events, k) is Finish,
        !(after_all(r, events.take(k)).phase is Finished),
    ensures
        answer_at(r, events, k) == ActionView::Finish(Outcome::UpToDate) || (k >= 1 && answer_at(
            r,
            events,
            k - 1,
        ) == (ActionView::RemoveStaging { dir: r.cfg.temp })),
{
    let seen = events.take(k);
    let now = after_all(r, seen);
    lemma_runs_stay_consistent(r, seen);
    if now.phase is Cleaning {
        assert(k >= 1);
        assert(seen.drop_last() =~= events.take(k - 1));
        assert(seen.last() == events[k - 1]);
        let before = after_all(r, events.take(k - 1));
        lemma_after_all_keeps_settings(r, events.take(k - 1));
        assert(now == after(before, events[k - 1]));
    }
}

} // verus!
