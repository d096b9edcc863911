//! The run itself: a push, a pull or a reconcile, as a machine that is told
//! what the last step brought and answers with the next step to take. The
//! caller carries the steps out; every decision is taken here.

use crate::config::{optional_text, Config, ConfigView};
use crate::confirm::{affirms, is_yes, Prompt};
use crate::digest::{digest_walk, walk_digest, walked, Entry, EntryView};
use crate::sidecar::{decode_sidecar, encode_sidecar, sidecar_bytes, sidecar_value};
use crate::transport::{
    exists_command, exists_command_of, interpret_test_status, merge_command, merge_command_of,
    piped_write_command, piped_write_command_of, presence, select_strategy, staged_copy_command,
    staged_copy_command_of, Command, CommandView, Strategy,
};
use vstd::prelude::*;
use vstd::string::*;

verus! {

/// What a run does.
#[derive(Clone, Copy, Debug, PartialEq, Eq, Structural)]
pub enum Mode {
    /// Copy the local directory to the remote, whatever is there.
    Push,
    /// Copy the remote archive over the local directory.
    Pull,
    /// Pull into staging, merge, and push the result back.
    Reconcile,
}

/// A combination of flags that names no mode.
#[derive(Clone, Copy, Debug, PartialEq, Eq, Structural)]
pub enum UsageError {
    /// Both a push and a pull were asked for.
    PushAndPull,
}

/// The mode that the flags name: a reconcile where neither is set, nothing
/// where both are.
pub open spec fn mode_of(push: bool, pull: bool) -> Result<Mode, UsageError> {
    if push && pull {
        Err(UsageError::PushAndPull)
    } else if push {
        Ok(Mode::Push)
    } else if pull {
        Ok(Mode::Pull)
    } else {
        Ok(Mode::Reconcile)
    }
}

/// Chooses the mode of a run from its flags.
pub fn select_mode(push: bool, pull: bool) -> (r: Result<Mode, UsageError>)
    ensures
        r == mode_of(push, pull),
{
    if push && pull {
        Err(UsageError::PushAndPull)
    } else if push {
        Ok(Mode::Push)
    } else if pull {
        Ok(Mode::Pull)
    } else {
        Ok(Mode::Reconcile)
    }
}

/// The step at which a run failed.
#[derive(Clone, Copy, Debug, PartialEq, Eq, Structural)]
pub enum Stage {
    /// Testing whether the remote archive or the local directory exists.
    Probe,
    /// Asking the operator.
    Confirm,
    /// Packing the local directory.
    Pack,
    /// Encrypting the archive.
    Encrypt,
    /// Writing to the remote host.
    Write,
    /// Reading the remote archive.
    Read,
    /// Decrypting the archive.
    Decrypt,
    /// Unpacking the archive.
    Unpack,
    /// Running the merge engine.
    Merge,
}

/// How a run ended.
#[derive(Clone, Copy, Debug, PartialEq, Eq, Structural)]
pub enum Outcome {
    /// Local and remote already agree; nothing was transferred.
    UpToDate,
    /// The local directory was pushed.
    Pushed,
    /// The remote archive was pulled.
    Pulled,
    /// The remote archive was merged in and the result pushed back.
    Reconciled,
    /// The operator declined; nothing was overwritten.
    Declined,
    /// A step failed that the run cannot do without.
    Failed(Stage),
}

impl Outcome {
    /// The status the process ends with: zero unless the run failed.
    pub open spec fn status(self) -> i32 {
        match self {
            Outcome::Failed(_) => 1,
            _ => 0,
        }
    }

    /// The status the process ends with.
    pub fn exit_status(self) -> (r: i32)
        ensures
            r == self.status(),
    {
        match self {
            Outcome::Failed(_) => 1,
            _ => 0,
        }
    }
}

/// Where an archive is unpacked.
#[derive(Clone, Copy, Debug, PartialEq, Eq, Structural)]
pub enum Place {
    /// The live local directory.
    Live,
    /// The staging directory.
    Staging,
}

/// Where a run stands: which answer it waits for.
#[derive(Clone, Copy, Debug, PartialEq, Eq, Structural)]
pub enum Phase {
    /// Push: whether the remote archive exists.
    ProbingRemote,
    /// Push: whether to overwrite the remote archive.
    ConfirmingPush,
    /// Pull: whether the local directory exists.
    ProbingLocal,
    /// Pull: whether to overwrite the local directory.
    ConfirmingPull,
    /// Reconcile: the remote sidecar.
    ReadingSidecar,
    /// Reconcile: the listing of the local tree, to hold against the digest
    /// that the remote sidecar carried, if it carried one.
    Comparing { remote: Option<u64> },
    /// The remote archive.
    Fetching { place: Place },
    /// The decrypted archive.
    Decrypting { place: Place },
    /// The end of unpacking.
    Unpacking { place: Place },
    /// Reconcile: the merge engine's verdict.
    Merging,
    /// Reconcile: whether to push after a failed merge.
    ConfirmingMerge,
    /// The listing of the local tree that is about to be pushed.
    Walking,
    /// The packed archive; `digest` is that of the tree, if it could be had.
    Packing { digest: Option<u64> },
    /// The encrypted archive.
    Encrypting { digest: Option<u64> },
    /// The end of the archive's transfer.
    WritingArchive { digest: Option<u64> },
    /// The end of the sidecar's transfer.
    WritingSidecar,
    /// Reconcile: the removal of the staging directory.
    Cleaning { outcome: Outcome },
    /// The run is over.
    Finished { outcome: Outcome },
}

/// What a step brought.
#[derive(Debug, PartialEq, Eq)]
pub enum Event {
    /// A command ended, with this exit status if it had one.
    Status(Option<i32>),
    /// Whether the local directory exists.
    Found(bool),
    /// The line the operator typed.
    Answer(String),
    /// The entries of the local tree; nothing where its root cannot be walked.
    Listing(Option<Vec<Entry>>),
    /// The bytes that were packed, encrypted, read or decrypted.
    Bytes(Vec<u8>),
    /// Whether the merge engine reported success.
    Merged(bool),
    /// The step was carried out and brought nothing back.
    Done,
    /// The step could not be carried out.
    Failed,
}

/// An `Event` as contracts speak of it.
pub enum EventView {
    Status(Option<i32>),
    Found(bool),
    Answer(Seq<char>),
    Listing(Option<Seq<EntryView>>),
    Bytes(Seq<u8>),
    Merged(bool),
    Done,
    Failed,
}

impl View for Event {
    type V = EventView;

    open spec fn view(&self) -> EventView {
        match self {
            Event::Status(c) => EventView::Status(*c),
            Event::Found(b) => EventView::Found(*b),
            Event::Answer(s) => EventView::Answer(s@),
            Event::Listing(walk) => EventView::Listing(walked(*walk)),
            Event::Bytes(b) => EventView::Bytes(b@),
            Event::Merged(b) => EventView::Merged(*b),
            Event::Done => EventView::Done,
            Event::Failed => EventView::Failed,
        }
    }
}

/// The next step for the caller to take.
#[derive(Debug, PartialEq, Eq)]
pub enum Action {
    /// Run `command` on the remote host to test whether `file` exists there;
    /// answer with its status.
    ProbeRemote { file: String, command: Command },
    /// Test whether the directory `dir` exists locally.
    ProbeLocal { dir: String },
    /// Put a question to the operator and answer with the line typed.
    Ask { prompt: Prompt },
    /// List the tree under `dir`.
    Walk { dir: String },
    /// Pack the tree under `dir` into an archive.
    Pack { dir: String },
    /// Encrypt `bytes` for `recipient`, or with a passphrase where
    /// `symmetric`; with the engine at `engine` where one is given, and with
    /// armored output where `armor`.
    Encrypt {
        bytes: Vec<u8>,
        recipient: String,
        engine: Option<String>,
        symmetric: bool,
        armor: bool,
    },
    /// Write `bytes` to the remote `file`: pipe them to `command` on the
    /// remote host, or stage them in a local file of that name and run
    /// `command` locally; answer with the command's status.
    Write { bytes: Vec<u8>, file: String, strategy: Strategy, command: Command },
    /// Read the remote `file`.
    Read { file: String },
    /// Decrypt `bytes`, with the engine at `engine` where one is given.
    Decrypt { bytes: Vec<u8>, engine: Option<String> },
    /// Unpack the archive `bytes` into `dest`.
    Unpack { bytes: Vec<u8>, dest: String },
    /// Run the merge engine on the live and the staging directory.
    Merge { command: Command },
    /// Remove the staging directory.
    RemoveStaging { dir: String },
    /// Stop: the run is over.
    Finish(Outcome),
}

/// An `Action` as contracts speak of it.
pub enum ActionView {
    ProbeRemote { file: Seq<char>, command: CommandView },
    ProbeLocal { dir: Seq<char> },
    Ask { prompt: Prompt },
    Walk { dir: Seq<char> },
    Pack { dir: Seq<char> },
    Encrypt {
        bytes: Seq<u8>,
        recipient: Seq<char>,
        engine: Option<Seq<char>>,
        symmetric: bool,
        armor: bool,
    },
    Write { bytes: Seq<u8>, file: Seq<char>, strategy: Strategy, command: CommandView },
    Read { file: Seq<char> },
    Decrypt { bytes: Seq<u8>, engine: Option<Seq<char>> },
    Unpack { bytes: Seq<u8>, dest: Seq<char> },
    Merge { command: CommandView },
    RemoveStaging { dir: Seq<char> },
    Finish(Outcome),
}

impl View for Action {
    type V = ActionView;

    open spec fn view(&self) -> ActionView {
        match self {
            Action::ProbeRemote { file, command } => ActionView::ProbeRemote {
                file: file@,
                command: command@,
            },
            Action::ProbeLocal { dir } => ActionView::ProbeLocal { dir: dir@ },
            Action::Ask { prompt } => ActionView::Ask { prompt: *prompt },
            Action::Walk { dir } => ActionView::Walk { dir: dir@ },
            Action::Pack { dir } => ActionView::Pack { dir: dir@ },
            Action::Encrypt { bytes, recipient, engine, symmetric, armor } => ActionView::Encrypt {
                bytes: bytes@,
                recipient: recipient@,
                engine: optional_text(*engine),
                symmetric: *symmetric,
                armor: *armor,
            },
            Action::Write { bytes, file, strategy, command } => ActionView::Write {
                bytes: bytes@,
                file: file@,
                strategy: *strategy,
                command: command@,
            },
            Action::Read { file } => ActionView::Read { file: file@ },
            Action::Decrypt { bytes, engine } => ActionView::Decrypt {
                bytes: bytes@,
                engine: optional_text(*engine),
            },
            Action::Unpack { bytes, dest } => ActionView::Unpack { bytes: bytes@, dest: dest@ },
            Action::Merge { command } => ActionView::Merge { command: command@ },
            Action::RemoveStaging { dir } => ActionView::RemoveStaging { dir: dir@ },
            Action::Finish(outcome) => ActionView::Finish(*outcome),
        }
    }
}

/// A run: its settings, which never change, and where it stands.
#[derive(Debug)]
pub struct Orchestrator {
    /// The profile the run works on.
    pub cfg: Config,
    /// What the run does.
    pub mode: Mode,
    /// Whether every question counts as answered with yes.
    pub assume_yes: bool,
    /// How remote files are written.
    pub strategy: Strategy,
    /// Where the run stands.
    pub phase: Phase,
}

/// An `Orchestrator` as contracts speak of it.
pub struct Run {
    pub cfg: ConfigView,
    pub mode: Mode,
    pub assume_yes: bool,
    pub strategy: Strategy,
    pub phase: Phase,
}

impl View for Orchestrator {
    type V = Run;

    open spec fn view(&self) -> Run {
        Run {
            cfg: self.cfg@,
            mode: self.mode,
            assume_yes: self.assume_yes,
            strategy: self.strategy,
            phase: self.phase,
        }
    }
}

/// The step that writes `bytes` to the remote `file`: with the command that
/// the run's strategy calls for.
pub open spec fn write_step(r: Run, bytes: Seq<u8>, file: Seq<char>) -> ActionView {
    ActionView::Write {
        bytes,
        file,
        strategy: r.strategy,
        command: match r.strategy {
            Strategy::PipedWrite => piped_write_command_of(file),
            Strategy::StagedCopy => staged_copy_command_of(file, r.cfg.sshaddr),
        },
    }
}

/// The first step of a run, and the phase it leaves the run in.
pub open spec fn first_step(cfg: ConfigView, mode: Mode) -> (Phase, ActionView) {
    match mode {
        Mode::Push => (
            Phase::ProbingRemote,
            ActionView::ProbeRemote { file: cfg.tar, command: exists_command_of(cfg.tar) },
        ),
        Mode::Pull => (Phase::ProbingLocal, ActionView::ProbeLocal { dir: cfg.dir }),
        Mode::Reconcile => (Phase::ReadingSidecar, ActionView::Read { file: cfg.tar_hash }),
    }
}

/// The digest of the local tree that an event brought, if it brought one.
pub open spec fn local_digest(ev: EventView) -> Option<u64> {
    match ev {
        EventView::Listing(walk) => walk_digest(walk),
        _ => None,
    }
}

/// The digest that a remote sidecar carried, if the event brought one.
pub open spec fn remote_digest(ev: EventView) -> Option<u64> {
    match ev {
        EventView::Bytes(bytes) => sidecar_value(bytes),
        _ => None,
    }
}

/// Starts pushing: by listing the tree that will be pushed.
pub open spec fn begin_push(r: Run) -> (Phase, ActionView) {
    (Phase::Walking, ActionView::Walk { dir: r.cfg.dir })
}

/// Starts pulling: by reading the remote archive.
pub open spec fn begin_pull(r: Run, place: Place) -> (Phase, ActionView) {
    (Phase::Fetching { place }, ActionView::Read { file: r.cfg.tar })
}

/// Ends the run.
pub open spec fn finish(outcome: Outcome) -> (Phase, ActionView) {
    (Phase::Finished { outcome }, ActionView::Finish(outcome))
}

/// Removes the staging directory before the run ends with `outcome`.
pub open spec fn clean_up(r: Run, outcome: Outcome) -> (Phase, ActionView) {
    (Phase::Cleaning { outcome }, ActionView::RemoveStaging { dir: r.cfg.temp })
}

/// Ends a pull: at once where it went to the live directory, by way of the
/// cleanup where it went to staging.
pub open spec fn end_pull(r: Run, place: Place, outcome: Outcome) -> (Phase, ActionView) {
    match place {
        Place::Live => finish(outcome),
        Place::Staging => clean_up(r, outcome),
    }
}

/// Ends a push: by way of the cleanup in a reconcile, at once otherwise.
pub open spec fn end_push(r: Run, outcome: Outcome) -> (Phase, ActionView) {
    match r.mode {
        Mode::Reconcile => clean_up(r, outcome),
        _ => finish(outcome),
    }
}

/// What a run has done when its push is through.
pub open spec fn pushed(r: Run) -> Outcome {
    match r.mode {
        Mode::Reconcile => Outcome::Reconciled,
        _ => Outcome::Pushed,
    }
}

/// The directory an archive is unpacked into.
pub open spec fn place_dir(r: Run, place: Place) -> Seq<char> {
    match place {
        Place::Live => r.cfg.dir,
        Place::Staging => r.cfg.temp,
    }
}

/// The phases in which a reconcile owns a staging directory that it has not
/// yet removed.
pub open spec fn staging_in_use(r: Run) -> bool {
    r.mode == Mode::Reconcile && match r.phase {
        Phase::Fetching { place } => place == Place::Staging,
        Phase::Decrypting { place } => place == Place::Staging,
        Phase::Unpacking { place } => place == Place::Staging,
        Phase::Merging => true,
        Phase::ConfirmingMerge => true,
        Phase::Walking => true,
        Phase::Packing { .. } => true,
        Phase::Encrypting { .. } => true,
        Phase::WritingArchive { .. } => true,
        Phase::WritingSidecar => true,
        _ => false,
    }
}

/// A run is in a phase of its mode. A push probes the remote host, asks and
/// pushes; a pull probes the local directory, asks and pulls over it; a
/// reconcile compares, pulls into staging, merges, pushes and cleans up.
pub open spec fn consistent(r: Run) -> bool {
    match r.mode {
        Mode::Push => match r.phase {
            Phase::ProbingRemote => true,
            Phase::ConfirmingPush => true,
            Phase::Walking => true,
            Phase::Packing { .. } => true,
            Phase::Encrypting { .. } => true,
            Phase::WritingArchive { .. } => true,
            Phase::WritingSidecar => true,
            Phase::Finished { .. } => true,
            _ => false,
        },
        Mode::Pull => match r.phase {
            Phase::ProbingLocal => true,
            Phase::ConfirmingPull => true,
            Phase::Fetching { place } => place == Place::Live,
            Phase::Decrypting { place } => place == Place::Live,
            Phase::Unpacking { place } => place == Place::Live,
            Phase::Finished { .. } => true,
            _ => false,
        },
        Mode::Reconcile => r.phase == Phase::ReadingSidecar || r.phase is Comparing
            || staging_in_use(r) || r.phase is Cleaning || r.phase is Finished,
    }
}

/// The next phase and step of a run, given what the last step brought. An
/// event that the phase does not wait for counts as the step's failure.
pub open spec fn next(r: Run, ev: EventView) -> (Phase, ActionView) {
    match r.phase {
        Phase::ProbingRemote => match ev {
            EventView::Status(code) => match presence(code) {
                Ok(true) => if r.assume_yes {
                    begin_push(r)
                } else {
                    (Phase::ConfirmingPush, ActionView::Ask { prompt: Prompt::OverwriteRemote })
                },
                Ok(false) => begin_push(r),
                Err(_) => finish(Outcome::Failed(Stage::Probe)),
            },
            _ => finish(Outcome::Failed(Stage::Probe)),
        },
        Phase::ConfirmingPush => match ev {
            EventView::Answer(line) => if affirms(line) {
                begin_push(r)
            } else {
                finish(Outcome::Declined)
            },
            _ => finish(Outcome::Failed(Stage::Confirm)),
        },
        Phase::ProbingLocal => match ev {
            EventView::Found(exists) => if exists && !r.assume_yes {
                (Phase::ConfirmingPull, ActionView::Ask { prompt: Prompt::OverwriteLocal })
            } else {
                begin_pull(r, Place::Live)
            },
            _ => finish(Outcome::Failed(Stage::Probe)),
        },
        Phase::ConfirmingPull => match ev {
            EventView::Answer(line) => if affirms(line) {
                begin_pull(r, Place::Live)
            } else {
                finish(Outcome::Declined)
            },
            _ => finish(Outcome::Failed(Stage::Confirm)),
        },
        Phase::ReadingSidecar => (
            Phase::Comparing { remote: remote_digest(ev) },
            ActionView::Walk { dir: r.cfg.dir },
        ),
        Phase::Comparing { remote } => if remote is Some && remote == local_digest(ev) {
            finish(Outcome::UpToDate)
        } else {
            begin_pull(r, Place::Staging)
        },
        Phase::Fetching { place } => match ev {
            EventView::Bytes(bytes) => (
                Phase::Decrypting { place },
                ActionView::Decrypt { bytes, engine: r.cfg.gpg_bin },
            ),
            _ => end_pull(r, place, Outcome::Failed(Stage::Read)),
        },
        Phase::Decrypting { place } => match ev {
            EventView::Bytes(bytes) => (
                Phase::Unpacking { place },
                ActionView::Unpack { bytes, dest: place_dir(r, place) },
            ),
            _ => end_pull(r, place, Outcome::Failed(Stage::Decrypt)),
        },
        Phase::Unpacking { place } => match ev {
            EventView::Done => match place {
                Place::Live => finish(Outcome::Pulled),
                Place::Staging => (
                    Phase::Merging,
                    ActionView::Merge {
                        command: merge_command_of(r.cfg.dir, r.cfg.temp, r.assume_yes),
                    },
                ),
            },
            _ => end_pull(r, place, Outcome::Failed(Stage::Unpack)),
        },
        Phase::Merging => match ev {
            EventView::Merged(clean) => if clean || r.assume_yes {
                begin_push(r)
            } else {
                (
                    Phase::ConfirmingMerge,
                    ActionView::Ask { prompt: Prompt::PushAfterFailedMerge },
                )
            },
            _ => clean_up(r, Outcome::Failed(Stage::Merge)),
        },
        Phase::ConfirmingMerge => match ev {
            EventView::Answer(line) => if affirms(line) {
                begin_push(r)
            } else {
                clean_up(r, Outcome::Declined)
            },
            _ => clean_up(r, Outcome::Failed(Stage::Confirm)),
        },
        Phase::Walking => (
            Phase::Packing { digest: local_digest(ev) },
            ActionView::Pack { dir: r.cfg.dir },
        ),
        Phase::Packing { digest } => match ev {
            EventView::Bytes(bytes) => (
                Phase::Encrypting { digest },
                ActionView::Encrypt {
                    bytes,
                    recipient: r.cfg.gpg_id,
                    engine: r.cfg.gpg_bin,
                    symmetric: r.cfg.symmetric,
                    armor: true,
                },
            ),
            _ => end_push(r, Outcome::Failed(Stage::Pack)),
        },
        Phase::Encrypting { digest } => match ev {
            EventView::Bytes(bytes) => (
                Phase::WritingArchive { digest },
                write_step(r, bytes, r.cfg.tar),
            ),
            _ => end_push(r, Outcome::Failed(Stage::Encrypt)),
        },
        Phase::WritingArchive { digest } => match ev {
            EventView::Status(_) => match digest {
                Some(d) => (Phase::WritingSidecar, write_step(r, sidecar_bytes(d), r.cfg.tar_hash)),
                None => end_push(r, pushed(r)),
            },
            _ => end_push(r, Outcome::Failed(Stage::Write)),
        },
        Phase::WritingSidecar => match ev {
            EventView::Status(_) => end_push(r, pushed(r)),
            _ => end_push(r, Outcome::Failed(Stage::Write)),
        },
        Phase::Cleaning { outcome } => finish(outcome),
        Phase::Finished { outcome } => finish(outcome),
    }
}

impl Orchestrator {
    /// Sets a run up and gives its first step. Flags that name no mode are
    /// refused before any step is given.
    pub fn start(cfg: Config, push: bool, pull: bool, assume_yes: bool, scp_write: bool) -> (r:
        Result<(Orchestrator, Action), UsageError>)
        ensures
            match r {
                Ok((run, action)) => {
                    &&& mode_of(push, pull) == Ok::<Mode, UsageError>(run.mode)
                    &&& run.cfg@ == cfg@
                    &&& run.assume_yes == assume_yes
                    &&& run.strategy == if scp_write {
                        Strategy::StagedCopy
                    } else {
                        Strategy::PipedWrite
                    }
                    &&& (run.phase, action@) == first_step(cfg@, run.mode)
                    &&& consistent(run@)
                },
                Err(e) => mode_of(push, pull) == Err::<Mode, UsageError>(e),
            },
    {
        let mode = match select_mode(push, pull) {
            Ok(m) => m,
            Err(e) => {
                return Err(e);
            },
        };
        let (phase, action) = match mode {
            Mode::Push => (
                Phase::ProbingRemote,
                Action::ProbeRemote {
                    file: cfg.tar.clone(),
                    command: exists_command(cfg.tar.as_str()),
                },
            ),
            Mode::Pull => (Phase::ProbingLocal, Action::ProbeLocal { dir: cfg.dir.clone() }),
            Mode::Reconcile => (
                Phase::ReadingSidecar,
                Action::Read { file: cfg.tar_hash.clone() },
            ),
        };
        let run = Orchestrator {
            cfg,
            mode,
            assume_yes,
            strategy: select_strategy(scp_write),
            phase,
        };
        Ok((run, action))
    }

    /// Whether the run is over.
    pub fn finished(&self) -> (r: bool)
        ensures
            r == (self.phase is Finished),
    {
        match self.phase {
            Phase::Finished { .. } => true,
            _ => false,
        }
    }

    /// The alternate crypto engine, if the profile names one.
    fn engine(&self) -> (r: Option<String>)
        ensures
            optional_text(r) == self@.cfg.gpg_bin,
    {
        match &self.cfg.gpg_bin {
            Some(p) => Some(p.clone()),
            None => None,
        }
    }

    /// The step that writes `bytes` to the remote `file`.
    fn write_step(&self, bytes: Vec<u8>, file: String) -> (r: Action)
        ensures
            r@ == write_step(self@, bytes@, file@),
    {
        let command = match self.strategy {
            Strategy::PipedWrite => piped_write_command(file.as_str()),
            Strategy::StagedCopy => staged_copy_command(file.as_str(), self.cfg.sshaddr.as_str()),
        };
        Action::Write { bytes, file, strategy: self.strategy, command }
    }

    /// Starts pushing.
    fn begin_push(&self) -> (r: (Phase, Action))
        ensures
            (r.0, r.1@) == begin_push(self@),
    {
        (Phase::Walking, Action::Walk { dir: self.cfg.dir.clone() })
    }

    /// Starts pulling into `place`.
    fn begin_pull(&self, place: Place) -> (r: (Phase, Action))
        ensures
            (r.0, r.1@) == begin_pull(self@, place),
    {
        (Phase::Fetching { place }, Action::Read { file: self.cfg.tar.clone() })
    }

    /// Turns to removing the staging directory.
    fn clean_up(&self, outcome: Outcome) -> (r: (Phase, Action))
        ensures
            (r.0, r.1@) == clean_up(self@, outcome),
    {
        (Phase::Cleaning { outcome }, Action::RemoveStaging { dir: self.cfg.temp.clone() })
    }

    /// Ends a pull into `place`.
    fn end_pull(&self, place: Place, outcome: Outcome) -> (r: (Phase, Action))
        ensures
            (r.0, r.1@) == end_pull(self@, place, outcome),
    {
        match place {
            Place::Live => stop(outcome),
            Place::Staging => self.clean_up(outcome),
        }
    }

    /// Ends a push.
    fn end_push(&self, outcome: Outcome) -> (r: (Phase, Action))
        ensures
            (r.0, r.1@) == end_push(self@, outcome),
    {
        match self.mode {
            Mode::Reconcile => self.clean_up(outcome),
            _ => stop(outcome),
        }
    }

    /// What the run has done when its push is through.
    fn pushed(&self) -> (r: Outcome)
        ensures
            r == pushed(self@),
    {
        match self.mode {
            Mode::Reconcile => Outcome::Reconciled,
            _ => Outcome::Pushed,
        }
    }

    /// Takes what the last step brought and gives the next step. The
    /// settings of the run stay as they are.
    pub fn step(&mut self, event: Event) -> (action: Action)
        ensures
            (final(self).phase, action@) == next(old(self)@, event@),
            final(self).cfg == old(self).cfg,
            final(self).mode == old(self).mode,
            final(self).assume_yes == old(self).assume_yes,
            final(self).strategy == old(self).strategy,
            consistent(old(self)@) ==> consistent(final(self)@),
    {
        let (phase, action) = self.decide(event);
        self.phase = phase;
        action
    }

    /// The decision of `step`, without the change of phase.
    fn decide(&self, event: Event) -> (r: (Phase, Action))
        ensures
            (r.0, r.1@) == next(self@, event@),
    {
        match self.phase {
            Phase::ProbingRemote => match event {
                Event::Status(code) => match interpret_test_status(code) {
                    Ok(true) => if self.assume_yes {
                        self.begin_push()
                    } else {
                        (Phase::ConfirmingPush, Action::Ask { prompt: Prompt::OverwriteRemote })
                    },
                    Ok(false) => self.begin_push(),
                    Err(_) => stop(Outcome::Failed(Stage::Probe)),
                },
                _ => stop(Outcome::Failed(Stage::Probe)),
            },
            Phase::ConfirmingPush => match event {
                Event::Answer(line) => if is_yes(line.as_str()) {
                    self.begin_push()
                } else {
                    stop(Outcome::Declined)
                },
                _ => stop(Outcome::Failed(Stage::Confirm)),
            },
            Phase::ProbingLocal => match event {
                Event::Found(exists) => if exists && !self.assume_yes {
                    (Phase::ConfirmingPull, Action::Ask { prompt: Prompt::OverwriteLocal })
                } else {
                    self.begin_pull(Place::Live)
                },
                _ => stop(Outcome::Failed(Stage::Probe)),
            },
            Phase::ConfirmingPull => match event {
                Event::Answer(line) => if is_yes(line.as_str()) {
                    self.begin_pull(Place::Live)
                } else {
                    stop(Outcome::Declined)
                },
                _ => stop(Outcome::Failed(Stage::Confirm)),
            },
            Phase::ReadingSidecar => {
                let remote = match event {
                    Event::Bytes(bytes) => decode_sidecar(&bytes),
                    _ => None,
                };
                (Phase::Comparing { remote }, Action::Walk { dir: self.cfg.dir.clone() })
            },
            Phase::Comparing { remote } => {
                let local = digest_of(&event);
                let same = match (remote, local) {
                    (Some(far), Some(near)) => far == near,
                    _ => false,
                };
                if same {
                    stop(Outcome::UpToDate)
                } else {
                    self.begin_pull(Place::Staging)
                }
            },
            Phase::Fetching { place } => match event {
                Event::Bytes(bytes) => (
                    Phase::Decrypting { place },
                    Action::Decrypt { bytes, engine: self.engine() },
                ),
                _ => self.end_pull(place, Outcome::Failed(Stage::Read)),
            },
            Phase::Decrypting { place } => match event {
                Event::Bytes(bytes) => {
                    let dest = match place {
                        Place::Live => self.cfg.dir.clone(),
                        Place::Staging => self.cfg.temp.clone(),
                    };
                    (Phase::Unpacking { place }, Action::Unpack { bytes, dest })
                },
                _ => self.end_pull(place, Outcome::Failed(Stage::Decrypt)),
            },
            Phase::Unpacking { place } => match event {
                Event::Done => match place {
                    Place::Live => stop(Outcome::Pulled),
                    Place::Staging => (
                        Phase::Merging,
                        Action::Merge {
                            command: merge_command(
                                self.cfg.dir.as_str(),
                                self.cfg.temp.as_str(),
                                self.assume_yes,
                            ),
                        },
                    ),
                },
                _ => self.end_pull(place, Outcome::Failed(Stage::Unpack)),
            },
            Phase::Merging => match event {
                Event::Merged(clean) => if clean || self.assume_yes {
                    self.begin_push()
                } else {
                    (
                        Phase::ConfirmingMerge,
                        Action::Ask { prompt: Prompt::PushAfterFailedMerge },
                    )
                },
                _ => self.clean_up(Outcome::Failed(Stage::Merge)),
            },
            Phase::ConfirmingMerge => match event {
                Event::Answer(line) => if is_yes(line.as_str()) {
                    self.begin_push()
                } else {
                    self.clean_up(Outcome::Declined)
                },
                _ => self.clean_up(Outcome::Failed(Stage::Confirm)),
            },
            Phase::Walking => {
                let digest = digest_of(&event);
                (Phase::Packing { digest }, Action::Pack { dir: self.cfg.dir.clone() })
            },
            Phase::Packing { digest } => match event {
                Event::Bytes(bytes) => (
                    Phase::Encrypting { digest },
                    Action::Encrypt {
                        bytes,
                        recipient: self.cfg.gpg_id.clone(),
                        engine: self.engine(),
                        symmetric: self.cfg.symmetric,
                        armor: true,
                    },
                ),
                _ => self.end_push(Outcome::Failed(Stage::Pack)),
            },
            Phase::Encrypting { digest } => match event {
                Event::Bytes(bytes) => (
                    Phase::WritingArchive { digest },
                    self.write_step(bytes, self.cfg.tar.clone()),
                ),
                _ => self.end_push(Outcome::Failed(Stage::Encrypt)),
            },
            Phase::WritingArchive { digest } => match event {
                Event::Status(_) => match digest {
                    Some(d) => (
                        Phase::WritingSidecar,
                        self.write_step(encode_sidecar(d), self.cfg.tar_hash.clone()),
                    ),
                    None => self.end_push(self.pushed()),
                },
                _ => self.end_push(Outcome::Failed(Stage::Write)),
            },
            Phase::WritingSidecar => match event {
                Event::Status(_) => self.end_push(self.pushed()),
                _ => self.end_push(Outcome::Failed(Stage::Write)),
            },
            Phase::Cleaning { outcome } => stop(outcome),
            Phase::Finished { outcome } => stop(outcome),
        }
    }
}

/// Ends the run.
fn stop(outcome: Outcome) -> (r: (Phase, Action))
    ensures
        (r.0, r.1@) == finish(outcome),
{
    (Phase::Finished { outcome }, Action::Finish(outcome))
}

/// The digest of the local tree, where the event brought its listing.
fn digest_of(event: &Event) -> (r: Option<u64>)
    ensures
        r == local_digest(event@),
{
    match event {
        Event::Listing(walk) => digest_walk(walk),
        _ => None,
    }
}

} // verus!
