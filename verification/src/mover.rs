//! The mover: one unit of work that waits for a detected object to finish,
//! then copies it to its planned destination, retrying on failure.

use vstd::prelude::*;
use crate::detect::FsNode;
use crate::detect::spec_in_progress;
use crate::paths::FsPath;

verus! {

/// No NUL character anywhere in the name. Operating systems do not allow
/// NUL in a file name, and the title parser cannot take one.
pub open spec fn nul_free(name: Seq<char>) -> bool {
    forall|i: int| 0 <= i < name.len() ==> name[i] != '\0'
}

/// Decides `nul_free`, character by character.
pub fn is_nul_free(name: &str) -> (r: bool)
    ensures
        r == nul_free(name@),
{
    let len = name.unicode_len();
    let mut i: usize = 0;
    while i < len
        invariant
            i <= len,
            len == name@.len(),
            forall|j: int| 0 <= j < i ==> name@[j] != '\0',
        decreases len - i,
    {
        if name.get_char(i) == '\0' {
            return false;
        }
        i += 1;
    }
    true
}

/// Relies on anitomy's `Anitomy::parse` and `Elements::get`; a failed parse
/// yields no title element. `Anitomy::parse` panics on a name holding a NUL
/// character, which the `requires` excludes. Nothing is promised of the
/// result: anitomy's keyword normalization case-maps through the process's
/// locale, so the extracted title is not a function of the name's characters
/// alone. The naming logic downstream takes the title as a plain value and
/// is verified for every value of it.
#[verifier::external_body]
fn extract_title(name: &str) -> (r: Option<String>)
    requires
        nul_free(name@),
{
    let mut parser = anitomy::Anitomy::new();
    match parser.parse(name) {
        Ok(elements) => elements.get(anitomy::ElementCategory::AnimeTitle).map(
            |t| t.to_string(),
        ),
        Err(_) => None,
    }
}

/// The title extracted from a detected path's file name. What comes back
/// depends on the title parser (and, for non-ASCII names, on the process's
/// locale), so no more is stated of it; every caller carries it as a plain
/// value.
pub fn get_title(detected_file: &FsPath) -> (r: Option<String>)
    requires
        detected_file@.len() > 0,
        nul_free(detected_file@.last()),
{
    let name = detected_file.file_name().unwrap();
    extract_title(name.as_str())
}

/// One pending move: a detected object, the destination root it is headed
/// for, the placement mode, and the title extracted from its file name. It
/// lives until the copy succeeds and is never persisted.
pub struct Mover {
    pub destination: FsPath,
    pub detected_file: FsPath,
    pub subfolder: bool,
    pub wait_time_secs: u64,
    pub title: Option<String>,
}

impl Mover {
    /// The destination path this mover plans: when subfolder placement is on
    /// and a title was extracted, `<destination>/<title>/<file name>`;
    /// otherwise `<destination>/<file name>`.
    pub open spec fn planned_destination(&self) -> Seq<Seq<char>> {
        if self.subfolder && self.title is Some {
            self.destination@.push(self.title->Some_0@).push(self.detected_file@.last())
        } else {
            self.destination@.push(self.detected_file@.last())
        }
    }

    /// Builds the pending move, extracting the title from the detected
    /// path's file name and fixing the probe delay at five seconds. The
    /// title is whatever the parser handed back; the planned destination is
    /// then fixed by `setup_destination_folder` for every value of it.
    pub fn new(destination: FsPath, detected_file: FsPath, subfolder: bool) -> (m: Mover)
        requires
            detected_file@.len() > 0,
            nul_free(detected_file@.last()),
        ensures
            m.destination == destination,
            m.detected_file == detected_file,
            m.subfolder == subfolder,
            m.wait_time_secs == 5,
    {
        let title = get_title(&detected_file);
        let wait_time_secs: u64 = 5;
        Mover { destination, detected_file, subfolder, wait_time_secs, title }
    }

    /// Computes the planned destination path. Idempotent destination naming:
    /// the result is a function of the destination root, the placement flag,
    /// the extracted title and the file name alone, so reprocessing the same
    /// input always yields the same path.
    pub fn setup_destination_folder(&self) -> (r: FsPath)
        requires
            self.detected_file@.len() > 0,
        ensures
            r@ =~= self.planned_destination(),
    {
        let mut destination = self.destination.duplicate();
        let file_name = self.detected_file.file_name().unwrap();
        let use_subfolder = self.subfolder && self.title.is_some();
        if use_subfolder {
            let title = match &self.title {
                Some(t) => t.clone(),
                None => String::new(),
            };
            destination.push(title);
        }
        destination.push(file_name.clone());
        destination
    }
}

/// Idempotent destination naming: the planned destination is a function of
/// the destination root, the placement flag, the extracted title and the
/// detected file's name alone — however many times the same input is
/// processed, the same path comes out.
pub proof fn lemma_destination_naming_idempotent(a: Mover, b: Mover)
    requires
        a.destination@ == b.destination@,
        a.subfolder == b.subfolder,
        a.title.deep_view() == b.title.deep_view(),
        a.detected_file@ == b.detected_file@,
    ensures
        a.planned_destination() == b.planned_destination(),
{
}

/// The phase a mover is in. It starts out waiting, probes the object for an
/// in-progress write after each fixed delay, copies once the probe comes
/// back clear, and is done once one copy attempt succeeds.
#[derive(Clone, Copy, PartialEq, Eq, Structural)]
pub enum MoverState {
    Waiting,
    Probing,
    Copying,
    Done,
}

/// What the driving loop reports back to the mover: the fixed delay
/// elapsed, a probe returned, or a copy attempt returned.
#[derive(Clone, Copy, PartialEq, Eq, Structural)]
pub enum MoverEvent {
    SleepElapsed,
    ProbeResult { in_progress: bool },
    CopyResult { ok: bool },
}

/// What the driving loop must do next: sleep for the fixed delay, probe the
/// detected object, attempt the copy, record the destination as moved, or
/// nothing.
#[derive(Clone, Copy, PartialEq, Eq, Structural)]
pub enum MoverAction {
    Sleep,
    Probe,
    Copy,
    RecordMoved,
    Idle,
}

/// Whether a state awaits this event; a driver feeding the mover honestly
/// only ever reports the event its last action asked for.
pub open spec fn expects(state: MoverState, event: MoverEvent) -> bool {
    match (state, event) {
        (MoverState::Waiting, MoverEvent::SleepElapsed) => true,
        (MoverState::Probing, MoverEvent::ProbeResult { .. }) => true,
        (MoverState::Copying, MoverEvent::CopyResult { .. }) => true,
        _ => false,
    }
}

/// One transition of the mover: an in-progress probe returns it to waiting,
/// a clear probe releases the copy, a failed copy returns it to waiting
/// (the unbounded retry), a successful copy ends it and records the
/// destination. An event a state does not await changes nothing.
pub open spec fn step_spec(state: MoverState, event: MoverEvent) -> (MoverState, MoverAction) {
    match (state, event) {
        (MoverState::Waiting, MoverEvent::SleepElapsed) => (MoverState::Probing, MoverAction::Probe),
        (MoverState::Probing, MoverEvent::ProbeResult { in_progress }) => if in_progress {
            (MoverState::Waiting, MoverAction::Sleep)
        } else {
            (MoverState::Copying, MoverAction::Copy)
        },
        (MoverState::Copying, MoverEvent::CopyResult { ok }) => if ok {
            (MoverState::Done, MoverAction::RecordMoved)
        } else {
            (MoverState::Waiting, MoverAction::Sleep)
        },
        _ => (state, MoverAction::Idle),
    }
}

/// Performs one transition, exactly as `step_spec` lays it down.
pub fn mover_step(state: MoverState, event: MoverEvent) -> (r: (MoverState, MoverAction))
    ensures
        r == step_spec(state, event),
{
    match (state, event) {
        (MoverState::Waiting, MoverEvent::SleepElapsed) => (MoverState::Probing, MoverAction::Probe),
        (MoverState::Probing, MoverEvent::ProbeResult { in_progress }) => if in_progress {
            (MoverState::Waiting, MoverAction::Sleep)
        } else {
            (MoverState::Copying, MoverAction::Copy)
        },
        (MoverState::Copying, MoverEvent::CopyResult { ok }) => if ok {
            (MoverState::Done, MoverAction::RecordMoved)
        } else {
            (MoverState::Waiting, MoverAction::Sleep)
        },
        _ => (state, MoverAction::Idle),
    }
}

/// The state after running a sequence of events from `state`.
pub open spec fn run_state(state: MoverState, events: Seq<MoverEvent>) -> MoverState
    decreases events.len(),
{
    if events.len() == 0 {
        state
    } else {
        run_state(step_spec(state, events[0]).0, events.skip(1))
    }
}

/// A run in which every event is one its state awaited.
pub open spec fn well_formed_run(state: MoverState, events: Seq<MoverEvent>) -> bool
    decreases events.len(),
{
    events.len() == 0 || (expects(state, events[0]) && well_formed_run(
        step_spec(state, events[0]).0,
        events.skip(1),
    ))
}

/// How many steps of the run ask the driver to record the destination as
/// moved.
pub open spec fn records_in_run(state: MoverState, events: Seq<MoverEvent>) -> nat
    decreases events.len(),
{
    if events.len() == 0 {
        0
    } else {
        (if step_spec(state, events[0]).1 is RecordMoved {
            1nat
        } else {
            0nat
        }) + records_in_run(step_spec(state, events[0]).0, events.skip(1))
    }
}

/// `Done` is terminal: no event moves a finished mover, and nothing more is
/// recorded.
pub proof fn lemma_done_is_terminal(events: Seq<MoverEvent>)
    ensures
        run_state(MoverState::Done, events) == MoverState::Done,
        records_in_run(MoverState::Done, events) == 0,
    decreases events.len(),
{
    if events.len() > 0 {
        lemma_done_is_terminal(events.skip(1));
    }
}

/// Retry liveness: in a well-formed run that is not already done, the mover
/// ends in `Done` exactly when some copy attempt succeeded — however many
/// attempts failed before it — and the destination is recorded exactly once
/// in that case and never otherwise.
pub proof fn lemma_retry_liveness(state: MoverState, events: Seq<MoverEvent>)
    requires
        state != MoverState::Done,
        well_formed_run(state, events),
    ensures
        (run_state(state, events) == MoverState::Done) <==> (exists|i: int|
            0 <= i < events.len() && events[i] == (MoverEvent::CopyResult { ok: true })),
        records_in_run(state, events) == if run_state(state, events) == MoverState::Done {
            1nat
        } else {
            0nat
        },
    decreases events.len(),
{
    if events.len() > 0 {
        let (next, action) = step_spec(state, events[0]);
        if next == MoverState::Done {
            assert(events[0] == (MoverEvent::CopyResult { ok: true }));
            lemma_done_is_terminal(events.skip(1));
        } else {
            assert(events[0] != (MoverEvent::CopyResult { ok: true }));
            lemma_retry_liveness(next, events.skip(1));
            assert forall|i: int|
                0 <= i < events.len() && events[i] == (MoverEvent::CopyResult {
                    ok: true,
                }) implies run_state(state, events) == MoverState::Done by {
                assert(events.skip(1)[i - 1] == events[i]);
            }
            if run_state(state, events) == MoverState::Done {
                let i = choose|i: int|
                    0 <= i < events.skip(1).len() && events.skip(1)[i] == (MoverEvent::CopyResult {
                        ok: true,
                    });
                assert(events[i + 1] == (MoverEvent::CopyResult { ok: true }));
            }
        }
    }
}

/// No race with writers: while the probed snapshot holds a partial marker
/// anywhere, the probe sends the mover back to waiting and no copy action is
/// issued; once the snapshot is clear, the very next probe releases the
/// copy.
pub proof fn lemma_no_race_with_writers(snapshot: FsNode, suffix: Seq<char>)
    ensures
        spec_in_progress(snapshot, suffix) ==> step_spec(
            MoverState::Probing,
            MoverEvent::ProbeResult { in_progress: spec_in_progress(snapshot, suffix) },
        ) == (MoverState::Waiting, MoverAction::Sleep),
        !spec_in_progress(snapshot, suffix) ==> step_spec(
            MoverState::Probing,
            MoverEvent::ProbeResult { in_progress: spec_in_progress(snapshot, suffix) },
        ) == (MoverState::Copying, MoverAction::Copy),
{
}

} // verus!
