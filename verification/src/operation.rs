//! One resolution of a BTF file, as a machine that its caller drives.
//!
//! The library decides; the caller does what touches the system. Each call of
//! [`step`] takes the stage that the operation is in and the event that the
//! caller reports, and returns the next stage with the action that the caller
//! performs next. The operation starts in `Idle` with the event `Start` and
//! has ended when the action is `Finish`.

use vstd::prelude::*;
use vstd::utf8::valid_utf8;

use crate::archive::tar_listing;
use crate::error::{is_status_of, BtfError};
use crate::gzip::{decompress, gzip_member};
use crate::handle::{
    c_string, c_string_of, frameable, is_frameable, law_release_names_framed_path,
    native_content, release_of, ReleaseView,
};
use crate::archive::{ByteRange, EntryView};
use crate::scan::{
    law_no_match_finds_nothing, law_only_match_is_found, law_undecodable_path_ends_scan,
    law_unreadable_item_ends_scan, locate, located, names, sound,
};
use crate::target::target_of;

verus! {

/// How an operation ended well.
#[derive(Clone, Copy, Debug, PartialEq, Eq, Structural)]
pub enum Completion {
    /// The kernel exposes its own BTF: nothing was read and no handle is owed.
    AlreadyAvailable,
    /// The matching entry was written to a temporary file, and the handle that
    /// names the file belongs to the caller.
    Extracted,
}

/// Where an operation stands: what it waits for, or how it ended.
#[derive(Debug, PartialEq, Eq)]
pub enum Stage {
    /// Not started.
    Idle,
    /// Waiting to learn whether the kernel exposes its own BTF.
    Probing,
    /// Waiting for the compressed archive.
    Sourcing,
    /// Holding the decompressed archive, waiting for the identity of the
    /// running system to scan for.
    Scanning { archive: Vec<u8> },
    /// Waiting for the temporary file that receives the matching entry.
    Extracting,
    /// Waiting for the native buffer that receives the result path.
    Marshalling,
    /// Ended well.
    Done(Completion),
    /// Ended with exactly one failure.
    Failed(BtfError),
}

/// What the caller reports to the operation.
#[derive(Debug, PartialEq, Eq)]
pub enum Event<'a> {
    /// The operation is to begin.
    Start,
    /// Whether the kernel's own BTF exists.
    Probed(bool),
    /// The compressed archive, or why the source could not be viewed.
    Archive(Result<&'a [u8], BtfError>),
    /// The relative path that identifies the running system, or `None` where
    /// it could not be determined.
    Identity(Option<&'a str>),
    /// The path of the temporary file that now holds the entry, complete and
    /// flushed, or `None` where creating or writing it failed.
    Extracted(Option<&'a str>),
    /// Whether the native allocator gave a buffer for the result path.
    Allocated(bool),
}

/// What the caller is to do next.
#[derive(Debug, PartialEq, Eq)]
pub enum Action {
    /// Test whether the kernel's own BTF exists; report `Probed`.
    Probe,
    /// View the compressed archive; report `Archive`.
    ReadArchive,
    /// Determine the identity of the running system; report `Identity`.
    ResolveIdentity,
    /// Create a fresh temporary file and write these bytes to it; report
    /// `Extracted`.
    WriteTempFile(Vec<u8>),
    /// Allocate a native buffer of this length and copy these bytes into it;
    /// report `Allocated`.
    Allocate(Vec<u8>),
    /// Return the status of this outcome, which [`status_code`] gives. The
    /// operation has ended.
    Finish(Result<Completion, BtfError>),
}

/// The mathematical value of a [`Stage`].
pub enum StageView {
    Idle,
    Probing,
    Sourcing,
    Scanning { archive: Seq<u8> },
    Extracting,
    Marshalling,
    Done(Completion),
    Failed(BtfError),
}

/// The mathematical value of an [`Event`].
pub enum EventView {
    Start,
    Probed(bool),
    Archive(Result<Seq<u8>, BtfError>),
    Identity(Option<Seq<char>>),
    Extracted(Option<Seq<char>>),
    Allocated(bool),
}

/// The mathematical value of an [`Action`].
pub enum ActionView {
    Probe,
    ReadArchive,
    ResolveIdentity,
    WriteTempFile(Seq<u8>),
    Allocate(Seq<u8>),
    Finish(Result<Completion, BtfError>),
}

impl View for Stage {
    type V = StageView;

    open spec fn view(&self) -> StageView {
        match self {
            Stage::Idle => StageView::Idle,
            Stage::Probing => StageView::Probing,
            Stage::Sourcing => StageView::Sourcing,
            Stage::Scanning { archive } => StageView::Scanning { archive: archive@ },
            Stage::Extracting => StageView::Extracting,
            Stage::Marshalling => StageView::Marshalling,
            Stage::Done(completion) => StageView::Done(*completion),
            Stage::Failed(error) => StageView::Failed(*error),
        }
    }
}

impl<'a> View for Event<'a> {
    type V = EventView;

    open spec fn view(&self) -> EventView {
        match self {
            Event::Start => EventView::Start,
            Event::Probed(available) => EventView::Probed(*available),
            Event::Archive(Ok(raw)) => EventView::Archive(Ok(raw@)),
            Event::Archive(Err(error)) => EventView::Archive(Err(*error)),
            Event::Identity(Some(relative)) => EventView::Identity(Some(relative@)),
            Event::Identity(None) => EventView::Identity(None),
            Event::Extracted(Some(path)) => EventView::Extracted(Some(path@)),
            Event::Extracted(None) => EventView::Extracted(None),
            Event::Allocated(given) => EventView::Allocated(*given),
        }
    }
}

impl View for Action {
    type V = ActionView;

    open spec fn view(&self) -> ActionView {
        match self {
            Action::Probe => ActionView::Probe,
            Action::ReadArchive => ActionView::ReadArchive,
            Action::ResolveIdentity => ActionView::ResolveIdentity,
            Action::WriteTempFile(data) => ActionView::WriteTempFile(data@),
            Action::Allocate(buffer) => ActionView::Allocate(buffer@),
            Action::Finish(outcome) => ActionView::Finish(*outcome),
        }
    }
}

/// The end of an operation in failure.
pub open spec fn failed(error: BtfError) -> (StageView, ActionView) {
    (StageView::Failed(error), ActionView::Finish(Err(error)))
}

/// The next stage and the action for an event. An event that the stage does
/// not wait for ends the operation with `InvalidInput`; an operation that has
/// ended stays as it is. A temporary file whose path a handle cannot name, an
/// empty path or one with a NUL in it, counts as not written.
pub open spec fn step_of(stage: StageView, event: EventView) -> (StageView, ActionView) {
    match stage {
        StageView::Idle => match event {
            EventView::Start => (StageView::Probing, ActionView::Probe),
            _ => failed(BtfError::InvalidInput),
        },
        StageView::Probing => match event {
            EventView::Probed(true) => (
                StageView::Done(Completion::AlreadyAvailable),
                ActionView::Finish(Ok(Completion::AlreadyAvailable)),
            ),
            EventView::Probed(false) => (StageView::Sourcing, ActionView::ReadArchive),
            _ => failed(BtfError::InvalidInput),
        },
        StageView::Sourcing => match event {
            EventView::Archive(Err(error)) => failed(error),
            EventView::Archive(Ok(raw)) => match gzip_member(raw) {
                None => failed(BtfError::DecompressionError),
                Some(archive) => (StageView::Scanning { archive }, ActionView::ResolveIdentity),
            },
            _ => failed(BtfError::InvalidInput),
        },
        StageView::Scanning { archive } => match event {
            EventView::Identity(None) => failed(BtfError::IdentityResolutionError),
            EventView::Identity(Some(relative)) => match located(
                tar_listing(archive),
                archive,
                relative,
            ) {
                Err(error) => failed(error),
                Ok(data) => (StageView::Extracting, ActionView::WriteTempFile(data)),
            },
            _ => failed(BtfError::InvalidInput),
        },
        StageView::Extracting => match event {
            EventView::Extracted(None) => failed(BtfError::ExtractionIOError),
            EventView::Extracted(Some(path)) => if frameable(path) {
                (StageView::Marshalling, ActionView::Allocate(c_string_of(path)))
            } else {
                failed(BtfError::ExtractionIOError)
            },
            _ => failed(BtfError::InvalidInput),
        },
        StageView::Marshalling => match event {
            EventView::Allocated(false) => failed(BtfError::AllocationFailure),
            EventView::Allocated(true) => (
                StageView::Done(Completion::Extracted),
                ActionView::Finish(Ok(Completion::Extracted)),
            ),
            _ => failed(BtfError::InvalidInput),
        },
        StageView::Done(completion) => (
            StageView::Done(completion),
            ActionView::Finish(Ok(completion)),
        ),
        StageView::Failed(error) => failed(error),
    }
}

/// How an operation ended in a stage in which it has ended.
pub open spec fn outcome_of(stage: StageView) -> Result<Completion, BtfError> {
    match stage {
        StageView::Done(completion) => Ok(completion),
        StageView::Failed(error) => Err(error),
        _ => Err(BtfError::InvalidInput),
    }
}

/// Whether `status` is the status of an outcome: zero after success, the
/// negated error number of the failure otherwise.
pub open spec fn is_status_code(outcome: Result<Completion, BtfError>, status: int) -> bool {
    match outcome {
        Ok(_) => status == 0,
        Err(error) => is_status_of(error, status),
    }
}

/// The status that the native caller receives for the outcome of an
/// operation: zero after success, the negated error number of the failure
/// otherwise.
pub fn status_code(outcome: Result<Completion, BtfError>) -> (status: i32)
    ensures
        is_status_code(outcome, status as int),
{
    match outcome {
        Ok(_) => 0,
        Err(error) => error.status(),
    }
}

/// The end of an operation in failure.
fn fail(error: BtfError) -> (out: (Stage, Action))
    ensures
        (out.0@, out.1@) == failed(error),
{
    (Stage::Failed(error), Action::Finish(Err(error)))
}

/// Advances an operation by one event.
///
/// The next stage and the action are those of [`step_of`].
pub fn step(stage: Stage, event: Event<'_>) -> (out: (Stage, Action))
    ensures
        (out.0@, out.1@) == step_of(stage@, event@),
{
    match stage {
        Stage::Idle => match event {
            Event::Start => (Stage::Probing, Action::Probe),
            _ => fail(BtfError::InvalidInput),
        },
        Stage::Probing => match event {
            Event::Probed(true) => (
                Stage::Done(Completion::AlreadyAvailable),
                Action::Finish(Ok(Completion::AlreadyAvailable)),
            ),
            Event::Probed(false) => (Stage::Sourcing, Action::ReadArchive),
            _ => fail(BtfError::InvalidInput),
        },
        Stage::Sourcing => match event {
            Event::Archive(Err(error)) => fail(error),
            Event::Archive(Ok(raw)) => match decompress(raw) {
                Err(error) => fail(error),
                Ok(archive) => (Stage::Scanning { archive }, Action::ResolveIdentity),
            },
            _ => fail(BtfError::InvalidInput),
        },
        Stage::Scanning { archive } => match event {
            Event::Identity(None) => fail(BtfError::IdentityResolutionError),
            Event::Identity(Some(relative)) => match locate(archive.as_slice(), relative) {
                Err(error) => fail(error),
                Ok(data) => (Stage::Extracting, Action::WriteTempFile(data)),
            },
            _ => fail(BtfError::InvalidInput),
        },
        Stage::Extracting => match event {
            Event::Extracted(None) => fail(BtfError::ExtractionIOError),
            Event::Extracted(Some(path)) => if is_frameable(path) {
                (Stage::Marshalling, Action::Allocate(c_string(path)))
            } else {
                fail(BtfError::ExtractionIOError)
            },
            _ => fail(BtfError::InvalidInput),
        },
        Stage::Marshalling => match event {
            Event::Allocated(false) => fail(BtfError::AllocationFailure),
            Event::Allocated(true) => (
                Stage::Done(Completion::Extracted),
                Action::Finish(Ok(Completion::Extracted)),
            ),
            _ => fail(BtfError::InvalidInput),
        },
        Stage::Done(completion) => (Stage::Done(completion), Action::Finish(Ok(completion))),
        Stage::Failed(error) => fail(error),
    }
}

/// The stage reached, and the actions requested on the way, when the events
/// of a sequence are reported one after the other.
pub open spec fn run_of(stage: StageView, events: Seq<EventView>) -> (StageView, Seq<ActionView>)
    decreases events.len(),
{
    if events.len() == 0 {
        (stage, Seq::empty())
    } else {
        let (next, action) = step_of(stage, events[0]);
        let (end, actions) = run_of(next, events.drop_first());
        (end, seq![action] + actions)
    }
}

/// `Finish` with one outcome, as often as `count` says.
pub open spec fn finishes(outcome: Result<Completion, BtfError>, count: nat) -> Seq<ActionView> {
    Seq::new(count, |i: int| ActionView::Finish(outcome))
}

/// Whether the operation has ended in this stage.
pub open spec fn ended(stage: StageView) -> bool {
    stage is Done || stage is Failed
}

/// A run over one event and then others is the step for that event, followed
/// by the run over the others.
proof fn lemma_run_unfolds(stage: StageView, first: EventView, later: Seq<EventView>)
    ensures
        run_of(stage, seq![first] + later) == (
            run_of(step_of(stage, first).0, later).0,
            seq![step_of(stage, first).1] + run_of(step_of(stage, first).0, later).1,
        ),
{
    let events = seq![first] + later;
    assert(events[0] == first);
    assert(events.drop_first() =~= later);
}

/// An operation that has ended stays in its stage and answers every event
/// with `Finish` and the outcome of that stage.
pub proof fn law_ended_operation_stays(stage: StageView, events: Seq<EventView>)
    requires
        ended(stage),
    ensures
        run_of(stage, events) == (stage, finishes(outcome_of(stage), events.len())),
    decreases events.len(),
{
    let status = outcome_of(stage);
    if events.len() == 0 {
        assert(finishes(status, 0) =~= Seq::<ActionView>::empty());
    } else {
        law_ended_operation_stays(stage, events.drop_first());
        assert(seq![ActionView::Finish(status)] + finishes(status, events.drop_first().len())
            =~= finishes(status, events.len()));
    }
}

/// Where the kernel exposes its own BTF the operation ends well at once. The
/// archive is never asked for, whatever it holds and whatever is reported
/// later: after `Probe` every action is `Finish`.
pub proof fn law_available_btf_needs_no_archive(later: Seq<EventView>)
    ensures
        run_of(StageView::Idle, seq![EventView::Start, EventView::Probed(true)] + later) == (
            StageView::Done(Completion::AlreadyAvailable),
            seq![ActionView::Probe] + finishes(
                Ok(Completion::AlreadyAvailable),
                1 + later.len(),
            ),
        ),
{
    let second = seq![EventView::Probed(true)] + later;
    assert(seq![EventView::Start, EventView::Probed(true)] + later =~= seq![EventView::Start]
        + second);
    lemma_run_unfolds(StageView::Idle, EventView::Start, second);
    lemma_run_unfolds(StageView::Probing, EventView::Probed(true), later);
    law_ended_operation_stays(StageView::Done(Completion::AlreadyAvailable), later);
    assert(seq![ActionView::Finish(Ok(Completion::AlreadyAvailable))] + finishes(
        Ok(Completion::AlreadyAvailable),
        later.len(),
    ) =~= finishes(Ok(Completion::AlreadyAvailable), 1 + later.len()));
}

/// The events up to the arrival of the compressed archive, on a kernel
/// without BTF of its own.
pub open spec fn sourced(raw: Seq<u8>) -> Seq<EventView> {
    seq![EventView::Start, EventView::Probed(false), EventView::Archive(Ok(raw))]
}

/// The events up to the arrival of the system's identity.
pub open spec fn identified(raw: Seq<u8>, relative: Seq<char>) -> Seq<EventView> {
    sourced(raw).push(EventView::Identity(Some(relative)))
}

/// A run from `Idle` over the first events of an operation whose archive
/// decompresses: the operation holds the archive and asks for the identity.
proof fn lemma_run_to_scanning(raw: Seq<u8>, later: Seq<EventView>)
    requires
        gzip_member(raw) is Some,
    ensures
        run_of(StageView::Idle, sourced(raw) + later) == (
            run_of(StageView::Scanning { archive: gzip_member(raw)->0 }, later).0,
            seq![ActionView::Probe, ActionView::ReadArchive, ActionView::ResolveIdentity] + run_of(
                StageView::Scanning { archive: gzip_member(raw)->0 },
                later,
            ).1,
        ),
{
    let third = seq![EventView::Archive(Ok(raw))] + later;
    let second = seq![EventView::Probed(false)] + third;
    assert(sourced(raw) + later =~= seq![EventView::Start] + second);
    lemma_run_unfolds(StageView::Idle, EventView::Start, second);
    lemma_run_unfolds(StageView::Probing, EventView::Probed(false), third);
    lemma_run_unfolds(StageView::Sourcing, EventView::Archive(Ok(raw)), later);
    let rest = run_of(StageView::Scanning { archive: gzip_member(raw)->0 }, later).1;
    assert(seq![ActionView::Probe] + (seq![ActionView::ReadArchive] + (seq![
        ActionView::ResolveIdentity,
    ] + rest)) =~= seq![ActionView::Probe, ActionView::ReadArchive, ActionView::ResolveIdentity]
        + rest);
}

/// A run from `Idle` over the first events of an operation whose archive
/// decompresses and whose scan fails: the failure of the scan ends it, and no
/// temporary file and no buffer is ever asked for.
proof fn lemma_run_to_failed_scan(raw: Seq<u8>, relative: Seq<char>, later: Seq<EventView>)
    requires
        gzip_member(raw) is Some,
        located(tar_listing(gzip_member(raw)->0), gzip_member(raw)->0, relative) is Err,
    ensures
        run_of(StageView::Idle, identified(raw, relative) + later) == (
            StageView::Failed(
                located(tar_listing(gzip_member(raw)->0), gzip_member(raw)->0, relative)->Err_0,
            ),
            seq![ActionView::Probe, ActionView::ReadArchive, ActionView::ResolveIdentity]
                + finishes(
                Err(
                    located(tar_listing(gzip_member(raw)->0), gzip_member(raw)->0, relative)->Err_0,
                ),
                1 + later.len(),
            ),
        ),
{
    let archive = gzip_member(raw)->0;
    let error = located(tar_listing(archive), archive, relative)->Err_0;
    let fourth = seq![EventView::Identity(Some(relative))] + later;
    assert(identified(raw, relative) + later =~= sourced(raw) + fourth);
    lemma_run_to_scanning(raw, fourth);
    lemma_run_unfolds(
        StageView::Scanning { archive },
        EventView::Identity(Some(relative)),
        later,
    );
    law_ended_operation_stays(StageView::Failed(error), later);
    assert(seq![ActionView::Finish(Err(error))] + finishes(Err(error), later.len()) =~= finishes(
        Err(error),
        1 + later.len(),
    ));
}

/// Bytes that are not a complete gzip member end the operation with
/// `DecompressionError` as soon as they arrive. Nothing is asked of the caller
/// after that but to return the status of that failure: no identity, no
/// temporary file, no buffer.
pub proof fn law_malformed_gzip_fails(raw: Seq<u8>, later: Seq<EventView>)
    requires
        gzip_member(raw) is None,
    ensures
        run_of(StageView::Idle, sourced(raw) + later) == (
            StageView::Failed(BtfError::DecompressionError),
            seq![ActionView::Probe, ActionView::ReadArchive] + finishes(
                Err(BtfError::DecompressionError),
                1 + later.len(),
            ),
        ),
{
    let third = seq![EventView::Archive(Ok(raw))] + later;
    let second = seq![EventView::Probed(false)] + third;
    assert(sourced(raw) + later =~= seq![EventView::Start] + second);
    lemma_run_unfolds(StageView::Idle, EventView::Start, second);
    lemma_run_unfolds(StageView::Probing, EventView::Probed(false), third);
    lemma_run_unfolds(StageView::Sourcing, EventView::Archive(Ok(raw)), later);
    law_ended_operation_stays(StageView::Failed(BtfError::DecompressionError), later);
    let outcome = Err::<Completion, BtfError>(BtfError::DecompressionError);
    assert(seq![ActionView::Probe] + (seq![ActionView::ReadArchive] + (seq![
        ActionView::Finish(outcome),
    ] + finishes(outcome, later.len()))) =~= seq![ActionView::Probe, ActionView::ReadArchive]
        + finishes(outcome, 1 + later.len()));
}

/// An archive of sound entries of which none is stored under the target path
/// ends the operation with `NoMatchingArchiveEntry`. No temporary file and no
/// buffer is ever asked for: after the identity, every action is `Finish`
/// with that failure.
pub proof fn law_no_matching_entry_fails(
    raw: Seq<u8>,
    relative: Seq<char>,
    listing: Seq<Option<EntryView>>,
    later: Seq<EventView>,
)
    requires
        gzip_member(raw) is Some,
        tar_listing(gzip_member(raw)->0) == Some(listing),
        forall|i: int| 0 <= i < listing.len() ==> sound(#[trigger] listing[i]),
        forall|i: int|
            0 <= i < listing.len() ==> !names(#[trigger] listing[i], target_of(relative)),
    ensures
        run_of(StageView::Idle, identified(raw, relative) + later) == (
            StageView::Failed(BtfError::NoMatchingArchiveEntry),
            seq![ActionView::Probe, ActionView::ReadArchive, ActionView::ResolveIdentity]
                + finishes(Err(BtfError::NoMatchingArchiveEntry), 1 + later.len()),
        ),
{
    law_no_match_finds_nothing(listing, target_of(relative));
    lemma_run_to_failed_scan(raw, relative, later);
}

/// An entry whose path is not valid UTF-8 ends the operation with
/// `PathDecodeError` when every entry before it is sound, even where an entry
/// after it is stored under the target path. No temporary file and no buffer
/// is ever asked for.
pub proof fn law_undecodable_path_fails(
    raw: Seq<u8>,
    relative: Seq<char>,
    listing: Seq<Option<EntryView>>,
    i: int,
    later: Seq<EventView>,
)
    requires
        gzip_member(raw) is Some,
        tar_listing(gzip_member(raw)->0) == Some(listing),
        0 <= i < listing.len(),
        listing[i] matches Some(entry) && !valid_utf8(entry.path),
        forall|j: int| 0 <= j < i ==> sound(#[trigger] listing[j]),
    ensures
        run_of(StageView::Idle, identified(raw, relative) + later) == (
            StageView::Failed(BtfError::PathDecodeError),
            seq![ActionView::Probe, ActionView::ReadArchive, ActionView::ResolveIdentity]
                + finishes(Err(BtfError::PathDecodeError), 1 + later.len()),
        ),
{
    law_undecodable_path_ends_scan(listing, target_of(relative), i);
    lemma_run_to_failed_scan(raw, relative, later);
}

/// An item that the reader could not produce ends the operation with
/// `ArchiveReadError` when every entry before it is sound, whatever follows
/// it. No temporary file and no buffer is ever asked for.
pub proof fn law_unreadable_item_fails(
    raw: Seq<u8>,
    relative: Seq<char>,
    listing: Seq<Option<EntryView>>,
    i: int,
    later: Seq<EventView>,
)
    requires
        gzip_member(raw) is Some,
        tar_listing(gzip_member(raw)->0) == Some(listing),
        0 <= i < listing.len(),
        listing[i] is None,
        forall|j: int| 0 <= j < i ==> sound(#[trigger] listing[j]),
    ensures
        run_of(StageView::Idle, identified(raw, relative) + later) == (
            StageView::Failed(BtfError::ArchiveReadError),
            seq![ActionView::Probe, ActionView::ReadArchive, ActionView::ResolveIdentity]
                + finishes(Err(BtfError::ArchiveReadError), 1 + later.len()),
        ),
{
    law_unreadable_item_ends_scan(listing, target_of(relative), i);
    lemma_run_to_failed_scan(raw, relative, later);
}

/// A source that cannot be viewed ends the operation with the error of the
/// source before any byte is read; a refused length gives `InvalidInput`.
pub proof fn law_unusable_source_fails(error: BtfError, later: Seq<EventView>)
    ensures
        run_of(
            StageView::Idle,
            seq![EventView::Start, EventView::Probed(false), EventView::Archive(Err(error))]
                + later,
        ) == (
            StageView::Failed(error),
            seq![ActionView::Probe, ActionView::ReadArchive] + finishes(
                Err(error),
                1 + later.len(),
            ),
        ),
{
    let third = seq![EventView::Archive(Err(error))] + later;
    let second = seq![EventView::Probed(false)] + third;
    assert(seq![EventView::Start, EventView::Probed(false), EventView::Archive(Err(error))]
        + later =~= seq![EventView::Start] + second);
    lemma_run_unfolds(StageView::Idle, EventView::Start, second);
    lemma_run_unfolds(StageView::Probing, EventView::Probed(false), third);
    lemma_run_unfolds(StageView::Sourcing, EventView::Archive(Err(error)), later);
    law_ended_operation_stays(StageView::Failed(error), later);
    let outcome = Err::<Completion, BtfError>(error);
    assert(seq![ActionView::Probe] + (seq![ActionView::ReadArchive] + (seq![
        ActionView::Finish(outcome),
    ] + finishes(outcome, later.len()))) =~= seq![ActionView::Probe, ActionView::ReadArchive]
        + finishes(outcome, 1 + later.len()));
}

/// An identity that could not be determined ends the operation with
/// `IdentityResolutionError`, whatever the archive holds: nothing is scanned,
/// and no temporary file and no buffer is ever asked for.
pub proof fn law_unknown_identity_fails(raw: Seq<u8>, later: Seq<EventView>)
    requires
        gzip_member(raw) is Some,
    ensures
        run_of(StageView::Idle, sourced(raw).push(EventView::Identity(None)) + later) == (
            StageView::Failed(BtfError::IdentityResolutionError),
            seq![ActionView::Probe, ActionView::ReadArchive, ActionView::ResolveIdentity]
                + finishes(Err(BtfError::IdentityResolutionError), 1 + later.len()),
        ),
{
    let archive = gzip_member(raw)->0;
    let fourth = seq![EventView::Identity(None)] + later;
    assert(sourced(raw).push(EventView::Identity(None)) + later =~= sourced(raw) + fourth);
    lemma_run_to_scanning(raw, fourth);
    lemma_run_unfolds(StageView::Scanning { archive }, EventView::Identity(None), later);
    law_ended_operation_stays(StageView::Failed(BtfError::IdentityResolutionError), later);
    let outcome = Err::<Completion, BtfError>(BtfError::IdentityResolutionError);
    assert(seq![ActionView::Finish(outcome)] + finishes(outcome, later.len()) =~= finishes(
        outcome,
        1 + later.len(),
    ));
}

/// `Finish` tells how the operation ended: it comes exactly with a stage in
/// which the operation has ended, and carries the outcome of that stage. Any
/// other action leaves the operation running.
pub proof fn law_finish_tells_the_end(stage: StageView, event: EventView)
    ensures
        match step_of(stage, event).1 {
            ActionView::Finish(outcome) => ended(step_of(stage, event).0) && outcome == outcome_of(
                step_of(stage, event).0,
            ),
            _ => !ended(step_of(stage, event).0),
        },
{
}

/// The status is zero exactly after success. After a failure it is the
/// negated number of the error that stands for the failure kind: -22 for
/// `InvalidInput` and `DecompressionError`, -2 for `NoMatchingArchiveEntry`
/// and `IdentityResolutionError`, -5 for `ArchiveReadError` and
/// `ExtractionIOError`, -12 for `AllocationFailure`, and for
/// `PathDecodeError` the negated `EILSEQ` of the target, which is -84, -88 or
/// -122.
pub proof fn law_status_names_the_outcome(outcome: Result<Completion, BtfError>, status: int)
    requires
        is_status_code(outcome, status),
    ensures
        status == 0 <==> outcome is Ok,
        outcome is Err ==> status < 0,
        outcome == Err::<Completion, BtfError>(BtfError::InvalidInput) ==> status == -22,
        outcome == Err::<Completion, BtfError>(BtfError::DecompressionError) ==> status == -22,
        outcome == Err::<Completion, BtfError>(BtfError::NoMatchingArchiveEntry) ==> status == -2,
        outcome == Err::<Completion, BtfError>(BtfError::IdentityResolutionError) ==> status == -2,
        outcome == Err::<Completion, BtfError>(BtfError::ArchiveReadError) ==> status == -5,
        outcome == Err::<Completion, BtfError>(BtfError::ExtractionIOError) ==> status == -5,
        outcome == Err::<Completion, BtfError>(BtfError::AllocationFailure) ==> status == -12,
        outcome == Err::<Completion, BtfError>(BtfError::PathDecodeError) ==> status == -84
            || status == -88 || status == -122,
{
}

/// Where exactly one entry of an archive of sound entries is stored under the
/// target path and its range lies inside the archive, the bytes that the
/// caller is asked to write to the temporary file are the bytes of that range,
/// one for one.
pub proof fn law_only_match_is_written(
    raw: Seq<u8>,
    relative: Seq<char>,
    listing: Seq<Option<EntryView>>,
    k: int,
)
    requires
        gzip_member(raw) is Some,
        tar_listing(gzip_member(raw)->0) == Some(listing),
        forall|i: int| 0 <= i < listing.len() ==> sound(#[trigger] listing[i]),
        0 <= k < listing.len(),
        names(listing[k], target_of(relative)),
        forall|i: int|
            0 <= i < listing.len() && i != k ==> !names(#[trigger] listing[i], target_of(relative)),
        listing[k]->0.range.offset + listing[k]->0.range.size <= gzip_member(raw)->0.len(),
    ensures
        run_of(StageView::Idle, identified(raw, relative)) == (
            StageView::Extracting,
            seq![
                ActionView::Probe,
                ActionView::ReadArchive,
                ActionView::ResolveIdentity,
                ActionView::WriteTempFile(
                    gzip_member(raw)->0.subrange(
                        listing[k]->0.range.offset as int,
                        listing[k]->0.range.offset + listing[k]->0.range.size,
                    ),
                ),
            ],
        ),
{
    let archive = gzip_member(raw)->0;
    let range: ByteRange = listing[k]->0.range;
    let data = archive.subrange(range.offset as int, range.offset + range.size);
    law_only_match_is_found(listing, target_of(relative), k);
    let fourth = seq![EventView::Identity(Some(relative))];
    assert(identified(raw, relative) =~= sourced(raw) + fourth);
    lemma_run_to_scanning(raw, fourth);
    assert(fourth =~= seq![EventView::Identity(Some(relative))] + Seq::<EventView>::empty());
    lemma_run_unfolds(
        StageView::Scanning { archive },
        EventView::Identity(Some(relative)),
        Seq::<EventView>::empty(),
    );
    assert(seq![ActionView::Probe, ActionView::ReadArchive, ActionView::ResolveIdentity] + (seq![
        ActionView::WriteTempFile(data),
    ] + Seq::<ActionView>::empty()) =~= seq![
        ActionView::Probe,
        ActionView::ReadArchive,
        ActionView::ResolveIdentity,
        ActionView::WriteTempFile(data),
    ]);
}

/// Success is owed wherever every stage does its part. On a kernel without
/// BTF of its own, with an archive that decompresses and holds the matching
/// entry, a temporary file that was written under a path that a handle can
/// name and a buffer that was given, the
/// operation ends as `Extracted`: the caller was asked to write the bytes of
/// the entry and to fill the buffer with the path of the file, terminated.
pub proof fn law_complete_run_succeeds(
    raw: Seq<u8>,
    relative: Seq<char>,
    path: Seq<char>,
    later: Seq<EventView>,
)
    requires
        gzip_member(raw) is Some,
        located(tar_listing(gzip_member(raw)->0), gzip_member(raw)->0, relative) is Ok,
        frameable(path),
    ensures
        run_of(
            StageView::Idle,
            identified(raw, relative) + seq![
                EventView::Extracted(Some(path)),
                EventView::Allocated(true),
            ] + later,
        ) == (
            StageView::Done(Completion::Extracted),
            seq![
                ActionView::Probe,
                ActionView::ReadArchive,
                ActionView::ResolveIdentity,
                ActionView::WriteTempFile(
                    located(tar_listing(gzip_member(raw)->0), gzip_member(raw)->0, relative)->Ok_0,
                ),
                ActionView::Allocate(c_string_of(path)),
            ] + finishes(Ok(Completion::Extracted), 1 + later.len()),
        ),
{
    let archive = gzip_member(raw)->0;
    let data = located(tar_listing(archive), archive, relative)->Ok_0;
    let sixth = seq![EventView::Allocated(true)] + later;
    let fifth = seq![EventView::Extracted(Some(path))] + sixth;
    let fourth = seq![EventView::Identity(Some(relative))] + fifth;
    assert(identified(raw, relative) + seq![
        EventView::Extracted(Some(path)),
        EventView::Allocated(true),
    ] + later =~= sourced(raw) + fourth);
    lemma_run_to_scanning(raw, fourth);
    lemma_run_unfolds(StageView::Scanning { archive }, EventView::Identity(Some(relative)), fifth);
    lemma_run_unfolds(StageView::Extracting, EventView::Extracted(Some(path)), sixth);
    lemma_run_unfolds(StageView::Marshalling, EventView::Allocated(true), later);
    law_ended_operation_stays(StageView::Done(Completion::Extracted), later);
    assert(seq![ActionView::Probe, ActionView::ReadArchive, ActionView::ResolveIdentity] + (seq![
        ActionView::WriteTempFile(data),
    ] + (seq![ActionView::Allocate(c_string_of(path))] + (seq![
        ActionView::Finish(Ok(Completion::Extracted)),
    ] + finishes(Ok(Completion::Extracted), later.len())))) =~= seq![
        ActionView::Probe,
        ActionView::ReadArchive,
        ActionView::ResolveIdentity,
        ActionView::WriteTempFile(data),
        ActionView::Allocate(c_string_of(path)),
    ] + finishes(Ok(Completion::Extracted), 1 + later.len()));
}

/// A run that does not end in failure has not passed through one: with a
/// failed first step the whole run has failed.
proof fn lemma_run_advances(stage: StageView, events: Seq<EventView>)
    requires
        events.len() > 0,
        !(run_of(stage, events).0 is Failed),
    ensures
        !(step_of(stage, events[0]).0 is Failed),
        run_of(stage, events).0 == run_of(step_of(stage, events[0]).0, events.drop_first()).0,
        run_of(stage, events).1 == seq![step_of(stage, events[0]).1] + run_of(
            step_of(stage, events[0]).0,
            events.drop_first(),
        ).1,
{
    let next = step_of(stage, events[0]).0;
    if next is Failed {
        law_ended_operation_stays(next, events.drop_first());
    }
}

/// A handle is owed to every stage before it. An operation ends as
/// `Extracted` only where the kernel had no BTF of its own, the archive
/// arrived and decompressed, the identity was determined, the archive held the
/// matching entry, the caller reported the temporary file that holds its bytes
/// and the allocator gave the buffer. The bytes that were written are those of
/// the entry, the buffer that was filled names the file that was reported, and
/// releasing what a native reader finds in that buffer deletes that file.
pub proof fn law_extraction_is_earned(events: Seq<EventView>)
    requires
        run_of(StageView::Idle, events).0 == StageView::Done(Completion::Extracted),
    ensures
        events.len() >= 6,
        events[0] == EventView::Start,
        events[1] == EventView::Probed(false),
        events[2] matches EventView::Archive(Ok(raw)) && gzip_member(raw) matches Some(archive)
            && events[3] matches EventView::Identity(Some(relative)) && located(
            tar_listing(archive),
            archive,
            relative,
        ) matches Ok(data) && events[4] matches EventView::Extracted(Some(path)) && run_of(
            StageView::Idle,
            events,
        ).1[3] == ActionView::WriteTempFile(data) && run_of(StageView::Idle, events).1[4]
            == ActionView::Allocate(c_string_of(path)) && frameable(path) && release_of(
            Some(native_content(c_string_of(path))),
        ) == ReleaseView::RemoveFile(path),
        events[5] == EventView::Allocated(true),
{
    let e0 = events;
    lemma_run_advances(StageView::Idle, e0);
    let e1 = e0.drop_first();
    lemma_run_advances(StageView::Probing, e1);
    if e1[0] == EventView::Probed(true) {
        law_ended_operation_stays(StageView::Done(Completion::AlreadyAvailable), e1.drop_first());
    }
    let e2 = e1.drop_first();
    lemma_run_advances(StageView::Sourcing, e2);
    let raw = e2[0]->Archive_0->Ok_0;
    let archive = gzip_member(raw)->0;
    let e3 = e2.drop_first();
    lemma_run_advances(StageView::Scanning { archive }, e3);
    let relative = e3[0]->Identity_0->0;
    let data = located(tar_listing(archive), archive, relative)->Ok_0;
    let e4 = e3.drop_first();
    lemma_run_advances(StageView::Extracting, e4);
    let path = e4[0]->Extracted_0->0;
    law_release_names_framed_path(path);
    let e5 = e4.drop_first();
    lemma_run_advances(StageView::Marshalling, e5);
    assert(e5[0] == EventView::Allocated(true));
}

/// Success without a handle is owed to the probe alone: an operation ends as
/// `AlreadyAvailable` only where its second event reported the kernel's own
/// BTF.
pub proof fn law_availability_is_probed(events: Seq<EventView>)
    requires
        run_of(StageView::Idle, events).0 == StageView::Done(Completion::AlreadyAvailable),
    ensures
        events.len() >= 2,
        events[0] == EventView::Start,
        events[1] == EventView::Probed(true),
{
    let e0 = events;
    lemma_run_advances(StageView::Idle, e0);
    let e1 = e0.drop_first();
    lemma_run_advances(StageView::Probing, e1);
    if e1[0] == EventView::Probed(false) {
        let e2 = e1.drop_first();
        lemma_never_available_later(StageView::Sourcing, e2);
    }
}

/// Past the probe no run ends as `AlreadyAvailable`.
proof fn lemma_never_available_later(stage: StageView, events: Seq<EventView>)
    requires
        stage is Sourcing || stage is Scanning || stage is Extracting || stage is Marshalling
            || stage is Failed || stage == StageView::Done(Completion::Extracted),
    ensures
        run_of(stage, events).0 != StageView::Done(Completion::AlreadyAvailable),
    decreases events.len(),
{
    if events.len() > 0 {
        lemma_never_available_later(step_of(stage, events[0]).0, events.drop_first());
    }
}

} // verus!
