//! The reception of one upload: a `size` part that declares the byte
//! count, then a `file` part that carries a name and the bytes in chunks.
//! The transport hands the parts over as events; the state kept here
//! decides what each event leads to.

use vstd::prelude::*;
use crate::decimal::{parse_size, read_size};
use crate::device::DeviceClass;
use crate::progress::{advanced, is_report_boundary, percent, percent_of, report_at};
use crate::registry::{after_update, Transfer, TransferRegistry, UpdateOutcome};
use crate::staging::{File, FileView};

verus! {

/// The largest size that an upload may declare unless configured
/// otherwise: one gibibyte.
pub const SIZE_LIMIT: usize = 1024 * 1024 * 1024;

/// Why an upload was refused.
#[derive(Clone, Copy, Debug, PartialEq, Eq, Structural)]
pub enum IngestError {
    /// The `size` part is not an unsigned decimal number that fits.
    InvalidSize,
    /// No buffer of the declared size could be reserved.
    AllocationFailure,
    /// The declared size is above the ceiling.
    SizeLimitExceeded,
    /// A part came out of order: the `file` part before the `size` part,
    /// a part after the `file` part, or bytes outside the `file` part.
    OrderingError,
    /// The `file` part carries no file name.
    MissingFilename,
    /// The upload ended before both parts had come.
    MissingPart,
    /// Progress was due for a transfer that nobody has registered, and the
    /// policy is to refuse such an upload.
    MissingRegistryEntry,
}

/// The plain text that explains a refusal to the client.
pub open spec fn reason_text(error: IngestError) -> Seq<char> {
    match error {
        IngestError::InvalidSize => "invalid size field"@,
        IngestError::AllocationFailure => "could not reserve memory"@,
        IngestError::SizeLimitExceeded => "file size exceeds limit, returning bad request.."@,
        IngestError::OrderingError => "`size` field must go first, not the `file` one"@,
        IngestError::MissingFilename => "`file` field does not have a filename"@,
        IngestError::MissingPart => "`size` and `file` fields are both required"@,
        IngestError::MissingRegistryEntry => "error reading file field"@,
    }
}

impl IngestError {
    /// The plain text that explains this refusal to the client.
    pub fn reason(self) -> (text: &'static str)
        ensures
            text@ == reason_text(self),
    {
        match self {
            IngestError::InvalidSize => "invalid size field",
            IngestError::AllocationFailure => "could not reserve memory",
            IngestError::SizeLimitExceeded => "file size exceeds limit, returning bad request..",
            IngestError::OrderingError => "`size` field must go first, not the `file` one",
            IngestError::MissingFilename => "`file` field does not have a filename",
            IngestError::MissingPart => "`size` and `file` fields are both required",
            IngestError::MissingRegistryEntry => "error reading file field",
        }
    }
}

/// What to do when progress is due for a transfer that nobody has
/// registered.
#[derive(Clone, Copy, Debug, PartialEq, Eq, Structural)]
pub enum MissingEntryPolicy {
    /// Go on with the upload; only the progress update is lost.
    Lenient,
    /// Refuse the upload.
    Strict,
}

/// The settings of an upload.
#[derive(Clone, Copy, Debug, PartialEq, Eq, Structural)]
pub struct IngestConfig {
    /// The largest size that an upload may declare.
    pub size_limit: usize,
    /// What to do when the transfer has not been registered.
    pub missing_entry: MissingEntryPolicy,
}

impl IngestConfig {
    /// The usual settings: a ceiling of [`SIZE_LIMIT`], and uploads go on
    /// when their transfer has not been registered.
    pub fn new() -> (config: Self)
        ensures
            config == (IngestConfig {
                size_limit: SIZE_LIMIT,
                missing_entry: MissingEntryPolicy::Lenient,
            }),
    {
        IngestConfig { size_limit: SIZE_LIMIT, missing_entry: MissingEntryPolicy::Lenient }
    }
}

/// How far an upload has come.
#[derive(Clone, Copy, Debug, PartialEq, Eq, Structural)]
pub enum Stage {
    /// Nothing has come yet; the `size` part is due.
    AwaitingSize,
    /// The size is known; the `file` part is due.
    AwaitingFile,
    /// The `file` part has begun; its bytes are coming in.
    Receiving,
    /// The upload has been refused for the given reason.
    Failed(IngestError),
}

/// The state of an upload, as plain values.
pub struct IngestView {
    pub config: IngestConfig,
    pub stage: Stage,
    /// The declared size.
    pub size: nat,
    /// The file name.
    pub name: Seq<char>,
    /// The bytes kept so far.
    pub bytes: Seq<u8>,
    /// The number of bytes that have come so far, kept or not.
    pub received: nat,
}

/// The verdict on a `size` part, given what the text reads as and whether
/// a buffer of that size could be reserved. The reservation is judged
/// before the ceiling.
pub open spec fn spec_size_verdict(parsed: Option<usize>, reserved: bool, limit: usize) -> Result<
    usize,
    IngestError,
> {
    match parsed {
        None => Err(IngestError::InvalidSize),
        Some(size) => if !reserved {
            Err(IngestError::AllocationFailure)
        } else if size > limit {
            Err(IngestError::SizeLimitExceeded)
        } else {
            Ok(size)
        },
    }
}

/// The verdict on a `size` part.
#[verifier::when_used_as_spec(spec_size_verdict)]
pub fn size_verdict(parsed: Option<usize>, reserved: bool, limit: usize) -> (verdict: Result<
    usize,
    IngestError,
>)
    ensures
        verdict == spec_size_verdict(parsed, reserved, limit),
{
    match parsed {
        None => Err(IngestError::InvalidSize),
        Some(size) => if !reserved {
            Err(IngestError::AllocationFailure)
        } else if size > limit {
            Err(IngestError::SizeLimitExceeded)
        } else {
            Ok(size)
        },
    }
}

/// The state after an event that was refused: nothing is kept of the
/// upload, and the reason is remembered.
pub open spec fn refused(before: IngestView, error: IngestError) -> IngestView {
    IngestView {
        config: before.config,
        stage: Stage::Failed(error),
        size: before.size,
        name: before.name,
        bytes: Seq::empty(),
        received: before.received,
    }
}

/// The refusal that an event meets in a stage in which it is not due, if
/// it is not due there: the earlier refusal once the upload has failed,
/// an ordering error otherwise.
pub open spec fn out_of_turn(stage: Stage, due: Stage) -> Option<IngestError> {
    match stage {
        Stage::Failed(error) => Some(error),
        _ => if stage == due {
            None
        } else {
            Some(IngestError::OrderingError)
        },
    }
}

/// The state after a `size` part that met `verdict`.
pub open spec fn after_size(before: IngestView, verdict: Result<usize, IngestError>) -> IngestView {
    match out_of_turn(before.stage, Stage::AwaitingSize) {
        Some(error) => refused(before, error),
        None => match verdict {
            Ok(size) => IngestView {
                stage: Stage::AwaitingFile,
                size: size as nat,
                ..before
            },
            Err(error) => refused(before, error),
        },
    }
}

/// What a `file` part with the given file name leads to.
pub open spec fn file_verdict(stage: Stage, filename: Option<Seq<char>>) -> Result<
    (),
    IngestError,
> {
    match out_of_turn(stage, Stage::AwaitingFile) {
        Some(error) => Err(error),
        None => match filename {
            Some(_) => Ok(()),
            None => Err(IngestError::MissingFilename),
        },
    }
}

/// The state after a `file` part with the given file name has begun.
pub open spec fn after_file(before: IngestView, filename: Option<Seq<char>>) -> IngestView {
    match file_verdict(before.stage, filename) {
        Ok(_) => IngestView { stage: Stage::Receiving, name: filename->0, ..before },
        Err(error) => refused(before, error),
    }
}

/// The count of bytes after `count` more have come: it stops at the
/// largest machine size.
pub open spec fn counted(received: nat, count: nat) -> nat {
    advanced(received, count)
}

/// The state after a chunk of the file has come and been kept.
pub open spec fn after_chunk(before: IngestView, chunk: Seq<u8>) -> IngestView {
    match out_of_turn(before.stage, Stage::Receiving) {
        Some(error) => refused(before, error),
        None => IngestView {
            bytes: before.bytes + chunk,
            received: counted(before.received, chunk.len()),
            ..before
        },
    }
}

/// The state after `count` bytes of the file have come and been stored
/// elsewhere.
pub open spec fn after_written(before: IngestView, count: nat) -> IngestView {
    match out_of_turn(before.stage, Stage::Receiving) {
        Some(error) => refused(before, error),
        None => IngestView { received: counted(before.received, count), ..before },
    }
}

/// What is published after more of the file has come: the progress when
/// it lies on a reporting boundary.
pub open spec fn chunk_report(after: IngestView) -> Result<Option<u8>, IngestError> {
    match after.stage {
        Stage::Failed(error) => Err(error),
        _ => Ok(report_at(after.received, after.size)),
    }
}

/// What the end of the upload leads to: the file, if both parts have come.
pub open spec fn finished(state: IngestView) -> Result<FileView, IngestError> {
    match state.stage {
        Stage::Receiving => Ok(
            FileView { size: state.size, name: state.name, bytes: state.bytes },
        ),
        Stage::Failed(error) => Err(error),
        _ => Err(IngestError::MissingPart),
    }
}

/// The state after a run of chunks has come, one after the other.
pub open spec fn feed(state: IngestView, chunks: Seq<Seq<u8>>) -> IngestView
    decreases chunks.len(),
{
    if chunks.len() == 0 {
        state
    } else {
        after_chunk(feed(state, chunks.drop_last()), chunks.last())
    }
}

/// The progress values that are published while a run of chunks comes, in
/// the order in which they are published.
pub open spec fn reports(state: IngestView, chunks: Seq<Seq<u8>>) -> Seq<u8>
    decreases chunks.len(),
{
    if chunks.len() == 0 {
        Seq::empty()
    } else {
        let earlier = reports(state, chunks.drop_last());
        match chunk_report(feed(state, chunks)) {
            Ok(Some(progress)) => earlier.push(progress),
            _ => earlier,
        }
    }
}

/// The bytes of a run of chunks, one chunk after the other.
pub open spec fn joined(chunks: Seq<Seq<u8>>) -> Seq<u8>
    decreases chunks.len(),
{
    if chunks.len() == 0 {
        Seq::empty()
    } else {
        joined(chunks.drop_last()) + chunks.last()
    }
}

/// While the file part is being received, a run of chunks changes nothing
/// but the bytes kept and the count: the bytes kept grow by the bytes of
/// the chunks, in order, and the count never goes down.
pub proof fn lemma_feed(state: IngestView, chunks: Seq<Seq<u8>>)
    requires
        state.stage == Stage::Receiving,
        state.received <= usize::MAX,
    ensures
        feed(state, chunks).received <= usize::MAX,
        feed(state, chunks).stage == Stage::Receiving,
        feed(state, chunks).config == state.config,
        feed(state, chunks).size == state.size,
        feed(state, chunks).name == state.name,
        feed(state, chunks).bytes == state.bytes + joined(chunks),
        feed(state, chunks).received >= state.received,
        state.received + joined(chunks).len() <= usize::MAX ==> feed(state, chunks).received
            == state.received + joined(chunks).len(),
    decreases chunks.len(),
{
    if chunks.len() == 0 {
        assert(state.bytes + joined(chunks) =~= state.bytes);
    } else {
        lemma_feed(state, chunks.drop_last());
        assert(state.bytes + joined(chunks.drop_last()) + chunks.last() =~= state.bytes + joined(
            chunks,
        ));
        assert(joined(chunks).len() == joined(chunks.drop_last()).len() + chunks.last().len());
    }
}

/// The progress values published for one upload never go down, each is a
/// multiple of the reporting step, and none is below the progress that the
/// upload had before.
pub proof fn lemma_reports_ascend(state: IngestView, chunks: Seq<Seq<u8>>)
    requires
        state.stage == Stage::Receiving,
        state.received <= usize::MAX,
    ensures
        forall|i: int, j: int|
            0 <= i <= j < reports(state, chunks).len() ==> reports(state, chunks)[i] <= reports(
                state,
                chunks,
            )[j],
        forall|i: int|
            0 <= i < reports(state, chunks).len() ==> {
                &&& #[trigger] reports(state, chunks)[i] % crate::progress::REPORT_STEP == 0
                &&& percent(state.received, state.size) <= reports(state, chunks)[i] <= percent(
                    feed(state, chunks).received,
                    state.size,
                )
            },
    decreases chunks.len(),
{
    if chunks.len() > 0 {
        let shorter = chunks.drop_last();
        lemma_reports_ascend(state, shorter);
        lemma_feed(state, shorter);
        lemma_feed(state, chunks);
        let before = feed(state, shorter);
        let after = feed(state, chunks);
        assert(after == after_chunk(before, chunks.last()));
        assert(after.received >= before.received);
        crate::progress::lemma_percent_monotone(before.received, after.received, state.size);
        crate::progress::lemma_percent_monotone(state.received, after.received, state.size);
        let earlier = reports(state, shorter);
        let all = reports(state, chunks);
        assert(chunk_report(after) == Ok::<Option<u8>, IngestError>(
            report_at(after.received, state.size),
        ));
        match report_at(after.received, state.size) {
            Some(progress) => {
                assert(all == earlier.push(progress));
                assert forall|i: int, j: int| 0 <= i <= j < all.len() implies all[i] <= all[j] by {
                    if j < earlier.len() {
                        assert(all[i] == earlier[i] && all[j] == earlier[j]);
                    } else if i < earlier.len() {
                        assert(all[i] == earlier[i]);
                    }
                }
                assert forall|i: int| 0 <= i < all.len() implies {
                    &&& #[trigger] all[i] % crate::progress::REPORT_STEP == 0
                    &&& percent(state.received, state.size) <= all[i] <= percent(
                        after.received,
                        state.size,
                    )
                } by {
                    if i < earlier.len() {
                        assert(all[i] == earlier[i]);
                    }
                }
            },
            None => {
                assert(all == earlier);
            },
        }
    }
}

/// Once a run of chunks has brought every declared byte, the last value
/// published is 100.
pub proof fn lemma_reports_end(state: IngestView, chunks: Seq<Seq<u8>>)
    requires
        state.stage == Stage::Receiving,
        state.received <= usize::MAX,
        chunks.len() > 0,
        feed(state, chunks).received >= state.size,
    ensures
        reports(state, chunks).len() > 0,
        reports(state, chunks).last() == 100,
{
    lemma_feed(state, chunks);
    crate::progress::lemma_report_complete(feed(state, chunks).received, state.size);
}

/// The state of an upload whose two parts have begun in order: the size
/// part was accepted with `size`, the file part carries `name`.
pub open spec fn begun(config: IngestConfig, size: usize, name: Seq<char>) -> IngestView {
    IngestView {
        config: config,
        stage: Stage::Receiving,
        size: size as nat,
        name: name,
        bytes: Seq::empty(),
        received: 0,
    }
}

/// An upload whose parts come in order hands out a file with exactly the
/// name of the file part, the declared size, and the bytes of the chunks in
/// the order in which they came.
pub proof fn lemma_upload_keeps_bytes(
    config: IngestConfig,
    size: usize,
    name: Seq<char>,
    chunks: Seq<Seq<u8>>,
)
    ensures
        after_file(
            after_size(
                IngestView {
                    config: config,
                    stage: Stage::AwaitingSize,
                    size: 0,
                    name: Seq::empty(),
                    bytes: Seq::empty(),
                    received: 0,
                },
                Ok(size),
            ),
            Some(name),
        ) == begun(config, size, name),
        finished(feed(begun(config, size, name), chunks)) == Ok::<FileView, IngestError>(
            FileView { size: size as nat, name: name, bytes: joined(chunks) },
        ),
{
    lemma_feed(begun(config, size, name), chunks);
    assert(Seq::<u8>::empty() + joined(chunks) =~= joined(chunks));
}

/// Once an upload has been refused, no chunk is kept and no file comes out
/// of it, whatever is sent afterwards.
pub proof fn lemma_refused_stays(state: IngestView, error: IngestError, chunks: Seq<Seq<u8>>)
    requires
        state.stage == Stage::Failed(error),
        state.bytes.len() == 0,
    ensures
        feed(state, chunks).stage == Stage::Failed(error),
        feed(state, chunks).bytes.len() == 0,
        finished(feed(state, chunks)) == Err::<FileView, IngestError>(error),
        reports(state, chunks).len() == 0,
    decreases chunks.len(),
{
    if chunks.len() > 0 {
        lemma_refused_stays(state, error, chunks.drop_last());
    }
}

/// A size above the ceiling is refused, whatever the allocator says, and
/// nothing of the upload is kept then or later.
pub proof fn lemma_oversize_refused(
    state: IngestView,
    size: usize,
    reserved: bool,
    chunks: Seq<Seq<u8>>,
)
    requires
        state.stage == Stage::AwaitingSize,
        size > state.config.size_limit,
    ensures
        spec_size_verdict(Some(size), reserved, state.config.size_limit) is Err,
        after_size(
            state,
            spec_size_verdict(Some(size), reserved, state.config.size_limit),
        ).stage is Failed,
        feed(
            after_file(
                after_size(state, spec_size_verdict(Some(size), reserved, state.config.size_limit)),
                Some(Seq::<char>::empty()),
            ),
            chunks,
        ).bytes.len() == 0,
        finished(
            feed(
                after_file(
                    after_size(
                        state,
                        spec_size_verdict(Some(size), reserved, state.config.size_limit),
                    ),
                    Some(Seq::<char>::empty()),
                ),
                chunks,
            ),
        ) is Err,
{
    let verdict = spec_size_verdict(Some(size), reserved, state.config.size_limit);
    let refusal = verdict->Err_0;
    let after = after_file(after_size(state, verdict), Some(Seq::<char>::empty()));
    assert(after.stage == Stage::Failed(refusal));
    lemma_refused_stays(after, refusal, chunks);
}

/// What a chunk leads to beyond the upload itself.
#[derive(Clone, Copy, Debug, PartialEq, Eq, Structural)]
pub struct ChunkOutcome {
    /// The progress that was due for publication, if any.
    pub report: Option<u8>,
    /// Whether the transfer's own subscriber was shown the progress.
    pub delivered: bool,
    /// The class of the viewers whose aggregate pump should be woken, if
    /// the registry has changed.
    pub wake: Option<DeviceClass>,
}

/// What a report leads to, given how the registry took the update: a
/// refusal when the record is missing and the policy is strict, otherwise
/// the outcome for the transport.
pub open spec fn spec_judge_update(
    report: u8,
    update: UpdateOutcome,
    class: Option<DeviceClass>,
    policy: MissingEntryPolicy,
) -> Result<ChunkOutcome, IngestError> {
    match update {
        UpdateOutcome::Missing => match policy {
            MissingEntryPolicy::Strict => Err(IngestError::MissingRegistryEntry),
            MissingEntryPolicy::Lenient => Ok(
                ChunkOutcome { report: Some(report), delivered: false, wake: None },
            ),
        },
        UpdateOutcome::Stored { progress, delivered } => Ok(
            ChunkOutcome {
                report: Some(report),
                delivered: delivered,
                wake: match class {
                    Some(class) => Some(class.spec_other()),
                    None => None,
                },
            },
        ),
    }
}

/// Decides what a report leads to, given how the registry took the update
/// and the class of the device that the transfer comes from.
#[verifier::when_used_as_spec(spec_judge_update)]
pub fn judge_update(
    report: u8,
    update: UpdateOutcome,
    class: Option<DeviceClass>,
    policy: MissingEntryPolicy,
) -> (verdict: Result<ChunkOutcome, IngestError>)
    ensures
        verdict == spec_judge_update(report, update, class, policy),
{
    match update {
        UpdateOutcome::Missing => match policy {
            MissingEntryPolicy::Strict => Err(IngestError::MissingRegistryEntry),
            MissingEntryPolicy::Lenient => Ok(
                ChunkOutcome { report: Some(report), delivered: false, wake: None },
            ),
        },
        UpdateOutcome::Stored { progress, delivered } => Ok(
            ChunkOutcome {
                report: Some(report),
                delivered,
                wake: match class {
                    Some(class) => Some(class.other()),
                    None => None,
                },
            },
        ),
    }
}

/// What publishing leads to from the state `after` that an upload has
/// reached and the transfers `before` on record. Without progress that is
/// due, nothing changes. With progress due, the record under the file name
/// takes the declared size and the progress, and the outcome names the
/// viewers of the other class; when there is no such record, nothing
/// changes on record, and the policy decides whether the upload goes on.
pub open spec fn publishes(
    after: IngestView,
    before: Map<Seq<char>, Transfer>,
    outcome: Result<ChunkOutcome, IngestError>,
    state: IngestView,
    transfers: Map<Seq<char>, Transfer>,
) -> bool {
    match chunk_report(after) {
        Err(error) => outcome == Err::<ChunkOutcome, IngestError>(error) && state == after
            && transfers == before,
        Ok(None) => outcome == Ok::<ChunkOutcome, IngestError>(
            ChunkOutcome { report: None, delivered: false, wake: None },
        ) && state == after && transfers == before,
        Ok(Some(progress)) => if before.dom().contains(after.name) {
            &&& state == after
            &&& outcome matches Ok(done)
            &&& done.report == Some(progress)
            &&& done.wake == Some(before[after.name].class.spec_other())
            &&& transfers == before.insert(
                after.name,
                after_update(before[after.name], after.size, progress, done.delivered),
            )
        } else {
            &&& transfers == before
            &&& outcome == spec_judge_update(
                progress,
                UpdateOutcome::Missing,
                None,
                after.config.missing_entry,
            )
            &&& state == match outcome {
                Ok(_) => after,
                Err(error) => refused(after, error),
            }
        },
    }
}

/// The reception of one upload.
pub struct Ingest {
    config: IngestConfig,
    stage: Stage,
    size: usize,
    name: String,
    bytes: Vec<u8>,
    received: usize,
}

impl View for Ingest {
    type V = IngestView;

    closed spec fn view(&self) -> IngestView {
        IngestView {
            config: self.config,
            stage: self.stage,
            size: self.size as nat,
            name: self.name@,
            bytes: self.bytes@,
            received: self.received as nat,
        }
    }
}

impl Ingest {
    /// An upload of which nothing has come yet.
    pub fn new(config: IngestConfig) -> (ingest: Self)
        ensures
            ingest@ == (IngestView {
                config: config,
                stage: Stage::AwaitingSize,
                size: 0,
                name: Seq::empty(),
                bytes: Seq::empty(),
                received: 0,
            }),
    {
        Ingest {
            config,
            stage: Stage::AwaitingSize,
            size: 0,
            name: String::new(),
            bytes: Vec::new(),
            received: 0,
        }
    }

    /// How far the upload has come.
    pub fn stage(&self) -> (stage: Stage)
        ensures
            stage == self@.stage,
    {
        self.stage
    }

    /// The declared size.
    pub fn declared_size(&self) -> (size: usize)
        ensures
            size == self@.size,
    {
        self.size
    }

    /// The number of bytes that have come so far.
    pub fn received(&self) -> (count: usize)
        ensures
            count == self@.received,
    {
        self.received
    }

    /// The file name, once the `file` part has begun.
    pub fn name(&self) -> (name: &str)
        ensures
            name@ == self@.name,
    {
        self.name.as_str()
    }

    /// The progress of the upload.
    pub fn progress(&self) -> (p: u8)
        ensures
            p == percent(self@.received, self@.size),
    {
        percent_of(self.received, self.size)
    }

    fn refuse(&mut self, error: IngestError)
        ensures
            final(self)@ == refused(old(self)@, error),
    {
        self.stage = Stage::Failed(error);
        self.bytes = Vec::new();
    }

    fn turn(&self, due: Stage) -> (refusal: Option<IngestError>)
        ensures
            refusal == out_of_turn(self@.stage, due),
    {
        match self.stage {
            Stage::Failed(error) => Some(error),
            _ => if self.stage == due {
                None
            } else {
                Some(IngestError::OrderingError)
            },
        }
    }

    /// Takes the `size` part. The text is read as an unsigned decimal
    /// number, a buffer of that size is reserved, and the size is held
    /// against the ceiling, in this order. Whether the buffer can be had
    /// is for the allocator to say: a size that reads and is not above the
    /// ceiling is accepted unless the reservation fails, and a size above
    /// the ceiling is refused whatever the allocator says.
    pub fn accept_size(&mut self, text: &str) -> (verdict: Result<usize, IngestError>)
        ensures
            final(self)@ == after_size(old(self)@, verdict),
            match out_of_turn(old(self)@.stage, Stage::AwaitingSize) {
                Some(error) => verdict == Err::<usize, IngestError>(error),
                None => verdict == spec_size_verdict(
                    parse_size(text@),
                    true,
                    old(self)@.config.size_limit,
                ) || (parse_size(text@) is Some && verdict == Err::<usize, IngestError>(
                    IngestError::AllocationFailure,
                )),
            },
    {
        if let Some(error) = self.turn(Stage::AwaitingSize) {
            self.refuse(error);
            return Err(error);
        }
        let parsed = read_size(text);
        let reserved = match parsed {
            Some(size) => self.bytes.try_reserve(size).is_ok(),
            None => false,
        };
        let verdict = size_verdict(parsed, reserved, self.config.size_limit);
        match verdict {
            Ok(size) => {
                self.size = size;
                self.stage = Stage::AwaitingFile;
            },
            Err(error) => {
                self.refuse(error);
            },
        }
        verdict
    }

    /// Takes the beginning of the `file` part with its file name.
    pub fn begin_file(&mut self, filename: Option<&str>) -> (verdict: Result<(), IngestError>)
        ensures
            verdict == file_verdict(
                old(self)@.stage,
                match filename {
                    Some(name) => Some(name@),
                    None => None,
                },
            ),
            final(self)@ == after_file(
                old(self)@,
                match filename {
                    Some(name) => Some(name@),
                    None => None,
                },
            ),
    {
        if let Some(error) = self.turn(Stage::AwaitingFile) {
            self.refuse(error);
            return Err(error);
        }
        match filename {
            Some(name) => {
                self.name = name.to_owned();
                self.stage = Stage::Receiving;
                Ok(())
            },
            None => {
                self.refuse(IngestError::MissingFilename);
                Err(IngestError::MissingFilename)
            },
        }
    }

    /// Takes a chunk of the file, keeps its bytes, and says what is to be
    /// published: the progress, when it lies on a reporting boundary.
    pub fn accept_chunk(&mut self, chunk: &[u8]) -> (report: Result<Option<u8>, IngestError>)
        ensures
            final(self)@ == after_chunk(old(self)@, chunk@),
            report == chunk_report(final(self)@),
    {
        if let Some(error) = self.turn(Stage::Receiving) {
            self.refuse(error);
            return Err(error);
        }
        self.bytes.extend_from_slice(chunk);
        assert(self.bytes@ =~= old(self).bytes@ + chunk@);
        self.received = self.received.saturating_add(chunk.len());
        Ok(self.report())
    }

    /// Counts `count` bytes of the file that the transport has stored
    /// elsewhere, and says what is to be published.
    pub fn accept_written(&mut self, count: usize) -> (report: Result<Option<u8>, IngestError>)
        ensures
            final(self)@ == after_written(old(self)@, count as nat),
            report == chunk_report(final(self)@),
    {
        if let Some(error) = self.turn(Stage::Receiving) {
            self.refuse(error);
            return Err(error);
        }
        self.received = self.received.saturating_add(count);
        Ok(self.report())
    }

    fn report(&self) -> (report: Option<u8>)
        ensures
            report == report_at(self@.received, self@.size),
    {
        let progress = percent_of(self.received, self.size);
        if is_report_boundary(progress) {
            Some(progress)
        } else {
            None
        }
    }

    /// Stores progress that is due in the registry under the file name and
    /// shows it to the transfer's subscriber.
    fn publish(&mut self, report: Result<Option<u8>, IngestError>, registry: &mut TransferRegistry) -> (outcome:
        Result<ChunkOutcome, IngestError>)
        requires
            old(registry).wf(),
            report == chunk_report(old(self)@),
        ensures
            final(registry).wf(),
            final(registry).keys() == old(registry).keys(),
            publishes(old(self)@, old(registry)@, outcome, final(self)@, final(registry)@),
    {
        let progress = match report {
            Err(error) => {
                return Err(error);
            },
            Ok(None) => {
                return Ok(ChunkOutcome { report: None, delivered: false, wake: None });
            },
            Ok(Some(progress)) => progress,
        };
        let class = match registry.lookup(self.name.as_str()) {
            Some(record) => Some(record.device_class),
            None => None,
        };
        let update = registry.update(self.name.as_str(), self.received, self.size);
        let verdict = judge_update(progress, update, class, self.config.missing_entry);
        if let Err(error) = verdict {
            self.refuse(error);
        }
        verdict
    }

    /// Takes a chunk of the file, keeps its bytes and, when progress is
    /// due, stores it in the registry under the file name and shows it to
    /// the transfer's subscriber. The outcome names the viewers whose pump
    /// is to be woken. No record but the one under the file name is
    /// touched.
    pub fn receive(&mut self, chunk: &[u8], registry: &mut TransferRegistry) -> (outcome: Result<
        ChunkOutcome,
        IngestError,
    >)
        requires
            old(registry).wf(),
        ensures
            final(registry).wf(),
            final(registry).keys() == old(registry).keys(),
            publishes(
                after_chunk(old(self)@, chunk@),
                old(registry)@,
                outcome,
                final(self)@,
                final(registry)@,
            ),
    {
        let report = self.accept_chunk(chunk);
        self.publish(report, registry)
    }

    /// Counts `count` bytes of the file that the transport has stored
    /// elsewhere and, when progress is due, stores it in the registry under
    /// the file name and shows it to the transfer's subscriber, as
    /// [`Self::receive`] does.
    pub fn record_written(&mut self, count: usize, registry: &mut TransferRegistry) -> (outcome:
        Result<ChunkOutcome, IngestError>)
        requires
            old(registry).wf(),
        ensures
            final(registry).wf(),
            final(registry).keys() == old(registry).keys(),
            publishes(
                after_written(old(self)@, count as nat),
                old(registry)@,
                outcome,
                final(self)@,
                final(registry)@,
            ),
    {
        let report = self.accept_written(count);
        self.publish(report, registry)
    }

    /// Ends the upload and hands out the file with its name, its declared
    /// size and the bytes that were kept, in the order in which they came.
    pub fn finish(self) -> (file: Result<File, IngestError>)
        ensures
            match file {
                Ok(f) => finished(self@) == Ok::<FileView, IngestError>(f@),
                Err(error) => finished(self@) == Err::<FileView, IngestError>(error),
            },
    {
        match self.stage {
            Stage::Receiving => Ok(File { size: self.size, name: self.name, bytes: self.bytes }),
            Stage::Failed(error) => Err(error),
            _ => Err(IngestError::MissingPart),
        }
    }
}

} // verus!
