//! Overwriting a file at once: by a new file beside it that takes its place.

use vstd::prelude::*;

use crate::io_error::{IoError, IoErrorView};

verus! {

/// A stage of an atomic write.
#[derive(Debug, Clone, Copy, PartialEq, Eq, Structural)]
pub enum WriteStage {
    /// Make a new file in the directory of the target.
    CreateTemp,
    /// Restrict the new file to its mode.
    SetMode,
    /// Write the content to the new file.
    WriteAll,
    /// Sync the new file.
    SyncFile,
    /// Rename the new file to the target.
    Persist,
    /// Sync the directory. What that comes to does not matter.
    SyncDirectory,
}

/// The stages, in the order in which they are taken.
pub open spec fn write_stages() -> Seq<WriteStage> {
    seq![
        WriteStage::CreateTemp,
        WriteStage::SetMode,
        WriteStage::WriteAll,
        WriteStage::SyncFile,
        WriteStage::Persist,
        WriteStage::SyncDirectory,
    ]
}

/// A stage that failed.
#[derive(Debug, PartialEq, Eq)]
pub struct StageFailure {
    pub stage: WriteStage,
    pub source: IoError,
}

/// A stage with what it works on.
#[derive(Debug, PartialEq, Eq)]
pub enum WriteStep<'a> {
    /// Make a new file in `dir`.
    CreateTemp { dir: &'a str },
    /// Restrict the new file to `mode`.
    SetMode { mode: u32 },
    /// Write `content` to the new file.
    WriteAll { content: &'a [u8] },
    /// Sync the new file.
    SyncFile,
    /// Rename the new file to `target`.
    Persist { target: &'a str },
    /// Sync `dir`. What that comes to does not matter.
    SyncDirectory { dir: &'a str },
}

/// A stage with what it works on.
#[allow(inconsistent_fields)]
pub enum WriteStepView {
    CreateTemp { dir: Seq<char> },
    SetMode { mode: u32 },
    WriteAll { content: Seq<u8> },
    SyncFile,
    Persist { target: Seq<char> },
    SyncDirectory { dir: Seq<char> },
}

impl<'a> View for WriteStep<'a> {
    type V = WriteStepView;

    open spec fn view(&self) -> WriteStepView {
        match *self {
            WriteStep::CreateTemp { dir } => WriteStepView::CreateTemp { dir: dir@ },
            WriteStep::SetMode { mode } => WriteStepView::SetMode { mode },
            WriteStep::WriteAll { content } => WriteStepView::WriteAll { content: content@ },
            WriteStep::SyncFile => WriteStepView::SyncFile,
            WriteStep::Persist { target } => WriteStepView::Persist { target: target@ },
            WriteStep::SyncDirectory { dir } => WriteStepView::SyncDirectory { dir: dir@ },
        }
    }
}

/// A write of `content` to `target`, by a new file in `dir` with `mode`.
pub struct WriteView {
    pub target: Seq<char>,
    pub dir: Seq<char>,
    pub content: Seq<u8>,
    pub mode: u32,
}

/// A stage of a write, with what it works on.
pub open spec fn write_step(stage: WriteStage, write: WriteView) -> WriteStepView {
    match stage {
        WriteStage::CreateTemp => WriteStepView::CreateTemp { dir: write.dir },
        WriteStage::SetMode => WriteStepView::SetMode { mode: write.mode },
        WriteStage::WriteAll => WriteStepView::WriteAll { content: write.content },
        WriteStage::SyncFile => WriteStepView::SyncFile,
        WriteStage::Persist => WriteStepView::Persist { target: write.target },
        WriteStage::SyncDirectory => WriteStepView::SyncDirectory { dir: write.dir },
    }
}

/// What to do next for an atomic write.
#[derive(Debug, PartialEq, Eq)]
pub enum AtomicNext<'a> {
    /// Take this stage.
    Take(WriteStep<'a>),
    /// Nothing: the target has the content, or a stage failed.
    Done(Result<(), StageFailure>),
}

/// What to do next for an atomic write.
pub enum AtomicNextView {
    Take(WriteStepView),
    Written,
    Failed { stage: WriteStage, source: IoErrorView },
}

impl<'a> View for AtomicNext<'a> {
    type V = AtomicNextView;

    open spec fn view(&self) -> AtomicNextView {
        match *self {
            AtomicNext::Take(step) => AtomicNextView::Take(step@),
            AtomicNext::Done(Ok(())) => AtomicNextView::Written,
            AtomicNext::Done(Err(failure)) => AtomicNextView::Failed {
                stage: failure.stage,
                source: failure.source@,
            },
        }
    }
}

/// The rule for an atomic write, from the `i`-th stage on: the first stage
/// that fails ends it.
pub open spec fn atomic_rule(
    write: WriteView,
    taken: Seq<Result<(), IoError>>,
    i: int,
) -> AtomicNextView
    decreases write_stages().len() - i,
{
    if i >= write_stages().len() {
        AtomicNextView::Written
    } else {
        let stage = write_stages()[i];
        if i >= taken.len() {
            AtomicNextView::Take(write_step(stage, write))
        } else {
            match taken[i] {
                Ok(()) => atomic_rule(write, taken, i + 1),
                Err(e) => if stage == WriteStage::SyncDirectory {
                    atomic_rule(write, taken, i + 1)
                } else {
                    AtomicNextView::Failed { stage, source: e@ }
                },
            }
        }
    }
}

fn step_of<'a>(
    stage: WriteStage,
    target: &'a str,
    dir: &'a str,
    content: &'a [u8],
    mode: u32,
) -> (step: WriteStep<'a>)
    ensures
        step@ == write_step(
            stage,
            WriteView { target: target@, dir: dir@, content: content@, mode },
        ),
{
    match stage {
        WriteStage::CreateTemp => WriteStep::CreateTemp { dir },
        WriteStage::SetMode => WriteStep::SetMode { mode },
        WriteStage::WriteAll => WriteStep::WriteAll { content },
        WriteStage::SyncFile => WriteStep::SyncFile,
        WriteStage::Persist => WriteStep::Persist { target },
        WriteStage::SyncDirectory => WriteStep::SyncDirectory { dir },
    }
}

/// What to do next to write `content` to `target` at once, by a new file in
/// `dir` with `mode`, when the first stages came to `taken`.
pub fn atomic_write_file<'a>(
    target: &'a str,
    dir: &'a str,
    content: &'a [u8],
    mode: u32,
    taken: &Vec<Result<(), IoError>>,
) -> (next: AtomicNext<'a>)
    ensures
        next@ == atomic_rule(
            (WriteView { target: target@, dir: dir@, content: content@, mode }),
            taken@,
            0,
        ),
{
    let ghost write: WriteView = WriteView { target: target@, dir: dir@, content: content@, mode };
    let all: Vec<WriteStage> = vec![
        WriteStage::CreateTemp,
        WriteStage::SetMode,
        WriteStage::WriteAll,
        WriteStage::SyncFile,
        WriteStage::Persist,
        WriteStage::SyncDirectory,
    ];
    assert(all@ =~= write_stages());
    let mut i: usize = 0;
    while i < all.len()
        invariant
            all@ == write_stages(),
            i <= all@.len(),
            write == (WriteView { target: target@, dir: dir@, content: content@, mode }),
            atomic_rule(write, taken@, 0) == atomic_rule(write, taken@, i as int),
        decreases all.len() - i,
    {
        if i >= taken.len() {
            return AtomicNext::Take(step_of(all[i], target, dir, content, mode));
        }
        match &taken[i] {
            Ok(()) => {},
            Err(err) => {
                if all[i] != WriteStage::SyncDirectory {
                    return AtomicNext::Done(
                        Err(StageFailure { stage: all[i], source: err.clone() }),
                    );
                }
            },
        }
        i = i + 1;
    }
    AtomicNext::Done(Ok(()))
}

// ── Laws ─────────────────────────────────────────────────────────────────────

/// The two files of an atomic write: what the target holds, what the new file
/// holds, and whether the new file is restricted to its mode.
#[verifier::ext_equal]
pub struct Files {
    pub target: Option<Seq<u8>>,
    pub temp: Option<Seq<u8>>,
    pub restricted: bool,
}

/// The files after a stage that succeeded.
pub open spec fn after(files: Files, step: WriteStepView) -> Files {
    match step {
        WriteStepView::CreateTemp { .. } => Files {
            temp: Some(Seq::empty()),
            restricted: false,
            ..files
        },
        WriteStepView::SetMode { .. } => Files { restricted: true, ..files },
        WriteStepView::WriteAll { content } => Files { temp: Some(content), ..files },
        WriteStepView::Persist { .. } => Files { target: files.temp, temp: None, ..files },
        _ => files,
    }
}

/// The files after the first `n` stages succeeded.
pub open spec fn after_stages(files: Files, write: WriteView, n: int) -> Files
    decreases n,
{
    if n <= 0 {
        files
    } else {
        after(after_stages(files, write, n - 1), write_step(write_stages()[n - 1], write))
    }
}

/// Wherever a write is cut short, the target holds what it held or the whole
/// of the new content; and it holds the new content once the write is done.
pub proof fn law_target_is_old_or_new(files: Files, write: WriteView, n: int)
    requires
        0 <= n <= write_stages().len(),
    ensures
        n < 5 ==> after_stages(files, write, n).target == files.target,
        n >= 5 ==> after_stages(files, write, n).target == Some(write.content),
{
    reveal_with_fuel(after_stages, 7);
}

/// No byte of the content is in a file that is not restricted to its mode.
pub proof fn law_content_is_never_exposed(files: Files, write: WriteView, n: int)
    requires
        0 <= n <= write_stages().len(),
        files.temp is None,
    ensures
        after_stages(files, write, n).temp matches Some(bytes) && bytes.len() > 0
            ==> after_stages(files, write, n).restricted,
{
    reveal_with_fuel(after_stages, 7);
}

/// A write that failed before the rename has left the target alone, and one
/// that is reported as done has renamed.
pub proof fn law_failure_leaves_the_target(write: WriteView, taken: Seq<Result<(), IoError>>)
    ensures
        atomic_rule(write, taken, 0) matches AtomicNextView::Failed { stage, .. } ==> stage
            != WriteStage::SyncDirectory,
        atomic_rule(write, taken, 0) is Written ==> taken.len() >= write_stages().len() && (
        taken[4] matches Ok(_)),
{
    reveal_with_fuel(atomic_rule, 7);
}

/// Each stage works on the write it belongs to: the new file is made in its
/// directory, restricted to its mode, filled with its content and synced, before
/// it takes its target's name; the stage that failed is the one that is told.
pub proof fn law_stages_belong_to_the_write(write: WriteView, taken: Seq<Result<(), IoError>>)
    ensures
        ({
            let steps = seq![
                WriteStepView::CreateTemp { dir: write.dir },
                WriteStepView::SetMode { mode: write.mode },
                WriteStepView::WriteAll { content: write.content },
                WriteStepView::SyncFile,
                WriteStepView::Persist { target: write.target },
                WriteStepView::SyncDirectory { dir: write.dir },
            ];
            let stages = seq![
                WriteStage::CreateTemp,
                WriteStage::SetMode,
                WriteStage::WriteAll,
                WriteStage::SyncFile,
                WriteStage::Persist,
            ];
            match atomic_rule(write, taken, 0) {
                AtomicNextView::Take(step) => taken.len() < 6 && step == steps[taken.len() as int],
                AtomicNextView::Failed { stage, source } => exists|k: int|
                    0 <= k < 5 && k < taken.len() && stage == stages[k] && (
                    #[trigger] taken[k] matches Err(e) && source == e@),
                AtomicNextView::Written => taken.len() >= 6 && forall|k: int|
                    0 <= k < 5 ==> #[trigger] taken[k] is Ok,
            }
        }),
{
    reveal_with_fuel(atomic_rule, 7);
}

} // verus!
