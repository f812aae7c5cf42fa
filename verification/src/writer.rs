//! The staging protocol that publishes an encoded image.
//!
//! The bytes are written to a staging file beside the destination, flushed
//! and synced, and only then renamed onto the destination, so that an
//! observer sees the old content or the new, never a mixture. Each stage
//! names the file operation to perform next; the caller performs it and
//! reports whether it succeeded. After any failure past the creation of the
//! directories the staging file is removed before the write ends as failed.

use vstd::prelude::*;

verus! {

/// Where a write stands. Every stage but the last two names the operation
/// to perform next.
#[derive(Clone, Copy, Debug, PartialEq, Eq, Structural)]
pub enum WriteStage {
    /// Create the destination's parent directories.
    CreateDirs,
    /// Create or truncate the staging file.
    OpenStaging,
    /// Write the encoded bytes to the staging file.
    WriteBytes,
    /// Flush buffered bytes to the staging file.
    Flush,
    /// Force the staging file's data to durable storage.
    Sync,
    /// Rename the staging file onto the destination.
    Rename,
    /// Remove the staging file after a failure.
    RemoveStaging,
    /// The destination holds the new content. Nothing is left to do.
    Published,
    /// The write failed. Nothing is left to do.
    Failed,
}

/// The stage that follows `stage` when its operation succeeded (`ok`) or
/// failed.
pub open spec fn after(stage: WriteStage, ok: bool) -> WriteStage {
    match stage {
        WriteStage::CreateDirs => if ok {
            WriteStage::OpenStaging
        } else {
            WriteStage::Failed
        },
        WriteStage::OpenStaging => if ok {
            WriteStage::WriteBytes
        } else {
            WriteStage::RemoveStaging
        },
        WriteStage::WriteBytes => if ok {
            WriteStage::Flush
        } else {
            WriteStage::RemoveStaging
        },
        WriteStage::Flush => if ok {
            WriteStage::Sync
        } else {
            WriteStage::RemoveStaging
        },
        WriteStage::Sync => if ok {
            WriteStage::Rename
        } else {
            WriteStage::RemoveStaging
        },
        WriteStage::Rename => if ok {
            WriteStage::Published
        } else {
            WriteStage::RemoveStaging
        },
        WriteStage::RemoveStaging => WriteStage::Failed,
        WriteStage::Published => WriteStage::Published,
        WriteStage::Failed => WriteStage::Failed,
    }
}

/// The stage reached from `CreateDirs` after the given outcomes, one per
/// operation performed.
pub open spec fn reached(outcomes: Seq<bool>) -> WriteStage
    decreases outcomes.len(),
{
    if outcomes.len() == 0 {
        WriteStage::CreateDirs
    } else {
        after(reached(outcomes.drop_last()), outcomes.last())
    }
}

/// Number of operations that must have succeeded for a write to stand at
/// `stage` without any failure.
pub open spec fn steps_before(stage: WriteStage) -> nat {
    match stage {
        WriteStage::CreateDirs => 0,
        WriteStage::OpenStaging => 1,
        WriteStage::WriteBytes => 2,
        WriteStage::Flush => 3,
        WriteStage::Sync => 4,
        WriteStage::Rename => 5,
        _ => 6,
    }
}

/// Whether the first `count` outcomes are all successes.
pub open spec fn all_ok(outcomes: Seq<bool>, count: nat) -> bool {
    count <= outcomes.len() && forall|i: int| 0 <= i < count ==> outcomes[i]
}

/// Whether the staging file was asked to be removed at some point of the
/// trace.
pub open spec fn cleaned_up(outcomes: Seq<bool>) -> bool {
    exists|k: int|
        0 <= k < outcomes.len() && #[trigger] reached(outcomes.take(k)) == WriteStage::RemoveStaging
}

/// What holds of every trace, by the stage it reaches.
proof fn lemma_trace(outcomes: Seq<bool>)
    ensures
        match reached(outcomes) {
            WriteStage::Published => all_ok(outcomes, 6),
            WriteStage::Failed => outcomes.len() >= 1 && (!outcomes[0] || cleaned_up(outcomes)),
            WriteStage::RemoveStaging => outcomes.len() >= 2 && all_ok(
                outcomes,
                (outcomes.len() - 1) as nat,
            ) && !outcomes.last() && outcomes.len() <= 6,
            stage => outcomes.len() == steps_before(stage) && all_ok(outcomes, outcomes.len()),
        },
    decreases outcomes.len(),
{
    if outcomes.len() > 0 {
        let before = outcomes.drop_last();
        lemma_trace(before);
        let prev = reached(before);
        assert(reached(outcomes) == after(prev, outcomes.last()));
        assert(forall|i: int| 0 <= i < before.len() ==> before[i] == outcomes[i]);
        if reached(outcomes) == WriteStage::Failed {
            if prev == WriteStage::RemoveStaging {
                assert(outcomes.take(before.len() as int) =~= before);
            } else if prev == WriteStage::Failed {
                if cleaned_up(before) {
                    let k = choose|k: int|
                        0 <= k < before.len() && #[trigger] reached(before.take(k))
                            == WriteStage::RemoveStaging;
                    assert(outcomes.take(k) =~= before.take(k));
                }
            }
        }
    }
}

/// The destination is only ever created by the rename, and the rename is
/// only ever asked for after the directories were created and the staging
/// file was opened, written in full, flushed and synced, each with success.
pub proof fn lemma_rename_needs_durable_staging(outcomes: Seq<bool>)
    requires
        reached(outcomes) == WriteStage::Rename || reached(outcomes) == WriteStage::Published,
    ensures
        all_ok(outcomes, 5),
        reached(outcomes.take(5)) == WriteStage::Rename,
        reached(outcomes) == WriteStage::Published ==> all_ok(outcomes, 6),
{
    lemma_trace(outcomes);
    let five = outcomes.take(5);
    lemma_all_ok_reaches(five, 5);
}

/// A trace of `count` successes, for `count` up to six, stands at the stage
/// with that many steps before it.
pub proof fn lemma_all_ok_reaches(outcomes: Seq<bool>, count: nat)
    requires
        outcomes.len() == count,
        count <= 6,
        all_ok(outcomes, count),
    ensures
        steps_before(reached(outcomes)) == count,
        reached(outcomes) != WriteStage::Failed,
        reached(outcomes) != WriteStage::RemoveStaging,
    decreases count,
{
    if count > 0 {
        let before = outcomes.drop_last();
        lemma_all_ok_reaches(before, (count - 1) as nat);
        assert(outcomes.last());
    }
}

/// A write that fails after its directories were created has asked for the
/// staging file to be removed before it ended.
pub proof fn lemma_failure_cleans_up(outcomes: Seq<bool>)
    requires
        reached(outcomes) == WriteStage::Failed,
        outcomes.len() >= 1 ==> outcomes[0],
    ensures
        cleaned_up(outcomes),
{
    lemma_trace(outcomes);
}

/// What a write has made of the two files it touches, as far as its own
/// operations go: whether a staging file is there, and whether the
/// destination holds the new content.
pub ghost struct Files {
    pub staging: bool,
    pub published: bool,
}

/// What the operation of `stage` does to the files when it succeeds or
/// fails: opening creates the staging file, renaming turns it into the
/// destination in one step, removing deletes it; a failed operation and
/// every other operation leave both files as they are.
pub open spec fn effect(stage: WriteStage, ok: bool, files: Files) -> Files {
    if !ok {
        files
    } else {
        match stage {
            WriteStage::OpenStaging => Files { staging: true, ..files },
            WriteStage::Rename => Files { staging: false, published: true },
            WriteStage::RemoveStaging => Files { staging: false, ..files },
            _ => files,
        }
    }
}

/// The files after the given outcomes, starting from `files`.
pub open spec fn files_after(outcomes: Seq<bool>, files: Files) -> Files
    decreases outcomes.len(),
{
    if outcomes.len() == 0 {
        files
    } else {
        effect(
            reached(outcomes.drop_last()),
            outcomes.last(),
            files_after(outcomes.drop_last(), files),
        )
    }
}

/// What holds of the files of every trace, by the stage it reaches.
proof fn lemma_files(outcomes: Seq<bool>, files: Files)
    ensures
        match reached(outcomes) {
            WriteStage::Published => files_after(outcomes, files) == (Files {
                staging: false,
                published: true,
            }),
            WriteStage::CreateDirs | WriteStage::OpenStaging => files_after(outcomes, files)
                == files,
            WriteStage::Failed => files_after(outcomes, files).published == files.published,
            WriteStage::RemoveStaging => files_after(outcomes, files).published
                == files.published,
            _ => files_after(outcomes, files) == (Files { staging: true, ..files }),
        },
    decreases outcomes.len(),
{
    if outcomes.len() > 0 {
        lemma_files(outcomes.drop_last(), files);
    }
}

/// A published write leaves the new content at the destination and no
/// staging file behind.
pub proof fn lemma_published_is_clean(outcomes: Seq<bool>, files: Files)
    requires
        reached(outcomes) == WriteStage::Published,
    ensures
        files_after(outcomes, files) == (Files { staging: false, published: true }),
{
    lemma_files(outcomes, files);
}

/// A write that does not reach its rename never touches the destination:
/// at every stage but `Published` the destination is as it was before.
pub proof fn lemma_unpublished_keeps_destination(outcomes: Seq<bool>, files: Files)
    requires
        reached(outcomes) != WriteStage::Published,
    ensures
        files_after(outcomes, files).published == files.published,
{
    lemma_files(outcomes, files);
}

/// A write that ends as failed by removing its staging file leaves no
/// staging file behind.
pub proof fn lemma_failed_is_clean(outcomes: Seq<bool>, files: Files)
    requires
        outcomes.len() >= 1,
        reached(outcomes.drop_last()) == WriteStage::RemoveStaging,
        outcomes.last(),
    ensures
        reached(outcomes) == WriteStage::Failed,
        !files_after(outcomes, files).staging,
        files_after(outcomes, files).published == files.published,
{
    lemma_files(outcomes.drop_last(), files);
}

/// One more outcome moves a trace on by one step.
pub proof fn lemma_reached_push(outcomes: Seq<bool>, ok: bool)
    ensures
        reached(outcomes.push(ok)) == after(reached(outcomes), ok),
{
    assert(outcomes.push(ok).drop_last() =~= outcomes);
}

/// Once a write is published or failed, no outcome moves it.
pub proof fn lemma_end_is_final(stage: WriteStage, ok: bool)
    requires
        stage == WriteStage::Published || stage == WriteStage::Failed,
    ensures
        after(stage, ok) == stage,
{
}

/// The first stage of every write.
pub fn begin_write() -> (stage: WriteStage)
    ensures
        stage == reached(Seq::empty()),
        stage == WriteStage::CreateDirs,
{
    WriteStage::CreateDirs
}

/// Moves a write on, given whether the operation that `stage` names
/// succeeded.
pub fn advance_write(stage: WriteStage, ok: bool) -> (next: WriteStage)
    ensures
        next == after(stage, ok),
{
    match stage {
        WriteStage::CreateDirs => if ok {
            WriteStage::OpenStaging
        } else {
            WriteStage::Failed
        },
        WriteStage::OpenStaging => if ok {
            WriteStage::WriteBytes
        } else {
            WriteStage::RemoveStaging
        },
        WriteStage::WriteBytes => if ok {
            WriteStage::Flush
        } else {
            WriteStage::RemoveStaging
        },
        WriteStage::Flush => if ok {
            WriteStage::Sync
        } else {
            WriteStage::RemoveStaging
        },
        WriteStage::Sync => if ok {
            WriteStage::Rename
        } else {
            WriteStage::RemoveStaging
        },
        WriteStage::Rename => if ok {
            WriteStage::Published
        } else {
            WriteStage::RemoveStaging
        },
        WriteStage::RemoveStaging => WriteStage::Failed,
        WriteStage::Published => WriteStage::Published,
        WriteStage::Failed => WriteStage::Failed,
    }
}

/// Whether a write has ended, with or without success.
pub fn is_finished(stage: WriteStage) -> (done: bool)
    ensures
        done == (stage == WriteStage::Published || stage == WriteStage::Failed),
{
    match stage {
        WriteStage::Published => true,
        WriteStage::Failed => true,
        _ => false,
    }
}

} // verus!
