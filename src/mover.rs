use vstd::prelude::*;

verus! {

/// Where a move of one file into its destination stands. Each unfinished
/// stage names the filesystem step to perform next; its outcome is reported
/// back through `advance`.
#[derive(Clone, Copy, Debug, PartialEq, Eq, Structural)]
pub enum MoveStage {
    /// Create the destination's parent directories.
    CreatingParent,
    /// Try to rename the source onto the destination.
    Renaming,
    /// The rename failed (another device, say): copy the source over.
    Copying,
    /// The copy is complete: remove the source.
    RemovingSource,
    /// The file is at its destination and gone from its source.
    Moved,
    /// A step failed; the source is kept.
    Failed,
}

/// The stage after the step of `s` was performed and succeeded (`ok`) or not.
pub open spec fn move_next(s: MoveStage, ok: bool) -> MoveStage {
    match s {
        MoveStage::CreatingParent => if ok { MoveStage::Renaming } else { MoveStage::Failed },
        MoveStage::Renaming => if ok { MoveStage::Moved } else { MoveStage::Copying },
        MoveStage::Copying => if ok { MoveStage::RemovingSource } else { MoveStage::Failed },
        MoveStage::RemovingSource => if ok { MoveStage::Moved } else { MoveStage::Failed },
        MoveStage::Moved => MoveStage::Moved,
        MoveStage::Failed => MoveStage::Failed,
    }
}

/// The stage reached from `s` when the steps succeed or fail as `outcomes` says.
pub open spec fn move_run(s: MoveStage, outcomes: Seq<bool>) -> MoveStage
    decreases outcomes.len(),
{
    if outcomes.len() == 0 {
        s
    } else {
        move_run(move_next(s, outcomes[0]), outcomes.drop_first())
    }
}

impl MoveStage {
    /// The first stage of a move.
    pub fn start() -> (r: Self)
        ensures
            r == MoveStage::CreatingParent,
    {
        MoveStage::CreatingParent
    }

    /// Whether the move is over, one way or the other.
    pub fn is_finished(&self) -> (r: bool)
        ensures
            r == (*self is Moved || *self is Failed),
    {
        matches!(self, MoveStage::Moved | MoveStage::Failed)
    }

    /// The stage that follows once the current step has succeeded or failed.
    pub fn advance(self, ok: bool) -> (r: Self)
        ensures
            r == move_next(self, ok),
    {
        match self {
            MoveStage::CreatingParent => if ok { MoveStage::Renaming } else { MoveStage::Failed },
            MoveStage::Renaming => if ok { MoveStage::Moved } else { MoveStage::Copying },
            MoveStage::Copying => if ok { MoveStage::RemovingSource } else { MoveStage::Failed },
            MoveStage::RemovingSource => if ok { MoveStage::Moved } else { MoveStage::Failed },
            MoveStage::Moved => MoveStage::Moved,
            MoveStage::Failed => MoveStage::Failed,
        }
    }
}

/// The source is removed only after a copy of it has succeeded.
pub proof fn lemma_remove_only_after_copy(s: MoveStage, ok: bool)
    requires
        move_next(s, ok) is RemovingSource,
    ensures
        s is Copying || s is RemovingSource,
        s is Copying ==> ok,
{
}

/// When the rename fails, as across devices, but the directories, the copy
/// and the removal of the source succeed, the file ends up moved.
pub proof fn lemma_copy_fallback_moves()
    ensures
        move_run(MoveStage::CreatingParent, seq![true, false, true, true]) is Moved,
{
    let o = seq![true, false, true, true];
    assert(o.drop_first() =~= seq![false, true, true]);
    assert(o.drop_first().drop_first() =~= seq![true, true]);
    assert(o.drop_first().drop_first().drop_first() =~= seq![true]);
    assert(o.drop_first().drop_first().drop_first().drop_first() =~= Seq::<bool>::empty());
    assert(move_run(MoveStage::Moved, Seq::<bool>::empty()) is Moved);
    assert(move_run(MoveStage::RemovingSource, seq![true]) is Moved);
    assert(move_run(MoveStage::Copying, seq![true, true]) is Moved);
    assert(move_run(MoveStage::Renaming, seq![false, true, true]) is Moved);
}

/// A move whose rename succeeds is over after two steps, with no copy.
pub proof fn lemma_rename_moves()
    ensures
        move_run(MoveStage::CreatingParent, seq![true, true]) is Moved,
{
    let o = seq![true, true];
    assert(o.drop_first() =~= seq![true]);
    assert(o.drop_first().drop_first() =~= Seq::<bool>::empty());
    assert(move_run(MoveStage::Moved, Seq::<bool>::empty()) is Moved);
    assert(move_run(MoveStage::Renaming, seq![true]) is Moved);
}

} // verus!
