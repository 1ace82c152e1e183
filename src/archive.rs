use vstd::prelude::*;

verus! {

/// Where the unpacking of one zip archive stands. Each unfinished stage names
/// the filesystem step to perform next; its outcome is reported back through
/// `advance`.
#[derive(Clone, Copy, Debug, PartialEq, Eq, Structural)]
pub enum ArchiveStage {
    /// Create the import directory for the archive.
    CreatingImportDir,
    /// Extract every entry into the import directory.
    Extracting,
    /// Remove the archive; whether that succeeds does not matter.
    RemovingArchive,
    /// Report the archive, then route each extracted file with an extension.
    RoutingMembers,
    /// A step failed: report the archive as an error and keep it.
    Failed,
}

/// The stage after the step of `s` was performed and succeeded (`ok`) or not.
pub open spec fn archive_next(s: ArchiveStage, ok: bool) -> ArchiveStage {
    match s {
        ArchiveStage::CreatingImportDir => if ok { ArchiveStage::Extracting } else { ArchiveStage::Failed },
        ArchiveStage::Extracting => if ok { ArchiveStage::RemovingArchive } else { ArchiveStage::Failed },
        ArchiveStage::RemovingArchive => ArchiveStage::RoutingMembers,
        ArchiveStage::RoutingMembers => ArchiveStage::RoutingMembers,
        ArchiveStage::Failed => ArchiveStage::Failed,
    }
}

impl ArchiveStage {
    /// The first stage of unpacking an archive.
    pub fn start() -> (r: Self)
        ensures
            r == ArchiveStage::CreatingImportDir,
    {
        ArchiveStage::CreatingImportDir
    }

    /// Whether no filesystem step remains before the outcome is reported.
    pub fn is_finished(&self) -> (r: bool)
        ensures
            r == (*self is RoutingMembers || *self is Failed),
    {
        matches!(self, ArchiveStage::RoutingMembers | ArchiveStage::Failed)
    }

    /// The stage that follows once the current step has succeeded or failed.
    pub fn advance(self, ok: bool) -> (r: Self)
        ensures
            r == archive_next(self, ok),
    {
        match self {
            ArchiveStage::CreatingImportDir => if ok { ArchiveStage::Extracting } else { ArchiveStage::Failed },
            ArchiveStage::Extracting => if ok { ArchiveStage::RemovingArchive } else { ArchiveStage::Failed },
            ArchiveStage::RemovingArchive => ArchiveStage::RoutingMembers,
            ArchiveStage::RoutingMembers => ArchiveStage::RoutingMembers,
            ArchiveStage::Failed => ArchiveStage::Failed,
        }
    }
}

/// The archive is removed, and its members routed, only after the whole
/// extraction succeeded.
pub proof fn lemma_archive_removed_only_after_extraction(s: ArchiveStage, ok: bool)
    requires
        archive_next(s, ok) is RemovingArchive,
    ensures
        s is Extracting && ok,
{
}

/// Once the import directory and the extraction succeed, the members are
/// routed, whatever becomes of the removal of the archive.
pub proof fn lemma_extracted_archive_routes_members(removed: bool)
    ensures
        archive_next(archive_next(archive_next(ArchiveStage::CreatingImportDir, true), true), removed) is RoutingMembers,
{
}

} // verus!
