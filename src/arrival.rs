use vstd::prelude::*;
use vstd::string::StrSliceExecFns;
use crate::matcher::{match_project, selects, IngestConfig, IngestProjectConfig};
use crate::text::{ends_with_str, lower_of, lowercase, raw_extension, raw_extension_of, str_equal};

verus! {

/// `s` ends with `suffix`.
pub open spec fn ends_with(s: Seq<char>, suffix: Seq<char>) -> bool {
    suffix.len() <= s.len() && s.subrange(s.len() - suffix.len(), s.len() as int) == suffix
}

/// A lowercase file name that is noise: empty, hidden, or a download or edit
/// still in progress.
pub open spec fn ignored_name(n: Seq<char>) -> bool {
    ||| n.len() == 0
    ||| n[0] == '.'
    ||| ends_with(n, ".crdownload"@)
    ||| ends_with(n, ".part"@)
    ||| ends_with(n, ".tmp"@)
    ||| ends_with(n, ".download"@)
    ||| ends_with(n, ".swp"@)
    ||| ends_with(n, ".partial"@)
}

/// Whether the lowercase file name `lowered` is noise.
pub fn is_ignored_lowered(lowered: &str) -> (r: bool)
    ensures
        r == ignored_name(lowered@),
{
    if lowered.unicode_len() == 0 || lowered.get_char(0) == '.' {
        return true;
    }
    ends_with_str(lowered, ".crdownload") || ends_with_str(lowered, ".part")
        || ends_with_str(lowered, ".tmp") || ends_with_str(lowered, ".download")
        || ends_with_str(lowered, ".swp") || ends_with_str(lowered, ".partial")
}

/// Whether a file name is noise once lowercased: such files are skipped
/// without any event.
pub fn should_ignore(file_name: &str) -> (r: bool)
    ensures
        r == ignored_name(lower_of(file_name@)),
{
    let lowered = lowercase(file_name);
    is_ignored_lowered(lowered.as_str())
}

/// The lowercase extension of a file name, or `None` when it has none.
pub fn routable_extension(file_name: &str) -> (r: Option<String>)
    ensures
        r is None <==> raw_extension(file_name@).len() == 0,
        r matches Some(e) ==> e@ == lower_of(raw_extension(file_name@)),
{
    let raw = raw_extension_of(file_name);
    let ext = lowercase(raw.as_str());
    if ext.as_str().unicode_len() == 0 {
        None
    } else {
        Some(ext)
    }
}

/// Whether a new arrival named `file_name` is processed at all: not when the
/// name is noise, empty or without extension, nor when it is a directory.
/// When it is, its lowercase extension.
pub fn admit_arrival(file_name: &str, is_dir: bool) -> (r: Option<String>)
    ensures
        r is None <==> (ignored_name(lower_of(file_name@)) || is_dir || file_name@.len() == 0
            || raw_extension(file_name@).len() == 0),
        r matches Some(e) ==> e@ == lower_of(raw_extension(file_name@)),
{
    if should_ignore(file_name) || is_dir || file_name.unicode_len() == 0 {
        return None;
    }
    routable_extension(file_name)
}

/// What to do with an admitted arrival once its size has been probed.
#[derive(Clone, Debug)]
pub enum Disposition {
    /// The file never stopped growing, or vanished: report an error.
    Unstable,
    /// No project claims the file: report an error.
    Unmatched,
    /// A zip archive: unpack it into this project.
    Archive(IngestProjectConfig),
    /// Move the file into this project.
    Route(IngestProjectConfig),
}

impl Disposition {
    /// The message of the error event that this disposition calls for, if any.
    pub fn error_message(&self) -> (r: Option<&'static str>)
        ensures
            match self {
                Disposition::Unstable => r matches Some(m) && m@ == "File is still being written."@,
                Disposition::Unmatched => r matches Some(m) && m@ == "No matching project found."@,
                _ => r is None,
            },
    {
        match self {
            Disposition::Unstable => Some("File is still being written."),
            Disposition::Unmatched => Some("No matching project found."),
            _ => None,
        }
    }
}

/// Decides what happens to an admitted file named `file_name` with lowercase
/// extension `extension`, given the size the probe settled on: unstable files
/// and files no project claims are reported; zip archives are unpacked into
/// the matched project, other files moved into it.
pub fn dispose(file_name: &str, extension: &str, stable_size: Option<u64>, config: &IngestConfig) -> (r: Disposition)
    ensures
        stable_size is None ==> r is Unstable,
        stable_size is Some ==> match r {
            Disposition::Unstable => false,
            Disposition::Unmatched => forall|i: int| !selects(file_name@, *config, i),
            Disposition::Archive(p) => extension@ == "zip"@ && exists|i: int|
                #[trigger] selects(file_name@, *config, i) && config.projects@[i] == p,
            Disposition::Route(p) => extension@ != "zip"@ && exists|i: int|
                #[trigger] selects(file_name@, *config, i) && config.projects@[i] == p,
        },
{
    if stable_size.is_none() {
        return Disposition::Unstable;
    }
    match match_project(file_name, config) {
        None => Disposition::Unmatched,
        Some(project) => {
            if str_equal(extension, "zip") {
                Disposition::Archive(project)
            } else {
                Disposition::Route(project)
            }
        },
    }
}

} // verus!
