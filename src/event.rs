use vstd::prelude::*;

verus! {

/// The outcome of processing one file or one archive.
#[derive(Clone, Debug)]
pub struct IngestEvent {
    pub file_name: String,
    pub source_path: String,
    pub dest_path: String,
    pub file_type: String,
    pub status: String,
    pub size_bytes: u64,
    pub message: Option<String>,
}

/// The view of an optional message.
pub open spec fn message_view(m: Option<String>) -> Option<Seq<char>> {
    match m {
        Some(s) => Some(s@),
        None => None,
    }
}

impl IngestEvent {
    /// The event for a file that reached `dest_path` and has `size_bytes` there.
    pub fn success(file_name: &str, source_path: &str, dest_path: &str, file_type: &str, size_bytes: u64) -> (r: Self)
        ensures
            r.file_name@ == file_name@,
            r.source_path@ == source_path@,
            r.dest_path@ == dest_path@,
            r.file_type@ == file_type@,
            r.status@ == "success"@,
            r.size_bytes == size_bytes,
            r.message is None,
    {
        IngestEvent {
            file_name: file_name.to_owned(),
            source_path: source_path.to_owned(),
            dest_path: dest_path.to_owned(),
            file_type: file_type.to_owned(),
            status: "success".to_owned(),
            size_bytes,
            message: None,
        }
    }

    /// The event for a file that could not be processed, with the reason.
    pub fn error(file_name: &str, source_path: &str, file_type: &str, size_bytes: u64, message: &str) -> (r: Self)
        ensures
            r.file_name@ == file_name@,
            r.source_path@ == source_path@,
            r.dest_path@ == Seq::<char>::empty(),
            r.file_type@ == file_type@,
            r.status@ == "error"@,
            r.size_bytes == size_bytes,
            message_view(r.message) == Some(message@),
    {
        IngestEvent {
            file_name: file_name.to_owned(),
            source_path: source_path.to_owned(),
            dest_path: String::new(),
            file_type: file_type.to_owned(),
            status: "error".to_owned(),
            size_bytes,
            message: Some(message.to_owned()),
        }
    }

    /// The event for a failure of the watch itself.
    pub fn watcher_error(message: &str) -> (r: Self)
        ensures
            r.file_name@ == "watcher"@,
            r.source_path@ == Seq::<char>::empty(),
            r.dest_path@ == Seq::<char>::empty(),
            r.file_type@ == "watcher"@,
            r.status@ == "error"@,
            r.size_bytes == 0,
            message_view(r.message) == Some(message@),
    {
        proof {
            reveal_strlit("");
        }
        IngestEvent::error("watcher", "", "watcher", 0, message)
    }
}

} // verus!
