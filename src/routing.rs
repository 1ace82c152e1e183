use vstd::prelude::*;
use vstd::string::{StrSliceExecFns, StringExecFns};
use crate::text::{last_dot_before, push_char, str_equal};

verus! {

/// The subfolder of a project that files with lowercase extension `ext` go to.
pub open spec fn subfolder_for(ext: Seq<char>) -> Seq<char> {
    if ext == "wav"@ || ext == "aif"@ || ext == "aiff"@ {
        "Audio Files"@
    } else if ext == "ptx"@ || ext == "ptf"@ {
        "Sessions"@
    } else if ext == "mp3"@ || ext == "m4a"@ {
        "References"@
    } else {
        "Imports"@
    }
}

/// `base` followed by the relative name `part`, with one '/' between them:
/// as `Path::join` puts a relative part after a directory.
pub open spec fn joined(base: Seq<char>, part: Seq<char>) -> Seq<char> {
    if base.len() == 0 {
        part
    } else if base.last() == '/' {
        base + part
    } else {
        base + seq!['/'] + part
    }
}

/// Where a file named `name` with lowercase extension `ext` lands in the
/// project folder `folder`.
pub open spec fn destination(folder: Seq<char>, ext: Seq<char>, name: Seq<char>) -> Seq<char> {
    joined(joined(folder, subfolder_for(ext)), name)
}

/// The directory that an archive with stem `stem` is unpacked into, in the
/// project folder `folder`.
pub open spec fn import_dir(folder: Seq<char>, stem: Seq<char>) -> Seq<char> {
    joined(joined(folder, "Imports"@), stem)
}

/// The stem of a file name as `Path::file_stem` reads it: the text before the
/// last '.', unless there is no '.', the only '.' opens the name, or the name
/// is "..".
pub open spec fn stem_of(name: Seq<char>) -> Seq<char> {
    if name == seq!['.', '.'] {
        name
    } else {
        match last_dot_before(name, name.len() as int) {
            Some(d) => if d == 0 { name } else { name.subrange(0, d) },
            None => name,
        }
    }
}

/// The subfolder of a project that files with the lowercase extension
/// `extension` are routed to.
pub fn route_subfolder(extension: &str) -> (r: &'static str)
    ensures
        r@ == subfolder_for(extension@),
{
    if str_equal(extension, "wav") || str_equal(extension, "aif") || str_equal(extension, "aiff") {
        "Audio Files"
    } else if str_equal(extension, "ptx") || str_equal(extension, "ptf") {
        "Sessions"
    } else if str_equal(extension, "mp3") || str_equal(extension, "m4a") {
        "References"
    } else {
        "Imports"
    }
}

/// The path `base` with the relative name `part` added under it.
pub fn join_path(base: &str, part: &str) -> (r: String)
    ensures
        r@ == joined(base@, part@),
{
    let n = base.unicode_len();
    if n == 0 {
        return part.to_owned();
    }
    let mut out = base.to_owned();
    if base.get_char(n - 1) != '/' {
        push_char(&mut out, '/');
    }
    out.append(part);
    out
}

/// Where a file named `file_name` with lowercase extension `extension` is
/// moved to inside the project folder `folder`.
pub fn destination_for(folder: &str, extension: &str, file_name: &str) -> (r: String)
    ensures
        r@ == destination(folder@, extension@, file_name@),
{
    let sub = join_path(folder, route_subfolder(extension));
    join_path(sub.as_str(), file_name)
}

/// The directory that the archive with stem `stem` is unpacked into inside
/// the project folder `folder`.
pub fn import_dir_for(folder: &str, stem: &str) -> (r: String)
    ensures
        r@ == import_dir(folder@, stem@),
{
    let imports = join_path(folder, "Imports");
    join_path(imports.as_str(), stem)
}

/// The stem of a file name: what precedes its extension.
pub fn file_stem_of(name: &str) -> (r: String)
    ensures
        r@ == stem_of(name@),
{
    let n = name.unicode_len();
    if n == 2 && name.get_char(0) == '.' && name.get_char(1) == '.' {
        assert(name@ =~= seq!['.', '.']);
        return name.to_owned();
    }
    let mut end: usize = n;
    while end > 0 && name.get_char(end - 1) != '.'
        invariant
            n == name@.len(),
            end <= n,
            last_dot_before(name@, n as int) == last_dot_before(name@, end as int),
        decreases end,
    {
        end = end - 1;
    }
    if end <= 1 {
        return name.to_owned();
    }
    name.substring_char(0, end - 1).to_owned()
}

/// `input` with a leading home shorthand ("~" alone, or "~/" at the start)
/// replaced by `home`; unchanged when there is none or `home` is empty.
pub open spec fn tilde_expanded(input: Seq<char>, home: Seq<char>) -> Seq<char> {
    if home.len() > 0 && input.len() > 0 && input[0] == '~' && (input.len() == 1 || input[1] == '/') {
        home + input.subrange(1, input.len() as int)
    } else {
        input
    }
}

/// Replaces a leading home shorthand in `input` by the home directory `home`.
pub fn expand_tilde(input: &str, home: &str) -> (r: String)
    ensures
        r@ == tilde_expanded(input@, home@),
{
    let n = input.unicode_len();
    if home.unicode_len() > 0 && n > 0 && input.get_char(0) == '~' && (n == 1 || input.get_char(1) == '/') {
        let mut out = home.to_owned();
        out.append(input.substring_char(1, n));
        out
    } else {
        input.to_owned()
    }
}

/// A file routed into a non-empty project folder lands at
/// `.../<subfolder>/<file name>`.
pub proof fn lemma_destination_tail(folder: Seq<char>, ext: Seq<char>, name: Seq<char>)
    requires
        folder.len() > 0,
    ensures
        ({
            let d = destination(folder, ext, name);
            let tail = seq!['/'] + subfolder_for(ext) + seq!['/'] + name;
            d.len() >= tail.len() && d.subrange(d.len() - tail.len(), d.len() as int) == tail
        }),
{
    reveal_strlit("Audio Files");
    reveal_strlit("Sessions");
    reveal_strlit("References");
    reveal_strlit("Imports");
    let sub = subfolder_for(ext);
    let j1 = joined(folder, sub);
    let base = if folder.last() == '/' { folder.drop_last() } else { folder };
    assert(j1 =~= base + seq!['/'] + sub);
    assert(sub.len() > 0 && sub.last() != '/');
    assert(j1.last() == sub.last());
    let d = destination(folder, ext, name);
    let tail = seq!['/'] + sub + seq!['/'] + name;
    assert(d =~= base + tail);
    assert(d.subrange(d.len() - tail.len(), d.len() as int) =~= tail);
}

} // verus!
