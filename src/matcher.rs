use vstd::prelude::*;
use crate::routing::{expand_tilde, tilde_expanded};
use crate::text::{contains_chars, has_substring, normalized, normalized_chars, str_equal};

verus! {

/// A known project: where files that belong to it are routed.
#[derive(Clone, Debug)]
pub struct IngestProjectConfig {
    pub id: String,
    pub artist_name: String,
    pub project_name: String,
    pub folder_path: String,
    pub updated_at: String,
}

/// One watch session's settings: the inbox, the artist folders root, the
/// active project if any, and the known projects in order of preference.
#[derive(Clone, Debug)]
pub struct IngestConfig {
    pub downloads_path: String,
    pub artist_folders_path: String,
    pub active_project_id: Option<String>,
    pub projects: Vec<IngestProjectConfig>,
}

impl IngestProjectConfig {
    /// A field-by-field copy.
    pub fn duplicate(&self) -> (r: Self)
        ensures
            r == *self,
    {
        IngestProjectConfig {
            id: self.id.clone(),
            artist_name: self.artist_name.clone(),
            project_name: self.project_name.clone(),
            folder_path: self.folder_path.clone(),
            updated_at: self.updated_at.clone(),
        }
    }
}

impl IngestConfig {
    /// The same settings with the home shorthand expanded against `home` in
    /// the inbox path, the artist folders path and every project's folder.
    pub fn with_expanded_paths(&self, home: &str) -> (r: IngestConfig)
        ensures
            r.downloads_path@ == tilde_expanded(self.downloads_path@, home@),
            r.artist_folders_path@ == tilde_expanded(self.artist_folders_path@, home@),
            r.active_project_id == self.active_project_id,
            r.projects@.len() == self.projects@.len(),
            forall|i: int| 0 <= i < r.projects@.len() ==> {
                let (a, b) = (#[trigger] r.projects@[i], self.projects@[i]);
                &&& a.folder_path@ == tilde_expanded(b.folder_path@, home@)
                &&& a.id == b.id && a.artist_name == b.artist_name
                &&& a.project_name == b.project_name && a.updated_at == b.updated_at
            },
    {
        let mut projects: Vec<IngestProjectConfig> = Vec::new();
        let mut i: usize = 0;
        while i < self.projects.len()
            invariant
                i <= self.projects@.len(),
                projects@.len() == i,
                forall|k: int| 0 <= k < i ==> {
                    let (a, b) = (#[trigger] projects@[k], self.projects@[k]);
                    &&& a.folder_path@ == tilde_expanded(b.folder_path@, home@)
                    &&& a.id == b.id && a.artist_name == b.artist_name
                    &&& a.project_name == b.project_name && a.updated_at == b.updated_at
                },
            decreases self.projects@.len() - i,
        {
            let p = &self.projects[i];
            projects.push(IngestProjectConfig {
                id: p.id.clone(),
                artist_name: p.artist_name.clone(),
                project_name: p.project_name.clone(),
                folder_path: expand_tilde(p.folder_path.as_str(), home),
                updated_at: p.updated_at.clone(),
            });
            i = i + 1;
        }
        let active_project_id = match &self.active_project_id {
            Some(id) => Some(id.clone()),
            None => None,
        };
        IngestConfig {
            downloads_path: expand_tilde(self.downloads_path.as_str(), home),
            artist_folders_path: expand_tilde(self.artist_folders_path.as_str(), home),
            active_project_id,
            projects,
        }
    }
}

/// The project's normalized name is non-empty and occurs in the normalized file name `f`.
pub open spec fn name_hit(f: Seq<char>, p: IngestProjectConfig) -> bool {
    normalized(p.project_name@).len() > 0 && has_substring(normalized(f), normalized(p.project_name@))
}

/// The project's normalized artist is non-empty and occurs in the normalized file name `f`.
pub open spec fn artist_hit(f: Seq<char>, p: IngestProjectConfig) -> bool {
    normalized(p.artist_name@).len() > 0 && has_substring(normalized(f), normalized(p.artist_name@))
}

/// Some project's name occurs in the file name.
pub open spec fn any_name_hit(f: Seq<char>, ps: Seq<IngestProjectConfig>) -> bool {
    exists|j: int| 0 <= j < ps.len() && name_hit(f, #[trigger] ps[j])
}

/// Some project's artist occurs in the file name.
pub open spec fn any_artist_hit(f: Seq<char>, ps: Seq<IngestProjectConfig>) -> bool {
    exists|j: int| 0 <= j < ps.len() && artist_hit(f, #[trigger] ps[j])
}

/// Project `i` carries the identifier `id`, and no earlier project does.
pub open spec fn first_with_id(ps: Seq<IngestProjectConfig>, id: Seq<char>, i: int) -> bool {
    0 <= i < ps.len() && ps[i].id@ == id && forall|j: int| 0 <= j < i ==> (#[trigger] ps[j]).id@ != id
}

/// Project `i` is the one that file name `f` is routed to: the first project
/// whose name occurs in it; failing that, the first whose artist occurs in it;
/// failing that, the first that carries the active project's identifier.
pub open spec fn selects(f: Seq<char>, c: IngestConfig, i: int) -> bool {
    let ps = c.projects@;
    0 <= i < ps.len() && {
        ||| (name_hit(f, ps[i]) && forall|j: int| 0 <= j < i ==> !name_hit(f, #[trigger] ps[j]))
        ||| (!any_name_hit(f, ps) && artist_hit(f, ps[i]) && forall|j: int|
            0 <= j < i ==> !artist_hit(f, #[trigger] ps[j]))
        ||| (!any_name_hit(f, ps) && !any_artist_hit(f, ps) && match c.active_project_id {
            Some(id) => first_with_id(ps, id@, i),
            None => false,
        })
    }
}

/// Picks the project that a file belongs to, by name, then by artist, then
/// the active project; `None` when none applies.
pub fn match_project(file_name: &str, config: &IngestConfig) -> (r: Option<IngestProjectConfig>)
    ensures
        match r {
            Some(p) => exists|i: int| #[trigger] selects(file_name@, *config, i) && config.projects@[i] == p,
            None => forall|i: int| !selects(file_name@, *config, i),
        },
{
    let ghost f = file_name@;
    let ghost ps = config.projects@;
    let normalized_file = normalized_chars(file_name);
    let mut artist_match: Option<usize> = None;
    let mut k: usize = 0;
    while k < config.projects.len()
        invariant
            ps == config.projects@,
            f == file_name@,
            normalized_file@ == normalized(f),
            k <= ps.len(),
            forall|j: int| 0 <= j < k ==> !name_hit(f, #[trigger] ps[j]),
            match artist_match {
                Some(a) => a < k && artist_hit(f, ps[a as int]) && forall|j: int|
                    0 <= j < a ==> !artist_hit(f, #[trigger] ps[j]),
                None => forall|j: int| 0 <= j < k ==> !artist_hit(f, #[trigger] ps[j]),
            },
        decreases ps.len() - k,
    {
        let project = &config.projects[k];
        let project_norm = normalized_chars(project.project_name.as_str());
        if project_norm.len() > 0 && contains_chars(&normalized_file, &project_norm) {
            let chosen = project.duplicate();
            assert(selects(f, *config, k as int) && ps[k as int] == chosen);
            return Some(chosen);
        }
        if artist_match.is_none() {
            let artist_norm = normalized_chars(project.artist_name.as_str());
            if artist_norm.len() > 0 && contains_chars(&normalized_file, &artist_norm) {
                artist_match = Some(k);
            }
        }
        k = k + 1;
    }
    assert(!any_name_hit(f, ps));
    if let Some(a) = artist_match {
        assert(selects(f, *config, a as int));
        return Some(config.projects[a].duplicate());
    }
    assert(!any_artist_hit(f, ps));
    match &config.active_project_id {
        Some(active_id) => {
            let mut m: usize = 0;
            while m < config.projects.len()
                invariant
                    ps == config.projects@,
                    f == file_name@,
                    config.active_project_id == Some(*active_id),
                    !any_name_hit(f, ps),
                    !any_artist_hit(f, ps),
                    m <= ps.len(),
                    forall|j: int| 0 <= j < m ==> (#[trigger] ps[j]).id@ != active_id@,
                decreases ps.len() - m,
            {
                if str_equal(config.projects[m].id.as_str(), active_id.as_str()) {
                    let chosen = config.projects[m].duplicate();
                    assert(selects(f, *config, m as int) && ps[m as int] == chosen);
                    return Some(chosen);
                }
                m = m + 1;
            }
            assert forall|i: int| !selects(f, *config, i) by {
                if 0 <= i < ps.len() {
                    assert(!first_with_id(ps, active_id@, i));
                }
            }
            None
        },
        None => None,
    }
}

/// A file name in which a project's non-empty normalized name occurs is
/// routed to that project, whatever any artist name says, provided no
/// earlier project's name occurs in it too.
pub proof fn lemma_name_match_wins(f: Seq<char>, c: IngestConfig, i: int)
    requires
        0 <= i < c.projects@.len(),
        name_hit(f, c.projects@[i]),
        forall|j: int| 0 <= j < i ==> !name_hit(f, #[trigger] c.projects@[j]),
    ensures
        selects(f, c, i),
        forall|k: int| #[trigger] selects(f, c, k) ==> k == i,
{
    let ps = c.projects@;
    assert(any_name_hit(f, ps));
    assert forall|k: int| #[trigger] selects(f, c, k) implies k == i by {
        if k < i {
            assert(!name_hit(f, ps[k]));
        } else if k > i {
            assert(!(forall|j: int| 0 <= j < k ==> !name_hit(f, #[trigger] ps[j])));
        }
    }
}

/// When no project's name or artist occurs in a file name, the file goes to
/// the first project carrying the active project's identifier; with no
/// active project it goes nowhere.
pub proof fn lemma_active_project_fallback(f: Seq<char>, c: IngestConfig)
    requires
        !any_name_hit(f, c.projects@),
        !any_artist_hit(f, c.projects@),
    ensures
        c.active_project_id is None ==> forall|k: int| !selects(f, c, k),
        c.active_project_id matches Some(id) ==> forall|i: int| first_with_id(c.projects@, id@, i) ==> {
            &&& selects(f, c, i)
            &&& forall|k: int| #[trigger] selects(f, c, k) ==> k == i
        },
{
    let ps = c.projects@;
    if let Some(id) = c.active_project_id {
        assert forall|i: int| first_with_id(ps, id@, i) implies selects(f, c, i) && forall|k: int| #[trigger] selects(f, c, k) ==> k == i by {
            assert forall|k: int| #[trigger] selects(f, c, k) implies k == i by {
                assert(first_with_id(ps, id@, k));
                if k < i {
                    assert(ps[k].id@ != id@);
                } else if k > i {
                    assert(ps[i].id@ != id@);
                }
            }
        }
    }
}

} // verus!
