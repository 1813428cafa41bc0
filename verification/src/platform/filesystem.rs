//! Cross-platform locations for saves and caches.

use directories::ProjectDirs;
use std::path::PathBuf;
use vstd::prelude::*;

verus! {

/// `directories::ProjectDirs`: the per-application directories of the
/// current user. Its contents are not modelled.
#[verifier::external_type_specification]
#[verifier::external_body]
pub struct ExProjectDirs(ProjectDirs);

/// `std::path::PathBuf`, an owned file system path, whose contents are not modelled.
#[verifier::external_type_specification]
#[verifier::external_body]
pub struct ExPathBuf(PathBuf);

/// `ProjectDirs::from(qualifier, organization, application)`, handing the
/// three names it was given back with its result. Whether it finds
/// directories depends on the environment (the user's home directory), so
/// nothing is promised of that.
#[verifier::external_body]
fn project_dirs_from(qualifier: String, organization: String, application: String) -> (r: (
    Option<ProjectDirs>,
    (String, String, String),
))
    ensures
        r.1.0@ == qualifier@,
        r.1.1@ == organization@,
        r.1.2@ == application@,
{
    let dirs = ProjectDirs::from(&qualifier, &organization, &application);
    (dirs, (qualifier, organization, application))
}

/// `ProjectDirs::data_dir`, as an owned path. Nothing is promised of the path.
#[verifier::external_body]
fn data_dir_of(dirs: &ProjectDirs) -> PathBuf {
    dirs.data_dir().to_path_buf()
}

/// `ProjectDirs::cache_dir`, as an owned path. Nothing is promised of the
/// path.
#[verifier::external_body]
fn cache_dir_of(dirs: &ProjectDirs) -> PathBuf {
    dirs.cache_dir().to_path_buf()
}

/// The pieces of `s` between occurrences of `sep`, as `str::split` yields
/// them: one more piece than there are separators, empty pieces included.
pub open spec fn split_on(s: Seq<char>, sep: char) -> Seq<Seq<char>>
    decreases s.len(),
{
    if s.len() == 0 {
        seq![Seq::<char>::empty()]
    } else {
        let parts = split_on(s.drop_last(), sep);
        if s.last() == sep {
            parts.push(Seq::<char>::empty())
        } else {
            parts.update(parts.len() - 1, parts.last().push(s.last()))
        }
    }
}

/// The `(qualifier, organization, application)` names used for an
/// application id: the first three dot-separated parts of an id such as
/// `com.organization.appname` when it has at least three, else two empty names
/// and the whole id.
pub open spec fn project_names(app_id: Seq<char>) -> (Seq<char>, Seq<char>, Seq<char>) {
    let parts = split_on(app_id, '.');
    if parts.len() >= 3 {
        (parts[0], parts[1], parts[2])
    } else {
        (Seq::empty(), Seq::empty(), app_id)
    }
}

/// The parts of `s` between dots, in order.
fn split_dots(s: &str) -> (r: Vec<String>)
    ensures
        r@.len() == split_on(s@, '.').len(),
        forall|i: int| 0 <= i < r@.len() ==> (#[trigger] r@[i])@ == split_on(s@, '.')[i],
{
    let n = s.unicode_len();
    let mut parts: Vec<String> = Vec::new();
    let mut start: usize = 0;
    let mut i: usize = 0;
    assert(s@.take(0) =~= Seq::<char>::empty());
    while i < n
        invariant
            n == s@.len(),
            start <= i <= n,
            split_on(s@.take(i as int), '.') =~= parts@.map_values(|p: String| p@).push(
                s@.subrange(start as int, i as int),
            ),
        decreases n - i,
    {
        let c = s.get_char(i);
        proof {
            assert(s@.take(i + 1).drop_last() =~= s@.take(i as int));
            assert(s@.take(i + 1).last() == c);
        }
        if c == '.' {
            let piece = s.substring_char(start, i).to_owned();
            let ghost before = parts@.map_values(|p: String| p@);
            parts.push(piece);
            start = i + 1;
            proof {
                assert(parts@.map_values(|p: String| p@) =~= before.push(piece@));
                assert(s@.subrange(start as int, (i + 1) as int) =~= Seq::<char>::empty());
            }
        } else {
            proof {
                assert(s@.subrange(start as int, (i + 1) as int) =~= s@.subrange(
                    start as int,
                    i as int,
                ).push(c));
            }
        }
        i = i + 1;
    }
    let last = s.substring_char(start, n).to_owned();
    let ghost before = parts@.map_values(|p: String| p@);
    parts.push(last);
    proof {
        assert(s@.take(n as int) =~= s@);
        assert(parts@.map_values(|p: String| p@) =~= before.push(last@));
        assert forall|i: int| 0 <= i < parts@.len() implies (#[trigger] parts@[i])@ == split_on(
            s@,
            '.',
        )[i] by {
            assert(parts@.map_values(|p: String| p@)[i] == parts@[i]@);
        }
    }
    parts
}

/// The `(qualifier, organization, application)` names for an application
/// id such as `com.organization.appname`.
pub fn project_dir_names(app_id: &str) -> (r: (String, String, String))
    ensures
        (r.0@, r.1@, r.2@) == project_names(app_id@),
{
    let parts = split_dots(app_id);
    if parts.len() >= 3 {
        (parts[0].clone(), parts[1].clone(), parts[2].clone())
    } else {
        (String::new(), String::new(), app_id.to_owned())
    }
}

/// The names asked for when an application id's own names resolve to no
/// directory: no qualifier or organization, application `VeltrixApp`.
pub open spec fn fallback_names() -> (Seq<char>, Seq<char>, Seq<char>) {
    (Seq::empty(), Seq::empty(), "VeltrixApp"@)
}

/// Consistent per-application paths for saved data across platforms.
pub struct FileSystem {
    app_id: String,
    dirs: Option<ProjectDirs>,
    /// The names the directories were resolved for, when they were.
    resolved_for: Ghost<Option<(Seq<char>, Seq<char>, Seq<char>)>>,
    /// The names handed to the first lookup, as the lookup gave them back.
    first_lookup: Ghost<(Seq<char>, Seq<char>, Seq<char>)>,
    /// Whether the first lookup found directories.
    first_found: Ghost<bool>,
}

impl FileSystem {
    /// The application id this resolver was made for.
    pub closed spec fn app_id(&self) -> Seq<char> {
        self.app_id@
    }

    /// Whether the platform's directories could be resolved.
    pub closed spec fn resolved(&self) -> bool {
        self.dirs is Some
    }

    /// The `(qualifier, organization, application)` names the platform
    /// directories were resolved for; `None` when they were not resolved.
    pub closed spec fn resolved_for(&self) -> Option<(Seq<char>, Seq<char>, Seq<char>)> {
        self.resolved_for@
    }

    /// The `(qualifier, organization, application)` names the first lookup
    /// was made for.
    pub closed spec fn first_lookup(&self) -> (Seq<char>, Seq<char>, Seq<char>) {
        self.first_lookup@
    }

    /// Whether the first lookup found the platform directories.
    pub closed spec fn first_found(&self) -> bool {
        self.first_found@
    }

    /// Create a resolver for the given application id, typically formatted
    /// as `com.organization.appname`.
    ///
    /// The directories are looked up for [`project_names`] of the id; when
    /// the platform gives none for them, for [`fallback_names`]. Whether a
    /// lookup succeeds depends on the environment (the user's home
    /// directory).
    pub fn new(app_id: &str) -> (r: Self)
        ensures
            r.app_id() == app_id@,
            r.first_lookup() == project_names(app_id@),
            r.resolved() <==> r.resolved_for() is Some,
            r.first_found() ==> r.resolved_for() == Some(r.first_lookup()),
            !r.first_found() ==> r.resolved_for() is None || r.resolved_for() == Some(fallback_names()),
    {
        let (qualifier, organization, application) = project_dir_names(app_id);
        let (first, asked) = project_dirs_from(qualifier, organization, application);
        let ghost names = (asked.0@, asked.1@, asked.2@);
        match first {
            Some(d) => FileSystem {
                app_id: app_id.to_owned(),
                dirs: Some(d),
                resolved_for: Ghost(Some(names)),
                first_lookup: Ghost(names),
                first_found: Ghost(true),
            },
            None => {
                let (second, asked_again) = project_dirs_from(
                    String::new(),
                    String::new(),
                    "VeltrixApp".to_owned(),
                );
                let ghost fallback = (asked_again.0@, asked_again.1@, asked_again.2@);
                assert(fallback == fallback_names());
                match second {
                    Some(d) => {
                        FileSystem {
                            app_id: app_id.to_owned(),
                            dirs: Some(d),
                            resolved_for: Ghost(Some(fallback)),
                            first_lookup: Ghost(names),
                            first_found: Ghost(false),
                        }
                    },
                    None => FileSystem {
                        app_id: app_id.to_owned(),
                        dirs: None,
                        resolved_for: Ghost(None),
                        first_lookup: Ghost(names),
                        first_found: Ghost(false),
                    },
                }
            },
        }
    }

    /// The directory for user saves and persistent configuration; `None`
    /// when the platform directories could not be resolved.
    pub fn user_data_dir(&self) -> (r: Option<PathBuf>)
        ensures
            r is Some <==> self.resolved(),
    {
        match &self.dirs {
            Some(d) => Some(data_dir_of(d)),
            None => None,
        }
    }

    /// The directory for temporary cache files; `None` when the platform
    /// directories could not be resolved.
    pub fn cache_dir(&self) -> (r: Option<PathBuf>)
        ensures
            r is Some <==> self.resolved(),
    {
        match &self.dirs {
            Some(d) => Some(cache_dir_of(d)),
            None => None,
        }
    }
}

} // verus!
