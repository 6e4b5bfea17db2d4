//! The recent-projects list of the launcher.
use crate::language::{localized, pick, UiLanguage};
use crate::text::{is_blank, is_blank_str};
use vstd::prelude::*;

verus! {

/// A project on the recent list. The frame rate is carried as the bit
/// pattern of its `f64` value (`f64::to_bits`); the list only moves it.
#[derive(Debug, Clone, PartialEq, Eq)]
pub struct RecentProject {
    pub name: String,
    pub path: String,
    pub width: i32,
    pub height: i32,
    pub fps_bits: u64,
}

/// The content of a recent-project entry.
pub struct RecentModel {
    pub name: Seq<char>,
    pub path: Seq<char>,
    pub width: i32,
    pub height: i32,
    pub fps_bits: u64,
}

impl RecentProject {
    /// The entry's content.
    pub open spec fn model(&self) -> RecentModel {
        RecentModel {
            name: self.name@,
            path: self.path@,
            width: self.width,
            height: self.height,
            fps_bits: self.fps_bits,
        }
    }
}

/// The contents of a list of entries.
pub open spec fn recent_models(v: Seq<RecentProject>) -> Seq<RecentModel> {
    v.map_values(|p: RecentProject| p.model())
}

/// The entries whose path differs from `path`, in order.
pub open spec fn other_paths(entries: Seq<RecentModel>, path: Seq<char>) -> Seq<RecentModel>
    decreases entries.len(),
{
    if entries.len() == 0 {
        seq![]
    } else {
        let rest = other_paths(entries.drop_last(), path);
        if entries.last().path == path {
            rest
        } else {
            rest.push(entries.last())
        }
    }
}

/// The list after opening `project`: the project first, then the other
/// entries in their order without any other entry for the same path, cut to
/// `maximum` entries.
pub open spec fn merged_recent(
    recent: Seq<RecentModel>,
    project: RecentModel,
    maximum: nat,
) -> Seq<RecentModel> {
    let all = seq![project] + other_paths(recent, project.path);
    if all.len() <= maximum {
        all
    } else {
        all.take(maximum as int)
    }
}

fn clone_project(p: &RecentProject) -> (r: RecentProject)
    ensures
        r.model() == p.model(),
{
    RecentProject {
        name: p.name.clone(),
        path: p.path.clone(),
        width: p.width,
        height: p.height,
        fps_bits: p.fps_bits,
    }
}

/// Puts `project` at the front of the recent list, dropping older entries
/// for the same path and keeping at most `maximum` entries.
pub fn merge_recent_project(recent: Vec<RecentProject>, project: RecentProject, maximum: usize) -> (r: Vec<
    RecentProject,
>)
    ensures
        recent_models(r@) == merged_recent(recent_models(recent@), project.model(), maximum as nat),
{
    let ghost entries = recent_models(recent@);
    let mut kept: Vec<RecentProject> = Vec::new();
    let mut i: usize = 0;
    while i < recent.len()
        invariant
            i <= recent@.len(),
            entries == recent_models(recent@),
            recent_models(kept@) == other_paths(entries.take(i as int), project.path@),
        decreases recent@.len() - i,
    {
        proof {
            assert(entries.take(i + 1).drop_last() =~= entries.take(i as int));
            assert(entries.take(i + 1).last() == recent@[i as int].model());
        }
        if recent[i].path != project.path {
            kept.push(clone_project(&recent[i]));
            proof {
                assert(recent_models(kept@) =~= other_paths(
                    entries.take(i + 1),
                    project.path@,
                ));
            }
        }
        i = i + 1;
    }
    assert(entries.take(recent@.len() as int) =~= entries);
    let ghost others = other_paths(entries, project.path@);
    let ghost all = seq![project.model()] + others;
    let mut out: Vec<RecentProject> = Vec::new();
    if maximum > 0 {
        out.push(project);
    }
    let mut j: usize = 0;
    while j < kept.len() && out.len() < maximum
        invariant
            j <= kept@.len(),
            recent_models(kept@) == others,
            all == seq![project.model()] + others,
            maximum > 0 ==> out@.len() == j + 1,
            maximum == 0 ==> out@.len() == 0 && j == 0,
            out@.len() <= maximum,
            kept@.len() == others.len(),
            recent_models(out@) == all.take(out@.len() as int),
        decreases kept@.len() - j,
    {
        proof {
            assert(all[j + 1] == kept@[j as int].model());
        }
        out.push(clone_project(&kept[j]));
        j = j + 1;
        proof {
            assert(recent_models(out@) =~= all.take(out@.len() as int));
        }
    }
    proof {
        if all.len() <= maximum {
            assert(out@.len() == all.len());
            assert(all.take(all.len() as int) =~= all);
        } else {
            assert(out@.len() == maximum);
        }
    }
    out
}

/// After opening a project, it heads the list, its path occurs exactly
/// once, the list holds at most `maximum` entries, and the other entries keep
/// their relative order.
pub proof fn merged_recent_heads_with_unique_path(
    recent: Seq<RecentModel>,
    project: RecentModel,
    maximum: nat,
)
    requires
        maximum > 0,
    ensures
        merged_recent(recent, project, maximum)[0] == project,
        merged_recent(recent, project, maximum).len() <= maximum,
        forall|k: int|
            1 <= k < merged_recent(recent, project, maximum).len() ==> (#[trigger] merged_recent(
                recent,
                project,
                maximum,
            )[k]).path != project.path,
{
    lemma_other_paths_exclude(recent, project.path);
    let all = seq![project] + other_paths(recent, project.path);
    assert forall|k: int| 1 <= k < all.len() implies (#[trigger] all[k]).path != project.path by {
        assert(all[k] == other_paths(recent, project.path)[k - 1]);
    }
}

/// The entries whose path is not `path`.
pub open spec fn with_other_path(path: Seq<char>) -> spec_fn(RecentModel) -> bool {
    |e: RecentModel| e.path != path
}

proof fn lemma_other_paths_filter(entries: Seq<RecentModel>, path: Seq<char>)
    ensures
        other_paths(entries, path) == entries.filter(with_other_path(path)),
    decreases entries.len(),
{
    reveal(Seq::filter);
    if entries.len() > 0 {
        lemma_other_paths_filter(entries.drop_last(), path);
    }
}

/// Opening a project puts it first and keeps, after it, the old entries
/// with other paths in their old order (as many as fit): with a limit of
/// at least one, the list is the project followed by the start of the old
/// list without its path, and it is as long as the limit allows.
pub proof fn merged_recent_keeps_the_old_order(
    recent: Seq<RecentModel>,
    project: RecentModel,
    maximum: nat,
)
    requires
        maximum > 0,
    ensures
        ({
            let merged = merged_recent(recent, project, maximum);
            let others = recent.filter(with_other_path(project.path));
            &&& merged.len() == if others.len() + 1 <= maximum {
                others.len() + 1
            } else {
                maximum
            }
            &&& merged[0] == project
            &&& merged.drop_first() == others.take(merged.len() - 1)
        }),
{
    lemma_other_paths_filter(recent, project.path);
    let merged = merged_recent(recent, project, maximum);
    let others = recent.filter(with_other_path(project.path));
    assert(merged.drop_first() =~= others.take(merged.len() - 1));
}

proof fn lemma_other_paths_exclude(entries: Seq<RecentModel>, path: Seq<char>)
    ensures
        forall|k: int|
            0 <= k < other_paths(entries, path).len() ==> (#[trigger] other_paths(
                entries,
                path,
            )[k]).path != path,
    decreases entries.len(),
{
    if entries.len() > 0 {
        lemma_other_paths_exclude(entries.drop_last(), path);
        let rest = other_paths(entries.drop_last(), path);
        let all = other_paths(entries, path);
        assert forall|k: int| 0 <= k < all.len() implies (#[trigger] all[k]).path != path by {
            if k < rest.len() {
                assert(all[k] == rest[k]);
            }
        }
    }
}

/// The last component of a path, as `std::path::Path::file_name` finds it.
pub uninterp spec fn path_file_name(path: Seq<char>) -> Option<Seq<char>>;

/// `std::path::Path::file_name` of `path`, as a string. The result is named,
/// not described: it is the path's last normal component, and none for a
/// path that ends in `..` or is a root.
#[verifier::external_body]
fn file_name_of(path: &str) -> (r: Option<String>)
    ensures
        match r {
            Some(name) => path_file_name(path@) == Some(name@),
            None => path_file_name(path@) is None,
        },
{
    std::path::Path::new(path).file_name().map(|name| name.to_string_lossy().into_owned())
}

/// A recent-project entry as the settings hold it: the path and name when
/// they are strings, the size as read, and the frame rate (as `f64` bits)
/// already checked.
#[derive(Debug, Clone, PartialEq, Eq)]
pub struct StoredRecentEntry {
    pub path: Option<String>,
    pub name: Option<String>,
    pub width: i32,
    pub height: i32,
    pub fps_bits: u64,
}

/// The content of a stored entry.
pub struct StoredRecentModel {
    pub path: Option<Seq<char>>,
    pub name: Option<Seq<char>>,
    pub width: i32,
    pub height: i32,
    pub fps_bits: u64,
}

/// The text of an optional string.
pub open spec fn option_text(s: Option<String>) -> Option<Seq<char>> {
    match s {
        Some(v) => Some(v@),
        None => None,
    }
}

impl StoredRecentEntry {
    /// The entry's content.
    pub open spec fn model(&self) -> StoredRecentModel {
        StoredRecentModel {
            path: option_text(self.path),
            name: option_text(self.name),
            width: self.width,
            height: self.height,
            fps_bits: self.fps_bits,
        }
    }
}

/// The contents of stored entries.
pub open spec fn stored_models(v: Seq<StoredRecentEntry>) -> Seq<StoredRecentModel> {
    v.map_values(|e: StoredRecentEntry| e.model())
}

/// The name shown for a stored entry: its own name unless blank, else the
/// path's file name, else "Untitled Project".
pub open spec fn entry_name(name: Option<Seq<char>>, path: Seq<char>, language: UiLanguage) -> Seq<
    char,
> {
    match name {
        Some(n) if !is_blank(n) => n,
        _ => match path_file_name(path) {
            Some(f) => f,
            None => pick(language, "Untitled Project"@, "未命名项目"@, "無題のプロジェクト"@),
        },
    }
}

/// The project of a stored entry: none without a path or with a blank one;
/// the size at least one pixel each way.
pub open spec fn entry_project(e: StoredRecentModel, language: UiLanguage) -> Option<RecentModel> {
    match e.path {
        Some(path) => if is_blank(path) {
            None
        } else {
            Some(
                RecentModel {
                    name: entry_name(e.name, path, language),
                    path,
                    width: if e.width < 1 {
                        1
                    } else {
                        e.width
                    },
                    height: if e.height < 1 {
                        1
                    } else {
                        e.height
                    },
                    fps_bits: e.fps_bits,
                },
            )
        },
        None => None,
    }
}

/// The projects of the stored entries that have one, in order.
pub open spec fn entry_projects(entries: Seq<StoredRecentModel>, language: UiLanguage) -> Seq<
    RecentModel,
>
    decreases entries.len(),
{
    if entries.len() == 0 {
        seq![]
    } else {
        let rest = entry_projects(entries.drop_last(), language);
        match entry_project(entries.last(), language) {
            Some(p) => rest.push(p),
            None => rest,
        }
    }
}

/// The first `maximum` elements (all when there are fewer).
pub open spec fn first_at_most<T>(s: Seq<T>, maximum: nat) -> Seq<T> {
    if s.len() <= maximum {
        s
    } else {
        s.take(maximum as int)
    }
}

fn entry_to_project(e: &StoredRecentEntry, language: UiLanguage) -> (r: Option<RecentProject>)
    ensures
        match r {
            Some(p) => entry_project(e.model(), language) == Some(p.model()),
            None => entry_project(e.model(), language) is None,
        },
{
    let path = match &e.path {
        Some(p) => p,
        None => {
            return None;
        },
    };
    if is_blank_str(path.as_str()) {
        return None;
    }
    let name = match &e.name {
        Some(n) if !is_blank_str(n.as_str()) => n.clone(),
        _ => match file_name_of(path.as_str()) {
            Some(f) => f,
            None => String::from_str(
                localized(language, "Untitled Project", "未命名项目", "無題のプロジェクト"),
            ),
        },
    };
    Some(
        RecentProject {
            name,
            path: path.clone(),
            width: if e.width < 1 {
                1
            } else {
                e.width
            },
            height: if e.height < 1 {
                1
            } else {
                e.height
            },
            fps_bits: e.fps_bits,
        },
    )
}

/// The recent list from the stored entries: entries without a path, or with
/// a blank one, are skipped; the others, in order, up to `maximum` of them.
pub fn recent_projects_from_entries(
    entries: &[StoredRecentEntry],
    maximum: usize,
    language: UiLanguage,
) -> (r: Vec<RecentProject>)
    ensures
        recent_models(r@) == first_at_most(entry_projects(stored_models(entries@), language), maximum as nat),
{
    let ghost all = entry_projects(stored_models(entries@), language);
    let mut out: Vec<RecentProject> = Vec::new();
    let mut i: usize = 0;
    while i < entries.len() && out.len() < maximum
        invariant
            i <= entries@.len(),
            out@.len() <= maximum,
            all == entry_projects(stored_models(entries@), language),
            recent_models(out@) == entry_projects(stored_models(entries@.take(i as int)), language),
        decreases entries@.len() - i,
    {
        proof {
            assert(stored_models(entries@.take(i + 1)).drop_last() =~= stored_models(
                entries@.take(i as int),
            ));
        }
        match entry_to_project(&entries[i], language) {
            Some(p) => {
                out.push(p);
                proof {
                    assert(recent_models(out@) =~= entry_projects(
                        stored_models(entries@.take(i + 1)),
                        language,
                    ));
                }
            },
            None => {},
        }
        i = i + 1;
    }
    proof {
        lemma_entry_projects_prefix(stored_models(entries@), i as int, language);
        if i == entries@.len() {
            assert(entries@.take(i as int) =~= entries@);
        }
        let done = entry_projects(stored_models(entries@.take(i as int)), language);
        assert(stored_models(entries@.take(i as int)) =~= stored_models(entries@).take(i as int));
        if all.len() <= maximum {
            if i < entries@.len() {
                assert(done.len() == maximum);
            }
            assert(done =~= all);
        } else {
            assert(done.len() == maximum) by {
                if i == entries@.len() {
                    assert(done =~= all);
                }
            }
            assert(done =~= all.take(maximum as int));
        }
    }
    out
}

proof fn lemma_entry_projects_prefix(entries: Seq<StoredRecentModel>, i: int, language: UiLanguage)
    requires
        0 <= i <= entries.len(),
    ensures
        entry_projects(entries, language).len() >= entry_projects(entries.take(i), language).len(),
        entry_projects(entries, language).take(entry_projects(entries.take(i), language).len() as int)
            == entry_projects(entries.take(i), language),
    decreases entries.len(),
{
    if i < entries.len() {
        lemma_entry_projects_prefix(entries.drop_last(), i, language);
        assert(entries.drop_last().take(i) =~= entries.take(i));
        let prefix = entry_projects(entries.take(i), language);
        let rest = entry_projects(entries.drop_last(), language);
        let all = entry_projects(entries, language);
        assert(all.take(prefix.len() as int) =~= rest.take(prefix.len() as int));
    } else {
        assert(entries.take(i) =~= entries);
        let all = entry_projects(entries, language);
        assert(all.take(all.len() as int) =~= all);
    }
}

/// The entry for a project saved at `path`: none for a blank path; the name
/// is the path's file name, or the path itself when it has none.
pub fn recent_entry_for_project(path: String, width: i32, height: i32, fps_bits: u64) -> (r: Option<
    RecentProject,
>)
    ensures
        is_blank(path@) ==> r is None,
        !is_blank(path@) ==> (r matches Some(p) && p.model() == (RecentModel {
            name: match path_file_name(path@) {
                Some(f) => f,
                None => path@,
            },
            path: path@,
            width,
            height,
            fps_bits,
        })),
{
    if is_blank_str(path.as_str()) {
        return None;
    }
    let name = match file_name_of(path.as_str()) {
        Some(f) => f,
        None => path.clone(),
    };
    Some(RecentProject { name, path, width, height, fps_bits })
}

/// The length of the recent list: the stored count kept to `1..=50`.
pub fn recent_project_limit(stored: i32) -> (r: usize)
    ensures
        r == crate::layout::clamp_int(stored as int, 1, 50),
{
    if stored < 1 {
        1
    } else if stored > 50 {
        50
    } else {
        stored as usize
    }
}

} // verus!
