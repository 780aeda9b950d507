use vstd::prelude::*;

use crate::config::{find_branch, find_project, first_index, lemma_key_index, texts, Config, Folder};
use crate::webhook::PushEvent;

verus! {

/// What a push event maps to.
pub enum Resolution {
    /// No project of any folder has the repository's name.
    NoProject,
    /// The repository's project has no entry for the pushed branch.
    NoBranch { folder: String, project: String },
    /// The jobs of the pushed branch, in their configured order, and the folder they live in.
    Jobs { folder: String, jobs: Vec<String> },
}

/// The (folder, project) positions of the first project called `repo`, scanning folders
/// in order from `from`, and the projects of each in order.
pub open spec fn owner_from(fs: Seq<Folder>, repo: Seq<char>, from: int) -> Option<(int, int)>
    decreases fs.len() - from,
{
    if from < 0 || from >= fs.len() {
        None
    } else {
        match first_index(fs[from].project_names(), repo) {
            Some(j) => Some((from, j)),
            None => owner_from(fs, repo, from + 1),
        }
    }
}

/// A repository that no project of any folder is named after has no owner, so a push
/// to it resolves to `NoProject` and triggers nothing.
pub proof fn lemma_unknown_repository_has_no_owner(c: Config, repo: Seq<char>)
    requires
        forall|i: int, j: int|
            0 <= i < c.folder@.len() && 0 <= j < c.folder@[i].projects@.len()
                ==> #[trigger] c.folder@[i].projects@[j].name@ != repo,
    ensures
        c.owner(repo) is None,
{
    lemma_no_owner_from(c.folder@, repo, 0);
}

proof fn lemma_no_owner_from(fs: Seq<Folder>, repo: Seq<char>, from: int)
    requires
        0 <= from,
        forall|i: int, j: int|
            0 <= i < fs.len() && 0 <= j < fs[i].projects@.len() ==> #[trigger] fs[i].projects@[j].name@
                != repo,
    ensures
        owner_from(fs, repo, from) is None,
    decreases fs.len() - from,
{
    if from < fs.len() {
        let keys = fs[from].project_names();
        lemma_key_index(keys, repo, 0);
        if let Some(j) = first_index(keys, repo) {
            assert(fs[from].projects@[j].name@ != repo);
        }
        lemma_no_owner_from(fs, repo, from + 1);
    }
}

impl Config {
    /// Where the project named `repo` is configured; the first one wins.
    pub open spec fn owner(&self, repo: Seq<char>) -> Option<(int, int)> {
        owner_from(self.folder@, repo, 0)
    }

    pub open spec fn resolution_matches(&self, ev: PushEvent, r: Resolution) -> bool {
        match self.owner(ev.repository@) {
            None => r is NoProject,
            Some((i, j)) => {
                let f = self.folder@[i];
                let p = f.projects@[j];
                match first_index(p.branch_names(), ev.branch@) {
                    None => r matches Resolution::NoBranch { folder, project } && folder@ == f.name@
                        && project@ == p.name@,
                    Some(k) => r matches Resolution::Jobs { folder, jobs } && folder@ == f.name@
                        && texts(jobs@) == texts(p.branches@[k].jobs@),
                }
            },
        }
    }

    /// Maps a push event to the jobs it triggers.
    pub fn resolve(&self, ev: &PushEvent) -> (r: Resolution)
        ensures
            self.resolution_matches(*ev, r),
    {
        let mut i: usize = 0;
        while i < self.folder.len()
            invariant
                i <= self.folder@.len(),
                self.owner(ev.repository@) == owner_from(self.folder@, ev.repository@, i as int),
            decreases self.folder@.len() - i,
        {
            let f = &self.folder[i];
            match find_project(&f.projects, ev.repository.as_str()) {
                None => {},
                Some(j) => {
                    let p = &f.projects[j];
                    return match find_branch(&p.branches, ev.branch.as_str()) {
                        None => Resolution::NoBranch { folder: f.name.clone(), project: p.name.clone() },
                        Some(k) => {
                            let jobs = copy_texts(&p.branches[k].jobs);
                            Resolution::Jobs { folder: f.name.clone(), jobs }
                        },
                    };
                },
            }
            i = i + 1;
        }
        Resolution::NoProject
    }
}

/// A copy of a list of texts.
pub fn copy_texts(v: &Vec<String>) -> (r: Vec<String>)
    ensures
        texts(r@) == texts(v@),
{
    let mut r: Vec<String> = Vec::new();
    let mut i: usize = 0;
    while i < v.len()
        invariant
            i <= v@.len(),
            r@.len() == i,
            forall|k: int| 0 <= k < i ==> #[trigger] r@[k]@ == v@[k]@,
        decreases v@.len() - i,
    {
        r.push(v[i].clone());
        i = i + 1;
    }
    proof {
        assert(texts(r@) =~= texts(v@));
    }
    r
}

} // verus!
