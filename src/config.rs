use vstd::prelude::*;

use crate::text::{blank, decimal, decimal_text, is_blank, push_char, same_text};

verus! {

/// Where the CI server is reached, and the credentials it is called with.
pub struct Jenkins {
    pub url: String,
    pub port: u32,
    pub api: String,
    pub username: String,
}

/// One branch of a project and the jobs that a push to it triggers, in order.
pub struct BranchJobs {
    pub branch: String,
    pub jobs: Vec<String>,
}

/// A repository, named as it is on the source-control side, and its branch table.
pub struct Project {
    pub name: String,
    pub branches: Vec<BranchJobs>,
}

/// A folder of the CI server and the projects whose jobs live in it.
pub struct Folder {
    pub name: String,
    pub projects: Vec<Project>,
}

/// The connection to the CI server and the folder -> project -> branch -> jobs table.
///
/// Names are meant to be unique at each level (`keys_unique`, checked by
/// `has_unique_keys`); lookups at every level take the first entry with the wanted name.
pub struct Config {
    pub jenkins: Jenkins,
    pub folder: Vec<Folder>,
}

#[derive(Debug, Clone, Copy, PartialEq, Eq, Structural)]
pub enum JenkinsError {
    EmptyUrl,
    EmptyApi,
    EmptyUsername,
}

#[derive(Debug)]
pub enum ConfigError {
    Jenkins(JenkinsError),
    NoFolders,
    NoProjects { folder: String },
    NoBranches { folder: String, project: String },
    NoJobs { folder: String, project: String, branch: String },
}

/// The position of the first key equal to `key` at or after `from`.
pub open spec fn key_index(keys: Seq<Seq<char>>, key: Seq<char>, from: int) -> Option<int>
    decreases keys.len() - from,
{
    if from < 0 || from >= keys.len() {
        None
    } else if keys[from] == key {
        Some(from)
    } else {
        key_index(keys, key, from + 1)
    }
}

/// The position of the first key equal to `key`.
pub open spec fn first_index(keys: Seq<Seq<char>>, key: Seq<char>) -> Option<int> {
    key_index(keys, key, 0)
}

pub proof fn lemma_key_index(keys: Seq<Seq<char>>, key: Seq<char>, from: int)
    requires
        0 <= from,
    ensures
        match key_index(keys, key, from) {
            Some(i) => from <= i < keys.len() && keys[i] == key && forall|j: int|
                from <= j < i ==> keys[j] != key,
            None => forall|j: int| from <= j < keys.len() ==> keys[j] != key,
        },
    decreases keys.len() - from,
{
    if from < keys.len() && keys[from] != key {
        lemma_key_index(keys, key, from + 1);
    }
}

pub open spec fn as_index(r: Option<usize>) -> Option<int> {
    match r {
        Some(i) => Some(i as int),
        None => None,
    }
}

pub open spec fn texts(v: Seq<String>) -> Seq<Seq<char>> {
    v.map_values(|s: String| s@)
}

/// No key occurs twice.
pub open spec fn distinct(keys: Seq<Seq<char>>) -> bool {
    forall|a: int, b: int| 0 <= a < b < keys.len() ==> keys[a] != keys[b]
}

pub open spec fn names_of(v: Seq<&str>) -> Seq<Seq<char>> {
    v.map_values(|s: &str| s@)
}

/// Whether the names are pairwise different.
pub fn distinct_names(names: &Vec<&str>) -> (r: bool)
    ensures
        r == distinct(names_of(names@)),
{
    let ghost keys = names_of(names@);
    let n = names.len();
    let mut a: usize = 0;
    while a < n
        invariant
            n == names@.len(),
            keys == names_of(names@),
            a <= n,
            forall|x: int, y: int| 0 <= x < a && x < y < n ==> keys[x] != keys[y],
        decreases n - a,
    {
        let mut b: usize = a + 1;
        while b < n
            invariant
                n == names@.len(),
                keys == names_of(names@),
                a < n,
                a + 1 <= b <= n,
                forall|x: int, y: int| 0 <= x < a && x < y < n ==> keys[x] != keys[y],
                forall|y: int| a < y < b ==> keys[a as int] != keys[y],
            decreases n - b,
        {
            if same_text(names[a], names[b]) {
                assert(keys[a as int] == keys[b as int]);
                return false;
            }
            b = b + 1;
        }
        a = a + 1;
    }
    true
}

pub open spec fn branch_ok(b: BranchJobs) -> bool {
    b.jobs@.len() > 0
}

pub open spec fn project_ok(p: Project) -> bool {
    p.branches@.len() > 0 && forall|k: int|
        0 <= k < p.branches@.len() ==> #[trigger] branch_ok(p.branches@[k])
}

pub open spec fn folder_ok(f: Folder) -> bool {
    f.projects@.len() > 0 && forall|j: int|
        0 <= j < f.projects@.len() ==> #[trigger] project_ok(f.projects@[j])
}

/// A configuration that passes validation has no empty folder, project, branch table
/// or job list, and no blank connection field.
pub proof fn lemma_valid_config_has_no_empty_level(c: Config)
    requires
        c.valid(),
    ensures
        !blank(c.jenkins.url@) && !blank(c.jenkins.api@) && !blank(c.jenkins.username@),
        c.folder@.len() > 0,
        forall|i: int| 0 <= i < c.folder@.len() ==> #[trigger] c.folder@[i].projects@.len() > 0,
        forall|i: int, j: int|
            0 <= i < c.folder@.len() && 0 <= j < c.folder@[i].projects@.len()
                ==> #[trigger] c.folder@[i].projects@[j].branches@.len() > 0,
        forall|i: int, j: int, k: int|
            0 <= i < c.folder@.len() && 0 <= j < c.folder@[i].projects@.len() && 0 <= k
                < c.folder@[i].projects@[j].branches@.len()
                ==> #[trigger] c.folder@[i].projects@[j].branches@[k].jobs@.len() > 0,
{
    assert forall|i: int| 0 <= i < c.folder@.len() implies #[trigger] c.folder@[i].projects@.len()
        > 0 by {
        assert(folder_ok(c.folder@[i]));
    }
    assert forall|i: int, j: int|
        0 <= i < c.folder@.len() && 0 <= j < c.folder@[i].projects@.len()
            implies #[trigger] c.folder@[i].projects@[j].branches@.len() > 0 by {
        assert(folder_ok(c.folder@[i]));
        assert(project_ok(c.folder@[i].projects@[j]));
    }
    assert forall|i: int, j: int, k: int|
        0 <= i < c.folder@.len() && 0 <= j < c.folder@[i].projects@.len() && 0 <= k
            < c.folder@[i].projects@[j].branches@.len()
            implies #[trigger] c.folder@[i].projects@[j].branches@[k].jobs@.len() > 0 by {
        assert(folder_ok(c.folder@[i]));
        assert(project_ok(c.folder@[i].projects@[j]));
        assert(branch_ok(c.folder@[i].projects@[j].branches@[k]));
    }
}

impl Jenkins {
    /// The first field that is blank, if any, in the order url, api, username.
    pub open spec fn check(&self) -> Result<(), JenkinsError> {
        if blank(self.url@) {
            Err(JenkinsError::EmptyUrl)
        } else if blank(self.api@) {
            Err(JenkinsError::EmptyApi)
        } else if blank(self.username@) {
            Err(JenkinsError::EmptyUsername)
        } else {
            Ok(())
        }
    }

    pub open spec fn valid(&self) -> bool {
        self.check() is Ok
    }

    /// `<url>:<port>/job`, the root under which folders and jobs are addressed.
    pub open spec fn job_root(&self) -> Seq<char> {
        self.url@ + seq![':'] + decimal(self.port as nat) + seq!['/', 'j', 'o', 'b']
    }

    pub fn new(url: String, port: u32, api: String, username: String) -> (r: Jenkins)
        ensures
            r.url == url,
            r.port == port,
            r.api == api,
            r.username == username,
    {
        Jenkins { url, port, api, username }
    }

    pub fn validate(&self) -> (r: Result<(), JenkinsError>)
        ensures
            r == self.check(),
    {
        if is_blank(self.url.as_str()) {
            Err(JenkinsError::EmptyUrl)
        } else if is_blank(self.api.as_str()) {
            Err(JenkinsError::EmptyApi)
        } else if is_blank(self.username.as_str()) {
            Err(JenkinsError::EmptyUsername)
        } else {
            Ok(())
        }
    }

    pub fn get_url(&self) -> (r: String)
        ensures
            r@ == self.job_root(),
    {
        let mut s = self.url.clone();
        push_char(&mut s, ':');
        let digits = decimal_text(self.port);
        s.append(digits.as_str());
        push_char(&mut s, '/');
        push_char(&mut s, 'j');
        push_char(&mut s, 'o');
        push_char(&mut s, 'b');
        proof {
            assert(s@ =~= self.job_root());
        }
        s
    }
}

impl Project {
    pub open spec fn branch_names(&self) -> Seq<Seq<char>> {
        self.branches@.map_values(|b: BranchJobs| b.branch@)
    }

    /// The branch names of the table, in order.
    pub fn branch_list(&self) -> (r: Vec<&str>)
        ensures
            names_of(r@) == self.branch_names(),
    {
        let mut r: Vec<&str> = Vec::new();
        let mut k: usize = 0;
        while k < self.branches.len()
            invariant
                k <= self.branches@.len(),
                r@.len() == k,
                forall|x: int| 0 <= x < k ==> #[trigger] r@[x]@ == self.branches@[x].branch@,
            decreases self.branches@.len() - k,
        {
            r.push(self.branches[k].branch.as_str());
            k = k + 1;
        }
        proof {
            assert(names_of(r@) =~= self.branch_names());
        }
        r
    }
}

impl Folder {
    pub open spec fn project_names(&self) -> Seq<Seq<char>> {
        self.projects@.map_values(|p: Project| p.name@)
    }

    /// The project names of the folder, in order.
    pub fn project_list(&self) -> (r: Vec<&str>)
        ensures
            names_of(r@) == self.project_names(),
    {
        let mut r: Vec<&str> = Vec::new();
        let mut j: usize = 0;
        while j < self.projects.len()
            invariant
                j <= self.projects@.len(),
                r@.len() == j,
                forall|x: int| 0 <= x < j ==> #[trigger] r@[x]@ == self.projects@[x].name@,
            decreases self.projects@.len() - j,
        {
            r.push(self.projects[j].name.as_str());
            j = j + 1;
        }
        proof {
            assert(names_of(r@) =~= self.project_names());
        }
        r
    }
}

impl Config {
    pub open spec fn folder_names(&self) -> Seq<Seq<char>> {
        self.folder@.map_values(|f: Folder| f.name@)
    }

    /// A configuration fit to serve: valid connection fields, at least one folder,
    /// and no empty project list, branch table or job list anywhere.
    pub open spec fn valid(&self) -> bool {
        &&& self.jenkins.valid()
        &&& self.folder@.len() > 0
        &&& forall|i: int| 0 <= i < self.folder@.len() ==> #[trigger] folder_ok(self.folder@[i])
    }

    /// No two folders share a name, nor two projects of a folder, nor two branch
    /// entries of a project.
    pub open spec fn keys_unique(&self) -> bool {
        &&& distinct(self.folder_names())
        &&& forall|i: int|
            0 <= i < self.folder@.len() ==> distinct(#[trigger] self.folder@[i].project_names())
        &&& forall|i: int, j: int|
            0 <= i < self.folder@.len() && 0 <= j < self.folder@[i].projects@.len() ==> distinct(
                #[trigger] self.folder@[i].projects@[j].branch_names(),
            )
    }

    pub fn has_unique_keys(&self) -> (r: bool)
        ensures
            r == self.keys_unique(),
    {
        if !distinct_names(&self.get_folders()) {
            return false;
        }
        let mut i: usize = 0;
        while i < self.folder.len()
            invariant
                i <= self.folder@.len(),
                distinct(self.folder_names()),
                forall|i2: int| 0 <= i2 < i ==> distinct(#[trigger] self.folder@[i2].project_names()),
                forall|i2: int, j2: int|
                    0 <= i2 < i && 0 <= j2 < self.folder@[i2].projects@.len() ==> distinct(
                        #[trigger] self.folder@[i2].projects@[j2].branch_names(),
                    ),
            decreases self.folder@.len() - i,
        {
            let f = &self.folder[i];
            if !distinct_names(&f.project_list()) {
                return false;
            }
            let mut j: usize = 0;
            while j < f.projects.len()
                invariant
                    i < self.folder@.len(),
                    *f == self.folder@[i as int],
                    j <= f.projects@.len(),
                    distinct(self.folder_names()),
                    forall|i2: int|
                        0 <= i2 <= i ==> distinct(#[trigger] self.folder@[i2].project_names()),
                    forall|i2: int, j2: int|
                        0 <= i2 < i && 0 <= j2 < self.folder@[i2].projects@.len() ==> distinct(
                            #[trigger] self.folder@[i2].projects@[j2].branch_names(),
                        ),
                    forall|j2: int| 0 <= j2 < j ==> distinct(#[trigger] f.projects@[j2].branch_names()),
                decreases f.projects@.len() - j,
            {
                if !distinct_names(&f.projects[j].branch_list()) {
                    return false;
                }
                j = j + 1;
            }
            i = i + 1;
        }
        true
    }

    /// The jobs mapped to (folder, project, branch), if every level has such an entry.
    pub open spec fn jobs_for(&self, folder: Seq<char>, project: Seq<char>, branch: Seq<char>) -> Option<
        Seq<Seq<char>>,
    > {
        match first_index(self.folder_names(), folder) {
            None => None,
            Some(i) => {
                let f = self.folder@[i];
                match first_index(f.project_names(), project) {
                    None => None,
                    Some(j) => {
                        let p = f.projects@[j];
                        match first_index(p.branch_names(), branch) {
                            None => None,
                            Some(k) => Some(texts(p.branches@[k].jobs@)),
                        }
                    },
                }
            },
        }
    }

    /// Checks the connection fields, then the folders in order, each one's projects in
    /// order and each project's branches in order, and reports the first fault found.
    pub fn validate(&self) -> (r: Result<(), ConfigError>)
        ensures
            r is Ok <==> self.valid(),
            self.jenkins.check() matches Err(e) ==> r == Err::<(), ConfigError>(
                ConfigError::Jenkins(e),
            ),
            self.jenkins.valid() && self.folder@.len() == 0 ==> r matches Err(
                ConfigError::NoFolders,
            ),
            r matches Err(ConfigError::Jenkins(e)) ==> self.jenkins.check() == Err::<
                (),
                JenkinsError,
            >(e),
            r matches Err(ConfigError::NoFolders) ==> self.jenkins.valid() && self.folder@.len()
                == 0,
            r matches Err(ConfigError::NoProjects { folder }) ==> self.jenkins.valid() && exists|
                i: int,
            |
                0 <= i < self.folder@.len() && self.folder@[i].name@ == folder@
                    && self.folder@[i].projects@.len() == 0 && forall|i2: int|
                    0 <= i2 < i ==> #[trigger] folder_ok(self.folder@[i2]),
            r matches Err(ConfigError::NoBranches { folder, project }) ==> self.jenkins.valid()
                && exists|i: int, j: int|
                0 <= i < self.folder@.len() && 0 <= j < self.folder@[i].projects@.len()
                    && self.folder@[i].name@ == folder@ && self.folder@[i].projects@[j].name@
                    == project@ && self.folder@[i].projects@[j].branches@.len() == 0 && (forall|
                    i2: int,
                | 0 <= i2 < i ==> #[trigger] folder_ok(self.folder@[i2])) && forall|j2: int|
                    0 <= j2 < j ==> #[trigger] project_ok(self.folder@[i].projects@[j2]),
            r matches Err(ConfigError::NoJobs { folder, project, branch }) ==> self.jenkins.valid()
                && exists|i: int, j: int, k: int|
                0 <= i < self.folder@.len() && 0 <= j < self.folder@[i].projects@.len() && 0 <= k
                    < self.folder@[i].projects@[j].branches@.len() && self.folder@[i].name@
                    == folder@ && self.folder@[i].projects@[j].name@ == project@
                    && self.folder@[i].projects@[j].branches@[k].branch@ == branch@
                    && self.folder@[i].projects@[j].branches@[k].jobs@.len() == 0 && (forall|
                    i2: int,
                | 0 <= i2 < i ==> #[trigger] folder_ok(self.folder@[i2])) && (forall|j2: int|
                    0 <= j2 < j ==> #[trigger] project_ok(self.folder@[i].projects@[j2]))
                    && forall|k2: int|
                    0 <= k2 < k ==> #[trigger] branch_ok(
                        self.folder@[i].projects@[j].branches@[k2],
                    ),
    {
        match self.jenkins.validate() {
            Err(e) => {
                return Err(ConfigError::Jenkins(e));
            },
            Ok(()) => {},
        }
        if self.folder.len() == 0 {
            return Err(ConfigError::NoFolders);
        }
        let mut i: usize = 0;
        while i < self.folder.len()
            invariant
                self.jenkins.valid(),
                self.folder@.len() > 0,
                i <= self.folder@.len(),
                forall|i2: int| 0 <= i2 < i ==> #[trigger] folder_ok(self.folder@[i2]),
            decreases self.folder@.len() - i,
        {
            let f = &self.folder[i];
            if f.projects.len() == 0 {
                assert(!folder_ok(self.folder@[i as int]));
                return Err(ConfigError::NoProjects { folder: f.name.clone() });
            }
            let mut j: usize = 0;
            while j < f.projects.len()
                invariant
                    self.jenkins.valid(),
                    i < self.folder@.len(),
                    *f == self.folder@[i as int],
                    f.projects@.len() > 0,
                    j <= f.projects@.len(),
                    forall|i2: int| 0 <= i2 < i ==> #[trigger] folder_ok(self.folder@[i2]),
                    forall|j2: int| 0 <= j2 < j ==> #[trigger] project_ok(f.projects@[j2]),
                decreases f.projects@.len() - j,
            {
                let p = &f.projects[j];
                if p.branches.len() == 0 {
                    assert(!project_ok(f.projects@[j as int]));
                    assert(!folder_ok(self.folder@[i as int]));
                    return Err(
                        ConfigError::NoBranches { folder: f.name.clone(), project: p.name.clone() },
                    );
                }
                let mut k: usize = 0;
                while k < p.branches.len()
                    invariant
                        self.jenkins.valid(),
                        i < self.folder@.len(),
                        *f == self.folder@[i as int],
                        j < f.projects@.len(),
                        *p == f.projects@[j as int],
                        p.branches@.len() > 0,
                        k <= p.branches@.len(),
                        forall|i2: int| 0 <= i2 < i ==> #[trigger] folder_ok(self.folder@[i2]),
                        forall|j2: int| 0 <= j2 < j ==> #[trigger] project_ok(f.projects@[j2]),
                        forall|k2: int| 0 <= k2 < k ==> #[trigger] branch_ok(p.branches@[k2]),
                    decreases p.branches@.len() - k,
                {
                    let b = &p.branches[k];
                    if b.jobs.len() == 0 {
                        assert(!branch_ok(p.branches@[k as int]));
                        assert(!project_ok(f.projects@[j as int]));
                        assert(!folder_ok(self.folder@[i as int]));
                        return Err(
                            ConfigError::NoJobs {
                                folder: f.name.clone(),
                                project: p.name.clone(),
                                branch: b.branch.clone(),
                            },
                        );
                    }
                    k = k + 1;
                }
                j = j + 1;
            }
            i = i + 1;
        }
        Ok(())
    }

    pub fn find_jobs(&self, folder: &str, project: &str, branch: &str) -> (r: Option<&Vec<String>>)
        ensures
            match r {
                Some(v) => self.jobs_for(folder@, project@, branch@) == Some(texts(v@)),
                None => self.jobs_for(folder@, project@, branch@) is None,
            },
    {
        match find_folder(&self.folder, folder) {
            None => None,
            Some(i) => {
                let f = &self.folder[i];
                match find_project(&f.projects, project) {
                    None => None,
                    Some(j) => {
                        let p = &f.projects[j];
                        match find_branch(&p.branches, branch) {
                            None => None,
                            Some(k) => Some(&p.branches[k].jobs),
                        }
                    },
                }
            },
        }
    }

    pub fn get_folders(&self) -> (r: Vec<&str>)
        ensures
            names_of(r@) == self.folder_names(),
    {
        let mut r: Vec<&str> = Vec::new();
        let mut i: usize = 0;
        while i < self.folder.len()
            invariant
                i <= self.folder@.len(),
                r@.len() == i,
                forall|k: int| 0 <= k < i ==> #[trigger] r@[k]@ == self.folder@[k].name@,
            decreases self.folder@.len() - i,
        {
            r.push(self.folder[i].name.as_str());
            i = i + 1;
        }
        proof {
            assert(names_of(r@) =~= self.folder_names());
        }
        r
    }

    pub fn get_projects(&self, folder: &str) -> (r: Option<Vec<&str>>)
        ensures
            match first_index(self.folder_names(), folder@) {
                None => r is None,
                Some(i) => r matches Some(v) && names_of(v@) == self.folder@[i].project_names(),
            },
    {
        match find_folder(&self.folder, folder) {
            None => None,
            Some(i) => Some(self.folder[i].project_list()),
        }
    }
}

/// The index of the first folder called `name`.
pub fn find_folder(fs: &Vec<Folder>, name: &str) -> (r: Option<usize>)
    ensures
        as_index(r) == first_index(fs@.map_values(|f: Folder| f.name@), name@),
        r matches Some(i) ==> i < fs@.len(),
{
    let ghost keys = fs@.map_values(|f: Folder| f.name@);
    let mut i: usize = 0;
    while i < fs.len()
        invariant
            i <= fs@.len(),
            keys == fs@.map_values(|f: Folder| f.name@),
            key_index(keys, name@, 0) == key_index(keys, name@, i as int),
        decreases fs@.len() - i,
    {
        if same_text(fs[i].name.as_str(), name) {
            return Some(i);
        }
        i = i + 1;
    }
    None
}

/// The index of the first project called `name`.
pub fn find_project(ps: &Vec<Project>, name: &str) -> (r: Option<usize>)
    ensures
        as_index(r) == first_index(ps@.map_values(|p: Project| p.name@), name@),
        r matches Some(i) ==> i < ps@.len(),
{
    let ghost keys = ps@.map_values(|p: Project| p.name@);
    let mut i: usize = 0;
    while i < ps.len()
        invariant
            i <= ps@.len(),
            keys == ps@.map_values(|p: Project| p.name@),
            key_index(keys, name@, 0) == key_index(keys, name@, i as int),
        decreases ps@.len() - i,
    {
        if same_text(ps[i].name.as_str(), name) {
            return Some(i);
        }
        i = i + 1;
    }
    None
}

/// The index of the first entry for branch `name`.
pub fn find_branch(bs: &Vec<BranchJobs>, name: &str) -> (r: Option<usize>)
    ensures
        as_index(r) == first_index(bs@.map_values(|b: BranchJobs| b.branch@), name@),
        r matches Some(i) ==> i < bs@.len(),
{
    let ghost keys = bs@.map_values(|b: BranchJobs| b.branch@);
    let mut i: usize = 0;
    while i < bs.len()
        invariant
            i <= bs@.len(),
            keys == bs@.map_values(|b: BranchJobs| b.branch@),
            key_index(keys, name@, 0) == key_index(keys, name@, i as int),
        decreases bs@.len() - i,
    {
        if same_text(bs[i].branch.as_str(), name) {
            return Some(i);
        }
        i = i + 1;
    }
    None
}

} // verus!
