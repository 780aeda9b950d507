use vstd::prelude::*;

use crate::config::{first_index, texts, Config, Jenkins};
use crate::resolve::Resolution;
use crate::text::{branch_name, push_char};
use crate::webhook::{decode, is_push, HookPayload, Rejected};

verus! {

/// One authenticated GET to the CI server, asking it to build `job`; the token is
/// also sent as the `token` query parameter.
pub struct TriggerRequest {
    pub job: String,
    pub url: String,
    pub username: String,
    pub token: String,
}

/// How one trigger call went: it failed only on a transport error.
pub struct TriggerOutcome {
    pub job: String,
    pub success: bool,
    pub error: Option<String>,
}

/// What to do with one inbound notification.
pub enum HookPlan {
    Rejected(Rejected),
    NoProject { repository: String },
    NoBranch { folder: String, project: String, branch: String },
    Trigger { folder: String, branch: String, requests: Vec<TriggerRequest> },
}

pub open spec fn build_suffix() -> Seq<char> {
    seq![
        '/', 'b', 'u', 'i', 'l', 'd', 'W', 'i', 't', 'h', 'P', 'a', 'r', 'a', 'm', 'e', 't', 'e',
        'r', 's',
    ]
}

/// `<url>:<port>/job/<folder>/<job>/buildWithParameters`
pub open spec fn trigger_url(j: Jenkins, folder: Seq<char>, job: Seq<char>) -> Seq<char> {
    j.job_root() + seq!['/'] + folder + seq!['/'] + job + build_suffix()
}

/// One request per job, in the jobs' order, each to the job's trigger URL with the
/// configured credentials.
pub open spec fn requests_for(
    j: Jenkins,
    folder: Seq<char>,
    jobs: Seq<Seq<char>>,
    rs: Seq<TriggerRequest>,
) -> bool {
    &&& rs.len() == jobs.len()
    &&& forall|k: int|
        0 <= k < rs.len() ==> {
            &&& #[trigger] rs[k].job@ == jobs[k]
            &&& rs[k].url@ == trigger_url(j, folder, jobs[k])
            &&& rs[k].username@ == j.username@
            &&& rs[k].token@ == j.api@
        }
}

impl HookPlan {
    /// The outbound calls the plan asks for, in order.
    pub open spec fn calls(&self) -> Seq<TriggerRequest> {
        match self {
            HookPlan::Trigger { requests, .. } => requests@,
            _ => Seq::empty(),
        }
    }
}

pub fn trigger_url_of(jenkins: &Jenkins, folder: &str, job: &str) -> (r: String)
    ensures
        r@ == trigger_url(*jenkins, folder@, job@),
{
    let mut s = jenkins.get_url();
    push_char(&mut s, '/');
    s.append(folder);
    push_char(&mut s, '/');
    s.append(job);
    let suffix = "/buildWithParameters";
    proof {
        reveal_strlit("/buildWithParameters");
        assert(suffix@ =~= build_suffix());
    }
    s.append(suffix);
    proof {
        assert(s@ =~= trigger_url(*jenkins, folder@, job@));
    }
    s
}

/// The trigger requests for `jobs` of `folder`.
pub fn trigger_requests(jenkins: &Jenkins, folder: &str, jobs: &Vec<String>) -> (r: Vec<
    TriggerRequest,
>)
    ensures
        requests_for(*jenkins, folder@, texts(jobs@), r@),
{
    let mut r: Vec<TriggerRequest> = Vec::new();
    let mut i: usize = 0;
    while i < jobs.len()
        invariant
            i <= jobs@.len(),
            r@.len() == i,
            forall|k: int|
                0 <= k < i ==> {
                    &&& #[trigger] r@[k].job@ == jobs@[k]@
                    &&& r@[k].url@ == trigger_url(*jenkins, folder@, jobs@[k]@)
                    &&& r@[k].username@ == jenkins.username@
                    &&& r@[k].token@ == jenkins.api@
                },
        decreases jobs@.len() - i,
    {
        let job = &jobs[i];
        let url = trigger_url_of(jenkins, folder, job.as_str());
        r.push(
            TriggerRequest {
                job: job.clone(),
                url,
                username: jenkins.username.clone(),
                token: jenkins.api.clone(),
            },
        );
        i = i + 1;
    }
    r
}

/// Decides what one inbound notification leads to: nothing is looked up unless it is a
/// push with a readable body, and nothing is called unless the pushed branch has jobs.
pub fn handle_hook(config: &Config, event_type: Option<&str>, payload: Option<HookPayload>) -> (r:
    HookPlan)
    ensures
        event_type is None ==> r matches HookPlan::Rejected(Rejected::MissingEventHeader),
        event_type is Some && !is_push(event_type) ==> r matches HookPlan::Rejected(
            Rejected::NotPush,
        ),
        is_push(event_type) && payload is None ==> r matches HookPlan::Rejected(
            Rejected::MalformedBody,
        ),
        r is Rejected ==> r.calls().len() == 0,
        is_push(event_type) && payload is Some ==> ({
            let repo = payload->0.repository_name@;
            let branch = branch_name(payload->0.ref_field@);
            match config.owner(repo) {
                None => r matches HookPlan::NoProject { repository } && repository@ == repo
                    && r.calls().len() == 0,
                Some((i, j)) => {
                    let f = config.folder@[i];
                    let p = f.projects@[j];
                    match first_index(p.branch_names(), branch) {
                        None => r matches HookPlan::NoBranch { folder, project, branch: b }
                            && folder@ == f.name@ && project@ == p.name@ && b@ == branch
                            && r.calls().len() == 0,
                        Some(k) => r matches HookPlan::Trigger { folder, branch: b, requests }
                            && folder@ == f.name@ && b@ == branch && requests_for(
                            config.jenkins,
                            f.name@,
                            texts(p.branches@[k].jobs@),
                            requests@,
                        ),
                    }
                },
            }
        }),
{
    let ev = match decode(event_type, payload) {
        Err(why) => {
            return HookPlan::Rejected(why);
        },
        Ok(ev) => ev,
    };
    match config.resolve(&ev) {
        Resolution::NoProject => HookPlan::NoProject { repository: ev.repository },
        Resolution::NoBranch { folder, project } => HookPlan::NoBranch {
            folder,
            project,
            branch: ev.branch,
        },
        Resolution::Jobs { folder, jobs } => {
            let requests = trigger_requests(&config.jenkins, folder.as_str(), &jobs);
            HookPlan::Trigger { folder, branch: ev.branch, requests }
        },
    }
}

/// Walks a plan's requests one at a time, in order. Each request is attempted once,
/// and the next one comes whatever became of the one before.
pub struct Dispatch {
    pub requests: Vec<TriggerRequest>,
    pub next: usize,
}

impl Dispatch {
    pub fn new(requests: Vec<TriggerRequest>) -> (d: Dispatch)
        ensures
            d.requests@ == requests@,
            d.next == 0,
    {
        Dispatch { requests, next: 0 }
    }

    /// The request to send now, or `None` once every request has been attempted.
    pub fn next_request(&self) -> (r: Option<&TriggerRequest>)
        ensures
            self.next < self.requests@.len() ==> r == Some(&self.requests@[self.next as int]),
            self.next >= self.requests@.len() ==> r is None,
    {
        if self.next < self.requests.len() {
            Some(&self.requests[self.next])
        } else {
            None
        }
    }

    /// Records how the current request went (`Err` carries the transport error) and
    /// moves on to the next one, whether it succeeded or not.
    pub fn record(&mut self, result: Result<(), String>) -> (o: TriggerOutcome)
        requires
            old(self).next < old(self).requests@.len(),
        ensures
            final(self).requests@ == old(self).requests@,
            final(self).next == old(self).next + 1,
            o.job@ == old(self).requests@[old(self).next as int].job@,
            o.success == result is Ok,
            match result {
                Ok(_) => o.error is None,
                Err(e) => o.error == Some(e),
            },
    {
        let n: usize = self.requests.len();
        let job = self.requests[self.next].job.clone();
        assert(self.next + 1 <= n);
        self.next = self.next + 1;
        match result {
            Ok(_) => TriggerOutcome { job, success: true, error: None },
            Err(e) => TriggerOutcome { job, success: false, error: Some(e) },
        }
    }
}

} // verus!
