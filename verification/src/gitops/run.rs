//! The order of the git steps of an upgrade. For every configured GitOps
//! repository whose name is the workload's GitOps repository, in order: read
//! the access token, remove the local clones, clone (or open) the repository,
//! rewrite the manifests, stage, commit, push, and notify. The first failing
//! step ends the run with its error.

use vstd::prelude::*;
use crate::models::{GitopsConfig, Workload};
use crate::gitops::edit::{join, join_path};

verus! {

/// Where the repositories are cloned.
pub open spec fn clone_root() -> Seq<char> {
    "/tmp/repos/"@
}

/// One step of an upgrade, carried out by the caller.
pub enum GitStep {
    /// Read the access token from the named environment variable (empty
    /// when it is unset).
    ReadAccessToken { env_name: String },
    /// Remove the directory of local clones, if present.
    RemoveLocalRepos { path: String },
    /// Open the clone at `local_path`, or clone `repository_url` there.
    CloneOrOpen { repository_url: String, local_path: String, access_token: String },
    /// Rewrite the workload's image in the manifests of the clone.
    EditFiles { local_path: String },
    /// Stage all changes.
    Stage,
    /// Commit the staged changes.
    Commit { message: String, name: String, email: String },
    /// Push the branch `main` to `origin`.
    Push { access_token: String },
    /// Notify that the workload was committed.
    NotifyCommit,
}

/// Mathematical view of a [`GitStep`].
pub enum GitStepView {
    ReadAccessToken { env_name: Seq<char> },
    RemoveLocalRepos { path: Seq<char> },
    CloneOrOpen { repository_url: Seq<char>, local_path: Seq<char>, access_token: Seq<char> },
    EditFiles { local_path: Seq<char> },
    Stage,
    Commit { message: Seq<char>, name: Seq<char>, email: Seq<char> },
    Push { access_token: Seq<char> },
    NotifyCommit,
}

impl View for GitStep {
    type V = GitStepView;

    open spec fn view(&self) -> GitStepView {
        match self {
            GitStep::ReadAccessToken { env_name } => GitStepView::ReadAccessToken { env_name: env_name@ },
            GitStep::RemoveLocalRepos { path } => GitStepView::RemoveLocalRepos { path: path@ },
            GitStep::CloneOrOpen { repository_url, local_path, access_token } => GitStepView::CloneOrOpen {
                repository_url: repository_url@,
                local_path: local_path@,
                access_token: access_token@,
            },
            GitStep::EditFiles { local_path } => GitStepView::EditFiles { local_path: local_path@ },
            GitStep::Stage => GitStepView::Stage,
            GitStep::Commit { message, name, email } => GitStepView::Commit {
                message: message@,
                name: name@,
                email: email@,
            },
            GitStep::Push { access_token } => GitStepView::Push { access_token: access_token@ },
            GitStep::NotifyCommit => GitStepView::NotifyCommit,
        }
    }
}

/// How the last step went.
pub enum GitEvent {
    /// The step succeeded.
    Done,
    /// The access token was read.
    AccessToken(String),
    /// The step failed with this error.
    Failed(String),
}

/// What to do next: a step, or the end of the run with its result.
pub enum GitAction {
    Perform(GitStep),
    Finish(Result<(), String>),
}

/// Mathematical view of a [`GitAction`].
pub enum GitActionView {
    Perform(GitStepView),
    Finish(Result<(), Seq<char>>),
}

impl View for GitAction {
    type V = GitActionView;

    open spec fn view(&self) -> GitActionView {
        match self {
            GitAction::Perform(s) => GitActionView::Perform(s@),
            GitAction::Finish(Ok(())) => GitActionView::Finish(Ok(())),
            GitAction::Finish(Err(e)) => GitActionView::Finish(Err(e@)),
        }
    }
}

/// The repository `c` is the one named `target`.
pub open spec fn selected(c: GitopsConfig, target: Seq<char>) -> bool {
    c.name@ == target
}

/// The first repository from position `from` on that is selected, or the
/// number of repositories when there is none.
pub open spec fn next_selected(cs: Seq<GitopsConfig>, target: Seq<char>, from: int) -> int
    decreases cs.len() - from,
{
    if from >= cs.len() {
        cs.len() as int
    } else if selected(cs[from], target) {
        from
    } else {
        next_selected(cs, target, from + 1)
    }
}

/// Number of steps done for each selected repository.
pub open spec fn steps_per_repository() -> nat {
    8
}

/// The local clone of the repository `c`.
pub open spec fn local_clone_path(c: GitopsConfig) -> Seq<char> {
    join_path(clone_root(), c.name@)
}

/// Step `phase` for repository `c`, with the access token read for it.
pub open spec fn step_for(c: GitopsConfig, phase: nat, token: Seq<char>) -> GitStepView {
    if phase == 0 {
        GitStepView::ReadAccessToken { env_name: c.access_token_env_name@ }
    } else if phase == 1 {
        GitStepView::RemoveLocalRepos { path: clone_root() }
    } else if phase == 2 {
        GitStepView::CloneOrOpen {
            repository_url: c.repository_url@,
            local_path: local_clone_path(c),
            access_token: token,
        }
    } else if phase == 3 {
        GitStepView::EditFiles { local_path: local_clone_path(c) }
    } else if phase == 4 {
        GitStepView::Stage
    } else if phase == 5 {
        GitStepView::Commit { message: c.commit_message@, name: c.commit_name@, email: c.commit_email@ }
    } else if phase == 6 {
        GitStepView::Push { access_token: token }
    } else {
        GitStepView::NotifyCommit
    }
}

/// The action at position (`index`, `phase`) of a run: a step of the
/// repository at `index`, or success when no repository is left.
pub open spec fn action_at(cs: Seq<GitopsConfig>, index: int, phase: nat, token: Seq<char>) -> GitActionView {
    if index < cs.len() {
        GitActionView::Perform(step_for(cs[index], phase, token))
    } else {
        GitActionView::Finish(Ok(()))
    }
}

/// An upgrade in progress over the configured GitOps repositories.
pub struct GitRun {
    configs: Vec<GitopsConfig>,
    target: String,
    index: usize,
    phase: usize,
    token: String,
    finished: bool,
}

impl GitRun {
    /// The repositories of the run.
    pub closed spec fn configs(&self) -> Seq<GitopsConfig> {
        self.configs@
    }

    /// The name of the workload's GitOps repository (empty when unset).
    pub closed spec fn target(&self) -> Seq<char> {
        self.target@
    }

    /// The position of the repository being worked on.
    pub closed spec fn index(&self) -> int {
        self.index as int
    }

    /// The step of that repository that was last handed out.
    pub closed spec fn phase(&self) -> nat {
        self.phase as nat
    }

    /// The access token read for that repository.
    pub closed spec fn token(&self) -> Seq<char> {
        self.token@
    }

    /// Whether the run has ended.
    pub closed spec fn finished(&self) -> bool {
        self.finished
    }

    /// A run that has not ended works on a selected repository.
    pub closed spec fn wf(&self) -> bool {
        &&& self.phase < steps_per_repository()
        &&& !self.finished ==> self.index < self.configs@.len() && selected(
            self.configs@[self.index as int],
            self.target@,
        )
    }

    fn find_selected(configs: &Vec<GitopsConfig>, target: &String, from: usize) -> (r: usize)
        requires
            from <= configs@.len(),
        ensures
            r as int == next_selected(configs@, target@, from as int),
        decreases configs@.len() - from,
    {
        let mut i = from;
        while i < configs.len()
            invariant
                from <= i <= configs@.len(),
                next_selected(configs@, target@, from as int) == next_selected(configs@, target@, i as int),
            decreases configs@.len() - i,
        {
            if crate::text::str_equals(configs[i].name.as_str(), target.as_str()) {
                return i;
            }
            i = i + 1;
        }
        i
    }

    fn current_action(&self) -> (a: GitAction)
        requires
            self.wf(),
        ensures
            a@ == action_at(self.configs@, self.index as int, self.phase as nat, self.token@),
    {
        if self.index >= self.configs.len() {
            return GitAction::Finish(Ok(()));
        }
        let c = &self.configs[self.index];
        let step = if self.phase == 0 {
            GitStep::ReadAccessToken { env_name: String::from_str(c.access_token_env_name.as_str()) }
        } else if self.phase == 1 {
            GitStep::RemoveLocalRepos { path: String::from_str("/tmp/repos/") }
        } else if self.phase == 2 {
            GitStep::CloneOrOpen {
                repository_url: String::from_str(c.repository_url.as_str()),
                local_path: join("/tmp/repos/", c.name.as_str()),
                access_token: String::from_str(self.token.as_str()),
            }
        } else if self.phase == 3 {
            GitStep::EditFiles { local_path: join("/tmp/repos/", c.name.as_str()) }
        } else if self.phase == 4 {
            GitStep::Stage
        } else if self.phase == 5 {
            GitStep::Commit {
                message: String::from_str(c.commit_message.as_str()),
                name: String::from_str(c.commit_name.as_str()),
                email: String::from_str(c.commit_email.as_str()),
            }
        } else if self.phase == 6 {
            GitStep::Push { access_token: String::from_str(self.token.as_str()) }
        } else {
            GitStep::NotifyCommit
        };
        GitAction::Perform(step)
    }

    /// Starts an upgrade of `workload` over `configs`: the first action is
    /// the first step of the first repository named as the workload's GitOps
    /// repository, or success when there is none.
    pub fn start(configs: Vec<GitopsConfig>, workload: &Workload) -> (r: (GitRun, GitAction))
        ensures
            r.0.wf(),
            r.0.configs() == configs@,
            r.0.target() == match workload.git_ops_repo {
                Some(g) => g@,
                None => Seq::<char>::empty(),
            },
            r.0.index() == next_selected(configs@, r.0.target(), 0),
            r.0.phase() == 0,
            r.0.token() == Seq::<char>::empty(),
            r.0.finished() == (r.0.index() >= configs@.len()),
            r.1@ == action_at(configs@, r.0.index(), 0, Seq::empty()),
    {
        let target = match &workload.git_ops_repo {
            Some(g) => String::from_str(g.as_str()),
            None => String::new(),
        };
        let index = Self::find_selected(&configs, &target, 0);
        proof {
            lemma_next_selected(configs@, target@, 0);
        }
        let finished = index >= configs.len();
        let run = GitRun { configs, target, index, phase: 0, token: String::new(), finished };
        let a = run.current_action();
        (run, a)
    }

    /// Takes the outcome of the last step and gives the next action. A
    /// failure ends the run with its error; after the last step of a
    /// repository the run moves to the next selected one, and ends in
    /// success when none is left.
    pub fn advance(&mut self, event: GitEvent) -> (a: GitAction)
        requires
            old(self).wf(),
            !old(self).finished(),
        ensures
            final(self).wf(),
            final(self).configs() == old(self).configs(),
            final(self).target() == old(self).target(),
            match event {
                GitEvent::Failed(e) => {
                    &&& a@ == GitActionView::Finish(Err(e@))
                    &&& final(self).finished()
                },
                _ => {
                    let token = match event {
                        GitEvent::AccessToken(t) => t@,
                        _ => old(self).token(),
                    };
                    let last = old(self).phase() + 1 == steps_per_repository();
                    let index = if last {
                        next_selected(old(self).configs(), old(self).target(), old(self).index() + 1)
                    } else {
                        old(self).index()
                    };
                    let phase: nat = if last { 0 } else { old(self).phase() + 1 };
                    &&& final(self).index() == index
                    &&& final(self).phase() == phase
                    &&& final(self).token() == token
                    &&& final(self).finished() == (index >= old(self).configs().len())
                    &&& a@ == action_at(old(self).configs(), index, phase, token)
                },
            },
    {
        match event {
            GitEvent::Failed(e) => {
                self.finished = true;
                GitAction::Finish(Err(e))
            },
            other => {
                assert(self.index < self.configs@.len());
                match other {
                    GitEvent::AccessToken(t) => {
                        self.token = t;
                    },
                    _ => {},
                }
                if self.phase + 1 == 8 {
                    let count = self.configs.len();
                    assert(self.index < count);
                    let next = Self::find_selected(&self.configs, &self.target, self.index + 1);
                    proof {
                        lemma_next_selected(self.configs@, self.target@, self.index + 1);
                    }
                    self.index = next;
                    self.phase = 0;
                } else {
                    self.phase = self.phase + 1;
                }
                self.finished = self.index >= self.configs.len();
                self.current_action()
            },
        }
    }
}

/// A repository that is not the workload's GitOps repository is never
/// worked on: while a run goes on, the repository of its steps is named
/// exactly as the workload's GitOps repository (empty when it has none).
pub proof fn lemma_run_only_touches_selected(run: GitRun)
    requires
        run.wf(),
        !run.finished(),
    ensures
        0 <= run.index() < run.configs().len(),
        selected(run.configs()[run.index()], run.target()),
        run.configs()[run.index()].name@ == run.target(),
{
}

/// A run starts on the first repository named exactly as the workload's
/// GitOps repository and skips only repositories named otherwise; with no
/// such repository it ends at once.
pub proof fn lemma_start_on_named_repository(configs: Seq<GitopsConfig>, target: Seq<char>)
    ensures
        0 <= next_selected(configs, target, 0) <= configs.len(),
        next_selected(configs, target, 0) < configs.len() ==> configs[next_selected(configs, target, 0)].name@
            == target,
        forall|k: int| 0 <= k < next_selected(configs, target, 0) ==> (#[trigger] configs[k]).name@ != target,
{
    lemma_next_selected(configs, target, 0);
}

/// Skipping forward lands on a selected repository or past the end, and
/// every repository skipped over is not selected.
pub proof fn lemma_next_selected(cs: Seq<GitopsConfig>, target: Seq<char>, from: int)
    requires
        0 <= from <= cs.len(),
    ensures
        from <= next_selected(cs, target, from) <= cs.len(),
        next_selected(cs, target, from) < cs.len() ==> selected(cs[next_selected(cs, target, from)], target),
        forall|k: int| from <= k < next_selected(cs, target, from) ==> !selected(#[trigger] cs[k], target),
        next_selected(cs, target, from) < cs.len() ==> cs[next_selected(cs, target, from)].name@ == target,
        forall|k: int| from <= k < next_selected(cs, target, from) ==> (#[trigger] cs[k]).name@ != target,
    decreases cs.len() - from,
{
    if from < cs.len() && !selected(cs[from], target) {
        lemma_next_selected(cs, target, from + 1);
    }
}

} // verus!
