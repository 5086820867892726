use vstd::prelude::*;
use vstd::string::*;
use crate::text::{trim, trimmed};

verus! {

/// What the snapshot protocol asks its collaborator to do next.
pub enum Step {
    /// Run `git` with `args`, with `--git-dir <git_dir>` first when `git_dir` is given.
    Git { git_dir: Option<String>, args: Vec<String> },
    /// Make sure the parent of `path` exists, then remove the directory at `path` if
    /// there is one; the outcome is not examined.
    ClearDir { path: String },
}

/// `Step` over plain sequences.
pub enum StepView {
    Git(Option<Seq<char>>, Seq<Seq<char>>),
    ClearDir(Seq<char>),
}

pub open spec fn strings_view(v: Seq<String>) -> Seq<Seq<char>> {
    v.map_values(|s: String| s@)
}

impl View for Step {
    type V = StepView;

    open spec fn view(&self) -> StepView {
        match self {
            Step::Git { git_dir, args } => StepView::Git(
                match git_dir {
                    Some(d) => Some(d@),
                    None => None,
                },
                strings_view(args@),
            ),
            Step::ClearDir { path } => StepView::ClearDir(path@),
        }
    }
}

/// Why a snapshot could not be made.
#[derive(Debug, Clone, Copy, PartialEq, Eq, Structural)]
pub enum SnapshotError {
    /// No commit of the source repository is dated on or before the cutoff.
    NoCommitBeforeCutoff,
    /// A version-control command exited with a failure.
    SubprocessFailure,
}

/// Where the protocol stands.  `commit` is the newest commit at or before the cutoff,
/// `synthetic` the parentless commit made from its tree.
pub enum Stage {
    CheckBaseline,
    FetchBaseline,
    FindCommit,
    MakeCommit { commit: String },
    CreateBranch { commit: String, synthetic: String },
    UpdateRef { commit: String, synthetic: String },
    ClearFork { commit: String, synthetic: String },
    CloneFork { commit: String, synthetic: String },
    SetHead { commit: String, synthetic: String },
    MakeMaster { commit: String, synthetic: String },
    /// The baseline is present and only that was asked for.
    Prefetched,
    Done { commit: String, synthetic: String },
    Failed { error: SnapshotError },
}

/// `Stage` over plain sequences.
pub enum StageView {
    CheckBaseline,
    FetchBaseline,
    FindCommit,
    MakeCommit(Seq<char>),
    CreateBranch(Seq<char>, Seq<char>),
    UpdateRef(Seq<char>, Seq<char>),
    ClearFork(Seq<char>, Seq<char>),
    CloneFork(Seq<char>, Seq<char>),
    SetHead(Seq<char>, Seq<char>),
    MakeMaster(Seq<char>, Seq<char>),
    Prefetched,
    Done(Seq<char>, Seq<char>),
    Failed(SnapshotError),
}

impl View for Stage {
    type V = StageView;

    open spec fn view(&self) -> StageView {
        match self {
            Stage::CheckBaseline => StageView::CheckBaseline,
            Stage::FetchBaseline => StageView::FetchBaseline,
            Stage::FindCommit => StageView::FindCommit,
            Stage::MakeCommit { commit } => StageView::MakeCommit(commit@),
            Stage::CreateBranch { commit, synthetic } => StageView::CreateBranch(commit@, synthetic@),
            Stage::UpdateRef { commit, synthetic } => StageView::UpdateRef(commit@, synthetic@),
            Stage::ClearFork { commit, synthetic } => StageView::ClearFork(commit@, synthetic@),
            Stage::CloneFork { commit, synthetic } => StageView::CloneFork(commit@, synthetic@),
            Stage::SetHead { commit, synthetic } => StageView::SetHead(commit@, synthetic@),
            Stage::MakeMaster { commit, synthetic } => StageView::MakeMaster(commit@, synthetic@),
            Stage::Prefetched => StageView::Prefetched,
            Stage::Done { commit, synthetic } => StageView::Done(commit@, synthetic@),
            Stage::Failed { error } => StageView::Failed(*error),
        }
    }
}

/// The ref that holds the historical baseline of the registry.
pub open spec fn baseline_ref() -> Seq<char> {
    "snapshot-2018-09-26"@
}

/// Where the baseline is fetched from.
pub open spec fn upstream_url() -> Seq<char> {
    "https://github.com/rust-lang/crates.io-index"@
}

/// The branch that exposes the snapshot of `commit`.
pub open spec fn fork_name(commit: Seq<char>) -> Seq<char> {
    "lts-repo-at-"@ + commit
}

/// The fork repository's path: `fork_name(commit)` inside `parent`.
pub open spec fn fork_path(parent: Seq<char>, commit: Seq<char>) -> Seq<char> {
    parent + "/"@ + fork_name(commit)
}

/// The stage that follows `s` once its step ended with `ok` and printed `out`.
pub open spec fn next_stage(s: StageView, prefetch_only: bool, ok: bool, out: Seq<char>) -> StageView {
    let fail = StageView::Failed(SnapshotError::SubprocessFailure);
    match s {
        StageView::CheckBaseline => if !ok {
            StageView::FetchBaseline
        } else if prefetch_only {
            StageView::Prefetched
        } else {
            StageView::FindCommit
        },
        StageView::FetchBaseline => if !ok {
            fail
        } else if prefetch_only {
            StageView::Prefetched
        } else {
            StageView::FindCommit
        },
        StageView::FindCommit => if !ok {
            fail
        } else if trimmed(out).len() == 0 {
            StageView::Failed(SnapshotError::NoCommitBeforeCutoff)
        } else {
            StageView::MakeCommit(trimmed(out))
        },
        StageView::MakeCommit(c) => if ok {
            StageView::CreateBranch(c, trimmed(out))
        } else {
            fail
        },
        StageView::CreateBranch(c, n) => if ok {
            StageView::ClearFork(c, n)
        } else {
            StageView::UpdateRef(c, n)
        },
        StageView::UpdateRef(c, n) => if ok {
            StageView::ClearFork(c, n)
        } else {
            fail
        },
        StageView::ClearFork(c, n) => StageView::CloneFork(c, n),
        StageView::CloneFork(c, n) => if ok {
            StageView::SetHead(c, n)
        } else {
            fail
        },
        StageView::SetHead(c, n) => if ok {
            StageView::MakeMaster(c, n)
        } else {
            fail
        },
        StageView::MakeMaster(c, n) => if ok {
            StageView::Done(c, n)
        } else {
            fail
        },
        _ => s,
    }
}

/// The step that stage `s` asks for, for the source repository `source`, the fork
/// directory `parent` and the cutoff date `cutoff`; none once the protocol has ended.
pub open spec fn step_for(
    source: Seq<char>,
    parent: Seq<char>,
    cutoff: Seq<char>,
    s: StageView,
) -> Option<StepView> {
    match s {
        StageView::CheckBaseline => Some(
            StepView::Git(Some(source), seq!["rev-parse"@, baseline_ref(), "--"@]),
        ),
        StageView::FetchBaseline => Some(
            StepView::Git(
                Some(source),
                seq!["fetch"@, upstream_url(), baseline_ref() + ":"@ + baseline_ref()],
            ),
        ),
        StageView::FindCommit => Some(
            StepView::Git(
                Some(source),
                seq!["log"@, "--all"@, "-1"@, "--format=%H"@, "--until"@, cutoff],
            ),
        ),
        StageView::MakeCommit(c) => Some(
            StepView::Git(
                Some(source),
                seq!["commit-tree"@, c + "^{tree}"@, "-m"@, "Registry at "@ + cutoff],
            ),
        ),
        StageView::CreateBranch(c, n) => Some(
            StepView::Git(Some(source), seq!["branch"@, fork_name(c), n]),
        ),
        StageView::UpdateRef(c, n) => Some(
            StepView::Git(Some(source), seq!["update-ref"@, "refs/heads/"@ + fork_name(c), n]),
        ),
        StageView::ClearFork(c, n) => Some(StepView::ClearDir(fork_path(parent, c))),
        StageView::CloneFork(c, n) => Some(
            StepView::Git(
                None,
                seq![
                    "clone"@,
                    "--single-branch"@,
                    "--bare"@,
                    "--branch"@,
                    fork_name(c),
                    source,
                    fork_path(parent, c),
                ],
            ),
        ),
        StageView::SetHead(c, n) => Some(
            StepView::Git(Some(fork_path(parent, c)), seq!["update-ref"@, "HEAD"@, n]),
        ),
        StageView::MakeMaster(c, n) => Some(
            StepView::Git(Some(fork_path(parent, c)), seq!["branch"@, "master"@, n]),
        ),
        _ => None,
    }
}

/// The outcome of a snapshot.
pub struct RegistrySnapshot {
    pub source_repo: String,
    /// The newest commit at or before the cutoff.
    pub cutoff_commit: String,
    /// The parentless commit with `cutoff_commit`'s tree.
    pub synthetic_commit: String,
    pub fork_name: String,
    pub fork_repo: String,
}

/// The snapshot protocol for one source repository, fork directory and cutoff.
pub struct Snapshotter {
    pub source_repo: String,
    pub fork_parent: String,
    pub cutoff: String,
    pub prefetch_only: bool,
    pub stage: Stage,
}

fn owned(s: &str) -> (r: String)
    ensures
        r@ == s@,
{
    s.to_owned()
}

fn joined(a: &str, b: &str) -> (r: String)
    ensures
        r@ == a@ + b@,
{
    let mut r = a.to_owned();
    r.append(b);
    r
}

fn push_arg(v: &mut Vec<String>, a: &str)
    ensures
        strings_view(final(v)@) == strings_view(old(v)@).push(a@),
{
    v.push(a.to_owned());
    assert(strings_view(v@) =~= strings_view(old(v)@).push(a@));
}

fn fork_name_of(commit: &str) -> (r: String)
    ensures
        r@ == fork_name(commit@),
{
    joined("lts-repo-at-", commit)
}

fn fork_path_of(parent: &str, commit: &str) -> (r: String)
    ensures
        r@ == fork_path(parent@, commit@),
{
    let mut r = joined(parent, "/");
    let name = fork_name_of(commit);
    r.append(name.as_str());
    r
}

fn git_step(git_dir: Option<&str>, args: Vec<String>) -> (r: Step)
    ensures
        r@ == StepView::Git(
            match git_dir {
                Some(d) => Some(d@),
                None => None,
            },
            strings_view(args@),
        ),
{
    match git_dir {
        Some(d) => Step::Git { git_dir: Some(owned(d)), args },
        None => Step::Git { git_dir: None, args },
    }
}

impl Snapshotter {
    /// Starts the protocol: first the baseline is checked for.
    pub fn new(source_repo: String, fork_parent: String, cutoff: String, prefetch_only: bool) -> (r:
        Snapshotter)
        ensures
            r.source_repo@ == source_repo@,
            r.fork_parent@ == fork_parent@,
            r.cutoff@ == cutoff@,
            r.prefetch_only == prefetch_only,
            r.stage@ == StageView::CheckBaseline,
    {
        Snapshotter { source_repo, fork_parent, cutoff, prefetch_only, stage: Stage::CheckBaseline }
    }

    /// The step to perform now; none once the protocol has ended.
    pub fn next_step(&self) -> (r: Option<Step>)
        ensures
            match r {
                Some(st) => step_for(self.source_repo@, self.fork_parent@, self.cutoff@, self.stage@)
                    == Some(st@),
                None => step_for(self.source_repo@, self.fork_parent@, self.cutoff@, self.stage@)
                    is None,
            },
    {
        let src = self.source_repo.as_str();
        let mut a: Vec<String> = Vec::new();
        assert(strings_view(a@) =~= Seq::<Seq<char>>::empty());
        match &self.stage {
            Stage::CheckBaseline => {
                push_arg(&mut a, "rev-parse");
                push_arg(&mut a, "snapshot-2018-09-26");
                push_arg(&mut a, "--");
                assert(strings_view(a@) =~= seq!["rev-parse"@, baseline_ref(), "--"@]);
                Some(git_step(Some(src), a))
            },
            Stage::FetchBaseline => {
                push_arg(&mut a, "fetch");
                push_arg(&mut a, "https://github.com/rust-lang/crates.io-index");
                let refspec = joined(joined("snapshot-2018-09-26", ":").as_str(), "snapshot-2018-09-26");
                push_arg(&mut a, refspec.as_str());
                assert(strings_view(a@) =~= seq![
                    "fetch"@,
                    upstream_url(),
                    baseline_ref() + ":"@ + baseline_ref(),
                ]);
                Some(git_step(Some(src), a))
            },
            Stage::FindCommit => {
                push_arg(&mut a, "log");
                push_arg(&mut a, "--all");
                push_arg(&mut a, "-1");
                push_arg(&mut a, "--format=%H");
                push_arg(&mut a, "--until");
                push_arg(&mut a, self.cutoff.as_str());
                assert(strings_view(a@) =~= seq![
                    "log"@,
                    "--all"@,
                    "-1"@,
                    "--format=%H"@,
                    "--until"@,
                    self.cutoff@,
                ]);
                Some(git_step(Some(src), a))
            },
            Stage::MakeCommit { commit } => {
                push_arg(&mut a, "commit-tree");
                push_arg(&mut a, joined(commit.as_str(), "^{tree}").as_str());
                push_arg(&mut a, "-m");
                push_arg(&mut a, joined("Registry at ", self.cutoff.as_str()).as_str());
                assert(strings_view(a@) =~= seq![
                    "commit-tree"@,
                    commit@ + "^{tree}"@,
                    "-m"@,
                    "Registry at "@ + self.cutoff@,
                ]);
                Some(git_step(Some(src), a))
            },
            Stage::CreateBranch { commit, synthetic } => {
                push_arg(&mut a, "branch");
                push_arg(&mut a, fork_name_of(commit.as_str()).as_str());
                push_arg(&mut a, synthetic.as_str());
                assert(strings_view(a@) =~= seq!["branch"@, fork_name(commit@), synthetic@]);
                Some(git_step(Some(src), a))
            },
            Stage::UpdateRef { commit, synthetic } => {
                push_arg(&mut a, "update-ref");
                let name = fork_name_of(commit.as_str());
                push_arg(&mut a, joined("refs/heads/", name.as_str()).as_str());
                push_arg(&mut a, synthetic.as_str());
                assert(strings_view(a@) =~= seq![
                    "update-ref"@,
                    "refs/heads/"@ + fork_name(commit@),
                    synthetic@,
                ]);
                Some(git_step(Some(src), a))
            },
            Stage::ClearFork { commit, .. } => Some(
                Step::ClearDir { path: fork_path_of(self.fork_parent.as_str(), commit.as_str()) },
            ),
            Stage::CloneFork { commit, .. } => {
                push_arg(&mut a, "clone");
                push_arg(&mut a, "--single-branch");
                push_arg(&mut a, "--bare");
                push_arg(&mut a, "--branch");
                push_arg(&mut a, fork_name_of(commit.as_str()).as_str());
                push_arg(&mut a, src);
                push_arg(&mut a, fork_path_of(self.fork_parent.as_str(), commit.as_str()).as_str());
                assert(strings_view(a@) =~= seq![
                    "clone"@,
                    "--single-branch"@,
                    "--bare"@,
                    "--branch"@,
                    fork_name(commit@),
                    self.source_repo@,
                    fork_path(self.fork_parent@, commit@),
                ]);
                Some(git_step(None, a))
            },
            Stage::SetHead { commit, synthetic } => {
                push_arg(&mut a, "update-ref");
                push_arg(&mut a, "HEAD");
                push_arg(&mut a, synthetic.as_str());
                assert(strings_view(a@) =~= seq!["update-ref"@, "HEAD"@, synthetic@]);
                let fork = fork_path_of(self.fork_parent.as_str(), commit.as_str());
                Some(git_step(Some(fork.as_str()), a))
            },
            Stage::MakeMaster { commit, synthetic } => {
                push_arg(&mut a, "branch");
                push_arg(&mut a, "master");
                push_arg(&mut a, synthetic.as_str());
                assert(strings_view(a@) =~= seq!["branch"@, "master"@, synthetic@]);
                let fork = fork_path_of(self.fork_parent.as_str(), commit.as_str());
                Some(git_step(Some(fork.as_str()), a))
            },
            _ => None,
        }
    }
}

fn pair(commit: &String, synthetic: &String) -> (r: (String, String))
    ensures
        r.0@ == commit@,
        r.1@ == synthetic@,
{
    (commit.clone(), synthetic.clone())
}

impl Snapshotter {
    /// Moves past the current step, given whether it succeeded and what it printed.
    pub fn advance(&mut self, ok: bool, stdout: &str)
        ensures
            final(self).stage@ == next_stage(old(self).stage@, old(self).prefetch_only, ok, stdout@),
            final(self).source_repo@ == old(self).source_repo@,
            final(self).fork_parent@ == old(self).fork_parent@,
            final(self).cutoff@ == old(self).cutoff@,
            final(self).prefetch_only == old(self).prefetch_only,
    {
        let fail = Stage::Failed { error: SnapshotError::SubprocessFailure };
        let next = match &self.stage {
            Stage::CheckBaseline => if !ok {
                Stage::FetchBaseline
            } else if self.prefetch_only {
                Stage::Prefetched
            } else {
                Stage::FindCommit
            },
            Stage::FetchBaseline => if !ok {
                fail
            } else if self.prefetch_only {
                Stage::Prefetched
            } else {
                Stage::FindCommit
            },
            Stage::FindCommit => if !ok {
                fail
            } else {
                let h = trim(stdout);
                if h.as_str().unicode_len() == 0 {
                    Stage::Failed { error: SnapshotError::NoCommitBeforeCutoff }
                } else {
                    Stage::MakeCommit { commit: h }
                }
            },
            Stage::MakeCommit { commit } => if ok {
                Stage::CreateBranch { commit: commit.clone(), synthetic: trim(stdout) }
            } else {
                fail
            },
            Stage::CreateBranch { commit, synthetic } => {
                let (c, n) = pair(commit, synthetic);
                if ok {
                    Stage::ClearFork { commit: c, synthetic: n }
                } else {
                    Stage::UpdateRef { commit: c, synthetic: n }
                }
            },
            Stage::UpdateRef { commit, synthetic } => if ok {
                let (c, n) = pair(commit, synthetic);
                Stage::ClearFork { commit: c, synthetic: n }
            } else {
                fail
            },
            Stage::ClearFork { commit, synthetic } => {
                let (c, n) = pair(commit, synthetic);
                Stage::CloneFork { commit: c, synthetic: n }
            },
            Stage::CloneFork { commit, synthetic } => if ok {
                let (c, n) = pair(commit, synthetic);
                Stage::SetHead { commit: c, synthetic: n }
            } else {
                fail
            },
            Stage::SetHead { commit, synthetic } => if ok {
                let (c, n) = pair(commit, synthetic);
                Stage::MakeMaster { commit: c, synthetic: n }
            } else {
                fail
            },
            Stage::MakeMaster { commit, synthetic } => if ok {
                let (c, n) = pair(commit, synthetic);
                Stage::Done { commit: c, synthetic: n }
            } else {
                fail
            },
            Stage::Prefetched => Stage::Prefetched,
            Stage::Done { commit, synthetic } => {
                let (c, n) = pair(commit, synthetic);
                Stage::Done { commit: c, synthetic: n }
            },
            Stage::Failed { error } => Stage::Failed { error: *error },
        };
        self.stage = next;
    }

    /// Whether the protocol has ended, in success or failure.
    pub fn is_finished(&self) -> (r: bool)
        ensures
            r == (step_for(self.source_repo@, self.fork_parent@, self.cutoff@, self.stage@) is None),
    {
        match &self.stage {
            Stage::Prefetched => true,
            Stage::Done { .. } => true,
            Stage::Failed { .. } => true,
            _ => false,
        }
    }

    /// The error the protocol ended with, if it failed.
    pub fn error(&self) -> (r: Option<SnapshotError>)
        ensures
            match r {
                Some(e) => self.stage@ == StageView::Failed(e),
                None => !(self.stage@ is Failed),
            },
    {
        match &self.stage {
            Stage::Failed { error } => Some(*error),
            _ => None,
        }
    }

    /// The snapshot that was made, once the protocol has completed.
    pub fn snapshot(&self) -> (r: Option<RegistrySnapshot>)
        ensures
            match r {
                Some(s) => self.stage@ == StageView::Done(s.cutoff_commit@, s.synthetic_commit@)
                    && s.source_repo@ == self.source_repo@ && s.fork_name@ == fork_name(
                    s.cutoff_commit@,
                ) && s.fork_repo@ == fork_path(self.fork_parent@, s.cutoff_commit@),
                None => !(self.stage@ is Done),
            },
    {
        match &self.stage {
            Stage::Done { commit, synthetic } => Some(
                RegistrySnapshot {
                    source_repo: self.source_repo.clone(),
                    cutoff_commit: commit.clone(),
                    synthetic_commit: synthetic.clone(),
                    fork_name: fork_name_of(commit.as_str()),
                    fork_repo: fork_path_of(self.fork_parent.as_str(), commit.as_str()),
                },
            ),
            _ => None,
        }
    }
}

/// Two runs that find the same cutoff commit build their synthetic commit from the
/// same tree, and expose, clone and fix up the fork under the same names and paths,
/// whatever synthetic commit ids they were handed; the ids are all that may differ.
pub proof fn lemma_same_commit_same_fork(
    source: Seq<char>,
    parent: Seq<char>,
    cutoff: Seq<char>,
    prefetch_only: bool,
    found: Seq<char>,
    made1: Seq<char>,
    made2: Seq<char>,
)
    requires
        trimmed(found).len() > 0,
    ensures
        ({
            let c = trimmed(found);
            let s = next_stage(StageView::FindCommit, prefetch_only, true, found);
            &&& s == StageView::MakeCommit(c)
            &&& step_for(source, parent, cutoff, s) == Some(
                StepView::Git(
                    Some(source),
                    seq!["commit-tree"@, c + "^{tree}"@, "-m"@, "Registry at "@ + cutoff],
                ),
            )
            &&& next_stage(s, prefetch_only, true, made1) == StageView::CreateBranch(
                c,
                trimmed(made1),
            )
            &&& step_for(source, parent, cutoff, StageView::ClearFork(c, trimmed(made1)))
                == step_for(source, parent, cutoff, StageView::ClearFork(c, trimmed(made2)))
            &&& step_for(source, parent, cutoff, StageView::CloneFork(c, trimmed(made1)))
                == step_for(source, parent, cutoff, StageView::CloneFork(c, trimmed(made2)))
        }),
{
}

} // verus!
