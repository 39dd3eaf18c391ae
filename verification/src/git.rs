//! Git bookkeeping of a writing run: which git commands to run, in which
//! order, and what their outcomes mean.  Each operation is a small state
//! machine: it names the next command to run, or its answer.
use vstd::prelude::*;
use vstd::string::StringExecFns;

use crate::text::{chars_of, owned_strings, push_str, string_of, trim, trim_chars};

verus! {

/// What a commit is about.
#[derive(Debug, Clone, Copy, PartialEq, Eq, Structural)]
pub enum CommitType {
    Code,
    Script,
    Config,
    Skill,
}

pub open spec fn commit_type_name(t: CommitType) -> Seq<char> {
    match t {
        CommitType::Code => "code"@,
        CommitType::Script => "script"@,
        CommitType::Config => "config"@,
        CommitType::Skill => "skill"@,
    }
}

impl CommitType {
    pub fn as_str(&self) -> (r: &'static str)
        ensures
            r@ == commit_type_name(*self),
    {
        match self {
            CommitType::Code => "code",
            CommitType::Script => "script",
            CommitType::Config => "config",
            CommitType::Skill => "skill",
        }
    }
}

/// How a git command ended: whether it could be started, whether it
/// succeeded, and what it wrote to standard output.
#[derive(Debug)]
pub struct CommandOutput {
    pub launched: bool,
    pub success: bool,
    pub stdout: String,
}

/// A git command that could not be started.
#[derive(Debug, Clone, Copy, PartialEq, Eq, Structural)]
pub enum GitError {
    AddFailed,
    StatusFailed,
    CommitFailed,
    InitFailed,
    PushFailed,
    TagFailed,
}

pub open spec fn git_error_text(e: GitError) -> Seq<char> {
    match e {
        GitError::AddFailed => "git add 失败"@,
        GitError::StatusFailed => "git status 失败"@,
        GitError::CommitFailed => "git commit 失败"@,
        GitError::InitFailed => "git init 失败"@,
        GitError::PushFailed => "git push 失败"@,
        GitError::TagFailed => "git tag 失败"@,
    }
}

impl GitError {
    /// The error's message.
    pub fn message(&self) -> (r: &'static str)
        ensures
            r@ == git_error_text(*self),
    {
        match self {
            GitError::AddFailed => "git add 失败",
            GitError::StatusFailed => "git status 失败",
            GitError::CommitFailed => "git commit 失败",
            GitError::InitFailed => "git init 失败",
            GitError::PushFailed => "git push 失败",
            GitError::TagFailed => "git tag 失败",
        }
    }
}

/// The answer of a git operation.
#[derive(Debug)]
pub enum GitAnswer {
    Flag(bool),
    Unit,
    Hash(Option<String>),
    Failed(GitError),
}

/// A git answer as plain values.
pub enum AnswerView {
    Flag(bool),
    Unit,
    Hash(Option<Seq<char>>),
    Failed(GitError),
}

pub open spec fn answer_view(a: GitAnswer) -> AnswerView {
    match a {
        GitAnswer::Flag(b) => AnswerView::Flag(b),
        GitAnswer::Unit => AnswerView::Unit,
        GitAnswer::Hash(Some(h)) => AnswerView::Hash(Some(h@)),
        GitAnswer::Hash(None) => AnswerView::Hash(None),
        GitAnswer::Failed(e) => AnswerView::Failed(e),
    }
}

/// The next thing to do: run git with these arguments, or stop with the
/// answer.
#[derive(Debug)]
pub enum GitStep {
    Run(Vec<String>),
    Done(GitAnswer),
}

/// The git operations.
#[derive(Debug, Clone, Copy, PartialEq, Eq, Structural)]
pub enum GitOp {
    Probe,
    EnsureRepo,
    Commit,
    CurrentCommit,
    Push,
    Tag,
}

/// The git commands the operations run.
#[derive(Debug, Clone, Copy, PartialEq, Eq, Structural)]
pub enum GitCmd {
    Probe,
    Add,
    Status,
    Commit,
    Init,
    Head,
    Push,
    Tag,
}

/// What an operation does after the command of stage `stage` ended with
/// `out` (ignored at stage 0): its next stage, and the command to run next
/// or its answer.  Stage 9 means done.
pub open spec fn git_next(op: GitOp, stage: u8, enabled: bool, out: CommandOutput) -> (u8, Option<GitCmd>, AnswerView) {
    let ok = out.launched && out.success;
    let none = AnswerView::Unit;
    if stage == 0 {
        if !enabled {
            (9, None, match op {
                GitOp::EnsureRepo | GitOp::Tag => AnswerView::Unit,
                GitOp::CurrentCommit => AnswerView::Hash(None),
                _ => AnswerView::Flag(false),
            })
        } else if op == GitOp::Push {
            (1, Some(GitCmd::Push), none)
        } else {
            (1, Some(GitCmd::Probe), none)
        }
    } else if stage == 1 {
        match op {
            GitOp::Probe => (9, None, AnswerView::Flag(ok)),
            GitOp::EnsureRepo => if ok { (9, None, AnswerView::Unit) } else { (2, Some(GitCmd::Init), none) },
            GitOp::Commit => if ok { (2, Some(GitCmd::Add), none) } else { (9, None, AnswerView::Flag(false)) },
            GitOp::CurrentCommit => if ok { (2, Some(GitCmd::Head), none) } else { (9, None, AnswerView::Hash(None)) },
            GitOp::Push => if out.launched {
                (9, None, AnswerView::Flag(out.success))
            } else {
                (9, None, AnswerView::Failed(GitError::PushFailed))
            },
            GitOp::Tag => if ok { (2, Some(GitCmd::Tag), none) } else { (9, None, AnswerView::Unit) },
        }
    } else if stage == 2 {
        match op {
            GitOp::EnsureRepo => if out.launched {
                (9, None, AnswerView::Unit)
            } else {
                (9, None, AnswerView::Failed(GitError::InitFailed))
            },
            GitOp::Commit => if !out.launched {
                (9, None, AnswerView::Failed(GitError::AddFailed))
            } else if !out.success {
                (9, None, AnswerView::Flag(false))
            } else {
                (3, Some(GitCmd::Status), none)
            },
            GitOp::CurrentCommit => (9, None, AnswerView::Hash(if ok { Some(trim(out.stdout@)) } else { None })),
            GitOp::Tag => if out.launched {
                (9, None, AnswerView::Unit)
            } else {
                (9, None, AnswerView::Failed(GitError::TagFailed))
            },
            _ => (9, None, AnswerView::Flag(false)),
        }
    } else if stage == 3 && op == GitOp::Commit {
        if !out.launched {
            (9, None, AnswerView::Failed(GitError::StatusFailed))
        } else if trim(out.stdout@).len() == 0 {
            (9, None, AnswerView::Flag(false))
        } else {
            (4, Some(GitCmd::Commit), none)
        }
    } else if stage == 4 && op == GitOp::Commit {
        if out.launched {
            (9, None, AnswerView::Flag(out.success))
        } else {
            (9, None, AnswerView::Failed(GitError::CommitFailed))
        }
    } else {
        (9, None, AnswerView::Flag(false))
    }
}

/// The arguments of `git add` for a commit scope: the script outputs, the
/// code, or everything.
pub open spec fn add_args_for(scope: Seq<char>) -> Seq<Seq<char>> {
    if scope == "script"@ {
        seq!["add"@, "output/"@]
    } else if scope == "code"@ {
        seq!["add"@, "src/"@, "Cargo.toml"@, "Cargo.lock"@, "config.toml"@, "skills/"@]
    } else {
        seq!["add"@, "-A"@]
    }
}

/// A running git operation.
pub struct GitRun {
    pub op: GitOp,
    pub stage: u8,
    pub enabled: bool,
    pub add_args: Vec<String>,
    pub message: String,
    pub tag: String,
}

impl GitRun {
    /// The arguments of a command of this run.
    pub open spec fn cmd_args(&self, c: GitCmd) -> Seq<Seq<char>> {
        match c {
            GitCmd::Probe => seq!["rev-parse"@, "--is-inside-work-tree"@],
            GitCmd::Add => self.add_args@.map_values(|t: String| t@),
            GitCmd::Status => seq!["status"@, "--porcelain"@],
            GitCmd::Commit => seq!["commit"@, "-m"@, self.message@],
            GitCmd::Init => seq!["init"@],
            GitCmd::Head => seq!["rev-parse"@, "--short"@, "HEAD"@],
            GitCmd::Push => seq!["push"@],
            GitCmd::Tag => seq!["tag"@, "-a"@, self.tag@, "-m"@, self.message@],
        }
    }

    fn args_of(&self, c: GitCmd) -> (r: Vec<String>)
        ensures
            r@.map_values(|t: String| t@) == self.cmd_args(c),
    {
        match c {
            GitCmd::Probe => {
                let v = vec!["rev-parse", "--is-inside-work-tree"];
                proof { assert(v@.map_values(|t: &str| t@) =~= self.cmd_args(c)); }
                owned_strings(&v)
            },
            GitCmd::Add => {
                let mut r: Vec<String> = Vec::new();
                let mut k: usize = 0;
                while k < self.add_args.len()
                    invariant
                        k <= self.add_args.len(),
                        r@.map_values(|t: String| t@) == self.add_args@.take(k as int).map_values(|t: String| t@),
                    decreases self.add_args.len() - k,
                {
                    let ghost r0 = r@;
                    let c = self.add_args[k].clone();
                    r.push(c);
                    proof {
                        assert(r@.map_values(|t: String| t@) =~= r0.map_values(|t: String| t@).push(self.add_args@[k as int]@));
                        assert(self.add_args@.take(k + 1) =~= self.add_args@.take(k as int).push(self.add_args@[k as int]));
                        assert(r@.map_values(|t: String| t@) =~= self.add_args@.take(k + 1).map_values(|t: String| t@));
                    }
                    k += 1;
                }
                proof { assert(self.add_args@.take(self.add_args.len() as int) =~= self.add_args@); }
                r
            },
            GitCmd::Status => {
                let v = vec!["status", "--porcelain"];
                proof { assert(v@.map_values(|t: &str| t@) =~= self.cmd_args(c)); }
                owned_strings(&v)
            },
            GitCmd::Commit => {
                let v = vec!["commit", "-m"];
                let mut r = owned_strings(&v);
                let ghost r0 = r@;
                r.push(self.message.clone());
                proof {
                    assert(v@.map_values(|t: &str| t@) =~= seq!["commit"@, "-m"@]);
                    assert(r@.map_values(|t: String| t@) =~= r0.map_values(|t: String| t@).push(self.message@));
                    assert(r@.map_values(|t: String| t@) =~= self.cmd_args(c));
                }
                r
            },
            GitCmd::Init => {
                let v = vec!["init"];
                proof { assert(v@.map_values(|t: &str| t@) =~= self.cmd_args(c)); }
                owned_strings(&v)
            },
            GitCmd::Head => {
                let v = vec!["rev-parse", "--short", "HEAD"];
                proof { assert(v@.map_values(|t: &str| t@) =~= self.cmd_args(c)); }
                owned_strings(&v)
            },
            GitCmd::Push => {
                let v = vec!["push"];
                proof { assert(v@.map_values(|t: &str| t@) =~= self.cmd_args(c)); }
                owned_strings(&v)
            },
            GitCmd::Tag => {
                let mut r: Vec<String> = Vec::new();
                r.push(String::from_str("tag"));
                r.push(String::from_str("-a"));
                r.push(self.tag.clone());
                r.push(String::from_str("-m"));
                r.push(self.message.clone());
                proof { assert(r@.map_values(|t: String| t@) =~= self.cmd_args(c)); }
                r
            },
        }
    }

    /// Takes the outcome of the last command (ignored before the first) and
    /// says what comes next.
    pub fn next(&mut self, out: &CommandOutput) -> (r: GitStep)
        ensures
            ({
                let (stage, cmd, answer) = git_next(old(self).op, old(self).stage, old(self).enabled, *out);
                &&& final(self).stage == stage
                &&& final(self).op == old(self).op
                &&& final(self).enabled == old(self).enabled
                &&& final(self).add_args == old(self).add_args
                &&& final(self).message == old(self).message
                &&& final(self).tag == old(self).tag
                &&& match cmd {
                    Some(c) => r matches GitStep::Run(args) && args@.map_values(|t: String| t@) == old(self).cmd_args(c),
                    None => r matches GitStep::Done(a) && answer_view(a) == answer,
                }
            }),
    {
        let ok = out.launched && out.success;
        let op = self.op;
        if self.stage == 0 {
            if !self.enabled {
                self.stage = 9;
                return GitStep::Done(match op {
                    GitOp::EnsureRepo | GitOp::Tag => GitAnswer::Unit,
                    GitOp::CurrentCommit => GitAnswer::Hash(None),
                    _ => GitAnswer::Flag(false),
                });
            }
            self.stage = 1;
            if op == GitOp::Push {
                GitStep::Run(self.args_of(GitCmd::Push))
            } else {
                GitStep::Run(self.args_of(GitCmd::Probe))
            }
        } else if self.stage == 1 {
            match op {
                GitOp::Probe => {
                    self.stage = 9;
                    GitStep::Done(GitAnswer::Flag(ok))
                },
                GitOp::EnsureRepo => if ok {
                    self.stage = 9;
                    GitStep::Done(GitAnswer::Unit)
                } else {
                    self.stage = 2;
                    GitStep::Run(self.args_of(GitCmd::Init))
                },
                GitOp::Commit => if ok {
                    self.stage = 2;
                    GitStep::Run(self.args_of(GitCmd::Add))
                } else {
                    self.stage = 9;
                    GitStep::Done(GitAnswer::Flag(false))
                },
                GitOp::CurrentCommit => if ok {
                    self.stage = 2;
                    GitStep::Run(self.args_of(GitCmd::Head))
                } else {
                    self.stage = 9;
                    GitStep::Done(GitAnswer::Hash(None))
                },
                GitOp::Push => {
                    self.stage = 9;
                    if out.launched {
                        GitStep::Done(GitAnswer::Flag(out.success))
                    } else {
                        GitStep::Done(GitAnswer::Failed(GitError::PushFailed))
                    }
                },
                GitOp::Tag => if ok {
                    self.stage = 2;
                    GitStep::Run(self.args_of(GitCmd::Tag))
                } else {
                    self.stage = 9;
                    GitStep::Done(GitAnswer::Unit)
                },
            }
        } else if self.stage == 2 {
            self.stage = 9;
            match op {
                GitOp::EnsureRepo => if out.launched {
                    GitStep::Done(GitAnswer::Unit)
                } else {
                    GitStep::Done(GitAnswer::Failed(GitError::InitFailed))
                },
                GitOp::Commit => if !out.launched {
                    GitStep::Done(GitAnswer::Failed(GitError::AddFailed))
                } else if !out.success {
                    GitStep::Done(GitAnswer::Flag(false))
                } else {
                    self.stage = 3;
                    GitStep::Run(self.args_of(GitCmd::Status))
                },
                GitOp::CurrentCommit => if ok {
                    let cs = chars_of(out.stdout.as_str());
                    let t = trim_chars(cs.as_slice());
                    GitStep::Done(GitAnswer::Hash(Some(string_of(t.as_slice()))))
                } else {
                    GitStep::Done(GitAnswer::Hash(None))
                },
                GitOp::Tag => if out.launched {
                    GitStep::Done(GitAnswer::Unit)
                } else {
                    GitStep::Done(GitAnswer::Failed(GitError::TagFailed))
                },
                _ => GitStep::Done(GitAnswer::Flag(false)),
            }
        } else if self.stage == 3 && op == GitOp::Commit {
            if !out.launched {
                self.stage = 9;
                return GitStep::Done(GitAnswer::Failed(GitError::StatusFailed));
            }
            let cs = chars_of(out.stdout.as_str());
            let t = trim_chars(cs.as_slice());
            if t.len() == 0 {
                self.stage = 9;
                GitStep::Done(GitAnswer::Flag(false))
            } else {
                self.stage = 4;
                GitStep::Run(self.args_of(GitCmd::Commit))
            }
        } else if self.stage == 4 && op == GitOp::Commit {
            self.stage = 9;
            if out.launched {
                GitStep::Done(GitAnswer::Flag(out.success))
            } else {
                GitStep::Done(GitAnswer::Failed(GitError::CommitFailed))
            }
        } else {
            self.stage = 9;
            GitStep::Done(GitAnswer::Flag(false))
        }
    }
}

/// The git bookkeeping of a project directory.
pub struct GitManager {
    pub project_dir: String,
    pub commit_prefix: String,
    pub enabled: bool,
    pub script_output_dir: String,
}

impl GitManager {
    /// A manager for `project_dir`, its scripts under `output`.
    pub fn new(project_dir: &str, commit_prefix: &str, enabled: bool) -> (r: GitManager)
        ensures
            r.project_dir@ == project_dir@,
            r.commit_prefix@ == commit_prefix@,
            r.enabled == enabled,
            r.script_output_dir@ == "output"@,
    {
        GitManager {
            project_dir: String::from_str(project_dir),
            commit_prefix: String::from_str(commit_prefix),
            enabled,
            script_output_dir: String::from_str("output"),
        }
    }

    /// The same manager with its scripts under `dir`.
    pub fn with_script_dir(self, dir: &str) -> (r: GitManager)
        ensures
            r.project_dir == self.project_dir,
            r.commit_prefix == self.commit_prefix,
            r.enabled == self.enabled,
            r.script_output_dir@ == dir@,
    {
        let mut m = self;
        m.script_output_dir = String::from_str(dir);
        m
    }

    /// A run of `op` with no command arguments of its own.
    pub open spec fn plain_run(&self, r: GitRun, op: GitOp) -> bool {
        &&& r.op == op
        &&& r.stage == 0
        &&& r.enabled == self.enabled
    }

    fn start(&self, op: GitOp, add_args: Vec<String>, message: String, tag: String) -> (r: GitRun)
        ensures
            self.plain_run(r, op),
            r.add_args == add_args,
            r.message == message,
            r.tag == tag,
    {
        GitRun { op, stage: 0, enabled: self.enabled, add_args, message, tag }
    }

    /// Whether the project directory is inside a git work tree (never when
    /// git is disabled).
    pub fn is_git_repo(&self) -> (r: GitRun)
        ensures
            self.plain_run(r, GitOp::Probe),
    {
        self.start(GitOp::Probe, Vec::new(), String::new(), String::new())
    }

    /// Makes the project directory a git repository when it is not one.
    pub fn ensure_repo(&self) -> (r: GitRun)
        ensures
            self.plain_run(r, GitOp::EnsureRepo),
    {
        self.start(GitOp::EnsureRepo, Vec::new(), String::new(), String::new())
    }

    /// Commits the changes of `scope` (`script`: the outputs; `code`: the
    /// code; anything else: everything) with the prefixed message, when
    /// there is something to commit; the answer says whether it committed.
    pub fn commit_with_scope(&self, message: &str, scope: &str) -> (r: GitRun)
        ensures
            self.plain_run(r, GitOp::Commit),
            r.add_args@.map_values(|t: String| t@) == add_args_for(scope@),
            r.message@ == self.commit_prefix@ + " "@ + message@,
    {
        let mut full: Vec<char> = Vec::new();
        push_str(&mut full, self.commit_prefix.as_str());
        push_str(&mut full, " ");
        push_str(&mut full, message);
        let v = if crate::text::str_eq(scope, "script") {
            vec!["add", "output/"]
        } else if crate::text::str_eq(scope, "code") {
            vec!["add", "src/", "Cargo.toml", "Cargo.lock", "config.toml", "skills/"]
        } else {
            vec!["add", "-A"]
        };
        proof {
            assert(v@.map_values(|t: &str| t@) =~= add_args_for(scope@));
        }
        let add_args = owned_strings(&v);
        self.start(GitOp::Commit, add_args, string_of(full.as_slice()), String::new())
    }

    /// Commits every change with the prefixed message.
    pub fn auto_commit(&self, message: &str) -> (r: GitRun)
        ensures
            self.plain_run(r, GitOp::Commit),
            r.add_args@.map_values(|t: String| t@) == add_args_for("all"@),
            r.message@ == self.commit_prefix@ + " "@ + message@,
    {
        self.commit_with_scope(message, "all")
    }

    /// The short hash of the current commit, if any.
    pub fn current_commit(&self) -> (r: GitRun)
        ensures
            self.plain_run(r, GitOp::CurrentCommit),
    {
        self.start(GitOp::CurrentCommit, Vec::new(), String::new(), String::new())
    }

    /// Pushes to the remote; the answer says whether it succeeded.
    pub fn push(&self) -> (r: GitRun)
        ensures
            self.plain_run(r, GitOp::Push),
    {
        self.start(GitOp::Push, Vec::new(), String::new(), String::new())
    }

    /// Tags the current commit with an annotated tag.
    pub fn tag_commit(&self, tag: &str, message: &str) -> (r: GitRun)
        ensures
            self.plain_run(r, GitOp::Tag),
            r.tag@ == tag@,
            r.message@ == message@,
    {
        self.start(GitOp::Tag, Vec::new(), String::from_str(message), String::from_str(tag))
    }
}

} // verus!
