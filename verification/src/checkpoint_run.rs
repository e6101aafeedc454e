//! The run that creates a checkpoint commit. It asks for one git command at a time, the
//! caller runs it and hands back what it gave, and the run decides what comes next:
//! status, submodule checks, `git add`, `git commit` (both retried on a locked index),
//! `git rev-parse HEAD`, and the push to `origin` when one is configured.
use vstd::prelude::*;

use crate::checkpoint::{
    build_checkpoint_message, build_checkpoint_subject, checkpoint_commit_paths,
    checkpoint_id_from, checkpoint_id_of, checkpoint_message, checkpoint_subject, commit_paths,
    first_id, given_label, gitlink_outcome, index_lock_retry, is_gitlink_path, lock_retry_decision, opt_view,
    relevant_status, retry_delay, CommandOutcome, LockRetry,
};
use crate::ordered::{chars_vecs, string_views, to_strings};
use crate::text::{append_str, chars_of, ends_with, lines, starts_with, string_from, trim, trim_chars};

verus! {

broadcast use vstd::string::group_string_axioms;

/// The record of a checkpoint commit.
#[derive(Clone, Debug)]
pub struct CheckpointMetadata {
    pub checkpoint_id: String,
    pub commit_hash: String,
    pub commit_subject: String,
    pub push_status: String,
}

/// A git command that the run asks for, run in the workspace.
#[derive(Clone, Debug)]
pub enum GitRequest {
    /// `git status --porcelain --untracked-files=all`
    Status,
    /// `git ls-files --stage -- <path>`
    StageOf(String),
    /// `git add -A -- <pathspecs>`
    Add(Vec<String>),
    /// `git commit -m <message> -- <pathspecs>`
    Commit(String, Vec<String>),
    /// `git rev-parse HEAD`
    RevParseHead,
    /// `git remote get-url origin`
    RemoteUrl,
    /// `git push origin HEAD --quiet`
    PushHead,
}

/// What the caller does next for the run.
#[derive(Debug)]
pub enum CheckpointAction {
    /// Runs the command and hands back what it gave.
    Run(GitRequest),
    /// Waits this many milliseconds, then runs the command and hands back what it gave.
    SleepThenRun(u64, GitRequest),
    /// The run is over: no checkpoint was needed, one was made, or the error.
    Finish(Result<Option<CheckpointMetadata>, String>),
}

/// Where a run stands: which command's answer it waits for.
#[derive(Clone, Copy, Debug, PartialEq, Eq, Structural)]
pub enum CheckpointStage {
    Status,
    KnowledgeGitlink,
    MemoryGitlink,
    Add(usize),
    Commit(usize),
    RevParse,
    Remote,
    Push,
    Done,
}

/// A checkpoint run: where it stands and what it has settled so far.
pub struct CheckpointRun {
    pub stage: CheckpointStage,
    pub checkpoint_id: String,
    pub subject: String,
    pub message: String,
    pub knowledge_gitlink: bool,
    pub pathspecs: Vec<String>,
    pub commit_hash: String,
}

/// The time and identity of a checkpoint about to be made.
#[derive(Clone, Debug)]
pub struct CheckpointStamp {
    /// UTC time as `%Y-%m-%dT%H:%M:%SZ`.
    pub timestamp: String,
    /// Local time as `%H:%M:%S`.
    pub local_time: String,
    /// The checkpoint's id.
    pub checkpoint_id: String,
}

/// `chrono::Utc::now().format(pattern).to_string()`: the current UTC time rendered by one
/// of the patterns this library uses. Nothing is stated of the text: it depends on the clock.
#[verifier::external_body]
fn format_utc_now(pattern: &str) -> (res: String)
    requires
        pattern@ == "%Y%m%d%H%M%S"@ || pattern@ == "%Y-%m-%dT%H:%M:%SZ"@,
{
    chrono::Utc::now().format(pattern).to_string()
}

/// `chrono::Local::now().format(pattern).to_string()`: the current local time rendered by
/// one of the patterns this library uses. Nothing is stated of the text: it depends on
/// the clock and the machine's time zone.
#[verifier::external_body]
pub(crate) fn format_local_now(pattern: &str) -> (res: String)
    requires
        pattern@ == "%H:%M:%S"@ || pattern@ == "%Y-%m-%d %H:%M"@,
{
    chrono::Local::now().format(pattern).to_string()
}

/// Is `c` a lowercase hexadecimal digit?
pub open spec fn is_lower_hex(c: char) -> bool {
    ('0' <= c && c <= '9') || ('a' <= c && c <= 'f')
}

/// `uuid::Uuid::new_v4().simple().to_string()`: a random UUID in its simple form, which the
/// crate writes as 32 lowercase hexadecimal digits.
#[verifier::external_body]
pub(crate) fn new_uuid_simple() -> (res: String)
    ensures
        res@.len() == 32,
        forall|i: int| 0 <= i < 32 ==> is_lower_hex(#[trigger] res@[i]),
{
    uuid::Uuid::new_v4().simple().to_string()
}

/// A fresh checkpoint id: `cp_`, the compact UTC time and eight hexadecimal digits of a
/// random UUID.
pub fn generate_checkpoint_id() -> (res: String)
    ensures
        exists|ts: Seq<char>, uuid: Seq<char>|
            uuid.len() == 32 && #[trigger] checkpoint_id_of(ts, uuid) == res@,
{
    proof {
        reveal_strlit("%Y%m%d%H%M%S");
    }
    let ts = format_utc_now("%Y%m%d%H%M%S");
    let uuid = new_uuid_simple();
    let id = checkpoint_id_from(ts.as_str(), uuid.as_str());
    assert(checkpoint_id_of(ts@, uuid@) == id@);
    id
}

/// A fresh rollback event id: `rb_`, the compact UTC time and eight hexadecimal digits of
/// a random UUID.
pub fn generate_rollback_event_id() -> (res: String)
    ensures
        exists|ts: Seq<char>, uuid: Seq<char>|
            uuid.len() == 32 && #[trigger] crate::checkpoint::rollback_event_id_of(ts, uuid) == res@,
{
    proof {
        reveal_strlit("%Y%m%d%H%M%S");
    }
    let ts = format_utc_now("%Y%m%d%H%M%S");
    let uuid = new_uuid_simple();
    let id = crate::checkpoint::rollback_event_id_from(ts.as_str(), uuid.as_str());
    assert(crate::checkpoint::rollback_event_id_of(ts@, uuid@) == id@);
    id
}

impl CheckpointStamp {
    /// The stamp of a checkpoint made now.
    pub fn now() -> (res: CheckpointStamp)
        ensures
            exists|ts: Seq<char>, uuid: Seq<char>|
                uuid.len() == 32 && #[trigger] checkpoint_id_of(ts, uuid) == res.checkpoint_id@,
    {
        proof {
            reveal_strlit("%Y-%m-%dT%H:%M:%SZ");
            reveal_strlit("%H:%M:%S");
        }
        let timestamp = format_utc_now("%Y-%m-%dT%H:%M:%SZ");
        let local_time = format_local_now("%H:%M:%S");
        let checkpoint_id = generate_checkpoint_id();
        CheckpointStamp { timestamp, local_time, checkpoint_id }
    }
}

/// Is `a` a request to run exactly `req`, a request without arguments?
pub open spec fn runs_plain(a: CheckpointAction, req: GitRequest) -> bool {
    a matches CheckpointAction::Run(r) && r == req
}

/// Is `a` a request to list the index entry of `path`?
pub open spec fn runs_stage_of(a: CheckpointAction, path: Seq<char>) -> bool {
    a matches CheckpointAction::Run(GitRequest::StageOf(p)) && p@ == path
}

/// Is `r` a `git add` of the pathspecs `specs`?
pub open spec fn is_add(r: GitRequest, specs: Seq<Seq<char>>) -> bool {
    r matches GitRequest::Add(p) && string_views(p@) == specs
}

/// Is `r` a `git commit` of `message` over the pathspecs `specs`?
pub open spec fn is_commit(r: GitRequest, message: Seq<char>, specs: Seq<Seq<char>>) -> bool {
    r matches GitRequest::Commit(m, p) && m@ == message && string_views(p@) == specs
}

/// Does `a` end the run with the error `msg`?
pub open spec fn finishes_with_error(a: CheckpointAction, msg: Seq<char>) -> bool {
    a matches CheckpointAction::Finish(Err(m)) && m@ == msg
}

/// Does `a` end the run with the checkpoint that `run` made and the push status `push`?
pub open spec fn finishes_with_checkpoint(a: CheckpointAction, run: CheckpointRun, push: Seq<char>) -> bool {
    &&& a matches CheckpointAction::Finish(Ok(Some(m)))
    &&& m.checkpoint_id@ == run.checkpoint_id@
    &&& m.commit_hash@ == run.commit_hash@
    &&& m.commit_subject@ == run.subject@
    &&& m.push_status@ == push
}

/// The names and plans of a run stay as they were.
pub open spec fn same_plan(a: CheckpointRun, b: CheckpointRun) -> bool {
    &&& a.checkpoint_id@ == b.checkpoint_id@
    &&& a.subject@ == b.subject@
    &&& a.message@ == b.message@
}

/// One step of a checkpoint run: from `before`, given what the requested command gave,
/// to `after` and the next action.
pub open spec fn checkpoint_step(
    before: CheckpointRun,
    after: CheckpointRun,
    o: CommandOutcome,
    a: CheckpointAction,
) -> bool {
    match before.stage {
        CheckpointStage::Status => match o {
            CommandOutcome::SpawnFailed(e) => after.stage == CheckpointStage::Done
                && finishes_with_error(a, "执行 git status 失败: "@ + e@),
            CommandOutcome::Exited { stdout, .. } => if trim(relevant_status(stdout@)).len() == 0 {
                after.stage == CheckpointStage::Done && a matches CheckpointAction::Finish(Ok(None))
            } else {
                after.stage == CheckpointStage::KnowledgeGitlink && runs_stage_of(
                    a,
                    ".cunzhi-knowledge"@,
                )
            },
        },
        CheckpointStage::KnowledgeGitlink => {
            &&& after.stage == CheckpointStage::MemoryGitlink
            &&& after.knowledge_gitlink == gitlink_outcome(o)
            &&& runs_stage_of(a, ".cunzhi-memory"@)
        },
        CheckpointStage::MemoryGitlink => {
            &&& after.stage == CheckpointStage::Add(0)
            &&& string_views(after.pathspecs@) == commit_paths(
                before.knowledge_gitlink,
                gitlink_outcome(o),
            )
            &&& a matches CheckpointAction::Run(r) && is_add(r, string_views(after.pathspecs@))
        },
        CheckpointStage::Add(k) => {
            &&& string_views(after.pathspecs@) == string_views(before.pathspecs@)
            &&& match a {
                CheckpointAction::Run(r) => after.stage == CheckpointStage::Commit(0) && is_commit(
                    r,
                    before.message@,
                    string_views(before.pathspecs@),
                ),
                CheckpointAction::SleepThenRun(d, r) => after.stage == CheckpointStage::Add(
                    (k + 1) as usize,
                ) && is_add(r, string_views(before.pathspecs@)),
                CheckpointAction::Finish(_) => after.stage == CheckpointStage::Done,
            }
            &&& locked_step_outcome(o, a, "git add"@, "git add 失败: "@, k as nat)
        },
        CheckpointStage::Commit(k) => {
            &&& string_views(after.pathspecs@) == string_views(before.pathspecs@)
            &&& match a {
                CheckpointAction::Run(r) => after.stage == CheckpointStage::RevParse && r
                    == GitRequest::RevParseHead,
                CheckpointAction::SleepThenRun(d, r) => after.stage == CheckpointStage::Commit(
                    (k + 1) as usize,
                ) && is_commit(r, before.message@, string_views(before.pathspecs@)),
                CheckpointAction::Finish(_) => after.stage == CheckpointStage::Done,
            }
            &&& locked_step_outcome(o, a, "git commit"@, "git commit 失败: "@, k as nat)
        },
        CheckpointStage::RevParse => match o {
            CommandOutcome::SpawnFailed(e) => after.stage == CheckpointStage::Done
                && finishes_with_error(a, "执行 git rev-parse 失败: "@ + e@),
            CommandOutcome::Exited { success, stdout, stderr } => if success {
                &&& after.stage == CheckpointStage::Remote
                &&& after.commit_hash@ == trim(stdout@)
                &&& runs_plain(a, GitRequest::RemoteUrl)
            } else {
                after.stage == CheckpointStage::Done && finishes_with_error(
                    a,
                    "git rev-parse 失败: "@ + trim(stderr@),
                )
            },
        },
        CheckpointStage::Remote => match o {
            CommandOutcome::SpawnFailed(_) => after.stage == CheckpointStage::Done
                && finishes_with_checkpoint(a, before, "push_check_failed"@),
            CommandOutcome::Exited { success, .. } => if success {
                after.stage == CheckpointStage::Push && runs_plain(a, GitRequest::PushHead)
            } else {
                after.stage == CheckpointStage::Done && finishes_with_checkpoint(
                    a,
                    before,
                    "not_configured"@,
                )
            },
        },
        CheckpointStage::Push => after.stage == CheckpointStage::Done && finishes_with_checkpoint(
            a,
            before,
            if o matches CommandOutcome::Exited { success: true, .. } {
                "pushed"@
            } else {
                "push_failed"@
            },
        ),
        CheckpointStage::Done => false,
    }
}

/// What the answer of `git add` or `git commit` on attempt `k` leads to, as far as the
/// action goes: a start failure or a failure other than a lock ends the run with its
/// error, a lock is retried after the attempt's delay and reported once none is left.
pub open spec fn locked_step_outcome(
    o: CommandOutcome,
    a: CheckpointAction,
    action: Seq<char>,
    failure: Seq<char>,
    k: nat,
) -> bool {
    match o {
        CommandOutcome::SpawnFailed(e) => finishes_with_error(a, "执行 "@ + action + " 失败: "@ + e@),
        CommandOutcome::Exited { success, stderr, .. } => if success {
            a is Run
        } else if !crate::checkpoint::lock_error(stderr@) {
            finishes_with_error(a, failure + trim(stderr@))
        } else {
            match retry_delay(k) {
                Some(d) => a matches CheckpointAction::SleepThenRun(dd, _) && dd == d,
                None => finishes_with_error(
                    a,
                    crate::checkpoint::lock_failure_message(action, stderr@),
                ),
            }
        },
    }
}

/// Whether the command ran and exited successfully.
fn exited_successfully(outcome: &CommandOutcome) -> (res: bool)
    ensures
        res == (outcome matches CommandOutcome::Exited { success: true, .. }),
{
    match outcome {
        CommandOutcome::Exited { success, .. } => *success,
        CommandOutcome::SpawnFailed(_) => false,
    }
}

/// `prefix` and the trimmed error output of a command that ran.
fn failure_with_stderr(prefix: &str, outcome: &CommandOutcome) -> (res: String)
    ensures
        outcome matches CommandOutcome::Exited { stderr, .. } ==> res@ == prefix@ + trim(stderr@),
{
    let mut m = chars_of(prefix);
    match outcome {
        CommandOutcome::Exited { stderr, .. } => {
            let t = trim_chars(&chars_of(stderr.as_str()));
            crate::text::append_chars(&mut m, &t);
        },
        CommandOutcome::SpawnFailed(_) => {},
    }
    string_from(&m)
}

/// A copy of a list of strings.
fn copy_strings(v: &Vec<String>) -> (res: Vec<String>)
    ensures
        string_views(res@) == string_views(v@),
{
    to_strings(&chars_vecs(v))
}

/// A copy of a string.
fn copy_string(s: &String) -> (res: String)
    ensures
        res@ == s@,
{
    string_from(&chars_of(s.as_str()))
}

impl CheckpointRun {
    /// Starts a run in a workspace that has (or lacks) a `.git` directory, with an optional
    /// label for the subject, the request the checkpoint belongs to, and its stamp.
    pub fn start(
        has_git_dir: bool,
        subject_label: Option<&str>,
        request_id: Option<&str>,
        stamp: &CheckpointStamp,
    ) -> (res: (CheckpointRun, CheckpointAction))
        ensures
            !has_git_dir ==> res.0.stage == CheckpointStage::Done && res.1 matches CheckpointAction::Finish(
                Ok(None),
            ),
            has_git_dir ==> {
                &&& res.0.stage == CheckpointStage::Status
                &&& runs_plain(res.1, GitRequest::Status)
                &&& res.0.checkpoint_id@ == stamp.checkpoint_id@
                &&& res.0.subject@ == checkpoint_subject(
                    stamp.timestamp@,
                    opt_view(subject_label),
                    stamp.local_time@,
                )
                &&& res.0.message@ == checkpoint_message(
                    res.0.subject@,
                    stamp.checkpoint_id@,
                    opt_view(request_id),
                )
                &&& res.0.pathspecs@.len() == 0
                &&& res.0.commit_hash@.len() == 0
            },
    {
        let subject = build_checkpoint_subject(
            stamp.timestamp.as_str(),
            subject_label,
            stamp.local_time.as_str(),
        );
        let message = build_checkpoint_message(
            subject.as_str(),
            stamp.checkpoint_id.as_str(),
            request_id,
        );
        let run = CheckpointRun {
            stage: if has_git_dir {
                CheckpointStage::Status
            } else {
                CheckpointStage::Done
            },
            checkpoint_id: copy_string(&stamp.checkpoint_id),
            subject,
            message,
            knowledge_gitlink: false,
            pathspecs: Vec::new(),
            commit_hash: String::new(),
        };
        if has_git_dir {
            (run, CheckpointAction::Run(GitRequest::Status))
        } else {
            (run, CheckpointAction::Finish(Ok(None)))
        }
    }

    /// The checkpoint that this run made, with its push status.
    fn made(&self, push_status: &str) -> (res: CheckpointAction)
        ensures
            finishes_with_checkpoint(res, *self, push_status@),
    {
        CheckpointAction::Finish(
            Ok(
                Some(
                    CheckpointMetadata {
                        checkpoint_id: copy_string(&self.checkpoint_id),
                        commit_hash: copy_string(&self.commit_hash),
                        commit_subject: copy_string(&self.subject),
                        push_status: string_from(&chars_of(push_status)),
                    },
                ),
            ),
        )
    }

    /// Takes what the requested command gave and decides what comes next.
    pub fn step(&mut self, outcome: &CommandOutcome) -> (res: CheckpointAction)
        requires
            old(self).stage != CheckpointStage::Done,
        ensures
            checkpoint_step(*old(self), *final(self), *outcome, res),
            same_plan(*old(self), *final(self)),
            final(self).knowledge_gitlink == (if old(self).stage == CheckpointStage::KnowledgeGitlink {
                gitlink_outcome(*outcome)
            } else {
                old(self).knowledge_gitlink
            }),
            old(self).stage != CheckpointStage::RevParse ==> final(self).commit_hash@ == old(
                self,
            ).commit_hash@,
            old(self).stage != CheckpointStage::MemoryGitlink ==> string_views(
                final(self).pathspecs@,
            ) == string_views(old(self).pathspecs@),
    {
        match self.stage {
            CheckpointStage::Status => match outcome {
                CommandOutcome::SpawnFailed(e) => {
                    self.stage = CheckpointStage::Done;
                    let mut m = chars_of("执行 git status 失败: ");
                    append_str(&mut m, e.as_str());
                    CheckpointAction::Finish(Err(string_from(&m)))
                },
                CommandOutcome::Exited { stdout, .. } => {
                    let filtered = crate::checkpoint::filter_checkpoint_relevant_status(
                        stdout.as_str(),
                    );
                    if trim_chars(&chars_of(filtered.as_str())).len() == 0 {
                        self.stage = CheckpointStage::Done;
                        CheckpointAction::Finish(Ok(None))
                    } else {
                        self.stage = CheckpointStage::KnowledgeGitlink;
                        CheckpointAction::Run(
                            GitRequest::StageOf(string_from(&chars_of(".cunzhi-knowledge"))),
                        )
                    }
                },
            },
            CheckpointStage::KnowledgeGitlink => {
                self.knowledge_gitlink = is_gitlink_path(outcome);
                self.stage = CheckpointStage::MemoryGitlink;
                CheckpointAction::Run(GitRequest::StageOf(string_from(&chars_of(".cunzhi-memory"))))
            },
            CheckpointStage::MemoryGitlink => {
                let memory_gitlink = is_gitlink_path(outcome);
                self.pathspecs = checkpoint_commit_paths(self.knowledge_gitlink, memory_gitlink);
                self.stage = CheckpointStage::Add(0);
                CheckpointAction::Run(GitRequest::Add(copy_strings(&self.pathspecs)))
            },
            CheckpointStage::Add(k) => {
                proof {
                    reveal_strlit("git add");
                }
                match index_lock_retry("git add", k, outcome) {
                    LockRetry::Fail(m) => {
                        self.stage = CheckpointStage::Done;
                        CheckpointAction::Finish(Err(m))
                    },
                    LockRetry::RetryAfter(d) => {
                        self.stage = CheckpointStage::Add(k + 1);
                        CheckpointAction::SleepThenRun(
                            d,
                            GitRequest::Add(copy_strings(&self.pathspecs)),
                        )
                    },
                    LockRetry::Accept => {
                        if exited_successfully(outcome) {
                            self.stage = CheckpointStage::Commit(0);
                            CheckpointAction::Run(
                                GitRequest::Commit(
                                    copy_string(&self.message),
                                    copy_strings(&self.pathspecs),
                                ),
                            )
                        } else {
                            self.stage = CheckpointStage::Done;
                            CheckpointAction::Finish(Err(failure_with_stderr("git add 失败: ", outcome)))
                        }
                    },
                }
            },
            CheckpointStage::Commit(k) => {
                proof {
                    reveal_strlit("git commit");
                }
                match index_lock_retry("git commit", k, outcome) {
                    LockRetry::Fail(m) => {
                        self.stage = CheckpointStage::Done;
                        CheckpointAction::Finish(Err(m))
                    },
                    LockRetry::RetryAfter(d) => {
                        self.stage = CheckpointStage::Commit(k + 1);
                        CheckpointAction::SleepThenRun(
                            d,
                            GitRequest::Commit(
                                copy_string(&self.message),
                                copy_strings(&self.pathspecs),
                            ),
                        )
                    },
                    LockRetry::Accept => {
                        if exited_successfully(outcome) {
                            self.stage = CheckpointStage::RevParse;
                            CheckpointAction::Run(GitRequest::RevParseHead)
                        } else {
                            self.stage = CheckpointStage::Done;
                            CheckpointAction::Finish(
                                Err(failure_with_stderr("git commit 失败: ", outcome)),
                            )
                        }
                    },
                }
            },
            CheckpointStage::RevParse => match outcome {
                CommandOutcome::SpawnFailed(e) => {
                    self.stage = CheckpointStage::Done;
                    let mut m = chars_of("执行 git rev-parse 失败: ");
                    append_str(&mut m, e.as_str());
                    CheckpointAction::Finish(Err(string_from(&m)))
                },
                CommandOutcome::Exited { success, stdout, .. } => {
                    if *success {
                        self.commit_hash = string_from(&trim_chars(&chars_of(stdout.as_str())));
                        self.stage = CheckpointStage::Remote;
                        CheckpointAction::Run(GitRequest::RemoteUrl)
                    } else {
                        self.stage = CheckpointStage::Done;
                        CheckpointAction::Finish(
                            Err(failure_with_stderr("git rev-parse 失败: ", outcome)),
                        )
                    }
                },
            },
            CheckpointStage::Remote => match outcome {
                CommandOutcome::SpawnFailed(_) => {
                    self.stage = CheckpointStage::Done;
                    self.made("push_check_failed")
                },
                CommandOutcome::Exited { success, .. } => {
                    if *success {
                        self.stage = CheckpointStage::Push;
                        CheckpointAction::Run(GitRequest::PushHead)
                    } else {
                        self.stage = CheckpointStage::Done;
                        self.made("not_configured")
                    }
                },
            },
            CheckpointStage::Push => {
                self.stage = CheckpointStage::Done;
                match outcome {
                    CommandOutcome::Exited { success: true, .. } => self.made("pushed"),
                    _ => self.made("push_failed"),
                }
            },
            CheckpointStage::Done => CheckpointAction::Finish(Ok(None)),
        }
    }
}

/// Starts a run that creates an automatic checkpoint: the subject carries "自动检查点" and
/// the local time.
pub fn auto_create_checkpoint(has_git_dir: bool, request_id: Option<&str>, stamp: &CheckpointStamp) -> (res: (
    CheckpointRun,
    CheckpointAction,
))
    ensures
        !has_git_dir ==> res.0.stage == CheckpointStage::Done && res.1 matches CheckpointAction::Finish(
            Ok(None),
        ),
        has_git_dir ==> auto_started(res.0, res.1, opt_view(request_id), *stamp),
{
    CheckpointRun::start(has_git_dir, None, request_id, stamp)
}

/// Starts a run that creates a checkpoint under a label of the caller's.
pub fn create_named_checkpoint(
    has_git_dir: bool,
    label: &str,
    request_id: Option<&str>,
    stamp: &CheckpointStamp,
) -> (res: (CheckpointRun, CheckpointAction))
    ensures
        !has_git_dir ==> res.0.stage == CheckpointStage::Done && res.1 matches CheckpointAction::Finish(
            Ok(None),
        ),
        has_git_dir ==> {
            &&& res.0.stage == CheckpointStage::Status
            &&& runs_plain(res.1, GitRequest::Status)
            &&& res.0.checkpoint_id@ == stamp.checkpoint_id@
            &&& res.0.subject@ == checkpoint_subject(
                stamp.timestamp@,
                Some(label@),
                stamp.local_time@,
            )
            &&& res.0.message@ == checkpoint_message(
                res.0.subject@,
                stamp.checkpoint_id@,
                opt_view(request_id),
            )
            &&& res.0.pathspecs@.len() == 0
        },
{
    CheckpointRun::start(has_git_dir, Some(label), request_id, stamp)
}


/// A run as `auto_create_checkpoint` starts it in a workspace with a `.git` directory: it
/// waits for `git status`, and its subject and message are those of an automatic checkpoint
/// made with `stamp` for the request `request_id`.
pub open spec fn auto_started(
    run: CheckpointRun,
    a: CheckpointAction,
    request_id: Option<Seq<char>>,
    stamp: CheckpointStamp,
) -> bool {
    &&& run.stage == CheckpointStage::Status
    &&& runs_plain(a, GitRequest::Status)
    &&& run.checkpoint_id@ == stamp.checkpoint_id@
    &&& run.subject@ == checkpoint_subject(stamp.timestamp@, None, stamp.local_time@)
    &&& run.message@ == checkpoint_message(run.subject@, stamp.checkpoint_id@, request_id)
    &&& run.pathspecs@.len() == 0
}

/// How far a run has come. No step takes a run back.
pub open spec fn stage_rank(s: CheckpointStage) -> nat {
    match s {
        CheckpointStage::Status => 0,
        CheckpointStage::KnowledgeGitlink => 1,
        CheckpointStage::MemoryGitlink => 2,
        CheckpointStage::Add(_) => 3,
        CheckpointStage::Commit(_) => 4,
        CheckpointStage::RevParse => 5,
        CheckpointStage::Remote => 6,
        CheckpointStage::Push => 7,
        CheckpointStage::Done => 8,
    }
}

/// Step `i` of a driven run: the answer `outcomes[i]` to `actions[i]` took `runs[i]`, which
/// was not over, to `runs[i + 1]` and the next action `actions[i + 1]`.
pub open spec fn step_at(
    runs: Seq<CheckpointRun>,
    outcomes: Seq<CommandOutcome>,
    actions: Seq<CheckpointAction>,
    i: int,
) -> bool {
    &&& runs[i].stage != CheckpointStage::Done
    &&& checkpoint_step(runs[i], runs[i + 1], outcomes[i], actions[i + 1])
    &&& same_plan(runs[i], runs[i + 1])
}

/// `runs`, `outcomes` and `actions` are a run driven step by step through
/// `CheckpointRun::step`: `actions[0]` is what the start asked for, and each answer
/// `outcomes[i]` leads from `runs[i]` to `runs[i + 1]` and `actions[i + 1]`.
pub open spec fn driven_run(
    runs: Seq<CheckpointRun>,
    outcomes: Seq<CommandOutcome>,
    actions: Seq<CheckpointAction>,
) -> bool {
    &&& runs.len() == outcomes.len() + 1
    &&& actions.len() == runs.len()
    &&& forall|i: int| 0 <= i < outcomes.len() ==> #[trigger] step_at(runs, outcomes, actions, i)
}

/// The command that an action asks for, if it asks for one.
pub open spec fn requested(a: CheckpointAction) -> Option<GitRequest> {
    match a {
        CheckpointAction::Run(r) => Some(r),
        CheckpointAction::SleepThenRun(_, r) => Some(r),
        CheckpointAction::Finish(_) => None,
    }
}

/// Does `a` ask for a `git add` or a `git commit`?
pub open spec fn stages_or_commits(a: CheckpointAction) -> bool {
    ||| requested(a) matches Some(GitRequest::Add(_))
    ||| requested(a) matches Some(GitRequest::Commit(_, _))
}

/// If `a` asks for a `git commit`, its message is `message`.
pub open spec fn commits_with(a: CheckpointAction, message: Seq<char>) -> bool {
    requested(a) matches Some(GitRequest::Commit(m, _)) ==> m@ == message
}

/// At step `i` the run's `git commit` went through.
pub open spec fn committed_at(runs: Seq<CheckpointRun>, outcomes: Seq<CommandOutcome>, i: int) -> bool {
    &&& runs[i].stage is Commit
    &&& outcomes[i] matches CommandOutcome::Exited { success: true, .. }
}

/// The stamp's times and id are each one line, and the id is trimmed and not empty, as
/// `CheckpointStamp::now` makes them.
pub open spec fn one_line_stamp(stamp: CheckpointStamp) -> bool {
    &&& forall|i: int|
        0 <= i < stamp.timestamp@.len() ==> stamp.timestamp@[i] != '\n' && stamp.timestamp@[i]
            != '\r'
    &&& forall|i: int|
        0 <= i < stamp.local_time@.len() ==> stamp.local_time@[i] != '\n' && stamp.local_time@[i]
            != '\r'
    &&& forall|i: int| 0 <= i < stamp.checkpoint_id@.len() ==> stamp.checkpoint_id@[i] != '\n'
    &&& stamp.checkpoint_id@.len() > 0
    &&& trim(stamp.checkpoint_id@) == stamp.checkpoint_id@
}

/// Trimming the end of a text that starts with a visible character leaves that character.
proof fn lemma_trim_end_keeps_first(s: Seq<char>)
    requires
        s.len() > 0,
        !crate::text::is_ws(s[0]),
    ensures
        crate::text::trim_end(s).len() > 0,
    decreases s.len(),
{
    if crate::text::is_ws(s.last()) {
        lemma_trim_end_keeps_first(s.drop_last());
    }
}

/// One step never takes a run back.
proof fn lemma_step_rank(before: CheckpointRun, after: CheckpointRun, o: CommandOutcome, a: CheckpointAction)
    requires
        checkpoint_step(before, after, o, a),
    ensures
        stage_rank(before.stage) <= stage_rank(after.stage),
        stage_rank(before.stage) < 5 <= stage_rank(after.stage) && after.stage != CheckpointStage::Done
            ==> before.stage is Commit && o matches CommandOutcome::Exited { success: true, .. },
        o matches CommandOutcome::Exited { success: true, .. } && before.stage is Commit
            ==> after.stage == CheckpointStage::RevParse,
        a matches CheckpointAction::Finish(Ok(Some(_))) ==> before.stage == CheckpointStage::Remote
            || before.stage == CheckpointStage::Push,
        commits_with(a, before.message@),
{
}

/// Along a driven run the plan stays the run's first, and no stage comes back.
proof fn lemma_driven_prefix(
    runs: Seq<CheckpointRun>,
    outcomes: Seq<CommandOutcome>,
    actions: Seq<CheckpointAction>,
    i: int,
    j: int,
)
    requires
        driven_run(runs, outcomes, actions),
        0 <= i <= j < runs.len(),
    ensures
        same_plan(runs[i], runs[j]),
        stage_rank(runs[i].stage) <= stage_rank(runs[j].stage),
    decreases j - i,
{
    if i < j {
        lemma_driven_prefix(runs, outcomes, actions, i, j - 1);
        assert(step_at(runs, outcomes, actions, j - 1));
        lemma_step_rank(runs[j - 1], runs[j], outcomes[j - 1], actions[j]);
    }
}

/// A driven run that got past `git commit` by step `j` committed at some earlier step.
proof fn lemma_commit_before(
    runs: Seq<CheckpointRun>,
    outcomes: Seq<CommandOutcome>,
    actions: Seq<CheckpointAction>,
    j: int,
)
    requires
        driven_run(runs, outcomes, actions),
        0 <= j < outcomes.len(),
        stage_rank(runs[0].stage) < 5 <= stage_rank(runs[j].stage),
    ensures
        exists|i: int| 0 <= i < j && committed_at(runs, outcomes, i),
    decreases j,
{
    assert(step_at(runs, outcomes, actions, j));
    assert(j > 0);
    assert(step_at(runs, outcomes, actions, j - 1));
    lemma_step_rank(runs[j - 1], runs[j], outcomes[j - 1], actions[j]);
    if stage_rank(runs[j - 1].stage) >= 5 {
        lemma_commit_before(runs, outcomes, actions, j - 1);
        let i = choose|i: int| 0 <= i < j - 1 && committed_at(runs, outcomes, i);
        assert(0 <= i < j && committed_at(runs, outcomes, i));
    } else {
        assert(committed_at(runs, outcomes, j - 1));
    }
}

/// An automatic checkpoint run, driven to its end in a workspace whose status showed
/// changes, that reports a checkpoint made exactly one commit: its `git commit` went
/// through at one step and at no other. The checkpoint's subject is the automatic
/// subject, which starts with `iterate-checkpoint:`, and its id is the stamp's. Every
/// `git commit` the run asks for carries the message of that subject: after a blank line
/// the line `checkpoint_id: <id>`, and, when the request id is not blank, a last line
/// `turn_id: <request id, trimmed>`; reading that message gives back the id.
pub proof fn law_auto_checkpoint_run(
    request_id: Option<Seq<char>>,
    stamp: CheckpointStamp,
    runs: Seq<CheckpointRun>,
    outcomes: Seq<CommandOutcome>,
    actions: Seq<CheckpointAction>,
)
    requires
        driven_run(runs, outcomes, actions),
        auto_started(runs[0], actions[0], request_id, stamp),
    ensures
        ({
            let subject = checkpoint_subject(stamp.timestamp@, None, stamp.local_time@);
            let message = checkpoint_message(subject, stamp.checkpoint_id@, request_id);
            &&& starts_with(subject, "iterate-checkpoint:"@)
            &&& message.skip(subject.len() + 2int).take(15 + stamp.checkpoint_id@.len() as int)
                == "checkpoint_id: "@ + stamp.checkpoint_id@
            &&& message.take(subject.len() + 2int) == subject + "\n\n"@
            &&& (given_label(request_id) matches Some(r) ==> ends_with(
                message,
                "\nturn_id: "@ + trim(request_id.unwrap()),
            ))
            &&& (given_label(request_id) is None ==> ends_with(
                message,
                "checkpoint_id: "@ + stamp.checkpoint_id@,
            ))
            &&& (one_line_stamp(stamp) ==> first_id(lines(message)) == Some(stamp.checkpoint_id@))
            &&& forall|i: int| 0 <= i < actions.len() ==> #[trigger] commits_with(actions[i], message)
            &&& (actions.last() matches CheckpointAction::Finish(Ok(Some(m))) ==> {
                &&& m.commit_subject@ == subject
                &&& m.checkpoint_id@ == stamp.checkpoint_id@
                &&& exists|i: int| 0 <= i < outcomes.len() && committed_at(runs, outcomes, i)
                &&& forall|i: int, j: int|
                    0 <= i < outcomes.len() && 0 <= j < outcomes.len() && committed_at(
                        runs,
                        outcomes,
                        i,
                    ) && committed_at(runs, outcomes, j) ==> i == j
            })
        }),
{
    reveal_strlit("iterate-checkpoint:");
    reveal_strlit("\n\n");
    reveal_strlit("checkpoint_id: ");
    reveal_strlit("\nturn_id: ");
    reveal_strlit(" | ");
    let subject = checkpoint_subject(stamp.timestamp@, None, stamp.local_time@);
    let message = checkpoint_message(subject, stamp.checkpoint_id@, request_id);
    let idl = "checkpoint_id: "@ + stamp.checkpoint_id@;
    let tail = match given_label(request_id) {
        Some(r) => "\nturn_id: "@ + r,
        None => seq![],
    };
    assert(message =~= subject + "\n\n"@ + idl + tail);
    assert(subject.take(19) =~= "iterate-checkpoint:"@);
    assert(message.take(subject.len() + 2int) =~= subject + "\n\n"@);
    assert(message.skip(subject.len() + 2int).take(idl.len() as int) =~= idl);
    match given_label(request_id) {
        Some(r) => {
            assert(message.skip(message.len() - tail.len()) =~= tail);
        },
        None => {
            assert(message.skip(message.len() - idl.len()) =~= idl);
        },
    }
    if one_line_stamp(stamp) {
        assert forall|i: int| 0 <= i < subject.len() implies subject[i] != '\n' by {
            let a = "iterate-checkpoint:"@ + stamp.timestamp@ + " | "@;
            let b = "自动检查点 "@;
            reveal_strlit("自动检查点 ");
            assert(subject =~= a + (b + stamp.local_time@));
            if i >= a.len() + b.len() {
                assert(subject[i] == stamp.local_time@[i - a.len() - b.len()]);
            } else if i >= 19 && i < 19 + stamp.timestamp@.len() {
                assert(subject[i] == stamp.timestamp@[i - 19]);
            }
        }
        assert(crate::text::strip_cr(subject) == subject) by {
            reveal_strlit("自动检查点 ");
            if stamp.local_time@.len() > 0 {
                assert(subject.last() == stamp.local_time@.last());
            } else {
                assert(subject.last() == ' ');
            }
        }
        assert(crate::checkpoint::id_of_line(subject) is None) by {
            reveal_strlit("checkpoint_id:");
            crate::text::lemma_trim_start_suffix(subject);
            assert(subject[0] == 'i');
            assert(crate::text::trim_start(subject) == subject);
            crate::text::lemma_trim_end_prefix(subject);
            lemma_trim_end_keeps_first(subject);
            let t = trim(subject);
            assert(t.len() > 0);
            assert(t[0] == 'i');
            if t.len() >= 14 {
                assert(t.take(14)[0] == 'i');
                assert("checkpoint_id:"@[0] == 'c');
            }
            assert(!starts_with(t, "checkpoint_id:"@));
        }
        crate::checkpoint::law_checkpoint_id_round_trip(subject, stamp.checkpoint_id@, request_id);
    }
    assert forall|i: int| 0 <= i < actions.len() implies #[trigger] commits_with(actions[i], message) by {
        if i > 0 {
            assert(step_at(runs, outcomes, actions, i - 1));
            lemma_step_rank(runs[i - 1], runs[i], outcomes[i - 1], actions[i]);
            lemma_driven_prefix(runs, outcomes, actions, 0, i - 1);
        }
    }
    let n = outcomes.len() as int;
    if actions.last() matches CheckpointAction::Finish(Ok(Some(m))) {
        assert(n > 0);
        assert(step_at(runs, outcomes, actions, n - 1));
        lemma_step_rank(runs[n - 1], runs[n], outcomes[n - 1], actions[n]);
        lemma_driven_prefix(runs, outcomes, actions, 0, n - 1);
        lemma_commit_before(runs, outcomes, actions, n - 1);
        assert forall|i: int, j: int|
            0 <= i < outcomes.len() && 0 <= j < outcomes.len() && committed_at(runs, outcomes, i)
                && committed_at(runs, outcomes, j) implies i == j by {
            if i < j {
                assert(step_at(runs, outcomes, actions, i));
                lemma_step_rank(runs[i], runs[i + 1], outcomes[i], actions[i + 1]);
                lemma_driven_prefix(runs, outcomes, actions, i + 1, j);
            } else if j < i {
                assert(step_at(runs, outcomes, actions, j));
                lemma_step_rank(runs[j], runs[j + 1], outcomes[j], actions[j + 1]);
                lemma_driven_prefix(runs, outcomes, actions, j + 1, i);
            }
        }
    }
}

/// A run whose `git status` shows no change outside the ignored entries ends at that
/// answer with no checkpoint, and asks for no `git add` or `git commit`: so a second
/// automatic checkpoint right after one that committed everything makes none.
pub proof fn law_clean_status_makes_no_checkpoint(
    runs: Seq<CheckpointRun>,
    outcomes: Seq<CommandOutcome>,
    actions: Seq<CheckpointAction>,
)
    requires
        driven_run(runs, outcomes, actions),
        runs[0].stage == CheckpointStage::Status,
        runs_plain(actions[0], GitRequest::Status),
        outcomes.len() > 0,
        outcomes[0] matches CommandOutcome::Exited { stdout, .. } && trim(relevant_status(stdout@)).len() == 0,
    ensures
        outcomes.len() == 1,
        actions[1] matches CheckpointAction::Finish(Ok(None)),
        forall|i: int| 0 <= i < actions.len() ==> !stages_or_commits(#[trigger] actions[i]),
{
    assert(step_at(runs, outcomes, actions, 0));
    if outcomes.len() > 1 {
        assert(step_at(runs, outcomes, actions, 1));
    }
    assert forall|i: int| 0 <= i < actions.len() implies !stages_or_commits(#[trigger] actions[i]) by {
        if i == 1 {
        }
    }
}

} // verus!
