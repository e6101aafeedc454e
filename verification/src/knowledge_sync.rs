//! Synchronising the `.cunzhi-knowledge` repository. The run asks for one git command at a
//! time; the caller runs it in the knowledge directory and hands back what it gave. It
//! checks for local changes, commits them before a push, fetches and pulls, pushes, and
//! reports each step in a line.
use vstd::prelude::*;

use crate::checkpoint::CommandOutcome;
use crate::checkpoint_run::format_local_now;
use crate::ordered::string_views;
use crate::text::{
    append_chars, append_str, chars_eq_str, chars_of, contains, contains_str, join, join_chars,
    string_from, trim, trim_chars,
};

verus! {

broadcast use vstd::string::group_string_axioms;

/// A git command of a synchronisation.
#[derive(Clone, Debug)]
pub enum SyncCommand {
    /// `git status --porcelain`
    Status,
    /// `git add -A`
    AddAll,
    /// `git commit -m <message> --quiet --no-verify`
    Commit(String),
    /// `git fetch --quiet`
    Fetch,
    /// `git pull --no-rebase --quiet`
    Pull,
    /// `git push --quiet`
    Push,
}

/// What the caller does next.
#[derive(Debug)]
pub enum SyncAction {
    /// Runs the command in the knowledge directory and hands back what it gave.
    Run(SyncCommand),
    /// The synchronisation is over: its report, or the error that stopped it.
    Finish(Result<String, String>),
}

/// Which command's answer a run waits for.
#[derive(Clone, Copy, Debug, PartialEq, Eq, Structural)]
pub enum SyncStage {
    Status,
    AddAll,
    Commit,
    Fetch,
    Pull,
    Push,
    Done,
}

/// A synchronisation: where it stands, what it does, and the lines reported so far.
pub struct KnowledgeSync {
    pub stage: SyncStage,
    pub pull: bool,
    pub push: bool,
    pub knowledge_dir: String,
    pub results: Vec<String>,
}

/// The report of a synchronisation of a directory.
pub open spec fn sync_report(dir: Seq<char>, results: Seq<Seq<char>>) -> Seq<char> {
    "## 🔄 知识库同步\n\n目录: `"@ + dir + "`\n\n"@ + join(results, "\n"@)
}

/// The report when there is no knowledge directory.
pub open spec fn no_knowledge_dir() -> Seq<char> {
    "⚠️ 未找到 .cunzhi-knowledge 目录，无法同步"@
}

/// Whether a command ran and succeeded.
pub open spec fn succeeded(outcome: CommandOutcome) -> bool {
    outcome matches CommandOutcome::Exited { success, .. } && success
}

/// The line that a pull reports: up to date, updated, a merge conflict, or a failure.
pub open spec fn pull_line(stdout: Seq<char>, stderr: Seq<char>, success: bool) -> Seq<char> {
    if success {
        if contains(stdout, "Already up to date"@) || trim(stdout).len() == 0 {
            "✅ Already up to date"@
        } else {
            "✅ 已拉取最新更新"@
        }
    } else if contains(stderr, "CONFLICT"@) || contains(stderr, "conflict"@) {
        "⚠️ Merge 冲突，需要手动解决: "@ + trim(stderr)
    } else {
        "⚠️ git pull 失败: "@ + trim(stderr)
    }
}

/// The line that a push reports.
pub open spec fn push_line(stderr: Seq<char>, success: bool) -> Seq<char> {
    if success {
        "🚀 已推送到 GitHub"@
    } else {
        "⚠️ git push 失败: "@ + trim(stderr)
    }
}

/// Where a run goes once its local changes are settled: fetch when it pulls, else what
/// comes after the pull.
pub open spec fn after_local(s: KnowledgeSync, results: Seq<Seq<char>>, next: KnowledgeSync, action: SyncAction) -> bool {
    if s.pull {
        next.stage == SyncStage::Fetch && action matches SyncAction::Run(SyncCommand::Fetch)
    } else {
        after_pull(s, results, next, action)
    }
}

/// Where a run goes once its pull is settled: push when it pushes, else it finishes.
pub open spec fn after_pull(s: KnowledgeSync, results: Seq<Seq<char>>, next: KnowledgeSync, action: SyncAction) -> bool {
    if s.push {
        next.stage == SyncStage::Push && action matches SyncAction::Run(SyncCommand::Push)
    } else {
        next.stage == SyncStage::Done && (action matches SyncAction::Finish(Ok(r)) && r@
            == sync_report(s.knowledge_dir@, results))
    }
}

/// One step of a run: from `s`, given what the requested command gave, to `next` (whose
/// reported lines are `string_views(next.results@)`), with `action` to take.
pub open spec fn sync_step(s: KnowledgeSync, outcome: CommandOutcome, next: KnowledgeSync, action: SyncAction) -> bool {
    let r = string_views(s.results@);
    let r2 = string_views(next.results@);
    match s.stage {
        SyncStage::Status => match outcome {
            CommandOutcome::SpawnFailed(e) => next.stage == SyncStage::Done && (action matches SyncAction::Finish(Err(m)) && m@ == "git status 失败: "@ + e@),
            CommandOutcome::Exited { stdout, .. } => if trim(stdout@).len() > 0 && s.push {
                r2 == r && next.stage == SyncStage::AddAll && action matches SyncAction::Run(SyncCommand::AddAll)
            } else if trim(stdout@).len() > 0 {
                r2 == r && after_local(s, r2, next, action)
            } else {
                r2 == r.push("✅ 本地无变更"@) && after_local(s, r2, next, action)
            },
        },
        SyncStage::AddAll => r2 == r && next.stage == SyncStage::Commit && (action matches SyncAction::Run(SyncCommand::Commit(m)) && crate::text::starts_with(m@, "sync: "@)),
        SyncStage::Commit => r2 == (if succeeded(outcome) {
            r.push("✅ 本地变更已提交"@)
        } else {
            r
        }) && after_local(s, r2, next, action),
        SyncStage::Fetch => r2 == (if succeeded(outcome) {
            r.push("✅ Fetched from origin"@)
        } else {
            r
        }) && next.stage == SyncStage::Pull && action matches SyncAction::Run(SyncCommand::Pull),
        SyncStage::Pull => match outcome {
            CommandOutcome::SpawnFailed(e) => next.stage == SyncStage::Done && (action matches SyncAction::Finish(Err(m)) && m@ == "git pull 失败: "@ + e@),
            CommandOutcome::Exited { success, stdout, stderr } => r2 == r.push(pull_line(stdout@, stderr@, success)) && after_pull(s, r2, next, action),
        },
        SyncStage::Push => match outcome {
            CommandOutcome::SpawnFailed(e) => next.stage == SyncStage::Done && (action matches SyncAction::Finish(Err(m)) && m@ == "git push 失败: "@ + e@),
            CommandOutcome::Exited { success, stderr, .. } => r2 == r.push(push_line(stderr@, success)) && next.stage == SyncStage::Done && (action matches SyncAction::Finish(Ok(t)) && t@ == sync_report(s.knowledge_dir@, r2)),
        },
        SyncStage::Done => false,
    }
}

fn push_text(results: &mut Vec<String>, text: Vec<char>)
    ensures
        string_views(final(results)@) == string_views(old(results)@).push(text@),
{
    let ghost before = string_views(results@);
    let s = string_from(&text);
    results.push(s);
    assert(string_views(results@) =~= before.push(text@));
}

impl KnowledgeSync {
    fn report(&self) -> (res: String)
        ensures
            res@ == sync_report(self.knowledge_dir@, string_views(self.results@)),
    {
        let mut out = chars_of("## 🔄 知识库同步\n\n目录: `");
        append_str(&mut out, self.knowledge_dir.as_str());
        append_str(&mut out, "`\n\n");
        let rs = crate::ordered::chars_vecs(&self.results);
        append_chars(&mut out, &join_chars(&rs, "\n"));
        string_from(&out)
    }

    fn after_pull_action(&mut self) -> (res: SyncAction)
        ensures
            final(self).pull == old(self).pull,
            final(self).push == old(self).push,
            final(self).knowledge_dir == old(self).knowledge_dir,
            final(self).results == old(self).results,
            after_pull(*old(self), string_views(old(self).results@), *final(self), res),
    {
        if self.push {
            self.stage = SyncStage::Push;
            SyncAction::Run(SyncCommand::Push)
        } else {
            self.stage = SyncStage::Done;
            SyncAction::Finish(Ok(self.report()))
        }
    }

    fn after_local_action(&mut self) -> (res: SyncAction)
        ensures
            final(self).pull == old(self).pull,
            final(self).push == old(self).push,
            final(self).knowledge_dir == old(self).knowledge_dir,
            final(self).results == old(self).results,
            after_local(*old(self), string_views(old(self).results@), *final(self), res),
    {
        if self.pull {
            self.stage = SyncStage::Fetch;
            SyncAction::Run(SyncCommand::Fetch)
        } else {
            self.after_pull_action()
        }
    }

    /// Starts a synchronisation of the knowledge directory (none found: the run ends at
    /// once with a notice) in a direction: `pull` (the default), `push`, or `both`.
    pub fn start(knowledge_dir: Option<&str>, direction: Option<&str>) -> (res: (KnowledgeSync, SyncAction))
        ensures
            match knowledge_dir {
                None => res.0.stage == SyncStage::Done && (res.1 matches SyncAction::Finish(Ok(t)) && t@ == no_knowledge_dir()),
                Some(d) => {
                    let dir = match direction {
                        Some(x) => x@,
                        None => "pull"@,
                    };
                    &&& res.0.stage == SyncStage::Status
                    &&& res.0.knowledge_dir@ == d@
                    &&& res.0.results@.len() == 0
                    &&& res.0.pull == (dir == "pull"@ || dir == "both"@)
                    &&& res.0.push == (dir == "push"@ || dir == "both"@)
                    &&& res.1 matches SyncAction::Run(SyncCommand::Status)
                },
            },
    {
        let d = match direction {
            Some(x) => chars_of(x),
            None => chars_of("pull"),
        };
        let pull = chars_eq_str(&d, "pull") || chars_eq_str(&d, "both");
        let push = chars_eq_str(&d, "push") || chars_eq_str(&d, "both");
        match knowledge_dir {
            None => (
                KnowledgeSync {
                    stage: SyncStage::Done,
                    pull,
                    push,
                    knowledge_dir: string_from(&Vec::new()),
                    results: Vec::new(),
                },
                SyncAction::Finish(Ok(string_from(&chars_of("⚠️ 未找到 .cunzhi-knowledge 目录，无法同步")))),
            ),
            Some(dir) => (
                KnowledgeSync {
                    stage: SyncStage::Status,
                    pull,
                    push,
                    knowledge_dir: string_from(&chars_of(dir)),
                    results: Vec::new(),
                },
                SyncAction::Run(SyncCommand::Status),
            ),
        }
    }

    /// Takes what the requested command gave and decides what comes next.
    pub fn step(&mut self, outcome: &CommandOutcome) -> (res: SyncAction)
        requires
            old(self).stage != SyncStage::Done,
        ensures
            sync_step(*old(self), *outcome, *final(self), res),
            final(self).pull == old(self).pull,
            final(self).push == old(self).push,
            final(self).knowledge_dir == old(self).knowledge_dir,
    {
        match self.stage {
            SyncStage::Status => match outcome {
                CommandOutcome::SpawnFailed(e) => {
                    self.stage = SyncStage::Done;
                    let mut m = chars_of("git status 失败: ");
                    append_str(&mut m, e.as_str());
                    SyncAction::Finish(Err(string_from(&m)))
                },
                CommandOutcome::Exited { stdout, .. } => {
                    let changed = trim_chars(&chars_of(stdout.as_str())).len() > 0;
                    if changed && self.push {
                        self.stage = SyncStage::AddAll;
                        SyncAction::Run(SyncCommand::AddAll)
                    } else if changed {
                        self.after_local_action()
                    } else {
                        push_text(&mut self.results, chars_of("✅ 本地无变更"));
                        self.after_local_action()
                    }
                },
            },
            SyncStage::AddAll => {
                self.stage = SyncStage::Commit;
                let mut m = chars_of("sync: ");
                proof {
                    reveal_strlit("sync: ");
                }
                let t = format_local_now("%Y-%m-%d %H:%M");
                append_str(&mut m, t.as_str());
                assert(m@.take(6) =~= "sync: "@);
                SyncAction::Run(SyncCommand::Commit(string_from(&m)))
            },
            SyncStage::Commit => {
                let ok = match outcome {
                    CommandOutcome::Exited { success, .. } => *success,
                    CommandOutcome::SpawnFailed(_) => false,
                };
                if ok {
                    push_text(&mut self.results, chars_of("✅ 本地变更已提交"));
                }
                self.after_local_action()
            },
            SyncStage::Fetch => {
                let ok = match outcome {
                    CommandOutcome::Exited { success, .. } => *success,
                    CommandOutcome::SpawnFailed(_) => false,
                };
                if ok {
                    push_text(&mut self.results, chars_of("✅ Fetched from origin"));
                }
                self.stage = SyncStage::Pull;
                SyncAction::Run(SyncCommand::Pull)
            },
            SyncStage::Pull => match outcome {
                CommandOutcome::SpawnFailed(e) => {
                    self.stage = SyncStage::Done;
                    let mut m = chars_of("git pull 失败: ");
                    append_str(&mut m, e.as_str());
                    SyncAction::Finish(Err(string_from(&m)))
                },
                CommandOutcome::Exited { success, stdout, stderr } => {
                    let out = chars_of(stdout.as_str());
                    let err = chars_of(stderr.as_str());
                    let line = if *success {
                        if contains_str(&out, "Already up to date") || trim_chars(&out).len() == 0 {
                            chars_of("✅ Already up to date")
                        } else {
                            chars_of("✅ 已拉取最新更新")
                        }
                    } else if contains_str(&err, "CONFLICT") || contains_str(&err, "conflict") {
                        let mut m = chars_of("⚠️ Merge 冲突，需要手动解决: ");
                        append_chars(&mut m, &trim_chars(&err));
                        m
                    } else {
                        let mut m = chars_of("⚠️ git pull 失败: ");
                        append_chars(&mut m, &trim_chars(&err));
                        m
                    };
                    push_text(&mut self.results, line);
                    self.after_pull_action()
                },
            },
            SyncStage::Push => match outcome {
                CommandOutcome::SpawnFailed(e) => {
                    self.stage = SyncStage::Done;
                    let mut m = chars_of("git push 失败: ");
                    append_str(&mut m, e.as_str());
                    SyncAction::Finish(Err(string_from(&m)))
                },
                CommandOutcome::Exited { success, stderr, .. } => {
                    let line = if *success {
                        chars_of("🚀 已推送到 GitHub")
                    } else {
                        let mut m = chars_of("⚠️ git push 失败: ");
                        append_chars(&mut m, &trim_chars(&chars_of(stderr.as_str())));
                        m
                    };
                    push_text(&mut self.results, line);
                    self.stage = SyncStage::Done;
                    SyncAction::Finish(Ok(self.report()))
                },
            },
            SyncStage::Done => {
                SyncAction::Finish(Ok(self.report()))
            },
        }
    }
}

} // verus!
