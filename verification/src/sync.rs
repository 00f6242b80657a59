//! The sync command: optionally gather every declared source into the dots
//! directory first, then bring each repository in line with its remote —
//! stage, commit, pull and, unless pushing is disabled, push.

use vstd::prelude::*;

use crate::config::{resolved_views, Config, ValidateConfig};
use crate::copy::CopyOp;
use crate::git_repo::{GitCommand, GitRepo};
use crate::paths::{join_paths, join_paths_spec};

verus! {

/// The sync command's flags: gather sources into the dots directory before
/// syncing, and hold back the final push.
#[derive(Debug)]
pub struct SyncCmd {
    pub gather: bool,
    pub nopush: bool,
}

/// A sync run validates the configuration the default way.
impl ValidateConfig for SyncCmd {

}

/// The ordered commands that synchronize one repository: stage everything,
/// commit — tolerating the failure a commit with nothing to record exits
/// with — pull, and, when pushing, push.
pub open spec fn sync_sequence_spec(
    cmds: Seq<GitCommand>,
    path: Seq<char>,
    msg: Seq<char>,
    push: bool,
) -> bool {
    &&& cmds.len() == (if push {
        4int
    } else {
        3int
    })
    &&& cmds[0].args_view() == seq!["-C"@, path, "add"@, "."@]
    &&& !cmds[0].allow_failure
    &&& cmds[1].args_view() == seq!["-C"@, path, "commit"@, "-m"@, msg]
    &&& cmds[1].allow_failure
    &&& cmds[2].args_view() == seq!["-C"@, path, "pull"@]
    &&& !cmds[2].allow_failure
    &&& (push ==> (cmds[3].args_view() == seq!["-C"@, path, "push"@] && !cmds[3].allow_failure))
}

/// Relies on `chrono`: the current local date and time, rendered as text.
/// The answer depends on the clock, so nothing is assumed of it.
#[verifier::external_body]
pub fn now_text() -> String {
    format!("{}", chrono::offset::Local::now())
}

/// The commit message of a sync run: the word `Latest` and the time.
pub fn latest_message(now: &str) -> (m: String)
    ensures
        m@ == "Latest "@ + now@,
{
    let mut m = "Latest ".to_owned();
    m.append(now);
    m
}

/// The command sequence that synchronizes one repository.
pub fn repo_sync_commands(repo: &GitRepo, commit_msg: &str, push: bool) -> (cmds: Vec<GitCommand>)
    ensures
        sync_sequence_spec(cmds@, repo.path@, commit_msg@, push),
{
    let mut cmds: Vec<GitCommand> = Vec::new();
    cmds.push(repo.add("."));
    cmds.push(repo.commit(commit_msg));
    cmds.push(repo.pull());
    if push {
        cmds.push(repo.push());
    }
    cmds
}

/// The command sequence of one repository within a sync run.
#[derive(Debug)]
pub struct GitSequence {
    pub commands: Vec<GitCommand>,
}

/// The work of one sync run: the copies that gather sources into the dots
/// directory, and the per-repository command sequences, the root
/// repository's always last.
#[derive(Debug)]
pub struct SyncPlan {
    pub gather_copies: Vec<CopyOp>,
    pub repo_syncs: Vec<GitSequence>,
}

impl SyncCmd {
    /// Plans a sync run. Without gathering, only the root repository is
    /// synchronized. With gathering, every declared source is first copied
    /// to its place under the dots directory and every declared nested
    /// repository is synchronized before the root one.
    pub fn plan(&self, config: &Config, commit_msg: &str) -> (r: SyncPlan)
        ensures
            r.repo_syncs@.len() >= 1,
            sync_sequence_spec(
                r.repo_syncs@.last().commands@,
                config.root@,
                commit_msg@,
                !self.nopush,
            ),
            !self.gather ==> (r.gather_copies@.len() == 0 && r.repo_syncs@.len() == 1),
            self.gather ==> (r.gather_copies@.len() == config.sources@.len() && (forall|i: int|
                0 <= i < config.sources@.len() ==> (#[trigger] r.gather_copies@[i]).from@
                    == resolved_views(config.sources@)[i] && r.gather_copies@[i].to@
                    == join_paths_spec(config.dots_dir@, resolved_views(config.sources@)[i])) && r.repo_syncs@.len() == config.git_repos@.len() + 1 && (forall|i: int|
                0 <= i < config.git_repos@.len() ==> sync_sequence_spec(
                    (#[trigger] r.repo_syncs@[i]).commands@,
                    config.git_repos@[i].path@,
                    commit_msg@,
                    !self.nopush,
                ))),
    {
        let mut gather_copies: Vec<CopyOp> = Vec::new();
        let mut repo_syncs: Vec<GitSequence> = Vec::new();
        if self.gather {
            let mut i: usize = 0;
            while i < config.sources.len()
                invariant
                    i <= config.sources@.len(),
                    gather_copies@.len() == i,
                    forall|j: int|
                        0 <= j < i ==> (#[trigger] gather_copies@[j]).from@ == resolved_views(
                            config.sources@,
                        )[j] && gather_copies@[j].to@ == join_paths_spec(
                            config.dots_dir@,
                            resolved_views(config.sources@)[j],
                        ),
                decreases config.sources@.len() - i,
            {
                let dst = join_paths(config.dots_dir.as_str(), config.sources[i].resolved.as_str());
                gather_copies.push(CopyOp { from: config.sources[i].resolved.clone(), to: dst });
                i = i + 1;
            }
            let mut j: usize = 0;
            while j < config.git_repos.len()
                invariant
                    j <= config.git_repos@.len(),
                    repo_syncs@.len() == j,
                    forall|m: int|
                        0 <= m < j ==> sync_sequence_spec(
                            (#[trigger] repo_syncs@[m]).commands@,
                            config.git_repos@[m].path@,
                            commit_msg@,
                            !self.nopush,
                        ),
                decreases config.git_repos@.len() - j,
            {
                let commands = repo_sync_commands(&config.git_repos[j], commit_msg, !self.nopush);
                repo_syncs.push(GitSequence { commands });
                j = j + 1;
            }
        }
        let root_repo = GitRepo::new(config.remote.as_str(), config.root.as_str());
        let commands = repo_sync_commands(&root_repo, commit_msg, !self.nopush);
        repo_syncs.push(GitSequence { commands });
        SyncPlan { gather_copies, repo_syncs }
    }
}

} // verus!
