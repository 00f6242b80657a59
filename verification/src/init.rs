//! The init command: clone the backing remote into the managed root when
//! it is absent, optionally migrate a previous user's home-relative files,
//! create the backup directory, and write a sample configuration file if
//! none exists.

use vstd::prelude::*;

use crate::config::{DEFAULT_BACKUP_DIR, DEFAULT_DOTS_DIR};
use crate::git_repo::{GitCommand, GitRepo};
use crate::paths::{join_paths, join_paths_spec, path_join, pathbuf_join};

verus! {

/// The init command: the remote to clone, and an optional previous user
/// whose home-relative files are migrated to the current home.
#[derive(Debug)]
pub struct InitCmd {
    pub from_user: Option<String>,
    pub remote: String,
}

/// A rename: the tree at `from` moves to `to`.
#[derive(Debug)]
pub struct RenameOp {
    pub from: String,
    pub to: String,
}

/// Where the sample configuration goes: the directory to create, and the
/// file to write inside it.
#[derive(Debug)]
pub struct SampleConfigPlan {
    pub dir: String,
    pub file: String,
}

/// The work of one init run: the commands that clone the backing remote
/// and initialize its submodules — none when the root already exists — an
/// optional user migration, the backup directory to create, and the
/// sample configuration to write when none exists yet.
#[derive(Debug)]
pub struct InitPlan {
    pub clone_commands: Vec<GitCommand>,
    pub migrate: Option<RenameOp>,
    pub backup_dir: String,
    pub sample_config: Option<SampleConfigPlan>,
}

impl InitCmd {
    /// Plans an init run against the managed root, the user's home and
    /// configuration directories, and what already exists on disk.
    pub fn plan(
        &self,
        root_dir: &str,
        home: &str,
        config_dir: &str,
        root_exists: bool,
        config_file_exists: bool,
    ) -> (r: InitPlan)
        ensures
            !root_exists ==> (r.clone_commands@.len() == 2 && r.clone_commands@[0].args_view()
                == seq!["clone"@, self.remote@, root_dir@] && !r.clone_commands@[0].allow_failure
                && r.clone_commands@[1].args_view() == seq![
                "-C"@,
                root_dir@,
                "submodule"@,
                "update"@,
                "--init"@,
                "--recursive"@,
            ] && !r.clone_commands@[1].allow_failure),
            root_exists ==> r.clone_commands@.len() == 0,
            self.from_user matches Some(u) ==> (r.migrate matches Some(m) && m.from@
                == pathbuf_join(pathbuf_join(root_dir@, "dots"@), "home/"@ + u@) && m.to@
                == join_paths_spec(pathbuf_join(root_dir@, "dots"@), home@)),
            self.from_user is None ==> r.migrate is None,
            r.backup_dir@ == pathbuf_join(root_dir@, "backups"@),
            !config_file_exists ==> (r.sample_config matches Some(s) && s.dir@ == pathbuf_join(
                config_dir@,
                "nedots"@,
            ) && s.file@ == pathbuf_join(pathbuf_join(config_dir@, "nedots"@), "nedots.yml"@)),
            config_file_exists ==> r.sample_config is None,
    {
        let mut clone_commands: Vec<GitCommand> = Vec::new();
        if !root_exists {
            let repo = GitRepo::new(self.remote.as_str(), root_dir);
            clone_commands.push(repo.clone());
            clone_commands.push(repo.init_submodules());
        }
        let migrate = match &self.from_user {
            Some(u) => {
                let dots = path_join(root_dir, DEFAULT_DOTS_DIR);
                let mut sub = "home/".to_owned();
                sub.append(u.as_str());
                Some(
                    RenameOp {
                        from: path_join(dots.as_str(), sub.as_str()),
                        to: join_paths(dots.as_str(), home),
                    },
                )
            },
            None => None,
        };
        let backup_dir = path_join(root_dir, DEFAULT_BACKUP_DIR);
        let sample_config = if !config_file_exists {
            let dir = path_join(config_dir, "nedots");
            let file = path_join(dir.as_str(), "nedots.yml");
            Some(SampleConfigPlan { dir, file })
        } else {
            None
        };
        InitPlan { clone_commands, migrate, backup_dir, sample_config }
    }
}

} // verus!
