//! Version-control work is delegated to an external tool invoked as a
//! subprocess. This module prepares the exact argument lists of those
//! invocations; the shell around the library runs them and reports back.

use vstd::prelude::*;

use crate::paths::views;

verus! {

/// One invocation of the external version-control tool: the arguments to
/// hand it, and whether a failure of the call is tolerated rather than
/// propagated.
#[derive(Debug)]
pub struct GitCommand {
    pub args: Vec<String>,
    pub allow_failure: bool,
}

impl GitCommand {
    /// The texts of the command's arguments.
    pub open spec fn args_view(&self) -> Seq<Seq<char>> {
        views(self.args@)
    }
}

/// A repository with a remote and a local path: either the top-level
/// backing repository or a nested one declared in the configuration.
#[derive(Debug)]
pub struct GitRepo {
    pub remote: String,
    pub path: String,
}

impl GitRepo {
    /// A repository handle for the given remote and local path.
    pub fn new(remote: &str, path: &str) -> (r: Self)
        ensures
            r.remote@ == remote@,
            r.path@ == path@,
    {
        GitRepo { remote: remote.to_owned(), path: path.to_owned() }
    }

    /// The command that clones the remote into the local path.
    pub fn clone(&self) -> (c: GitCommand)
        ensures
            c.args_view() == seq!["clone"@, self.remote@, self.path@],
            !c.allow_failure,
    {
        let mut args: Vec<String> = Vec::new();
        args.push("clone".to_owned());
        args.push(self.remote.clone());
        args.push(self.path.clone());
        proof {
            assert(views(args@) =~= seq!["clone"@, self.remote@, self.path@]);
        }
        GitCommand { args, allow_failure: false }
    }

    /// The command that stages everything matching `pattern` in the
    /// repository.
    pub fn add(&self, pattern: &str) -> (c: GitCommand)
        ensures
            c.args_view() == seq!["-C"@, self.path@, "add"@, pattern@],
            !c.allow_failure,
    {
        let mut args: Vec<String> = Vec::new();
        args.push("-C".to_owned());
        args.push(self.path.clone());
        args.push("add".to_owned());
        args.push(pattern.to_owned());
        proof {
            assert(views(args@) =~= seq!["-C"@, self.path@, "add"@, pattern@]);
        }
        GitCommand { args, allow_failure: false }
    }

    /// The command that records a commit with the given message. A commit
    /// with nothing to record exits unsuccessfully and that is expected, so
    /// a failure of this command is tolerated.
    pub fn commit(&self, msg: &str) -> (c: GitCommand)
        ensures
            c.args_view() == seq!["-C"@, self.path@, "commit"@, "-m"@, msg@],
            c.allow_failure,
    {
        let mut args: Vec<String> = Vec::new();
        args.push("-C".to_owned());
        args.push(self.path.clone());
        args.push("commit".to_owned());
        args.push("-m".to_owned());
        args.push(msg.to_owned());
        proof {
            assert(views(args@) =~= seq!["-C"@, self.path@, "commit"@, "-m"@, msg@]);
        }
        GitCommand { args, allow_failure: true }
    }

    /// The command that pushes the repository to its remote.
    pub fn push(&self) -> (c: GitCommand)
        ensures
            c.args_view() == seq!["-C"@, self.path@, "push"@],
            !c.allow_failure,
    {
        let mut args: Vec<String> = Vec::new();
        args.push("-C".to_owned());
        args.push(self.path.clone());
        args.push("push".to_owned());
        proof {
            assert(views(args@) =~= seq!["-C"@, self.path@, "push"@]);
        }
        GitCommand { args, allow_failure: false }
    }

    /// The command that initializes and updates the repository's
    /// submodules, recursively.
    pub fn init_submodules(&self) -> (c: GitCommand)
        ensures
            c.args_view() == seq![
                "-C"@,
                self.path@,
                "submodule"@,
                "update"@,
                "--init"@,
                "--recursive"@,
            ],
            !c.allow_failure,
    {
        let mut args: Vec<String> = Vec::new();
        args.push("-C".to_owned());
        args.push(self.path.clone());
        args.push("submodule".to_owned());
        args.push("update".to_owned());
        args.push("--init".to_owned());
        args.push("--recursive".to_owned());
        proof {
            assert(views(args@) =~= seq![
                "-C"@,
                self.path@,
                "submodule"@,
                "update"@,
                "--init"@,
                "--recursive"@,
            ]);
        }
        GitCommand { args, allow_failure: false }
    }

    /// The command that pulls the latest changes from the remote.
    pub fn pull(&self) -> (c: GitCommand)
        ensures
            c.args_view() == seq!["-C"@, self.path@, "pull"@],
            !c.allow_failure,
    {
        let mut args: Vec<String> = Vec::new();
        args.push("-C".to_owned());
        args.push(self.path.clone());
        args.push("pull".to_owned());
        proof {
            assert(views(args@) =~= seq!["-C"@, self.path@, "pull"@]);
        }
        GitCommand { args, allow_failure: false }
    }
}

} // verus!
