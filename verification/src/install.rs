//! The install command: copy sources from their tracked place under the
//! dots directory to their home-relative destinations, and clone the
//! declared nested repositories. With a key, exactly the one source the
//! key stands for is installed.

use vstd::prelude::*;

use crate::config::{
    declared_views, lemma_repos_resolved_from_self, lemma_sources_resolved_from_self, Config,
    ValidateConfig,
};
use crate::copy::CopyOp;
use crate::errors::Error;
use crate::git_repo::GitCommand;
use crate::index::{first_source_containing, is_key_of};
use crate::paths::{join_paths, join_paths_spec, pathbuf_join, prepend_home};

verus! {

/// The install command: an optional key naming a single source by any
/// unique portion of its declared path.
#[derive(Debug)]
pub struct InstallCmd {
    pub key: Option<String>,
}

/// An install only validates the core directories: the declared sources
/// name install destinations, which need not exist yet, so they are left
/// unresolved.
impl ValidateConfig for InstallCmd {
    fn validate(&self, config: Config) -> (r: Result<(Config, Vec<Error>), Error>) {
        let resolved = config.resolve_dirs();
        proof {
            lemma_sources_resolved_from_self(resolved.0.sources@);
            lemma_repos_resolved_from_self(resolved.0.git_repos@);
        }
        Ok(resolved)
    }
}

/// The work of one install run: the tree copies to perform and the nested
/// repositories to clone. `missing_key` reports a key that matched no
/// source, in which case there is nothing else to do.
#[derive(Debug)]
pub struct InstallPlan {
    pub copies: Vec<CopyOp>,
    pub clones: Vec<GitCommand>,
    pub missing_key: Option<String>,
}

/// The copy that installs one declared source: its destination is the
/// source under the home directory, and its origin is that destination's
/// tracked place under the dots directory.
pub open spec fn install_pair_spec(
    op: CopyOp,
    dots_dir: Seq<char>,
    home: Seq<char>,
    source: Seq<char>,
) -> bool {
    &&& op.to@ == pathbuf_join(home, source)
    &&& op.from@ == join_paths_spec(dots_dir, pathbuf_join(home, source))
}

impl InstallCmd {
    /// Plans an install run. With a key, the key index picks the one
    /// source to install, or reports the key as missing. With no key,
    /// every declared source is installed and every declared nested
    /// repository is cloned to its declared local path.
    pub fn plan(&self, config: &Config, home: &str) -> (r: InstallPlan)
        ensures
            self.key matches Some(k) ==> (r.clones@.len() == 0 && ((is_key_of(
                declared_views(config.sources@),
                k@,
            ) ==> (r.missing_key is None && r.copies@.len() == 1 && (first_source_containing(
                declared_views(config.sources@),
                k@,
            ) matches Some(v) && install_pair_spec(r.copies@[0], config.dots_dir@, home@, v))))
                && (!is_key_of(declared_views(config.sources@), k@) ==> (r.copies@.len() == 0 && (
            r.missing_key matches Some(m) && m@ == k@))))),
            self.key is None ==> (r.missing_key is None && r.copies@.len()
                == config.sources@.len() && (forall|i: int|
                0 <= i < config.sources@.len() ==> install_pair_spec(
                    #[trigger] r.copies@[i],
                    config.dots_dir@,
                    home@,
                    declared_views(config.sources@)[i],
                )) && r.clones@.len() == config.git_repos@.len() && (forall|i: int|
                0 <= i < config.git_repos@.len() ==> ((#[trigger] r.clones@[i]).args_view()
                    == seq![
                    "clone"@,
                    config.git_repos@[i].remote@,
                    config.git_repos@[i].path@,
                ] && !r.clones@[i].allow_failure))),
    {
        match &self.key {
            Some(k) => {
                let idx = config.get_sources_as_hashmap();
                match idx.get(k.as_str()) {
                    Some(v) => {
                        let dst = prepend_home(home, v.as_str());
                        let src = join_paths(config.dots_dir.as_str(), dst.as_str());
                        let mut copies: Vec<CopyOp> = Vec::new();
                        copies.push(CopyOp { from: src, to: dst });
                        InstallPlan { copies, clones: Vec::new(), missing_key: None }
                    },
                    None => InstallPlan {
                        copies: Vec::new(),
                        clones: Vec::new(),
                        missing_key: Some(k.clone()),
                    },
                }
            },
            None => {
                let mut copies: Vec<CopyOp> = Vec::new();
                let mut i: usize = 0;
                while i < config.sources.len()
                    invariant
                        i <= config.sources@.len(),
                        copies@.len() == i,
                        forall|j: int|
                            0 <= j < i ==> install_pair_spec(
                                #[trigger] copies@[j],
                                config.dots_dir@,
                                home@,
                                declared_views(config.sources@)[j],
                            ),
                    decreases config.sources@.len() - i,
                {
                    let dst = prepend_home(home, config.sources[i].declared.as_str());
                    let src = join_paths(config.dots_dir.as_str(), dst.as_str());
                    copies.push(CopyOp { from: src, to: dst });
                    i = i + 1;
                }
                let mut clones: Vec<GitCommand> = Vec::new();
                let mut j: usize = 0;
                while j < config.git_repos.len()
                    invariant
                        j <= config.git_repos@.len(),
                        clones@.len() == j,
                        forall|m: int|
                            0 <= m < j ==> ((#[trigger] clones@[m]).args_view() == seq![
                                "clone"@,
                                config.git_repos@[m].remote@,
                                config.git_repos@[m].path@,
                            ] && !clones@[m].allow_failure),
                    decreases config.git_repos@.len() - j,
                {
                    clones.push(config.git_repos[j].clone());
                    j = j + 1;
                }
                InstallPlan { copies, clones, missing_key: None }
            },
        }
    }
}

} // verus!
