//! The declarative configuration: a remote, the declared sources, the
//! nested repositories, and the directories derived from the managed root.
//! Loading the file itself is the shell's business; this module resolves
//! the declared paths and builds the key index over the sources.

use vstd::prelude::*;

use crate::errors::Error;
use crate::git_repo::GitRepo;
use crate::index::{build_index, first_source_containing, is_key_of, SourceIndex};
use crate::paths::{is_absolute, opt_views, path_join, pathbuf_join, resolve_path, views};

verus! {

/// The directory under the managed root that holds the tracked copies.
pub const DEFAULT_DOTS_DIR: &'static str = "dots";

/// The directory under the managed root that holds timestamped snapshots.
pub const DEFAULT_BACKUP_DIR: &'static str = "backups";

/// A tracked source: the path as it was declared in the configuration,
/// and the absolute canonical path it stands for once resolution has run.
/// Until then the resolved form simply repeats the declared one. The
/// declared form addresses the source inside a snapshot; the resolved form
/// is where the source lives on disk.
#[derive(Debug)]
pub struct Source {
    pub declared: String,
    pub resolved: String,
}

impl Source {
    /// A freshly loaded source: declared, and not yet resolved.
    pub fn new(declared: &str) -> (r: Source)
        ensures
            r.declared@ == declared@,
            r.resolved@ == declared@,
    {
        Source { declared: declared.to_owned(), resolved: declared.to_owned() }
    }
}

/// The declared texts of the sources, in order.
pub open spec fn declared_views(sources: Seq<Source>) -> Seq<Seq<char>> {
    sources.map_values(|s: Source| s.declared@)
}

/// The resolved texts of the sources, in order.
pub open spec fn resolved_views(sources: Seq<Source>) -> Seq<Seq<char>> {
    sources.map_values(|s: Source| s.resolved@)
}

/// The configuration one command invocation works with. `root`, `dots_dir`
/// and `backup_dir` are derived from the managed root at runtime; `remote`,
/// `sources` and `git_repos` come from the configuration file.
#[derive(Debug)]
pub struct Config {
    pub root: String,
    pub dots_dir: String,
    pub backup_dir: String,
    pub remote: String,
    pub sources: Vec<Source>,
    pub git_repos: Vec<GitRepo>,
}

/// What survives a batch of resolutions: every resolved value, in order;
/// the entries that failed to resolve are gone.
pub open spec fn surviving(outcomes: Seq<Option<Seq<char>>>) -> Seq<Seq<char>>
    decreases outcomes.len(),
{
    if outcomes.len() == 0 {
        Seq::empty()
    } else {
        surviving(outcomes.drop_last()) + (match outcomes.last() {
            Some(p) => seq![p],
            None => Seq::<Seq<char>>::empty(),
        })
    }
}

/// The keys that ride along with the surviving entries: the key at each
/// position whose outcome resolved, in order.
pub open spec fn surviving_at(
    keys: Seq<Seq<char>>,
    outcomes: Seq<Option<Seq<char>>>,
) -> Seq<Seq<char>>
    decreases keys.len(),
{
    if keys.len() == 0 || outcomes.len() == 0 {
        Seq::empty()
    } else {
        surviving_at(keys.drop_last(), outcomes.drop_last()) + (if outcomes.last() is Some {
            seq![keys.last()]
        } else {
            Seq::<Seq<char>>::empty()
        })
    }
}

/// Every path of the batch is in absolute form.
pub open spec fn all_absolute(ps: Seq<Seq<char>>) -> bool {
    forall|i: int| 0 <= i < ps.len() ==> is_absolute(#[trigger] ps[i])
}

/// Every successful outcome of the batch is in absolute form.
pub open spec fn all_some_absolute(oc: Seq<Option<Seq<char>>>) -> bool {
    forall|i: int|
        0 <= i < oc.len() ==> ((#[trigger] oc[i]) matches Some(p) ==> is_absolute(p))
}

/// When every successful outcome is absolute, so is every survivor.
proof fn lemma_surviving_absolute(oc: Seq<Option<Seq<char>>>)
    requires
        all_some_absolute(oc),
    ensures
        all_absolute(surviving(oc)),
    decreases oc.len(),
{
    if oc.len() > 0 {
        assert forall|i: int|
            0 <= i < oc.drop_last().len() implies ((#[trigger] oc.drop_last()[i]) matches Some(p)
            ==> is_absolute(p)) by {
            assert(oc.drop_last()[i] == oc[i]);
        }
        lemma_surviving_absolute(oc.drop_last());
        let pre = surviving(oc.drop_last());
        assert forall|j: int|
            0 <= j < surviving(oc).len() implies is_absolute(#[trigger] surviving(oc)[j]) by {
            if j < pre.len() {
                assert(surviving(oc)[j] == pre[j]);
            } else {
                assert(oc[oc.len() - 1] == oc.last());
            }
        }
    }
}

/// A batch of outcomes in which every entry succeeded with the given value.
pub open spec fn all_some(vals: Seq<Seq<char>>) -> Seq<Option<Seq<char>>> {
    vals.map_values(|v: Seq<char>| Some(v))
}

/// A batch in which everything succeeds keeps every key and every value.
proof fn lemma_surviving_of_all_some(keys: Seq<Seq<char>>, vals: Seq<Seq<char>>)
    requires
        keys.len() == vals.len(),
    ensures
        surviving(all_some(vals)) == vals,
        surviving_at(keys, all_some(vals)) == keys,
    decreases vals.len(),
{
    if vals.len() > 0 {
        lemma_surviving_of_all_some(keys.drop_last(), vals.drop_last());
        assert(all_some(vals).drop_last() =~= all_some(vals.drop_last()));
        assert(all_some(vals).last() == Some(vals.last()));
        assert(surviving(all_some(vals)) =~= vals);
        assert(surviving_at(keys, all_some(vals)) =~= keys);
    } else {
        assert(surviving(all_some(vals)) =~= vals);
        assert(surviving_at(keys, all_some(vals)) =~= keys);
    }
}

/// The sources of `after` are what one batch of per-item resolutions
/// leaves of the sources of `before`: some outcome vector, one entry per
/// source of `before`, keeps the surviving declared forms in order and
/// replaces each surviving resolved form with its outcome. Nothing is
/// invented, reordered, or repaired.
pub open spec fn sources_resolved_from(after: Seq<Source>, before: Seq<Source>) -> bool {
    exists|oc: Seq<Option<Seq<char>>>|
        {
            &&& oc.len() == before.len()
            &&& declared_views(after) == #[trigger] surviving_at(declared_views(before), oc)
            &&& resolved_views(after) == surviving(oc)
        }
}

/// The repositories of `after` are what one batch of per-item resolutions
/// leaves of those of `before`: the surviving remotes in order, each
/// surviving path replaced with its outcome.
pub open spec fn repos_resolved_from(after: Seq<GitRepo>, before: Seq<GitRepo>) -> bool {
    exists|oc: Seq<Option<Seq<char>>>|
        {
            &&& oc.len() == before.len()
            &&& repo_remotes(after) == #[trigger] surviving_at(repo_remotes(before), oc)
            &&& repo_paths(after) == surviving(oc)
        }
}

/// Untouched sources are a resolution outcome: the batch in which every
/// entry resolved to its current resolved form.
pub(crate) proof fn lemma_sources_resolved_from_self(s: Seq<Source>)
    ensures
        sources_resolved_from(s, s),
{
    let oc = all_some(resolved_views(s));
    lemma_surviving_of_all_some(declared_views(s), resolved_views(s));
    assert(oc.len() == s.len());
    assert(declared_views(s) == surviving_at(declared_views(s), oc));
}

/// Untouched repositories are a resolution outcome in the same way.
pub(crate) proof fn lemma_repos_resolved_from_self(repos: Seq<GitRepo>)
    ensures
        repos_resolved_from(repos, repos),
{
    let oc = all_some(repo_paths(repos));
    lemma_surviving_of_all_some(repo_remotes(repos), repo_paths(repos));
    assert(oc.len() == repos.len());
    assert(repo_remotes(repos) == surviving_at(repo_remotes(repos), oc));
}

/// Keeps the sources whose path resolved — each with its resolved form
/// replaced by the outcome and its declared form untouched — and drops the
/// rest, preserving order: the per-item containment policy of
/// configuration resolution.
fn keep_resolved_sources(sources: &Vec<Source>, outcomes: Vec<Option<String>>) -> (kept: Vec<
    Source,
>)
    requires
        sources@.len() == outcomes@.len(),
    ensures
        declared_views(kept@) == surviving_at(declared_views(sources@), opt_views(outcomes@)),
        resolved_views(kept@) == surviving(opt_views(outcomes@)),
        kept@.len() <= sources@.len(),
{
    let mut kept: Vec<Source> = Vec::new();
    let mut i: usize = 0;
    while i < outcomes.len()
        invariant
            i <= outcomes@.len(),
            sources@.len() == outcomes@.len(),
            kept@.len() <= i,
            declared_views(kept@) == surviving_at(
                declared_views(sources@).subrange(0, i as int),
                opt_views(outcomes@).subrange(0, i as int),
            ),
            resolved_views(kept@) == surviving(opt_views(outcomes@).subrange(0, i as int)),
        decreases outcomes@.len() - i,
    {
        proof {
            let ov = opt_views(outcomes@);
            let dv = declared_views(sources@);
            assert(ov.subrange(0, i as int + 1).drop_last() =~= ov.subrange(0, i as int));
            assert(ov.subrange(0, i as int + 1).last() == ov[i as int]);
            assert(dv.subrange(0, i as int + 1).drop_last() =~= dv.subrange(0, i as int));
            assert(dv.subrange(0, i as int + 1).last() == sources@[i as int].declared@);
        }
        match &outcomes[i] {
            Some(p) => {
                kept.push(Source { declared: sources[i].declared.clone(), resolved: p.clone() });
            },
            None => {},
        }
        proof {
            assert(declared_views(kept@) =~= surviving_at(
                declared_views(sources@).subrange(0, i as int + 1),
                opt_views(outcomes@).subrange(0, i as int + 1),
            ));
            assert(resolved_views(kept@) =~= surviving(
                opt_views(outcomes@).subrange(0, i as int + 1),
            ));
        }
        i = i + 1;
    }
    proof {
        assert(opt_views(outcomes@).subrange(0, outcomes@.len() as int) =~= opt_views(outcomes@));
        assert(declared_views(sources@).subrange(0, sources@.len() as int) =~= declared_views(
            sources@,
        ));
    }
    kept
}

/// The remotes of the repositories, in order.
pub open spec fn repo_remotes(repos: Seq<GitRepo>) -> Seq<Seq<char>> {
    repos.map_values(|r: GitRepo| r.remote@)
}

/// The local paths of the repositories, in order.
pub open spec fn repo_paths(repos: Seq<GitRepo>) -> Seq<Seq<char>> {
    repos.map_values(|r: GitRepo| r.path@)
}

/// Keeps the repositories whose path resolved — each with its path
/// replaced by the resolved one and its remote untouched — and drops the
/// rest, preserving order.
fn keep_resolved_repos(repos: &Vec<GitRepo>, outcomes: Vec<Option<String>>) -> (kept: Vec<GitRepo>)
    requires
        repos@.len() == outcomes@.len(),
    ensures
        repo_remotes(kept@) == surviving_at(repo_remotes(repos@), opt_views(outcomes@)),
        repo_paths(kept@) == surviving(opt_views(outcomes@)),
        kept@.len() <= repos@.len(),
{
    let mut kept: Vec<GitRepo> = Vec::new();
    let mut i: usize = 0;
    while i < outcomes.len()
        invariant
            i <= outcomes@.len(),
            repos@.len() == outcomes@.len(),
            kept@.len() <= i,
            repo_remotes(kept@) == surviving_at(
                repo_remotes(repos@).subrange(0, i as int),
                opt_views(outcomes@).subrange(0, i as int),
            ),
            repo_paths(kept@) == surviving(opt_views(outcomes@).subrange(0, i as int)),
        decreases outcomes@.len() - i,
    {
        proof {
            let ov = opt_views(outcomes@);
            let rv = repo_remotes(repos@);
            assert(ov.subrange(0, i as int + 1).drop_last() =~= ov.subrange(0, i as int));
            assert(ov.subrange(0, i as int + 1).last() == ov[i as int]);
            assert(rv.subrange(0, i as int + 1).drop_last() =~= rv.subrange(0, i as int));
            assert(rv.subrange(0, i as int + 1).last() == repos@[i as int].remote@);
        }
        match &outcomes[i] {
            Some(p) => {
                kept.push(GitRepo { remote: repos[i].remote.clone(), path: p.clone() });
            },
            None => {},
        }
        proof {
            assert(repo_remotes(kept@) =~= surviving_at(
                repo_remotes(repos@).subrange(0, i as int + 1),
                opt_views(outcomes@).subrange(0, i as int + 1),
            ));
            assert(repo_paths(kept@) =~= surviving(
                opt_views(outcomes@).subrange(0, i as int + 1),
            ));
        }
        i = i + 1;
    }
    proof {
        assert(opt_views(outcomes@).subrange(0, outcomes@.len() as int) =~= opt_views(outcomes@));
        assert(repo_remotes(repos@).subrange(0, repos@.len() as int) =~= repo_remotes(repos@));
    }
    kept
}

/// A configuration with sample values, written out when no configuration
/// file exists yet.
pub fn get_sample() -> (r: Config)
    ensures
        r.root@ == Seq::<char>::empty(),
        r.dots_dir@ == Seq::<char>::empty(),
        r.backup_dir@ == Seq::<char>::empty(),
        r.remote@ == "git@git.sr.ht:~nedia/nedots"@,
        r.sources@.len() == 1,
        r.sources@[0].declared@ == ".config/nedots"@,
        r.sources@[0].resolved@ == ".config/nedots"@,
        r.git_repos@.len() == 1,
        r.git_repos@[0].remote@ == "git@git.sr.ht:~nedia/config.nvim"@,
        r.git_repos@[0].path@ == ".config/nvim"@,
{
    let mut sources: Vec<Source> = Vec::new();
    sources.push(Source::new(".config/nedots"));
    let mut git_repos: Vec<GitRepo> = Vec::new();
    git_repos.push(GitRepo::new("git@git.sr.ht:~nedia/config.nvim", ".config/nvim"));
    Config {
        root: String::new(),
        dots_dir: String::new(),
        backup_dir: String::new(),
        remote: "git@git.sr.ht:~nedia/nedots".to_owned(),
        sources,
        git_repos,
    }
}

impl Config {
    /// Resolves the derived directories and then the declared sources —
    /// the single validation pass, directories first. Its contract carries
    /// both steps through: every directory is either untouched (the root)
    /// or the joined candidate (the derived two) unless resolution made it
    /// absolute; the surviving sources and repositories are exactly what
    /// one batch of per-item resolutions leaves, every surviving resolved
    /// path absolute; and every warning reports one resolution failure.
    pub fn resolve_paths(self) -> (r: (Config, Vec<Error>))
        ensures
            r.0.remote@ == self.remote@,
            r.0.sources@.len() <= self.sources@.len(),
            r.0.git_repos@.len() <= self.git_repos@.len(),
            r.0.root@ == self.root@ || is_absolute(r.0.root@),
            r.0.dots_dir@ == pathbuf_join(r.0.root@, "dots"@) || is_absolute(r.0.dots_dir@),
            r.0.backup_dir@ == pathbuf_join(r.0.root@, "backups"@) || is_absolute(
                r.0.backup_dir@,
            ),
            sources_resolved_from(r.0.sources@, self.sources@),
            repos_resolved_from(r.0.git_repos@, self.git_repos@),
            all_absolute(resolved_views(r.0.sources@)),
            all_absolute(repo_paths(r.0.git_repos@)),
            forall|i: int| 0 <= i < r.1@.len() ==> (#[trigger] r.1@[i]) is ResolvePath,
    {
        let (mid, mut warnings) = self.resolve_dirs();
        let ghost wd = warnings@;
        let (done, mut source_warnings) = mid.resolve_sources();
        let ghost ws = source_warnings@;
        warnings.append(&mut source_warnings);
        proof {
            assert forall|i: int|
                0 <= i < warnings@.len() implies (#[trigger] warnings@[i]) is ResolvePath by {
                if i < wd.len() {
                    assert(warnings@[i] == wd[i]);
                } else {
                    assert(warnings@[i] == ws[i - wd.len()]);
                }
            }
        }
        (done, warnings)
    }

    /// Resolves the managed root and derives the dots and backup
    /// directories from it: each derived candidate is the (possibly
    /// resolved) root joined with the fixed directory name, and each of
    /// the three ends up either resolved — then it is absolute — or kept
    /// as it was, with the failure returned as a warning for the shell to
    /// log. The declared remote, sources and repositories pass through
    /// untouched.
    pub fn resolve_dirs(self) -> (r: (Config, Vec<Error>))
        ensures
            r.0.remote@ == self.remote@,
            r.0.sources@ == self.sources@,
            r.0.git_repos@ == self.git_repos@,
            r.0.root@ == self.root@ || is_absolute(r.0.root@),
            r.0.dots_dir@ == pathbuf_join(r.0.root@, "dots"@) || is_absolute(r.0.dots_dir@),
            r.0.backup_dir@ == pathbuf_join(r.0.root@, "backups"@) || is_absolute(
                r.0.backup_dir@,
            ),
            r.1@.len() <= 3,
            forall|i: int| 0 <= i < r.1@.len() ==> (#[trigger] r.1@[i]) is ResolvePath,
    {
        let mut c = self;
        let mut warnings: Vec<Error> = Vec::new();
        match resolve_path(c.root.as_str()) {
            Ok(p) => {
                c.root = p;
            },
            Err(e) => {
                warnings.push(e);
            },
        }
        let dots = path_join(c.root.as_str(), DEFAULT_DOTS_DIR);
        match resolve_path(dots.as_str()) {
            Ok(p) => {
                c.dots_dir = p;
            },
            Err(e) => {
                c.dots_dir = dots;
                warnings.push(e);
            },
        }
        let backups = path_join(c.root.as_str(), DEFAULT_BACKUP_DIR);
        match resolve_path(backups.as_str()) {
            Ok(p) => {
                c.backup_dir = p;
            },
            Err(e) => {
                c.backup_dir = backups;
                warnings.push(e);
            },
        }
        (c, warnings)
    }

    /// Resolves every declared source and every nested repository's path.
    /// An entry that fails to resolve is dropped from the working set and
    /// reported as a warning for the shell to log, so one bad declaration
    /// never aborts the batch: the survivors are exactly what one batch of
    /// per-item resolutions leaves — order kept, declared forms and
    /// remotes untouched, every surviving resolved path absolute — and
    /// there is one warning per dropped entry. Which entries survive is
    /// the filesystem's answer; `keep_resolved_sources` and
    /// `keep_resolved_repos` pin the per-item policy down exactly over the
    /// resolution outcomes.
    pub fn resolve_sources(self) -> (r: (Config, Vec<Error>))
        ensures
            r.0.root@ == self.root@,
            r.0.dots_dir@ == self.dots_dir@,
            r.0.backup_dir@ == self.backup_dir@,
            r.0.remote@ == self.remote@,
            r.0.sources@.len() <= self.sources@.len(),
            r.0.git_repos@.len() <= self.git_repos@.len(),
            sources_resolved_from(r.0.sources@, self.sources@),
            repos_resolved_from(r.0.git_repos@, self.git_repos@),
            all_absolute(resolved_views(r.0.sources@)),
            all_absolute(repo_paths(r.0.git_repos@)),
            r.1@.len() == (self.sources@.len() - r.0.sources@.len()) + (self.git_repos@.len()
                - r.0.git_repos@.len()),
            forall|i: int| 0 <= i < r.1@.len() ==> (#[trigger] r.1@[i]) is ResolvePath,
    {
        let mut c = self;
        let mut warnings: Vec<Error> = Vec::new();
        let mut outcomes: Vec<Option<String>> = Vec::new();
        let mut i: usize = 0;
        while i < c.sources.len()
            invariant
                i <= c.sources@.len(),
                outcomes@.len() == i,
                all_some_absolute(opt_views(outcomes@)),
                warnings@.len() + surviving(opt_views(outcomes@)).len() == i,
                forall|k: int|
                    0 <= k < warnings@.len() ==> (#[trigger] warnings@[k]) is ResolvePath,
            decreases c.sources@.len() - i,
        {
            let ghost prev_oc = opt_views(outcomes@);
            match resolve_path(c.sources[i].declared.as_str()) {
                Ok(p) => {
                    outcomes.push(Some(p));
                },
                Err(e) => {
                    outcomes.push(None);
                    warnings.push(e);
                },
            }
            proof {
                let oc = opt_views(outcomes@);
                assert(oc.drop_last() =~= prev_oc);
                assert(surviving(prev_oc).len() <= prev_oc.len());
                assert forall|k: int|
                    0 <= k < oc.len() implies ((#[trigger] oc[k]) matches Some(p)
                    ==> is_absolute(p)) by {
                    if k < prev_oc.len() {
                        assert(oc[k] == prev_oc[k]);
                    }
                }
            }
            i = i + 1;
        }
        let ghost goc = opt_views(outcomes@);
        let ghost src_warnings = warnings@;
        c.sources = keep_resolved_sources(&c.sources, outcomes);
        proof {
            lemma_surviving_absolute(goc);
            assert(resolved_views(c.sources@).len() == c.sources@.len());
            assert(declared_views(c.sources@) == surviving_at(declared_views(self.sources@), goc));
        }
        let mut repo_outcomes: Vec<Option<String>> = Vec::new();
        let mut j: usize = 0;
        while j < c.git_repos.len()
            invariant
                j <= c.git_repos@.len(),
                repo_outcomes@.len() == j,
                all_some_absolute(opt_views(repo_outcomes@)),
                warnings@.len() == src_warnings.len() + j - surviving(
                    opt_views(repo_outcomes@),
                ).len(),
                surviving(opt_views(repo_outcomes@)).len() <= j,
                forall|k: int|
                    0 <= k < warnings@.len() ==> (#[trigger] warnings@[k]) is ResolvePath,
            decreases c.git_repos@.len() - j,
        {
            let ghost prev_oc = opt_views(repo_outcomes@);
            match resolve_path(c.git_repos[j].path.as_str()) {
                Ok(p) => {
                    repo_outcomes.push(Some(p));
                },
                Err(e) => {
                    repo_outcomes.push(None);
                    warnings.push(e);
                },
            }
            proof {
                let oc = opt_views(repo_outcomes@);
                assert(oc.drop_last() =~= prev_oc);
                assert forall|k: int|
                    0 <= k < oc.len() implies ((#[trigger] oc[k]) matches Some(p)
                    ==> is_absolute(p)) by {
                    if k < prev_oc.len() {
                        assert(oc[k] == prev_oc[k]);
                    }
                }
            }
            j = j + 1;
        }
        let ghost roc = opt_views(repo_outcomes@);
        c.git_repos = keep_resolved_repos(&c.git_repos, repo_outcomes);
        proof {
            lemma_surviving_absolute(roc);
            assert(repo_paths(c.git_repos@).len() == c.git_repos@.len());
            assert(repo_remotes(c.git_repos@) == surviving_at(
                repo_remotes(self.git_repos@),
                roc,
            ));
        }
        (c, warnings)
    }

    /// Keys every non-empty path segment of the declared sources to the
    /// first declared source whose text contains it, so that a user can
    /// name a source by any unique portion of its path.
    pub fn get_sources_as_hashmap(&self) -> (idx: SourceIndex)
        ensures
            forall|k: Seq<char>| #[trigger] idx@.contains_key(k) <==> is_key_of(
                declared_views(self.sources@),
                k,
            ),
            forall|k: Seq<char>| #[trigger] idx@.contains_key(k) ==> Some(idx@[k])
                == first_source_containing(declared_views(self.sources@), k),
    {
        let mut declared: Vec<String> = Vec::new();
        let mut i: usize = 0;
        while i < self.sources.len()
            invariant
                i <= self.sources@.len(),
                views(declared@) == declared_views(self.sources@).subrange(0, i as int),
            decreases self.sources@.len() - i,
        {
            let ghost prev_declared = declared@;
            let d = self.sources[i].declared.clone();
            declared.push(d);
            proof {
                let dv = declared_views(self.sources@);
                let now = dv.subrange(0, i as int + 1);
                assert(views(prev_declared).len() == prev_declared.len());
                assert(prev_declared.len() == i as int);
                assert(declared@ == prev_declared.push(self.sources@[i as int].declared));
                assert forall|j: int| 0 <= j < i as int + 1 implies views(declared@)[j]
                    == now[j] by {
                    assert(views(declared@)[j] == declared@[j]@);
                    assert(now[j] == dv[j]);
                    assert(dv[j] == self.sources@[j].declared@);
                    if j < i as int {
                        assert(declared@[j] == prev_declared[j]);
                        assert(prev_declared[j]@ == views(prev_declared)[j]);
                        assert(views(prev_declared)[j] == dv.subrange(0, i as int)[j]);
                    } else {
                        assert(declared@[j] == self.sources@[i as int].declared);
                    }
                }
                assert(views(declared@) =~= now);
            }
            i = i + 1;
        }
        proof {
            assert(declared_views(self.sources@).subrange(0, self.sources@.len() as int)
                =~= declared_views(self.sources@));
        }
        build_index(&declared)
    }
}

/// What a command does to the configuration before it runs. The default is
/// to resolve everything — directories and sources alike; a command that
/// needs less overrides it. Validation never fails: entries that do not
/// resolve are dropped or kept unresolved, as the resolution steps state,
/// the declared remote always survives, and the warnings — one per
/// resolution failure — come back for the shell to log. That every
/// surviving resolved path is absolute holds of the full resolution (see
/// `resolve_paths`) but not of every validation: an install leaves the
/// declared sources untouched, so it is not promised here.
pub trait ValidateConfig {
    /// Resolves the configuration for this command.
    fn validate(&self, config: Config) -> (r: Result<(Config, Vec<Error>), Error>)
        ensures
            r is Ok,
            r matches Ok(v) ==> ({
                &&& v.0.remote@ == config.remote@
                &&& v.0.sources@.len() <= config.sources@.len()
                &&& v.0.git_repos@.len() <= config.git_repos@.len()
                &&& (v.0.root@ == config.root@ || is_absolute(v.0.root@))
                &&& (v.0.dots_dir@ == pathbuf_join(v.0.root@, "dots"@) || is_absolute(
                    v.0.dots_dir@,
                ))
                &&& (v.0.backup_dir@ == pathbuf_join(v.0.root@, "backups"@) || is_absolute(
                    v.0.backup_dir@,
                ))
                &&& sources_resolved_from(v.0.sources@, config.sources@)
                &&& repos_resolved_from(v.0.git_repos@, config.git_repos@)
                &&& (forall|i: int| 0 <= i < v.1@.len() ==> (#[trigger] v.1@[i]) is ResolvePath)
            }),
    {
        Ok(config.resolve_paths())
    }
}

} // verus!
