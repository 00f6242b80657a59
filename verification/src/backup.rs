//! The backup command: copy every declared source into a timestamped
//! snapshot directory under the backup directory, each source addressed
//! inside the snapshot by its declared path.

use vstd::prelude::*;

use crate::config::{declared_views, resolved_views, Config, Source, ValidateConfig};
use crate::copy::CopyOp;
use crate::paths::{join_paths, join_paths_spec, path_join, pathbuf_join};

verus! {

/// The backup command takes no arguments.
#[derive(Debug)]
pub struct BackupCmd;

/// A backup validates the configuration the default way.
impl ValidateConfig for BackupCmd {

}

/// The work of one backup run: create the snapshot directory, then copy
/// every declared source into it.
#[derive(Debug)]
pub struct BackupPlan {
    pub snapshot_dir: String,
    pub copies: Vec<CopyOp>,
}

/// One copy per source, in declaration order: each is read from its
/// resolved place on disk and lands under the snapshot directory at its
/// declared path, so the snapshot holds `<timestamp>/<declared path>`.
pub open spec fn backup_copies_spec(
    copies: Seq<CopyOp>,
    sources: Seq<Source>,
    to: Seq<char>,
) -> bool {
    &&& copies.len() == sources.len()
    &&& forall|i: int|
        0 <= i < sources.len() ==> (#[trigger] copies[i]).from@ == resolved_views(sources)[i]
            && copies[i].to@ == join_paths_spec(to, declared_views(sources)[i])
}

/// Relies on `chrono`: the current local Unix timestamp, rendered in
/// decimal. The answer depends on the clock, so nothing is assumed of it.
#[verifier::external_body]
pub fn get_timestamp() -> String {
    format!("{}", chrono::offset::Local::now().timestamp())
}

/// Plans a backup of `sources` into the directory `to`: the directory is
/// created, and every source is then copied from its resolved place to
/// its declared path under the directory.
pub fn backup(sources: &Vec<Source>, to: &str) -> (r: BackupPlan)
    ensures
        r.snapshot_dir@ == to@,
        backup_copies_spec(r.copies@, sources@, to@),
{
    let mut copies: Vec<CopyOp> = Vec::new();
    let mut i: usize = 0;
    while i < sources.len()
        invariant
            i <= sources@.len(),
            copies@.len() == i,
            forall|j: int|
                0 <= j < i ==> (#[trigger] copies@[j]).from@ == resolved_views(sources@)[j]
                    && copies@[j].to@ == join_paths_spec(to@, declared_views(sources@)[j]),
        decreases sources@.len() - i,
    {
        let dst = join_paths(to, sources[i].declared.as_str());
        copies.push(CopyOp { from: sources[i].resolved.clone(), to: dst });
        i = i + 1;
    }
    BackupPlan { snapshot_dir: to.to_owned(), copies }
}

impl BackupCmd {
    /// Plans the whole backup run: the snapshot directory is the backup
    /// directory extended by the timestamp, and every declared source is
    /// copied into it at its declared path.
    pub fn plan(&self, config: &Config, timestamp: &str) -> (r: BackupPlan)
        ensures
            r.snapshot_dir@ == pathbuf_join(config.backup_dir@, timestamp@),
            backup_copies_spec(
                r.copies@,
                config.sources@,
                pathbuf_join(config.backup_dir@, timestamp@),
            ),
    {
        let dst = path_join(config.backup_dir.as_str(), timestamp);
        backup(&config.sources, dst.as_str())
    }
}

} // verus!
