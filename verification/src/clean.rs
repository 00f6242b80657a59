//! The clean command: delete the dots and/or backup directories — after an
//! interactive confirmation unless it is waived — and recreate them empty.

use vstd::prelude::*;

use crate::config::{Config, ValidateConfig};

verus! {

/// The clean command's flags: which directories to clean, and whether to
/// skip the confirmation prompt.
#[derive(Debug)]
pub struct CleanCmd {
    pub dots: bool,
    pub backups: bool,
    pub assumeyes: bool,
}

/// A clean run validates the configuration the default way.
impl ValidateConfig for CleanCmd {

}

/// One directory to clean: delete it and recreate it empty, asking the
/// user first when `confirm` is set.
#[derive(Debug)]
pub struct CleanTarget {
    pub dir: String,
    pub prompt: String,
    pub confirm: bool,
}

/// What one clean target holds: the directory, the prompt shown before
/// touching it, and the confirmation requirement — waived exactly when the
/// command assumes yes.
pub open spec fn clean_target_spec(
    t: CleanTarget,
    dir: Seq<char>,
    prompt: Seq<char>,
    assumeyes: bool,
) -> bool {
    &&& t.dir@ == dir
    &&& t.prompt@ == prompt
    &&& t.confirm == !assumeyes
}

impl CleanCmd {
    /// Plans a clean run: with neither flag — or with both — the dots
    /// directory and then the backup directory are cleaned; with one flag,
    /// only that directory is.
    pub fn plan(&self, config: &Config) -> (r: Vec<CleanTarget>)
        ensures
            self.dots == self.backups ==> (r@.len() == 2 && clean_target_spec(
                r@[0],
                config.dots_dir@,
                " ~ Cleaning dots. Continue?"@,
                self.assumeyes,
            ) && clean_target_spec(
                r@[1],
                config.backup_dir@,
                " ~ Cleaning backups. Continue?"@,
                self.assumeyes,
            )),
            self.dots && !self.backups ==> (r@.len() == 1 && clean_target_spec(
                r@[0],
                config.dots_dir@,
                " ~ Cleaning dots. Continue?"@,
                self.assumeyes,
            )),
            !self.dots && self.backups ==> (r@.len() == 1 && clean_target_spec(
                r@[0],
                config.backup_dir@,
                " ~ Cleaning backups. Continue?"@,
                self.assumeyes,
            )),
    {
        let mut r: Vec<CleanTarget> = Vec::new();
        let pick_both = !self.dots && !self.backups;
        if self.dots || pick_both {
            r.push(
                CleanTarget {
                    dir: config.dots_dir.clone(),
                    prompt: " ~ Cleaning dots. Continue?".to_owned(),
                    confirm: !self.assumeyes,
                },
            );
        }
        if self.backups || pick_both {
            r.push(
                CleanTarget {
                    dir: config.backup_dir.clone(),
                    prompt: " ~ Cleaning backups. Continue?".to_owned(),
                    confirm: !self.assumeyes,
                },
            );
        }
        r
    }
}

} // verus!
