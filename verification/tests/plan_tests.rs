use nedots::backup::{backup, BackupCmd};
use nedots::clean::CleanCmd;
use nedots::config::{get_sample, Config, Source, ValidateConfig};
use nedots::git_repo::GitRepo;
use nedots::init::InitCmd;
use nedots::install::InstallCmd;
use nedots::sync::{latest_message, SyncCmd};

fn test_config() -> Config {
    Config {
        root: String::from("/data/nedots"),
        dots_dir: String::from("/data/nedots/dots"),
        backup_dir: String::from("/data/nedots/backups"),
        remote: String::from("git@example.com:u/dots"),
        sources: vec![
            Source {
                declared: String::from(".bashrc"),
                resolved: String::from("/home/u/.bashrc"),
            },
            Source {
                declared: String::from(".config/app"),
                resolved: String::from("/home/u/.config/app"),
            },
        ],
        git_repos: vec![GitRepo {
            remote: String::from("git@example.com:u/nvim"),
            path: String::from("/home/u/.config/nvim"),
        }],
    }
}

#[test]
fn sample_config_has_the_documented_values() {
    let sample = get_sample();
    assert_eq!(sample.root, "");
    assert_eq!(sample.dots_dir, "");
    assert_eq!(sample.backup_dir, "");
    assert_eq!(sample.remote, "git@git.sr.ht:~nedia/nedots");
    assert_eq!(sample.sources.len(), 1);
    assert_eq!(sample.sources[0].declared, ".config/nedots");
    assert_eq!(sample.sources[0].resolved, ".config/nedots");
    assert_eq!(sample.git_repos.len(), 1);
    assert_eq!(sample.git_repos[0].remote, "git@git.sr.ht:~nedia/config.nvim");
    assert_eq!(sample.git_repos[0].path, ".config/nvim");
}

#[test]
fn git_commands_carry_the_exact_arguments() {
    let repo = GitRepo::new("git@example.com:u/dots", "/data/nedots");
    assert_eq!(repo.clone().args, vec!["clone", "git@example.com:u/dots", "/data/nedots"]);
    assert_eq!(repo.add(".").args, vec!["-C", "/data/nedots", "add", "."]);
    let commit = repo.commit("Latest");
    assert_eq!(commit.args, vec!["-C", "/data/nedots", "commit", "-m", "Latest"]);
    assert!(commit.allow_failure);
    assert_eq!(repo.pull().args, vec!["-C", "/data/nedots", "pull"]);
    assert_eq!(repo.push().args, vec!["-C", "/data/nedots", "push"]);
    assert_eq!(
        repo.init_submodules().args,
        vec!["-C", "/data/nedots", "submodule", "update", "--init", "--recursive"]
    );
    assert!(!repo.clone().allow_failure);
    assert!(!repo.push().allow_failure);
}

#[test]
fn backup_copies_every_source_into_the_snapshot() {
    // Each source is read from its resolved place and lands inside the
    // snapshot at its declared path.
    let config = test_config();
    let plan = BackupCmd.plan(&config, "1700000000");
    assert_eq!(plan.snapshot_dir, "/data/nedots/backups/1700000000");
    assert_eq!(plan.copies.len(), 2);
    assert_eq!(plan.copies[0].from, "/home/u/.bashrc");
    assert_eq!(plan.copies[0].to, "/data/nedots/backups/1700000000/.bashrc");
    assert_eq!(plan.copies[1].from, "/home/u/.config/app");
    assert_eq!(
        plan.copies[1].to,
        "/data/nedots/backups/1700000000/.config/app"
    );
}

#[test]
fn bare_backup_keys_each_source_by_its_declared_path() {
    let sources = vec![Source {
        declared: String::from(".bashrc"),
        resolved: String::from("/home/u/.bashrc"),
    }];
    let plan = backup(&sources, "/b/123");
    assert_eq!(plan.snapshot_dir, "/b/123");
    assert_eq!(plan.copies.len(), 1);
    assert_eq!(plan.copies[0].from, "/home/u/.bashrc");
    assert_eq!(plan.copies[0].to, "/b/123/.bashrc");
}

#[test]
fn install_with_no_key_covers_every_source_and_repository() {
    let config = test_config();
    let cmd = InstallCmd { key: None };
    let plan = cmd.plan(&config, "/home/u");
    assert!(plan.missing_key.is_none());
    assert_eq!(plan.copies.len(), 2);
    assert_eq!(plan.copies[0].to, "/home/u/.bashrc");
    assert_eq!(plan.copies[0].from, "/data/nedots/dots/home/u/.bashrc");
    assert_eq!(plan.copies[1].to, "/home/u/.config/app");
    assert_eq!(plan.copies[1].from, "/data/nedots/dots/home/u/.config/app");
    assert_eq!(plan.clones.len(), 1);
    assert_eq!(
        plan.clones[0].args,
        vec!["clone", "git@example.com:u/nvim", "/home/u/.config/nvim"]
    );
}

#[test]
fn install_with_a_key_picks_the_one_source() {
    let config = test_config();
    let cmd = InstallCmd { key: Some(String::from(".bashrc")) };
    let plan = cmd.plan(&config, "/home/u");
    assert!(plan.missing_key.is_none());
    assert!(plan.clones.is_empty());
    assert_eq!(plan.copies.len(), 1);
    assert_eq!(plan.copies[0].to, "/home/u/.bashrc");
    assert_eq!(plan.copies[0].from, "/data/nedots/dots/home/u/.bashrc");
}

#[test]
fn install_with_an_unknown_key_does_nothing_but_report() {
    let config = test_config();
    let cmd = InstallCmd { key: Some(String::from("zsh")) };
    let plan = cmd.plan(&config, "/home/u");
    assert_eq!(plan.missing_key, Some(String::from("zsh")));
    assert!(plan.copies.is_empty());
    assert!(plan.clones.is_empty());
}

#[test]
fn sync_without_gathering_touches_only_the_root_repository() {
    let config = test_config();
    let cmd = SyncCmd { gather: false, nopush: false };
    let plan = cmd.plan(&config, "Latest now");
    assert!(plan.gather_copies.is_empty());
    assert_eq!(plan.repo_syncs.len(), 1);
    let root = &plan.repo_syncs[0].commands;
    assert_eq!(root.len(), 4);
    assert_eq!(root[0].args, vec!["-C", "/data/nedots", "add", "."]);
    assert_eq!(root[1].args, vec!["-C", "/data/nedots", "commit", "-m", "Latest now"]);
    assert!(root[1].allow_failure);
    assert_eq!(root[2].args, vec!["-C", "/data/nedots", "pull"]);
    assert_eq!(root[3].args, vec!["-C", "/data/nedots", "push"]);
}

#[test]
fn sync_with_gathering_copies_sources_and_syncs_every_repository() {
    let config = test_config();
    let cmd = SyncCmd { gather: true, nopush: true };
    let plan = cmd.plan(&config, "Latest now");
    assert_eq!(plan.gather_copies.len(), 2);
    assert_eq!(plan.gather_copies[0].from, "/home/u/.bashrc");
    assert_eq!(plan.gather_copies[0].to, "/data/nedots/dots/home/u/.bashrc");
    assert_eq!(plan.repo_syncs.len(), 2);
    let nested = &plan.repo_syncs[0].commands;
    // With pushing held back, each sequence stops after the pull.
    assert_eq!(nested.len(), 3);
    assert_eq!(nested[0].args, vec!["-C", "/home/u/.config/nvim", "add", "."]);
    let root = &plan.repo_syncs[1].commands;
    assert_eq!(root.len(), 3);
    assert_eq!(root[0].args, vec!["-C", "/data/nedots", "add", "."]);
}

#[test]
fn commit_messages_start_with_latest() {
    assert_eq!(latest_message("2024-01-01 00:00:00"), "Latest 2024-01-01 00:00:00");
}

#[test]
fn clean_with_no_flags_cleans_both_directories() {
    let config = test_config();
    let cmd = CleanCmd { dots: false, backups: false, assumeyes: false };
    let targets = cmd.plan(&config);
    assert_eq!(targets.len(), 2);
    assert_eq!(targets[0].dir, "/data/nedots/dots");
    assert_eq!(targets[0].prompt, " ~ Cleaning dots. Continue?");
    assert!(targets[0].confirm);
    assert_eq!(targets[1].dir, "/data/nedots/backups");
    assert_eq!(targets[1].prompt, " ~ Cleaning backups. Continue?");
}

#[test]
fn clean_with_one_flag_cleans_one_directory() {
    let config = test_config();
    let dots_only = CleanCmd { dots: true, backups: false, assumeyes: true };
    let targets = dots_only.plan(&config);
    assert_eq!(targets.len(), 1);
    assert_eq!(targets[0].dir, "/data/nedots/dots");
    assert!(!targets[0].confirm);
    let backups_only = CleanCmd { dots: false, backups: true, assumeyes: false };
    let targets = backups_only.plan(&config);
    assert_eq!(targets.len(), 1);
    assert_eq!(targets[0].dir, "/data/nedots/backups");
}

#[test]
fn clean_with_both_flags_cleans_both_directories() {
    let config = test_config();
    let cmd = CleanCmd { dots: true, backups: true, assumeyes: true };
    let targets = cmd.plan(&config);
    assert_eq!(targets.len(), 2);
    assert_eq!(targets[0].dir, "/data/nedots/dots");
    assert_eq!(targets[1].dir, "/data/nedots/backups");
}

#[test]
fn init_on_a_fresh_root_clones_and_prepares_everything() {
    let cmd = InitCmd { from_user: Some(String::from("olduser")), remote: String::from("git@r") };
    let plan = cmd.plan("/data/nedots", "/home/u", "/home/u/.config", false, false);
    assert_eq!(plan.clone_commands.len(), 2);
    assert_eq!(plan.clone_commands[0].args, vec!["clone", "git@r", "/data/nedots"]);
    assert_eq!(
        plan.clone_commands[1].args,
        vec!["-C", "/data/nedots", "submodule", "update", "--init", "--recursive"]
    );
    let migrate = plan.migrate.unwrap();
    assert_eq!(migrate.from, "/data/nedots/dots/home/olduser");
    assert_eq!(migrate.to, "/data/nedots/dots/home/u");
    assert_eq!(plan.backup_dir, "/data/nedots/backups");
    let sample = plan.sample_config.unwrap();
    assert_eq!(sample.dir, "/home/u/.config/nedots");
    assert_eq!(sample.file, "/home/u/.config/nedots/nedots.yml");
}

#[test]
fn init_on_an_existing_root_leaves_it_alone() {
    let cmd = InitCmd { from_user: None, remote: String::from("git@r") };
    let plan = cmd.plan("/data/nedots", "/home/u", "/home/u/.config", true, true);
    assert!(plan.clone_commands.is_empty());
    assert!(plan.migrate.is_none());
    assert!(plan.sample_config.is_none());
    assert_eq!(plan.backup_dir, "/data/nedots/backups");
}

#[test]
fn resolution_drops_sources_that_cannot_resolve() {
    // `/` resolves to itself; a path that exists neither as given nor
    // under home is dropped from the working set rather than failing the
    // batch.
    let mut config = test_config();
    config.sources = vec![Source::new("/"), Source::new("/nonexistent-path-zzz")];
    config.git_repos = vec![GitRepo {
        remote: String::from("git@example.com:u/nvim"),
        path: String::from("/nonexistent-path-zzz"),
    }];
    let (resolved, warnings) = config.resolve_sources();
    assert_eq!(resolved.sources.len(), 1);
    assert_eq!(resolved.sources[0].declared, "/");
    assert_eq!(resolved.sources[0].resolved, "/");
    assert!(resolved.git_repos.is_empty());
    // One warning per dropped entry, each a resolution failure naming it.
    assert_eq!(warnings.len(), 2);
    assert!(warnings[0].message().starts_with("Failed to resolve `/nonexistent-path-zzz` ("));
    assert!(warnings[1].message().starts_with("Failed to resolve `/nonexistent-path-zzz` ("));
}

#[test]
fn timestamp_is_a_decimal_number() {
    let ts = nedots::backup::get_timestamp();
    assert!(ts.parse::<i64>().is_ok());
}

#[test]
fn validation_always_succeeds() {
    let cmd = InstallCmd { key: None };
    assert!(cmd.validate(test_config()).is_ok());
    let backup_cmd = BackupCmd;
    assert!(backup_cmd.validate(test_config()).is_ok());
}
