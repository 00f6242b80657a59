use nedots::config::{Config, Source};
use nedots::git_repo::GitRepo;
use nedots::index::{has_substring, str_eq};

fn config_with_sources(sources: Vec<&str>) -> Config {
    Config {
        root: String::new(),
        dots_dir: String::new(),
        backup_dir: String::new(),
        remote: String::new(),
        sources: sources.into_iter().map(Source::new).collect(),
        git_repos: Vec::<GitRepo>::new(),
    }
}

#[test]
fn key_lookup_finds_the_declared_source() {
    let config = config_with_sources(vec![".config/bspwm", ".profile"]);
    let idx = config.get_sources_as_hashmap();
    assert_eq!(idx.get("bspwm"), Some(String::from(".config/bspwm")));
    assert_eq!(idx.get(".profile"), Some(String::from(".profile")));
}

#[test]
fn key_lookup_misses_an_unrelated_key() {
    let config = config_with_sources(vec![".config/bspwm", ".profile"]);
    let idx = config.get_sources_as_hashmap();
    assert_eq!(idx.get("zsh"), None);
    // Only whole segments become keys: a fragment of one does not.
    assert_eq!(idx.get("pro"), None);
    // The empty segment never becomes a key.
    assert_eq!(idx.get(""), None);
}

#[test]
fn shared_segment_maps_to_the_first_declared_source() {
    // Both sources contain the segment `.config`; the first declared one
    // wins.
    let config = config_with_sources(vec![".config/bspwm", ".config/nvim"]);
    let idx = config.get_sources_as_hashmap();
    assert_eq!(idx.get(".config"), Some(String::from(".config/bspwm")));
    assert_eq!(idx.get("nvim"), Some(String::from(".config/nvim")));
}

#[test]
fn substring_key_can_match_an_earlier_source() {
    // The known ambiguity of substring matching: `rc` is a segment of the
    // second source but occurs inside the first one's text, so the first
    // source wins.
    let config = config_with_sources(vec![".bashrc", "rc"]);
    let idx = config.get_sources_as_hashmap();
    assert_eq!(idx.get("rc"), Some(String::from(".bashrc")));
}

#[test]
fn substring_search_matches_anywhere() {
    assert!(has_substring(".config/bspwm", "bspwm"));
    assert!(has_substring(".config/bspwm", ""));
    assert!(has_substring("abc", "abc"));
    assert!(!has_substring("abc", "abcd"));
    assert!(!has_substring("abc", "x"));
}

#[test]
fn string_equality_compares_characters() {
    assert!(str_eq("", ""));
    assert!(str_eq("abc", "abc"));
    assert!(!str_eq("abc", "abd"));
    assert!(!str_eq("abc", "ab"));
}
