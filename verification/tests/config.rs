use std::path::{Path, PathBuf};
use strew::config::Config;
use strew::link::Link;
use strew::order::{compare, Order};
use strew::path::{anchor, expand, expand_for_user, is_absolute, join, resolve, resolve_for_user};

fn link(source: &str, target: &str) -> Link {
    Link { source: source.to_string(), target: target.to_string() }
}

#[test]
fn resolve_path_absolute() {
    let config = Config::new(Some(String::from("/config/dir")));

    assert_eq!(
        PathBuf::from(config.resolve_path("/absolute/path")),
        PathBuf::from("/absolute/path")
    );
}

#[test]
fn resolve_path_relative_with_base_dir() {
    let config = Config::new(Some(String::from("/config/dir")));

    assert_eq!(
        PathBuf::from(config.resolve_path("relative/path")),
        PathBuf::from("/config/dir/relative/path")
    );
}

#[test]
fn resolve_path_relative_without_base_dir() {
    let config = Config::new(None);

    assert_eq!(PathBuf::from(config.resolve_path("relative/path")), PathBuf::from("relative/path"));
}

#[test]
fn resolve_path_tilde_expansion() {
    let config = Config::new(Some(String::from("/config/dir")));

    let resolved = PathBuf::from(config.resolve_path("~/some/path"));

    assert!(resolved.is_absolute());
    assert!(resolved.ends_with("some/path"));
}

#[test]
fn resolve_path_gives_the_text_itself() {
    let config = Config::new(Some(String::from("/config/dir")));

    assert_eq!(config.resolve_path("/absolute/path"), "/absolute/path");
    assert_eq!(config.resolve_path("relative/path"), "/config/dir/relative/path");
    assert_eq!(Config::new(None).resolve_path("relative/path"), "relative/path");
}

#[test]
fn resolve_path_puts_the_home_directory_for_the_tilde() {
    let config = Config::new(None);

    let resolved = config.resolve_path("~/some/path");

    assert_eq!(resolved, shellexpand::tilde("~/some/path"));
    assert_ne!(resolved, "~/some/path");
    assert!(!resolved.starts_with('~'));
    assert!(resolved.ends_with("/some/path"));
    assert_eq!(expand_for_user("~/some/path"), resolved);
    assert_eq!(resolve_for_user("~/some/path", Some("/config/dir")), resolved);
}

#[test]
fn resolution_with_a_known_home_and_base() {
    let home = Some("/home/u");
    let base = Some("/home/u/cfg");

    assert_eq!(resolve("dotfiles/vimrc", home, base), "/home/u/cfg/dotfiles/vimrc");
    assert_eq!(resolve("~/.vimrc", home, base), "/home/u/.vimrc");
}

#[test]
fn tilde_is_expanded_before_the_path_is_anchored() {
    assert_eq!(resolve("~/x", Some("relative/home"), Some("/base")), "/base/relative/home/x");
    assert_eq!(resolve("~/x", None, Some("/base")), "/base/~/x");
    assert_eq!(resolve("~/x", None, None), "~/x");
    assert_eq!(resolve("/abs", Some("/home/u"), Some("/base")), "/abs");
    assert_eq!(resolve("rel", Some("/home/u"), None), "rel");
}

#[test]
fn expand_replaces_a_leading_tilde_only() {
    let home = Some("/home/u");

    assert_eq!(expand("~", home), "/home/u");
    assert_eq!(expand("~/", home), "/home/u/");
    assert_eq!(expand("~/a/b", home), "/home/u/a/b");
    assert_eq!(expand("~other/a", home), "~other/a");
    assert_eq!(expand("a/~/b", home), "a/~/b");
    assert_eq!(expand("", home), "");
    assert_eq!(expand("/~", home), "/~");
    assert_eq!(expand("~\\a", home), "~\\a");
    assert_eq!(expand("~/a", None), "~/a");
    assert_eq!(expand("~", None), "~");
    assert_eq!(expand("~/\u{e9}t\u{e9}", Some("/home/\u{fc}")), "/home/\u{fc}/\u{e9}t\u{e9}");
}

#[test]
fn expand_for_user_leaves_what_has_no_tilde() {
    assert_eq!(expand_for_user("/a/b"), "/a/b");
    assert_eq!(expand_for_user("a/b"), "a/b");
    assert_eq!(expand_for_user(""), "");
    assert_eq!(expand_for_user("~other/a"), "~other/a");
    assert_eq!(expand_for_user("~\\a"), "~\\a");
}

#[test]
fn join_puts_one_separator_between() {
    assert_eq!(join("/config/dir", "relative/path"), "/config/dir/relative/path");
    assert_eq!(join("/config/dir/", "relative/path"), "/config/dir/relative/path");
    assert_eq!(join("/", "a"), "/a");
    assert_eq!(join("", "a"), "a");
    assert_eq!(join("base", ""), "base/");
    assert_eq!(join("/base", "/absolute"), "/absolute");
    assert_eq!(join("b\u{e4}se", "\u{e9}"), "b\u{e4}se/\u{e9}");
}

#[test]
fn join_and_is_absolute_agree_with_std() {
    let samples = ["", "/", "a", "/a", "a/", "/a/", "a/b", "/a/b", "~", "~/a", ".", "..", "//a", "\u{e9}/\u{fc}"];

    for base in samples {
        assert_eq!(is_absolute(base), Path::new(base).is_absolute());
        for path in samples {
            assert_eq!(PathBuf::from(join(base, path)).into_os_string(), Path::new(base).join(path).into_os_string());
        }
    }
}

#[test]
fn anchor_keeps_an_absolute_path() {
    assert_eq!(anchor("/a".to_string(), Some("/base")), "/a");
    assert_eq!(anchor("a".to_string(), Some("/base")), "/base/a");
    assert_eq!(anchor("a".to_string(), None), "a");
    assert_eq!(anchor("".to_string(), Some("/base")), "/base/");
}

#[test]
fn compare_orders_names_as_strings_are_ordered() {
    assert_eq!(compare("a", "b"), Order::Before);
    assert_eq!(compare("b", "a"), Order::After);
    assert_eq!(compare("a", "a"), Order::Same);
    assert_eq!(compare("", ""), Order::Same);
    assert_eq!(compare("", "a"), Order::Before);
    assert_eq!(compare("vim", "vimrc"), Order::Before);
    assert_eq!(compare("vimrc", "vim"), Order::After);
    assert_eq!(compare("Z", "a"), Order::Before);

    let samples = ["", "a", "ab", "b", "B", "\u{e9}", "z", "\u{1f600}", "\u{ffff}", "a\u{0}", "~"];
    for left in samples {
        for right in samples {
            let expected = if left < right {
                Order::Before
            } else if left == right {
                Order::Same
            } else {
                Order::After
            };
            assert_eq!(compare(left, right), expected);
        }
    }
}

#[test]
fn config_keeps_the_links_in_the_order_of_their_names() {
    let mut config = Config::new(None);
    assert!(config.is_empty());

    assert_eq!(config.insert("vim".to_string(), link("/s/vim", "/t/vim")), None);
    assert_eq!(config.insert("zsh".to_string(), link("/s/zsh", "/t/zsh")), None);
    assert_eq!(config.insert("bash".to_string(), link("/s/bash", "/t/bash")), None);
    assert_eq!(config.insert("git".to_string(), link("/s/git", "/t/git")), None);

    assert_eq!(config.len(), 4);
    assert!(!config.is_empty());
    assert_eq!(
        config.links(),
        vec![
            ("bash", link("/s/bash", "/t/bash")),
            ("git", link("/s/git", "/t/git")),
            ("vim", link("/s/vim", "/t/vim")),
            ("zsh", link("/s/zsh", "/t/zsh")),
        ]
    );
}

#[test]
fn config_has_one_link_for_a_name() {
    let mut config = Config::new(None);
    config.insert("a".to_string(), link("/s/a", "/t/a"));
    config.insert("b".to_string(), link("/s/b", "/t/b"));

    let before = config.insert("a".to_string(), link("/s/other", "/t/other"));

    assert_eq!(before, Some(link("/s/a", "/t/a")));
    assert_eq!(config.len(), 2);
    assert_eq!(config.get("a"), Some(&link("/s/other", "/t/other")));
    assert_eq!(config.get("b"), Some(&link("/s/b", "/t/b")));
    assert_eq!(config.get("c"), None);
    assert_eq!(config.get(""), None);
}

#[test]
fn config_links_are_resolved() {
    let mut config = Config::new(Some("/home/u/cfg".to_string()));
    config.insert("vim".to_string(), link("dotfiles/vimrc", "/home/u/.vimrc"));
    config.insert("git".to_string(), link("/etc/gitconfig", "git/config"));

    assert_eq!(config.base_dir(), Some("/home/u/cfg"));
    assert_eq!(
        config.links(),
        vec![
            ("git", link("/etc/gitconfig", "/home/u/cfg/git/config")),
            ("vim", link("/home/u/cfg/dotfiles/vimrc", "/home/u/.vimrc")),
        ]
    );
    assert_eq!(config.get("vim"), Some(&link("dotfiles/vimrc", "/home/u/.vimrc")));
}

#[test]
fn config_by_default_is_empty() {
    let config = Config::default();

    assert!(config.is_empty());
    assert_eq!(config.len(), 0);
    assert_eq!(config.base_dir(), None);
    assert!(config.links().is_empty());
}
