use cargo_diagnose::text::{matches_at, remove_matches, same_text, trim_end_matches};

#[test]
fn trim_end_matches_like_std() {
    for (s, p) in [("tokio.git", ".git"), ("a.git.git", ".git"), (".git", ".git"), ("abc", ""), ("", "x"), ("héllo.git", ".git")] {
        assert_eq!(trim_end_matches(s, p), s.trim_end_matches(p));
    }
}

#[test]
fn remove_matches_like_std_replace() {
    for (s, p) in [("https://www.x.com", "www."), ("aaaa", "aa"), ("aaa", "aa"), ("abc", ""), ("ñañaña", "ña"), ("xyz", "q")] {
        assert_eq!(remove_matches(s, p), s.replace(p, ""));
    }
}

#[test]
fn same_text_and_matches_at() {
    assert!(same_text("github.com", "github.com"));
    assert!(!same_text("github.com", "github.co"));
    assert!(matches_at("abcdef", 2, "cd"));
    assert!(!matches_at("abcdef", 5, "fg"));
}

#[test]
fn trimming_twice_changes_nothing() {
    let once = trim_end_matches("repo.git.git", ".git");
    assert_eq!(once, "repo");
    assert_eq!(trim_end_matches(&once, ".git"), once);
}
