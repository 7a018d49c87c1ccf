use cargo_diagnose::api::crates_io::crate_info_url;
use cargo_diagnose::api::github::{
    github_repo_from_parts, parse_github_url, GithubRepoStats, UrlParts,
};
use cargo_diagnose::api::osv::vulnerability_query;
use cargo_diagnose::api::{after_attempt, start_retry, RetryDecision, RetryState};

/// Drives the retry decisions over attempts that turn out as `outcome` says,
/// returning the final result, the number of attempts and the waits.
fn run_retry(
    mut outcome: impl FnMut(usize) -> Result<i32, &'static str>,
    max_attempts: usize,
) -> (Result<i32, &'static str>, usize, Vec<u64>) {
    let mut state = start_retry();
    let mut waits = Vec::new();
    loop {
        let res = outcome(state.attempts + 1);
        match after_attempt(&mut state, res.is_ok(), max_attempts) {
            RetryDecision::Return => return (res, state.attempts, waits),
            RetryDecision::RetryAfter { backoff_secs } => waits.push(backoff_secs),
        }
    }
}

#[test]
fn test_retry_success_first_try() {
    let mut count = 0;
    let (res, attempts, _) = run_retry(
        |_| {
            count += 1;
            Ok(42)
        },
        3,
    );
    assert_eq!(res, Ok(42));
    assert_eq!(count, 1);
    assert_eq!(attempts, 1);
}

#[test]
fn test_retry_eventual_success() {
    let mut count = 0;
    let (res, _, _) = run_retry(
        |_| {
            count += 1;
            if count < 3 { Err("fail") } else { Ok(42) }
        },
        3,
    );
    assert_eq!(res, Ok(42));
    assert_eq!(count, 3);
}

#[test]
fn test_retry_max_attempts_reached() {
    let mut count = 0;
    let (res, _, _) = run_retry(
        |_| {
            count += 1;
            Err("always fail")
        },
        2,
    );
    assert_eq!(res, Err("always fail"));
    assert_eq!(count, 2);
}

#[test]
fn retry_waits_double_up_to_the_cap() {
    let (res, attempts, waits) = run_retry(|_| Err("no"), 8);
    assert_eq!(res, Err("no"));
    assert_eq!(attempts, 8);
    assert_eq!(waits, vec![1, 2, 4, 8, 16, 30, 30]);
}

#[test]
fn retry_with_zero_attempts_still_tries_once() {
    let (res, attempts, waits) = run_retry(|_| Err("no"), 0);
    assert_eq!(res, Err("no"));
    assert_eq!(attempts, 1);
    assert!(waits.is_empty());
}

#[test]
fn retry_step_on_failure() {
    let mut state = RetryState { attempts: 0, backoff_secs: 20 };
    assert_eq!(after_attempt(&mut state, false, 5), RetryDecision::RetryAfter { backoff_secs: 20 });
    assert_eq!(state, RetryState { attempts: 1, backoff_secs: 30 });
    assert_eq!(after_attempt(&mut state, true, 5), RetryDecision::Return);
    assert_eq!(state.attempts, 2);
}

#[test]
fn test_parse_github_url() {
    assert_eq!(
        parse_github_url("https://github.com/tokio-rs/tokio"),
        Some(("tokio-rs".to_string(), "tokio".to_string()))
    );
    assert_eq!(
        parse_github_url("https://github.com/tokio-rs/tokio.git"),
        Some(("tokio-rs".to_string(), "tokio".to_string()))
    );
    assert_eq!(
        parse_github_url("http://github.com/serde-rs/serde"),
        Some(("serde-rs".to_string(), "serde".to_string()))
    );
    assert_eq!(parse_github_url("github.com/tokio-rs/tokio"), None);
    assert_eq!(parse_github_url("https://gitlab.com/example/repo"), None);
    assert_eq!(parse_github_url("https://github.com/only-owner"), None);
}

#[test]
fn github_url_edge_cases() {
    assert_eq!(
        parse_github_url("https://github.com/rust-lang/rust/tree/master"),
        Some(("rust-lang".to_string(), "rust".to_string()))
    );
    assert_eq!(
        parse_github_url("https://github.com/a/b.git.git"),
        Some(("a".to_string(), "b".to_string()))
    );
    assert_eq!(parse_github_url("https://github.com/a/.git"), None);
    assert_eq!(parse_github_url("https://github.com/a/"), None);
    assert_eq!(parse_github_url("https://github.com"), None);
    assert_eq!(parse_github_url("https://www.github.com/a/b"), None);
    assert_eq!(parse_github_url("not a url"), None);
}

fn parts(host: Option<&str>, segments: Option<Vec<&str>>) -> Option<UrlParts> {
    Some(UrlParts {
        host: host.map(|h| h.to_string()),
        path_segments: segments.map(|s| s.into_iter().map(|x| x.to_string()).collect()),
    })
}

#[test]
fn github_repo_from_parts_cases() {
    assert_eq!(
        github_repo_from_parts(parts(Some("github.com"), Some(vec!["o", "r.git"]))),
        Some(("o".to_string(), "r".to_string()))
    );
    assert_eq!(github_repo_from_parts(parts(Some("github.com"), Some(vec!["", "r"]))), None);
    assert_eq!(github_repo_from_parts(parts(Some("github.com"), None)), None);
    assert_eq!(github_repo_from_parts(parts(None, Some(vec!["o", "r"]))), None);
    assert_eq!(github_repo_from_parts(parts(Some("GitHub.com"), Some(vec!["o", "r"]))), None);
    assert_eq!(github_repo_from_parts(None), None);
    assert_eq!(
        github_repo_from_parts(parts(Some("github.com"), Some(vec!["o", "r.git.git", "tree", "main"]))),
        Some(("o".to_string(), "r".to_string()))
    );
}

#[test]
fn repo_stats_defaults() {
    let stats = GithubRepoStats::from_counts(None, None, None);
    assert_eq!(stats.stars, 0);
    assert_eq!(stats.open_issues, 0);
    assert!(!stats.is_archived);
    let stats = GithubRepoStats::from_counts(Some(7), Some(3), Some(true));
    assert_eq!((stats.stars, stats.open_issues, stats.is_archived), (7, 3, true));
}

#[test]
fn crates_io_url() {
    assert_eq!(crate_info_url("serde"), "https://crates.io/api/v1/crates/serde");
}

#[test]
fn osv_query_fields() {
    let q = vulnerability_query("time", "0.1.0");
    assert_eq!(q.version, "0.1.0");
    assert_eq!(q.package.name, "time");
    assert_eq!(q.package.ecosystem, "crates.io");
}
