use norenwake::github::{
    check_repo_name_available, readme_after_response, readme_urls, ReadmeAttempt, ReadmeNext, repo_is_selectable, repo_lookup, select_repos,
    sort_repos, token_from_env, token_from_gh_output, ReadmeContent, RepoPager, TokenError,
};
use norenwake::models::Repo;

fn repo(name: &str, updated_at: &str, private: bool, fork: bool, archived: bool) -> Repo {
    Repo {
        name: name.to_string(),
        full_name: format!("me/{}", name),
        clone_url: format!("https://github.com/me/{}.git", name),
        default_branch: "main".to_string(),
        private,
        fork,
        archived,
        updated_at: updated_at.to_string(),
        description: None,
    }
}

#[test]
fn repo_filter_matches_product_rules() {
    assert!(repo_is_selectable(&repo(
        "a",
        "2026-01-01T00:00:00Z",
        false,
        false,
        false
    )));
    assert!(!repo_is_selectable(&repo(
        "b",
        "2026-01-01T00:00:00Z",
        true,
        false,
        false
    )));
    assert!(!repo_is_selectable(&repo(
        "c",
        "2026-01-01T00:00:00Z",
        false,
        true,
        false
    )));
    assert!(!repo_is_selectable(&repo(
        "d",
        "2026-01-01T00:00:00Z",
        false,
        false,
        true
    )));
}

#[test]
fn repo_sort_is_descending_by_updated_at() {
    let repos = vec![
        repo("old", "2026-01-01T00:00:00Z", false, false, false),
        repo("new", "2026-02-01T00:00:00Z", false, false, false),
    ];
    let sorted = sort_repos(repos);
    assert_eq!(sorted[0].name, "new");
    assert_eq!(sorted[1].name, "old");
}

#[test]
fn sort_keeps_the_order_of_equal_timestamps() {
    let repos = vec![
        repo("first", "2026-01-01T00:00:00Z", false, false, false),
        repo("newest", "2026-03-01T00:00:00Z", false, false, false),
        repo("second", "2026-01-01T00:00:00Z", false, false, false),
    ];
    let sorted = sort_repos(repos);
    let names: Vec<&str> = sorted.iter().map(|r| r.name.as_str()).collect();
    assert_eq!(names, vec!["newest", "first", "second"]);
}

#[test]
fn listing_drops_private_forks_and_archives_then_sorts() {
    let all = vec![
        repo("keep-old", "2026-01-01T00:00:00Z", false, false, false),
        repo("private", "2026-05-01T00:00:00Z", true, false, false),
        repo("fork", "2026-05-01T00:00:00Z", false, true, false),
        repo("keep-new", "2026-04-01T00:00:00Z", false, false, false),
        repo("archived", "2026-05-01T00:00:00Z", false, false, true),
    ];
    let listed = select_repos(all);
    let names: Vec<&str> = listed.iter().map(|r| r.name.as_str()).collect();
    assert_eq!(names, vec!["keep-new", "keep-old"]);
}

#[test]
fn pager_asks_page_after_page_until_an_empty_one() {
    let mut pager = RepoPager::new();
    assert_eq!(
        pager.page_url(),
        "https://api.github.com/user/repos?per_page=100&page=1&sort=updated&direction=desc&affiliation=owner"
    );
    assert!(pager.receive_page(vec![repo("a", "2026-01-01T00:00:00Z", false, false, false)]));
    assert_eq!(pager.page, 2);
    assert!(pager.page_url().contains("&page=2&"));
    assert!(pager.receive_page(vec![
        repo("b", "2026-03-01T00:00:00Z", false, false, false),
        repo("c", "2026-02-01T00:00:00Z", true, false, false),
    ]));
    assert!(!pager.receive_page(Vec::new()));
    assert_eq!(pager.page, 3);
    let listed = pager.finish();
    let names: Vec<&str> = listed.iter().map(|r| r.name.as_str()).collect();
    assert_eq!(names, vec!["b", "a"]);
}

#[test]
fn readme_is_asked_in_japanese_first() {
    let (primary, fallback) = readme_urls("me/tool");
    assert_eq!(primary, "https://api.github.com/repos/me/tool/contents/README.ja.md");
    assert_eq!(fallback, "https://api.github.com/repos/me/tool/contents/README.md");
    let ja = ReadmeContent::fetched(true, "本文".to_string());
    assert_eq!(ja.file_name, "README.ja.md");
    assert_eq!(ja.markdown, "本文");
    let en = ReadmeContent::fetched(false, "text".to_string());
    assert_eq!(en.file_name, "README.md");
}

#[test]
fn a_name_is_free_only_on_not_found() {
    assert_eq!(repo_lookup("me", "tool"), "https://api.github.com/repos/me/tool");
    assert!(check_repo_name_available(404));
    assert!(!check_repo_name_available(200));
    assert!(!check_repo_name_available(500));
}

#[test]
fn token_comes_from_gh_token_then_github_token() {
    assert_eq!(
        token_from_env(Some("a".to_string()), Some("b".to_string())),
        Some("a".to_string())
    );
    assert_eq!(
        token_from_env(Some("  ".to_string()), Some("b".to_string())),
        Some("b".to_string())
    );
    assert_eq!(token_from_env(None, Some("".to_string())), None);
    assert_eq!(token_from_env(None, None), None);
}

#[test]
fn gh_output_is_trimmed_and_checked() {
    assert_eq!(token_from_gh_output(true, "  gho_abc \n"), Ok("gho_abc".to_string()));
    assert_eq!(token_from_gh_output(false, "gho_abc"), Err(TokenError::CommandFailed));
    assert_eq!(token_from_gh_output(true, " \n"), Err(TokenError::Empty));
}

#[test]
fn the_readme_falls_back_from_japanese_to_plain() {
    match readme_after_response("me/tool", ReadmeAttempt::Japanese, None) {
        ReadmeNext::TryPlain(url) => assert_eq!(url, "https://api.github.com/repos/me/tool/contents/README.md"),
        _ => panic!("expected a second request"),
    }
    match readme_after_response("me/tool", ReadmeAttempt::Japanese, Some("# ja".to_string())) {
        ReadmeNext::Found(c) => {
            assert_eq!(c.file_name, "README.ja.md");
            assert_eq!(c.markdown, "# ja");
        }
        _ => panic!("expected the Japanese README"),
    }
    match readme_after_response("me/tool", ReadmeAttempt::Plain, Some("# en".to_string())) {
        ReadmeNext::Found(c) => {
            assert_eq!(c.file_name, "README.md");
            assert_eq!(c.markdown, "# en");
        }
        _ => panic!("expected the plain README"),
    }
    assert!(matches!(readme_after_response("me/tool", ReadmeAttempt::Plain, None), ReadmeNext::Missing));
}
