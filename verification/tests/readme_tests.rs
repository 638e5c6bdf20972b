use norenwake::models::README_MESSAGE;
use norenwake::readme::{strip_existing_norenwake_intro, updated_readme_ja};

#[test]
fn readme_is_created_when_missing() {
    let text = updated_readme_ja(None, "my-new-repo");
    assert!(text.contains("my-new-repo"));
    assert!(text.contains(README_MESSAGE));
}

#[test]
fn readme_intro_is_replaced_not_duplicated() {
    let old = format!(
        "# my-new-repo\n\n{}\n\n# 本来のREADME\n\n本文です\n",
        README_MESSAGE
    );
    let text = updated_readme_ja(Some(&old), "new-repo-name");

    assert!(text.starts_with(&format!("# new-repo-name\n\n{}\n\n", README_MESSAGE)));
    assert!(!text.contains("# my-new-repo\n\n"));
    assert!(text.contains("# 本来のREADME"));
}

#[test]
fn stacked_intros_are_collapsed_to_one() {
    let old = format!(
        "# newest\n\n{}\n\n# older\n\n{}\n\n# 本来のREADME\n",
        README_MESSAGE, README_MESSAGE
    );
    let text = updated_readme_ja(Some(&old), "final-name");

    assert_eq!(text.matches(README_MESSAGE).count(), 1);
    assert!(text.starts_with("# final-name\n\n"));
    assert!(text.contains("# 本来のREADME"));
}

#[test]
fn trailing_newline_is_preserved_when_present() {
    let old = format!("# my-new-repo\n\n{}\n\n# 本来のREADME\n", README_MESSAGE);
    let text = updated_readme_ja(Some(&old), "new-repo-name");
    assert!(text.ends_with('\n'));
}

#[test]
fn trailing_newline_is_preserved_when_absent() {
    let old = format!("# my-new-repo\n\n{}\n\n# 本来のREADME", README_MESSAGE);
    let text = updated_readme_ja(Some(&old), "new-repo-name");
    assert!(!text.ends_with('\n'));
}

#[test]
fn a_new_readme_is_just_the_intro() {
    assert_eq!(
        updated_readme_ja(None, "tool"),
        format!("# tool\n\n{}\n", README_MESSAGE)
    );
}

#[test]
fn an_empty_old_readme_gets_the_intro_only() {
    assert_eq!(
        updated_readme_ja(Some("\n\n"), "tool"),
        format!("# tool\n\n{}\n", README_MESSAGE)
    );
    assert_eq!(
        updated_readme_ja(Some(""), "tool"),
        format!("# tool\n\n{}", README_MESSAGE)
    );
}

#[test]
fn renaming_twice_gives_the_same_readme_as_renaming_once() {
    let plain = "# 本来のREADME\n\n本文です\n";
    let once = updated_readme_ja(Some(plain), "first");
    let twice = updated_readme_ja(Some(&once), "second");
    assert_eq!(twice, updated_readme_ja(Some(plain), "second"));
}

#[test]
fn intro_with_source_line_is_stripped() {
    let old = format!("# x\n\n{}\n\n元repo: `me/source`\n\n# body\n", README_MESSAGE);
    assert_eq!(strip_existing_norenwake_intro(&old), "# body");
    assert_eq!(strip_existing_norenwake_intro("\r\n# only a title\n"), "# only a title\n");
}
