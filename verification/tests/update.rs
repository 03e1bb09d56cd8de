use worktree_gc::update::{opening_lines, react, run, updated_line, UpdateAction};

#[test]
fn a_newer_release_is_installed() {
    let (lines, action) = run("0.1.0", Some("v0.2.0"), false);
    assert_eq!(lines, vec!["Latest version:  v0.2.0", "Updating to v0.2.0..."]);
    assert!(matches!(action, UpdateAction::Install));
    assert_eq!(updated_line("v0.2.0"), "Updated successfully to v0.2.0!");
}

#[test]
fn a_check_installs_nothing() {
    let (lines, action) = run("0.1.0", Some("v0.2.0"), true);
    assert_eq!(lines, vec!["Latest version:  v0.2.0", "Run `worktree-gc update` to upgrade."]);
    assert!(matches!(action, UpdateAction::Stop));
}

#[test]
fn the_running_version_is_up_to_date() {
    for tag in ["v1.2.3", "1.2.3", "vv1.2.3", "v1.2.2", "v1.2.3-rc.1"] {
        let (lines, action) = run("1.2.3", Some(tag), false);
        assert_eq!(lines[1], "Already up to date.");
        assert!(matches!(action, UpdateAction::Stop));
    }
}

#[test]
fn versions_are_compared_as_versions() {
    let (_, action) = run("0.9.0", Some("v0.10.0"), false);
    assert!(matches!(action, UpdateAction::Install));
    let (_, action) = run("1.0.0-rc.1", Some("v1.0.0"), false);
    assert!(matches!(action, UpdateAction::Install));
}

#[test]
fn a_tag_that_is_no_version_fails() {
    let (lines, action) = run("0.1.0", Some("vnext"), false);
    assert_eq!(lines, vec!["Latest version:  vnext"]);
    match action {
        UpdateAction::Fail(e) => {
            assert!(e.message().starts_with("Failed to compare versions: SemVerError: "))
        }
        other => panic!("{other:?}"),
    }
}

#[test]
fn without_a_release_there_is_nothing_to_do() {
    let (lines, action) = run("0.1.0", None, false);
    assert_eq!(lines, vec!["No releases found on GitHub."]);
    assert!(matches!(action, UpdateAction::Stop));
}

#[test]
fn each_comparison_has_its_reaction() {
    let (lines, action) = react("2.0.0", Ok(false), false);
    assert_eq!(lines, vec!["Latest version:  v2.0.0", "Already up to date."]);
    assert!(matches!(action, UpdateAction::Stop));
    let (_, action) = react("2.0.0", Ok(true), false);
    assert!(matches!(action, UpdateAction::Install));
    let (_, action) = react("2.0.0", Err("bad".to_string()), true);
    match action {
        UpdateAction::Fail(e) => assert_eq!(e.message(), "Failed to compare versions: bad"),
        other => panic!("{other:?}"),
    }
    assert_eq!(
        opening_lines("0.1.0"),
        vec![
            "Current version: v0.1.0",
            "Checking for updates from github.com/yuto-ts/worktree-gc...",
        ]
    );
}
