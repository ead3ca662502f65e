use git_lab::mr::{
    add_wip, build_description, quick_edit_lock, quick_edit_state_event, resolves_issue_mr_title,
    split_commit_message, strip_remote_prefix, strip_wip, text_lines, toggle_wip_title, ShortCmd,
    StateEvent,
};
use git_lab::naming::{branch_prefixed_with_issue_id, issue_prefix_string, slug_and_prefix};

#[test]
fn titles_resolving_issues_are_quoted() {
    assert_eq!(resolves_issue_mr_title("Fix the bug"), "Resolve \"Fix the bug\"");
}

#[test]
fn wip_markers_are_stripped_in_order() {
    assert_eq!(strip_wip("WIP: fix".to_string()), " fix");
    assert_eq!(strip_wip("[WIP]fix".to_string()), "fix");
    assert_eq!(strip_wip("Draft: fix".to_string()), " fix");
    assert_eq!(strip_wip("[Draft] fix".to_string()), " fix");
    assert_eq!(strip_wip("(Draft) fix".to_string()), " fix");
    assert_eq!(strip_wip("fix".to_string()), "fix");
}

#[test]
fn wip_toggle_updates_titles() {
    assert_eq!(add_wip("fix"), "WIP: fix");
    assert_eq!(toggle_wip_title("WIP: fix".to_string(), true, false, true), " fix");
    assert_eq!(toggle_wip_title("fix".to_string(), false, true, false), "WIP: fix");
    assert_eq!(toggle_wip_title("fix".to_string(), false, false, false), "fix");
    assert_eq!(toggle_wip_title("WIP: fix".to_string(), true, true, false), "WIP: fix");
}

#[test]
fn quick_edit_commands_map_to_their_actions() {
    assert_eq!(quick_edit_state_event(ShortCmd::Close), Some(StateEvent::Close));
    assert_eq!(quick_edit_state_event(ShortCmd::Reopen), Some(StateEvent::Reopen));
    assert_eq!(quick_edit_state_event(ShortCmd::Lock), None);
    assert_eq!(quick_edit_lock(ShortCmd::Lock), Some(true));
    assert_eq!(quick_edit_lock(ShortCmd::Unlock), Some(false));
    assert_eq!(quick_edit_lock(ShortCmd::Assign), None);
    assert_eq!(quick_edit_lock(ShortCmd::Wip), None);
}

#[test]
fn descriptions_carry_the_closes_trailer() {
    assert_eq!(
        build_description(Some("desc"), None, Some(42)),
        Some("desc\n\nCloses #42".to_string())
    );
    assert_eq!(
        build_description(None, Some("body"), Some(42)),
        Some("body\n\nCloses #42".to_string())
    );
    assert_eq!(build_description(None, None, Some(7)), Some("Closes #7".to_string()));
    assert_eq!(build_description(Some("desc"), Some("body"), None), Some("desc".to_string()));
    assert_eq!(build_description(None, Some("body"), None), Some("body".to_string()));
    assert_eq!(build_description(None, None, None), None);
}

#[test]
fn commit_messages_split_into_head_and_body() {
    assert_eq!(
        split_commit_message("subject\n\nbody one\nbody two"),
        (
            "subject".to_string(),
            Some("body one\nbody two".to_string())
        )
    );
    assert_eq!(split_commit_message("subject only"), ("subject only".to_string(), None));
    assert_eq!(split_commit_message("subject\n\n"), ("subject".to_string(), None));
    assert_eq!(
        split_commit_message("subject\r\n\r\nbody"),
        ("subject".to_string(), Some("body".to_string()))
    );
}

#[test]
fn lines_match_std_behaviour() {
    assert_eq!(text_lines("a\nb"), vec!["a".to_string(), "b".to_string()]);
    assert_eq!(text_lines("a\r\nb\n"), vec!["a".to_string(), "b".to_string()]);
    assert_eq!(text_lines(""), Vec::<String>::new());
    assert_eq!(text_lines("\n"), vec!["".to_string()]);
    for sample in ["x", "x\ny", "a\r\nb\r", "\n\n", "one\r\ntwo\nthree\r"] {
        let expected: Vec<String> = sample.lines().map(|l| l.to_string()).collect();
        assert_eq!(text_lines(sample), expected, "lines of {sample:?}");
    }
}

#[test]
fn tracking_branches_lose_their_remote_prefix() {
    assert_eq!(strip_remote_prefix("origin/42-fix"), "42-fix");
    assert_eq!(strip_remote_prefix("upstream/42-fix"), "upstream/42-fix");
    assert_eq!(strip_remote_prefix("origin/"), "");
}

#[test]
fn issue_prefixes_are_exact() {
    assert_eq!(issue_prefix_string(42), "42-");
    assert!(branch_prefixed_with_issue_id("42-fix", 42));
    assert!(!branch_prefixed_with_issue_id("420-fix", 42));
    assert!(!branch_prefixed_with_issue_id("42fix", 42));
    assert!(!branch_prefixed_with_issue_id("fix-42", 42));
    assert!(branch_prefixed_with_issue_id("0-fix", 0));
}

#[test]
fn slugs_are_prefixed_for_issues() {
    assert_eq!(slug_and_prefix(42, "My Title"), "42-my-title");
    assert_eq!(slug_and_prefix(1, "Hello  World!"), "1-hello-world");
    assert!(branch_prefixed_with_issue_id(&slug_and_prefix(9, "Big Change"), 9));
}
