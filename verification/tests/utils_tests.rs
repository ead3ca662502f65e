use git_lab::config::Config;
use git_lab::utils::{get_proj_from_arg_or_conf, map_user_ids_from_names};

fn members() -> Vec<String> {
    vec![
        "1234:alice".to_string(),
        "5678:bob".to_string(),
        "9:carol".to_string(),
    ]
}

#[test]
fn usernames_map_to_member_ids() {
    let names = vec!["bob".to_string(), "alice".to_string()];
    assert_eq!(map_user_ids_from_names(&members(), &names), Ok(vec![5678, 1234]));
}

#[test]
fn unknown_usernames_fail_the_call() {
    let names = vec!["mallory".to_string()];
    let err = map_user_ids_from_names(&members(), &names).unwrap_err();
    assert!(err.contains("Username `mallory` not found"));
}

#[test]
fn a_username_cannot_be_spent_twice() {
    let names = vec!["carol".to_string(), "carol".to_string()];
    assert!(map_user_ids_from_names(&members(), &names).is_err());
}

#[test]
fn later_member_entries_override_earlier_ones() {
    let mut ms = members();
    ms.push("42:alice".to_string());
    let names = vec!["alice".to_string()];
    assert_eq!(map_user_ids_from_names(&ms, &names), Ok(vec![42]));
}

#[test]
fn decimal_rendering_and_parsing_are_inverse() {
    for n in [0u64, 1, 9, 10, 42, 1943, u64::MAX] {
        let s = git_lab::strutil::u64_to_string(n);
        assert_eq!(git_lab::strutil::parse_u64(&s), Some(n));
    }
    assert_eq!(git_lab::strutil::u64_to_string(0), "0");
    assert_eq!(git_lab::strutil::u64_to_string(1943), "1943");
}

#[test]
fn argument_wins_over_attached_project() {
    let mut config = Config::new();
    assert!(get_proj_from_arg_or_conf(None, &config).is_err());
    config.projectid = Some(7);
    assert_eq!(get_proj_from_arg_or_conf(None, &config), Ok(7));
    assert_eq!(get_proj_from_arg_or_conf(Some("42"), &config), Ok(42));
    config.projectid = None;
    assert_eq!(get_proj_from_arg_or_conf(Some("42"), &config), Ok(42));
}
