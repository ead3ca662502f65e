use git_lab::project::{
    dedup_members, find_project_id, get_proj_id_by_remote, get_project_labels,
    get_project_members, get_search_param_and_remote_type, parse_pid_from_gid, sort_members,
    Member, RemoteProjectInfo, RemoteType,
};

fn member(id: u64, username: &str) -> Member {
    Member { id, username: username.to_string() }
}

#[test]
fn members_are_sorted_deduped_and_formatted() {
    let ancestors = vec![member(3, "carol"), member(1, "alice")];
    let project = vec![member(2, "bob"), member(1, "alice")];
    assert_eq!(
        get_project_members(ancestors, project),
        vec!["1:alice".to_string(), "2:bob".to_string(), "3:carol".to_string()]
    );
}

#[test]
fn member_sort_and_dedup_pieces() {
    let sorted = sort_members(vec![member(2, "bob"), member(1, "alice"), member(2, "bob")]);
    let names: Vec<&str> = sorted.iter().map(|m| m.username.as_str()).collect();
    assert_eq!(names, ["alice", "bob", "bob"]);
    let deduped = dedup_members(sorted);
    assert_eq!(deduped, vec![member(1, "alice"), member(2, "bob")]);
}

#[test]
fn labels_are_sorted() {
    let labels = vec!["ui".to_string(), "bug".to_string(), "doc".to_string()];
    assert_eq!(
        get_project_labels(labels),
        vec!["bug".to_string(), "doc".to_string(), "ui".to_string()]
    );
    assert_eq!(get_project_labels(Vec::new()), Vec::<String>::new());
}

fn node(id: &str, ssh: &str, http: &str) -> RemoteProjectInfo {
    RemoteProjectInfo {
        id: id.to_string(),
        ssh_url_to_repo: Some(ssh.to_string()),
        http_url_to_repo: Some(http.to_string()),
    }
}

fn sample_nodes() -> Vec<RemoteProjectInfo> {
    vec![
        node(
            "gid://gitlab/Project/12345",
            "ssh://git@gitlab.com:one/two/three.git",
            "https://gitlab.com:one/two/three.git",
        ),
        node(
            "gid://gitlab/Project/23456",
            "ssh://git@gitlab.com:one/two/four.git",
            "https://gitlab.com:one/two/four.git",
        ),
    ]
}

#[test]
fn test_get_search_param_and_remote_type() {
    let cases: [(&str, RemoteType, &str); 7] = [
        (
            "git@gitlab.com:aiganym_sag/hostel-management-system-master.git",
            RemoteType::SSH,
            "hostel-management-system-master",
        ),
        (
            "git@gitlab.com:aiganym_sag/hostel/management/system-master.git",
            RemoteType::SSH,
            "system-master",
        ),
        ("ssh://git@gitlab.com:one/two/three.git", RemoteType::SSH, "three"),
        ("ssh://git@gitlab.com:2222/one/two/three.git", RemoteType::SSH, "three"),
        (
            "https://gitlab.com/jandamuda0400/berat-badan-dan-jerawat.git",
            RemoteType::HTTP,
            "berat-badan-dan-jerawat",
        ),
        (
            "https://gitlab.com/jandamuda0400/berat/badan/dan/jerawat.git",
            RemoteType::HTTP,
            "jerawat",
        ),
        (
            "http://gitlab.com/jandamuda0400/berat-badan-dan-jerawat.git",
            RemoteType::HTTP,
            "berat-badan-dan-jerawat",
        ),
    ];
    for (url, r_type, search_str) in cases {
        let (t, s) = get_search_param_and_remote_type(url);
        assert_eq!(t, r_type);
        assert_eq!(s, search_str);
    }
}

#[test]
fn test_parse_pid_from_gid() {
    assert_eq!(12345, parse_pid_from_gid("gid://gitlab/Project/12345"));
}

#[test]
fn test_find_project_id_good() {
    assert_eq!(
        23456,
        find_project_id(
            RemoteType::HTTP,
            "https://gitlab.com:one/two/four.git",
            &sample_nodes(),
        )
        .unwrap()
    );
    assert_eq!(
        12345,
        find_project_id(
            RemoteType::SSH,
            "ssh://git@gitlab.com:one/two/three.git",
            &sample_nodes(),
        )
        .unwrap()
    );
}

#[test]
fn test_find_project_id_bad() {
    let empty: Vec<RemoteProjectInfo> = Vec::new();
    assert!(
        find_project_id(RemoteType::SSH, "ssh://git@gitlab.com:one/two/three.git", &empty)
            .is_err()
    );
}

#[test]
fn project_id_by_remote_classifies_and_finds() {
    assert_eq!(
        12345,
        get_proj_id_by_remote("ssh://git@gitlab.com:one/two/three.git", &sample_nodes()).unwrap()
    );
    assert_eq!(
        23456,
        get_proj_id_by_remote("https://gitlab.com:one/two/four.git", &sample_nodes()).unwrap()
    );
    assert!(
        get_proj_id_by_remote("https://gitlab.com:one/two/five.git", &sample_nodes()).is_err()
    );
}
