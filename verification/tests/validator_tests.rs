use git_lab::validator::{
    check_branch_name, check_project_slug, check_u32, check_u32_or_empty, check_u64, check_url,
    check_valid_humantime_duration, check_yyyy_mm_dd, check_yyyy_mm_dd_or_empty,
};

#[test]
fn test_check_humantime_duration() {
    let v = check_valid_humantime_duration(&String::from("34"));
    assert!(v.is_err());
    let v = check_valid_humantime_duration("43fdfk");
    assert!(v.is_err());

    let v = check_valid_humantime_duration(&String::from("1year 3months"));
    assert!(v.is_ok());
    let v = check_valid_humantime_duration("2hr 30m");
    assert!(v.is_ok());
    let v = check_valid_humantime_duration("2years 30m");
    assert!(v.is_ok());
}

#[test]
fn test_check_url() {
    let v = check_url(&String::from("gitlab.com/blah/bah"));
    assert!(v.is_err());
    let v = check_url(&String::from("-345"));
    assert!(v.is_err());

    let v = check_url(&String::from("https://gitlab.com/blah/bah"));
    assert!(v.is_ok());
    let v = check_url(&String::from("http:///1.2.3.4"));
    assert!(v.is_ok());
    let v = check_url(&String::from("http://gitlab.com/blah/bah"));
    assert!(v.is_ok());
}

#[test]
fn test_check_yyyy_mm_dd_or_empty() {
    let v = check_yyyy_mm_dd_or_empty("brad");
    assert!(v.is_err());
    let v = check_yyyy_mm_dd_or_empty(&String::from("brad"));
    assert!(v.is_err());
    let v = check_yyyy_mm_dd_or_empty(&String::from("-345"));
    assert!(v.is_err());

    let v = check_yyyy_mm_dd_or_empty(&String::from("1943-12-22"));
    assert!(v.is_ok());
    let v = check_yyyy_mm_dd_or_empty("1943-12-22");
    assert!(v.is_ok());
    let v = check_yyyy_mm_dd_or_empty(&String::from(""));
    assert!(v.is_ok());
    let v = check_yyyy_mm_dd_or_empty("");
    assert!(v.is_ok());
}

#[test]
fn test_check_yyyy_mm_dd() {
    let v = check_yyyy_mm_dd("brad");
    assert!(v.is_err());
    let v = check_yyyy_mm_dd(&String::from("brad"));
    assert!(v.is_err());
    let v = check_yyyy_mm_dd(&String::from("-345"));
    assert!(v.is_err());

    let v = check_yyyy_mm_dd(&String::from("1943-12-22"));
    assert!(v.is_ok());
    let v = check_yyyy_mm_dd("1943-12-22");
    assert!(v.is_ok());
}

#[test]
fn test_check_u32_or_empty() {
    let v = check_u32_or_empty(&String::from("brad"));
    assert!(v.is_err());
    let v = check_u32_or_empty(&String::from("-345"));
    assert!(v.is_err());

    let v = check_u32_or_empty(&String::from("345"));
    assert!(v.is_ok());
    let v = check_u32_or_empty(&String::from(""));
    assert!(v.is_ok());

    let v = check_u32_or_empty("brad");
    assert!(v.is_err());
    let v = check_u32_or_empty("-345");
    assert!(v.is_err());

    let v = check_u32_or_empty("345");
    assert!(v.is_ok());
    let v = check_u32_or_empty("");
    assert!(v.is_ok());
}

#[test]
fn test_check_u32() {
    let v = check_u32(&String::from("brad"));
    assert!(v.is_err());
    let v = check_u32(&String::from("-345"));
    assert!(v.is_err());

    let v = check_u32(&String::from("345"));
    assert!(v.is_ok());

    let v = check_u32("brad");
    assert!(v.is_err());
    let v = check_u32("-345");
    assert!(v.is_err());

    let v = check_u32("345");
    assert!(v.is_ok());
}

#[test]
fn test_check_u64() {
    let v = check_u64(&String::from("brad"));
    assert!(v.is_err());
    let v = check_u64(&String::from("-345"));
    assert!(v.is_err());

    let v = check_u64(&String::from("345"));
    assert!(v.is_ok());

    let v = check_u64("brad");
    assert!(v.is_err());
    let v = check_u64("-345");
    assert!(v.is_err());

    let v = check_u64("345");
    assert!(v.is_ok());
}

#[test]
fn test_check_project_slug() {
    let v = check_project_slug(&String::from("br_ssad-sad0998654678ad"));
    assert!(v.is_ok());
    let v = check_project_slug(&String::from("345"));
    assert!(v.is_ok());
    let v = check_project_slug(&String::from("_-askdlj"));
    assert!(v.is_ok());

    let v = check_project_slug(&String::from("-xx"));
    assert!(v.is_err());
    let v = check_project_slug(&String::from("brad="));
    assert!(v.is_err());
    let v = check_project_slug(&String::from("brad.atom"));
    assert!(v.is_err());
    let v = check_project_slug(&String::from("brad.git"));
    assert!(v.is_err());
}

#[test]
fn test_check_valid_branch_name() {
    let v = check_branch_name(&String::from("br_ssad-sad0998654678ad"));
    assert!(v.is_ok());
    let v = check_branch_name(&String::from("345"));
    assert!(v.is_ok());
    let v = check_branch_name(&String::from("_-askdlj"));
    assert!(v.is_ok());
    let v = check_branch_name(&String::from("brad="));
    assert!(v.is_ok());

    let v = check_branch_name(&String::from("-xx"));
    assert!(v.is_err());
    let v = check_branch_name(&String::from("br@ddf/df/df/"));
    assert!(v.is_err());
    let v = check_branch_name(&String::from("//dbrad"));
    assert!(v.is_err());
    let v = check_branch_name(&String::from("-brad"));
    assert!(v.is_err());
}

#[test]
fn numeric_bounds_are_enforced() {
    assert!(check_u32("4294967295").is_ok());
    assert!(check_u32("4294967296").is_err());
    assert!(check_u64("18446744073709551615").is_ok());
    assert!(check_u64("18446744073709551616").is_err());
    assert!(check_u64("+345").is_ok());
    assert!(check_u64("").is_err());
}
