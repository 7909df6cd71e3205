use rocm_attr::args::{kernel_init_args_complete, parse_kernel_init_args};

fn tokens(parts: &[&str]) -> Vec<String> {
    parts.iter().map(|p| p.to_string()).collect()
}

#[test]
fn no_tokens_give_the_default_project_and_no_target() {
    assert_eq!(parse_kernel_init_args(&tokens(&[])), (String::new(), None));
}

#[test]
fn path_and_gfx_are_read_from_their_assignments() {
    let t = tokens(&["path", "=", "demo", ",", "gfx", "=", "gfx900"]);
    assert_eq!(parse_kernel_init_args(&t), ("demo".to_string(), Some("gfx900".to_string())));
}

#[test]
fn assignments_may_come_in_any_order() {
    let t = tokens(&["gfx", "=", "gfx942", ",", "path", "=", "demo"]);
    assert_eq!(parse_kernel_init_args(&t), ("demo".to_string(), Some("gfx942".to_string())));
}

#[test]
fn a_missing_path_is_the_empty_discriminator() {
    let t = tokens(&["gfx", "=", "gfx900"]);
    assert_eq!(parse_kernel_init_args(&t), (String::new(), Some("gfx900".to_string())));
}

#[test]
fn a_missing_gfx_is_no_target() {
    let t = tokens(&["path", "=", "demo"]);
    assert_eq!(parse_kernel_init_args(&t), ("demo".to_string(), None));
}

#[test]
fn the_later_of_two_assignments_counts() {
    let t = tokens(&["path", "=", "one", ",", "gfx", "=", "a", ",", "path", "=", "two", ",", "gfx", "=", "b"]);
    assert_eq!(parse_kernel_init_args(&t), ("two".to_string(), Some("b".to_string())));
}

#[test]
fn other_keys_are_passed_over() {
    let t = tokens(&["mode", "=", "fast", ",", "path", "=", "demo", ",", "Path", "=", "x"]);
    assert_eq!(parse_kernel_init_args(&t), ("demo".to_string(), None));
}

#[test]
fn commas_are_dropped_wherever_they_stand() {
    let t = tokens(&[",", "path", ",", "=", "demo", ",", ",", "gfx", "=", ",", "gfx900", ","]);
    assert_eq!(parse_kernel_init_args(&t), ("demo".to_string(), Some("gfx900".to_string())));
}

#[test]
fn the_sign_between_key_and_value_is_not_looked_at() {
    let t = tokens(&["path", ":", "demo", "gfx", "path", "gfx900"]);
    assert_eq!(parse_kernel_init_args(&t), ("demo".to_string(), Some("gfx900".to_string())));
}

#[test]
fn a_key_in_the_place_of_a_value_is_a_value() {
    let t = tokens(&["path", "=", "gfx", "x", "=", "path"]);
    assert_eq!(parse_kernel_init_args(&t), ("gfx".to_string(), None));
}

#[test]
fn values_are_kept_as_the_tokens_spell_them() {
    let t = tokens(&["path", "=", "\"quoted\""]);
    assert_eq!(parse_kernel_init_args(&t), ("\"quoted\"".to_string(), None));
}

#[test]
fn complete_when_the_tokens_fall_into_threes() {
    assert!(kernel_init_args_complete(&tokens(&[])));
    assert!(kernel_init_args_complete(&tokens(&[",", ","])));
    assert!(kernel_init_args_complete(&tokens(&["path", "=", "demo"])));
    assert!(kernel_init_args_complete(&tokens(&["path", "=", "demo", ",", "gfx", "=", "x"])));
}

#[test]
fn incomplete_when_an_assignment_is_cut_short() {
    assert!(!kernel_init_args_complete(&tokens(&["path"])));
    assert!(!kernel_init_args_complete(&tokens(&["path", "="])));
    assert!(!kernel_init_args_complete(&tokens(&["path", "=", ","])));
    assert!(!kernel_init_args_complete(&tokens(&["path", "=", "demo", ",", "gfx"])));
    assert!(!kernel_init_args_complete(&tokens(&["path", "=", "demo", "gfx", "="])));
}
