use rocm_attr::layout::{
    artifact_path, config_dir, config_path, get_path_from_item, kernel_dir, manifest_path,
    project_name, source_dir, source_unit_path, store_path,
};

fn strings(parts: &[&str]) -> Vec<String> {
    parts.iter().map(|p| p.to_string()).collect()
}

#[test]
fn empty_discriminator_gives_the_suffix_alone() {
    assert_eq!(get_path_from_item("", "kernel"), "kernel");
}

#[test]
fn blank_discriminator_gives_the_suffix_alone() {
    assert_eq!(get_path_from_item(" \t\n ", "kernel"), "kernel");
    assert_eq!(get_path_from_item("\u{2003}\u{3000}", "kernel"), "kernel");
}

#[test]
fn discriminator_is_joined_to_the_suffix_by_an_underscore() {
    assert_eq!(get_path_from_item("demo", "kernel"), "demo_kernel");
    assert_eq!(get_path_from_item("demo", "unit"), "demo_unit");
}

#[test]
fn discriminator_is_trimmed_at_both_ends_only() {
    assert_eq!(get_path_from_item("  my demo \n", "kernel"), "my demo_kernel");
    assert_eq!(get_path_from_item("\u{a0}x\u{85}", "kernel"), "x_kernel");
}

#[test]
fn discriminator_with_characters_beyond_ascii() {
    assert_eq!(get_path_from_item(" k\u{e9}rnel\u{1f600} ", "kernel"), "k\u{e9}rnel\u{1f600}_kernel");
}

#[test]
fn get_path_from_item_agrees_with_str_trim() {
    let samples = [
        "", " ", "a", " a", "a ", " a ", "\u{b}a\u{c}", "\u{1680}a\u{2000}b\u{200a}", "\u{2028}\u{2029}",
        "\u{202f}z\u{205f}", "\u{200b}zero width\u{200b}", "\u{feff}bom", "x\u{1c}", "\u{1f}y",
    ];
    for s in samples {
        let expected = if s.trim().is_empty() { "p".to_string() } else { format!("{}_p", s.trim()) };
        assert_eq!(get_path_from_item(s, "p"), expected);
    }
}

#[test]
fn project_name_uses_the_fixed_suffix() {
    assert_eq!(project_name(""), "kernel");
    assert_eq!(project_name("demo"), "demo_kernel");
}

#[test]
fn places_of_a_project() {
    assert_eq!(kernel_dir("demo_kernel"), strings(&["kernel_sources", "demo_kernel"]));
    assert_eq!(source_dir("demo_kernel"), strings(&["kernel_sources", "demo_kernel", "src"]));
    assert_eq!(
        source_unit_path("demo_kernel"),
        strings(&["kernel_sources", "demo_kernel", "src", "lib.rs"])
    );
    assert_eq!(store_path("demo_kernel"), strings(&["kernel_sources", "demo_kernel", "items.json"]));
    assert_eq!(config_dir("demo_kernel"), strings(&["kernel_sources", "demo_kernel", ".cargo"]));
    assert_eq!(
        config_path("demo_kernel"),
        strings(&["kernel_sources", "demo_kernel", ".cargo", "config.toml"])
    );
    assert_eq!(manifest_path("demo_kernel"), strings(&["kernel_sources", "demo_kernel", "Cargo.toml"]));
}

#[test]
fn artifact_lies_in_the_release_directory_of_the_target() {
    assert_eq!(
        artifact_path("kernel"),
        strings(&["kernel_sources", "kernel", "target", "amdgcn-amd-amdhsa", "release", "kernels.elf"])
    );
}
