//! Names and places: the name of a project, and where its files lie below
//! the directory that holds all projects. A place is a list of path
//! components, so that no separator is decided here.

use crate::text::{trim, trimmed};
use vstd::prelude::*;

verus! {

/// The suffix of every project name; alone it names the default project.
pub const PROJECT_SUFFIX: &'static str = "kernel";

/// The directory, below the working directory, that holds all projects.
pub const PROJECTS_ROOT: &'static str = "kernel_sources";

/// The name that a discriminator gives: the trimmed discriminator, an
/// underscore and the suffix, or the suffix alone where nothing is left of
/// the discriminator after trimming.
pub open spec fn path_from_item(item: Seq<char>, postamble: Seq<char>) -> Seq<char> {
    if trimmed(item).len() > 0 {
        trimmed(item) + seq!['_'] + postamble
    } else {
        postamble
    }
}

/// The view of a list of strings.
pub open spec fn components_view(path: Seq<String>) -> Seq<Seq<char>> {
    path.map_values(|c: String| c@)
}

/// The view of a list of places.
pub open spec fn paths_view(paths: Seq<Vec<String>>) -> Seq<Seq<Seq<char>>> {
    paths.map_values(|p: Vec<String>| components_view(p@))
}

/// The directory of the project `name`.
pub open spec fn kernel_dir_of(name: Seq<char>) -> Seq<Seq<char>> {
    seq![PROJECTS_ROOT@, name]
}

/// The file that holds the reconstructed source unit of the project.
pub open spec fn source_unit_path_of(name: Seq<char>) -> Seq<Seq<char>> {
    kernel_dir_of(name) + seq!["src"@, "lib.rs"@]
}

/// The file that holds the fragment store of the project.
pub open spec fn store_path_of(name: Seq<char>) -> Seq<Seq<char>> {
    kernel_dir_of(name) + seq!["items.json"@]
}

/// The directory that holds the source unit.
pub open spec fn source_dir_of(name: Seq<char>) -> Seq<Seq<char>> {
    kernel_dir_of(name) + seq!["src"@]
}

/// The directory that holds the configuration of the toolchain.
pub open spec fn config_dir_of(name: Seq<char>) -> Seq<Seq<char>> {
    kernel_dir_of(name) + seq![".cargo"@]
}

/// The configuration of the toolchain, which names the target.
pub open spec fn config_path_of(name: Seq<char>) -> Seq<Seq<char>> {
    kernel_dir_of(name) + seq![".cargo"@, "config.toml"@]
}

/// The manifest of the project.
pub open spec fn manifest_path_of(name: Seq<char>) -> Seq<Seq<char>> {
    kernel_dir_of(name) + seq!["Cargo.toml"@]
}

/// The binary that a build of the project leaves: below the project's
/// directory, the output root of the toolchain, the target triple, the
/// release profile, and the fixed name of the binary.
pub open spec fn artifact_path_of(name: Seq<char>) -> Seq<Seq<char>> {
    kernel_dir_of(name) + seq!["target"@, "amdgcn-amd-amdhsa"@, "release"@, "kernels.elf"@]
}

/// The name of the project that `item` picks, with `postamble` as the
/// suffix of the name.
pub fn get_path_from_item(item: &str, postamble: &str) -> (path: String)
    ensures
        path@ == path_from_item(item@, postamble@),
{
    let trimmed_item = trim(item);
    let mut path_addition = String::new();
    if !trimmed_item.is_empty() {
        path_addition.append(trimmed_item);
        path_addition.append("_");
        proof {
            reveal_strlit("_");
            assert("_"@ =~= seq!['_']);
        }
    }
    path_addition.append(postamble);
    assert(path_addition@ =~= path_from_item(item@, postamble@));
    path_addition
}

/// The name of the project that a discriminator picks.
pub fn project_name(discriminator: &str) -> (name: String)
    ensures
        name@ == path_from_item(discriminator@, PROJECT_SUFFIX@),
{
    get_path_from_item(discriminator, PROJECT_SUFFIX)
}

/// `base` with `more` behind it.
fn extended(base: Vec<String>, more: &str) -> (path: Vec<String>)
    ensures
        components_view(path@) == components_view(base@).push(more@),
{
    let mut path = base;
    let ghost before = components_view(path@);
    path.push(String::from_str(more));
    assert(components_view(path@) =~= before.push(more@));
    path
}

/// The directory of the project `name`.
pub fn kernel_dir(name: &str) -> (path: Vec<String>)
    ensures
        components_view(path@) == kernel_dir_of(name@),
{
    let root: Vec<String> = Vec::new();
    assert(components_view(root@) =~= Seq::<Seq<char>>::empty());
    let path = extended(extended(root, PROJECTS_ROOT), name);
    assert(components_view(path@) =~= kernel_dir_of(name@));
    path
}

/// The directory that holds the source unit.
pub fn source_dir(name: &str) -> (path: Vec<String>)
    ensures
        components_view(path@) == source_dir_of(name@),
{
    let path = extended(kernel_dir(name), "src");
    assert(components_view(path@) =~= source_dir_of(name@));
    path
}

/// The file that holds the reconstructed source unit.
pub fn source_unit_path(name: &str) -> (path: Vec<String>)
    ensures
        components_view(path@) == source_unit_path_of(name@),
{
    let path = extended(source_dir(name), "lib.rs");
    assert(components_view(path@) =~= source_unit_path_of(name@));
    path
}

/// The file that holds the fragment store.
pub fn store_path(name: &str) -> (path: Vec<String>)
    ensures
        components_view(path@) == store_path_of(name@),
{
    let path = extended(kernel_dir(name), "items.json");
    assert(components_view(path@) =~= store_path_of(name@));
    path
}

/// The directory that holds the configuration of the toolchain.
pub fn config_dir(name: &str) -> (path: Vec<String>)
    ensures
        components_view(path@) == config_dir_of(name@),
{
    let path = extended(kernel_dir(name), ".cargo");
    assert(components_view(path@) =~= config_dir_of(name@));
    path
}

/// The configuration of the toolchain.
pub fn config_path(name: &str) -> (path: Vec<String>)
    ensures
        components_view(path@) == config_path_of(name@),
{
    let path = extended(config_dir(name), "config.toml");
    assert(components_view(path@) =~= config_path_of(name@));
    path
}

/// The manifest of the project.
pub fn manifest_path(name: &str) -> (path: Vec<String>)
    ensures
        components_view(path@) == manifest_path_of(name@),
{
    let path = extended(kernel_dir(name), "Cargo.toml");
    assert(components_view(path@) =~= manifest_path_of(name@));
    path
}

/// The binary that a build of the project leaves.
pub fn artifact_path(name: &str) -> (path: Vec<String>)
    ensures
        components_view(path@) == artifact_path_of(name@),
{
    let path = extended(
        extended(extended(extended(kernel_dir(name), "target"), "amdgcn-amd-amdhsa"), "release"),
        "kernels.elf",
    );
    assert(components_view(path@) =~= artifact_path_of(name@));
    path
}

} // verus!
