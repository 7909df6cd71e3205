//! Scaffolding: which directories and files make up the skeleton of a
//! project, and what a fresh start removes. Nothing here touches a disk; the
//! plan says what is to be done.

use crate::layout::{
    components_view, config_dir, config_dir_of, config_path, config_path_of, manifest_path,
    manifest_path_of, paths_view, source_dir, source_dir_of, source_unit_path, source_unit_path_of,
    store_path, store_path_of,
};
use crate::text::optional_text;
use vstd::prelude::*;

verus! {

/// `regex::Error`, carried from the call below to the place where it
/// becomes a `ScaffoldError`.
#[verifier::external_type_specification]
#[verifier::external_body]
pub struct ExRegexError(regex::Error);

/// The target that the configuration template names.
pub const DEFAULT_TARGET: &'static str = "gfx1103";

/// Why a skeleton could not be planned.
#[derive(Clone, Copy, Debug, PartialEq, Eq, Structural)]
pub enum ScaffoldError {
    /// The search for the default target could not be set up.
    Substitution,
}

/// A file of the skeleton: where it lies and what it holds.
#[derive(Clone, Debug, PartialEq, Eq)]
pub struct PlannedFile {
    pub path: Vec<String>,
    pub content: String,
}

impl View for PlannedFile {
    type V = (Seq<Seq<char>>, Seq<char>);

    open spec fn view(&self) -> (Seq<Seq<char>>, Seq<char>) {
        (components_view(self.path@), self.content@)
    }
}

/// The skeleton of a project: the directories to create, parents
/// included, and then the files to write.
#[derive(Clone, Debug, PartialEq, Eq)]
pub struct Scaffold {
    pub directories: Vec<Vec<String>>,
    pub files: Vec<PlannedFile>,
}

impl Scaffold {
    /// The directories, each as its components.
    pub open spec fn directories_view(&self) -> Seq<Seq<Seq<char>>> {
        paths_view(self.directories@)
    }

    /// The files, each as its place and its content.
    pub open spec fn files_view(&self) -> Seq<(Seq<Seq<char>>, Seq<char>)> {
        self.files@.map_values(|f: PlannedFile| f@)
    }
}

/// Letters and digits of ASCII: what a search pattern may be made of to
/// stand for itself.
pub open spec fn is_plain(c: char) -> bool {
    ('a' <= c && c <= 'z') || ('A' <= c && c <= 'Z') || ('0' <= c && c <= '9')
}

/// A search pattern that stands for itself: letters and digits of ASCII,
/// and few enough of them that the limit on the size of a compiled
/// pattern, which is counted in bytes of the machine, is far off.
pub open spec fn is_short_literal(needle: Seq<char>) -> bool {
    &&& needle.len() <= 64
    &&& forall|i: int| 0 <= i < needle.len() ==> is_plain(#[trigger] needle[i])
}

/// Whether `regex::Regex::new` accepts `pattern`.
pub uninterp spec fn pattern_compiles(pattern: Seq<char>) -> bool;

/// `needle` stands in `text` at index `i`.
pub open spec fn occurs_at(text: Seq<char>, needle: Seq<char>, i: int) -> bool {
    0 <= i && i + needle.len() <= text.len() && text.subrange(i, i + needle.len()) == needle
}

/// The first index from `from` on at which `needle` stands in `text`.
pub open spec fn first_occurrence(text: Seq<char>, needle: Seq<char>, from: int) -> Option<int>
    decreases text.len() - from + 1,
{
    if from < 0 || from + needle.len() > text.len() {
        None
    } else if occurs_at(text, needle, from) {
        Some(from)
    } else {
        first_occurrence(text, needle, from + 1)
    }
}

/// `text` with the first `needle` in it replaced by `with`; `text` itself
/// where it holds no `needle`.
pub open spec fn replaced_first(text: Seq<char>, needle: Seq<char>, with: Seq<char>) -> Seq<char> {
    match first_occurrence(text, needle, 0) {
        Some(i) => text.subrange(0, i) + with + text.subrange(i + needle.len(), text.len() as int),
        None => text,
    }
}

/// The configuration for a target: the template as it is where no target is
/// given, else the template with the first mention of the default target
/// replaced by the target given, letter for letter.
pub open spec fn target_config(template: Seq<char>, gfx_ver: Option<Seq<char>>) -> Seq<char> {
    match gfx_ver {
        Some(target) => replaced_first(template, DEFAULT_TARGET@, target),
        None => template,
    }
}

/// The skeleton of the project `name` with these two file contents.
pub open spec fn skeleton_of(name: Seq<char>, config: Seq<char>, manifest: Seq<char>) -> (
    Seq<Seq<Seq<char>>>,
    Seq<(Seq<Seq<char>>, Seq<char>)>,
) {
    (
        seq![source_dir_of(name), config_dir_of(name)],
        seq![(config_path_of(name), config), (manifest_path_of(name), manifest)],
    )
}

/// What `first_occurrence` finds: the needle stands there and nowhere
/// between `from` and there; and where it finds nothing, the needle stands
/// nowhere from `from` on.
pub proof fn lemma_first_occurrence(text: Seq<char>, needle: Seq<char>, from: int)
    requires
        0 <= from,
    ensures
        match first_occurrence(text, needle, from) {
            Some(i) => from <= i && occurs_at(text, needle, i) && forall|j: int|
                from <= j < i ==> !occurs_at(text, needle, j),
            None => forall|j: int| from <= j ==> !occurs_at(text, needle, j),
        },
    decreases text.len() - from + 1,
{
    if from + needle.len() <= text.len() && !occurs_at(text, needle, from) {
        lemma_first_occurrence(text, needle, from + 1);
    }
}

/// A template that does not mention the default target is the
/// configuration for every target; one that mentions it is changed at the
/// first mention only, and only by putting the target there.
pub proof fn lemma_target_config(template: Seq<char>, target: Seq<char>)
    ensures
        (forall|i: int| !occurs_at(template, DEFAULT_TARGET@, i)) ==> target_config(
            template,
            Some(target),
        ) == template,
        target_config(template, Some(DEFAULT_TARGET@)) == template,
        first_occurrence(template, DEFAULT_TARGET@, 0) matches Some(at) ==> {
            &&& occurs_at(template, DEFAULT_TARGET@, at)
            &&& forall|i: int| 0 <= i < at ==> !occurs_at(template, DEFAULT_TARGET@, i)
            &&& target_config(template, Some(target)).subrange(0, at) == template.subrange(0, at)
            &&& target_config(template, Some(target)).subrange(at, at + target.len()) == target
            &&& target_config(template, Some(target)).subrange(
                at + target.len(),
                target_config(template, Some(target)).len() as int,
            ) == template.subrange(at + DEFAULT_TARGET@.len(), template.len() as int)
        },
{
    lemma_first_occurrence(template, DEFAULT_TARGET@, 0);
    match first_occurrence(template, DEFAULT_TARGET@, 0) {
        Some(at) => {
            let n = DEFAULT_TARGET@.len() as int;
            let same = target_config(template, Some(DEFAULT_TARGET@));
            assert(same =~= template) by {
                assert(template.subrange(at, at + n) == DEFAULT_TARGET@);
                assert forall|k: int| 0 <= k < template.len() implies same[k] == template[k] by {
                    if at <= k < at + n {
                        assert(template.subrange(at, at + n)[k - at] == template[k]);
                    }
                }
            }
            let made = target_config(template, Some(target));
            assert(made.subrange(0, at) =~= template.subrange(0, at));
            assert(made.subrange(at, at + target.len()) =~= target);
            assert(made.subrange(at + target.len(), made.len() as int) =~= template.subrange(
                at + n,
                template.len() as int,
            ));
        },
        None => {},
    }
}

/// Compiles `needle` with `regex::Regex::new` and calls `Regex::replace`
/// with the replacement wrapped in `regex::NoExpand`. Assumed: whether the
/// pattern compiles depends on the pattern alone; a pattern of ASCII
/// letters and digits matches itself and nothing else, the leftmost match
/// is the one replaced, the replacement goes in letter for letter, and a
/// text without a match comes back unchanged. Nothing is assumed of which
/// patterns compile.
#[verifier::external_body]
fn replace_first_literal(text: &str, needle: &str, with: &str) -> (r: Result<
    String,
    regex::Error,
>)
    requires
        is_short_literal(needle@),
    ensures
        r is Ok <==> pattern_compiles(needle@),
        r matches Ok(s) ==> s@ == replaced_first(text@, needle@, with@),
{
    let pattern = regex::Regex::new(needle)?;
    Ok(pattern.replace(text, regex::NoExpand(with)).into_owned())
}

/// A target can be put into a template: none is given, or the search for
/// the default target can be set up.
pub open spec fn can_substitute(gfx_ver: Option<Seq<char>>) -> bool {
    gfx_ver is None || pattern_compiles(DEFAULT_TARGET@)
}

/// The configuration of the toolchain for the target `gfx_ver`, made from
/// `template`. Without a target the template is the configuration. With
/// one, it fails if and only if the search for the default target cannot
/// be set up.
pub fn render_target_config(template: &str, gfx_ver: Option<&str>) -> (r: Result<
    String,
    ScaffoldError,
>)
    ensures
        r is Ok <==> can_substitute(optional_text(gfx_ver)),
        match r {
            Ok(config) => config@ == target_config(template@, optional_text(gfx_ver)),
            Err(e) => e == ScaffoldError::Substitution,
        },
{
    match gfx_ver {
        Some(target) => {
            proof {
                reveal_strlit("gfx1103");
            }
            match replace_first_literal(template, DEFAULT_TARGET, target) {
                Ok(config) => Ok(config),
                Err(_) => Err(ScaffoldError::Substitution),
            }
        },
        None => Ok(String::from_str(template)),
    }
}

/// The skeleton of the project `name`: its source directory and its
/// configuration directory, then the configuration and the manifest.
pub fn plan_skeleton(name: &str, config: String, manifest: &str) -> (plan: Scaffold)
    ensures
        (plan.directories_view(), plan.files_view()) == skeleton_of(name@, config@, manifest@),
{
    let mut directories: Vec<Vec<String>> = Vec::new();
    directories.push(source_dir(name));
    directories.push(config_dir(name));
    let mut files: Vec<PlannedFile> = Vec::new();
    files.push(PlannedFile { path: config_path(name), content: config });
    files.push(PlannedFile { path: manifest_path(name), content: String::from_str(manifest) });
    let plan = Scaffold { directories, files };
    assert(plan.directories_view() =~= skeleton_of(name@, config@, manifest@).0);
    assert(plan.files_view() =~= skeleton_of(name@, config@, manifest@).1);
    plan
}

/// Plans the skeleton of the project `name` from the two templates. Where
/// `gfx_ver` names a target, the configuration names it in place of the
/// default target, and the plan fails if and only if the search for the
/// default target cannot be set up.
pub fn create_kernel_structure(
    name: &str,
    gfx_ver: Option<&str>,
    config_template: &str,
    manifest_template: &str,
) -> (r: Result<Scaffold, ScaffoldError>)
    ensures
        r is Ok <==> can_substitute(optional_text(gfx_ver)),
        match r {
            Ok(plan) => (plan.directories_view(), plan.files_view()) == skeleton_of(
                name@,
                target_config(config_template@, optional_text(gfx_ver)),
                manifest_template@,
            ),
            Err(e) => e == ScaffoldError::Substitution,
        },
{
    match render_target_config(config_template, gfx_ver) {
        Ok(config) => Ok(plan_skeleton(name, config, manifest_template)),
        Err(e) => Err(e),
    }
}

/// The files that a fresh start of the project `name` removes where they
/// exist: the reconstructed source unit and the fragment store.
pub fn cleanup_kernel_structure(name: &str) -> (stale: Vec<Vec<String>>)
    ensures
        paths_view(stale@) == seq![source_unit_path_of(name@), store_path_of(name@)],
{
    let mut stale: Vec<Vec<String>> = Vec::new();
    stale.push(source_unit_path(name));
    stale.push(store_path(name));
    assert(paths_view(stale@) =~= seq![source_unit_path_of(name@), store_path_of(name@)]);
    stale
}

} // verus!
