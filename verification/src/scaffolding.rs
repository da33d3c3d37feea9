//! The manifest of the crate that holds the generated scaffolding of a component.

use vstd::prelude::*;
use crate::text::same_name;

verus! {

/// What a dependency is needed for.
#[derive(Debug, Clone, Copy, PartialEq, Eq, Hash, Structural)]
pub enum DependencyKind {
    Normal,
    Development,
    Build,
    Unknown,
}

/// A dependency of the component's package, as its metadata gives it.
#[derive(Debug, PartialEq, Eq)]
pub struct DependencyInfo {
    pub name: String,
    pub kind: DependencyKind,
    /// The version that is asked for.
    pub req: String,
    /// The registry that the dependency comes from, where it is not the default one.
    pub registry: Option<String>,
    /// The directory of the dependency, where it is given by a path.
    pub path: Option<String>,
    pub features: Vec<String>,
}

/// The `[package]` table of a manifest.
#[derive(Debug, PartialEq, Eq)]
pub struct Package {
    pub name: String,
    pub version: String,
    pub edition: String,
    pub publish: bool,
}

/// A dependency given by a table.
#[derive(Debug, PartialEq, Eq)]
pub struct ExtendedDependency {
    pub version: Option<String>,
    pub path: Option<String>,
    pub features: Vec<String>,
}

/// A dependency of a manifest.
#[derive(Debug, PartialEq, Eq)]
pub enum Dependency {
    PlainVersion(String),
    Extended(ExtendedDependency),
}

/// A manifest: the package, and its dependencies by name.
#[derive(Debug, PartialEq, Eq)]
pub struct CargoToml {
    pub package: Package,
    pub dependencies: Vec<(String, Dependency)>,
}

/// Why no manifest can be written for the scaffolding of a component.
#[derive(Debug, Clone, Copy, PartialEq, Eq, Hash, Structural)]
pub enum ScaffoldingError {
    /// The component does not depend on `uniffi`.
    MissingDependency,
    /// The component depends on `uniffi` more than once.
    SeveralDependencies,
    /// The component takes `uniffi` from a registry of its own.
    RegistryNotSupported,
}

impl ScaffoldingError {
    /// The failure in words.
    pub fn message(&self) -> (r: &'static str)
        ensures
            r@ == match self {
                ScaffoldingError::MissingDependency => "crate doesn't depend on uniffi"@,
                ScaffoldingError::SeveralDependencies => "crate must only have one normal dependency on uniffi"@,
                ScaffoldingError::RegistryNotSupported => "not currently supported"@,
            },
    {
        match self {
            ScaffoldingError::MissingDependency => "crate doesn't depend on uniffi",
            ScaffoldingError::SeveralDependencies => "crate must only have one normal dependency on uniffi",
            ScaffoldingError::RegistryNotSupported => "not currently supported",
        }
    }
}

/// What an optional text holds.
pub open spec fn optional_text_view(s: Option<String>) -> Option<Seq<char>> {
    match s {
        Some(s) => Some(s@),
        None => None,
    }
}

/// What a list of texts holds.
pub open spec fn text_views(s: Seq<String>) -> Seq<Seq<char>> {
    s.map_values(|t: String| t@)
}

/// Whether a dependency is a normal dependency on `uniffi`.
pub open spec fn is_uniffi(d: DependencyInfo) -> bool {
    d.name@ == "uniffi"@ && d.kind == DependencyKind::Normal
}

/// The normal dependencies on `uniffi` among a list of dependencies.
pub open spec fn uniffi_dependencies(dependencies: Seq<DependencyInfo>) -> Seq<DependencyInfo> {
    dependencies.filter(|d: DependencyInfo| is_uniffi(d))
}

/// Whether `manifest` is the manifest of the scaffolding crate named `dir_name`
/// of a component that depends on `uniffi` as `on` says: the crate is not
/// published, and depends on `uniffi` in the same version, from the same path and
/// with the same features.
pub open spec fn is_manifest_for(manifest: CargoToml, dir_name: Seq<char>, on: DependencyInfo)
    -> bool {
    &&& manifest.package.name@ == dir_name
    &&& manifest.package.version@ == "0.0.0"@
    &&& manifest.package.edition@ == "2021"@
    &&& !manifest.package.publish
    &&& manifest.dependencies@.len() == 1
    &&& manifest.dependencies@[0].0@ == "uniffi"@
    &&& manifest.dependencies@[0].1 matches Dependency::Extended(e) && e.version matches Some(v)
        && v@ == on.req@ && optional_text_view(e.path) == optional_text_view(on.path)
        && text_views(e.features@) == text_views(on.features@)
}

fn clone_optional_text(s: &Option<String>) -> (r: Option<String>)
    ensures
        optional_text_view(r) == optional_text_view(*s),
{
    match s {
        Some(s) => Some(s.clone()),
        None => None,
    }
}

fn clone_texts(s: &Vec<String>) -> (r: Vec<String>)
    ensures
        text_views(r@) == text_views(s@),
{
    let mut out: Vec<String> = Vec::new();
    let mut i: usize = 0;
    while i < s.len()
        invariant
            i <= s@.len(),
            out@.len() == i,
            forall|j: int| 0 <= j < i ==> out@[j]@ == s@[j]@,
        decreases s@.len() - i,
    {
        out.push(s[i].clone());
        i += 1;
    }
    assert(text_views(out@) =~= text_views(s@));
    out
}

/// The manifest of the scaffolding crate named `dir_name`, for a component with
/// the given dependencies. The component must have exactly one normal
/// dependency on `uniffi`, and must not take it from a registry of its own.
pub fn gen_cargo_toml(dependencies: &Vec<DependencyInfo>, dir_name: &str) -> (r: Result<
    CargoToml,
    ScaffoldingError,
>)
    ensures
        uniffi_dependencies(dependencies@).len() == 0 ==> r == Err::<CargoToml, ScaffoldingError>(
            ScaffoldingError::MissingDependency,
        ),
        uniffi_dependencies(dependencies@).len() > 1 ==> r == Err::<CargoToml, ScaffoldingError>(
            ScaffoldingError::SeveralDependencies,
        ),
        uniffi_dependencies(dependencies@).len() == 1 ==> (
        if uniffi_dependencies(dependencies@)[0].registry is Some {
            r == Err::<CargoToml, ScaffoldingError>(ScaffoldingError::RegistryNotSupported)
        } else {
            r is Ok && is_manifest_for(r->Ok_0, dir_name@, uniffi_dependencies(dependencies@)[0])
        }),
{
    let ghost all = dependencies@;
    let ghost keep = |d: DependencyInfo| is_uniffi(d);
    let mut found: Vec<usize> = Vec::new();
    let mut i: usize = 0;
    proof {
        reveal(Seq::filter);
        assert(all.take(0) =~= Seq::<DependencyInfo>::empty());
    }
    while i < dependencies.len()
        invariant
            i <= dependencies@.len(),
            all == dependencies@,
            keep == (|d: DependencyInfo| is_uniffi(d)),
            found@.len() == all.take(i as int).filter(keep).len(),
            forall|k: int|
                0 <= k < found@.len() ==> (#[trigger] found@[k]) < i && all[found@[k] as int]
                    == all.take(i as int).filter(keep)[k],
        decreases dependencies@.len() - i,
    {
        let ghost before = all.take(i as int).filter(keep);
        let ghost after = all.take(i as int + 1).filter(keep);
        proof {
            all.take(i as int).lemma_filter_push(all[i as int], keep);
            assert(all.take(i as int).push(all[i as int]) =~= all.take(i as int + 1));
        }
        if same_name(&dependencies[i].name, "uniffi") && dependencies[i].kind
            == DependencyKind::Normal {
            found.push(i);
            assert(after == before.push(all[i as int]));
        } else {
            assert(after == before);
        }
        assert forall|k: int| 0 <= k < found@.len() implies (#[trigger] found@[k]) < i + 1
            && all[found@[k] as int] == after[k] by {
            if k < before.len() {
                assert(after[k] == before[k]);
            }
        }
        i += 1;
    }
    assert(all.take(i as int) =~= all);
    if found.len() == 0 {
        return Err(ScaffoldingError::MissingDependency);
    }
    if found.len() > 1 {
        return Err(ScaffoldingError::SeveralDependencies);
    }
    let on = &dependencies[found[0]];
    if on.registry.is_some() {
        return Err(ScaffoldingError::RegistryNotSupported);
    }
    let mut listed: Vec<(String, Dependency)> = Vec::new();
    listed.push(
        (
            "uniffi".to_owned(),
            Dependency::Extended(
                ExtendedDependency {
                    version: Some(on.req.clone()),
                    path: clone_optional_text(&on.path),
                    features: clone_texts(&on.features),
                },
            ),
        ),
    );
    Ok(
        CargoToml {
            package: Package {
                name: dir_name.to_owned(),
                version: "0.0.0".to_owned(),
                edition: "2021".to_owned(),
                publish: false,
            },
            dependencies: listed,
        },
    )
}

} // verus!
