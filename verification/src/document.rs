use vstd::prelude::*;
use vstd::string::StrSliceExecFns;
use crate::dep::Dependency;
use crate::encode::{encode_dep, DepValue};
use crate::fuzzy::{fuzzy_match, fuzzy_of, insert_item_sorted, item_le, DependencySelectorItem};
use crate::toml_doc::{
    doc_has_table_path, doc_text, parse_document, patch_dep_plain, patch_dep_table,
    plain_patched_text, table_patched_text, toml_canonical, toml_parses,
};

verus! {

/// What can go wrong while building or editing a document.
#[derive(Debug)]
pub enum DocError {
    /// A manifest text is missing or not syntactically valid.
    Parse,
    /// A dependency name lookup failed; carries the requested name.
    NotFound(String),
    /// The dependency section's key path is absent from the document tree.
    SectionNotFound,
}

/// Which manifest section a package's dependency list writes into.
#[derive(Clone, Copy, Debug, PartialEq, Eq, Structural)]
pub enum DependencyType {
    Normal,
    Development,
    Build,
    Workspace,
}

impl DependencyType {
    /// The dotted key path of the section, as segments.
    pub open spec fn spec_key_parts(self) -> Seq<Seq<char>> {
        match self {
            DependencyType::Normal => seq!["dependencies"@],
            DependencyType::Development => seq!["dev-dependencies"@],
            DependencyType::Build => seq!["build-dependencies"@],
            DependencyType::Workspace => seq!["workspace"@, "dependencies"@],
        }
    }

    /// The section's key path segments, outermost first.
    pub fn key_parts(&self) -> (r: Vec<String>)
        ensures
            r@.map_values(|s: String| s@) == self.spec_key_parts(),
    {
        let mut r: Vec<String> = Vec::new();
        match self {
            DependencyType::Normal => {
                r.push(String::from_str("dependencies"));
            },
            DependencyType::Development => {
                r.push(String::from_str("dev-dependencies"));
            },
            DependencyType::Build => {
                r.push(String::from_str("build-dependencies"));
            },
            DependencyType::Workspace => {
                r.push(String::from_str("workspace"));
                r.push(String::from_str("dependencies"));
            },
        }
        proof {
            assert(r@.map_values(|s: String| s@) =~= self.spec_key_parts());
        }
        r
    }
}

/// What the upstream manifest loader hands over for one package: identity,
/// location, section, the raw manifest text, and the parsed dependency list.
pub struct PackageSource {
    pub name: String,
    pub dir_path: String,
    pub dependency_type: DependencyType,
    pub manifest_text: String,
    pub dependencies: Vec<Dependency>,
}

/// One manifest package scope: identity, location, the section its
/// dependency list belongs to, the owned parsed document tree, and the
/// ordered dependency list.
pub struct Package {
    pub name: String,
    pub dir_path: String,
    pub dependency_type: DependencyType,
    /// The sole writable handle to this manifest's parsed structure.
    pub toml_doc: toml_edit::DocumentMut,
    pub dependencies: Vec<Dependency>,
}

/// Whether a built package faithfully mirrors its source, with a parsed tree
/// that serializes to the source text up to toml_edit's normalizations.
pub open spec fn package_matches_source(p: Package, s: PackageSource) -> bool {
    &&& p.name@ == s.name@
    &&& p.dir_path@ == s.dir_path@
    &&& p.dependency_type == s.dependency_type
    &&& p.dependencies@ == s.dependencies@
    &&& doc_text(p.toml_doc) == toml_canonical(s.manifest_text@)
}

/// The position of the first dependency whose effective name is `name`.
fn find_by_name(deps: &Vec<Dependency>, name: &str) -> (r: Option<usize>)
    ensures
        (r is Some) == (exists|i: int| 0 <= i < deps@.len() && (#[trigger] deps@[i]).name@ == name@),
        r matches Some(k) ==> 0 <= k < deps@.len() && deps@[k as int].name@ == name@ && (forall|
            j: int,
        |
            0 <= j < k ==> (#[trigger] deps@[j]).name@ != name@),
{
    let n = deps.len();
    for i in 0..n
        invariant
            n == deps@.len(),
            forall|j: int| 0 <= j < i ==> (#[trigger] deps@[j]).name@ != name@,
    {
        if crate::strorder::str_eq(deps[i].name.as_str(), name) {
            return Option::Some(i);
        }
    }
    Option::None
}

/// A mutable handle to one package of the list.
fn package_at_mut(packages: &mut Vec<Package>, i: usize) -> (r: &mut Package)
    requires
        i < old(packages)@.len(),
    ensures
        *r == old(packages)@[i as int],
        final(packages)@ == old(packages)@.update(i as int, *final(r)),
{
    &mut packages[i]
}

/// A mutable handle to one dependency of the list.
fn dep_at_mut(deps: &mut Vec<Dependency>, i: usize) -> (r: &mut Dependency)
    requires
        i < old(deps)@.len(),
    ensures
        *r == old(deps)@[i as int],
        final(deps)@ == old(deps)@.update(i as int, *final(r)),
{
    &mut deps[i]
}

/// The top-level aggregate: every package of the manifest, one for a plain
/// manifest, many for a workspace.
pub struct Document {
    pub packages: Vec<Package>,
}

/// Whether every source's manifest text is syntactically valid.
pub open spec fn all_sources_parse(ss: Seq<PackageSource>) -> bool {
    forall|i: int| 0 <= i < ss.len() ==> toml_parses((#[trigger] ss[i]).manifest_text@)
}

/// A single invalid source text makes the whole batch invalid.
proof fn lemma_not_all_parse(ss: Seq<PackageSource>, k: int)
    requires
        0 <= k < ss.len(),
        !toml_parses(ss[k].manifest_text@),
    ensures
        !all_sources_parse(ss),
{
}

impl Document {
    /// Builds a document from the loaded package sources, parsing each
    /// manifest text. No partial success: if any text fails to parse, the
    /// whole construction fails with `Parse`.
    pub fn new(sources: Vec<PackageSource>) -> (r: Result<Document, DocError>)
        ensures
            (r is Ok) <==> all_sources_parse(sources@),
            r matches Ok(doc) ==> {
                &&& doc.packages@.len() == sources@.len()
                &&& forall|i: int|
                    0 <= i < sources@.len() ==> package_matches_source(
                        #[trigger] doc.packages@[i],
                        sources@[i],
                    )
            },
            r matches Err(e) ==> e is Parse,
    {
        let ghost all = sources@;
        let mut rest = sources;
        let mut packages: Vec<Package> = Vec::new();
        let mut failed = false;
        loop
            invariant_except_break
                !failed,
                packages@.len() + rest@.len() == all.len(),
                all.skip(packages@.len() as int) == rest@,
                forall|i: int|
                    0 <= i < packages@.len() ==> package_matches_source(
                        #[trigger] packages@[i],
                        all[i],
                    ),
                forall|i: int|
                    0 <= i < packages@.len() ==> toml_parses((#[trigger] all[i]).manifest_text@),
            ensures
                failed ==> !all_sources_parse(all),
                !failed ==> {
                    &&& packages@.len() == all.len()
                    &&& all_sources_parse(all)
                    &&& forall|i: int|
                        0 <= i < packages@.len() ==> package_matches_source(
                            #[trigger] packages@[i],
                            all[i],
                        )
                },
            decreases rest@.len(),
        {
            if rest.len() == 0 {
                break;
            }
            let src = rest.remove(0);
            proof {
                assert(src == all[packages@.len() as int]);
                assert(all.skip(packages@.len() as int).drop_first() =~= all.skip(
                    packages@.len() as int + 1,
                ));
            }
            let parsed = parse_document(src.manifest_text.as_str());
            match parsed {
                Option::Some(doc) => {
                    let package = Package {
                        name: src.name,
                        dir_path: src.dir_path,
                        dependency_type: src.dependency_type,
                        toml_doc: doc,
                        dependencies: src.dependencies,
                    };
                    packages.push(package);
                },
                Option::None => {
                    proof {
                        let k = packages@.len() as int;
                        assert(0 <= k < all.len());
                        assert(!toml_parses(all[k].manifest_text@));
                        lemma_not_all_parse(all, k);
                    }
                    failed = true;
                    break;
                },
            }
        }
        if failed {
            Result::Err(DocError::Parse)
        } else {
            Result::Ok(Document { packages })
        }
    }

    /// The package names, in order.
    pub fn get_packages_names(&self) -> (r: Vec<String>)
        ensures
            r@.len() == self.packages@.len(),
            forall|i: int| 0 <= i < r@.len() ==> (#[trigger] r@[i])@ == self.packages@[i].name@,
    {
        let mut r: Vec<String> = Vec::new();
        let n = self.packages.len();
        for i in 0..n
            invariant
                n == self.packages@.len(),
                r@.len() == i,
                forall|j: int| 0 <= j < i ==> (#[trigger] r@[j])@ == self.packages@[j].name@,
        {
            r.push(String::from_str(self.packages[i].name.as_str()));
        }
        r
    }

    /// The package at the given position, or nothing when out of range.
    pub fn get_package(&self, package_id: usize) -> (r: Option<&Package>)
        ensures
            package_id < self.packages@.len() ==> (r matches Some(p) && *p == self.packages@[
                package_id as int
            ]),
            package_id >= self.packages@.len() ==> r is None,
    {
        if package_id < self.packages.len() {
            Some(&self.packages[package_id])
        } else {
            None
        }
    }

    /// The dependency list of a package. The id must come from this
    /// document's own index space.
    pub fn get_deps(&self, package_id: usize) -> (r: &Vec<Dependency>)
        requires
            package_id < self.packages@.len(),
        ensures
            r@ == self.packages@[package_id as int].dependencies@,
    {
        &self.packages[package_id].dependencies
    }

    /// The mutable dependency list of a package; everything else in the
    /// document stays as it was.
    pub fn get_deps_mut(&mut self, package_id: usize) -> (r: &mut Vec<Dependency>)
        requires
            package_id < old(self).packages@.len(),
        ensures
            r@ == old(self).packages@[package_id as int].dependencies@,
            final(self).packages@.len() == old(self).packages@.len(),
            forall|i: int|
                0 <= i < old(self).packages@.len() && i != package_id
                    ==> #[trigger] final(self).packages@[i] == old(self).packages@[i],
            final(self).packages@[package_id as int] == (Package {
                dependencies: *final(r),
                ..old(self).packages@[package_id as int]
            }),
    {
        &mut self.packages[package_id].dependencies
    }

    /// The dependency whose effective name is `name`, searched front to
    /// back; `NotFound` when no entry has it.
    pub fn get_dep(&self, package_id: usize, name: &str) -> (r: Result<&Dependency, DocError>)
        requires
            package_id < self.packages@.len(),
        ensures
            ({
                let deps = self.packages@[package_id as int].dependencies@;
                &&& (r is Ok) == (exists|i: int|
                    0 <= i < deps.len() && (#[trigger] deps[i]).name@ == name@)
                &&& (r matches Ok(d) ==> exists|i: int|
                    0 <= i < deps.len() && (#[trigger] deps[i]).name@ == name@ && *d == deps[i]
                        && (forall|j: int| 0 <= j < i ==> (#[trigger] deps[j]).name@ != name@))
                &&& (r matches Err(e) ==> e matches DocError::NotFound(n) && n@ == name@)
            }),
    {
        let deps = &self.packages[package_id].dependencies;
        match find_by_name(deps, name) {
            Option::Some(k) => Result::Ok(&deps[k]),
            Option::None => Result::Err(DocError::NotFound(String::from_str(name))),
        }
    }

    /// The position of the dependency whose effective name is `name`,
    /// searched front to back; `NotFound` when no entry has it.
    pub fn get_dep_index(&self, package_id: usize, name: &String) -> (r: Result<usize, DocError>)
        requires
            package_id < self.packages@.len(),
        ensures
            ({
                let deps = self.packages@[package_id as int].dependencies@;
                &&& (r is Ok) == (exists|i: int|
                    0 <= i < deps.len() && (#[trigger] deps[i]).name@ == name@)
                &&& (r matches Ok(k) ==> 0 <= k < deps.len() && deps[k as int].name@ == name@ && (
                forall|j: int| 0 <= j < k ==> (#[trigger] deps[j]).name@ != name@))
                &&& (r matches Err(e) ==> e matches DocError::NotFound(n) && n@ == name@)
            }),
    {
        let deps = &self.packages[package_id].dependencies;
        match find_by_name(deps, name.as_str()) {
            Option::Some(k) => Result::Ok(k),
            Option::None => Result::Err(DocError::NotFound(String::from_str(name.as_str()))),
        }
    }

    /// A mutable handle to the dependency whose effective name is `name`;
    /// `NotFound`, with the document unchanged, when no entry has it.
    pub fn get_dep_mut(&mut self, package_id: usize, name: &str) -> (r: Result<
        &mut Dependency,
        DocError,
    >)
        requires
            package_id < old(self).packages@.len(),
        ensures
            ({
                let deps = old(self).packages@[package_id as int].dependencies@;
                &&& (r is Ok) == (exists|i: int|
                    0 <= i < deps.len() && (#[trigger] deps[i]).name@ == name@)
                &&& (r matches Err(e) ==> e matches DocError::NotFound(n) && n@ == name@
                    && *final(self) == *old(self))
                &&& (r matches Ok(d) ==> exists|i: int|
                    0 <= i < deps.len() && (#[trigger] deps[i]).name@ == name@ && *d == deps[i]
                        && (forall|j: int| 0 <= j < i ==> (#[trigger] deps[j]).name@ != name@)
                        && final(self).packages@ == old(self).packages@.update(
                        package_id as int,
                        (Package {
                            dependencies: final(self).packages@[package_id as int].dependencies,
                            ..old(self).packages@[package_id as int]
                        }),
                    ) && final(self).packages@[package_id as int].dependencies@ == deps.update(
                        i,
                        *final(d),
                    ))
            }),
    {
        let found = find_by_name(&self.packages[package_id].dependencies, name);
        match found {
            Option::Some(k) => {
                let pkg = package_at_mut(&mut self.packages, package_id);
                Result::Ok(dep_at_mut(&mut pkg.dependencies, k))
            },
            Option::None => Result::Err(DocError::NotFound(String::from_str(name))),
        }
    }

    /// Re-encodes one dependency into its minimal manifest form, patches it
    /// into the package's document tree, and returns the whole manifest text
    /// to persist. Only the package's document tree changes; fails with
    /// `SectionNotFound`, leaving the tree untouched, exactly when the
    /// section's key path does not lead through tables to a table.
    pub fn write_dep(&mut self, package_id: usize, dep_index: usize) -> (r: Result<
        String,
        DocError,
    >)
        requires
            package_id < old(self).packages@.len(),
            dep_index < old(self).packages@[package_id as int].dependencies@.len(),
        ensures
            ({
                let pkg = old(self).packages@[package_id as int];
                let d = pkg.dependencies@[dep_index as int];
                let parts = pkg.dependency_type.spec_key_parts();
                &&& (r is Ok) == doc_has_table_path(pkg.toml_doc, parts)
                &&& (r matches Ok(text) ==> (d.spec_uses_plain_form() ==> text@
                    == plain_patched_text(pkg.toml_doc, parts, d.name@, d.version@)))
                &&& (r matches Ok(text) ==> (!d.spec_uses_plain_form() ==> text@
                    == table_patched_text(
                    pkg.toml_doc,
                    parts,
                    d.name@,
                    d.spec_path_entry(),
                    d.spec_version_entry(),
                    d.spec_features_entry(),
                    d.spec_default_entry(),
                )))
                &&& (r matches Ok(text) ==> doc_text(
                    final(self).packages@[package_id as int].toml_doc,
                ) == text@)
                &&& (r is Ok ==> doc_has_table_path(
                    final(self).packages@[package_id as int].toml_doc,
                    parts,
                ))
                &&& (r matches Ok(text) ==> (d.spec_uses_plain_form() ==> plain_patched_text(
                    final(self).packages@[package_id as int].toml_doc,
                    parts,
                    d.name@,
                    d.version@,
                ) == text@))
                &&& (r matches Ok(text) ==> (!d.spec_uses_plain_form() ==> table_patched_text(
                    final(self).packages@[package_id as int].toml_doc,
                    parts,
                    d.name@,
                    d.spec_path_entry(),
                    d.spec_version_entry(),
                    d.spec_features_entry(),
                    d.spec_default_entry(),
                ) == text@))
                &&& (r matches Err(e) ==> e is SectionNotFound && final(self).packages@[
                    package_id as int
                ].toml_doc == pkg.toml_doc)
            }),
            final(self).packages@.len() == old(self).packages@.len(),
            forall|k: int|
                0 <= k < old(self).packages@.len() && k != package_id
                    ==> #[trigger] final(self).packages@[k] == old(self).packages@[k],
            final(self).packages@[package_id as int] == (Package {
                toml_doc: final(self).packages@[package_id as int].toml_doc,
                ..old(self).packages@[package_id as int]
            }),
    {
        let pkg = package_at_mut(&mut self.packages, package_id);
        let enc = encode_dep(&pkg.dependencies[dep_index]);
        let dep_name = pkg.dependencies[dep_index].get_name();
        let parts = pkg.dependency_type.key_parts();
        proof {
            assert(parts.deep_view() =~= parts@.map_values(|s: String| s@));
        }
        let res = match &enc {
            DepValue::Plain(v) => patch_dep_plain(
                &mut pkg.toml_doc,
                &parts,
                dep_name.as_str(),
                v.as_str(),
            ),
            DepValue::Expanded(t) => patch_dep_table(
                &mut pkg.toml_doc,
                &parts,
                dep_name.as_str(),
                t,
            ),
        };
        match res {
            Option::Some(text) => Result::Ok(text),
            Option::None => Result::Err(DocError::SectionNotFound),
        }
    }

    /// Resolves the dependency by its effective name, then writes it back as
    /// `write_dep` does; `NotFound`, with the document unchanged, when no
    /// dependency has that name.
    pub fn write_dep_by_name(&mut self, package_id: usize, name: &str) -> (r: Result<
        String,
        DocError,
    >)
        requires
            package_id < old(self).packages@.len(),
        ensures
            ({
                let pkg = old(self).packages@[package_id as int];
                let deps = pkg.dependencies@;
                let parts = pkg.dependency_type.spec_key_parts();
                &&& (r matches Err(e) ==> (e matches DocError::NotFound(n) ==> (n@ == name@ && (
                forall|i: int| 0 <= i < deps.len() ==> (#[trigger] deps[i]).name@ != name@)
                    && *final(self) == *old(self))))
                &&& (forall|i: int| 0 <= i < deps.len() ==> (#[trigger] deps[i]).name@ != name@)
                    ==> (r matches Err(e) && e matches DocError::NotFound(n) && n@ == name@)
                &&& ((exists|i: int| 0 <= i < deps.len() && (#[trigger] deps[i]).name@ == name@)
                    ==> ((r is Ok) == doc_has_table_path(pkg.toml_doc, parts) && (r matches Err(e)
                    ==> e is SectionNotFound)))
                &&& (r matches Ok(text) ==> doc_text(
                    final(self).packages@[package_id as int].toml_doc,
                ) == text@)
                &&& (r matches Err(e) ==> (e is SectionNotFound ==> final(self).packages@[
                    package_id as int
                ].toml_doc == pkg.toml_doc))
                &&& (r matches Ok(text) ==> exists|i: int|
                    0 <= i < deps.len() && (#[trigger] deps[i]).name@ == name@ && (forall|j: int|
                        0 <= j < i ==> (#[trigger] deps[j]).name@ != name@) && text@ == (
                    if deps[i].spec_uses_plain_form() {
                        plain_patched_text(pkg.toml_doc, parts, deps[i].name@, deps[i].version@)
                    } else {
                        table_patched_text(
                            pkg.toml_doc,
                            parts,
                            deps[i].name@,
                            deps[i].spec_path_entry(),
                            deps[i].spec_version_entry(),
                            deps[i].spec_features_entry(),
                            deps[i].spec_default_entry(),
                        )
                    }))
            }),
            final(self).packages@.len() == old(self).packages@.len(),
            forall|k: int|
                0 <= k < old(self).packages@.len() && k != package_id
                    ==> #[trigger] final(self).packages@[k] == old(self).packages@[k],
            final(self).packages@[package_id as int] == (Package {
                toml_doc: final(self).packages@[package_id as int].toml_doc,
                ..old(self).packages@[package_id as int]
            }),
    {
        let found = find_by_name(&self.packages[package_id].dependencies, name);
        match found {
            Option::Some(index) => self.write_dep(package_id, index),
            Option::None => Result::Err(DocError::NotFound(String::from_str(name))),
        }
    }

    /// The fuzzy-filtered dependency view: every dependency whose effective
    /// name the pattern fuzzily matches, best score first, ties in original
    /// list order, each with its match positions for highlighting. An empty
    /// filter keeps every dependency in original order.
    pub fn get_deps_filtered_view(&self, package_id: usize, filter: &str) -> (r: Vec<
        DependencySelectorItem,
    >)
        requires
            package_id < self.packages@.len(),
        ensures
            ({
                let deps = self.packages@[package_id as int].dependencies@;
                &&& forall|k: int|
                    0 <= k < r@.len() ==> {
                        let it = #[trigger] r@[k];
                        &&& it.dep_index < deps.len()
                        &&& it.name@ == deps[it.dep_index as int].name@
                        &&& fuzzy_of(deps[it.dep_index as int].name@, filter@) matches Some(q)
                            && it.score == q.0 && it.match_indexes@.map_values(|x: usize| x as int)
                            == q.1
                    }
                &&& forall|i: int, j: int|
                    0 <= i < j < r@.len() ==> ((#[trigger] r@[i]).score > (#[trigger] r@[j]).score
                        || (r@[i].score == r@[j].score && r@[i].dep_index < r@[j].dep_index))
                &&& forall|i: int|
                    0 <= i < deps.len() && fuzzy_of((#[trigger] deps[i]).name@, filter@) is Some
                        ==> exists|k: int| 0 <= k < r@.len() && (#[trigger] r@[k]).dep_index == i
                &&& filter@.len() == 0 ==> (r@.len() == deps.len() && forall|k: int|
                    0 <= k < r@.len() ==> (#[trigger] r@[k]).dep_index == k)
            }),
    {
        let deps = &self.packages[package_id].dependencies;
        let ghost dv = deps@;
        let n = deps.len();
        let mut out: Vec<DependencySelectorItem> = Vec::new();
        for i in 0..n
            invariant
                n == deps@.len(),
                dv == deps@,
                deps@ == self.packages@[package_id as int].dependencies@,
                vstd::relations::sorted_by(out@, crate::fuzzy::item_leq()),
                forall|k: int|
                    0 <= k < out@.len() ==> {
                        let it = #[trigger] out@[k];
                        &&& it.dep_index < i
                        &&& it.name@ == dv[it.dep_index as int].name@
                        &&& fuzzy_of(dv[it.dep_index as int].name@, filter@) matches Some(q)
                            && it.score == q.0 && it.match_indexes@.map_values(|x: usize| x as int)
                            == q.1
                    },
                forall|k1: int, k2: int|
                    0 <= k1 < k2 < out@.len() ==> (#[trigger] out@[k1]).dep_index != (
                    #[trigger] out@[k2]).dep_index,
                forall|j: int|
                    0 <= j < i && fuzzy_of((#[trigger] dv[j]).name@, filter@) is Some ==> exists|
                        k: int,
                    | 0 <= k < out@.len() && (#[trigger] out@[k]).dep_index == j,
                filter@.len() == 0 ==> (out@.len() == i && forall|k: int|
                    0 <= k < out@.len() ==> (#[trigger] out@[k]).dep_index == k && out@[k].score
                        == 0),
        {
            let d = &deps[i];
            match fuzzy_match(d.name.as_str(), filter) {
                Option::Some(m) => {
                    let it = DependencySelectorItem {
                        dep_index: i,
                        name: d.get_name(),
                        score: m.0,
                        match_indexes: m.1,
                    };
                    let ghost pre = out@;
                    insert_item_sorted(&mut out, it);
                    proof {
                        let p = choose|p: int|
                            0 <= p <= pre.len() && out@ == pre.insert(p, it);
                        assert forall|k: int| 0 <= k < out@.len() implies out@[k] == (if k < p {
                            pre[k]
                        } else if k == p {
                            it
                        } else {
                            pre[k - 1]
                        }) by {
                            assert(out@ == pre.insert(p, it));
                        }
                        if filter@.len() == 0 {
                            if p < pre.len() {
                                assert(crate::fuzzy::item_leq()(out@[p], out@[p + 1]));
                                assert(item_le(it, pre[p]));
                                assert(false);
                            }
                            assert(out@ =~= pre.push(it));
                        }
                        assert forall|j: int|
                            0 <= j < i + 1 && fuzzy_of(
                                (#[trigger] dv[j]).name@,
                                filter@,
                            ) is Some implies exists|k: int|
                            0 <= k < out@.len() && (#[trigger] out@[k]).dep_index == j by {
                            if j == i {
                                assert(out@[p].dep_index == i);
                            } else {
                                let k0 = choose|k0: int|
                                    0 <= k0 < pre.len() && (#[trigger] pre[k0]).dep_index == j;
                                if k0 < p {
                                    assert(out@[k0].dep_index == j);
                                } else {
                                    assert(out@[k0 + 1].dep_index == j);
                                }
                            }
                        }
                    }
                },
                Option::None => {},
            }
        }
        proof {
            assert forall|i: int, j: int| 0 <= i < j < out@.len() implies ((#[trigger] out@[i]).score
                > (#[trigger] out@[j]).score || (out@[i].score == out@[j].score
                && out@[i].dep_index < out@[j].dep_index)) by {
                assert(crate::fuzzy::item_leq()(out@[i], out@[j]));
                assert(item_le(out@[i], out@[j]));
                assert(out@[i].dep_index != out@[j].dep_index);
            }
        }
        out
    }

    /// A document is a workspace exactly when it holds more than one package.
    pub fn is_workspace(&self) -> (r: bool)
        ensures
            r == (self.packages@.len() > 1),
    {
        self.packages.len() > 1
    }
}

} // verus!
