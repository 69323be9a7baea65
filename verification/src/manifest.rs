//! The project descriptor handed to the external compiler: a dependency
//! declaration per crate, a fixed package identity, and a profile that
//! switches debug-info emission off.
//!
//! The descriptor is emitted as TOML text. The dependency table maps a
//! crate name to a version constraint and an optional local path; when a
//! name is declared twice, the later declaration wins, as it would in a
//! keyed table.

use vstd::prelude::*;

verus! {

/// One dependency of the generated project: a crate name, an optional
/// version constraint, and an optional local filesystem path override.
#[derive(Debug)]
pub struct Crate {
    pub name: String,
    pub version: Option<String>,
    pub path: Option<String>,
}

impl Crate {
    /// Depend on the newest available version of `name`.
    pub fn latest(name: &str) -> (r: Crate)
        ensures
            r.name@ == name@,
            r.version is None,
            r.path is None,
    {
        Crate { name: String::from_str(name), version: None, path: None }
    }

    /// Depend on `name` at exactly `version`.
    pub fn new(name: &str, version: &str) -> (r: Crate)
        ensures
            r.name@ == name@,
            r.version matches Some(v) && v@ == version@,
            r.path is None,
    {
        Crate {
            name: String::from_str(name),
            version: Some(String::from_str(version)),
            path: None,
        }
    }

    /// Depend on `name` taken from the local directory `path`.
    pub fn with_path(name: &str, path: &str) -> (r: Crate)
        ensures
            r.name@ == name@,
            r.version is None,
            r.path matches Some(p) && p@ == path@,
    {
        Crate { name: String::from_str(name), version: None, path: Some(String::from_str(path)) }
    }
}

/// The version constraint written for a crate: the declared one, or a
/// wildcard when none was given.
pub open spec fn spec_version_text(c: Crate) -> Seq<char> {
    match c.version {
        Some(v) => v@,
        None => "*"@,
    }
}

/// The path override written for a crate, if any.
pub open spec fn spec_path_text(c: Crate) -> Option<Seq<char>> {
    match c.path {
        Some(p) => Some(p@),
        None => None,
    }
}

/// Whether the declaration at position `i` is the one that counts: no
/// later declaration carries the same name.
pub open spec fn is_last_declaration(crates: Seq<Crate>, i: int) -> bool {
    forall|j: int| i < j < crates.len() ==> (#[trigger] crates[j]).name@ != crates[i].name@
}

/// The first `k` declarations, reduced to the ones that count.
pub open spec fn kept_crates(crates: Seq<Crate>, k: int) -> Seq<Crate>
    decreases k,
{
    if k <= 0 {
        Seq::empty()
    } else {
        let rest = kept_crates(crates, k - 1);
        if is_last_declaration(crates, k - 1) {
            rest.push(crates[k - 1])
        } else {
            rest
        }
    }
}

/// The fixed package identity of every generated project.
pub open spec fn spec_package_text() -> Seq<char> {
    "[package]\nname = \"ptx-builder\"\nversion = \"0.1.0\"\n\n[profile.dev]\ndebug = false\n"@
}

/// The table entry written for one dependency.
pub open spec fn spec_dep_text(c: Crate) -> Seq<char> {
    "\n[dependencies."@ + c.name@ + "]\nversion = \""@ + spec_version_text(c) + "\"\n"@ + (
    match c.path {
        Some(p) => "path = \""@ + p@ + "\"\n"@,
        None => Seq::<char>::empty(),
    })
}

/// The table entries for a sequence of dependencies, in order.
pub open spec fn spec_deps_text(crates: Seq<Crate>) -> Seq<char>
    decreases crates.len(),
{
    if crates.len() == 0 {
        Seq::empty()
    } else {
        spec_deps_text(crates.drop_last()) + spec_dep_text(crates.last())
    }
}

/// The complete descriptor text for a list of declared dependencies.
pub open spec fn spec_manifest_text(crates: Seq<Crate>) -> Seq<char> {
    spec_package_text() + spec_deps_text(kept_crates(crates, crates.len() as int))
}

/// The project descriptor, ready to be written out as `Cargo.toml`.
pub struct CargoTOML {
    dependencies: Vec<Crate>,
}

impl CargoTOML {
    /// The dependencies that will be written, after dropping overridden
    /// duplicate declarations.
    pub closed spec fn spec_dependencies(&self) -> Seq<Crate> {
        self.dependencies@
    }

    /// Every written dependency carries a distinct name.
    pub open spec fn wf(&self) -> bool {
        forall|i: int, j: int|
            0 <= i < j < self.spec_dependencies().len() ==> (#[trigger] self.spec_dependencies()[i]).name@ != (
            #[trigger] self.spec_dependencies()[j]).name@
    }

    /// Collect the declarations that count, in order; a name declared
    /// twice keeps only its later declaration.
    pub fn from_crates(crates: &Vec<Crate>) -> (r: CargoTOML)
        ensures
            r.spec_dependencies() == kept_crates(crates@, crates@.len() as int),
            r.wf(),
    {
        let n = crates.len();
        let mut deps: Vec<Crate> = Vec::new();
        for i in 0..n
            invariant
                n == crates.len(),
                deps@ == kept_crates(crates@, i as int),
        {
            let mut dup = false;
            let mut j = i + 1;
            while j < n
                invariant
                    n == crates.len(),
                    i < j <= n,
                    i < n,
                    dup ==> exists|t: int|
                        i < t < n && (#[trigger] crates@[t]).name@ == crates@[i as int].name@,
                    !dup ==> forall|t: int|
                        i < t < j ==> (#[trigger] crates@[t]).name@ != crates@[i as int].name@,
                decreases n - j,
            {
                if crate::text::str_eq(crates[j].name.as_str(), crates[i].name.as_str()) {
                    dup = true;
                }
                j += 1;
            }
            if !dup {
                let c = &crates[i];
                let version = match &c.version {
                    Some(v) => Some(v.clone()),
                    None => None,
                };
                let path = match &c.path {
                    Some(p) => Some(p.clone()),
                    None => None,
                };
                let kept = Crate { name: c.name.clone(), version, path };
                assert(kept.name@ == crates@[i as int].name@ && spec_version_text(kept)
                    == spec_version_text(crates@[i as int]) && spec_path_text(kept)
                    == spec_path_text(crates@[i as int]));
                assert(kept == crates@[i as int]) by {
                    assert(kept.name@ == crates@[i as int].name@);
                };
                deps.push(kept);
            }
            proof {
                assert(deps@ =~= kept_crates(crates@, i + 1));
            }
        }
        let r = CargoTOML { dependencies: deps };
        proof {
            lemma_kept_crates_unique(crates@, n as int);
        }
        r
    }

    /// Render the descriptor as TOML text.
    pub fn as_toml(&self) -> (r: String)
        ensures
            r@ == spec_package_text() + spec_deps_text(self.spec_dependencies()),
    {
        let mut out = String::from_str(
            "[package]\nname = \"ptx-builder\"\nversion = \"0.1.0\"\n\n[profile.dev]\ndebug = false\n",
        );
        let n = self.dependencies.len();
        for i in 0..n
            invariant
                n == self.dependencies.len(),
                out@ == spec_package_text() + spec_deps_text(self.dependencies@.take(i as int)),
        {
            append_dep_text(&mut out, &self.dependencies[i]);
            proof {
                let dv = self.dependencies@;
                assert(dv.take(i + 1).drop_last() =~= dv.take(i as int));
                assert(dv.take(i + 1).last() == dv[i as int]);
                assert(out@ =~= spec_package_text() + spec_deps_text(dv.take(i + 1)));
            }
        }
        proof {
            assert(self.dependencies@.take(n as int) =~= self.dependencies@);
        }
        out
    }
}

/// Append the table entry for one dependency to `out`.
fn append_dep_text(out: &mut String, c: &Crate)
    ensures
        final (out)@ == old(out)@ + spec_dep_text(*c),
{
    out.append("\n[dependencies.");
    out.append(c.name.as_str());
    out.append("]\nversion = \"");
    match &c.version {
        Some(v) => out.append(v.as_str()),
        None => out.append("*"),
    }
    out.append("\"\n");
    match &c.path {
        Some(p) => {
            out.append("path = \"");
            out.append(p.as_str());
            out.append("\"\n");
        },
        None => (),
    }
    proof {
        assert(out@ =~= old(out)@ + spec_dep_text(*c));
    }
}

/// The element at position `i` of the kept declarations is one of the
/// first `k` declarations, and the one that counts for its name.
pub open spec fn comes_from_declaration(crates: Seq<Crate>, k: int, i: int) -> bool {
    exists|t: int|
        0 <= t < k && kept_crates(crates, k)[i] == crates[t] && is_last_declaration(
            crates,
            t,
        )
}

/// Overridden declarations dropped, the names that remain are pairwise
/// distinct.
proof fn lemma_kept_crates_unique(crates: Seq<Crate>, k: int)
    requires
        k <= crates.len(),
    ensures
        forall|i: int, j: int|
            0 <= i < j < kept_crates(crates, k).len() ==> (#[trigger] kept_crates(crates, k)[i]).name@
                != (#[trigger] kept_crates(crates, k)[j]).name@,
        forall|i: int|
            0 <= i < kept_crates(crates, k).len() ==> comes_from_declaration(crates, k, i),
    decreases k,
{
    if k > 0 {
        lemma_kept_crates_unique(crates, k - 1);
        let prev = kept_crates(crates, k - 1);
        let cur = kept_crates(crates, k);
        if is_last_declaration(crates, k - 1) {
            assert forall|i: int| 0 <= i < prev.len() implies (#[trigger] prev[i]).name@
                != crates[k - 1].name@ by {
                assert(comes_from_declaration(crates, k - 1, i));
                let t = choose|t: int|
                    0 <= t < k - 1 && prev[i] == crates[t] && is_last_declaration(crates, t);
                assert(crates[k - 1].name@ != crates[t].name@);
            }
            assert forall|i: int| 0 <= i < cur.len() implies comes_from_declaration(
                crates,
                k,
                i,
            ) by {
                if i < prev.len() {
                    assert(cur[i] == prev[i]);
                    assert(comes_from_declaration(crates, k - 1, i));
                    let t = choose|t: int|
                        0 <= t < k - 1 && prev[i] == crates[t] && is_last_declaration(crates, t);
                    assert(0 <= t < k && cur[i] == crates[t] && is_last_declaration(crates, t));
                } else {
                    assert(cur[i] == crates[k - 1]);
                    assert(0 <= k - 1 < k && cur[i] == crates[k - 1] && is_last_declaration(
                        crates,
                        k - 1,
                    ));
                }
            }
        } else {
            assert forall|i: int| 0 <= i < cur.len() implies comes_from_declaration(
                crates,
                k,
                i,
            ) by {
                assert(comes_from_declaration(crates, k - 1, i));
                let t = choose|t: int|
                    0 <= t < k - 1 && prev[i] == crates[t] && is_last_declaration(crates, t);
                assert(0 <= t < k && cur[i] == crates[t] && is_last_declaration(crates, t));
            }
        }
    }
}

/// Produce the descriptor text for the declared dependencies.
pub fn generate(crates: &Vec<Crate>) -> (r: String)
    ensures
        r@ == spec_manifest_text(crates@),
{
    let setting = CargoTOML::from_crates(crates);
    setting.as_toml()
}

} // verus!
