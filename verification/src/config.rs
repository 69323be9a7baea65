//! Earlier home of the project-descriptor generator, kept for callers
//! that still reach it here; the rendering itself lives in
//! [`crate::manifest`].

use vstd::prelude::*;

use crate::manifest;
use crate::manifest::{kept_crates, spec_deps_text, spec_package_text, Crate};

verus! {

/// The project descriptor, ready to be written out as `Cargo.toml`.
pub struct CargoTOML {
    inner: manifest::CargoTOML,
}

impl CargoTOML {
    /// The dependencies that will be written.
    pub closed spec fn spec_dependencies(&self) -> Seq<Crate> {
        self.inner.spec_dependencies()
    }

    /// Collect the declarations that count, in order.
    pub fn from_crates(crates: &Vec<Crate>) -> (r: CargoTOML)
        ensures
            r.spec_dependencies() == kept_crates(crates@, crates@.len() as int),
    {
        CargoTOML { inner: manifest::CargoTOML::from_crates(crates) }
    }

    /// Render the descriptor as TOML text.
    pub fn as_toml(&self) -> (r: String)
        ensures
            r@ == spec_package_text() + spec_deps_text(self.spec_dependencies()),
    {
        self.inner.as_toml()
    }
}

} // verus!
