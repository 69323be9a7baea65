//! The earlier, simpler pipeline front end: a builder that owns a build
//! directory and a dependency list, generates the project descriptor and
//! the target-description resource, and plans the external commands of
//! its build and link stages.

use vstd::prelude::*;

use crate::manifest::{spec_manifest_text, Crate};

verus! {

/// The stage of this pipeline in which a failure occurred.
#[derive(Debug, Clone, Copy, PartialEq, Eq, Structural)]
pub enum Step {
    Ready,
    Format,
    Link,
    Build,
    Load,
}

/// The embedded target-description resource for the accelerator, copied
/// verbatim into the build root before the external compiler runs.
pub open spec fn spec_target_descriptor() -> Seq<char> {
    "{\n  \"arch\": \"nvptx64\",\n  \"cpu\": \"sm_20\",\n  \"data-layout\": \"e-i64:64-i128:128-v16:16-v32:32-n16:32:64\",\n  \"llvm-target\": \"nvptx64-nvidia-cuda\",\n  \"max-atomic-width\": 0,\n  \"obj-is-bitcode\": true,\n  \"os\": \"cuda\",\n  \"panic-strategy\": \"abort\",\n  \"target-c-int-width\": \"32\",\n  \"target-endian\": \"little\",\n  \"target-pointer-width\": \"64\"\n}\n"@
}

/// Compile Rust into a PTX module under an owned build directory.
pub struct Builder {
    path: String,
    crates: Vec<Crate>,
}

/// Copy a dependency list field for field.
fn clone_crates(crates: &Vec<Crate>) -> (r: Vec<Crate>)
    ensures
        r@ == crates@,
{
    let mut out: Vec<Crate> = Vec::new();
    let n = crates.len();
    for i in 0..n
        invariant
            n == crates.len(),
            out@ == crates@.take(i as int),
    {
        let c = &crates[i];
        let version = match &c.version {
            Some(v) => Some(v.clone()),
            None => None,
        };
        let path = match &c.path {
            Some(p) => Some(p.clone()),
            None => None,
        };
        let copied = Crate { name: c.name.clone(), version, path };
        assert(copied == crates@[i as int]);
        out.push(copied);
        proof {
            assert(out@ =~= crates@.take(i + 1));
        }
    }
    proof {
        assert(crates@.take(n as int) =~= crates@);
    }
    out
}

impl Builder {
    /// The build root.
    pub closed spec fn spec_path(&self) -> Seq<char> {
        self.path@
    }

    /// The declared dependencies.
    pub closed spec fn spec_crates(&self) -> Seq<Crate> {
        self.crates@
    }

    /// A builder over the directory `path` with the dependencies
    /// `crates`. The directory itself is the caller's to prepare.
    pub fn with_path(path: &str, crates: &Vec<Crate>) -> (r: Builder)
        ensures
            r.spec_path() == path@,
            r.spec_crates() == crates@,
    {
        Builder { path: String::from_str(path), crates: clone_crates(crates) }
    }

    /// A builder over an existing project directory, with no declared
    /// dependencies.
    pub fn from_existing(path: &str) -> (r: Builder)
        ensures
            r.spec_path() == path@,
            r.spec_crates().len() == 0,
    {
        let none: Vec<Crate> = Vec::new();
        Self::with_path(path, &none)
    }

    /// The declared dependencies.
    pub fn crates(&self) -> (r: &Vec<Crate>)
        ensures
            r@ == self.spec_crates(),
    {
        &self.crates
    }

    /// The target-description resource to place in the build root as
    /// `nvptx64-nvidia-cuda.json`.
    pub fn copy_triplet(&self) -> (r: String)
        ensures
            r@ == spec_target_descriptor(),
    {
        String::from_str(
            "{\n  \"arch\": \"nvptx64\",\n  \"cpu\": \"sm_20\",\n  \"data-layout\": \"e-i64:64-i128:128-v16:16-v32:32-n16:32:64\",\n  \"llvm-target\": \"nvptx64-nvidia-cuda\",\n  \"max-atomic-width\": 0,\n  \"obj-is-bitcode\": true,\n  \"os\": \"cuda\",\n  \"panic-strategy\": \"abort\",\n  \"target-c-int-width\": \"32\",\n  \"target-endian\": \"little\",\n  \"target-pointer-width\": \"64\"\n}\n",
        )
    }

    /// The project descriptor to place in the build root as
    /// `Cargo.toml`.
    pub fn generate_manifest(&self) -> (r: String)
        ensures
            r@ == spec_manifest_text(self.spec_crates()),
    {
        crate::manifest::generate(&self.crates)
    }

    /// Plan the external-compiler invocation of the Build stage.
    pub fn build_command(&self) -> (r: Vec<String>)
        ensures
            r.deep_view() =~= seq![
                "xargo"@,
                "+nightly"@,
                "rustc"@,
                "--release"@,
                "--target"@,
                "nvptx64-nvidia-cuda"@,
            ],
    {
        let mut args: Vec<String> = Vec::new();
        args.push(String::from_str("xargo"));
        args.push(String::from_str("+nightly"));
        args.push(String::from_str("rustc"));
        args.push(String::from_str("--release"));
        args.push(String::from_str("--target"));
        args.push(String::from_str("nvptx64-nvidia-cuda"));
        proof {
            assert(args.deep_view() =~= seq![
                "xargo"@,
                "+nightly"@,
                "rustc"@,
                "--release"@,
                "--target"@,
                "nvptx64-nvidia-cuda"@,
            ]);
        }
        args
    }

    /// Plan the bitcode-merge invocation of the Link stage, over the
    /// extracted object members.
    pub fn link_command(&self, llvm_link: &str, objects: &Vec<String>) -> (r: Vec<String>)
        ensures
            r.deep_view() == seq![llvm_link@] + objects.deep_view() + seq!["-o"@, "kernel.bc"@],
    {
        let mut args: Vec<String> = Vec::new();
        args.push(String::from_str(llvm_link));
        let n = objects.len();
        for i in 0..n
            invariant
                n == objects.len(),
                args.deep_view() =~= seq![llvm_link@] + objects.deep_view().take(i as int),
        {
            let ghost pre = args.deep_view();
            args.push(objects[i].clone());
            proof {
                assert(args.deep_view() =~= pre.push(objects.deep_view()[i as int]));
                assert(args.deep_view() =~= seq![llvm_link@] + objects.deep_view().take(i + 1));
            }
        }
        let ghost pre = args.deep_view();
        args.push(String::from_str("-o"));
        let ghost mid = args.deep_view();
        args.push(String::from_str("kernel.bc"));
        proof {
            assert(mid =~= pre.push("-o"@));
            assert(args.deep_view() =~= mid.push("kernel.bc"@));
            assert(args.deep_view() =~= seq![llvm_link@] + objects.deep_view() + seq![
                "-o"@,
                "kernel.bc"@,
            ]);
        }
        args
    }

    /// Plan the code-generator invocation of the Link stage.
    pub fn llc_command(&self, llc: &str) -> (r: Vec<String>)
        ensures
            r.deep_view() =~= seq![llc@, "-mcpu=sm_20"@, "kernel.bc"@, "-o"@, "kernel.ptx"@],
    {
        let mut args: Vec<String> = Vec::new();
        args.push(String::from_str(llc));
        args.push(String::from_str("-mcpu=sm_20"));
        args.push(String::from_str("kernel.bc"));
        args.push(String::from_str("-o"));
        args.push(String::from_str("kernel.ptx"));
        proof {
            assert(args.deep_view() =~= seq![
                llc@,
                "-mcpu=sm_20"@,
                "kernel.bc"@,
                "-o"@,
                "kernel.ptx"@,
            ]);
        }
        args
    }
}

} // verus!
