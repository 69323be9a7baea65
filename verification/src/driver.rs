//! The top-level pipeline: configuration of a build, and the exact
//! external commands that each stage runs.
//!
//! The driver owns a build directory and a build configuration. Every
//! stage of the pipeline — build, link, optimize, codegen — is planned
//! here as a full argument vector; running those commands, and every
//! other filesystem effect, is the caller's side of the boundary.

use vstd::prelude::*;

use crate::error::CompileError;
use crate::json::{
    read_runtime_setting, runtime_declared, runtime_names_of, runtime_shape_ok, RuntimeSetting,
};
use crate::text::{
    join_comma, join_with_comma, parent_of, seq_ends_with, seq_starts_with, spec_file_stem,
    spec_parent, split_lines, split_str_lines, str_ends_with, str_eq, str_starts_with, substring,
    trim_prefix, trim_prefix_rec,
};

verus! {

/// Compile Rust into a PTX assembly module.
///
/// Holds the build root, the release-vs-debug flag, the toolchain that
/// carries the NVPTX-enabled compiler, and an optional target CPU
/// architecture.
pub struct Driver {
    path: String,
    release: bool,
    toolchain: String,
    arch: Option<String>,
}

/// A path with a leading `~` replaced by the home directory: `~` alone
/// becomes `home`, `~/rest` becomes `home/rest`, anything else is kept.
pub open spec fn spec_expand_home(path: Seq<char>, home: Seq<char>) -> Seq<char> {
    if path == "~"@ {
        home
    } else if seq_starts_with(path, "~/"@) {
        home + path.skip(1)
    } else {
        path
    }
}

/// Expand a leading `~` in `path` to `home`.
pub fn expand_home(path: &str, home: &str) -> (r: String)
    ensures
        r@ == spec_expand_home(path@, home@),
{
    if str_eq(path, "~") {
        String::from_str(home)
    } else if str_starts_with(path, "~/") {
        let n = path.unicode_len();
        proof {
            reveal_strlit("~/");
        }
        let mut out = String::from_str(home);
        let rest = substring(path, 1, n);
        out.append(rest.as_str());
        proof {
            assert(path@.subrange(1, n as int) =~= path@.skip(1));
        }
        out
    } else {
        String::from_str(path)
    }
}

/// The build-output directory, relative to the build root: the target
/// triple's subtree, in its release or debug profile.
pub open spec fn spec_target_dir_name(release: bool) -> Seq<char> {
    if release {
        "target/nvptx64-nvidia-cuda/release"@
    } else {
        "target/nvptx64-nvidia-cuda/debug"@
    }
}

/// The argument vector that runs the external compiler for the
/// accelerator target.
pub open spec fn spec_build_command(toolchain: Seq<char>, release: bool) -> Seq<Seq<char>> {
    let base = seq![
        "cargo"@,
        "+"@ + toolchain,
        "build"@,
        "--target"@,
        "nvptx64-nvidia-cuda"@,
    ];
    if release {
        base.push("--release"@)
    } else {
        base
    }
}

/// The argument vector that merges dependency and runtime bitcode into
/// one module.
pub open spec fn spec_link_command(
    llvm_link: Seq<char>,
    bitcodes: Seq<Seq<char>>,
    runtimes: Seq<Seq<char>>,
) -> Seq<Seq<char>> {
    seq![llvm_link] + bitcodes + runtimes + seq!["-o"@, "kernel.bc"@]
}

/// The argument vector that internalizes every symbol but the listed
/// entry points and removes dead globals.
pub open spec fn spec_opt_command(opt: Seq<char>, entry_points: Seq<Seq<char>>) -> Seq<Seq<char>> {
    seq![
        opt,
        "-internalize"@,
        "-internalize-public-api-list="@ + join_comma(entry_points),
        "-globaldce"@,
        "kernel.bc"@,
        "-o"@,
        "kernel.opt.bc"@,
    ]
}

/// The architecture handed to the code generator: the configured one, or
/// the default.
pub open spec fn spec_arch_name(arch: Option<Seq<char>>) -> Seq<char> {
    match arch {
        Some(a) => a,
        None => "sm_50"@,
    }
}

/// The argument vector that emits PTX assembly from the pruned module.
pub open spec fn spec_llc_command(
    llc: Seq<char>,
    release: bool,
    arch: Option<Seq<char>>,
) -> Seq<Seq<char>> {
    seq![
        llc,
        if release {
            "-O3"@
        } else {
            "-O0"@
        },
        "-mcpu="@ + spec_arch_name(arch),
        "kernel.opt.bc"@,
        "-o"@,
        "kernel.ptx"@,
    ]
}

impl Driver {
    /// The build root.
    pub closed spec fn spec_path(&self) -> Seq<char> {
        self.path@
    }

    /// Whether this is a release build.
    pub closed spec fn spec_release(&self) -> bool {
        self.release
    }

    /// The toolchain the external compiler is invoked with.
    pub closed spec fn spec_toolchain(&self) -> Seq<char> {
        self.toolchain@
    }

    /// The configured target CPU architecture, if any.
    pub closed spec fn spec_arch(&self) -> Option<Seq<char>> {
        match self.arch {
            Some(a) => Some(a@),
            None => None,
        }
    }

    /// Create a driver over the build directory `path`: a debug build
    /// with the default toolchain. The directory itself is the caller's
    /// to prepare.
    pub fn with_path(path: &str) -> (r: Driver)
        ensures
            r.spec_path() == path@,
            !r.spec_release(),
            r.spec_toolchain() == "accel-nvptx"@,
            r.spec_arch() is None,
    {
        Driver {
            path: String::from_str(path),
            release: false,
            toolchain: String::from_str("accel-nvptx"),
            arch: None,
        }
    }

    /// Use `toolchain` instead of the default one.
    pub fn alternative_toolchain(&mut self, toolchain: &str)
        ensures
            final (self).spec_toolchain() == toolchain@,
            final (self).spec_path() == old(self).spec_path(),
            final (self).spec_release() == old(self).spec_release(),
            final (self).spec_arch() == old(self).spec_arch(),
    {
        self.toolchain = String::from_str(toolchain);
    }

    /// Build with optimizations.
    pub fn release_build(&mut self)
        ensures
            final (self).spec_release(),
            final (self).spec_path() == old(self).spec_path(),
            final (self).spec_toolchain() == old(self).spec_toolchain(),
            final (self).spec_arch() == old(self).spec_arch(),
    {
        self.release = true;
    }

    /// Emit code for `arch` instead of the default architecture.
    pub fn set_arch(&mut self, arch: &str)
        ensures
            final (self).spec_arch() matches Some(a) && a == arch@,
            final (self).spec_path() == old(self).spec_path(),
            final (self).spec_release() == old(self).spec_release(),
            final (self).spec_toolchain() == old(self).spec_toolchain(),
    {
        self.arch = Some(String::from_str(arch));
    }

    /// The build root.
    pub fn path(&self) -> (r: &String)
        ensures
            r@ == self.spec_path(),
    {
        &self.path
    }

    /// The build-output directory, relative to the build root.
    pub fn target_dir_name(&self) -> (r: String)
        ensures
            r@ == spec_target_dir_name(self.spec_release()),
    {
        if self.release {
            String::from_str("target/nvptx64-nvidia-cuda/release")
        } else {
            String::from_str("target/nvptx64-nvidia-cuda/debug")
        }
    }

    /// Plan the external-compiler invocation for the Build stage.
    pub fn build_command(&self) -> (r: Vec<String>)
        ensures
            r.deep_view() == spec_build_command(self.spec_toolchain(), self.spec_release()),
    {
        let mut args: Vec<String> = Vec::new();
        args.push(String::from_str("cargo"));
        let mut plus = String::from_str("+");
        plus.append(self.toolchain.as_str());
        args.push(plus);
        args.push(String::from_str("build"));
        args.push(String::from_str("--target"));
        args.push(String::from_str("nvptx64-nvidia-cuda"));
        if self.release {
            args.push(String::from_str("--release"));
        }
        proof {
            assert(args.deep_view() =~= spec_build_command(
                self.spec_toolchain(),
                self.spec_release(),
            ));
        }
        args
    }

    /// Plan the bitcode-merge invocation for the Link stage, over the
    /// dependency bitcode modules and the resolved runtime modules.
    pub fn link_command(
        &self,
        llvm_link: &str,
        bitcodes: &Vec<String>,
        runtimes: &Vec<String>,
    ) -> (r: Vec<String>)
        ensures
            r.deep_view() == spec_link_command(
                llvm_link@,
                bitcodes.deep_view(),
                runtimes.deep_view(),
            ),
    {
        let mut args: Vec<String> = Vec::new();
        args.push(String::from_str(llvm_link));
        let nb = bitcodes.len();
        for i in 0..nb
            invariant
                nb == bitcodes.len(),
                args.deep_view() =~= seq![llvm_link@] + bitcodes.deep_view().take(i as int),
        {
            let ghost pre = args.deep_view();
            args.push(bitcodes[i].clone());
            proof {
                assert(args.deep_view() =~= pre.push(bitcodes.deep_view()[i as int]));
                assert(args.deep_view() =~= seq![llvm_link@] + bitcodes.deep_view().take(i + 1));
            }
        }
        let nr = runtimes.len();
        for i in 0..nr
            invariant
                nr == runtimes.len(),
                args.deep_view() =~= seq![llvm_link@] + bitcodes.deep_view()
                    + runtimes.deep_view().take(i as int),
        {
            let ghost pre = args.deep_view();
            args.push(runtimes[i].clone());
            proof {
                assert(args.deep_view() =~= pre.push(runtimes.deep_view()[i as int]));
                assert(args.deep_view() =~= seq![llvm_link@] + bitcodes.deep_view()
                    + runtimes.deep_view().take(i + 1));
            }
        }
        let ghost pre = args.deep_view();
        args.push(String::from_str("-o"));
        let ghost mid = args.deep_view();
        args.push(String::from_str("kernel.bc"));
        proof {
            assert(mid =~= pre.push("-o"@));
            assert(args.deep_view() =~= mid.push("kernel.bc"@));
            assert(args.deep_view() =~= spec_link_command(
                llvm_link@,
                bitcodes.deep_view(),
                runtimes.deep_view(),
            ));
        }
        args
    }

    /// Plan the internalize-and-prune invocation for the Link stage: the
    /// public API is restricted to exactly the discovered entry points.
    pub fn opt_command(&self, opt: &str, entry_points: &Vec<String>) -> (r: Vec<String>)
        ensures
            r.deep_view() == spec_opt_command(opt@, entry_points.deep_view()),
    {
        let mut args: Vec<String> = Vec::new();
        args.push(String::from_str(opt));
        args.push(String::from_str("-internalize"));
        let mut api = String::from_str("-internalize-public-api-list=");
        let joined = join_with_comma(entry_points);
        api.append(joined.as_str());
        args.push(api);
        args.push(String::from_str("-globaldce"));
        args.push(String::from_str("kernel.bc"));
        args.push(String::from_str("-o"));
        args.push(String::from_str("kernel.opt.bc"));
        proof {
            assert(args.deep_view() =~= spec_opt_command(opt@, entry_points.deep_view()));
        }
        args
    }

    /// Plan the code-generator invocation for the Link stage.
    pub fn llc_command(&self, llc: &str) -> (r: Vec<String>)
        ensures
            r.deep_view() == spec_llc_command(llc@, self.spec_release(), self.spec_arch()),
    {
        let mut args: Vec<String> = Vec::new();
        args.push(String::from_str(llc));
        if self.release {
            args.push(String::from_str("-O3"));
        } else {
            args.push(String::from_str("-O0"));
        }
        let mut mcpu = String::from_str("-mcpu=");
        match &self.arch {
            Some(a) => mcpu.append(a.as_str()),
            None => mcpu.append("sm_50"),
        }
        args.push(mcpu);
        args.push(String::from_str("kernel.opt.bc"));
        args.push(String::from_str("-o"));
        args.push(String::from_str("kernel.ptx"));
        proof {
            assert(args.deep_view() =~= spec_llc_command(
                llc@,
                self.spec_release(),
                self.spec_arch(),
            ));
        }
        args
    }
}

/// The pipeline's command plan is a function of the configuration alone:
/// two drivers configured alike plan the very same commands and the same
/// artifact locations, so two runs over identical input differ only in
/// what the external tools themselves emit.
pub proof fn lemma_plan_deterministic(a: Driver, b: Driver, llc: Seq<char>)
    requires
        a.spec_release() == b.spec_release(),
        a.spec_toolchain() == b.spec_toolchain(),
        a.spec_arch() == b.spec_arch(),
    ensures
        spec_target_dir_name(a.spec_release()) == spec_target_dir_name(b.spec_release()),
        spec_build_command(a.spec_toolchain(), a.spec_release()) == spec_build_command(
            b.spec_toolchain(),
            b.spec_release(),
        ),
        spec_llc_command(llc, a.spec_release(), a.spec_arch()) == spec_llc_command(
            llc,
            b.spec_release(),
            b.spec_arch(),
        ),
{
}

/// The probe order for an LLVM utility: the name suffixed `-6.0`, then
/// suffixed `-7.0`, then bare. `has_60`, `has_70` and `has_plain` say
/// which of the three probes found a live executable; the first hit
/// wins.
pub fn llvm_command(name: &str, has_60: bool, has_70: bool, has_plain: bool) -> (r: Result<
    String,
    CompileError,
>)
    ensures
        has_60 ==> (r matches Ok(s) && s@ == name@ + "-6.0"@),
        !has_60 && has_70 ==> (r matches Ok(s) && s@ == name@ + "-7.0"@),
        !has_60 && !has_70 && has_plain ==> (r matches Ok(s) && s@ == name@),
        !has_60 && !has_70 && !has_plain ==> (r matches Err(e) && (
        e matches CompileError::LLVMCommandNotFound { command } && command@ == name@)),
        r is Ok <==> (has_60 || has_70 || has_plain),
{
    if has_60 {
        let mut s = String::from_str(name);
        s.append("-6.0");
        Ok(s)
    } else if has_70 {
        let mut s = String::from_str(name);
        s.append("-7.0");
        Ok(s)
    } else if has_plain {
        Ok(String::from_str(name))
    } else {
        Err(CompileError::LLVMCommandNotFound { command: String::from_str(name) })
    }
}

/// The object members named in the output of the archive lister: each
/// line with its `x - ` markers removed, kept when it names a
/// codegen-unit object.
pub open spec fn spec_object_members(lines: Seq<Seq<char>>) -> Seq<Seq<char>>
    decreases lines.len(),
{
    if lines.len() == 0 {
        Seq::empty()
    } else {
        let rest = spec_object_members(lines.drop_last());
        let trimmed = trim_prefix_rec(lines.last(), "x - "@);
        if seq_ends_with(trimmed, ".rcgu.o"@) {
            rest.push(trimmed)
        } else {
            rest
        }
    }
}

/// Extract the object-member names from what the archive lister printed:
/// one member per line, prefixed by its extraction marker; only
/// codegen-unit objects are kept, the archive's metadata and symbol-table
/// members are not.
pub fn parse_ar_output(listing: &str) -> (r: Vec<String>)
    ensures
        r.deep_view() == spec_object_members(split_lines(listing@)),
{
    let lines = split_str_lines(listing);
    let ghost lv = lines.deep_view();
    let mut out: Vec<String> = Vec::new();
    let n = lines.len();
    for i in 0..n
        invariant
            n == lines.len(),
            lv == lines.deep_view(),
            out.deep_view() == spec_object_members(lv.take(i as int)),
    {
        let trimmed = trim_prefix(lines[i].as_str(), "x - ");
        if str_ends_with(trimmed.as_str(), ".rcgu.o") {
            out.push(trimmed);
        }
        proof {
            assert(lv.take(i + 1).drop_last() =~= lv.take(i as int));
            assert(lv.take(i + 1).last() == lv[i as int]);
            assert(out.deep_view() =~= spec_object_members(lv.take(i + 1)));
        }
    }
    proof {
        assert(lv.take(n as int) =~= lv);
    }
    out
}

/// The argument vector that extracts an archive's members into the
/// working directory, listing each as it goes.
pub open spec fn spec_ar_extract_command(archive: Seq<char>) -> Seq<Seq<char>> {
    seq!["ar"@, "xv"@, archive]
}

/// Plan the archive-extraction invocation for one dependency archive.
pub fn ar_extract_command(archive: &str) -> (r: Vec<String>)
    ensures
        r.deep_view() == spec_ar_extract_command(archive@),
{
    let mut args: Vec<String> = Vec::new();
    args.push(String::from_str("ar"));
    args.push(String::from_str("xv"));
    args.push(String::from_str(archive));
    proof {
        assert(args.deep_view() =~= spec_ar_extract_command(archive@));
    }
    args
}

/// The argument vector that links one archive's object members into a
/// bitcode module at `target`.
pub open spec fn spec_rlib_link_command(
    llvm_link: Seq<char>,
    members: Seq<Seq<char>>,
    target: Seq<char>,
) -> Seq<Seq<char>> {
    seq![llvm_link] + members + seq!["-o"@, target]
}

/// Plan the per-archive bitcode-link invocation over its extracted
/// object members.
pub fn rlib_link_command(llvm_link: &str, members: &Vec<String>, target: &str) -> (r: Vec<String>)
    ensures
        r.deep_view() == spec_rlib_link_command(llvm_link@, members.deep_view(), target@),
{
    let mut args: Vec<String> = Vec::new();
    args.push(String::from_str(llvm_link));
    let n = members.len();
    for i in 0..n
        invariant
            n == members.len(),
            args.deep_view() =~= seq![llvm_link@] + members.deep_view().take(i as int),
    {
        let ghost pre = args.deep_view();
        args.push(members[i].clone());
        proof {
            assert(args.deep_view() =~= pre.push(members.deep_view()[i as int]));
            assert(args.deep_view() =~= seq![llvm_link@] + members.deep_view().take(i + 1));
        }
    }
    let ghost pre = args.deep_view();
    args.push(String::from_str("-o"));
    let ghost mid = args.deep_view();
    args.push(String::from_str(target));
    proof {
        assert(mid =~= pre.push("-o"@));
        assert(args.deep_view() =~= mid.push(target@));
        assert(args.deep_view() =~= spec_rlib_link_command(
            llvm_link@,
            members.deep_view(),
            target@,
        ));
    }
    args
}

/// Where the bitcode module for an archive is placed: beside the
/// archive, under the archive's stem with the bitcode extension.
pub open spec fn spec_rlib_bc_target(path: Seq<char>) -> Seq<char> {
    let parent = spec_parent(path);
    if parent.len() == 0 {
        spec_file_stem(path) + ".bc"@
    } else {
        parent + "/"@ + spec_file_stem(path) + ".bc"@
    }
}

/// The output path for the bitcode module linked from the archive at
/// `path`.
pub fn rlib_bc_target(path: &str) -> (r: String)
    ensures
        r@ == spec_rlib_bc_target(path@),
{
    let parent = parent_of(path);
    let stem = crate::text::file_stem_of(path);
    if parent.as_str().unicode_len() == 0 {
        let mut out = stem;
        out.append(".bc");
        out
    } else {
        let mut out = parent;
        out.append("/");
        out.append(stem.as_str());
        out.append(".bc");
        out
    }
}

/// Read the runtime-component requirement out of the external compiler's
/// project-metadata document.
///
/// An empty document, or one without the `packages[0].metadata.nvptx
/// .runtime` path, declares no requirement. A document whose value at
/// that path is not an array of strings, or that is not JSON at all, is
/// rejected.
pub fn parse_runtime_setting(metadata: &str) -> (r: Result<Vec<String>, CompileError>)
    ensures
        metadata@.len() == 0 ==> (r matches Ok(v) && v@.len() == 0),
        metadata@.len() > 0 ==> (r is Ok <==> runtime_shape_ok(metadata@)),
        metadata@.len() > 0 && runtime_shape_ok(metadata@) && runtime_declared(metadata@) ==> (
        r matches Ok(v) && v.deep_view() == runtime_names_of(metadata@)),
        metadata@.len() > 0 && !runtime_declared(metadata@) && r is Ok ==> (r matches Ok(v)
            && v@.len() == 0),
        r is Err ==> (r matches Err(e) && e is RuntimeMetadataInvalid),
{
    if metadata.unicode_len() == 0 {
        return Ok(Vec::new());
    }
    match read_runtime_setting(metadata) {
        RuntimeSetting::Absent => Ok(Vec::new()),
        RuntimeSetting::Declared(names) => Ok(names),
        RuntimeSetting::Malformed => Err(
            CompileError::RuntimeMetadataInvalid {
                comment: String::from_str(
                    "nvptx.runtime must be an array of strings in a JSON document",
                ),
            },
        ),
    }
}

} // verus!
