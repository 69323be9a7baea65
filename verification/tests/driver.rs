use nvptx::driver::{
    ar_extract_command, expand_home, parse_ar_output, parse_runtime_setting, rlib_bc_target,
    rlib_link_command,
};
use nvptx::error::CompileError;
use nvptx::{get_compiler_rt, get_ptx_functions, Driver, FunctionInfo};

#[test]
fn home_expansion() {
    assert_eq!(expand_home("~/tmp/rust2ptx", "/home/u"), "/home/u/tmp/rust2ptx");
    assert_eq!(expand_home("~", "/home/u"), "/home/u");
    assert_eq!(expand_home("/abs/path", "/home/u"), "/abs/path");
    assert_eq!(expand_home("relative/path", "/home/u"), "relative/path");
}

#[test]
fn driver_configuration() {
    let mut d = Driver::with_path("/tmp/nvptx-driver");
    assert_eq!(d.path(), "/tmp/nvptx-driver");
    assert_eq!(d.target_dir_name(), "target/nvptx64-nvidia-cuda/debug");
    d.release_build();
    assert_eq!(d.target_dir_name(), "target/nvptx64-nvidia-cuda/release");
}

#[test]
fn build_command_plan() {
    let mut d = Driver::with_path("/tmp/p");
    assert_eq!(
        d.build_command(),
        vec!["cargo", "+accel-nvptx", "build", "--target", "nvptx64-nvidia-cuda"]
    );
    d.release_build();
    d.alternative_toolchain("my-nvptx");
    assert_eq!(
        d.build_command(),
        vec!["cargo", "+my-nvptx", "build", "--target", "nvptx64-nvidia-cuda", "--release"]
    );
}

#[test]
fn link_command_plan() {
    let d = Driver::with_path("/tmp/p");
    let bitcodes = vec!["libdep1.bc".to_string(), "libdep2.bc".to_string()];
    let runtimes = vec!["/tc/libcore-1.bc".to_string()];
    assert_eq!(
        d.link_command("llvm-link-6.0", &bitcodes, &runtimes),
        vec![
            "llvm-link-6.0",
            "libdep1.bc",
            "libdep2.bc",
            "/tc/libcore-1.bc",
            "-o",
            "kernel.bc"
        ]
    );
}

#[test]
fn opt_command_restricts_public_api() {
    let d = Driver::with_path("/tmp/p");
    let entries = vec!["add".to_string(), "mul2".to_string()];
    assert_eq!(
        d.opt_command("opt", &entries),
        vec![
            "opt",
            "-internalize",
            "-internalize-public-api-list=add,mul2",
            "-globaldce",
            "kernel.bc",
            "-o",
            "kernel.opt.bc"
        ]
    );
}

#[test]
fn llc_command_follows_configuration() {
    let mut d = Driver::with_path("/tmp/p");
    assert_eq!(
        d.llc_command("llc"),
        vec!["llc", "-O0", "-mcpu=sm_50", "kernel.opt.bc", "-o", "kernel.ptx"]
    );
    d.release_build();
    d.set_arch("sm_70");
    assert_eq!(
        d.llc_command("llc-7.0"),
        vec!["llc-7.0", "-O3", "-mcpu=sm_70", "kernel.opt.bc", "-o", "kernel.ptx"]
    );
}

#[test]
fn ar_listing_members() {
    let listing = "x - dep.x1y2z3.rcgu.o\nx - lib.rmeta\nx - dep.a4b5c6.rcgu.o\n";
    assert_eq!(
        parse_ar_output(listing),
        vec!["dep.x1y2z3.rcgu.o".to_string(), "dep.a4b5c6.rcgu.o".to_string()]
    );
}

#[test]
fn ar_listing_edge_cases() {
    assert!(parse_ar_output("").is_empty());
    assert!(parse_ar_output("x - lib.rmeta\n").is_empty());
    // Carriage returns are stripped, repeated markers are trimmed away.
    assert_eq!(
        parse_ar_output("x - a.rcgu.o\r\nx - x - b.rcgu.o"),
        vec!["a.rcgu.o".to_string(), "b.rcgu.o".to_string()]
    );
}

#[test]
fn archive_step_plans() {
    assert_eq!(
        ar_extract_command("/t/deps/libfoo.rlib"),
        vec!["ar", "xv", "/t/deps/libfoo.rlib"]
    );
    let members = vec!["a.rcgu.o".to_string(), "b.rcgu.o".to_string()];
    assert_eq!(
        rlib_link_command("llvm-link-6.0", &members, "/t/deps/libfoo.bc"),
        vec!["llvm-link-6.0", "a.rcgu.o", "b.rcgu.o", "-o", "/t/deps/libfoo.bc"]
    );
}

#[test]
fn runtime_setting_empty_array_is_empty() {
    let doc = "{\"packages\":[{\"metadata\":{\"nvptx\":{\"runtime\":[]}}}]}";
    assert!(parse_runtime_setting(doc).unwrap().is_empty());
}

#[test]
fn bitcode_target_beside_archive() {
    assert_eq!(
        rlib_bc_target("/t/deps/libfoo-12ab.rlib"),
        "/t/deps/libfoo-12ab.bc"
    );
    assert_eq!(rlib_bc_target("libfoo.rlib"), "libfoo.bc");
}

#[test]
fn runtime_setting_from_metadata() {
    let metadata = "{\"packages\":[{\"name\":\"demo\",\"metadata\":{\"nvptx\":{\"runtime\":[\"core\"]}}}]}";
    assert_eq!(
        parse_runtime_setting(metadata).unwrap(),
        vec!["core".to_string()]
    );
}

#[test]
fn runtime_setting_absent_is_empty() {
    assert!(parse_runtime_setting("").unwrap().is_empty());
    let no_meta = "{\"packages\":[{\"name\":\"demo\"}]}";
    assert!(parse_runtime_setting(no_meta).unwrap().is_empty());
}

#[test]
fn runtime_setting_must_be_array_of_strings() {
    let not_array = "{\"packages\":[{\"metadata\":{\"nvptx\":{\"runtime\":42}}}]}";
    assert!(matches!(
        parse_runtime_setting(not_array),
        Err(CompileError::RuntimeMetadataInvalid { .. })
    ));
    let bad_element = "{\"packages\":[{\"metadata\":{\"nvptx\":{\"runtime\":[\"core\",1]}}}]}";
    assert!(matches!(
        parse_runtime_setting(bad_element),
        Err(CompileError::RuntimeMetadataInvalid { .. })
    ));
    assert!(matches!(
        parse_runtime_setting("not json at all"),
        Err(CompileError::RuntimeMetadataInvalid { .. })
    ));
}

#[test]
fn kernel_pipeline_plan() {
    // A module holding one kernel named `add` among helpers, with a
    // runtime requirement of core: the planned Link stage discovers
    // exactly `add`, restricts the public API to it, and emits PTX.
    let d = Driver::with_path("/tmp/p");

    let module = vec![
        FunctionInfo::new("add".to_string(), 71),
        FunctionInfo::new("helper".to_string(), 0),
        FunctionInfo::new("other".to_string(), 12),
    ];
    let entries = get_ptx_functions(&module).unwrap();
    assert_eq!(entries, vec!["add".to_string()]);

    let runtimes = parse_runtime_setting(
        "{\"packages\":[{\"metadata\":{\"nvptx\":{\"runtime\":[\"core\"]}}}]}",
    )
    .unwrap();
    let dir = vec!["/tc/libcore-9a3c7b.bc".to_string()];
    let bound = get_compiler_rt(&runtimes, &dir).unwrap();
    assert_eq!(bound, vec!["/tc/libcore-9a3c7b.bc".to_string()]);

    let bitcodes = vec!["libdemo.bc".to_string()];
    let link = d.link_command("llvm-link", &bitcodes, &bound);
    assert!(link.contains(&"libdemo.bc".to_string()));
    assert!(link.contains(&"/tc/libcore-9a3c7b.bc".to_string()));

    let opt = d.opt_command("opt", &entries);
    assert!(opt.contains(&"-internalize-public-api-list=add".to_string()));
    // Non-entry functions are not in the preserved public API.
    assert!(!opt.iter().any(|a| a.contains("helper")));

    let llc = d.llc_command("llc");
    assert_eq!(llc.last().map(|s| s.as_str()), Some("kernel.ptx"));
}

#[test]
fn plan_is_deterministic() {
    // Identical configuration plans identical commands.
    let mut a = Driver::with_path("/tmp/one");
    let mut b = Driver::with_path("/tmp/two");
    a.release_build();
    b.release_build();
    a.set_arch("sm_70");
    b.set_arch("sm_70");
    assert_eq!(a.build_command(), b.build_command());
    assert_eq!(a.target_dir_name(), b.target_dir_name());
    assert_eq!(a.llc_command("llc"), b.llc_command("llc"));
    let entries = vec!["add".to_string()];
    assert_eq!(a.opt_command("opt", &entries), b.opt_command("opt", &entries));
}
