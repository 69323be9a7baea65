use nvptx::get_compiler_rt;
use nvptx::toolchain::{filter_by_extension, is_runtime_lib, nvptx_lib_path, runtime_libs};

/// A directory listing shaped like an installed toolchain's runtime
/// directory: one bitcode module per allow-listed component.
fn installed_dir() -> Vec<String> {
    runtime_libs()
        .iter()
        .map(|name| format!("/toolchain/lib/lib{}-9a3c7b.bc", name))
        .collect()
}

#[test]
fn all_compiler_rt() {
    let rt = runtime_libs();
    assert_eq!(rt.len(), 13);
    for name in &rt {
        assert!(is_runtime_lib(name));
    }
}

#[test]
fn get_core_path() {
    let rt = get_compiler_rt(&vec!["core".to_string()], &installed_dir()).unwrap();
    assert_eq!(rt.len(), 1);
    assert!(rt[0].contains("core"));
}

#[test]
fn allow_list_names_each_bind_one_path() {
    // Every allow-listed name, against a populated directory, binds
    // exactly one path whose stem contains the name.
    let dir = installed_dir();
    for name in runtime_libs() {
        let bound = get_compiler_rt(&vec![name.clone()], &dir).unwrap();
        assert_eq!(bound.len(), 1, "component {}", name);
        let stem = bound[0]
            .rsplit('/')
            .next()
            .unwrap()
            .trim_end_matches(".bc");
        assert!(stem.contains(&name), "stem {} lacks {}", stem, name);
    }
}

#[test]
fn unknown_name_binds_nothing_and_does_not_fail() {
    let dir = installed_dir();
    let rt = get_compiler_rt(&vec!["fancy_gc".to_string()], &dir).unwrap();
    assert!(rt.is_empty());
    let mixed = get_compiler_rt(
        &vec!["fancy_gc".to_string(), "core".to_string()],
        &dir,
    )
    .unwrap();
    assert_eq!(mixed.len(), 1);
    assert!(mixed[0].contains("core"));
}

#[test]
fn empty_requirement_binds_nothing() {
    let rt = get_compiler_rt(&Vec::new(), &installed_dir()).unwrap();
    assert!(rt.is_empty());
}

#[test]
fn outside_allow_list_rejected() {
    assert!(!is_runtime_lib("fancy_gc"));
    assert!(!is_runtime_lib(""));
    assert!(!is_runtime_lib("Core"));
    assert!(is_runtime_lib("panic_abort"));
}

#[test]
fn extension_filter_keeps_bitcode_only() {
    let listing = vec![
        "/lib/libcore-1.bc".to_string(),
        "/lib/libcore-1.rlib".to_string(),
        "/lib/notes.txt".to_string(),
        "/lib/libstd-2.bc".to_string(),
        "/lib/.hidden".to_string(),
    ];
    let bcs = filter_by_extension(&listing, "bc");
    assert_eq!(
        bcs,
        vec!["/lib/libcore-1.bc".to_string(), "/lib/libstd-2.bc".to_string()]
    );
    let rlibs = filter_by_extension(&listing, "rlib");
    assert_eq!(rlibs, vec!["/lib/libcore-1.rlib".to_string()]);
}

#[test]
fn runtime_directory_location() {
    assert_eq!(
        nvptx_lib_path("/opt/accel"),
        "/opt/accel/lib/rustlib/nvptx64-nvidia-cuda/lib"
    );
}
