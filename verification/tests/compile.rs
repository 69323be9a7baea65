use nvptx::compile::Builder;
use nvptx::manifest::{generate, Crate};

#[test]
fn builder_holds_path_and_crates() {
    let crates = vec![Crate::new("accel-core", "0.2.0-alpha")];
    let b = Builder::with_path("/tmp/ptx-builder", &crates);
    assert_eq!(b.crates().len(), 1);
    assert_eq!(b.crates()[0].name, "accel-core");
    assert_eq!(b.crates()[0].version.as_deref(), Some("0.2.0-alpha"));
}

#[test]
fn builder_over_existing_project() {
    let b = Builder::from_existing("/home/u/project");
    assert!(b.crates().is_empty());
}

#[test]
fn builder_manifest_matches_generator() {
    let crates = vec![
        Crate::new("accel-core", "0.2.0-alpha"),
        Crate::latest("helper"),
    ];
    let b = Builder::with_path("/tmp/p", &crates);
    assert_eq!(b.generate_manifest(), generate(&crates));
}

#[test]
fn triplet_resource_is_valid_json() {
    let b = Builder::from_existing("/tmp/p");
    let text = b.copy_triplet();
    let doc: serde_json::Value = serde_json::from_str(&text).expect("descriptor must be JSON");
    assert_eq!(doc["arch"].as_str(), Some("nvptx64"));
    assert_eq!(doc["llvm-target"].as_str(), Some("nvptx64-nvidia-cuda"));
    assert_eq!(doc["os"].as_str(), Some("cuda"));
}

#[test]
fn builder_build_command_plan() {
    let b = Builder::from_existing("/tmp/p");
    assert_eq!(
        b.build_command(),
        vec!["xargo", "+nightly", "rustc", "--release", "--target", "nvptx64-nvidia-cuda"]
    );
}

#[test]
fn builder_link_command_plan() {
    let b = Builder::from_existing("/tmp/p");
    let objects = vec!["a.rcgu.o".to_string(), "b.rcgu.o".to_string()];
    assert_eq!(
        b.link_command("llvm-link", &objects),
        vec!["llvm-link", "a.rcgu.o", "b.rcgu.o", "-o", "kernel.bc"]
    );
    assert_eq!(
        b.llc_command("llc"),
        vec!["llc", "-mcpu=sm_20", "kernel.bc", "-o", "kernel.ptx"]
    );
}
