use nvptx::{get_ptx_functions, CompileError, FunctionInfo, FunctionRole};

fn func(name: &str, conv: u32) -> FunctionInfo {
    FunctionInfo::new(String::from(name), conv)
}

#[test]
fn entry_point_discovery() {
    // One kernel-tagged function among ordinary ones: exactly its name comes back.
    let funcs = vec![
        func("helper", 0),
        func("add", 71),
        func("internal", 12),
        func("other", 1),
    ];
    let names = get_ptx_functions(&funcs).unwrap();
    assert_eq!(names, vec!["add".to_string()]);
}

#[test]
fn empty_result_failure() {
    let funcs = vec![func("a", 0), func("b", 8), func("c", 70), func("d", 73)];
    let err = get_ptx_functions(&funcs).unwrap_err();
    assert!(matches!(err, CompileError::NoKernelFound));
}

#[test]
fn empty_module_fails() {
    let funcs: Vec<FunctionInfo> = Vec::new();
    assert!(matches!(
        get_ptx_functions(&funcs),
        Err(CompileError::NoKernelFound)
    ));
}

#[test]
fn device_functions_are_entry_points() {
    let funcs = vec![
        func("kernel_one", 71),
        func("device_helper", 72),
        func("plain", 0),
        func("kernel_two", 71),
    ];
    let names = get_ptx_functions(&funcs).unwrap();
    assert_eq!(
        names,
        vec![
            "kernel_one".to_string(),
            "device_helper".to_string(),
            "kernel_two".to_string()
        ]
    );
}

#[test]
fn role_classification() {
    assert_eq!(func("k", 71).role(), FunctionRole::Kernel);
    assert_eq!(func("d", 72).role(), FunctionRole::DeviceFunction);
    assert_eq!(func("o", 0).role(), FunctionRole::Other);
    assert_eq!(func("o", 73).role(), FunctionRole::Other);
    assert!(func("k", 71).is_ptx_kernel());
    assert!(!func("k", 71).is_ptx_device_func());
    assert!(func("d", 72).is_ptx_device_func());
}
