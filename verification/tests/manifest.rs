use nvptx::config;
use nvptx::manifest::{generate, CargoTOML, Crate};

#[test]
fn crate_constructors() {
    let a = Crate::latest("accel-core");
    assert_eq!(a.name, "accel-core");
    assert!(a.version.is_none());
    assert!(a.path.is_none());

    let b = Crate::new("accel-core", "0.2.0-alpha");
    assert_eq!(b.name, "accel-core");
    assert_eq!(b.version.as_deref(), Some("0.2.0-alpha"));
    assert!(b.path.is_none());

    let c = Crate::with_path("mylib", "/home/u/mylib");
    assert_eq!(c.name, "mylib");
    assert!(c.version.is_none());
    assert_eq!(c.path.as_deref(), Some("/home/u/mylib"));
}

#[test]
fn manifest_exact_text() {
    let crates = vec![Crate::new("accel-core", "0.2.0-alpha")];
    let text = generate(&crates);
    assert_eq!(
        text,
        "[package]\nname = \"ptx-builder\"\nversion = \"0.1.0\"\n\n\
         [profile.dev]\ndebug = false\n\n\
         [dependencies.accel-core]\nversion = \"0.2.0-alpha\"\n"
    );
}

#[test]
fn manifest_wildcard_and_path() {
    let crates = vec![
        Crate::latest("accel-core"),
        Crate::with_path("mylib", "/home/u/mylib"),
    ];
    let text = generate(&crates);
    assert_eq!(
        text,
        "[package]\nname = \"ptx-builder\"\nversion = \"0.1.0\"\n\n\
         [profile.dev]\ndebug = false\n\n\
         [dependencies.accel-core]\nversion = \"*\"\n\n\
         [dependencies.mylib]\nversion = \"*\"\npath = \"/home/u/mylib\"\n"
    );
}

#[test]
fn manifest_parses_back_as_toml() {
    let crates = vec![
        Crate::new("accel-core", "0.2.0-alpha"),
        Crate::with_path("mylib", "/tmp/mylib"),
    ];
    let text = generate(&crates);
    let doc: toml::Value = toml::from_str(&text).expect("generated manifest must be valid TOML");
    assert_eq!(
        doc["package"]["name"].as_str(),
        Some("ptx-builder")
    );
    assert_eq!(doc["package"]["version"].as_str(), Some("0.1.0"));
    assert_eq!(doc["profile"]["dev"]["debug"].as_bool(), Some(false));
    assert_eq!(
        doc["dependencies"]["accel-core"]["version"].as_str(),
        Some("0.2.0-alpha")
    );
    assert_eq!(
        doc["dependencies"]["mylib"]["path"].as_str(),
        Some("/tmp/mylib")
    );
    assert_eq!(doc["dependencies"]["mylib"]["version"].as_str(), Some("*"));
}

#[test]
fn duplicate_name_keeps_later_declaration() {
    let crates = vec![
        Crate::new("accel-core", "0.1.0"),
        Crate::new("other", "1.0.0"),
        Crate::new("accel-core", "0.2.0-alpha"),
    ];
    let text = generate(&crates);
    let doc: toml::Value = toml::from_str(&text).unwrap();
    assert_eq!(
        doc["dependencies"]["accel-core"]["version"].as_str(),
        Some("0.2.0-alpha")
    );
    assert_eq!(doc["dependencies"]["other"]["version"].as_str(), Some("1.0.0"));
    // The overridden declaration is gone entirely.
    assert_eq!(text.matches("accel-core").count(), 1);
}

#[test]
fn from_crates_both_homes_agree() {
    let crates = vec![Crate::new("accel-core", "0.2.0-alpha")];
    let a = CargoTOML::from_crates(&crates).as_toml();
    let b = config::CargoTOML::from_crates(&crates).as_toml();
    assert_eq!(a, b);
}

#[test]
fn generation_is_repeatable() {
    // The same declarations give byte-identical descriptor text.
    let crates = vec![
        Crate::new("accel-core", "0.2.0-alpha"),
        Crate::latest("helper"),
    ];
    let once = generate(&crates);
    let twice = generate(&crates);
    assert_eq!(once, twice);
}
