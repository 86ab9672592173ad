use zmake::make::{Artifact, ArtifactType, CFile, Make, Project};

fn empty_project() -> Project {
    Project {
        standard: None,
        cincludes: None,
        pkgconfig: None,
        cflags: None,
        lflags: None,
        cobjects: None,
    }
}

fn make_with_cflags(extra: Vec<String>) -> Make {
    let mut p = empty_project();
    p.cflags = Some(extra);
    let artifact = Artifact { name: String::from("prog"), typ: ArtifactType::Exe };
    Make::new(p, artifact, None, None, &Vec::new())
}

#[test]
fn naming_is_deterministic() {
    let m1 = make_with_cflags(vec!["-O2".to_string()]);
    let m2 = make_with_cflags(vec!["-O2".to_string()]);
    assert_eq!(m1.cobject_path("a.c"), m1.cobject_path("a.c"));
    assert_eq!(m1.cobject_path("a.c"), m2.cobject_path("a.c"));
}

#[test]
fn naming_differs_per_flag() {
    let m1 = make_with_cflags(vec!["-O2".to_string()]);
    let m2 = make_with_cflags(vec!["-O3".to_string()]);
    assert_ne!(m1.cobject_path("a.c"), m2.cobject_path("a.c"));
}

#[test]
fn naming_differs_per_flag_order() {
    let m1 = make_with_cflags(vec!["-O2".to_string(), "-g".to_string()]);
    let m2 = make_with_cflags(vec!["-g".to_string(), "-O2".to_string()]);
    assert_ne!(m1.cobject_path("a.c"), m2.cobject_path("a.c"));
}

#[test]
fn naming_differs_per_source_path() {
    let m = make_with_cflags(vec![]);
    assert_ne!(m.cobject_path("a.c"), m.cobject_path("b.c"));
}

const WARN_FLAGS: [&str; 9] = [
    "-Werror=implicit-function-declaration",
    "-Werror=incompatible-pointer-types",
    "-Werror=return-type",
    "-Wpedantic",
    "-Wall",
    "-Wno-unused-function",
    "-Wno-parentheses-equality",
    "-Werror=pointer-sign",
    "-Werror=int-to-pointer-cast",
];

#[test]
fn cobject_path_matches_hash_of_argument_list() {
    let m = make_with_cflags(vec!["-O2".to_string()]);
    let mut args = m.cflags.clone();
    args.extend(WARN_FLAGS.iter().map(|w| w.to_string()));
    args.push("-c".to_string());
    args.push("src/a.c".to_string());
    args.push("-o".to_string());
    let hash = fasthash::metro::hash128(args.join(" ").as_bytes());
    let stem: String =
        "src/a.c".chars().map(|c| if c.is_alphanumeric() { c } else { '_' }).collect();
    let expected = format!("./target/c/{}_{:x}.o", stem, hash);
    assert_eq!(m.cobject_path("src/a.c"), expected);
}

#[test]
fn build_path_matches_hash_of_argument_list() {
    let m = make_with_cflags(vec![]);
    let cf = CFile {
        name: "main".to_string(),
        filepath: "./target/zz/main.c".to_string(),
        sources: vec!["main.zz".to_string(), "helper.zz".to_string()],
    };
    let mut args = m.cflags.clone();
    args.extend(WARN_FLAGS.iter().map(|w| w.to_string()));
    args.push("-c".to_string());
    args.push(cf.filepath.clone());
    args.push("-o".to_string());
    let hash = fasthash::metro::hash128(args.join(" ").as_bytes());
    let expected = format!("./target/zz/main_{:x}.o", hash);
    assert_eq!(m.build_path(&cf), expected);
}

#[test]
fn sanitizing_replaces_every_special_character() {
    let m = make_with_cflags(vec![]);
    let p = m.cobject_path("lib/foo-bar.c");
    let name_part = p.strip_prefix("./target/c/").unwrap();
    assert!(name_part.starts_with("lib_foo_bar_c_"));
    assert!(p.ends_with(".o"));
}

#[test]
fn hex_rendering_matches_formatting() {
    // The hash suffix in a derived path is the number `{:x}` would print.
    let m = make_with_cflags(vec![]);
    let mut args = m.cflags.clone();
    args.extend(WARN_FLAGS.iter().map(|w| w.to_string()));
    args.push("-c".to_string());
    args.push("x.c".to_string());
    args.push("-o".to_string());
    let hash = fasthash::metro::hash128(args.join(" ").as_bytes());
    let p = m.cobject_path("x.c");
    assert!(p.ends_with(&format!("_{:x}.o", hash)));
}
