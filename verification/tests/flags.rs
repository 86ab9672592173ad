use zmake::make::{Artifact, ArtifactType, Make, PkgFlags, Project};

fn strings(xs: &[&str]) -> Vec<String> {
    xs.iter().map(|s| s.to_string()).collect()
}

fn artifact() -> Artifact {
    Artifact { name: String::from("out"), typ: ArtifactType::Lib }
}

const BASELINE: [&str; 6] = ["-fPIC", "-I", ".", "-I", "./target/include/", "-fvisibility=hidden"];

#[test]
fn baseline_flags_alone_for_empty_project() {
    let p = Project {
        standard: None,
        cincludes: None,
        pkgconfig: None,
        cflags: None,
        lflags: None,
        cobjects: None,
    };
    let m = Make::new(p, artifact(), None, None, &Vec::new());
    assert_eq!(m.cc, "clang");
    assert_eq!(m.cflags, strings(&BASELINE));
    assert_eq!(m.lflags, Vec::<String>::new());
    assert_eq!(m.steps.len(), 0);
}

#[test]
fn full_flag_assembly_keeps_order() {
    let p = Project {
        standard: Some("c11".to_string()),
        cincludes: Some(strings(&["inc1", "inc2"])),
        pkgconfig: Some(strings(&["zlib"])),
        cflags: Some(strings(&["-O2", "-g"])),
        lflags: Some(strings(&["-lm"])),
        cobjects: None,
    };
    let pkg = vec![PkgFlags {
        cflags_out: "\t-I/usr/include/zlib  -DZUSE\n".to_string(),
        libs_out: " -lz \n".to_string(),
    }];
    let m = Make::new(p, artifact(), None, None, &pkg);
    assert_eq!(m.cc, "clang");
    let mut expected = strings(&["-std=c11", "-I", "inc1", "-I", "inc2"]);
    expected.extend(strings(&["-I/usr/include/zlib", "-DZUSE"]));
    expected.extend(strings(&BASELINE));
    expected.extend(strings(&["-O2", "-g"]));
    assert_eq!(m.cflags, expected);
    assert_eq!(m.lflags, strings(&["-lz", "-lm"]));
}

#[test]
fn cpp_standard_selects_cpp_compiler() {
    let p = Project {
        standard: Some("c++17".to_string()),
        cincludes: None,
        pkgconfig: None,
        cflags: None,
        lflags: None,
        cobjects: None,
    };
    let m = Make::new(p, artifact(), None, None, &Vec::new());
    assert_eq!(m.cc, "clang++");
    assert_eq!(m.cflags[0], "-std=c++17");
}

#[test]
fn environment_overrides_win() {
    let c_proj = Project {
        standard: Some("c99".to_string()),
        cincludes: None,
        pkgconfig: None,
        cflags: None,
        lflags: None,
        cobjects: None,
    };
    let m = Make::new(
        c_proj,
        artifact(),
        Some("gcc".to_string()),
        Some("g++".to_string()),
        &Vec::new(),
    );
    assert_eq!(m.cc, "gcc");

    let cpp_proj = Project {
        standard: Some("c++14".to_string()),
        cincludes: None,
        pkgconfig: None,
        cflags: None,
        lflags: None,
        cobjects: None,
    };
    let m2 = Make::new(
        cpp_proj,
        artifact(),
        Some("gcc".to_string()),
        Some("g++".to_string()),
        &Vec::new(),
    );
    assert_eq!(m2.cc, "g++");
}

#[test]
fn user_flags_come_last_so_they_can_override() {
    let p = Project {
        standard: None,
        cincludes: None,
        pkgconfig: None,
        cflags: Some(strings(&["-fvisibility=default"])),
        lflags: None,
        cobjects: None,
    };
    let m = Make::new(p, artifact(), None, None, &Vec::new());
    assert_eq!(m.cflags.last().unwrap(), "-fvisibility=default");
}
