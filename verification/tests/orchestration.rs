use zmake::BuildError;
use zmake::make::{
    Artifact, ArtifactType, CFile, Make, Project, StepResult, compile_phase,
};
use zmake::stale::is_dirty;

fn empty_project() -> Project {
    Project {
        standard: None,
        cincludes: None,
        pkgconfig: None,
        cflags: None,
        lflags: None,
        cobjects: None,
    }
}

fn fresh_make(typ: ArtifactType, name: &str) -> Make {
    Make::new(
        empty_project(),
        Artifact { name: name.to_string(), typ },
        None,
        None,
        &Vec::new(),
    )
}

fn generated(name: &str) -> CFile {
    CFile {
        name: name.to_string(),
        filepath: format!("./target/zz/{}.c", name),
        sources: vec![format!("{}.zz", name)],
    }
}

#[test]
fn link_order_places_later_units_first() {
    let mut m = fresh_make(ArtifactType::Exe, "prog");
    let u1 = m.cobject_path("u1.c");
    m.cobject("u1.c", true);
    let u2 = generated("u2");
    let u2_path = m.build_path(&u2);
    m.build(&u2, true);
    let u3 = generated("u3");
    let u3_path = m.build_path(&u3);
    m.build(&u3, true);
    assert_eq!(m.lflags[0], u3_path);
    assert_eq!(m.lflags[1], u2_path);
    assert_eq!(m.lflags[2], u1);
}

#[test]
fn fresh_units_are_linked_but_not_recompiled() {
    let mut m = fresh_make(ArtifactType::Exe, "prog");
    let path = m.cobject_path("u1.c");
    m.cobject("u1.c", false);
    assert_eq!(m.steps.len(), 0);
    assert_eq!(m.lflags, vec![path]);
}

#[test]
fn stale_units_enqueue_their_full_invocation() {
    let mut m = fresh_make(ArtifactType::Exe, "prog");
    let path = m.cobject_path("u1.c");
    m.cobject("u1.c", true);
    assert_eq!(m.steps.len(), 1);
    assert_eq!(m.steps[0].source, "u1.c");
    let mut expected = m.cflags.clone();
    for w in [
        "-Werror=implicit-function-declaration",
        "-Werror=incompatible-pointer-types",
        "-Werror=return-type",
        "-Wpedantic",
        "-Wall",
        "-Wno-unused-function",
        "-Wno-parentheses-equality",
        "-Werror=pointer-sign",
        "-Werror=int-to-pointer-cast",
    ] {
        expected.push(w.to_string());
    }
    expected.extend(["-c".to_string(), "u1.c".to_string(), "-o".to_string(), path]);
    assert_eq!(m.steps[0].args, expected);
}

#[test]
fn header_artifact_cannot_be_linked() {
    let m = fresh_make(ArtifactType::Header, "api");
    let r = m.link();
    assert!(matches!(r, Err(BuildError::Configuration(_))));
}

#[test]
fn link_invocation_for_a_library() {
    let mut m = fresh_make(ArtifactType::Lib, "mylib");
    m.cobject("u1.c", false);
    let obj = m.lflags[0].clone();
    let plan = m.link().ok().unwrap();
    assert_eq!(plan.cc, "clang");
    assert_eq!(
        plan.args,
        vec![
            obj,
            "-shared".to_string(),
            "-o".to_string(),
            "./target/mylib.so".to_string(),
            "-fvisibility=hidden".to_string(),
        ]
    );
}

#[test]
fn link_invocation_for_an_executable() {
    let m = fresh_make(ArtifactType::Exe, "prog");
    let plan = m.link().ok().unwrap();
    assert_eq!(
        plan.args,
        vec!["-o".to_string(), "./target/prog".to_string(), "-fvisibility=hidden".to_string()]
    );
}

#[test]
fn compile_phase_succeeds_only_when_every_step_did() {
    let all_ok = vec![
        StepResult { success: true, code: Some(0) },
        StepResult { success: true, code: Some(0) },
    ];
    assert!(compile_phase(&all_ok).is_ok());
    assert!(compile_phase(&Vec::new()).is_ok());
}

#[test]
fn compile_phase_propagates_the_first_failing_exit_code() {
    let results = vec![
        StepResult { success: true, code: Some(0) },
        StepResult { success: false, code: Some(42) },
        StepResult { success: false, code: Some(9) },
    ];
    assert!(matches!(compile_phase(&results), Err(BuildError::ExternalTool(42))));
}

#[test]
fn compile_phase_falls_back_when_no_exit_code_exists() {
    let results = vec![StepResult { success: false, code: None }];
    assert!(matches!(compile_phase(&results), Err(BuildError::ExternalTool(3))));
}

// An end-to-end run over three invocations, with timestamps standing in for
// the filesystem as the unverified driver would read them.
#[test]
fn three_invocations_end_to_end() {
    let a_c: u64 = 100;
    let main_zz: u64 = 110;
    let helper_zz: u64 = 120;
    let main_unit = CFile {
        name: "main".to_string(),
        filepath: "./target/zz/main.c".to_string(),
        sources: vec!["main.zz".to_string(), "helper.zz".to_string()],
    };

    // First invocation: no cached outputs, so both units are stale.
    let mut m = fresh_make(ArtifactType::Exe, "prog");
    let stale_a = is_dirty(None, &vec![Some(a_c)]).unwrap();
    m.cobject("a.c", stale_a);
    let stale_main = is_dirty(None, &vec![Some(main_zz), Some(helper_zz)]).unwrap();
    m.build(&main_unit, stale_main);
    assert_eq!(m.steps.len(), 2);
    let plan = m.link().ok().unwrap();
    assert_eq!(plan.steps.len(), 2);
    let results = vec![
        StepResult { success: true, code: Some(0) },
        StepResult { success: true, code: Some(0) },
    ];
    assert!(compile_phase(&results).is_ok());

    // Second invocation: both objects now exist and are newer than every
    // source, so nothing is recompiled but both objects are still linked.
    let obj_time: u64 = 200;
    let mut m = fresh_make(ArtifactType::Exe, "prog");
    let stale_a = is_dirty(Some(obj_time), &vec![Some(a_c)]).unwrap();
    assert!(!stale_a);
    m.cobject("a.c", stale_a);
    let stale_main = is_dirty(Some(obj_time), &vec![Some(main_zz), Some(helper_zz)]).unwrap();
    assert!(!stale_main);
    m.build(&main_unit, stale_main);
    assert_eq!(m.steps.len(), 0);
    let plan = m.link().ok().unwrap();
    assert_eq!(plan.steps.len(), 0);
    assert_eq!(plan.args.len(), 2 + 3);

    // Third invocation: helper.zz was touched, so only the generated unit
    // is stale.
    let touched_helper: u64 = 300;
    let mut m = fresh_make(ArtifactType::Exe, "prog");
    let stale_a = is_dirty(Some(obj_time), &vec![Some(a_c)]).unwrap();
    m.cobject("a.c", stale_a);
    let stale_main =
        is_dirty(Some(obj_time), &vec![Some(main_zz), Some(touched_helper)]).unwrap();
    assert!(stale_main);
    m.build(&main_unit, stale_main);
    assert_eq!(m.steps.len(), 1);
    assert_eq!(m.steps[0].source, "./target/zz/main.c");
}
