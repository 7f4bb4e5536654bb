use render_core::error::{Error, ShaderStage};
use render_core::shader::{BuildAction, BuildPhase, BuildStatus, ProgramBuilder};

fn names(list: &[&str]) -> Vec<String> {
    list.iter().map(|s| s.to_string()).collect()
}

#[test]
fn build_success_resolves_and_caches_handles() {
    let (mut b, acts) = ProgramBuilder::new(names(&["projection"]), names(&["pos"]));
    assert_eq!(acts, vec![BuildAction::CompileShader(ShaderStage::Vertex)]);

    let (acts, status) = b.vertex_compiled(Ok(11));
    assert_eq!(acts, vec![BuildAction::CompileShader(ShaderStage::Fragment)]);
    assert!(matches!(status, BuildStatus::InProgress));

    let (acts, status) = b.fragment_compiled(Ok(12));
    assert_eq!(acts, vec![BuildAction::LinkProgram(11, 12)]);
    assert!(matches!(status, BuildStatus::InProgress));

    // Intermediate shader objects are released immediately after the link.
    let (acts, status) = b.linked(Ok(99));
    assert_eq!(acts, vec![BuildAction::DeleteShader(11), BuildAction::DeleteShader(12)]);
    assert!(matches!(status, BuildStatus::InProgress));

    let (acts, status) = b.resolved(vec![Some(7)], vec![Some(0)]);
    assert!(acts.is_empty());
    let program = match status {
        BuildStatus::Done(p) => p,
        _ => panic!("expected a finished program"),
    };
    assert_eq!(program.program_handle(), 99);
    assert_eq!(b.phase(), BuildPhase::Finished);

    // The resolved handle is stable: 1000 lookups yield the same value.
    let projection = "projection".to_string();
    for _ in 0..1000 {
        assert_eq!(program.find_uniform(&projection), Ok(7));
    }
    let pos = "pos".to_string();
    assert_eq!(program.find_attribute(&pos), Ok(0));

    // A name that was never declared is refused.
    let missing = "missing".to_string();
    assert_eq!(
        program.find_attribute(&missing),
        Err(Error::UnknownBinding("missing".to_string()))
    );
    assert_eq!(
        program.find_uniform(&missing),
        Err(Error::UnknownBinding("missing".to_string()))
    );
}

#[test]
fn unknown_uniform_fails_and_releases_the_program() {
    let (mut b, _) = ProgramBuilder::new(names(&["projection", "view"]), names(&["pos"]));
    b.vertex_compiled(Ok(1));
    b.fragment_compiled(Ok(2));
    b.linked(Ok(50));
    // "view" has no declaration in the linked program.
    let (acts, status) = b.resolved(vec![Some(7), None], vec![Some(0)]);
    assert_eq!(acts, vec![BuildAction::DeleteProgram(50)]);
    match status {
        BuildStatus::Failed(e) => assert_eq!(e, Error::UnknownBinding("view".to_string())),
        _ => panic!("expected the build to fail"),
    }
    assert_eq!(b.phase(), BuildPhase::Finished);
}

#[test]
fn unknown_attribute_fails_and_releases_the_program() {
    let (mut b, _) = ProgramBuilder::new(names(&[]), names(&["pos", "normal"]));
    b.vertex_compiled(Ok(1));
    b.fragment_compiled(Ok(2));
    b.linked(Ok(51));
    let (acts, status) = b.resolved(Vec::new(), vec![Some(0), None]);
    assert_eq!(acts, vec![BuildAction::DeleteProgram(51)]);
    match status {
        BuildStatus::Failed(e) => assert_eq!(e, Error::UnknownBinding("normal".to_string())),
        _ => panic!("expected the build to fail"),
    }
}

#[test]
fn vertex_compile_failure_surfaces_diagnostic() {
    let (mut b, _) = ProgramBuilder::new(names(&[]), names(&[]));
    let (acts, status) = b.vertex_compiled(Err("unexpected token".to_string()));
    assert!(acts.is_empty());
    match status {
        BuildStatus::Failed(e) => assert_eq!(
            e,
            Error::ShaderCompile(ShaderStage::Vertex, "unexpected token".to_string())
        ),
        _ => panic!("expected the build to fail"),
    }
}

#[test]
fn fragment_compile_failure_releases_vertex_shader() {
    let (mut b, _) = ProgramBuilder::new(names(&[]), names(&[]));
    b.vertex_compiled(Ok(31));
    let (acts, status) = b.fragment_compiled(Err("bad precision".to_string()));
    assert_eq!(acts, vec![BuildAction::DeleteShader(31)]);
    match status {
        BuildStatus::Failed(e) => assert_eq!(
            e,
            Error::ShaderCompile(ShaderStage::Fragment, "bad precision".to_string())
        ),
        _ => panic!("expected the build to fail"),
    }
}

#[test]
fn link_failure_releases_shaders_and_failed_program() {
    let (mut b, _) = ProgramBuilder::new(names(&[]), names(&[]));
    b.vertex_compiled(Ok(31));
    b.fragment_compiled(Ok(32));
    let (acts, status) = b.linked(Err((Some(40), "varying mismatch".to_string())));
    assert_eq!(
        acts,
        vec![
            BuildAction::DeleteShader(31),
            BuildAction::DeleteShader(32),
            BuildAction::DeleteProgram(40),
        ]
    );
    match status {
        BuildStatus::Failed(e) => assert_eq!(e, Error::ShaderLink("varying mismatch".to_string())),
        _ => panic!("expected the build to fail"),
    }
}

#[test]
fn program_allocation_failure_still_releases_shaders() {
    let (mut b, _) = ProgramBuilder::new(names(&[]), names(&[]));
    b.vertex_compiled(Ok(31));
    b.fragment_compiled(Ok(32));
    let (acts, status) = b.linked(Err((None, "unable to create program object".to_string())));
    assert_eq!(acts, vec![BuildAction::DeleteShader(31), BuildAction::DeleteShader(32)]);
    assert!(matches!(status, BuildStatus::Failed(Error::ShaderLink(_))));
}

#[test]
fn builder_reports_declared_names() {
    let (b, _) = ProgramBuilder::new(names(&["projection", "view"]), names(&["pos"]));
    assert_eq!(b.uniform_names().as_slice(), ["projection".to_string(), "view".to_string()]);
    assert_eq!(b.attribute_names().as_slice(), ["pos".to_string()]);
}
