use gldemo::gpu::MockGpu;
use gldemo::shader::{
    decide_compile, decide_link, location_usable, CompileDecision, LinkDecision, Program, Shader,
    ShaderStage,
};

fn driver(compile_ok: bool, link_ok: bool, compile_log: &str, link_log: &str) -> MockGpu {
    MockGpu::new(
        compile_ok,
        link_ok,
        compile_log.to_string(),
        link_log.to_string(),
        vec!["Position".to_string(), "Color".to_string()],
        vec!["proj_mat".to_string(), "model_mat".to_string()],
    )
}

const VERT: &str = "#version 410 core\nin vec2 Position;\nvoid main() { gl_Position = vec4(Position, 0.0, 1.0); }\n";
const FRAG: &str = "#version 410 core\nout vec4 Color;\nvoid main() { Color = vec4(1.0); }\n";

#[test]
fn compile_and_link_success() {
    let mut gpu = driver(true, true, "", "");
    let v = Shader::from_vert_source(&mut gpu, VERT).unwrap();
    let f = Shader::from_frag_source(&mut gpu, FRAG).unwrap();
    assert!(v.id >= 1 && f.id >= 1);
    assert_ne!(v.id, f.id);
    assert!(matches!(v.stage, ShaderStage::Vertex));
    assert!(matches!(f.stage, ShaderStage::Fragment));
    let prog = Program::from_shaders(&mut gpu, vec![v, f]).unwrap();
    // the program handle is non-sentinel, and the units were consumed:
    // their shader objects are gone, only the program object is live
    assert!(prog.id >= 1);
    assert!(gpu.live_shaders.is_empty());
    assert_eq!(gpu.live_programs, vec![prog.id]);
    assert!(gpu.attachments.is_empty());
    assert_eq!(gpu.creates, 3);
    assert_eq!(gpu.deletes, 2);
    assert_eq!(gpu.compiles, 2);
    assert_eq!(gpu.links, 1);
}

#[test]
fn compile_records_sources() {
    let mut gpu = driver(true, true, "", "");
    let _v = Shader::from_vert_source(&mut gpu, VERT).unwrap();
    let _f = Shader::from_frag_source(&mut gpu, FRAG).unwrap();
    assert_eq!(gpu.compiled_sources, vec![VERT.to_string(), FRAG.to_string()]);
}

#[test]
fn compile_error_reports_log_and_leaks_nothing() {
    let log = "0:3(12): error: syntax error, unexpected ';'";
    let mut gpu = driver(false, true, log, "");
    let err = Shader::from_vert_source(&mut gpu, "void main( {").unwrap_err();
    assert!(matches!(err.stage, ShaderStage::Vertex));
    assert!(!err.log.is_empty());
    assert_eq!(err.log, log);
    // the failed shader object was released before returning
    assert_eq!(gpu.creates, gpu.deletes);
    assert!(gpu.live_shaders.is_empty());
}

#[test]
fn link_error_reports_log_and_leaks_nothing() {
    let log = "error: fragment shader input `color' has no matching vertex output";
    let mut gpu = driver(true, false, "", log);
    let v = Shader::from_vert_source(&mut gpu, VERT).unwrap();
    let f = Shader::from_frag_source(&mut gpu, FRAG).unwrap();
    let err = Program::from_shaders(&mut gpu, vec![v, f]).unwrap_err();
    assert!(!err.log.is_empty());
    assert_eq!(err.log, log);
    // creates == deletes after the failing call: nothing leaked, and the
    // units were consumed even though linking failed
    assert_eq!(gpu.creates, 3);
    assert_eq!(gpu.deletes, 3);
    assert!(gpu.live_shaders.is_empty());
    assert!(gpu.live_programs.is_empty());
    assert!(gpu.attachments.is_empty());
}

#[test]
fn link_single_unit() {
    let mut gpu = driver(true, true, "", "");
    let v = Shader::from_vert_source(&mut gpu, VERT).unwrap();
    let prog = Program::from_shaders(&mut gpu, vec![v]).unwrap();
    assert!(prog.id >= 1);
    assert!(gpu.live_shaders.is_empty());
    assert_eq!(gpu.live_programs, vec![prog.id]);
}

#[test]
fn activation_and_location_lookup() {
    let mut gpu = driver(true, true, "", "");
    let v = Shader::from_vert_source(&mut gpu, VERT).unwrap();
    let f = Shader::from_frag_source(&mut gpu, FRAG).unwrap();
    let prog = Program::from_shaders(&mut gpu, vec![v, f]).unwrap();
    prog.set_used(&mut gpu);
    assert_eq!(gpu.active_program, prog.id);
    assert_eq!(prog.attrib_location(&gpu, &"Position".to_string()), 0);
    assert_eq!(prog.attrib_location(&gpu, &"Color".to_string()), 1);
    assert_eq!(prog.attrib_location(&gpu, &"Normal".to_string()), -1);
    assert_eq!(prog.uniform_location(&gpu, &"proj_mat".to_string()), 0);
    assert_eq!(prog.uniform_location(&gpu, &"model_mat".to_string()), 1);
    // an absent name resolves to the sentinel and does not fail the program
    let missing = prog.uniform_location(&gpu, &"mvp".to_string());
    assert_eq!(missing, -1);
    assert!(!location_usable(missing));
    assert!(location_usable(0));
    assert!(location_usable(1));
}

#[test]
fn release_returns_every_object() {
    let mut gpu = driver(true, true, "", "");
    let v = Shader::from_vert_source(&mut gpu, VERT).unwrap();
    let f = Shader::from_frag_source(&mut gpu, FRAG).unwrap();
    let prog = Program::from_shaders(&mut gpu, vec![v, f]).unwrap();
    prog.release(&mut gpu);
    assert_eq!(gpu.creates, gpu.deletes);
    assert!(gpu.live_programs.is_empty());
    assert!(gpu.live_shaders.is_empty());
}

#[test]
fn shader_release_is_exact() {
    let mut gpu = driver(true, true, "", "");
    let v = Shader::from_vert_source(&mut gpu, VERT).unwrap();
    v.release(&mut gpu);
    assert_eq!(gpu.creates, 1);
    assert_eq!(gpu.deletes, 1);
    assert!(gpu.live_shaders.is_empty());
}

#[test]
fn decide_compile_cases() {
    match decide_compile(ShaderStage::Fragment, 7, true, String::new()) {
        CompileDecision::Keep(sh) => {
            assert_eq!(sh.id, 7);
            assert!(matches!(sh.stage, ShaderStage::Fragment));
        }
        CompileDecision::Discard(_) => panic!("success must keep the unit"),
    }
    match decide_compile(ShaderStage::Vertex, 7, false, "bad".to_string()) {
        CompileDecision::Keep(_) => panic!("failure must discard the handle"),
        CompileDecision::Discard(e) => {
            assert!(matches!(e.stage, ShaderStage::Vertex));
            assert_eq!(e.log, "bad");
        }
    }
}

#[test]
fn decide_link_cases() {
    match decide_link(9, true, String::new()) {
        LinkDecision::Keep(p) => assert_eq!(p.id, 9),
        LinkDecision::Discard(_) => panic!("success must keep the program"),
    }
    match decide_link(9, false, "mismatch".to_string()) {
        LinkDecision::Keep(_) => panic!("failure must discard the handle"),
        LinkDecision::Discard(e) => assert_eq!(e.log, "mismatch"),
    }
}
