use dzahui::error::Error;
use dzahui::gl::{draw_calls, is_c_string_ok, Binder, GlCall, Shader, ShaderAction, ShaderBuild, ShaderReport};
use dzahui::mesh::MeshDimension;
use dzahui::window::{Input, LoopState, Response, WindowConfig};

fn buffer_calls(calls: &[GlCall]) -> Vec<(u8, u32)> {
    calls
        .iter()
        .map(|c| match c {
            GlCall::BindVertexArray(x) => (0, *x),
            GlCall::BindArrayBuffer(x) => (1, *x),
            GlCall::BindElementArrayBuffer(x) => (2, *x),
            GlCall::BindTexture2D(x) => (3, *x),
            other => panic!("unexpected {:?}", other),
        })
        .collect()
}

#[test]
fn binder_starts_empty() {
    let b = Binder::new();
    assert_eq!((b.vao(), b.vbo(), b.ebo(), b.texture()), (0, 0, 0, 0));
    assert!(matches!(b.unbind_texture(), GlCall::BindTexture2D(0)));
}

#[test]
fn setup_then_bind_gives_the_same_calls() {
    let mut b = Binder::new();
    let set = b.setup(3, 5, 7);
    assert_eq!(buffer_calls(&set), vec![(0, 3), (1, 5), (2, 7)]);
    assert_eq!(buffer_calls(&b.bind_all_no_texture()), buffer_calls(&set));
    assert!(matches!(b.setup_texture(9), GlCall::BindTexture2D(9)));
    assert_eq!(buffer_calls(&b.bind_all()), vec![(0, 3), (1, 5), (2, 7), (3, 9)]);
    assert_eq!((b.vao(), b.vbo(), b.ebo(), b.texture()), (3, 5, 7, 9));
    assert!(matches!(b.bind_vao(), GlCall::BindVertexArray(3)));
    assert!(matches!(b.bind_vbo(), GlCall::BindArrayBuffer(5)));
    assert!(matches!(b.bind_ebo(), GlCall::BindElementArrayBuffer(7)));
    assert!(matches!(b.bind_texture(), GlCall::BindTexture2D(9)));
}

#[test]
fn drawing_calls() {
    let calls = draw_calls(36);
    assert!(matches!(calls[0], GlCall::PolygonFill));
    assert!(matches!(calls[1], GlCall::DrawTriangles(36)));
}

#[test]
fn shader_uniforms() {
    let s = Shader::from_id(4);
    assert_eq!(s.id(), 4);
    assert!(matches!(s.use_shader(), GlCall::UseProgram(4)));
    match s.set_bool("flag", true) {
        GlCall::Uniform1i { program, name, value } => {
            assert_eq!((program, name.as_str(), value), (4, "flag", 1))
        },
        other => panic!("unexpected {:?}", other),
    }
    match s.set_bool("flag", false) {
        GlCall::Uniform1i { value, .. } => assert_eq!(value, 0),
        other => panic!("unexpected {:?}", other),
    }
    match s.set_int("texture1", -3) {
        GlCall::Uniform1i { program, name, value } => {
            assert_eq!((program, name.as_str(), value), (4, "texture1", -3))
        },
        other => panic!("unexpected {:?}", other),
    }
    assert!(is_c_string_ok("model"));
    assert!(!is_c_string_ok("mo\0del"));
}

#[test]
fn shader_build_success() {
    let mut b = ShaderBuild::start();
    assert!(matches!(b.step(ShaderReport { object: 1, success: true }), ShaderAction::CompileFragment));
    match b.step(ShaderReport { object: 2, success: true }) {
        ShaderAction::Link { vertex, fragment, warning } => {
            assert_eq!((vertex, fragment), (1, 2));
            assert!(warning.is_none());
        },
        other => panic!("unexpected {:?}", other),
    }
    match b.step(ShaderReport { object: 3, success: true }) {
        ShaderAction::Finish { vertex, fragment, warning, shader } => {
            assert_eq!((vertex, fragment, shader.id()), (1, 2, 3));
            assert!(warning.is_none());
        },
        other => panic!("unexpected {:?}", other),
    }
    assert_eq!(b, ShaderBuild::Done);
}

#[test]
fn shader_build_warnings_and_failure() {
    let mut b = ShaderBuild::start();
    match b.step(ShaderReport { object: 0, success: false }) {
        ShaderAction::Fail(Error::Custom(m)) => assert_eq!(m, "Error while compiling vertex shader!"),
        other => panic!("unexpected {:?}", other),
    }
    assert_eq!(b, ShaderBuild::Done);

    let mut b = ShaderBuild::start();
    b.step(ShaderReport { object: 1, success: true });
    match b.step(ShaderReport { object: 2, success: false }) {
        ShaderAction::Link { warning: Some(w), .. } => assert_eq!(w, "Error while compiling fragment shader!"),
        other => panic!("unexpected {:?}", other),
    }
    match b.step(ShaderReport { object: 3, success: false }) {
        ShaderAction::Finish { warning: Some(w), shader, .. } => {
            assert_eq!(w, "Error while linking program shader!");
            assert_eq!(shader.id(), 3);
        },
        other => panic!("unexpected {:?}", other),
    }
}

#[test]
fn window_defaults() {
    let r = WindowConfig::new("assets/mesh.obj").resolve();
    assert_eq!(r.geometry_vertex_shader, "./assets/geometry_vertex_shader.vs");
    assert_eq!(r.geometry_fragment_shader, "./assets/geometry_fragment_shader.fs");
    assert_eq!(r.text_vertex_shader, "./assets/text_vertex_shader.vs");
    assert_eq!(r.text_fragment_shader, "./assets/text_fragment_shader.fs");
    assert_eq!(r.integration_iteration, 150);
    assert_eq!(r.opengl_version, (3, 3));
    assert_eq!(r.mesh.location(), "assets/mesh.obj");
    assert_eq!(r.mesh.dimension(), MeshDimension::Two);
    assert_eq!(r.character_set, "assets/dzahui-font_2.fnt");
    assert_eq!((r.height, r.width), (600, 800));
    assert_eq!(r.write_location, "./saved");
    assert_eq!(r.file_prefix, "result");
}

#[test]
fn window_choices() {
    let r = WindowConfig::new("m.obj")
        .with_geometry_shader("g.vs", "g.fs")
        .with_text_shader("t.vs", "t.fs")
        .with_height_and_width(100, 200)
        .with_opengl_version((4, 1))
        .with_mesh_in_1d()
        .with_integration_iteration(10)
        .set_file_location("out")
        .set_file_prefix("p")
        .resolve();
    assert_eq!(r.geometry_vertex_shader, "g.vs");
    assert_eq!(r.geometry_fragment_shader, "g.fs");
    assert_eq!(r.text_vertex_shader, "t.vs");
    assert_eq!(r.text_fragment_shader, "t.fs");
    assert_eq!((r.height, r.width), (100, 200));
    assert_eq!(r.opengl_version, (4, 1));
    assert_eq!(r.mesh.dimension(), MeshDimension::One);
    assert_eq!(r.integration_iteration, 10);
    assert_eq!(r.write_location, "out");
    assert_eq!(r.file_prefix, "p");
    assert_eq!(WindowConfig::new("m.obj").with_mesh_in_3d().resolve().mesh.dimension(), MeshDimension::Three);
    assert!(WindowConfig::is_untested_opengl_version((4, 1)));
    assert!(WindowConfig::is_untested_opengl_version((4, 3)));
    assert!(WindowConfig::is_untested_opengl_version((3, 0)));
    assert!(!WindowConfig::is_untested_opengl_version((3, 3)));
}

#[test]
fn event_loop_keys() {
    let mut s = LoopState::new();
    assert_eq!(s.react(Input::Key { scancode: 53, pressed: true }, 0), Response::Exit);
    assert_eq!(s.react(Input::CloseRequested, 0), Response::Exit);
    assert_eq!(s.react(Input::Key { scancode: 17, pressed: true }, 0), Response::Nothing);
    assert!(!s.fill);
    assert_eq!(s.react(Input::Key { scancode: 17, pressed: false }, 0), Response::Nothing);
    assert!(s.fill);
    assert_eq!(s.react(Input::Key { scancode: 30, pressed: true }, 0), Response::Nothing);
}

#[test]
fn saving_is_throttled() {
    let mut s = LoopState::new();
    assert_eq!(s.react(Input::Key { scancode: 1, pressed: true }, 200), Response::Nothing);
    assert_eq!(s.react(Input::Key { scancode: 1, pressed: true }, 201), Response::SaveSolution);
    assert_eq!(s.writer_sleep, 201);
    assert_eq!(s.react(Input::Key { scancode: 1, pressed: true }, 350), Response::Nothing);
    assert_eq!(s.react(Input::Key { scancode: 1, pressed: false }, 900), Response::Nothing);
    assert_eq!(s.react(Input::Key { scancode: 1, pressed: true }, 402), Response::SaveSolution);
    assert_eq!(s.writer_sleep, 402);
}

#[test]
fn mouse_moves_the_camera_while_held() {
    let mut s = LoopState::new();
    assert_eq!(s.react(Input::MouseMotion, 0), Response::Nothing);
    assert_eq!(s.react(Input::Button { button: 0, pressed: true }, 0), Response::Nothing);
    assert!(s.active_view_change);
    assert_eq!(s.react(Input::MouseMotion, 0), Response::RotateCamera);
    assert_eq!(s.react(Input::Button { button: 0, pressed: false }, 0), Response::Nothing);
    assert_eq!(s.react(Input::MouseMotion, 0), Response::Nothing);
    assert_eq!(s.react(Input::Button { button: 2, pressed: true }, 0), Response::Nothing);
    assert!(s.active_view_change);
    assert_eq!(s.react(Input::Button { button: 1, pressed: true }, 0), Response::SelectVertex);
    assert_eq!(s.react(Input::Button { button: 1, pressed: false }, 0), Response::Nothing);
    assert_eq!(s.react(Input::Button { button: 5, pressed: true }, 0), Response::Nothing);
    assert!(s.active_view_change);
}

#[test]
fn frame_rate() {
    let mut s = LoopState::new();
    assert!(!s.frame(10));
    assert!(!s.frame(20));
    assert_eq!(s.counter, 2);
    assert!(s.frame(100));
    assert_eq!(s.fps, 20);
    assert_eq!(s.counter, 1);
    assert_eq!(s.prev_time, 100);
    assert!(!s.frame(199));
    assert!(s.frame(200));
    assert_eq!(s.fps, 20);
}
