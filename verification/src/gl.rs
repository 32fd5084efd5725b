//! The OpenGL work of drawing, as the calls to make: the objects a drawable
//! is bound to, the shader programs, and the steps of building a program.
//! The calls themselves are made by the caller, which owns the context.
use vstd::prelude::*;
use crate::error::Error;
use crate::text::{chars_of, string_of};

verus! {

/// An OpenGL call the library asks for.
#[derive(Debug)]
pub enum GlCall {
    /// `glBindVertexArray(vao)`.
    BindVertexArray(u32),
    /// `glBindBuffer(GL_ARRAY_BUFFER, vbo)`.
    BindArrayBuffer(u32),
    /// `glBindBuffer(GL_ELEMENT_ARRAY_BUFFER, ebo)`.
    BindElementArrayBuffer(u32),
    /// `glBindTexture(GL_TEXTURE_2D, texture)`.
    BindTexture2D(u32),
    /// `glUseProgram(program)`.
    UseProgram(u32),
    /// `glUniform1i(glGetUniformLocation(program, name), value)`.
    Uniform1i { program: u32, name: String, value: i32 },
    /// `glPolygonMode(GL_FRONT_AND_BACK, GL_FILL)`.
    PolygonFill,
    /// `glDrawElements(GL_TRIANGLES, count, GL_UNSIGNED_INT, null)`.
    DrawTriangles(i32),
}

/// A call in a form that specifications can compare.
pub enum GlCallView {
    BindVertexArray(u32),
    BindArrayBuffer(u32),
    BindElementArrayBuffer(u32),
    BindTexture2D(u32),
    UseProgram(u32),
    Uniform1i { program: u32, name: Seq<char>, value: i32 },
    PolygonFill,
    DrawTriangles(i32),
}

impl View for GlCall {
    type V = GlCallView;

    open spec fn view(&self) -> GlCallView {
        match self {
            GlCall::BindVertexArray(x) => GlCallView::BindVertexArray(*x),
            GlCall::BindArrayBuffer(x) => GlCallView::BindArrayBuffer(*x),
            GlCall::BindElementArrayBuffer(x) => GlCallView::BindElementArrayBuffer(*x),
            GlCall::BindTexture2D(x) => GlCallView::BindTexture2D(*x),
            GlCall::UseProgram(x) => GlCallView::UseProgram(*x),
            GlCall::Uniform1i { program, name, value } => GlCallView::Uniform1i {
                program: *program,
                name: name@,
                value: *value,
            },
            GlCall::PolygonFill => GlCallView::PolygonFill,
            GlCall::DrawTriangles(n) => GlCallView::DrawTriangles(*n),
        }
    }
}

/// The views of a list of calls.
pub open spec fn calls_view(v: Seq<GlCall>) -> Seq<GlCallView> {
    v.map_values(|c: GlCall| c@)
}

/// The objects OpenGL assigns to a drawable: vertex array, vertex buffer,
/// element buffer and texture. All are 0 until they are set up.
#[derive(Debug, PartialEq, Eq, Structural)]
pub struct Binder {
    vbo: u32,
    vao: u32,
    ebo: u32,
    texture: u32,
}

/// The calls that bind a vertex array and its two buffers, in that order.
pub open spec fn bind_buffers_spec(vao: u32, vbo: u32, ebo: u32) -> Seq<GlCallView> {
    seq![
        GlCallView::BindVertexArray(vao),
        GlCallView::BindArrayBuffer(vbo),
        GlCallView::BindElementArrayBuffer(ebo),
    ]
}

impl Binder {
    /// The vertex buffer.
    pub closed spec fn vbo_spec(&self) -> u32 {
        self.vbo
    }

    /// The vertex array.
    pub closed spec fn vao_spec(&self) -> u32 {
        self.vao
    }

    /// The element buffer.
    pub closed spec fn ebo_spec(&self) -> u32 {
        self.ebo
    }

    /// The texture.
    pub closed spec fn texture_spec(&self) -> u32 {
        self.texture
    }

    /// The calls that bind everything but the texture.
    pub open spec fn bind_all_no_texture_spec(&self) -> Seq<GlCallView> {
        bind_buffers_spec(self.vao_spec(), self.vbo_spec(), self.ebo_spec())
    }

    /// A binder with nothing set up (all objects 0).
    pub fn new() -> (res: Binder)
        ensures
            res.vbo_spec() == 0 && res.vao_spec() == 0 && res.ebo_spec() == 0 && res.texture_spec()
                == 0,
    {
        Binder { vbo: 0, vao: 0, ebo: 0, texture: 0 }
    }

    /// Takes the vertex array and the two buffers OpenGL generated, and gives
    /// the calls that bind them: the vertex array first, so that it records
    /// the buffers bound after it. The texture stays as it was.
    pub fn setup(&mut self, vao: u32, vbo: u32, ebo: u32) -> (res: Vec<GlCall>)
        ensures
            final(self).vao_spec() == vao,
            final(self).vbo_spec() == vbo,
            final(self).ebo_spec() == ebo,
            final(self).texture_spec() == old(self).texture_spec(),
            calls_view(res@) == bind_buffers_spec(vao, vbo, ebo),
    {
        self.vao = vao;
        self.vbo = vbo;
        self.ebo = ebo;
        let res = vec![
            GlCall::BindVertexArray(vao),
            GlCall::BindArrayBuffer(vbo),
            GlCall::BindElementArrayBuffer(ebo),
        ];
        assert(calls_view(res@) =~= bind_buffers_spec(vao, vbo, ebo));
        res
    }

    /// Takes the texture OpenGL generated, and gives the call that binds it.
    pub fn setup_texture(&mut self, texture: u32) -> (res: GlCall)
        ensures
            final(self).texture_spec() == texture,
            final(self).vao_spec() == old(self).vao_spec(),
            final(self).vbo_spec() == old(self).vbo_spec(),
            final(self).ebo_spec() == old(self).ebo_spec(),
            res@ == GlCallView::BindTexture2D(texture),
    {
        self.texture = texture;
        GlCall::BindTexture2D(texture)
    }

    /// The call that binds the vertex array.
    pub fn bind_vao(&self) -> (res: GlCall)
        ensures
            res@ == GlCallView::BindVertexArray(self.vao_spec()),
    {
        GlCall::BindVertexArray(self.vao)
    }

    /// The call that binds the vertex buffer.
    pub fn bind_vbo(&self) -> (res: GlCall)
        ensures
            res@ == GlCallView::BindArrayBuffer(self.vbo_spec()),
    {
        GlCall::BindArrayBuffer(self.vbo)
    }

    /// The call that binds the element buffer.
    pub fn bind_ebo(&self) -> (res: GlCall)
        ensures
            res@ == GlCallView::BindElementArrayBuffer(self.ebo_spec()),
    {
        GlCall::BindElementArrayBuffer(self.ebo)
    }

    /// The call that binds the texture.
    pub fn bind_texture(&self) -> (res: GlCall)
        ensures
            res@ == GlCallView::BindTexture2D(self.texture_spec()),
    {
        GlCall::BindTexture2D(self.texture)
    }

    /// The call that unbinds any texture (binds texture 0).
    pub fn unbind_texture(&self) -> (res: GlCall)
        ensures
            res@ == GlCallView::BindTexture2D(0),
    {
        GlCall::BindTexture2D(0)
    }

    /// The calls that bind vertex array, vertex buffer and element buffer,
    /// in that order; never the texture.
    pub fn bind_all_no_texture(&self) -> (res: Vec<GlCall>)
        ensures
            calls_view(res@) == self.bind_all_no_texture_spec(),
    {
        let res = vec![self.bind_vao(), self.bind_vbo(), self.bind_ebo()];
        assert(calls_view(res@) =~= self.bind_all_no_texture_spec());
        res
    }

    /// The calls that bind vertex array, vertex buffer, element buffer and
    /// texture, in that order.
    pub fn bind_all(&self) -> (res: Vec<GlCall>)
        ensures
            calls_view(res@) == self.bind_all_no_texture_spec().push(
                GlCallView::BindTexture2D(self.texture_spec()),
            ),
    {
        let res = vec![self.bind_vao(), self.bind_vbo(), self.bind_ebo(), self.bind_texture()];
        assert(calls_view(res@) =~= self.bind_all_no_texture_spec().push(
            GlCallView::BindTexture2D(self.texture_spec()),
        ));
        res
    }

    /// The vertex array.
    pub fn vao(&self) -> (res: u32)
        ensures
            res == self.vao_spec(),
    {
        self.vao
    }

    /// The vertex buffer.
    pub fn vbo(&self) -> (res: u32)
        ensures
            res == self.vbo_spec(),
    {
        self.vbo
    }

    /// The element buffer.
    pub fn ebo(&self) -> (res: u32)
        ensures
            res == self.ebo_spec(),
    {
        self.ebo
    }

    /// The texture.
    pub fn texture(&self) -> (res: u32)
        ensures
            res == self.texture_spec(),
    {
        self.texture
    }
}

/// Setting up a binder and then binding all but its texture gives the same
/// calls as the set-up gave: the vertex array, then the vertex buffer, then
/// the element buffer that were set up.
pub proof fn law_setup_then_bind_all(after: Binder, vao: u32, vbo: u32, ebo: u32)
    requires
        after.vao_spec() == vao,
        after.vbo_spec() == vbo,
        after.ebo_spec() == ebo,
    ensures
        after.bind_all_no_texture_spec() == bind_buffers_spec(vao, vbo, ebo),
{
}

/// The calls that draw the triangles of a drawable with `index_count`
/// indices, filled. The count is handed to OpenGL as an `i32`, as a cast
/// gives it.
pub fn draw_calls(index_count: usize) -> (res: Vec<GlCall>)
    ensures
        calls_view(res@) == seq![GlCallView::PolygonFill, GlCallView::DrawTriangles(index_count as i32)],
{
    let res = vec![GlCall::PolygonFill, GlCall::DrawTriangles(index_count as i32)];
    assert(calls_view(res@) =~= seq![GlCallView::PolygonFill, GlCallView::DrawTriangles(index_count as i32)]);
    res
}

/// Whether a name can be handed to OpenGL as a C string: it has no NUL.
pub open spec fn c_string_ok(name: Seq<char>) -> bool {
    !name.contains('\0')
}

/// A compiled and linked shader program, by the id OpenGL gave it.
#[derive(Debug, PartialEq, Eq, Structural)]
pub struct Shader {
    id: u32,
}

impl Shader {
    /// The id of the program.
    pub closed spec fn id_spec(&self) -> u32 {
        self.id
    }

    /// The program with the given id.
    pub fn from_id(id: u32) -> (res: Shader)
        ensures
            res.id_spec() == id,
    {
        Shader { id }
    }

    /// The id of the program.
    pub fn id(&self) -> (res: u32)
        ensures
            res == self.id_spec(),
    {
        self.id
    }

    /// The call that makes this program the one in use.
    pub fn use_shader(&self) -> (res: GlCall)
        ensures
            res@ == GlCallView::UseProgram(self.id_spec()),
    {
        GlCall::UseProgram(self.id)
    }

    /// The call that sets the boolean uniform `name` of this program: 1 for
    /// true, 0 for false.
    pub fn set_bool(&self, name: &str, value: bool) -> (res: GlCall)
        requires
            c_string_ok(name@),
        ensures
            res@ == (GlCallView::Uniform1i {
                program: self.id_spec(),
                name: name@,
                value: if value {
                    1i32
                } else {
                    0i32
                },
            }),
    {
        let v: i32 = if value {
            1
        } else {
            0
        };
        GlCall::Uniform1i { program: self.id, name: String::from_str(name), value: v }
    }

    /// The call that sets the integer uniform `name` of this program.
    pub fn set_int(&self, name: &str, value: i32) -> (res: GlCall)
        requires
            c_string_ok(name@),
        ensures
            res@ == (GlCallView::Uniform1i { program: self.id_spec(), name: name@, value }),
    {
        GlCall::Uniform1i { program: self.id, name: String::from_str(name), value }
    }
}

/// Whether a name can be handed to OpenGL as a C string.
pub fn is_c_string_ok(name: &str) -> (res: bool)
    ensures
        res == c_string_ok(name@),
{
    let v = chars_of(name);
    for i in 0..v.len()
        invariant
            v@ == name@,
            forall|j: int| 0 <= j < i ==> v@[j] != '\0',
    {
        if v[i] == '\0' {
            return false;
        }
    }
    true
}

/// Where building a shader program stands.
#[derive(Debug, Clone, Copy, PartialEq, Eq, Structural)]
pub enum ShaderBuild {
    /// The vertex shader is to be compiled.
    CompileVertex,
    /// The fragment shader is to be compiled.
    CompileFragment { vertex: u32 },
    /// The program is to be linked from the two shaders.
    Link { vertex: u32, fragment: u32 },
    /// Nothing is left to do.
    Done,
}

/// What the caller reports after doing the work of a step: whether the
/// shader compiled (or the program linked), and the object OpenGL made.
#[derive(Debug, Clone, Copy, PartialEq, Eq, Structural)]
pub struct ShaderReport {
    pub object: u32,
    pub success: bool,
}

/// What the caller is to do next.
#[derive(Debug)]
pub enum ShaderAction {
    /// Compile the fragment shader.
    CompileFragment,
    /// Link the program from these shaders; warn first if the fragment
    /// shader did not compile.
    Link { vertex: u32, fragment: u32, warning: Option<String> },
    /// Delete both shaders (they are in the program now) and finish with
    /// this program; warn first if it did not link.
    Finish { vertex: u32, fragment: u32, warning: Option<String>, shader: Shader },
    /// Give up with this error (the vertex shader did not compile).
    Fail(Error),
}

/// Whether an optional warning is the given message (or none).
pub open spec fn warning_is(w: Option<String>, failed: bool, message: Seq<char>) -> bool {
    if failed {
        w matches Some(s) && s@ == message
    } else {
        w is None
    }
}

impl ShaderBuild {
    /// How many steps are left at most before the build is done.
    pub open spec fn steps_left(self) -> nat {
        match self {
            ShaderBuild::CompileVertex => 3,
            ShaderBuild::CompileFragment { .. } => 2,
            ShaderBuild::Link { .. } => 1,
            ShaderBuild::Done => 0,
        }
    }

    /// Building starts by compiling the vertex shader.
    pub fn start() -> (res: ShaderBuild)
        ensures
            res == ShaderBuild::CompileVertex,
    {
        ShaderBuild::CompileVertex
    }

    /// Takes the report of the step just done and gives the next action. A
    /// vertex shader that does not compile stops the build with an error;
    /// a fragment shader that does not compile, or a program that does not
    /// link, only gives a warning.
    pub fn step(&mut self, report: ShaderReport) -> (res: ShaderAction)
        requires
            !(*old(self) is Done),
        ensures
            final(self).steps_left() < old(self).steps_left(),
            match *old(self) {
                ShaderBuild::CompileVertex => if report.success {
                    *final(self) == (ShaderBuild::CompileFragment { vertex: report.object })
                        && res is CompileFragment
                } else {
                    *final(self) == ShaderBuild::Done && (res matches ShaderAction::Fail(
                        Error::Custom(m),
                    ) && m@ == "Error while compiling vertex shader!"@)
                },
                ShaderBuild::CompileFragment { vertex } => *final(self) == (ShaderBuild::Link {
                    vertex,
                    fragment: report.object,
                }) && (res matches ShaderAction::Link { vertex: v, fragment: f, warning: w } && v
                    == vertex && f == report.object && warning_is(
                    w,
                    !report.success,
                    "Error while compiling fragment shader!"@,
                )),
                ShaderBuild::Link { vertex, fragment } => *final(self) == ShaderBuild::Done && (
                res matches ShaderAction::Finish { vertex: v, fragment: f, warning: w, shader: s }
                    && v == vertex && f == fragment && s.id_spec() == report.object && warning_is(
                    w,
                    !report.success,
                    "Error while linking program shader!"@,
                )),
                ShaderBuild::Done => false,
            },
    {
        match *self {
            ShaderBuild::CompileVertex => {
                if report.success {
                    *self = ShaderBuild::CompileFragment { vertex: report.object };
                    ShaderAction::CompileFragment
                } else {
                    *self = ShaderBuild::Done;
                    ShaderAction::Fail(Error::custom("Error while compiling vertex shader!"))
                }
            },
            ShaderBuild::CompileFragment { vertex } => {
                *self = ShaderBuild::Link { vertex, fragment: report.object };
                let warning = if report.success {
                    None
                } else {
                    Some(String::from_str("Error while compiling fragment shader!"))
                };
                ShaderAction::Link { vertex, fragment: report.object, warning }
            },
            ShaderBuild::Link { vertex, fragment } => {
                *self = ShaderBuild::Done;
                let warning = if report.success {
                    None
                } else {
                    Some(String::from_str("Error while linking program shader!"))
                };
                ShaderAction::Finish {
                    vertex,
                    fragment,
                    warning,
                    shader: Shader::from_id(report.object),
                }
            },
            ShaderBuild::Done => ShaderAction::Fail(Error::Infallible),
        }
    }
}

} // verus!
