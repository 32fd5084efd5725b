//! The simulation window's settings that are not geometry (files, sizes,
//! versions, defaults) and the decisions its event loop takes on input.
use vstd::prelude::*;
use crate::mesh::{MeshBuilder, MeshDimension};

verus! {

/// An optional text, as specifications see it.
pub open spec fn opt_view(o: Option<String>) -> Option<Seq<char>> {
    match o {
        Some(s) => Some(s@),
        None => None,
    }
}

/// The text of an option, or a default.
pub open spec fn or_default(o: Option<Seq<char>>, d: Seq<char>) -> Seq<char> {
    match o {
        Some(s) => s,
        None => d,
    }
}

/// The window settings chosen by the user, each left unset until chosen.
pub struct WindowConfig {
    geometry_vertex_shader: Option<String>,
    geometry_fragment_shader: Option<String>,
    text_vertex_shader: Option<String>,
    text_fragment_shader: Option<String>,
    integration_iteration: Option<usize>,
    opengl_version: (u8, u8),
    mesh_dimension: MeshDimension,
    character_set: Option<String>,
    height: u32,
    width: u32,
    location: String,
    write_location: Option<String>,
    file_prefix: Option<String>,
}

/// The settings a window is built with, every default filled in.
pub struct ResolvedConfig {
    /// Vertex shader for the mesh.
    pub geometry_vertex_shader: String,
    /// Fragment shader for the mesh.
    pub geometry_fragment_shader: String,
    /// Vertex shader for the text.
    pub text_vertex_shader: String,
    /// Fragment shader for the text.
    pub text_fragment_shader: String,
    /// Number of terms used to approximate integrals.
    pub integration_iteration: usize,
    /// OpenGL version requested.
    pub opengl_version: (u8, u8),
    /// The mesh to build.
    pub mesh: MeshBuilder,
    /// The font description file.
    pub character_set: String,
    /// Window height, in pixels.
    pub height: u32,
    /// Window width, in pixels.
    pub width: u32,
    /// Folder where solutions are saved.
    pub write_location: String,
    /// Prefix of the files solutions are saved in.
    pub file_prefix: String,
}

impl WindowConfig {
    /// The mesh file.
    pub closed spec fn location_spec(&self) -> Seq<char> {
        self.location@
    }

    /// Chosen geometry shaders (vertex, fragment).
    pub closed spec fn geometry_shaders_spec(&self) -> (Option<Seq<char>>, Option<Seq<char>>) {
        (opt_view(self.geometry_vertex_shader), opt_view(self.geometry_fragment_shader))
    }

    /// Chosen text shaders (vertex, fragment).
    pub closed spec fn text_shaders_spec(&self) -> (Option<Seq<char>>, Option<Seq<char>>) {
        (opt_view(self.text_vertex_shader), opt_view(self.text_fragment_shader))
    }

    /// Chosen number of integration terms.
    pub closed spec fn integration_iteration_spec(&self) -> Option<usize> {
        self.integration_iteration
    }

    /// Chosen OpenGL version.
    pub closed spec fn opengl_version_spec(&self) -> (u8, u8) {
        self.opengl_version
    }

    /// Chosen mesh dimension.
    pub closed spec fn mesh_dimension_spec(&self) -> MeshDimension {
        self.mesh_dimension
    }

    /// Chosen font description file.
    pub closed spec fn character_set_spec(&self) -> Option<Seq<char>> {
        opt_view(self.character_set)
    }

    /// Chosen window height and width.
    pub closed spec fn size_spec(&self) -> (u32, u32) {
        (self.height, self.width)
    }

    /// Chosen folder and prefix for saved solutions.
    pub closed spec fn output_spec(&self) -> (Option<Seq<char>>, Option<Seq<char>>) {
        (opt_view(self.write_location), opt_view(self.file_prefix))
    }

    /// Everything but the shaders is unchanged from `other`.
    pub open spec fn same_but_shaders(&self, other: &WindowConfig) -> bool {
        &&& self.location_spec() == other.location_spec()
        &&& self.integration_iteration_spec() == other.integration_iteration_spec()
        &&& self.opengl_version_spec() == other.opengl_version_spec()
        &&& self.mesh_dimension_spec() == other.mesh_dimension_spec()
        &&& self.character_set_spec() == other.character_set_spec()
        &&& self.size_spec() == other.size_spec()
        &&& self.output_spec() == other.output_spec()
    }

    /// Everything but the given field is unchanged from `other`; the shaders
    /// are always compared.
    pub open spec fn same_shaders(&self, other: &WindowConfig) -> bool {
        &&& self.geometry_shaders_spec() == other.geometry_shaders_spec()
        &&& self.text_shaders_spec() == other.text_shaders_spec()
    }

    /// The settings of a window showing the mesh in `location`: a plane mesh
    /// in a 600 by 800 window, OpenGL 3.3, nothing else chosen.
    pub fn new(location: &str) -> (res: WindowConfig)
        ensures
            res.location_spec() == location@,
            res.geometry_shaders_spec() == (None::<Seq<char>>, None::<Seq<char>>),
            res.text_shaders_spec() == (None::<Seq<char>>, None::<Seq<char>>),
            res.integration_iteration_spec() == None::<usize>,
            res.opengl_version_spec() == (3u8, 3u8),
            res.mesh_dimension_spec() == MeshDimension::Two,
            res.character_set_spec() == None::<Seq<char>>,
            res.size_spec() == (600u32, 800u32),
            res.output_spec() == (None::<Seq<char>>, None::<Seq<char>>),
    {
        WindowConfig {
            geometry_vertex_shader: None,
            geometry_fragment_shader: None,
            text_vertex_shader: None,
            text_fragment_shader: None,
            integration_iteration: None,
            opengl_version: (3, 3),
            mesh_dimension: MeshDimension::Two,
            character_set: None,
            height: 600,
            width: 800,
            location: String::from_str(location),
            write_location: None,
            file_prefix: None,
        }
    }

    /// Chooses the shaders the mesh is drawn with.
    pub fn with_geometry_shader(self, vertex_shader: &str, fragment_shader: &str) -> (res: WindowConfig)
        ensures
            res.geometry_shaders_spec() == (Some(vertex_shader@), Some(fragment_shader@)),
            res.text_shaders_spec() == self.text_shaders_spec(),
            res.same_but_shaders(&self),
    {
        WindowConfig {
            geometry_vertex_shader: Some(String::from_str(vertex_shader)),
            geometry_fragment_shader: Some(String::from_str(fragment_shader)),
            ..self
        }
    }

    /// Chooses the shaders text is drawn with.
    pub fn with_text_shader(self, vertex_shader: &str, fragment_shader: &str) -> (res: WindowConfig)
        ensures
            res.text_shaders_spec() == (Some(vertex_shader@), Some(fragment_shader@)),
            res.geometry_shaders_spec() == self.geometry_shaders_spec(),
            res.same_but_shaders(&self),
    {
        WindowConfig {
            text_vertex_shader: Some(String::from_str(vertex_shader)),
            text_fragment_shader: Some(String::from_str(fragment_shader)),
            ..self
        }
    }

    /// Chooses the window's height and width, neither of which may be zero.
    pub fn with_height_and_width(self, height: u32, width: u32) -> (res: WindowConfig)
        requires
            height != 0,
            width != 0,
        ensures
            res.size_spec() == (height, width),
            res.same_shaders(&self),
            res.location_spec() == self.location_spec(),
            res.integration_iteration_spec() == self.integration_iteration_spec(),
            res.opengl_version_spec() == self.opengl_version_spec(),
            res.mesh_dimension_spec() == self.mesh_dimension_spec(),
            res.character_set_spec() == self.character_set_spec(),
            res.output_spec() == self.output_spec(),
    {
        WindowConfig { height, width, ..self }
    }

    /// Chooses the OpenGL version.
    pub fn with_opengl_version(self, opengl_version: (u8, u8)) -> (res: WindowConfig)
        ensures
            res.opengl_version_spec() == opengl_version,
            res.same_shaders(&self),
            res.location_spec() == self.location_spec(),
            res.integration_iteration_spec() == self.integration_iteration_spec(),
            res.mesh_dimension_spec() == self.mesh_dimension_spec(),
            res.character_set_spec() == self.character_set_spec(),
            res.size_spec() == self.size_spec(),
            res.output_spec() == self.output_spec(),
    {
        WindowConfig { opengl_version, ..self }
    }

    /// Whether a version warrants the warning that versions other than 3.3
    /// can have undesired consequences: any version but 3.3.
    pub fn is_untested_opengl_version(opengl_version: (u8, u8)) -> (res: bool)
        ensures
            res == (opengl_version.0 != 3 || opengl_version.1 != 3),
    {
        opengl_version.0 != 3 || opengl_version.1 != 3
    }

    /// Chooses the mesh dimension.
    fn with_dimension(self, mesh_dimension: MeshDimension) -> (res: WindowConfig)
        ensures
            res.mesh_dimension_spec() == mesh_dimension,
            res.same_shaders(&self),
            res.location_spec() == self.location_spec(),
            res.integration_iteration_spec() == self.integration_iteration_spec(),
            res.opengl_version_spec() == self.opengl_version_spec(),
            res.character_set_spec() == self.character_set_spec(),
            res.size_spec() == self.size_spec(),
            res.output_spec() == self.output_spec(),
    {
        WindowConfig { mesh_dimension, ..self }
    }

    /// Shows a three-dimensional mesh.
    pub fn with_mesh_in_3d(self) -> (res: WindowConfig)
        ensures
            res.mesh_dimension_spec() == MeshDimension::Three,
            res.same_shaders(&self),
            res.location_spec() == self.location_spec(),
            res.integration_iteration_spec() == self.integration_iteration_spec(),
            res.opengl_version_spec() == self.opengl_version_spec(),
            res.character_set_spec() == self.character_set_spec(),
            res.size_spec() == self.size_spec(),
            res.output_spec() == self.output_spec(),
    {
        self.with_dimension(MeshDimension::Three)
    }

    /// Shows a one-dimensional mesh (a line drawn as a bar). Choosing a
    /// one-dimensional equation to solve does the same.
    pub fn with_mesh_in_1d(self) -> (res: WindowConfig)
        ensures
            res.mesh_dimension_spec() == MeshDimension::One,
            res.same_shaders(&self),
            res.location_spec() == self.location_spec(),
            res.integration_iteration_spec() == self.integration_iteration_spec(),
            res.opengl_version_spec() == self.opengl_version_spec(),
            res.character_set_spec() == self.character_set_spec(),
            res.size_spec() == self.size_spec(),
            res.output_spec() == self.output_spec(),
    {
        self.with_dimension(MeshDimension::One)
    }

    /// Chooses the number of terms used to approximate integrals.
    pub fn with_integration_iteration(self, integration_iteration: usize) -> (res: WindowConfig)
        ensures
            res.integration_iteration_spec() == Some(integration_iteration),
            res.same_shaders(&self),
            res.location_spec() == self.location_spec(),
            res.opengl_version_spec() == self.opengl_version_spec(),
            res.mesh_dimension_spec() == self.mesh_dimension_spec(),
            res.character_set_spec() == self.character_set_spec(),
            res.size_spec() == self.size_spec(),
            res.output_spec() == self.output_spec(),
    {
        WindowConfig { integration_iteration: Some(integration_iteration), ..self }
    }

    /// Chooses the folder solutions are saved in.
    pub fn set_file_location(self, write_location: &str) -> (res: WindowConfig)
        ensures
            res.output_spec() == (Some(write_location@), self.output_spec().1),
            res.same_shaders(&self),
            res.location_spec() == self.location_spec(),
            res.integration_iteration_spec() == self.integration_iteration_spec(),
            res.opengl_version_spec() == self.opengl_version_spec(),
            res.mesh_dimension_spec() == self.mesh_dimension_spec(),
            res.character_set_spec() == self.character_set_spec(),
            res.size_spec() == self.size_spec(),
    {
        WindowConfig { write_location: Some(String::from_str(write_location)), ..self }
    }

    /// Chooses the prefix of the files solutions are saved in.
    pub fn set_file_prefix(self, file_prefix: &str) -> (res: WindowConfig)
        ensures
            res.output_spec() == (self.output_spec().0, Some(file_prefix@)),
            res.same_shaders(&self),
            res.location_spec() == self.location_spec(),
            res.integration_iteration_spec() == self.integration_iteration_spec(),
            res.opengl_version_spec() == self.opengl_version_spec(),
            res.mesh_dimension_spec() == self.mesh_dimension_spec(),
            res.character_set_spec() == self.character_set_spec(),
            res.size_spec() == self.size_spec(),
    {
        WindowConfig { file_prefix: Some(String::from_str(file_prefix)), ..self }
    }

    /// The settings with every default filled in: the shaders, font and
    /// output folder under `./assets/` and `./saved`, files prefixed
    /// `result`, 150 integration terms.
    pub fn resolve(self) -> (res: ResolvedConfig)
        ensures
            res.geometry_vertex_shader@ == or_default(
                self.geometry_shaders_spec().0,
                "./assets/geometry_vertex_shader.vs"@,
            ),
            res.geometry_fragment_shader@ == or_default(
                self.geometry_shaders_spec().1,
                "./assets/geometry_fragment_shader.fs"@,
            ),
            res.text_vertex_shader@ == or_default(
                self.text_shaders_spec().0,
                "./assets/text_vertex_shader.vs"@,
            ),
            res.text_fragment_shader@ == or_default(
                self.text_shaders_spec().1,
                "./assets/text_fragment_shader.fs"@,
            ),
            res.integration_iteration == (match self.integration_iteration_spec() {
                Some(n) => n,
                None => 150usize,
            }),
            res.opengl_version == self.opengl_version_spec(),
            res.mesh.location_spec() == self.location_spec(),
            res.mesh.dimension_spec() == self.mesh_dimension_spec(),
            res.character_set@ == or_default(
                self.character_set_spec(),
                "assets/dzahui-font_2.fnt"@,
            ),
            (res.height, res.width) == self.size_spec(),
            res.write_location@ == or_default(self.output_spec().0, "./saved"@),
            res.file_prefix@ == or_default(self.output_spec().1, "result"@),
    {
        let geometry_vertex_shader = match self.geometry_vertex_shader {
            Some(s) => s,
            None => String::from_str("./assets/geometry_vertex_shader.vs"),
        };
        let geometry_fragment_shader = match self.geometry_fragment_shader {
            Some(s) => s,
            None => String::from_str("./assets/geometry_fragment_shader.fs"),
        };
        let text_vertex_shader = match self.text_vertex_shader {
            Some(s) => s,
            None => String::from_str("./assets/text_vertex_shader.vs"),
        };
        let text_fragment_shader = match self.text_fragment_shader {
            Some(s) => s,
            None => String::from_str("./assets/text_fragment_shader.fs"),
        };
        let integration_iteration = match self.integration_iteration {
            Some(n) => n,
            None => 150,
        };
        let character_set = match self.character_set {
            Some(s) => s,
            None => String::from_str("assets/dzahui-font_2.fnt"),
        };
        let write_location = match self.write_location {
            Some(s) => s,
            None => String::from_str("./saved"),
        };
        let file_prefix = match self.file_prefix {
            Some(s) => s,
            None => String::from_str("result"),
        };
        let mesh = MeshBuilder::new(self.location.as_str(), self.mesh_dimension);
        ResolvedConfig {
            geometry_vertex_shader,
            geometry_fragment_shader,
            text_vertex_shader,
            text_fragment_shader,
            integration_iteration,
            opengl_version: self.opengl_version,
            mesh,
            character_set,
            height: self.height,
            width: self.width,
            write_location,
            file_prefix,
        }
    }
}

/// Input the event loop reacts to (besides moving the cursor and resizing,
/// which only store values).
#[derive(Debug, Clone, Copy, PartialEq, Eq, Structural)]
pub enum Input {
    /// A key was pressed or released; scan codes as the window system gives them.
    Key { scancode: u32, pressed: bool },
    /// A mouse button was pressed or released.
    Button { button: u32, pressed: bool },
    /// The mouse moved (the amount is handled by the caller).
    MouseMotion,
    /// The window was asked to close.
    CloseRequested,
}

/// What the event loop does in answer to input.
#[derive(Debug, Clone, Copy, PartialEq, Eq, Structural)]
pub enum Response {
    /// Nothing.
    Nothing,
    /// Leave the loop.
    Exit,
    /// Send the last solution to be saved.
    SaveSolution,
    /// Select the vertex under the cursor.
    SelectVertex,
    /// Rotate the camera by the mouse motion.
    RotateCamera,
}

/// The state of the event loop: whether the mesh is drawn filled, whether
/// the camera follows the mouse, when a solution was last saved and the
/// frame counting behind the frame rate shown.
pub struct LoopState {
    /// Whether triangles are drawn filled (else as lines).
    pub fill: bool,
    /// Whether mouse motion rotates the camera.
    pub active_view_change: bool,
    /// When a solution was last sent to be saved, in milliseconds.
    pub writer_sleep: u128,
    /// When the frame rate was last computed, in milliseconds.
    pub prev_time: u128,
    /// Frames drawn since then.
    pub counter: i32,
    /// The frame rate shown.
    pub fps: i32,
}

/// Scan code of the key that leaves the window.
pub open spec fn exit_key() -> u32 {
    53
}

/// Scan code of the key that saves the solution.
pub open spec fn save_key() -> u32 {
    1
}

/// Scan code of the key that shows the mesh as lines while held.
pub open spec fn lines_key() -> u32 {
    17
}

impl LoopState {
    /// The state when the loop starts: filled mesh, camera still, nothing
    /// saved, no frame counted.
    pub fn new() -> (res: LoopState)
        ensures
            res.fill && !res.active_view_change && res.writer_sleep == 0 && res.prev_time == 0
                && res.counter == 0 && res.fps == 0,
    {
        LoopState {
            fill: true,
            active_view_change: false,
            writer_sleep: 0,
            prev_time: 0,
            counter: 0,
            fps: 0,
        }
    }

    /// Reacts to input at time `now` (milliseconds since the window was
    /// made). The exit key or a close request leaves; the save key, when
    /// pressed more than 200 ms after the last save, saves; the lines key
    /// shows lines while it is held; the left and right buttons make the
    /// camera follow the mouse while held; the middle button selects a
    /// vertex; mouse motion rotates the camera while it follows the mouse.
    pub fn react(&mut self, input: Input, now: u128) -> (res: Response)
        requires
            now >= old(self).writer_sleep,
        ensures
            final(self).prev_time == old(self).prev_time,
            final(self).counter == old(self).counter,
            final(self).fps == old(self).fps,
            final(self).writer_sleep <= now,
            res == Response::SaveSolution ==> now - old(self).writer_sleep > 200
                && final(self).writer_sleep == now,
            res != Response::SaveSolution ==> final(self).writer_sleep == old(self).writer_sleep,
            match input {
                Input::Key { scancode, pressed } => if scancode == exit_key() {
                    res == Response::Exit && final(self).fill == old(self).fill
                } else if scancode == save_key() {
                    final(self).fill == old(self).fill && (res == Response::SaveSolution <==> (pressed
                        && now - old(self).writer_sleep > 200)) && (res != Response::SaveSolution
                        ==> res == Response::Nothing)
                } else if scancode == lines_key() {
                    res == Response::Nothing && final(self).fill == !pressed
                } else {
                    res == Response::Nothing && final(self).fill == old(self).fill
                },
                Input::Button { button, pressed } => final(self).fill == old(self).fill && if button
                    == 0 || button == 2 {
                    res == Response::Nothing && final(self).active_view_change == pressed
                } else if button == 1 {
                    final(self).active_view_change == old(self).active_view_change && (if pressed {
                        res == Response::SelectVertex
                    } else {
                        res == Response::Nothing
                    })
                } else {
                    res == Response::Nothing && final(self).active_view_change
                        == old(self).active_view_change
                },
                Input::MouseMotion => final(self).fill == old(self).fill
                    && final(self).active_view_change == old(self).active_view_change && (if old(
                    self,
                ).active_view_change {
                    res == Response::RotateCamera
                } else {
                    res == Response::Nothing
                }),
                Input::CloseRequested => res == Response::Exit && final(self).fill == old(self).fill
                    && final(self).active_view_change == old(self).active_view_change,
            },
            !(input is Button) ==> final(self).active_view_change == old(self).active_view_change,
    {
        match input {
            Input::Key { scancode, pressed } => {
                if scancode == 53 {
                    Response::Exit
                } else if scancode == 1 {
                    if pressed && now - self.writer_sleep > 200 {
                        self.writer_sleep = now;
                        Response::SaveSolution
                    } else {
                        Response::Nothing
                    }
                } else if scancode == 17 {
                    self.fill = !pressed;
                    Response::Nothing
                } else {
                    Response::Nothing
                }
            },
            Input::Button { button, pressed } => {
                if button == 2 || button == 0 {
                    self.active_view_change = pressed;
                    Response::Nothing
                } else if button == 1 {
                    if pressed {
                        Response::SelectVertex
                    } else {
                        Response::Nothing
                    }
                } else {
                    Response::Nothing
                }
            },
            Input::MouseMotion => {
                if self.active_view_change {
                    Response::RotateCamera
                } else {
                    Response::Nothing
                }
            },
            Input::CloseRequested => Response::Exit,
        }
    }

    /// Counts a frame drawn at time `now`. At least every 100 ms the frame
    /// rate becomes ten times the frames counted since the last time (the
    /// result is then true: the frame rate changed, and a time step that
    /// follows it is to be recomputed); the count starts over at the frame
    /// drawn now.
    pub fn frame(&mut self, now: u128) -> (updated: bool)
        requires
            now >= old(self).prev_time,
            0 <= old(self).counter < i32::MAX,
            old(self).counter * 10 <= i32::MAX,
        ensures
            updated == (now - old(self).prev_time >= 100),
            updated ==> final(self).prev_time == now && final(self).fps == old(self).counter * 10
                && final(self).counter == 1,
            !updated ==> final(self).prev_time == old(self).prev_time && final(self).fps == old(
                self,
            ).fps && final(self).counter == old(self).counter + 1,
            final(self).fill == old(self).fill,
            final(self).active_view_change == old(self).active_view_change,
            final(self).writer_sleep == old(self).writer_sleep,
    {
        let updated = now - self.prev_time >= 100;
        if updated {
            self.prev_time = now;
            self.fps = self.counter * 10;
            self.counter = 0;
        }
        self.counter = self.counter + 1;
        updated
    }
}

} // verus!
