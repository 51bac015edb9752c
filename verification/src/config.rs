use vstd::prelude::*;
use crate::scalar::Scalar;

verus! {

/// Bit pattern of the single-precision number 45.
pub const FOV_45_BITS: u32 = 0x4234_0000;

/// Settings of the OpenGL 4.6 backend. There are none yet.
#[derive(Clone, Copy, Debug, PartialEq, Eq, Structural)]
pub struct OpenGL4_6Config {}

/// What the graphics context was found to support, so that the context need
/// not be asked again.
#[derive(Clone, Copy, Debug, PartialEq, Eq, Structural)]
pub struct OpenGLExtSupport {
    pub supports_bindless: bool,
}

/// The graphics backend of the engine.
#[derive(Clone, Copy, Debug, PartialEq, Eq, Structural)]
pub enum GraphicsLibrary {
    OpenGL4_6(OpenGL4_6Config, OpenGLExtSupport),
    NoLibrary,
}

/// How much of the graphics driver's debug output is shown.
#[derive(Clone, Copy, Debug, PartialEq, Eq, Structural)]
pub enum DebugLevel {
    High,
}

/// What the main thread tells the others.
#[derive(Clone, Copy, Debug, PartialEq, Eq, Structural)]
pub enum MainThreadEvent {
    AdvanceText,
    InitComplete,
}

/// Size and title of the window to open.
#[derive(Clone, Debug)]
pub struct WindowConfig {
    pub width: u32,
    pub height: u32,
    pub title: String,
}

/// Settings of the engine as a whole.
#[derive(Clone, Debug)]
pub struct CSEngineConfig {
    pub width: i32,
    pub height: i32,
    /// Field of view in degrees.
    pub fov: Scalar,
    pub title: String,
    pub gl: GraphicsLibrary,
    pub capture_mouse: bool,
    pub debug_level: DebugLevel,
}

impl Default for OpenGL4_6Config {
    fn default() -> (c: OpenGL4_6Config)
        ensures
            c == (OpenGL4_6Config {  }),
    {
        OpenGL4_6Config {  }
    }
}

impl Default for OpenGLExtSupport {
    /// Nothing is taken to be supported before the context was asked.
    fn default() -> (s: OpenGLExtSupport)
        ensures
            s == (OpenGLExtSupport { supports_bindless: false }),
    {
        OpenGLExtSupport { supports_bindless: false }
    }
}

impl Default for CSEngineConfig {
    /// 1920 by 1080, a field of view of 45 degrees, the title "My Game",
    /// OpenGL 4.6, the mouse captured, full debug output.
    fn default() -> (c: CSEngineConfig)
        ensures
            c.width == 1920,
            c.height == 1080,
            c.fov == (Scalar { bits: FOV_45_BITS }),
            c.title@ == "My Game"@,
            c.gl == GraphicsLibrary::OpenGL4_6(
                OpenGL4_6Config {  },
                OpenGLExtSupport { supports_bindless: false },
            ),
            c.capture_mouse,
            c.debug_level == DebugLevel::High,
    {
        CSEngineConfig {
            width: 1920,
            height: 1080,
            fov: Scalar { bits: FOV_45_BITS },
            title: String::from_str("My Game"),
            gl: GraphicsLibrary::OpenGL4_6(
                OpenGL4_6Config {  },
                OpenGLExtSupport { supports_bindless: false },
            ),
            capture_mouse: true,
            debug_level: DebugLevel::High,
        }
    }
}

} // verus!
