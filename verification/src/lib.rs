pub mod config;
pub mod error;
pub mod framed;
pub mod game_object;
pub mod geometry_buffer;
pub mod info_block;
pub mod scalar;
pub mod scene;
pub mod slot_laws;
pub mod traversal;
pub mod widget;
pub mod widget_quad;

pub use config::{
    CSEngineConfig, DebugLevel, GraphicsLibrary, MainThreadEvent, OpenGL4_6Config,
    OpenGLExtSupport, WindowConfig,
};
pub use error::EngineError;
pub use game_object::{GameObject, Placement3};
pub use geometry_buffer::GeometryBuffer;
pub use info_block::{PrimitiveType, BLOCK_SIZE};
pub use scalar::{Mat4, Placement, Quat, Scalar, Vec2, Vec3, Vec4};
pub use scene::Widget2dScene;
pub use widget::{
    BackgroundWidget, BorderWidget, ContainerWidget, Inset, PictureWidget, TextWidget,
    TextureHandle, TextureWidget, Widget, WidgetKind,
};
pub use widget_quad::{create_wquad, Vertex, WQuad};
