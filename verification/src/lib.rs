//! Core of a four-dimensional polytope editor: the indexed mesh with its
//! selection state, the editing operations that keep edge indices valid, the
//! manipulator state machine, nearest-hit selection and the persisted byte
//! layout.
//!
//! Coordinates, angles and distances are carried as IEEE-754 binary64 bit
//! patterns (`u64`). The library moves and compares them; arithmetic on them is
//! the caller's business.

pub mod angle;
pub mod axes;
pub mod button;
pub mod bytes;
pub mod camera;
pub mod deletion;
pub mod edge;
pub mod editing;
pub mod error;
pub mod events;
pub mod import;
pub mod laws;
pub mod object;
pub mod picking;
pub mod pointer;
pub mod roundtrip;
pub mod save;
pub mod scalar;
pub mod selection;
pub mod vector;
pub mod window;

pub use angle::Angle;
pub use axes::{Axes, MotionAxes};
pub use button::{Align, Button, ButtonType, CheckButton, ClickButton};
pub use camera::Camera;
pub use edge::Edge;
pub use error::{Error, ImportError};
pub use events::{
    catch_keyboard_event, copy_event, delete_event, extrude_event, fill_event,
    get_selected_points, paste_event, Command, Keys,
};
pub use import::{cut, cut_float, cut_u64, deserialize_u64_from_bytes, open_4dp, DData};
pub use object::{Cell, Face, Object};
pub use pointer::{
    catch_hover, catch_mouse_event, click_button, click_edge, click_vertex, drag_event,
    get_enabled_buttons_count, lmb_click_event, lmb_down_event, lmb_up_event, mouse_move_event,
    mouse_up_event, rmb_down_event, update_buttons, DragMode, MousePhase, MouseState,
    CLICK_TIMEOUT, CUR_TRANSFORM_TO,
};
pub use picking::{find_closest_edge, find_closest_vertice, nearest, MAX_DIST};
pub use save::{save, SData, MAGIC};
pub use vector::Vec4f;
pub use window::{HintAlign, HintArea, ALIGN, WINDOWS};
