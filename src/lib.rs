//! Window management and compositing core of a mobile Wayland compositor.
//!
//! The crate holds the decisions of the compositor: the damage history of each surface, the
//! staged geometry of each window, the registry of windows with its atomic transactions, and
//! the gesture state machine of the application overview. Rendering and protocol objects stay
//! with the caller, which hands the library plain values and carries out the actions it returns.

pub mod damage;
pub mod drawing;
pub mod geometry;
pub mod layer;
pub mod layout;
pub mod overview;
pub mod surface;
pub mod window;

pub use drawing::decoration_pixels;
pub use damage::{damage_for_buffer_age, has_damage, Damage, MAX_DAMAGE_AGE};
pub use layer::{Layer, Layers};
pub use geometry::{Output, Point, Rect, Rectangle, Size};
pub use layout::{overview_x_position, MAX_LAYOUT_DISTANCE};
pub use overview::{Direction, DropTarget, Overview, HOLD_DURATION_MS, MAX_WINDOWS};
pub use surface::{BufferChange, ImportStep, SurfaceBuffer, Transform};
pub use window::{
    Action, Arrangement, Transaction, Window, WindowModel, Windows, WindowsModel,
    MAX_TRANSACTION_DURATION_MS,
};
