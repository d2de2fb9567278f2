//! A bridge between a platform text-input (IME) facility and editable text
//! views whose content is addressed internally by characters rather than by
//! UTF-16 code units.
//!
//! The library has three layers:
//!
//! * [`utf16`] and [`model`]: the mathematical model — UTF-16 code-unit
//!   accounting over character sequences, boundary snapping, and the
//!   state transitions of an editable view (selection, composition).
//! * [`handler::ViewInputHandler`]: the capability contract an editable view
//!   must satisfy, with each operation specified against the model, and
//!   [`handler::ElementInputHandler`], the per-paint-cycle adapter that
//!   forwards platform calls to a view and supplies element bounds.
//! * [`text_view::TextView`]: a capability-conforming view that implements
//!   boundary adjustment and the marked-text state machine, verified against
//!   the contract.
//!
//! [`laws`] states and proves the properties the model guarantees.

pub mod geometry;
pub mod handler;
pub mod laws;
pub mod model;
pub mod range;
pub mod text_view;
pub mod utf16;
