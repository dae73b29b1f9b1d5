//! Global key and mouse bindings, and synthetic input, for a windowed desktop
//! application.
//!
//! The library holds the decisions: which key a symbolic name stands for,
//! what is registered for a key, what the handlers of a key do when it goes
//! down, what the hook subsystem is told, and which actions a request for
//! synthetic input consists of. The caller holds the devices: it asks the
//! operating system which keys are held, sends notifications to the front
//! end, sleeps, and injects input.

pub mod bind;
pub mod chord;
pub mod dispatch;
pub mod handler;
pub mod keys;
pub mod lifecycle;
pub mod registry;
pub mod seqs;
pub mod synth;
pub mod text;

pub use bind::{add_callback, bind_hold_key, bind_key, update_binds};
pub use lifecycle::{active_handle, update_handle};
pub use synth::{active_keys, enter_text, mouse_click, mouse_move};
