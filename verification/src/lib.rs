//! Finding the application that holds the keyboard focus on an X11 display.
//!
//! The library decides and the program around it talks to the display
//! server. A [`client::X11Client`] starts an operation with `connect`,
//! `supported` or `current_application` and hands out a
//! [`protocol::Action`]. The program carries the action out, tells the
//! client what came of it as a [`protocol::Event`] through `advance`, and
//! gets the next action, until the action is `Done` and holds the
//! [`protocol::Outcome`].
//!
//! [`machine`] states what the client does at each step, [`world`] and
//! [`runs`] what that comes to against a server that answers, and [`laws`]
//! what holds of every such run.

pub mod client;
pub mod laws;
pub mod machine;
pub mod protocol;
pub mod runs;
pub mod world;
