//! A terminal client for a Discourse forum, as far as it can be told
//! without a terminal or a network.
//!
//! The heart of the crate is what it takes to show the images of a post
//! between the lines of its text: `extract` finds the images in the markup,
//! `cache` knows which of them are stored and which are being fetched,
//! `placement` decides on which line each one is marked, `selection` and
//! `viewer` let the reader step through them and open one, and `render`
//! turns the markup into the lines that are shown.
//!
//! Around it, `state`, `transitions` and `app` hold the state of the client
//! and what each key does to it, `api` the addresses under which the forum is asked, `config` and
//! `keygen` the settings and the way to a user key, `widgets` the small
//! decisions of the screen. `scan` and `text` search bytes and characters,
//! `users` keeps the list of loaded users.
//!
//! Nothing here reads a file, waits for the network or draws: a function
//! that needs such work done says so in what it returns.

pub mod api;
pub mod app;
pub mod cache;
pub mod config;
pub mod error;
pub mod extract;
pub mod keygen;
pub mod placement;
pub mod render;
pub mod scan;
pub mod selection;
pub mod state;
pub mod text;
pub mod transitions;
pub mod users;
pub mod viewer;
pub mod widgets;
