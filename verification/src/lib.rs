//! The core of a panel applet that shows the addresses of the host's
//! network interfaces and its public address.
//!
//! Nothing here waits, reads or draws. The applet is a state and a function
//! that takes one event at a time ([`applet`]); the addresses come in as
//! plain records ([`addresses`]) and the answer of a lookup as a plain
//! outcome ([`public_ip`]); what the popup shows goes out as rows and
//! choices ([`view`]). The list of known interfaces keeps its order from one
//! listing to the next ([`reconcile`]).

pub mod addresses;
pub mod applet;
pub mod config;
pub mod names;
pub mod public_ip;
pub mod reconcile;
pub mod text;
pub mod view;
