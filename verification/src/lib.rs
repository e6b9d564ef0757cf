//! A verified library for a mercenary contract board: the rules that govern
//! contracts (posting, accepting, withdrawing, handing over command,
//! commenting, expiry) and the HTML that the board shows.

pub mod text;
pub mod force;
pub mod contract;
pub mod templates;
pub mod units;
pub mod render;
pub mod posting;
pub mod pages;
pub mod clock;
pub mod expiry;
pub mod laws;

pub use clock::current_unix_timestamp;
pub use force::format_force;
pub use render::{render_board, render_contract};
