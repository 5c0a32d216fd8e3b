//! LilyPond Studio's library: the score library and its manager, the tutorial lessons, the
//! text work around a LilyPond render, and the studio's screen and preview state.
pub mod render;
pub mod scores;
pub mod studio;
pub mod text;
pub mod tutorial;
