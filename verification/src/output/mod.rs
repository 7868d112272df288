//! Output: the logo and the spinner's palette.
pub mod logo;
pub mod spinner;
