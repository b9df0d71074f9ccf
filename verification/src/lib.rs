//! A directory lister: classifies the entries of a directory, orders them,
//! renders their size, date and permissions, and lays the labels out as lines
//! or as a grid that fits the terminal.

pub mod arguments;
pub mod color;
pub mod entries;
pub mod grid;
pub mod print;
pub mod style;
pub mod terminal_info;
pub mod text;
