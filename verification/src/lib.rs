//! Core of a grid-based snake game: a snake advances one cell per tick over a
//! bounded board, grows when it swallows an apple, and dies on wall or
//! self-collision. The tick simulation, apple spawning and the character-grid
//! rendering are verified; windowing, keyboard polling and stdout live in the
//! surrounding driver.

pub mod game;
pub mod print_rendering;
pub mod snake;
