//! A snake game on a character grid, as a verified state machine.
//!
//! The library holds the rules of the game: how a key press steers the
//! snake, where food may appear, what one tick does to the snake, and which
//! cells of the screen a tick changes. It never touches a terminal; a caller
//! feeds it key symbols and performs the cell operations it hands back.
//!
//! A caller sets up a [`game::Game`] for the size of its screen, draws
//! [`game::Game::initial_render`], and then calls [`game::Game::tick`] with
//! the keys that arrived in the meantime, again and again, until a tick
//! reports why the game ended. The snake's length is then the score.
//!
//! - [`grid`]: cells and headings;
//! - [`input`]: from keys to headings;
//! - [`snake`]: the body of the snake;
//! - [`food`]: where food may appear;
//! - [`render`]: what to redraw after a tick;
//! - [`game`]: the state of a game and its tick.

pub mod grid;
pub mod input;
pub mod snake;
pub mod food;
pub mod render;
pub mod game;
