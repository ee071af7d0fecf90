//! A verified interpreter core for a two-dimensional, self-modifying,
//! stack-based language in the Funge-98 family: a toroidal program grid,
//! instruction pointers with stacks of stacks, the full instruction set,
//! and the coordination protocol between pointers and their host.

pub mod arith;
pub mod arguments;
pub mod befunge;
pub mod data;
pub mod delta;
pub mod direction;
pub mod event;
pub mod grid;
pub mod text;
pub mod pointer;
pub mod stack;
pub mod state;
pub mod stackable;
pub mod vector;
