//! A miniature golf course on a fixed grid: the course and its occupancy
//! index, the compact text form of a course, the click-driven editor, and the
//! discrete decisions of the ball's collision step.

pub mod alphabet;
pub mod codec;
pub mod course;
pub mod grid;
pub mod object;
pub mod physics;
pub mod placement;
