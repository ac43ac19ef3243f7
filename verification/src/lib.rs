//! A stopwatch that cycles through three states on a single trigger, the text
//! it shows for an elapsed time, and the step of the loop that applies one
//! polled input and produces the frame to draw.

pub mod clock;
pub mod elapsed;
pub mod event_loop;
pub mod input;
pub mod stopwatch;
pub mod wall_clock;
