//! A progress bar as a state machine. The caller owns the clock and the
//! terminal: it passes the time in, and carries out the draw commands that
//! come back.

pub mod draw_target;
pub mod estimate;
pub mod progress_bar;
pub mod style;

pub use draw_target::{
    DrawCommand, MultiProgressAlignment, ProgressDrawState, ProgressDrawTarget, TermStream,
};
pub use estimate::Estimate;
pub use progress_bar::{ProgressBar, Status, SteadyTick, TickOutcome};
pub use style::{ProgressFinish, ProgressStyle};
