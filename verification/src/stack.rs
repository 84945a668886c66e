//! The stack layouter: lines of boxes stacked from the top of areas into
//! pages.
//!
//! The layouter is a state machine. `StackState` is its state as a
//! mathematical value and the functions on it are its transitions; the
//! executable `StackLayouter` follows them step by step.

pub mod state;
pub mod proofs;
pub mod layouter;
pub mod laws;

pub use layouter::{line_views, views, StackLayouter};
pub use laws::{
    flush_without_line, page_extent_bounded, pages_stay_regular, regular_pages_stay_in_frame,
    spill_keeps_page,
};
pub use state::{
    entry_pos, frame_from, line_contained, line_depth, line_dim, line_height, line_wf,
    line_width, page_dim, set_line, stays_in, Line, PageTrace, StackOptions, StackState,
};
