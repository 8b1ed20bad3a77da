//! Rendering and state core of a terminal music player client: resolution of
//! formats into text and styled spans, partition of a configured layout tree
//! into screen rectangles, and the registry of long-lived panes.
pub mod context;
pub mod events;
pub mod layout;
pub mod lines;
pub mod numbers;
pub mod ordering;
pub mod panes;
pub mod preview;
pub mod property;
pub mod song;
pub mod spans;
pub mod status;
pub mod style;
pub mod tagmap;
pub mod text;
pub mod walk;
