//! What the host hands to panes: events, input and the results of queries.
use crate::preview::PreviewGroup;
use crate::song::Song;
use crate::style::Line;
use ratatui::layout::{Alignment, Rect};
use vstd::prelude::*;

verus! {

/// A notification that some state outside the panes has changed.
#[derive(Debug, Clone, PartialEq, Eq)]
pub enum UiEvent {
    Player,
    Database,
    Output,
    StoredPlaylist,
    Resized { columns: u16, rows: u16 },
    SongChanged,
    Reconnected,
    TabChanged(String),
    ConfigChanged,
    PlaybackStateChanged,
    Exit,
}

/// What a key stroke asks for, once the key bindings have been applied.
#[derive(Debug, Clone, Copy, PartialEq, Eq)]
pub enum CommonAction {
    Up,
    Down,
    Left,
    Right,
    Top,
    Bottom,
    PageUp,
    PageDown,
    Confirm,
    Close,
    Select,
    Add,
    Delete,
    Rename,
    EnterSearch,
    NextResult,
    PreviousResult,
    FocusInput,
}

/// A key stroke on its way through the panes.
#[derive(Debug, Clone, PartialEq, Eq)]
pub struct KeyEvent {
    /// The action that the key is bound to, if any.
    pub action: Option<CommonAction>,
    /// Set by a pane that has taken the key, so that no other pane acts on it.
    pub stop_propagation: bool,
}

/// The kind of a mouse event.
#[derive(Debug, Clone, Copy, PartialEq, Eq)]
pub enum MouseEventKind {
    LeftClick,
    MiddleClick,
    RightClick,
    DoubleClick,
    ScrollUp,
    ScrollDown,
}

/// A mouse event at a cell of the screen.
#[derive(Debug, Clone, Copy, PartialEq, Eq)]
pub struct MouseEvent {
    pub x: u16,
    pub y: u16,
    pub kind: MouseEventKind,
}

/// The result of a query that a pane had sent to the player.
#[derive(Debug, Clone, PartialEq, Eq)]
pub enum MpdQueryResult {
    Songs(Vec<Song>),
    Preview(Option<Vec<PreviewGroup>>),
    Lyrics(Option<String>),
    AlbumArt(Option<Vec<u8>>),
    Names(Vec<String>),
}

/// What a frame is to be drawn of: the lines that panes have put on it, each
/// with the area it goes to and its alignment, in the order in which they came.
#[derive(Debug, PartialEq, Eq)]
pub struct Frame {
    pub area: Rect,
    pub lines: Vec<(Rect, Alignment, Line)>,
}

impl Frame {
    /// An empty frame over `area`.
    pub fn new(area: Rect) -> (r: Frame)
        ensures
            r.area == area,
            r.lines@.len() == 0,
    {
        Frame { area, lines: Vec::new() }
    }

    /// Puts `line` on the frame, to be drawn in `area`.
    pub fn render_line(&mut self, line: Line, alignment: Alignment, area: Rect)
        ensures
            final(self).area == old(self).area,
            final(self).lines@ == old(self).lines@.push((area, alignment, line)),
    {
        self.lines.push((area, alignment, line));
    }
}

} // verus!
