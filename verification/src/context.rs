//! What every resolution and every pane is handed: the state of the player, the
//! queue and the configuration, as they stood when the frame began.
use crate::layout::SizedPaneOrSplit;
use crate::song::{Song, TagResolutionStrategy};
use crate::status::{current_position, position_of_id, Status};
use crate::text::SymbolsConfig;
use vstd::prelude::*;

verus! {

/// A configured tab: its name and its layout.
#[derive(Debug)]
pub struct Tab {
    pub name: String,
    pub panes: SizedPaneOrSplit,
}

/// The loaded configuration.
#[derive(Debug)]
pub struct Config {
    pub tabs: Vec<Tab>,
    pub symbols: SymbolsConfig,
    /// What stands between the values of a tag that are shown together.
    pub format_tag_separator: String,
    /// How a tag with several values is shown.
    pub multiple_tag_resolution_strategy: TagResolutionStrategy,
}

/// The snapshot that a frame works on. Nothing that receives it changes it.
#[derive(Debug)]
pub struct AppContext {
    pub status: Status,
    pub queue: Vec<Song>,
    /// The name of the tab that is shown.
    pub active_tab: String,
    /// For how many milliseconds a scan of the music directory has been under
    /// way, where one is.
    pub db_update_elapsed: Option<u64>,
    pub config: Config,
}

impl AppContext {
    /// The position in the queue of the song that plays, and the song, where the
    /// player reports one and the queue holds it.
    pub fn find_current_song_in_queue(&self) -> (r: Option<(usize, &Song)>)
        ensures
            match r {
                Some((i, song)) => current_position(self.queue@, self.status.songid) == Some(
                    i as int,
                ) && i < self.queue@.len() && *song == self.queue@[i as int],
                None => current_position(self.queue@, self.status.songid) is None,
            },
    {
        match self.status.songid {
            None => None,
            Some(id) => {
                let mut i: usize = 0;
                while i < self.queue.len()
                    invariant
                        i <= self.queue@.len(),
                        self.status.songid == Some(id),
                        position_of_id(self.queue@, id, 0) == position_of_id(
                            self.queue@,
                            id,
                            i as int,
                        ),
                    decreases self.queue.len() - i,
                {
                    if self.queue[i].id == id {
                        assert(position_of_id(self.queue@, id, i as int) == i);
                        assert(current_position(self.queue@, self.status.songid) == Some(
                            i as int,
                        ));
                        return Some((i, &self.queue[i]));
                    }
                    i += 1;
                }
                None
            },
        }
    }
}

} // verus!
