//! The read-only snapshot of the player that status properties read.
use crate::numbers::{decimal, push_decimal};
use crate::song::Song;
use crate::text::{join, joined, push_char, views};
use vstd::prelude::*;

verus! {

/// Whether the player plays.
#[derive(Debug, Clone, Copy, PartialEq, Eq)]
pub enum State {
    Play,
    Stop,
    Pause,
}

/// A switch that, besides on and off, can be on for one song only.
#[derive(Debug, Clone, Copy, PartialEq, Eq)]
pub enum OnOffOneshot {
    On,
    Off,
    Oneshot,
}

/// The loudness in percent.
#[derive(Debug, Clone, Copy, PartialEq, Eq)]
pub struct Volume {
    percent: u8,
}

impl Volume {
    /// The loudness in percent, at most 100.
    pub closed spec fn level(&self) -> nat {
        if self.percent <= 100 {
            self.percent as nat
        } else {
            100
        }
    }

    /// The loudness `value`, lowered to 100 where it is above.
    pub fn new(value: u8) -> (r: Volume)
        ensures
            r.level() == (if value <= 100 {
                value as nat
            } else {
                100
            }),
    {
        Volume { percent: if value <= 100 { value } else { 100 } }
    }

    /// The loudness in percent.
    pub fn value(&self) -> (r: u8)
        ensures
            r == self.level(),
            r <= 100,
    {
        if self.percent <= 100 {
            self.percent
        } else {
            100
        }
    }
}

/// What the player last reported of itself. Durations are in milliseconds.
#[derive(Debug, Clone, PartialEq, Eq)]
pub struct Status {
    pub volume: Volume,
    pub repeat: bool,
    pub random: bool,
    pub single: OnOffOneshot,
    pub consume: OnOffOneshot,
    pub state: State,
    /// The identifier of the song that plays, where one does.
    pub songid: Option<u32>,
    pub elapsed: u64,
    pub duration: u64,
    pub bitrate: Option<u32>,
    pub xfade: Option<u32>,
}

impl Default for Status {
    fn default() -> (r: Status)
        ensures
            r.volume.level() == 0,
            !r.repeat,
            !r.random,
            r.single == OnOffOneshot::Off,
            r.consume == OnOffOneshot::Off,
            r.state == State::Stop,
            r.songid is None,
            r.elapsed == 0,
            r.duration == 0,
            r.bitrate is None,
            r.xfade is None,
    {
        Status {
            volume: Volume::new(0),
            repeat: false,
            random: false,
            single: OnOffOneshot::Off,
            consume: OnOffOneshot::Off,
            state: State::Stop,
            songid: None,
            elapsed: 0,
            duration: 0,
            bitrate: None,
            xfade: None,
        }
    }
}

/// The playing time of `queue` from position `from` on, in milliseconds. A song
/// of unknown duration counts as nothing.
pub open spec fn queue_millis(queue: Seq<Song>, from: int) -> nat
    decreases queue.len() - from,
{
    if from < 0 || from >= queue.len() {
        0
    } else {
        (match queue[from].duration {
            Some(d) => d as nat,
            None => 0,
        }) + queue_millis(queue, from + 1)
    }
}

/// `n`, or the largest `u64` where `n` is above it.
pub open spec fn capped(n: nat) -> nat {
    if n <= u64::MAX {
        n
    } else {
        u64::MAX as nat
    }
}

/// The playing time of `queue` from position `from` on, in milliseconds, held
/// at the largest `u64` where the sum is above it.
pub fn queue_time(queue: &Vec<Song>, from: usize) -> (r: u64)
    ensures
        r == capped(queue_millis(queue@, from as int)),
{
    if from >= queue.len() {
        return 0;
    }
    let mut total: u64 = 0;
    let mut i: usize = queue.len();
    while i > from
        invariant
            from <= i <= queue.len(),
            total == capped(queue_millis(queue@, i as int)),
        decreases i,
    {
        i -= 1;
        let d: u64 = match queue[i].duration {
            Some(d) => d,
            None => 0,
        };
        total = total.saturating_add(d);
    }
    total
}

/// The position in `queue` of the first song with identifier `id`, or the length
/// of the queue where there is none.
pub open spec fn position_of_id(queue: Seq<Song>, id: u32, from: int) -> int
    decreases queue.len() - from,
{
    if from < 0 || from >= queue.len() {
        queue.len() as int
    } else if queue[from].id == id {
        from
    } else {
        position_of_id(queue, id, from + 1)
    }
}

/// The position in `queue` of the song that plays, where one of the queue does.
pub open spec fn current_position(queue: Seq<Song>, songid: Option<u32>) -> Option<int> {
    match songid {
        Some(id) => if position_of_id(queue, id, 0) < queue.len() {
            Some(position_of_id(queue, id, 0))
        } else {
            None
        },
        None => None,
    }
}

/// The parts of a length of time of `secs` seconds: the days, hours and minutes
/// that are not zero, each with its unit letter, and the seconds.
pub open spec fn duration_parts(secs: nat) -> Seq<Seq<char>> {
    let days = secs / 86400;
    let hours = (secs % 86400) / 3600;
    let minutes = (secs % 3600) / 60;
    let seconds = secs % 60;
    (if days > 0 {
        seq![decimal(days).push('d')]
    } else {
        Seq::empty()
    }) + (if hours > 0 {
        seq![decimal(hours).push('h')]
    } else {
        Seq::empty()
    }) + (if minutes > 0 {
        seq![decimal(minutes).push('m')]
    } else {
        Seq::empty()
    }) + seq![decimal(seconds).push('s')]
}

/// The text of a length of time of `millis` milliseconds: its parts with
/// `separator` between them.
pub open spec fn duration_text(millis: nat, separator: Seq<char>) -> Seq<char> {
    joined(duration_parts(millis / 1000), separator)
}

fn unit_string(n: u64, unit: char) -> (r: String)
    ensures
        r@ == decimal(n as nat).push(unit),
{
    let mut out = String::new();
    push_decimal(&mut out, n);
    push_char(&mut out, unit);
    assert(Seq::<char>::empty() + decimal(n as nat) == decimal(n as nat));
    out
}

/// Writes a length of time of `millis` milliseconds in days, hours, minutes and
/// seconds, leaving out the larger units that are zero.
pub fn format_to_duration(millis: u64, separator: &str) -> (r: String)
    ensures
        r@ == duration_text(millis as nat, separator@),
{
    let secs: u64 = millis / 1000;
    let days: u64 = secs / 86400;
    let hours: u64 = (secs % 86400) / 3600;
    let minutes: u64 = (secs % 3600) / 60;
    let seconds: u64 = secs % 60;
    let mut parts: Vec<String> = Vec::new();
    if days > 0 {
        parts.push(unit_string(days, 'd'));
    }
    if hours > 0 {
        parts.push(unit_string(hours, 'h'));
    }
    if minutes > 0 {
        parts.push(unit_string(minutes, 'm'));
    }
    parts.push(unit_string(seconds, 's'));
    assert(views(parts@) == duration_parts(secs as nat));
    join(&parts, separator)
}

} // verus!
