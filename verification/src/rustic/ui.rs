//! The decisions of the terminal interface: how keys move between workers
//! and graphs, and the figures the statistics panels show.
use vstd::prelude::*;
use crate::rustic::stats::Stats;

verus! {

/// A key the user pressed, as far as the interface reacts to it.
#[derive(Debug, Clone, Copy, PartialEq, Eq, Structural)]
pub enum Key {
    Char(char),
    Left,
    Right,
    Other,
}

/// Which worker's statistics and which graph tab the interface shows.
#[derive(Debug, Clone, Copy, PartialEq, Eq, Structural)]
pub struct Navigation {
    pub nb_threads: u8,
    pub threads_stats_idx: usize,
    pub tab_index: usize,
}

/// The position of the worker shown after a press of `l` (the previous
/// worker, wrapping to the last one).
pub open spec fn previous_worker(idx: usize, nb_threads: u8) -> usize {
    if idx >= 1 {
        (idx - 1) as usize
    } else {
        (nb_threads - 1) as usize
    }
}

/// The position of the worker shown after a press of `r` (the next worker,
/// wrapping to the first one).
pub open spec fn next_worker(idx: usize, nb_threads: u8) -> usize {
    if idx + 1 < nb_threads {
        (idx + 1) as usize
    } else {
        0
    }
}

/// The navigation after a key press.
pub open spec fn spec_handle_key(n: Navigation, key: Key) -> Navigation {
    if key == Key::Char('l') {
        Navigation { threads_stats_idx: previous_worker(n.threads_stats_idx, n.nb_threads), ..n }
    } else if key == Key::Char('r') {
        Navigation { threads_stats_idx: next_worker(n.threads_stats_idx, n.nb_threads), ..n }
    } else if key == Key::Left {
        Navigation { tab_index: if n.tab_index == 0 { 1 } else { 0 }, ..n }
    } else if key == Key::Right {
        Navigation { tab_index: if n.tab_index == 1 { 0 } else { 1 }, ..n }
    } else {
        n
    }
}

/// Whether a key press can be handled: moving back from the first worker
/// needs at least one worker, and moving on needs a position below the
/// largest size.
pub open spec fn key_allowed(n: Navigation, key: Key) -> bool {
    &&& (key == Key::Char('l') && n.threads_stats_idx == 0) ==> n.nb_threads > 0
    &&& key == Key::Char('r') ==> n.threads_stats_idx < usize::MAX
}

impl Navigation {
    /// The interface of `nb_threads` workers, showing the first worker and
    /// the coverage graph.
    pub fn new(nb_threads: u8) -> (r: Self)
        ensures
            r == (Navigation { nb_threads, threads_stats_idx: 0, tab_index: 0 }),
    {
        Navigation { nb_threads, threads_stats_idx: 0, tab_index: 0 }
    }

    /// Reacts to a key press: `q` asks to quit, `l` and `r` show the
    /// previous and next worker, the arrows switch the graph tab.
    pub fn handle_key(&mut self, key: Key) -> (quit: bool)
        requires
            key_allowed(*old(self), key),
        ensures
            quit == (key == Key::Char('q')),
            *final(self) == spec_handle_key(*old(self), key),
    {
        if key == Key::Char('q') {
            return true;
        }
        if key == Key::Char('l') {
            self.threads_stats_idx = if self.threads_stats_idx >= 1 {
                self.threads_stats_idx - 1
            } else {
                (self.nb_threads - 1) as usize
            };
        } else if key == Key::Char('r') {
            self.threads_stats_idx = if self.threads_stats_idx + 1 < self.nb_threads as usize {
                self.threads_stats_idx + 1
            } else {
                0
            };
        } else if key == Key::Left {
            self.tab_index = if self.tab_index == 0 { 1 } else { 0 };
        } else if key == Key::Right {
            self.tab_index = if self.tab_index == 1 { 0 } else { 1 };
        }
        false
    }
}

/// Whatever key is pressed, the worker shown stays one of the workers and
/// the graph tab stays one of the two tabs.
pub proof fn lemma_navigation_stays_in_range(n: Navigation, key: Key)
    requires
        n.threads_stats_idx < n.nb_threads,
        n.tab_index < 2,
        key_allowed(n, key),
    ensures
        spec_handle_key(n, key).threads_stats_idx < n.nb_threads,
        spec_handle_key(n, key).tab_index < 2,
        spec_handle_key(n, key).nb_threads == n.nb_threads,
{
}

/// Moving to the previous worker and then to the next one shows the worker
/// shown before, and so does the converse.
pub proof fn lemma_previous_then_next_worker(n: Navigation)
    requires
        n.threads_stats_idx < n.nb_threads,
    ensures
        spec_handle_key(spec_handle_key(n, Key::Char('l')), Key::Char('r')) == n,
        spec_handle_key(spec_handle_key(n, Key::Char('r')), Key::Char('l')) == n,
{
    assert(Key::Char('l') != Key::Char('r'));
}

/// Pressing an arrow twice shows the tab shown before.
pub proof fn lemma_tab_switch_twice(n: Navigation, key: Key)
    requires
        n.tab_index < 2,
        key == Key::Left || key == Key::Right,
    ensures
        spec_handle_key(spec_handle_key(n, key), key) == n,
{
}

/// A number of seconds as the interface shows it: the whole days, whole
/// hours, whole minutes and whole seconds it amounts to (each counted on
/// its own, not as the remainder of the larger unit).
pub fn duration_parts(secs: u64) -> (r: (u64, u64, u64, u64))
    requires
        secs <= i64::MAX,
    ensures
        r == (secs / 86400, secs / 3600, secs / 60, secs),
{
    (secs / 86400, secs / 3600, secs / 60, secs)
}

/// The points the graphs gain on a refresh: the coverage size and the
/// crashes per second at the current running time; none before the first
/// second, when the rate cannot be computed.
pub fn graph_points(stats: &Stats) -> (r: Option<((u64, u64), (u64, u64))>)
    ensures
        stats.time_running == 0 ==> r is None,
        stats.time_running > 0 ==> r == Some((
            (stats.time_running, stats.coverage_size),
            (stats.time_running, (stats.crashes / stats.time_running) as u64),
        )),
{
    if stats.time_running == 0 {
        return None;
    }
    Some(((stats.time_running, stats.coverage_size), (stats.time_running, stats.crashes / stats.time_running)))
}

} // verus!
