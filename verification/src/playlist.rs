//! Music playlist bookkeeping: which track plays next, never the same track twice in
//! a row, and when the playlist has been played through and is reshuffled.

use vstd::prelude::*;

verus! {

/// Position in a playlist of `len` tracks.
pub struct PlaylistCursor {
    pub current_index: usize,
    pub last_played: Option<usize>,
    pub len: usize,
}

impl PlaylistCursor {
    /// The cursor points at a track.
    pub open spec fn valid(&self) -> bool {
        self.len > 0 ==> self.current_index < self.len
    }

    /// A cursor at the first of `len` tracks, nothing played yet.
    pub fn new(len: usize) -> (r: Self)
        ensures
            r.valid(),
            r.current_index == 0,
            r.last_played.is_none(),
            r.len == len,
    {
        PlaylistCursor { current_index: 0, last_played: None, len }
    }

    /// The track to enqueue next: the current one, skipped over when it was the track
    /// played last and there is another. None for an empty playlist.
    pub fn track_to_enqueue(&mut self) -> (r: Option<usize>)
        requires
            old(self).valid(),
        ensures
            final(self).valid(),
            final(self).len == old(self).len,
            final(self).last_played == old(self).last_played,
            old(self).len == 0 ==> r.is_none() && final(self).current_index == old(self).current_index,
            old(self).len > 0 ==> r == Some(final(self).current_index),
            old(self).len > 0 ==> final(self).current_index == (if old(self).last_played == Some(
                old(self).current_index,
            ) && old(self).len > 1 {
                (old(self).current_index + 1) % old(self).len as int
            } else {
                old(self).current_index as int
            }),
            old(self).len > 1 ==> Some(final(self).current_index) != old(self).last_played,
    {
        if self.len == 0 {
            return None;
        }
        match self.last_played {
            Some(last) => {
                if self.current_index == last && self.len > 1 {
                    proof {
                        let c = self.current_index as int;
                        let n = self.len as int;
                        if c + 1 < n {
                            vstd::arithmetic::div_mod::lemma_small_mod((c + 1) as nat, n as nat);
                        } else {
                            vstd::arithmetic::div_mod::lemma_mod_self_0(n);
                        }
                    }
                    self.current_index = (self.current_index + 1) % self.len;
                }
            },
            None => {},
        }
        Some(self.current_index)
    }

    /// Record that the current track was enqueued.
    pub fn mark_played(&mut self)
        ensures
            final(self).last_played == Some(old(self).current_index),
            final(self).current_index == old(self).current_index,
            final(self).len == old(self).len,
    {
        self.last_played = Some(self.current_index);
    }

    /// Move past a finished track; returns true when the playlist is exhausted, in
    /// which case the cursor goes back to the first track and the caller reshuffles.
    pub fn advance(&mut self) -> (exhausted: bool)
        requires
            old(self).valid(),
            old(self).current_index < usize::MAX,
        ensures
            final(self).valid(),
            final(self).len == old(self).len,
            final(self).last_played == old(self).last_played,
            exhausted == (old(self).current_index + 1 >= old(self).len),
            exhausted ==> final(self).current_index == 0,
            !exhausted ==> final(self).current_index == old(self).current_index + 1,
    {
        self.current_index = self.current_index + 1;
        if self.current_index >= self.len {
            self.current_index = 0;
            true
        } else {
            false
        }
    }
}

} // verus!
