//! A simple queue for several audio sources, designed to play in
//! sequence.
//!
//! The queue decides; it does not touch the mixer itself. Each operation
//! returns the handle (or handles) that the caller must act on - play,
//! pause or stop through the driver - so the queue's critical section
//! stays free of any suspending work. Two lifecycle hooks drive gapless
//! playback: [`TrackQueueCore::on_track_end`] pops the finished head and
//! names the next track to start, and [`TrackQueueCore::preload_target`]
//! names the track to make playable shortly before the head runs out.
use vstd::prelude::*;

verus! {

use std::collections::VecDeque;

/// Milliseconds before a track's reported end at which the next track is
/// made playable for a gapless hand-over.
pub const PRELOAD_LEAD_MS: u64 = 5000;

/// A cheap, copyable reference to one track: its identity. The driver
/// resolves a handle to the track it names by UUID; handles never hold a
/// back-edge into the mixer.
#[derive(Clone, Copy, Debug, PartialEq, Eq, Structural)]
pub struct TrackHandle {
    /// The UUID of the track this handle names.
    pub uuid: u128,
}

/// Reference to a track which is known to be part of a queue.
///
/// Instances *should not* be moved from one queue to another.
#[derive(Clone, Copy, Debug, PartialEq, Eq, Structural)]
pub struct Queued(pub TrackHandle);

impl Queued {
    /// Clones the inner handle.
    pub fn handle(&self) -> (r: TrackHandle)
        ensures
            r == self.0,
    {
        self.0
    }
}

/// What adding a track asks of the caller: whether to start it at once
/// (it became the head of an empty queue), and when to fire the gapless
/// preload for the track after it, in milliseconds into its playback.
pub struct AddOutcome {
    /// True exactly when the queue was empty, so the new head should play.
    pub should_play: bool,
    /// `Some(at)` when the track's length was known: make the next track
    /// playable `at` milliseconds in (its length less the preload lead,
    /// never negative).
    pub preload_at: Option<u64>,
}

/// Inner portion of a track queue: the FIFO itself, free of any lock.
/// Two invariants hold by protocol: at most one queued track is playing,
/// and the head of the queue is the currently playing track.
pub struct TrackQueueCore {
    tracks: VecDeque<Queued>,
}

impl TrackQueueCore {
    /// The queued handles, oldest first.
    pub closed spec fn view(self) -> Seq<Queued> {
        self.tracks@
    }

    /// Create a new, empty, track queue.
    pub fn new() -> (r: Self)
        ensures
            r@ =~= Seq::<Queued>::empty(),
    {
        TrackQueueCore { tracks: VecDeque::new() }
    }

    /// Add a track handle to the back of the queue.
    ///
    /// `length_ms` is the track's metadata-reported length, if known; from
    /// it comes the preload point for the following track. The caller
    /// should start the track exactly when `should_play` says so.
    pub fn add_raw(&mut self, handle: TrackHandle, length_ms: Option<u64>) -> (r: AddOutcome)
        ensures
            final(self)@ == old(self)@.push(Queued(handle)),
            r.should_play == (old(self)@.len() == 0),
            match length_ms {
                Some(len) => r.preload_at == Some(
                    if len >= PRELOAD_LEAD_MS {
                        (len - PRELOAD_LEAD_MS) as u64
                    } else {
                        0u64
                    },
                ),
                None => r.preload_at is None,
            },
    {
        let should_play = self.tracks.len() == 0;
        let preload_at = match length_ms {
            Some(len) => Some(
                if len >= PRELOAD_LEAD_MS {
                    len - PRELOAD_LEAD_MS
                } else {
                    0
                },
            ),
            None => None,
        };
        self.tracks.push_back(Queued(handle));
        AddOutcome { should_play, preload_at }
    }

    /// Returns a handle to the currently playing track: the queue's head.
    pub fn current(&self) -> (r: Option<TrackHandle>)
        ensures
            self@.len() == 0 ==> r is None,
            self@.len() > 0 ==> r == Some(self@[0].0),
    {
        if self.tracks.len() > 0 {
            Some(self.tracks[0].handle())
        } else {
            None
        }
    }

    /// Inserts a queued handle at `index`, or at the back when `index`
    /// is past the end. Together with [`Self::dequeue`] this reorders the
    /// queue freely: remove an entry, re-insert it anywhere. The caller
    /// re-checks afterwards which track should be playing.
    pub fn insert(&mut self, index: usize, queued: Queued)
        ensures
            index <= old(self)@.len() ==> final(self)@ == old(self)@.insert(
                index as int,
                queued,
            ),
            index > old(self)@.len() ==> final(self)@ == old(self)@.push(queued),
    {
        if index <= self.tracks.len() {
            self.tracks.insert(index, queued);
        } else {
            self.tracks.push_back(queued);
        }
    }

    /// Attempts to remove a track from the specified index, for user-driven
    /// reordering or deletion. The caller must stop a removed track itself
    /// if it should not keep playing.
    pub fn dequeue(&mut self, index: usize) -> (r: Option<Queued>)
        ensures
            index < old(self)@.len() ==> r == Some(old(self)@[index as int]) && final(self)@
                == old(self)@.remove(index as int),
            index >= old(self)@.len() ==> r is None && final(self)@ == old(self)@,
    {
        if index < self.tracks.len() {
            self.tracks.remove(index)
        } else {
            None
        }
    }

    /// Returns the number of tracks currently in the queue.
    pub fn len(&self) -> (r: usize)
        ensures
            r == self@.len(),
    {
        self.tracks.len()
    }

    /// Returns whether there are no tracks currently in the queue.
    pub fn is_empty(&self) -> (r: bool)
        ensures
            r == (self@.len() == 0),
    {
        self.tracks.len() == 0
    }

    /// Names the head of the queue so the caller can pause it. The queue
    /// itself does not change.
    pub fn pause(&self) -> (r: Option<TrackHandle>)
        ensures
            self@.len() == 0 ==> r is None,
            self@.len() > 0 ==> r == Some(self@[0].0),
    {
        self.current()
    }

    /// Names the head of the queue so the caller can resume it. The queue
    /// itself does not change.
    pub fn resume(&self) -> (r: Option<TrackHandle>)
        ensures
            self@.len() == 0 ==> r is None,
            self@.len() > 0 ==> r == Some(self@[0].0),
    {
        self.current()
    }

    /// Clears the queue, returning every removed handle in order so the
    /// caller can stop each one.
    pub fn stop(&mut self) -> (r: Vec<TrackHandle>)
        ensures
            final(self)@ =~= Seq::<Queued>::empty(),
            r@.len() == old(self)@.len(),
            forall|i: int| 0 <= i < r@.len() ==> r@[i] == old(self)@[i].0,
    {
        let mut r: Vec<TrackHandle> = Vec::new();
        while self.tracks.len() > 0
            invariant
                r@.len() + self@.len() == old(self)@.len(),
                forall|i: int| 0 <= i < r@.len() ==> r@[i] == old(self)@[i].0,
                forall|i: int| 0 <= i < self@.len() ==> self@[i] == old(self)@[r@.len() + i],
            decreases self@.len(),
        {
            let next = self.tracks.pop_front();
            match next {
                Some(q) => { r.push(q.0) },
                None => {},
            }
        }
        proof {
            assert(self@ =~= Seq::<Queued>::empty());
        }
        r
    }

    /// Skip to the next track in the queue: names the playing head so the
    /// caller can stop it; the resulting end event pops it.
    pub fn skip(&self) -> (r: Option<TrackHandle>)
        ensures
            self@.len() == 0 ==> r is None,
            self@.len() > 0 ==> r == Some(self@[0].0),
    {
        self.stop_current()
    }

    /// Names the currently playing track - the head - so the caller can
    /// stop it, if it exists.
    pub fn stop_current(&self) -> (r: Option<TrackHandle>)
        ensures
            self@.len() == 0 ==> r is None,
            self@.len() > 0 ==> r == Some(self@[0].0),
    {
        self.current()
    }

    /// Returns a snapshot of the currently queued tracks.
    pub fn current_queue(&self) -> (r: Vec<TrackHandle>)
        ensures
            r@.len() == self@.len(),
            forall|i: int| 0 <= i < r@.len() ==> r@[i] == self@[i].0,
    {
        let mut r: Vec<TrackHandle> = Vec::new();
        let mut i: usize = 0;
        while i < self.tracks.len()
            invariant
                i <= self@.len(),
                r@.len() == i,
                forall|k: int| 0 <= k < i ==> r@[k] == self@[k].0,
            decreases self@.len() - i,
        {
            r.push(self.tracks[i].handle());
            i += 1;
        }
        r
    }

    /// The end-of-track hook. Because users may remove, reorder, or
    /// dequeue-and-stop tracks, the ended track must be verified to be the
    /// head before the queue progresses: an end event for any other track
    /// changes nothing. When the head did end, it is popped, and the new
    /// head (if any) is returned for the caller to play.
    pub fn on_track_end(&mut self, ended: u128) -> (r: Option<TrackHandle>)
        ensures
            old(self)@.len() == 0 ==> final(self)@ == old(self)@ && r is None,
            old(self)@.len() > 0 && old(self)@[0].0.uuid != ended ==> final(self)@ == old(self)@
                && r is None,
            old(self)@.len() > 0 && old(self)@[0].0.uuid == ended ==> final(self)@ == old(
                self,
            )@.drop_first() && (final(self)@.len() == 0 ==> r is None) && (final(self)@.len() > 0
                ==> r == Some(old(self)@[1].0)),
    {
        if self.tracks.len() == 0 {
            return None;
        }
        if self.tracks[0].handle().uuid != ended {
            return None;
        }
        let _old_head = self.tracks.pop_front();
        proof {
            assert(self@ =~= old(self)@.drop_first());
        }
        if self.tracks.len() > 0 {
            Some(self.tracks[0].handle())
        } else {
            None
        }
    }

    /// The follow-up when a track named by [`Self::on_track_end`] (or by
    /// this function) could not be played: the unusable head is discarded
    /// and the next candidate returned, until one plays or the queue runs
    /// out.
    pub fn on_play_failure(&mut self, failed: u128) -> (r: Option<TrackHandle>)
        ensures
            old(self)@.len() == 0 ==> final(self)@ == old(self)@ && r is None,
            old(self)@.len() > 0 && old(self)@[0].0.uuid != failed ==> final(self)@ == old(self)@
                && r is None,
            old(self)@.len() > 0 && old(self)@[0].0.uuid == failed ==> final(self)@ == old(
                self,
            )@.drop_first() && (final(self)@.len() == 0 ==> r is None) && (final(self)@.len() > 0
                ==> r == Some(old(self)@[1].0)),
    {
        self.on_track_end(failed)
    }

    /// The gapless preload hook: names the track after the head, if any,
    /// so the caller can make it playable ahead of the hand-over. Fired at
    /// the preload point that [`Self::add_raw`] reported; when the head's
    /// length was unknown, no preload fires.
    pub fn preload_target(&self) -> (r: Option<TrackHandle>)
        ensures
            self@.len() <= 1 ==> r is None,
            self@.len() > 1 ==> r == Some(self@[1].0),
    {
        if self.tracks.len() > 1 {
            Some(self.tracks[1].handle())
        } else {
            None
        }
    }
}

} // verus!
