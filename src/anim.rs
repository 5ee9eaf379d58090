//! The animation clock: which frame is shown, and how time moves it.
use vstd::prelude::*;

use crate::info::{lookup, range_fits, tags_fit, AsepriteInfo, Direction, TagInfo};

verus! {

/// The name of a tag, that is of an animation within a frame table.
#[derive(Debug, Clone, Copy, PartialEq, Eq)]
pub struct AsepriteTag(pub &'static str);

impl std::ops::Deref for AsepriteTag {
    type Target = &'static str;

    fn deref(&self) -> (r: &&'static str)
        ensures
            *r == self.0,
    {
        &self.0
    }
}

impl AsepriteTag {
    /// Create a new tag
    pub fn new(id: &'static str) -> (r: AsepriteTag)
        ensures
            r.0 == id,
    {
        AsepriteTag(id)
    }
}

/// Where a tagged position lands after one step in `direction`, over the
/// range `[start, end)`, with `forward` the bias of a back-and-forth tag.
///
/// Back and forth: going forward past the end stays on the last frame and
/// turns round; going back past the start turns round and moves one frame
/// forward. So the last frame is shown for two steps and the first for one.
/// A frame outside the range is brought into it.
pub open spec fn step_in_range(
    cur: int,
    forward: bool,
    start: int,
    end: int,
    direction: Direction,
) -> (int, bool) {
    match direction {
        Direction::Forward => if start <= cur + 1 < end {
            (cur + 1, forward)
        } else {
            (start, forward)
        },
        Direction::Reverse => if start <= cur - 1 < end {
            (cur - 1, forward)
        } else {
            (end - 1, forward)
        },
        Direction::PingPong => if forward {
            if start <= cur + 1 < end {
                (cur + 1, true)
            } else {
                (end - 1, false)
            }
        } else {
            if start <= cur - 1 < end {
                (cur - 1, false)
            } else if start + 1 < end {
                (start + 1, true)
            } else {
                (start, true)
            }
        },
    }
}

/// The playback state of one animated sprite. Time is in nanoseconds.
#[verifier::ext_equal]
#[derive(Debug, PartialEq, Eq)]
pub struct AsepriteAnimation {
    pub is_playing: bool,
    pub tag: Option<&'static str>,
    pub current_frame: usize,
    pub forward: bool,
    pub time_elapsed: u64,
    pub tag_changed: bool,
}

impl Default for AsepriteAnimation {
    fn default() -> (r: AsepriteAnimation)
        ensures
            r == AsepriteAnimation::initial(None),
    {
        AsepriteAnimation {
            is_playing: false,
            tag: None,
            current_frame: 0,
            forward: false,
            time_elapsed: 0,
            tag_changed: false,
        }
    }
}

impl AsepriteAnimation {
    /// A paused clock on frame 0, with no time elapsed.
    pub open spec fn initial(tag: Option<&'static str>) -> AsepriteAnimation {
        AsepriteAnimation {
            is_playing: false,
            tag,
            current_frame: 0,
            forward: false,
            time_elapsed: 0,
            tag_changed: false,
        }
    }

    /// The tag that governs this clock in `info`; `None` when untagged or
    /// when the name is not in the table.
    pub open spec fn active_tag(&self, info: &AsepriteInfo) -> Option<TagInfo> {
        match self.tag {
            Some(name) => lookup(info.tags@, name@),
            None => None,
        }
    }

    /// The clock names a tag that `info` does not have.
    pub open spec fn tag_unresolved(&self, info: &AsepriteInfo) -> bool {
        self.tag is Some && self.active_tag(info) is None
    }

    pub open spec fn first_frame(&self, info: &AsepriteInfo) -> nat {
        match self.active_tag(info) {
            Some(t) => t.start as nat,
            None => 0,
        }
    }

    /// The frame is a frame of `info`, and inside the active tag's range.
    pub open spec fn frame_valid(&self, info: &AsepriteInfo) -> bool {
        &&& self.current_frame < info.frame_count()
        &&& self.active_tag(info) matches Some(t) ==> t.start <= self.current_frame < t.end
    }

    /// The frame is valid and less than its duration has elapsed on it.
    pub open spec fn settled(&self, info: &AsepriteInfo) -> bool {
        &&& self.frame_valid(info)
        &&& self.time_elapsed < info.duration(self.current_frame as int)
    }

    /// The state after one step: the whole table forward with wrap-around
    /// when untagged, the tag's own rule when it resolves, and no move when
    /// the tag is not in the table.
    pub open spec fn advanced(&self, info: &AsepriteInfo) -> AsepriteAnimation {
        match self.tag {
            None => AsepriteAnimation {
                current_frame: ((self.current_frame + 1) % (info.frame_count() as int)) as usize,
                ..*self
            },
            Some(name) => match lookup(info.tags@, name@) {
                None => *self,
                Some(t) => {
                    let (c, f) = step_in_range(
                        self.current_frame as int,
                        self.forward,
                        t.start as int,
                        t.end as int,
                        t.direction,
                    );
                    AsepriteAnimation { current_frame: c as usize, forward: f, ..*self }
                },
            },
        }
    }

    /// The state after `n` steps.
    pub open spec fn advanced_by(&self, info: &AsepriteInfo, n: nat) -> AsepriteAnimation
        decreases n,
    {
        if n == 0 {
            *self
        } else {
            self.advanced(info).advanced_by(info, (n - 1) as nat)
        }
    }

    /// While the elapsed time covers the current frame's duration, take that
    /// duration off and step.
    pub open spec fn caught_up(&self, info: &AsepriteInfo) -> AsepriteAnimation
        decreases self.time_elapsed,
    {
        let d = info.duration(self.current_frame as int);
        if 0 < d <= self.time_elapsed {
            AsepriteAnimation {
                time_elapsed: (self.time_elapsed - d) as u64,
                ..*self
            }.advanced(info).caught_up(info)
        } else {
            *self
        }
    }

    /// The state after `update` with `dt` nanoseconds: unchanged when paused.
    pub open spec fn updated(&self, info: &AsepriteInfo, dt: nat) -> AsepriteAnimation {
        if self.is_playing {
            AsepriteAnimation {
                time_elapsed: (self.time_elapsed + dt) as u64,
                ..*self
            }.caught_up(info)
        } else {
            *self
        }
    }

    /// Whether `update` with `dt` nanoseconds crosses a frame boundary.
    pub open spec fn update_changes(&self, info: &AsepriteInfo, dt: nat) -> bool {
        self.is_playing && self.time_elapsed + dt >= info.duration(self.current_frame as int)
    }

    /// A paused clock on the first frame of `tag`.
    pub fn tag(tag: &'static str) -> (r: Self)
        ensures
            r == AsepriteAnimation::initial(Some(tag)),
    {
        AsepriteAnimation {
            is_playing: false,
            tag: Some(tag),
            current_frame: 0,
            forward: false,
            time_elapsed: 0,
            tag_changed: false,
        }
    }

    /// Return the first frame of the tag or 0 if no tag
    pub fn get_first_frame(&self, info: &AsepriteInfo) -> (r: usize)
        ensures
            r == self.first_frame(info),
    {
        match self.tag {
            Some(name) => match info.find_tag(name) {
                Some(k) => info.tags[k].start,
                None => 0,
            },
            None => 0,
        }
    }

    /// Puts the clock on the first frame of its tag with no time elapsed.
    pub fn rewind(&mut self, info: &AsepriteInfo)
        requires
            info.wf(),
        ensures
            *final(self) == (AsepriteAnimation {
                current_frame: old(self).first_frame(info) as usize,
                time_elapsed: 0,
                ..*old(self)
            }),
            final(self).settled(info),
    {
        let first = self.get_first_frame(info);
        self.current_frame = first;
        self.time_elapsed = 0;
        proof {
            if let Some(name) = self.tag {
                lemma_lookup_fits(info.tags@, name@, info.frame_count());
            }
            lemma_delay_positive(info, self.current_frame as int);
        }
    }

    /// Whether the clock names a tag that `info` does not have: then the
    /// first frame is 0 and steps leave the frame where it is.
    pub fn is_tag_missing(&self, info: &AsepriteInfo) -> (r: bool)
        ensures
            r == self.tag_unresolved(info),
    {
        match self.tag {
            Some(name) => info.find_tag(name).is_none(),
            None => false,
        }
    }

    /// Moves the frame one step.
    pub fn next_frame(&mut self, info: &AsepriteInfo)
        requires
            info.wf(),
            old(self).current_frame < info.frame_count(),
        ensures
            *final(self) == old(self).advanced(info),
    {
        let n = info.frame_count_exec();
        match self.tag {
            Some(name) => {
                let k = match info.find_tag(name) {
                    Some(k) => k,
                    None => {
                        return;
                    },
                };
                let t = &info.tags[k];
                let cur = self.current_frame;
                match t.direction {
                    Direction::Forward => {
                        if t.start <= cur + 1 && cur + 1 < t.end {
                            self.current_frame = cur + 1;
                        } else {
                            self.current_frame = t.start;
                        }
                    },
                    Direction::Reverse => {
                        if cur >= 1 && t.start <= cur - 1 && cur - 1 < t.end {
                            self.current_frame = cur - 1;
                        } else {
                            self.current_frame = t.end - 1;
                        }
                    },
                    Direction::PingPong => {
                        if self.forward {
                            if t.start <= cur + 1 && cur + 1 < t.end {
                                self.current_frame = cur + 1;
                            } else {
                                self.current_frame = t.end - 1;
                                self.forward = false;
                            }
                        } else {
                            if cur >= 1 && t.start <= cur - 1 && cur - 1 < t.end {
                                self.current_frame = cur - 1;
                            } else {
                                if t.start + 1 < t.end {
                                    self.current_frame = t.start + 1;
                                } else {
                                    self.current_frame = t.start;
                                }
                                self.forward = true;
                            }
                        }
                    },
                }
            },
            None => {
                self.current_frame = (self.current_frame + 1) % n;
            },
        }
    }

    /// How long the current frame is shown, in nanoseconds.
    pub fn current_frame_duration(&self, info: &AsepriteInfo) -> (r: u64)
        requires
            self.current_frame < info.frame_count(),
        ensures
            r == info.duration(self.current_frame as int),
    {
        info.frame_duration(self.current_frame)
    }

    /// Adds `dt` nanoseconds to the elapsed time and steps once for each
    /// frame duration that it covers; returns whether the frame moved. A
    /// paused clock is left as it is.
    pub fn update(&mut self, info: &AsepriteInfo, dt: u64) -> (r: bool)
        requires
            info.wf(),
            old(self).current_frame < info.frame_count(),
            old(self).time_elapsed + dt <= u64::MAX,
        ensures
            *final(self) == old(self).updated(info, dt as nat),
            r == old(self).update_changes(info, dt as nat),
            final(self).current_frame < info.frame_count(),
            old(self).is_playing ==> final(self).time_elapsed < info.duration(
                final(self).current_frame as int,
            ),
            old(self).frame_valid(info) ==> final(self).frame_valid(info),
            r ==> final(self).frame_valid(info),
    {
        if !self.is_playing {
            return false;
        }
        self.time_elapsed = self.time_elapsed + dt;
        let ghost start = *self;
        let ghost target = start.caught_up(info);
        proof {
            lemma_caught_up(start, info);
        }
        let mut d = self.current_frame_duration(info);
        let mut changed = false;
        while self.time_elapsed >= d
            invariant
                info.wf(),
                self.current_frame < info.frame_count(),
                d == info.duration(self.current_frame as int),
                self.caught_up(info) == target,
                self.is_playing == start.is_playing,
                self.tag == start.tag,
                changed ==> start.time_elapsed >= info.duration(start.current_frame as int),
                changed ==> self.frame_valid(info),
                !changed ==> *self == start,
            decreases self.time_elapsed,
        {
            proof {
                lemma_delay_positive(info, self.current_frame as int);
            }
            self.time_elapsed = self.time_elapsed - d;
            let ghost before = *self;
            self.next_frame(info);
            proof {
                lemma_step_valid(before, info);
            }
            d = self.current_frame_duration(info);
            changed = true;
        }
        proof {
            lemma_delay_positive(info, self.current_frame as int);
        }
        changed
    }

    /// Get the current frame
    pub fn current_frame(&self) -> (r: usize)
        ensures
            r == self.current_frame,
    {
        self.current_frame
    }

    /// Start or resume playing an animation
    pub fn play(&mut self)
        ensures
            *final(self) == (AsepriteAnimation { is_playing: true, ..*old(self) }),
    {
        self.is_playing = true;
    }

    /// Pause the current animation
    pub fn pause(&mut self)
        ensures
            *final(self) == (AsepriteAnimation { is_playing: false, ..*old(self) }),
    {
        self.is_playing = false;
    }

    /// Returns `true` if the animation is playing
    pub fn is_playing(&self) -> (r: bool)
        ensures
            r == self.is_playing,
    {
        self.is_playing
    }

    /// Returns `true` if the animation is paused
    pub fn is_paused(&self) -> (r: bool)
        ensures
            r == !self.is_playing,
    {
        !self.is_playing
    }

    /// Toggle state between playing and pausing
    pub fn toggle(&mut self)
        ensures
            *final(self) == (AsepriteAnimation { is_playing: !old(self).is_playing, ..*old(self) }),
    {
        self.is_playing = !self.is_playing;
    }
}

/// Every frame of a well-formed table is shown for a positive time.
pub proof fn lemma_delay_positive(info: &AsepriteInfo, i: int)
    requires
        info.wf(),
        0 <= i < info.frame_count(),
    ensures
        info.duration(i) > 0,
{
    assert(info.frame_delays_ms@[i] > 0);
}

/// A tag found in a table whose tags fit its frames fits them too.
pub proof fn lemma_lookup_fits(tags: Seq<TagInfo>, name: Seq<char>, n: nat)
    requires
        tags_fit(tags, n),
    ensures
        lookup(tags, name) matches Some(t) ==> range_fits(t, n),
    decreases tags.len(),
{
    if tags.len() > 0 {
        assert(range_fits(tags[0], n));
        assert forall|k: int| 0 <= k < tags.drop_first().len() implies range_fits(
            #[trigger] tags.drop_first()[k],
            n,
        ) by {
            assert(tags.drop_first()[k] == tags[k + 1]);
        }
        lemma_lookup_fits(tags.drop_first(), name, n);
    }
}

/// One step from a frame of the table lands on a frame of the table, inside
/// the active tag's range, and touches nothing but the frame and the bias.
pub proof fn lemma_step_valid(s: AsepriteAnimation, info: &AsepriteInfo)
    requires
        info.wf(),
        s.current_frame < info.frame_count(),
    ensures
        s.advanced(info).frame_valid(info),
        s.advanced(info).time_elapsed == s.time_elapsed,
        s.advanced(info).is_playing == s.is_playing,
        s.advanced(info).tag == s.tag,
{
    if let Some(name) = s.tag {
        lemma_lookup_fits(info.tags@, name@, info.frame_count());
    }
}

/// Catching up from a frame of the table ends on a frame of the table with
/// less than its duration elapsed; it keeps the frame valid, and makes it
/// valid when it steps at least once.
pub proof fn lemma_caught_up(s: AsepriteAnimation, info: &AsepriteInfo)
    requires
        info.wf(),
        s.current_frame < info.frame_count(),
    ensures
        s.caught_up(info).current_frame < info.frame_count(),
        s.caught_up(info).time_elapsed < info.duration(s.caught_up(info).current_frame as int),
        s.caught_up(info).is_playing == s.is_playing,
        s.caught_up(info).tag == s.tag,
        s.frame_valid(info) ==> s.caught_up(info).frame_valid(info),
        s.time_elapsed >= info.duration(s.current_frame as int) ==> s.caught_up(info).frame_valid(
            info,
        ),
    decreases s.time_elapsed,
{
    lemma_delay_positive(info, s.current_frame as int);
    let d = info.duration(s.current_frame as int);
    if d <= s.time_elapsed {
        let t = AsepriteAnimation { time_elapsed: (s.time_elapsed - d) as u64, ..s };
        lemma_step_valid(t, info);
        lemma_caught_up(t.advanced(info), info);
    }
}

} // verus!
