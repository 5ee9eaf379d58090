//! The frame table of an animation: one delay per frame and the named tags.
use vstd::prelude::*;

verus! {

/// Nanoseconds in one millisecond: frame delays are in milliseconds, time in
/// nanoseconds.
pub const NANOS_PER_MILLI: u64 = 1_000_000;

/// Playback direction of a tag.
#[derive(Debug, Clone, Copy, PartialEq, Eq, Structural)]
pub enum Direction {
    /// At the end of the range, start again from its first frame.
    Forward,
    /// At the start of the range, start again from its last frame.
    Reverse,
    /// Bounce between the two ends of the range.
    PingPong,
}

/// A named range of frames `[start, end)` and the direction it plays in.
#[derive(Debug, Clone)]
pub struct TagInfo {
    pub name: String,
    pub start: usize,
    pub end: usize,
    pub direction: Direction,
}

/// Why a frame table was refused.
#[derive(Debug, Clone, Copy, PartialEq, Eq, Structural)]
pub enum InfoError {
    /// The table has no frame.
    NoFrames,
    /// The frame at this index has a delay of zero.
    ZeroDelay { frame: usize },
    /// The tag at this index has an empty range or one that ends past the
    /// last frame.
    BadTagRange { tag: usize },
}

/// The timing of an animation: the delay of each frame, in milliseconds, and
/// its tags.
#[derive(Debug, Clone)]
pub struct AsepriteInfo {
    pub frame_delays_ms: Vec<u16>,
    pub tags: Vec<TagInfo>,
}

/// The first tag of `tags` whose name is `name`.
pub open spec fn lookup(tags: Seq<TagInfo>, name: Seq<char>) -> Option<TagInfo>
    decreases tags.len(),
{
    if tags.len() == 0 {
        None
    } else if tags[0].name@ == name {
        Some(tags[0])
    } else {
        lookup(tags.drop_first(), name)
    }
}

pub open spec fn range_fits(t: TagInfo, frame_count: nat) -> bool {
    t.start < t.end <= frame_count
}

/// Every delay is positive.
pub open spec fn delays_positive(delays: Seq<u16>) -> bool {
    forall|i: int| 0 <= i < delays.len() ==> delays[i] > 0
}

/// Every tag's range is non-empty and lies within the frames.
pub open spec fn tags_fit(tags: Seq<TagInfo>, frame_count: nat) -> bool {
    forall|k: int| 0 <= k < tags.len() ==> range_fits(#[trigger] tags[k], frame_count)
}

pub open spec fn valid_parts(delays: Seq<u16>, tags: Seq<TagInfo>) -> bool {
    &&& delays.len() > 0
    &&& delays_positive(delays)
    &&& tags_fit(tags, delays.len())
}

impl AsepriteInfo {
    /// At least one frame, no zero delay, and every tag within the frames.
    pub open spec fn wf(&self) -> bool {
        valid_parts(self.frame_delays_ms@, self.tags@)
    }

    pub open spec fn frame_count(&self) -> nat {
        self.frame_delays_ms@.len()
    }

    /// How long frame `i` is shown, in nanoseconds.
    pub open spec fn duration(&self, i: int) -> nat {
        self.frame_delays_ms@[i] as nat * NANOS_PER_MILLI as nat
    }

    pub open spec fn tag_named(&self, name: Seq<char>) -> Option<TagInfo> {
        lookup(self.tags@, name)
    }

    /// Builds a frame table, refusing one without frames, with a zero delay,
    /// or with a tag whose range is empty or ends past the last frame.
    pub fn new(frame_delays_ms: Vec<u16>, tags: Vec<TagInfo>) -> (r: Result<AsepriteInfo, InfoError>)
        ensures
            r is Ok <==> valid_parts(frame_delays_ms@, tags@),
            match r {
                Ok(info) => info.frame_delays_ms@ == frame_delays_ms@ && info.tags@ == tags@,
                Err(InfoError::NoFrames) => frame_delays_ms@.len() == 0,
                Err(InfoError::ZeroDelay { frame }) => {
                    &&& frame_delays_ms@.len() > 0
                    &&& frame < frame_delays_ms@.len()
                    &&& frame_delays_ms@[frame as int] == 0
                    &&& delays_positive(frame_delays_ms@.take(frame as int))
                },
                Err(InfoError::BadTagRange { tag }) => {
                    &&& frame_delays_ms@.len() > 0
                    &&& delays_positive(frame_delays_ms@)
                    &&& tag < tags@.len()
                    &&& !range_fits(tags@[tag as int], frame_delays_ms@.len())
                    &&& tags_fit(tags@.take(tag as int), frame_delays_ms@.len())
                },
            },
    {
        let n = frame_delays_ms.len();
        if n == 0 {
            return Err(InfoError::NoFrames);
        }
        let mut i: usize = 0;
        while i < n
            invariant
                n == frame_delays_ms@.len(),
                i <= n,
                delays_positive(frame_delays_ms@.take(i as int)),
            decreases n - i,
        {
            if frame_delays_ms[i] == 0 {
                return Err(InfoError::ZeroDelay { frame: i });
            }
            assert(frame_delays_ms@.take(i + 1) =~= frame_delays_ms@.take(i as int).push(frame_delays_ms@[i as int]));
            i = i + 1;
        }
        assert(frame_delays_ms@.take(n as int) =~= frame_delays_ms@);
        let mut k: usize = 0;
        while k < tags.len()
            invariant
                n == frame_delays_ms@.len(),
                n > 0,
                delays_positive(frame_delays_ms@),
                k <= tags@.len(),
                tags_fit(tags@.take(k as int), n as nat),
            decreases tags@.len() - k,
        {
            let t = &tags[k];
            if !(t.start < t.end && t.end <= n) {
                return Err(InfoError::BadTagRange { tag: k });
            }
            assert(tags@.take(k + 1) =~= tags@.take(k as int).push(tags@[k as int]));
            k = k + 1;
        }
        assert(tags@.take(k as int) =~= tags@);
        Ok(AsepriteInfo { frame_delays_ms, tags })
    }

    /// Number of frames.
    pub fn frame_count_exec(&self) -> (r: usize)
        ensures
            r == self.frame_count(),
    {
        self.frame_delays_ms.len()
    }

    /// How long frame `i` is shown, in nanoseconds.
    pub fn frame_duration(&self, i: usize) -> (r: u64)
        requires
            i < self.frame_count(),
        ensures
            r == self.duration(i as int),
    {
        self.frame_delays_ms[i] as u64 * NANOS_PER_MILLI
    }

    /// Index of the first tag named `name`, if any.
    pub fn find_tag(&self, name: &str) -> (r: Option<usize>)
        ensures
            r is None <==> self.tag_named(name@) is None,
            r matches Some(k) ==> k < self.tags@.len() && self.tag_named(name@) == Some(
                self.tags@[k as int],
            ),
    {
        let wanted = name.to_owned();
        assert(self.tags@.subrange(0, self.tags@.len() as int) =~= self.tags@);
        let mut k: usize = 0;
        while k < self.tags.len()
            invariant
                wanted@ == name@,
                k <= self.tags@.len(),
                self.tag_named(name@) == lookup(self.tags@.subrange(k as int, self.tags@.len() as int), name@),
            decreases self.tags@.len() - k,
        {
            let rest = Ghost(self.tags@.subrange(k as int, self.tags@.len() as int));
            assert(rest@.drop_first() =~= self.tags@.subrange(k + 1, self.tags@.len() as int));
            if self.tags[k].name == wanted {
                return Some(k);
            }
            k = k + 1;
        }
        None
    }
}

} // verus!
