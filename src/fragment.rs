//! Fragment headers: sample flags, keyframe detection, timestamps and
//! group priorities.
use vstd::prelude::*;

use crate::error::Error;

verus! {

/// The sample run of one track fragment.
pub struct TrackRun {
    pub sample_count: u32,
    /// Flags of each sample, when the run carries them.
    pub sample_flags: Vec<u32>,
    /// Flags that override those of the first sample.
    pub first_sample_flags: Option<u32>,
}

/// One elementary stream's part of a fragment header.
pub struct TrackFragment {
    pub track_id: u32,
    pub default_sample_flags: Option<u32>,
    /// The decode time of the first sample, in timescale units.
    pub base_media_decode_time: Option<u64>,
    pub run: Option<TrackRun>,
}

/// A decoded fragment-header box.
pub struct FragmentHeader {
    pub trafs: Vec<TrackFragment>,
}

/// The greatest group priority.
pub const MAX_PRIORITY: u32 = 0xffff_ffff;

/// Flags of a sample that depends on no other and is a sync sample.
pub open spec fn is_keyframe_flags(flags: u32) -> bool {
    (flags >> 24u32) & 3u32 == 2u32 && (flags >> 16u32) & 1u32 != 1u32
}

/// The flags that apply to sample `i` of a run: the first-sample override,
/// else the sample's own flags, else the defaults.
pub open spec fn flags_of_sample(run: TrackRun, default_flags: u32, i: int) -> u32 {
    if i == 0 && run.first_sample_flags.is_some() {
        run.first_sample_flags.unwrap()
    } else if i < run.sample_flags@.len() {
        run.sample_flags@[i]
    } else {
        default_flags
    }
}

/// Some sample among the first `n` of a run is a keyframe.
pub open spec fn run_has_keyframe(run: TrackRun, default_flags: u32, n: int) -> bool {
    exists|i: int| 0 <= i < n && #[trigger] is_keyframe_flags(flags_of_sample(run, default_flags, i))
}

/// The keyframe verdict of the track fragments from index `i` on; a track
/// fragment without a sample run ends the search.
pub open spec fn keyframe_from(trafs: Seq<TrackFragment>, i: int) -> bool
    decreases trafs.len() - i,
{
    if i < 0 || i >= trafs.len() {
        false
    } else {
        match trafs[i].run {
            None => false,
            Some(run) => run_has_keyframe(
                run,
                trafs[i].default_sample_flags.unwrap_or(0),
                run.sample_count as int,
            ) || keyframe_from(trafs, i + 1),
        }
    }
}

/// Whether any sample of a fragment header is a keyframe.
pub open spec fn is_keyframe_header(moof: FragmentHeader) -> bool {
    keyframe_from(moof.trafs@, 0)
}

/// Presentation time in milliseconds of `timestamp` timescale units.
pub open spec fn timestamp_ms(timestamp: u64, timescale: u64) -> int {
    1000 * timestamp / (timescale as int)
}

/// The priority of a group that starts at `ms` milliseconds, if it is
/// representable.
pub open spec fn priority_of(ms: int) -> Option<u32> {
    if 0 <= ms <= MAX_PRIORITY {
        Some((MAX_PRIORITY - ms) as u32)
    } else {
        None
    }
}

/// Whether sample flags mark a keyframe.
pub fn keyframe_flags(flags: u32) -> (r: bool)
    ensures
        r == is_keyframe_flags(flags),
{
    let keyframe = (flags >> 24u32) & 0x3u32 == 0x2u32;
    let non_sync = (flags >> 16u32) & 0x1u32 == 0x1u32;
    keyframe && !non_sync
}

fn run_keyframe(run: &TrackRun, default_flags: u32) -> (r: bool)
    ensures
        r == run_has_keyframe(*run, default_flags, run.sample_count as int),
{
    let mut i: u32 = 0;
    while i < run.sample_count
        invariant
            i <= run.sample_count,
            forall|j: int| 0 <= j < i ==> !is_keyframe_flags(flags_of_sample(*run, default_flags, j)),
        decreases run.sample_count - i,
    {
        let mut flags = default_flags;
        if (i as usize) < run.sample_flags.len() {
            flags = run.sample_flags[i as usize];
        }
        if i == 0 {
            if let Some(first) = run.first_sample_flags {
                flags = first;
            }
        }
        assert(flags == flags_of_sample(*run, default_flags, i as int));
        if keyframe_flags(flags) {
            return true;
        }
        i = i + 1;
    }
    false
}

/// Whether any sample of the fragment header is a keyframe.
pub fn sample_keyframe(moof: &FragmentHeader) -> (r: bool)
    ensures
        r == is_keyframe_header(*moof),
{
    let mut i: usize = moof.trafs.len();
    let mut found = false;
    // Walk from the back so that each step extends the verdict by one.
    while i > 0
        invariant
            i <= moof.trafs@.len(),
            found == keyframe_from(moof.trafs@, i as int),
        decreases i,
    {
        i = i - 1;
        let traf = &moof.trafs[i];
        found = match &traf.run {
            None => false,
            Some(run) => {
                let default_flags = match traf.default_sample_flags {
                    Some(f) => f,
                    None => 0,
                };
                run_keyframe(run, default_flags) || found
            },
        };
    }
    found
}

/// The decode time of the first sample of a fragment header.
pub fn sample_timestamp(moof: &FragmentHeader) -> (r: Option<u64>)
    ensures
        r == (if moof.trafs@.len() == 0 {
            None
        } else {
            moof.trafs@[0].base_media_decode_time
        }),
{
    if moof.trafs.len() == 0 {
        None
    } else {
        moof.trafs[0].base_media_decode_time
    }
}

/// A classified fragment header.
pub struct Fragment {
    /// The track that the fragment belongs to.
    pub track: u32,
    /// The decode time of its first sample, in timescale units.
    pub timestamp: u64,
    /// Whether one of its samples is a keyframe.
    pub keyframe: bool,
}

impl Fragment {
    /// Classifies a fragment header that describes exactly one stream.
    pub fn new(moof: FragmentHeader) -> (r: Result<Fragment, Error>)
        ensures
            moof.trafs@.len() != 1 ==> r == Err::<Fragment, Error>(Error::MultipleTracks),
            moof.trafs@.len() == 1 && moof.trafs@[0].base_media_decode_time.is_none() ==> r
                == Err::<Fragment, Error>(Error::Missing),
            moof.trafs@.len() == 1 && moof.trafs@[0].base_media_decode_time.is_some() ==> r
                == Ok::<Fragment, Error>(
                Fragment {
                    track: moof.trafs@[0].track_id,
                    timestamp: moof.trafs@[0].base_media_decode_time.unwrap(),
                    keyframe: is_keyframe_header(moof),
                },
            ),
    {
        if moof.trafs.len() != 1 {
            return Err(Error::MultipleTracks);
        }
        let track = moof.trafs[0].track_id;
        let timestamp = match sample_timestamp(&moof) {
            Some(t) => t,
            None => return Err(Error::Missing),
        };
        let keyframe = sample_keyframe(&moof);
        Ok(Fragment { track, timestamp, keyframe })
    }

    /// The fragment's decode time in whole milliseconds.
    pub fn timestamp(&self, timescale: u64) -> (r: u128)
        requires
            timescale > 0,
        ensures
            r as int == timestamp_ms(self.timestamp, timescale),
    {
        let scaled: u128 = 1000u128 * (self.timestamp as u128);
        scaled / (timescale as u128)
    }
}

/// The priority of a group that starts at `ms` milliseconds: later groups
/// get lower priorities; `None` past the representable range.
pub fn priority(ms: u128) -> (r: Option<u32>)
    ensures
        r == priority_of(ms as int),
{
    if ms > MAX_PRIORITY as u128 {
        None
    } else {
        Some(MAX_PRIORITY - ms as u32)
    }
}

/// Keyframe precedence: when the first sample carries override flags, they
/// alone decide whether it is a keyframe, whatever its own or the default
/// flags say.
pub proof fn lemma_first_sample_flags_decide(run: TrackRun, default_flags: u32)
    requires
        run.first_sample_flags.is_some(),
    ensures
        flags_of_sample(run, default_flags, 0) == run.first_sample_flags.unwrap(),
        run.sample_count > 0 && is_keyframe_flags(run.first_sample_flags.unwrap())
            ==> run_has_keyframe(run, default_flags, run.sample_count as int),
{
    if run.sample_count > 0 && is_keyframe_flags(run.first_sample_flags.unwrap()) {
        assert(is_keyframe_flags(flags_of_sample(run, default_flags, 0)));
    }
}

/// Later timestamps never get a higher priority than earlier ones on the
/// same timescale, and get a strictly lower one once they fall in a later
/// millisecond.
pub proof fn lemma_priority_monotone(t1: u64, t2: u64, timescale: u64)
    requires
        t1 < t2,
        timescale > 0,
        priority_of(timestamp_ms(t2, timescale)).is_some(),
    ensures
        priority_of(timestamp_ms(t1, timescale)).is_some(),
        priority_of(timestamp_ms(t1, timescale)).unwrap() >= priority_of(
            timestamp_ms(t2, timescale),
        ).unwrap(),
        timestamp_ms(t1, timescale) != timestamp_ms(t2, timescale) ==> priority_of(
            timestamp_ms(t1, timescale),
        ).unwrap() > priority_of(timestamp_ms(t2, timescale)).unwrap(),
{
    let d = timescale as int;
    vstd::arithmetic::div_mod::lemma_div_is_ordered(1000 * t1, 1000 * t2, d);
    vstd::arithmetic::div_mod::lemma_div_pos_is_pos(1000 * t1, d);
}

} // verus!
