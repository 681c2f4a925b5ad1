//! The per-representation group state machine.
use vstd::prelude::*;

use crate::error::Error;
use crate::fragment::{priority, priority_of, timestamp_ms, Fragment};

verus! {

/// The kind of an elementary stream, from its handler type.
#[derive(Debug, Clone, Copy, PartialEq, Eq, Structural)]
pub enum TrackType {
    Video,
    Audio,
    Subtitle,
}

/// A write that the transport is to perform, in order.
#[derive(Debug, PartialEq, Eq)]
pub enum Action {
    /// Create the transport track of a representation under this name.
    CreateTrack { rep: usize, name: String },
    /// Open a new group on the representation's track; later writes for the
    /// representation go to it.
    OpenGroup { rep: usize, priority: u32 },
    /// Append one object to the representation's open group.
    Write { rep: usize, data: Vec<u8> },
    /// Publish the whole catalog as the first object of a new group of the
    /// catalog track.
    PublishCatalog,
}

/// What an action does, with its bytes and names as sequences.
pub enum Step {
    CreateTrack(usize, Seq<char>),
    OpenGroup(usize, u32),
    Write(usize, Seq<u8>),
    PublishCatalog,
}

impl Action {
    pub open spec fn step(&self) -> Step {
        match self {
            Action::CreateTrack { rep, name } => Step::CreateTrack(*rep, name@),
            Action::OpenGroup { rep, priority } => Step::OpenGroup(*rep, *priority),
            Action::Write { rep, data } => Step::Write(*rep, data@),
            Action::PublishCatalog => Step::PublishCatalog,
        }
    }
}

/// What a sequence of actions does.
pub open spec fn steps(s: Seq<Action>) -> Seq<Step> {
    s.map_values(|a: Action| a.step())
}

pub proof fn lemma_steps_push(s: Seq<Action>, a: Action)
    ensures
        steps(s.push(a)) == steps(s).push(a.step()),
{
    assert(steps(s.push(a)) =~= steps(s).push(a.step()));
}

/// The group that is open after the boundary rule: a keyframe on a video
/// track closes the open group; nothing else does.
pub open spec fn open_after_boundary(handler: TrackType, current: Option<u32>, keyframe: bool) -> Option<u32> {
    if keyframe && handler == TrackType::Video {
        None
    } else {
        current
    }
}

/// The publishing state of one representation's transport track.
pub struct Track {
    /// The representation that the track carries.
    pub rep: usize,
    /// The priority of the open group, if one is open.
    pub current: Option<u32>,
    /// The number of units per second.
    pub timescale: u64,
    /// The kind of stream.
    pub handler: TrackType,
}

impl Track {
    pub open spec fn wf(&self) -> bool {
        self.timescale > 0
    }

    /// A track with no open group.
    pub fn new(rep: usize, handler: TrackType, timescale: u64) -> (r: Track)
        requires
            timescale > 0,
        ensures
            r == (Track { rep, current: None, timescale, handler }),
            r.wf(),
    {
        Track { rep, current: None, timescale, handler }
    }

    /// Appends a fragment header to the open group; with none open, opens a
    /// group whose priority falls with the fragment's timestamp.
    pub fn header(&mut self, raw: Vec<u8>, fragment: &Fragment, out: &mut Vec<Action>) -> (r: Result<(), Error>)
        requires
            old(self).wf(),
        ensures
            final(self).rep == old(self).rep,
            final(self).timescale == old(self).timescale,
            final(self).handler == old(self).handler,
            old(self).current.is_some() ==> r.is_ok() && final(self).current == old(self).current
                && final(out)@ == old(out)@.push(Action::Write { rep: old(self).rep, data: raw }),
            old(self).current.is_none() ==> match priority_of(
                timestamp_ms(fragment.timestamp, old(self).timescale),
            ) {
                Some(p) => r.is_ok() && final(self).current == Some(p) && final(out)@ == old(
                    out,
                )@.push(Action::OpenGroup { rep: old(self).rep, priority: p }).push(
                    Action::Write { rep: old(self).rep, data: raw },
                ),
                None => r == Err::<(), Error>(Error::PriorityOverflow) && final(self).current
                    == old(self).current && final(out)@ == old(out)@,
            },
    {
        if self.current.is_some() {
            out.push(Action::Write { rep: self.rep, data: raw });
            return Ok(());
        }
        let ms = fragment.timestamp(self.timescale);
        let p = match priority(ms) {
            Some(p) => p,
            None => return Err(Error::PriorityOverflow),
        };
        out.push(Action::OpenGroup { rep: self.rep, priority: p });
        out.push(Action::Write { rep: self.rep, data: raw });
        self.current = Some(p);
        Ok(())
    }

    /// Appends a fragment payload to the open group.
    pub fn data(&mut self, raw: Vec<u8>, out: &mut Vec<Action>) -> (r: Result<(), Error>)
        ensures
            *final(self) == *old(self),
            old(self).current.is_some() ==> r.is_ok() && final(out)@ == old(out)@.push(
                Action::Write { rep: old(self).rep, data: raw },
            ),
            old(self).current.is_none() ==> r == Err::<(), Error>(Error::MissingGroup)
                && final(out)@ == old(out)@,
    {
        if self.current.is_none() {
            return Err(Error::MissingGroup);
        }
        out.push(Action::Write { rep: self.rep, data: raw });
        Ok(())
    }

    /// Forgets the open group; the transport finishes it on its own.
    pub fn end_group(&mut self)
        ensures
            *final(self) == (Track { current: None, ..*old(self) }),
    {
        self.current = None;
    }

    /// Handles a fragment header: applies the boundary rule, then appends the
    /// header to the group that is open, or to a new one.
    pub fn fragment(&mut self, raw: Vec<u8>, fragment: &Fragment, out: &mut Vec<Action>) -> (r: Result<(), Error>)
        requires
            old(self).wf(),
        ensures
            final(self).wf(),
            final(self).rep == old(self).rep,
            final(self).timescale == old(self).timescale,
            final(self).handler == old(self).handler,
            ({
                let open = open_after_boundary(old(self).handler, old(self).current, fragment.keyframe);
                &&& open.is_some() ==> r.is_ok() && final(self).current == open && final(out)@
                    == old(out)@.push(Action::Write { rep: old(self).rep, data: raw })
                &&& open.is_none() ==> match priority_of(
                    timestamp_ms(fragment.timestamp, old(self).timescale),
                ) {
                    Some(p) => r.is_ok() && final(self).current == Some(p) && final(out)@ == old(
                        out,
                    )@.push(Action::OpenGroup { rep: old(self).rep, priority: p }).push(
                        Action::Write { rep: old(self).rep, data: raw },
                    ),
                    None => r == Err::<(), Error>(Error::PriorityOverflow) && final(self).current
                        == open && final(out)@ == old(out)@,
                }
            }),
    {
        if fragment.keyframe && self.handler == TrackType::Video {
            self.end_group();
        }
        self.header(raw, fragment, out)
    }
}

/// The group that is open after a fragment header: the one left by the
/// boundary rule, else a new one at the fragment's priority.
pub open spec fn group_after(handler: TrackType, current: Option<u32>, timescale: u64, fragment: Fragment) -> Option<u32> {
    let open = open_after_boundary(handler, current, fragment.keyframe);
    if open.is_some() {
        open
    } else {
        priority_of(timestamp_ms(fragment.timestamp, timescale))
    }
}

/// Group boundary: on a video track, each of two keyframe fragments opens a
/// group of its own, and the later one (in a later millisecond) gets the
/// strictly lower priority.
pub proof fn lemma_video_keyframes_split(current: Option<u32>, timescale: u64, f1: Fragment, f2: Fragment)
    requires
        timescale > 0,
        f1.keyframe,
        f2.keyframe,
        f1.timestamp < f2.timestamp,
        timestamp_ms(f1.timestamp, timescale) != timestamp_ms(f2.timestamp, timescale),
        priority_of(timestamp_ms(f2.timestamp, timescale)).is_some(),
    ensures
        open_after_boundary(TrackType::Video, current, f1.keyframe).is_none(),
        open_after_boundary(
            TrackType::Video,
            group_after(TrackType::Video, current, timescale, f1),
            f2.keyframe,
        ).is_none(),
        group_after(TrackType::Video, current, timescale, f1) == priority_of(
            timestamp_ms(f1.timestamp, timescale),
        ),
        group_after(TrackType::Video, current, timescale, f1).unwrap() > group_after(
            TrackType::Video,
            group_after(TrackType::Video, current, timescale, f1),
            timescale,
            f2,
        ).unwrap(),
{
    crate::fragment::lemma_priority_monotone(f1.timestamp, f2.timestamp, timescale);
}

/// Group boundary: on an audio track a keyframe never closes the open group.
pub proof fn lemma_audio_keeps_group(current: Option<u32>, timescale: u64, f: Fragment)
    requires
        current.is_some(),
    ensures
        open_after_boundary(TrackType::Audio, current, f.keyframe) == current,
        group_after(TrackType::Audio, current, timescale, f) == current,
{
}

} // verus!
