//! The externally supplied settings of each representation.
use vstd::prelude::*;

verus! {

/// The settings of a video representation.
pub struct VideoSetting {
    pub name: String,
    pub resolution: String,
    pub bitrate: u64,
    pub max_rate: u64,
    pub buffer_size: u64,
}

/// The settings of an audio representation.
pub struct AudioSetting {
    pub name: String,
    pub sampling_rate: u64,
    pub bitrate: u64,
}

/// The settings of one representation.
pub enum Setting {
    Audio(AudioSetting),
    Video(VideoSetting),
}

impl Setting {
    /// The track name that the settings give.
    pub open spec fn name_spec(&self) -> String {
        match self {
            Setting::Audio(a) => a.name,
            Setting::Video(v) => v.name,
        }
    }

    /// The representation's track name.
    pub fn name(&self) -> (r: &String)
        ensures
            *r == self.name_spec(),
    {
        match self {
            Setting::Audio(a) => &a.name,
            Setting::Video(v) => &v.name,
        }
    }
}

/// The settings of every representation, by identifier: the audio ones
/// first, in order, then the video ones.
pub fn representations(audio: Vec<AudioSetting>, video: Vec<VideoSetting>) -> (r: Vec<Setting>)
    ensures
        r@.len() == audio@.len() + video@.len(),
        forall|i: int| 0 <= i < audio@.len() ==> r@[i] == Setting::Audio(audio@[i]),
        forall|i: int| 0 <= i < video@.len() ==> r@[audio@.len() + i] == Setting::Video(video@[i]),
{
    let ghost a0 = audio@;
    let ghost v0 = video@;
    let mut audio = audio;
    let mut video = video;
    let mut r: Vec<Setting> = Vec::new();
    while audio.len() > 0
        invariant
            r@.len() + audio@.len() == a0.len(),
            audio@ == a0.subrange(r@.len() as int, a0.len() as int),
            forall|i: int| 0 <= i < r@.len() ==> r@[i] == Setting::Audio(a0[i]),
        decreases audio@.len(),
    {
        let a = audio.remove(0);
        r.push(Setting::Audio(a));
        assert(audio@ =~= a0.subrange(r@.len() as int, a0.len() as int));
    }
    let ghost n = r@.len();
    while video.len() > 0
        invariant
            n == a0.len(),
            video@.len() <= v0.len(),
            r@.len() == n + (v0.len() - video@.len()),
            video@ == v0.subrange(v0.len() - video@.len(), v0.len() as int),
            forall|i: int| 0 <= i < n ==> r@[i] == Setting::Audio(a0[i]),
            forall|i: int| 0 <= i < r@.len() - n ==> r@[n + i] == Setting::Video(v0[i]),
        decreases video@.len(),
    {
        let ghost k = v0.len() - video@.len();
        assert(video@[0] == v0[k]);
        let v = video.remove(0);
        r.push(Setting::Video(v));
        assert(video@ =~= v0.subrange(v0.len() - video@.len(), v0.len() as int));
        assert(r@[n + k] == Setting::Video(v0[k]));
    }
    r
}

} // verus!
