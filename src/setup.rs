//! Selection metadata of a representation, from its sample entries.
use vstd::prelude::*;

use crate::catalog::{mime_of, SelectionParams};
use crate::codec::{avc1_codec, avc1_text, mp4a_codec, mp4a_text};
use crate::decode::{AudioDescriptor, Mp4aEntry, VideoEntries};
use crate::error::Error;
use crate::settings::Setting;
use crate::track::TrackType;

verus! {

/// The handler kind that a four-character handler type names.
pub open spec fn track_type_of(handler: u32) -> Option<TrackType> {
    if handler == 0x76696465 {
        Some(TrackType::Video)
    } else if handler == 0x736f756e {
        Some(TrackType::Audio)
    } else if handler == 0x7362746c {
        Some(TrackType::Subtitle)
    } else {
        None
    }
}

/// The handler kind of a stream: `vide`, `soun` or `sbtl`.
pub fn track_type(handler: u32) -> (r: Option<TrackType>)
    ensures
        r == track_type_of(handler),
{
    if handler == 0x76696465 {
        Some(TrackType::Video)
    } else if handler == 0x736f756e {
        Some(TrackType::Audio)
    } else if handler == 0x7362746c {
        Some(TrackType::Subtitle)
    } else {
        None
    }
}

/// The bitrate of a video representation: the one its settings give.
pub open spec fn video_bitrate(setting: Setting) -> u64 {
    match setting {
        Setting::Video(v) => v.bitrate,
        Setting::Audio(_) => 0,
    }
}

/// The bitrate of an audio representation: the larger of the descriptor's
/// two when one is set, else the one its settings give.
pub open spec fn audio_bitrate(d: AudioDescriptor, setting: Setting) -> Option<u64> {
    let b = if d.max_bitrate >= d.avg_bitrate {
        d.max_bitrate
    } else {
        d.avg_bitrate
    };
    if b > 0 {
        Some(b as u64)
    } else {
        match setting {
            Setting::Audio(a) => Some(a.bitrate),
            Setting::Video(_) => None,
        }
    }
}

/// `p` holds exactly these values.
pub open spec fn params_are(
    p: SelectionParams,
    codec: Seq<char>,
    mime: Option<Seq<char>>,
    width: Option<u16>,
    height: Option<u16>,
    sample_rate: Option<u16>,
    bitrate: Option<u64>,
) -> bool {
    &&& p.codec.is_some() && p.codec.unwrap()@ == codec
    &&& p.mime_type.is_some() && mime.is_some() && p.mime_type.unwrap()@ == mime.unwrap()
    &&& p.width == width
    &&& p.height == height
    &&& p.sample_rate == sample_rate
    &&& p.bitrate == bitrate
    &&& p.framerate.is_none()
    &&& p.language.is_none()
}

/// The error that deriving selection parameters gives, if any.
pub open spec fn selection_error(video: VideoEntries, audio: Option<Mp4aEntry>) -> Option<Error> {
    if video.avc1.is_some() {
        if mime_of("video/mp4"@).is_some() {
            None
        } else {
            Some(Error::Catalog)
        }
    } else if video.hev1 {
        Some(Error::UnsupportedCodec)
    } else if audio.is_some() {
        if audio.unwrap().descriptor.is_none() {
            Some(Error::Missing)
        } else if mime_of("audio/mp4"@).is_none() {
            Some(Error::Catalog)
        } else {
            None
        }
    } else {
        Some(Error::UnsupportedCodec)
    }
}

/// `p` holds the selection parameters of these entries: those of the video
/// entry if there is one, else those of the audio entry.
pub open spec fn selected(p: SelectionParams, video: VideoEntries, audio: Option<Mp4aEntry>, setting: Setting) -> bool {
    if video.avc1.is_some() {
        let a = video.avc1.unwrap();
        params_are(
            p,
            avc1_text(a.profile, a.constraints, a.level),
            mime_of("video/mp4"@),
            Some(a.width),
            Some(a.height),
            None,
            Some(video_bitrate(setting)),
        )
    } else {
        let m = audio.unwrap();
        let d = m.descriptor.unwrap();
        params_are(
            p,
            mp4a_text(d.object_type_indication, d.profile),
            mime_of("audio/mp4"@),
            None,
            None,
            Some(m.sample_rate),
            audio_bitrate(d, setting),
        )
    }
}

/// The selection parameters of a stream, from its sample entries: an avc1
/// video entry or an mp4a audio entry; other codec families are refused.
pub fn selection_params(video: &VideoEntries, audio: &Option<Mp4aEntry>, setting: &Setting) -> (r: Result<SelectionParams, Error>)
    ensures
        selection_error(*video, *audio).is_none() ==> r.is_ok() && selected(r.unwrap(), *video, *audio, *setting),
        selection_error(*video, *audio).is_some() ==> r == Err::<SelectionParams, Error>(
            selection_error(*video, *audio).unwrap(),
        ),
        video.avc1.is_some() ==> ({
            let a = video.avc1.unwrap();
            let mime = mime_of("video/mp4"@);
            &&& mime.is_some() ==> r.is_ok() && params_are(
                r.unwrap(),
                avc1_text(a.profile, a.constraints, a.level),
                mime,
                Some(a.width),
                Some(a.height),
                None,
                Some(video_bitrate(*setting)),
            )
            &&& mime.is_none() ==> r == Err::<SelectionParams, Error>(Error::Catalog)
        }),
        video.avc1.is_none() && video.hev1 ==> r == Err::<SelectionParams, Error>(
            Error::UnsupportedCodec,
        ),
        video.avc1.is_none() && !video.hev1 && audio.is_some() ==> ({
            let m = audio.unwrap();
            let mime = mime_of("audio/mp4"@);
            &&& m.descriptor.is_none() ==> r == Err::<SelectionParams, Error>(Error::Missing)
            &&& m.descriptor.is_some() && mime.is_some() ==> r.is_ok() && params_are(
                r.unwrap(),
                mp4a_text(
                    m.descriptor.unwrap().object_type_indication,
                    m.descriptor.unwrap().profile,
                ),
                mime,
                None,
                None,
                Some(m.sample_rate),
                audio_bitrate(m.descriptor.unwrap(), *setting),
            )
            &&& m.descriptor.is_some() && mime.is_none() ==> r == Err::<SelectionParams, Error>(
                Error::Catalog,
            )
        }),
        video.avc1.is_none() && !video.hev1 && audio.is_none() ==> r == Err::<
            SelectionParams,
            Error,
        >(Error::UnsupportedCodec),
{
    let mut params = SelectionParams::new();
    if let Some(avc1) = &video.avc1 {
        let codec = avc1_codec(avc1.profile, avc1.constraints, avc1.level);
        let bitrate = match setting {
            Setting::Video(v) => v.bitrate,
            Setting::Audio(_) => 0,
        };
        params.set_height(avc1.height);
        params.set_width(avc1.width);
        params.set_codec(codec);
        params.set_bitrate(bitrate);
        if params.set_mime_type("video/mp4").is_err() {
            return Err(Error::Catalog);
        }
        Ok(params)
    } else if video.hev1 {
        Err(Error::UnsupportedCodec)
    } else if let Some(mp4a) = audio {
        let desc = match &mp4a.descriptor {
            Some(d) => d,
            None => return Err(Error::Missing),
        };
        let codec = mp4a_codec(desc.object_type_indication, desc.profile);
        params.set_codec(codec);
        params.set_sample_rate(mp4a.sample_rate);
        if params.set_mime_type("audio/mp4").is_err() {
            return Err(Error::Catalog);
        }
        let bitrate = if desc.max_bitrate >= desc.avg_bitrate {
            desc.max_bitrate
        } else {
            desc.avg_bitrate
        };
        if bitrate > 0 {
            params.set_bitrate(bitrate as u64);
        } else if let Setting::Audio(a) = setting {
            params.set_bitrate(a.bitrate);
        }
        Ok(params)
    } else {
        Err(Error::UnsupportedCodec)
    }
}

} // verus!
