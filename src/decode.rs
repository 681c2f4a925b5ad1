//! Decoding of container-metadata and fragment-header boxes into the plain
//! values that the publisher reads. The box syntax is mp4's to read.
use vstd::prelude::*;

use mp4::ReadBox;

use crate::fragment::{FragmentHeader, TrackFragment, TrackRun};
use crate::nesting::well_nested;

verus! {

/// The fields of a video sample entry that the catalog needs.
pub struct Avc1Entry {
    pub width: u16,
    pub height: u16,
    pub profile: u8,
    pub constraints: u8,
    pub level: u8,
}

/// The decoder configuration of an audio sample entry.
pub struct AudioDescriptor {
    pub object_type_indication: u8,
    pub profile: u8,
    pub max_bitrate: u32,
    pub avg_bitrate: u32,
}

/// The fields of an audio sample entry that the catalog needs.
pub struct Mp4aEntry {
    pub sample_rate: u16,
    pub descriptor: Option<AudioDescriptor>,
}

/// The video sample entries of a stream, by codec family.
pub struct VideoEntries {
    pub avc1: Option<Avc1Entry>,
    pub hev1: bool,
    pub vp09: bool,
}

/// The numbers that identify one elementary stream.
pub struct StreamInfo {
    pub track_id: u32,
    /// Units per second of the stream's timestamps.
    pub timescale: u32,
    /// The four-character handler type, big-endian.
    pub handler: u32,
}

/// A decoded container-metadata box: for each stream, in order, its
/// numbers, its video entries and its audio entry.
pub struct MovieHeader {
    pub streams: Vec<StreamInfo>,
    pub video: Vec<VideoEntries>,
    pub audio: Vec<Option<Mp4aEntry>>,
}

/// What mp4 decodes from a whole fragment-header box, if it can.
pub uninterp spec fn moof_of(atom: Seq<u8>) -> Option<FragmentHeader>;

/// The stream numbers that mp4 decodes from a container-metadata box.
pub uninterp spec fn moov_streams_of(atom: Seq<u8>) -> Option<Vec<StreamInfo>>;

/// The video sample entries that mp4 decodes from a container-metadata box.
pub uninterp spec fn moov_video_of(atom: Seq<u8>) -> Option<Vec<VideoEntries>>;

/// The audio sample entries that mp4 decodes from a container-metadata box.
pub uninterp spec fn moov_audio_of(atom: Seq<u8>) -> Option<Vec<Option<Mp4aEntry>>>;

/// A container-metadata box as decoded, if every part decodes.
pub open spec fn moov_of(atom: Seq<u8>) -> Option<MovieHeader> {
    if moov_streams_of(atom).is_some() && moov_video_of(atom).is_some() && moov_audio_of(atom).is_some() {
        Some(
            MovieHeader {
                streams: moov_streams_of(atom).unwrap(),
                video: moov_video_of(atom).unwrap(),
                audio: moov_audio_of(atom).unwrap(),
            },
        )
    } else {
        None
    }
}

/// Relies on mp4's `BoxHeader::read` and `MoofBox::read_box`: the fields of
/// the decoded box, which depend on the bytes alone.
///
/// mp4's readers walk child boxes until the end of their container; on a
/// child of size 0 they read the same header again and never return, and a
/// metadata value box too small for its 8-byte prefix underflows their
/// length arithmetic. So the boxes inside must fill each container exactly,
/// each with a possible size (`well_nested`).
#[verifier::external_body]
pub(crate) fn decode_moof(atom: &[u8]) -> (r: Option<FragmentHeader>)
    requires
        well_nested(atom@),
    ensures
        r == moof_of(atom@),
{
    let mut reader = std::io::Cursor::new(atom);
    let header = mp4::BoxHeader::read(&mut reader).ok()?;
    let moof = mp4::MoofBox::read_box(&mut reader, header.size).ok()?;
    let trafs = moof.trafs.into_iter().map(|t| TrackFragment {
        track_id: t.tfhd.track_id,
        default_sample_flags: t.tfhd.default_sample_flags,
        base_media_decode_time: t.tfdt.map(|d| d.base_media_decode_time),
        run: t.trun.map(|r| TrackRun { sample_count: r.sample_count, sample_flags: r.sample_flags, first_sample_flags: r.first_sample_flags }),
    });
    Some(FragmentHeader { trafs: trafs.collect() })
}

/// Relies on mp4's `BoxHeader::read` and `MoovBox::read_box`: each track's
/// id, media timescale and handler type, which depend on the bytes alone.
///
/// mp4's readers walk child boxes until the end of their container; on a
/// child of size 0 they read the same header again and never return, and a
/// metadata value box too small for its 8-byte prefix underflows their
/// length arithmetic. So the boxes inside must fill each container exactly,
/// each with a possible size (`well_nested`).
#[verifier::external_body]
fn decode_moov_streams(atom: &[u8]) -> (r: Option<Vec<StreamInfo>>)
    requires
        well_nested(atom@),
    ensures
        r == moov_streams_of(atom@),
{
    let mut reader = std::io::Cursor::new(atom);
    let header = mp4::BoxHeader::read(&mut reader).ok()?;
    let moov = mp4::MoovBox::read_box(&mut reader, header.size).ok()?;
    let streams = moov.traks.iter().map(|t| StreamInfo {
        track_id: t.tkhd.track_id,
        timescale: t.mdia.mdhd.timescale,
        handler: u32::from_be_bytes(t.mdia.hdlr.handler_type.value),
    });
    Some(streams.collect())
}

/// Relies on mp4's `BoxHeader::read` and `MoovBox::read_box`: each track's
/// avc1 entry and whether it has hev1 or vp09 ones, from the bytes alone.
///
/// mp4's readers walk child boxes until the end of their container; on a
/// child of size 0 they read the same header again and never return, and a
/// metadata value box too small for its 8-byte prefix underflows their
/// length arithmetic. So the boxes inside must fill each container exactly,
/// each with a possible size (`well_nested`).
#[verifier::external_body]
fn decode_moov_video(atom: &[u8]) -> (r: Option<Vec<VideoEntries>>)
    requires
        well_nested(atom@),
    ensures
        r == moov_video_of(atom@),
{
    let mut reader = std::io::Cursor::new(atom);
    let header = mp4::BoxHeader::read(&mut reader).ok()?;
    let moov = mp4::MoovBox::read_box(&mut reader, header.size).ok()?;
    let video = moov.traks.iter().map(|t| &t.mdia.minf.stbl.stsd).map(|s| VideoEntries {
        hev1: s.hev1.is_some(),
        vp09: s.vp09.is_some(),
        avc1: s.avc1.as_ref().map(|a| Avc1Entry { width: a.width, height: a.height, profile: a.avcc.avc_profile_indication, constraints: a.avcc.profile_compatibility, level: a.avcc.avc_level_indication }),
    });
    Some(video.collect())
}

/// Relies on mp4's `BoxHeader::read` and `MoovBox::read_box`: each track's
/// mp4a entry and its decoder configuration, from the bytes alone.
///
/// mp4's readers walk child boxes until the end of their container; on a
/// child of size 0 they read the same header again and never return, and a
/// metadata value box too small for its 8-byte prefix underflows their
/// length arithmetic. So the boxes inside must fill each container exactly,
/// each with a possible size (`well_nested`).
#[verifier::external_body]
fn decode_moov_audio(atom: &[u8]) -> (r: Option<Vec<Option<Mp4aEntry>>>)
    requires
        well_nested(atom@),
    ensures
        r == moov_audio_of(atom@),
{
    let mut reader = std::io::Cursor::new(atom);
    let header = mp4::BoxHeader::read(&mut reader).ok()?;
    let moov = mp4::MoovBox::read_box(&mut reader, header.size).ok()?;
    let audio = moov.traks.iter().map(|t| t.mdia.minf.stbl.stsd.mp4a.as_ref().map(|m| Mp4aEntry {
        sample_rate: m.samplerate.value(),
        descriptor: m.esds.as_ref().map(|e| &e.es_desc.dec_config).map(|d| AudioDescriptor { object_type_indication: d.object_type_indication, profile: d.dec_specific.profile, max_bitrate: d.max_bitrate, avg_bitrate: d.avg_bitrate }),
    }));
    Some(audio.collect())
}

/// Decodes a whole container-metadata box.
pub fn decode_moov(atom: &[u8]) -> (r: Option<MovieHeader>)
    requires
        well_nested(atom@),
    ensures
        r == moov_of(atom@),
{
    let streams = decode_moov_streams(atom)?;
    let video = decode_moov_video(atom)?;
    let audio = decode_moov_audio(atom)?;
    Some(MovieHeader { streams, video, audio })
}

} // verus!
