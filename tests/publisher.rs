use base64::Engine;
use mp4::WriteBox;
use moq_pub::error::Error;
use moq_pub::publisher::Publisher;
use moq_pub::settings::{AudioSetting, Setting, VideoSetting};
use moq_pub::track::Action;

fn boxed(kind: &[u8; 4], payload: &[u8]) -> Vec<u8> {
    let mut b = ((payload.len() + 8) as u32).to_be_bytes().to_vec();
    b.extend_from_slice(kind);
    b.extend_from_slice(payload);
    b
}

fn ftyp() -> Vec<u8> {
    boxed(b"ftyp", b"iso6\0\0\0\0iso6cmfc")
}

fn video_moov(timescale: u32) -> Vec<u8> {
    let mut moov = mp4::MoovBox::default();
    moov.traks.push(Default::default());
    let t = &mut moov.traks[0];
    t.tkhd.track_id = 1;
    t.mdia.mdhd.timescale = timescale;
    t.mdia.hdlr.handler_type = mp4::FourCC::from(*b"vide");
    t.mdia.minf.stbl.stco = Some(Default::default());
    t.mdia.minf.stbl.stsd.avc1 = Some(Default::default());
    let avc1 = t.mdia.minf.stbl.stsd.avc1.as_mut().unwrap();
    avc1.width = 1280;
    avc1.height = 720;
    avc1.avcc.avc_profile_indication = 0x64;
    avc1.avcc.profile_compatibility = 0x00;
    avc1.avcc.avc_level_indication = 0x1f;
    let mut out = Vec::new();
    moov.write_box(&mut out).unwrap();
    out
}

fn audio_moov(timescale: u32) -> Vec<u8> {
    let mut moov = mp4::MoovBox::default();
    moov.traks.push(Default::default());
    let t = &mut moov.traks[0];
    t.tkhd.track_id = 1;
    t.mdia.mdhd.timescale = timescale;
    t.mdia.hdlr.handler_type = mp4::FourCC::from(*b"soun");
    t.mdia.minf.stbl.stco = Some(Default::default());
    t.mdia.minf.stbl.stsd.mp4a = Some(Default::default());
    let mp4a = t.mdia.minf.stbl.stsd.mp4a.as_mut().unwrap();
    let esds = mp4a.esds.as_mut().unwrap();
    esds.es_desc.dec_config.object_type_indication = 0x40;
    esds.es_desc.dec_config.stream_type = 5;
    esds.es_desc.dec_config.dec_specific.profile = 2;
    esds.es_desc.dec_config.dec_specific.freq_index = 3;
    esds.es_desc.dec_config.dec_specific.chan_conf = 2;
    esds.es_desc.dec_config.max_bitrate = 0;
    esds.es_desc.dec_config.avg_bitrate = 0;
    let mut out = Vec::new();
    moov.write_box(&mut out).unwrap();
    out
}

const KEY: u32 = 0x0200_0000;
const NON_KEY: u32 = 0x0101_0000;

fn full_box(kind: &[u8; 4], version: u8, flags: u32, payload: &[u8]) -> Vec<u8> {
    let mut body = vec![version];
    body.extend_from_slice(&flags.to_be_bytes()[1..]);
    body.extend_from_slice(payload);
    boxed(kind, &body)
}

fn moof(timestamp: u64, first_flags: Option<u32>, default_flags: Option<u32>) -> Vec<u8> {
    let mfhd = full_box(b"mfhd", 0, 0, &1u32.to_be_bytes());
    let mut tfhd_body = 1u32.to_be_bytes().to_vec();
    let mut tfhd_flags = 0;
    if let Some(f) = default_flags {
        tfhd_flags |= 0x20;
        tfhd_body.extend_from_slice(&f.to_be_bytes());
    }
    let tfhd = full_box(b"tfhd", 0, tfhd_flags, &tfhd_body);
    let tfdt = full_box(b"tfdt", 1, 0, &timestamp.to_be_bytes());
    let mut trun_body = 1u32.to_be_bytes().to_vec();
    let mut trun_flags = 0x200;
    if let Some(f) = first_flags {
        trun_flags |= 0x04;
        trun_body.extend_from_slice(&f.to_be_bytes());
    }
    trun_body.extend_from_slice(&100u32.to_be_bytes());
    let trun = full_box(b"trun", 0, trun_flags, &trun_body);
    let mut traf = tfhd;
    traf.extend(tfdt);
    traf.extend(trun);
    let mut body = mfhd;
    body.extend(boxed(b"traf", &traf));
    boxed(b"moof", &body)
}

fn video_setting() -> Setting {
    Setting::Video(VideoSetting {
        name: "video".to_string(),
        resolution: "1280x720".to_string(),
        bitrate: 3_000_000,
        max_rate: 3_500_000,
        buffer_size: 6_000_000,
    })
}

fn audio_setting() -> Setting {
    Setting::Audio(AudioSetting { name: "audio".to_string(), sampling_rate: 48000, bitrate: 128_000 })
}

#[test]
fn end_to_end_one_group_four_writes() {
    let mut p = Publisher::new("live", vec![video_setting()]);
    let moov = video_moov(1000);
    let moof1 = moof(0, Some(KEY), Some(NON_KEY));
    let mdat1 = boxed(b"mdat", &[1; 92]);
    let moof2 = moof(40, None, Some(NON_KEY));
    let mdat2 = boxed(b"mdat", &[2; 72]);
    assert_eq!(mdat1.len(), 100);
    assert_eq!(mdat2.len(), 80);
    let mut stream = ftyp();
    for b in [&moov, &moof1, &mdat1, &moof2, &mdat2] {
        stream.extend_from_slice(b);
    }
    let mut out = Vec::new();
    p.publish(0, &stream, &mut out).unwrap();
    assert_eq!(
        out,
        vec![
            Action::CreateTrack { rep: 0, name: "video".to_string() },
            Action::PublishCatalog,
            Action::OpenGroup { rep: 0, priority: u32::MAX },
            Action::Write { rep: 0, data: moof1 },
            Action::Write { rep: 0, data: mdat1 },
            Action::Write { rep: 0, data: moof2 },
            Action::Write { rep: 0, data: mdat2 },
        ]
    );
    assert_eq!(p.catalog.tracks_len(), 1);
    let entry = p.catalog.get_track_ref(0).unwrap();
    let mut init = ftyp();
    init.extend_from_slice(&moov);
    assert_eq!(entry.init_data.as_deref(), Some(base64::engine::general_purpose::STANDARD.encode(&init).as_str()));
    let params = entry.selection_params.as_ref().unwrap();
    assert_eq!(params.codec.as_deref(), Some("avc1.64001F"));
    assert_eq!(params.mime_type.as_deref(), Some("video/mp4"));
    assert_eq!(params.width, Some(1280));
    assert_eq!(params.height, Some(720));
    assert_eq!(params.bitrate, Some(3_000_000));
    assert!(!p.catalog.supports_delta_updates());
}

#[test]
fn end_to_end_byte_by_byte() {
    let mut p = Publisher::new("live", vec![video_setting()]);
    let mut stream = ftyp();
    stream.extend(video_moov(1000));
    stream.extend(moof(0, Some(KEY), None));
    stream.extend(boxed(b"mdat", &[1; 10]));
    let mut whole = Vec::new();
    Publisher::new("live", vec![video_setting()]).publish(0, &stream, &mut whole).unwrap();
    let mut out = Vec::new();
    for b in &stream {
        p.publish(0, &[*b], &mut out).unwrap();
    }
    assert_eq!(out, whole);
    assert_eq!(out.len(), 5);
}

#[test]
fn video_keyframes_open_new_groups() {
    let mut p = Publisher::new("live", vec![video_setting()]);
    let mut out = Vec::new();
    let mut init = ftyp();
    init.extend(video_moov(1000));
    p.publish(0, &init, &mut out).unwrap();
    out.clear();
    let mut stream = moof(0, Some(KEY), None);
    stream.extend(boxed(b"mdat", &[0; 4]));
    stream.extend(moof(2000, Some(KEY), None));
    stream.extend(boxed(b"mdat", &[0; 4]));
    p.publish(0, &stream, &mut out).unwrap();
    let groups: Vec<u32> = out
        .iter()
        .filter_map(|a| match a {
            Action::OpenGroup { priority, .. } => Some(*priority),
            _ => None,
        })
        .collect();
    assert_eq!(groups, vec![u32::MAX, u32::MAX - 2000]);
}

#[test]
fn audio_keyframes_never_close_group() {
    let mut p = Publisher::new("live", vec![audio_setting()]);
    let mut out = Vec::new();
    let mut stream = ftyp();
    stream.extend(audio_moov(48000));
    stream.extend(moof(0, Some(KEY), None));
    stream.extend(boxed(b"mdat", &[0; 4]));
    stream.extend(moof(48000, Some(KEY), None));
    stream.extend(boxed(b"mdat", &[0; 4]));
    p.publish(0, &stream, &mut out).unwrap();
    let groups = out.iter().filter(|a| matches!(a, Action::OpenGroup { .. })).count();
    assert_eq!(groups, 1);
    assert_eq!(out.iter().filter(|a| matches!(a, Action::Write { .. })).count(), 4);
}

#[test]
fn catalog_lists_audio_and_video() {
    let mut p = Publisher::new("live", vec![audio_setting(), video_setting()]);
    let mut out = Vec::new();
    let mut a = ftyp();
    let amoov = audio_moov(48000);
    a.extend_from_slice(&amoov);
    let mut v = ftyp();
    let vmoov = video_moov(90000);
    v.extend_from_slice(&vmoov);
    p.publish(0, &a, &mut out).unwrap();
    p.publish(1, &v, &mut out).unwrap();
    assert_eq!(out.iter().filter(|x| matches!(x, Action::PublishCatalog)).count(), 2);
    assert_eq!(p.catalog.tracks_len(), 2);
    let audio = p.catalog.get_track_ref(0).unwrap();
    assert_eq!(audio.name, "audio");
    assert_eq!(audio.label.as_deref(), Some("audio"));
    let ap = audio.selection_params.as_ref().unwrap();
    assert_eq!(ap.codec.as_deref(), Some("mp4a.40.2"));
    assert_eq!(ap.mime_type.as_deref(), Some("audio/mp4"));
    assert_eq!(ap.sample_rate, Some(48000));
    assert_eq!(ap.bitrate, Some(128_000));
    assert_eq!(audio.init_data.as_deref(), Some(base64::engine::general_purpose::STANDARD.encode(&a).as_str()));
    let video = p.catalog.get_track_ref(1).unwrap();
    assert_eq!(video.name, "video");
    assert_eq!(video.init_data.as_deref(), Some(base64::engine::general_purpose::STANDARD.encode(&v).as_str()));
    let cf = p.catalog.common_track_fields.as_ref().unwrap();
    assert_eq!(cf.namespace.as_deref(), Some("live"));
    assert_eq!(cf.alt_group, Some(1));
    assert_eq!(cf.label.as_deref(), Some("Dash MoQ"));
}

#[test]
fn second_moov_is_refused() {
    let mut p = Publisher::new("live", vec![video_setting()]);
    let mut out = Vec::new();
    let mut init = ftyp();
    init.extend(video_moov(1000));
    p.publish(0, &init, &mut out).unwrap();
    let before = out.len();
    assert_eq!(p.publish(0, &video_moov(90000), &mut out), Err(Error::DuplicateInit));
    assert_eq!(out.len(), before);
    assert_eq!(p.reps[0].track.as_ref().unwrap().timescale, 1000);
    assert_eq!(p.reps[0].moov.as_ref().unwrap().streams[0].timescale, 1000);
    assert_eq!(p.catalog.tracks_len(), 1);
}

#[test]
fn second_ftyp_is_refused() {
    let mut p = Publisher::new("live", vec![video_setting()]);
    let mut out = Vec::new();
    p.publish(0, &ftyp(), &mut out).unwrap();
    assert_eq!(p.publish(0, &ftyp(), &mut out), Err(Error::DuplicateInit));
}

#[test]
fn fragment_before_setup_is_refused() {
    let mut p = Publisher::new("live", vec![video_setting()]);
    let mut out = Vec::new();
    assert_eq!(p.publish(0, &moof(0, Some(KEY), None), &mut out), Err(Error::MissingTrack));
    let mut q = Publisher::new("live", vec![video_setting()]);
    assert_eq!(q.publish(0, &boxed(b"mdat", &[0; 4]), &mut out), Err(Error::MissingTrack));
    assert!(out.is_empty());
}

#[test]
fn payload_without_group_is_refused() {
    let mut p = Publisher::new("live", vec![video_setting()]);
    let mut out = Vec::new();
    let mut init = ftyp();
    init.extend(video_moov(1000));
    p.publish(0, &init, &mut out).unwrap();
    assert_eq!(p.publish(0, &boxed(b"mdat", &[0; 4]), &mut out), Err(Error::MissingGroup));
}

#[test]
fn moov_without_ftyp_is_refused() {
    let mut p = Publisher::new("live", vec![video_setting()]);
    let mut out = Vec::new();
    assert_eq!(p.publish(0, &video_moov(1000), &mut out), Err(Error::Missing));
    assert!(p.reps[0].track.is_none());
}

#[test]
fn unknown_representation_is_refused() {
    let mut p = Publisher::new("live", vec![video_setting()]);
    let mut out = Vec::new();
    assert_eq!(p.publish(3, &ftyp(), &mut out), Err(Error::Missing));
}

#[test]
fn malformed_box_is_refused() {
    let mut p = Publisher::new("live", vec![video_setting()]);
    let mut out = Vec::new();
    assert_eq!(p.publish(0, &[0, 0, 0, 3, b'f', b'r', b'e', b'e'], &mut out), Err(Error::MalformedBox));
}

#[test]
fn priority_overflow_is_refused() {
    let mut p = Publisher::new("live", vec![video_setting()]);
    let mut out = Vec::new();
    let mut init = ftyp();
    init.extend(video_moov(1));
    p.publish(0, &init, &mut out).unwrap();
    assert_eq!(p.publish(0, &moof(5_000_000, Some(KEY), None), &mut out), Err(Error::PriorityOverflow));
}

#[test]
fn prft_follows_next_payload_once() {
    let mut p = Publisher::new("live", vec![video_setting()]);
    let mut out = Vec::new();
    let mut init = ftyp();
    init.extend(video_moov(1000));
    p.publish(0, &init, &mut out).unwrap();
    out.clear();
    let prft = boxed(b"prft", &[9; 12]);
    let mdat = boxed(b"mdat", &[1; 3]);
    let mut stream = moof(0, Some(KEY), None);
    stream.extend_from_slice(&prft);
    stream.extend_from_slice(&mdat);
    stream.extend_from_slice(&mdat);
    p.publish(0, &stream, &mut out).unwrap();
    let mut joined = mdat.clone();
    joined.extend_from_slice(&prft);
    assert_eq!(out[2], Action::Write { rep: 0, data: joined });
    assert_eq!(out[3], Action::Write { rep: 0, data: mdat });
}

#[test]
fn unknown_boxes_are_skipped() {
    let mut p = Publisher::new("live", vec![video_setting()]);
    let mut out = Vec::new();
    p.publish(0, &boxed(b"free", &[0; 5]), &mut out).unwrap();
    assert!(out.is_empty());
    assert!(p.reps[0].buf.is_empty());
}

#[test]
fn zero_sized_child_box_is_refused() {
    let mut hang = vec![0, 0, 0, 16];
    hang.extend_from_slice(b"moof");
    hang.extend_from_slice(&[0, 0, 0, 0]);
    hang.extend_from_slice(b"free");
    let mut p = Publisher::new("live", vec![video_setting()]);
    let mut out = Vec::new();
    assert_eq!(p.publish(0, &hang, &mut out), Err(Error::MalformedBox));
    let mut moov = hang.clone();
    moov[4..8].copy_from_slice(b"moov");
    let mut q = Publisher::new("live", vec![video_setting()]);
    q.publish(0, &ftyp(), &mut out).unwrap();
    assert_eq!(q.publish(0, &moov, &mut out), Err(Error::MalformedBox));
    assert!(out.is_empty());
    assert!(q.reps[0].moov.is_none());
}

#[test]
fn child_box_overrunning_parent_is_refused() {
    let mut bad = vec![0, 0, 0, 24];
    bad.extend_from_slice(b"moof");
    bad.extend_from_slice(&[0, 0, 0, 32]);
    bad.extend_from_slice(b"traf");
    bad.extend_from_slice(&[0; 8]);
    let mut p = Publisher::new("live", vec![video_setting()]);
    let mut out = Vec::new();
    assert_eq!(p.publish(0, &bad, &mut out), Err(Error::MalformedBox));
}
