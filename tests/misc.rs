use moq_pub::catalog::{Catalog, CommonStructFields, Error as CatalogError, MoqCatalog, Packaging, SelectionParams, Track};
use moq_pub::chunk::Chunk;
use moq_pub::codec::{avc1_codec, mp4a_codec};
use moq_pub::decode::{AudioDescriptor, Avc1Entry, Mp4aEntry, VideoEntries};
use moq_pub::error::Error;
use moq_pub::helper::{clean_path, path_to_string, split_vec_once};
use moq_pub::limiter::default_trajectory_mode;
use moq_pub::settings::{representations, AudioSetting, Setting, VideoSetting};
use moq_pub::setup::{selection_params, track_type};
use moq_pub::track::TrackType;

#[test]
fn split_at_first_separator() {
    assert_eq!(split_vec_once(b"a=b=c".to_vec(), b"="), (b"a".to_vec(), b"b=c".to_vec()));
    assert_eq!(split_vec_once(b"gop=12\nfps=30".to_vec(), b"\n"), (b"gop=12".to_vec(), b"fps=30".to_vec()));
    assert_eq!(split_vec_once(b"abc".to_vec(), b"\n"), (b"abc".to_vec(), vec![]));
    assert_eq!(split_vec_once(b"ab::cd".to_vec(), b"::"), (b"ab".to_vec(), b"cd".to_vec()));
    assert_eq!(split_vec_once(b"abc:".to_vec(), b"::"), (b"abc:".to_vec(), vec![]));
    assert_eq!(split_vec_once(vec![], b"="), (vec![], vec![]));
}

#[test]
fn paths_lose_tmp() {
    assert_eq!(clean_path("out/chunk-1.m4s.tmp").unwrap(), "out/chunk-1.m4s");
    assert_eq!(clean_path("a.tmp/b.tmp").unwrap(), "a/b");
    assert_eq!(clean_path("plain").unwrap(), "plain");
    assert_eq!(path_to_string("x/y").unwrap(), "x/y");
    let c = Chunk::new("init-0.m4s.tmp", vec![1, 2]).unwrap();
    assert_eq!(c.name, "init-0.m4s");
    assert_eq!(c.data, vec![1, 2]);
}

#[test]
fn codec_strings() {
    assert_eq!(avc1_codec(0x64, 0x00, 0x1f), "avc1.64001F");
    assert_eq!(avc1_codec(0x4d, 0x40, 0x1e), "avc1.4D401E");
    assert_eq!(mp4a_codec(0x40, 2), "mp4a.40.2");
    assert_eq!(mp4a_codec(0x6b, 34), "mp4a.6b.34");
    assert_eq!(mp4a_codec(0x0a, 129), "mp4a.0a.129");
}

#[test]
fn handler_types() {
    assert_eq!(track_type(u32::from_be_bytes(*b"vide")), Some(TrackType::Video));
    assert_eq!(track_type(u32::from_be_bytes(*b"soun")), Some(TrackType::Audio));
    assert_eq!(track_type(u32::from_be_bytes(*b"sbtl")), Some(TrackType::Subtitle));
    assert_eq!(track_type(u32::from_be_bytes(*b"hint")), None);
}

fn video() -> Setting {
    Setting::Video(VideoSetting { name: "v".to_string(), resolution: "640x360".to_string(), bitrate: 800_000, max_rate: 0, buffer_size: 0 })
}

fn audio() -> Setting {
    Setting::Audio(AudioSetting { name: "a".to_string(), sampling_rate: 44100, bitrate: 96_000 })
}

#[test]
fn selection_params_by_codec_family() {
    let avc1 = VideoEntries {
        avc1: Some(Avc1Entry { width: 640, height: 360, profile: 0x42, constraints: 0xc0, level: 0x1e }),
        hev1: false,
        vp09: false,
    };
    let p = selection_params(&avc1, &None, &video()).unwrap();
    assert_eq!(p.codec.as_deref(), Some("avc1.42C01E"));
    assert_eq!((p.width, p.height, p.bitrate, p.sample_rate), (Some(640), Some(360), Some(800_000), None));
    let p = selection_params(&avc1, &None, &audio()).unwrap();
    assert_eq!(p.bitrate, Some(0));

    let no_video = VideoEntries { avc1: None, hev1: false, vp09: false };
    let hev1 = VideoEntries { avc1: None, hev1: true, vp09: false };
    let vp09 = VideoEntries { avc1: None, hev1: false, vp09: true };
    assert!(matches!(selection_params(&hev1, &None, &video()), Err(Error::UnsupportedCodec)));
    assert!(matches!(selection_params(&vp09, &None, &video()), Err(Error::UnsupportedCodec)));
    assert!(matches!(selection_params(&no_video, &None, &video()), Err(Error::UnsupportedCodec)));

    let described = |max, avg| {
        Some(Mp4aEntry {
            sample_rate: 44100,
            descriptor: Some(AudioDescriptor { object_type_indication: 0x40, profile: 5, max_bitrate: max, avg_bitrate: avg }),
        })
    };
    let p = selection_params(&no_video, &described(160_000, 128_000), &audio()).unwrap();
    assert_eq!(p.codec.as_deref(), Some("mp4a.40.5"));
    assert_eq!(p.mime_type.as_deref(), Some("audio/mp4"));
    assert_eq!((p.sample_rate, p.bitrate), (Some(44100), Some(160_000)));
    let p = selection_params(&no_video, &described(0, 64_000), &audio()).unwrap();
    assert_eq!(p.bitrate, Some(64_000));
    let p = selection_params(&no_video, &described(0, 0), &audio()).unwrap();
    assert_eq!(p.bitrate, Some(96_000));
    let p = selection_params(&no_video, &described(0, 0), &video()).unwrap();
    assert_eq!(p.bitrate, None);
    let bare = Some(Mp4aEntry { sample_rate: 44100, descriptor: None });
    assert!(matches!(selection_params(&no_video, &bare, &audio()), Err(Error::Missing)));
}

#[test]
fn mime_types_are_checked() {
    let mut p = SelectionParams::new();
    assert!(p.set_mime_type("video/mp4").is_ok());
    assert_eq!(p.mime_type.as_deref(), Some("video/mp4"));
    assert!(matches!(p.set_mime_type("not a mime"), Err(CatalogError::External { .. })));
    assert_eq!(p.mime_type.as_deref(), Some("video/mp4"));
}

#[test]
fn catalog_holds_tracks_or_catalogs() {
    let mut c = MoqCatalog::new();
    assert_eq!(c.version, "1");
    assert_eq!(c.streaming_format, "1");
    assert_eq!(c.streaming_format_version, "1");
    assert!(!c.supports_delta_updates());
    c.enable_delta_updates();
    assert!(c.supports_delta_updates());
    c.disable_delta_updates();
    assert!(!c.supports_delta_updates());
    let mut t = Track::new("v", Packaging::CMAF);
    t.set_init_data(b"\x00\x01\x02");
    t.set_alt_group(2);
    assert_eq!(t.init_data.as_deref(), Some("AAEC"));
    assert_eq!(t.alt_group(), Some(2));
    assert_eq!(t.packaging(), Packaging::CMAF);
    c.insert_track(t).unwrap();
    assert_eq!(c.tracks_len(), 1);
    assert!(matches!(c.insert_catalog(Catalog::new("sub")), Err(CatalogError::TracksAlreadySet)));
    assert_eq!(c.catalogs_len(), 0);
    let mut d = MoqCatalog::new();
    d.insert_catalog(Catalog::new("sub")).unwrap();
    assert!(matches!(d.insert_track(Track::new("v", Packaging::LOC)), Err(CatalogError::CatalogsAlreadySet)));
    assert_eq!((d.tracks_len(), d.catalogs_len()), (0, 1));
    assert!(d.get_track_ref(0).is_none());
    let mut csf = CommonStructFields::new("", Packaging::CMAF);
    csf.set_namespace("ns");
    csf.set_label("l");
    csf.set_alt_group(1);
    d.set_common_track_fields(csf);
    assert_eq!(d.common_track_fields.as_ref().unwrap().namespace.as_deref(), Some("ns"));
}

#[test]
fn selection_param_setters() {
    let mut p = SelectionParams::new();
    p.set_framerate(30);
    p.set_bitrate(1);
    p.set_width(2);
    p.set_height(3);
    p.set_sample_rate(4);
    p.set_codec("c".to_string());
    assert_eq!((p.framerate(), p.bitrate(), p.width(), p.height(), p.sample_rate()), (Some(30), Some(1), Some(2), Some(3), Some(4)));
    assert_eq!(p.codec.as_deref(), Some("c"));
}

#[test]
fn trajectory_mode_defaults_to_cascade() {
    assert_eq!(default_trajectory_mode(), "cascade");
}

#[test]
fn catalog_getters() {
    let mut c = MoqCatalog::new();
    assert_eq!((c.version(), c.streaming_format(), c.streaming_format_version()), ("1", "1", "1"));
    assert!(c.common_track_fields().is_none());
    c.set_common_track_fields(CommonStructFields::new("n", Packaging::LOC));
    assert_eq!(c.common_track_fields().unwrap().name, "n");
    let mut t = Track::new("trk", Packaging::CMAF);
    assert_eq!((t.name(), t.label(), t.init_data()), ("trk", None, None));
    t.set_label("Label");
    let mut p = SelectionParams::new();
    assert_eq!((p.codec(), p.mime_type()), (None, None));
    p.set_codec("avc1.64001F".to_string());
    p.set_mime_type("video/mp4").unwrap();
    t.set_selection_params(p);
    assert_eq!(t.label(), Some("Label"));
    let sp = t.selection_params().unwrap();
    assert_eq!((sp.codec(), sp.mime_type()), (Some("avc1.64001F"), Some("video/mp4")));
}

#[test]
fn audio_representations_come_first() {
    let v = VideoSetting { name: "v".to_string(), resolution: String::new(), bitrate: 1, max_rate: 1, buffer_size: 1 };
    let a = AudioSetting { name: "a".to_string(), sampling_rate: 48000, bitrate: 2 };
    let reps = representations(vec![a], vec![v]);
    assert_eq!(reps.len(), 2);
    assert!(matches!(&reps[0], Setting::Audio(x) if x.name == "a"));
    assert!(matches!(&reps[1], Setting::Video(x) if x.name == "v"));
    assert_eq!(reps[1].name(), "v");
    assert!(representations(vec![], vec![]).is_empty());
}
