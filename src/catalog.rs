//! The catalog model: one track entry per representation, with the
//! selection parameters that subscribers choose by.
use vstd::prelude::*;

use base64::Engine;

verus! {

/// How a track's payload is encapsulated.
#[derive(Debug, Clone, Copy, PartialEq, Eq, Structural)]
pub enum Packaging {
    CMAF,
    LOC,
}

/// The catalog's errors.
#[derive(Debug)]
pub enum Error {
    /// An error reported by a collaborator: its name and message.
    External { krayt: String, error: String },
    /// Tracks cannot be added to a catalog that lists catalogs.
    CatalogsAlreadySet,
    /// Catalogs cannot be added to a catalog that lists tracks.
    TracksAlreadySet,
}

/// The standard base64 encoding of a byte sequence.
pub uninterp spec fn base64_of(b: Seq<u8>) -> Seq<char>;

/// The canonical text of a media type, or `None` where the text is not one.
pub uninterp spec fn mime_of(s: Seq<char>) -> Option<Seq<char>>;

/// Relies on base64's `STANDARD` engine `encode`: the padded standard
/// encoding of the input, which depends on the bytes alone.
#[verifier::external_body]
fn encode_base64(b: &[u8]) -> (r: String)
    requires
        b@.len() <= usize::MAX / 4,
    ensures
        r@ == base64_of(b@),
{
    base64::engine::general_purpose::STANDARD.encode(b)
}

/// Relies on mime's `Mime::from_str`, and on its `Display`, which writes the
/// media type's canonical (lower-cased) text; both depend on the text alone.
#[verifier::external_body]
fn parse_mime(s: &str) -> (r: Option<String>)
    ensures
        r.is_some() == mime_of(s@).is_some(),
        r.is_some() ==> r.unwrap()@ == mime_of(s@).unwrap(),
{
    match <mime::Mime as std::str::FromStr>::from_str(s) {
        Ok(m) => Some(m.to_string()),
        Err(_) => None,
    }
}

/// What a subscriber selects a track by.
pub struct SelectionParams {
    pub codec: Option<String>,
    pub mime_type: Option<String>,
    pub framerate: Option<u64>,
    pub bitrate: Option<u64>,
    pub width: Option<u16>,
    pub height: Option<u16>,
    pub sample_rate: Option<u16>,
    /// The language of the track's content.
    pub language: Option<String>,
}

impl SelectionParams {
    /// Parameters with every field unset.
    pub fn new() -> (r: SelectionParams)
        ensures
            r.codec.is_none() && r.mime_type.is_none() && r.framerate.is_none() && r.bitrate.is_none()
                && r.width.is_none() && r.height.is_none() && r.sample_rate.is_none()
                && r.language.is_none(),
    {
        SelectionParams {
            codec: None,
            mime_type: None,
            framerate: None,
            bitrate: None,
            width: None,
            height: None,
            sample_rate: None,
            language: None,
        }
    }

    pub fn set_language(&mut self, language: &str)
        ensures
            final(self).language.is_some() && final(self).language.unwrap()@ == language@,
            *final(self) == (SelectionParams { language: final(self).language, ..*old(self) }),
    {
        self.language = Some(language.to_owned());
    }

    pub fn language(&self) -> (r: Option<&str>)
        ensures
            r.is_some() == self.language.is_some(),
            r.is_some() ==> r.unwrap()@ == self.language.unwrap()@,
    {
        match &self.language {
            Some(l) => Some(l.as_str()),
            None => None,
        }
    }

    pub fn set_codec(&mut self, codec: String)
        ensures
            *final(self) == (SelectionParams { codec: Some(codec), ..*old(self) }),
    {
        self.codec = Some(codec);
    }

    /// Sets the media type, which must parse as one; the error leaves the
    /// parameters as they were.
    pub fn set_mime_type(&mut self, mime: &str) -> (r: Result<(), Error>)
        ensures
            mime_of(mime@).is_some() ==> r.is_ok() && final(self).mime_type.is_some()
                && final(self).mime_type.unwrap()@ == mime_of(mime@).unwrap() && *final(self) == (
            SelectionParams { mime_type: final(self).mime_type, ..*old(self) }),
            mime_of(mime@).is_none() ==> r.is_err() && *final(self) == *old(self),
    {
        match parse_mime(mime) {
            Some(m) => {
                self.mime_type = Some(m);
                Ok(())
            },
            None => Err(
                Error::External { krayt: "mime".to_owned(), error: "invalid media type".to_owned() },
            ),
        }
    }

    pub fn set_framerate(&mut self, framerate: u64)
        ensures
            *final(self) == (SelectionParams { framerate: Some(framerate), ..*old(self) }),
    {
        self.framerate = Some(framerate);
    }

    pub fn set_bitrate(&mut self, bitrate: u64)
        ensures
            *final(self) == (SelectionParams { bitrate: Some(bitrate), ..*old(self) }),
    {
        self.bitrate = Some(bitrate);
    }

    pub fn set_width(&mut self, width: u16)
        ensures
            *final(self) == (SelectionParams { width: Some(width), ..*old(self) }),
    {
        self.width = Some(width);
    }

    pub fn set_height(&mut self, height: u16)
        ensures
            *final(self) == (SelectionParams { height: Some(height), ..*old(self) }),
    {
        self.height = Some(height);
    }

    pub fn set_sample_rate(&mut self, sample_rate: u16)
        ensures
            *final(self) == (SelectionParams { sample_rate: Some(sample_rate), ..*old(self) }),
    {
        self.sample_rate = Some(sample_rate);
    }

    pub fn codec(&self) -> (r: Option<&str>)
        ensures
            r.is_some() == self.codec.is_some(),
            r.is_some() ==> r.unwrap()@ == self.codec.unwrap()@,
    {
        match &self.codec {
            Some(c) => Some(c.as_str()),
            None => None,
        }
    }

    pub fn mime_type(&self) -> (r: Option<&str>)
        ensures
            r.is_some() == self.mime_type.is_some(),
            r.is_some() ==> r.unwrap()@ == self.mime_type.unwrap()@,
    {
        match &self.mime_type {
            Some(m) => Some(m.as_str()),
            None => None,
        }
    }

    pub fn framerate(&self) -> (r: Option<u64>)
        ensures
            r == self.framerate,
    {
        self.framerate
    }

    pub fn bitrate(&self) -> (r: Option<u64>)
        ensures
            r == self.bitrate,
    {
        self.bitrate
    }

    pub fn width(&self) -> (r: Option<u16>)
        ensures
            r == self.width,
    {
        self.width
    }

    pub fn height(&self) -> (r: Option<u16>)
        ensures
            r == self.height,
    {
        self.height
    }

    pub fn sample_rate(&self) -> (r: Option<u16>)
        ensures
            r == self.sample_rate,
    {
        self.sample_rate
    }
}

/// One track of the catalog.
pub struct Track {
    pub namespace: Option<String>,
    pub name: String,
    pub packaging: Packaging,
    pub label: Option<String>,
    pub alt_group: Option<usize>,
    /// The base64 encoding of the track's initialization bytes.
    pub init_data: Option<String>,
    pub selection_params: Option<SelectionParams>,
}

impl Track {
    /// A track with a name and packaging and nothing else.
    pub fn new(name: &str, packaging: Packaging) -> (r: Track)
        ensures
            r.name@ == name@,
            r.packaging == packaging,
            r.namespace.is_none() && r.label.is_none() && r.alt_group.is_none()
                && r.init_data.is_none() && r.selection_params.is_none(),
    {
        Track {
            namespace: None,
            name: name.to_owned(),
            packaging,
            label: None,
            alt_group: None,
            init_data: None,
            selection_params: None,
        }
    }

    pub fn set_label(&mut self, label: &str)
        ensures
            final(self).label.is_some() && final(self).label.unwrap()@ == label@,
            *final(self) == (Track { label: final(self).label, ..*old(self) }),
    {
        self.label = Some(label.to_owned());
    }

    pub fn set_alt_group(&mut self, alt_group: usize)
        ensures
            *final(self) == (Track { alt_group: Some(alt_group), ..*old(self) }),
    {
        self.alt_group = Some(alt_group);
    }

    /// Stores the base64 encoding of the initialization bytes.
    pub fn set_init_data(&mut self, init_data: &[u8])
        requires
            init_data@.len() <= usize::MAX / 4,
        ensures
            final(self).init_data.is_some() && final(self).init_data.unwrap()@ == base64_of(
                init_data@,
            ),
            *final(self) == (Track { init_data: final(self).init_data, ..*old(self) }),
    {
        self.init_data = Some(encode_base64(init_data));
    }

    pub fn set_selection_params(&mut self, params: SelectionParams)
        ensures
            *final(self) == (Track { selection_params: Some(params), ..*old(self) }),
    {
        self.selection_params = Some(params);
    }

    pub fn alt_group(&self) -> (r: Option<usize>)
        ensures
            r == self.alt_group,
    {
        self.alt_group
    }

    pub fn name(&self) -> (r: &str)
        ensures
            r@ == self.name@,
    {
        self.name.as_str()
    }

    pub fn label(&self) -> (r: Option<&str>)
        ensures
            r.is_some() == self.label.is_some(),
            r.is_some() ==> r.unwrap()@ == self.label.unwrap()@,
    {
        match &self.label {
            Some(l) => Some(l.as_str()),
            None => None,
        }
    }

    pub fn init_data(&self) -> (r: Option<&str>)
        ensures
            r.is_some() == self.init_data.is_some(),
            r.is_some() ==> r.unwrap()@ == self.init_data.unwrap()@,
    {
        match &self.init_data {
            Some(d) => Some(d.as_str()),
            None => None,
        }
    }

    pub fn selection_params(&self) -> (r: Option<&SelectionParams>)
        ensures
            r.is_some() == self.selection_params.is_some(),
            r.is_some() ==> *r.unwrap() == self.selection_params.unwrap(),
    {
        match &self.selection_params {
            Some(p) => Some(p),
            None => None,
        }
    }

    pub fn packaging(&self) -> (r: Packaging)
        ensures
            r == self.packaging,
    {
        self.packaging
    }
}

/// Fields that every track of a catalog inherits.
pub struct CommonStructFields {
    pub namespace: Option<String>,
    pub name: String,
    pub packaging: Packaging,
    pub label: Option<String>,
    pub alt_group: Option<usize>,
}

impl CommonStructFields {
    pub fn new(name: &str, packaging: Packaging) -> (r: CommonStructFields)
        ensures
            r.name@ == name@,
            r.packaging == packaging,
            r.namespace.is_none() && r.label.is_none() && r.alt_group.is_none(),
    {
        CommonStructFields {
            namespace: None,
            name: name.to_owned(),
            packaging,
            label: None,
            alt_group: None,
        }
    }

    pub fn set_namespace(&mut self, namespace: &str)
        ensures
            final(self).namespace.is_some() && final(self).namespace.unwrap()@ == namespace@,
            *final(self) == (CommonStructFields { namespace: final(self).namespace, ..*old(self) }),
    {
        self.namespace = Some(namespace.to_owned());
    }

    pub fn set_label(&mut self, label: &str)
        ensures
            final(self).label.is_some() && final(self).label.unwrap()@ == label@,
            *final(self) == (CommonStructFields { label: final(self).label, ..*old(self) }),
    {
        self.label = Some(label.to_owned());
    }

    pub fn set_alt_group(&mut self, alt_group: usize)
        ensures
            *final(self) == (CommonStructFields { alt_group: Some(alt_group), ..*old(self) }),
    {
        self.alt_group = Some(alt_group);
    }
}

/// A catalog listed inside another catalog.
pub struct Catalog {
    pub namespace: Option<String>,
    pub name: String,
    pub streaming_format: String,
    pub streaming_format_version: String,
    pub supports_delta_updates: Option<bool>,
}

impl Catalog {
    pub fn new(name: &str) -> (r: Catalog)
        ensures
            r.name@ == name@,
            r.namespace.is_none(),
            r.streaming_format@ == "1"@,
            r.streaming_format_version@ == "1"@,
            r.supports_delta_updates.is_none(),
    {
        Catalog {
            namespace: None,
            name: name.to_owned(),
            streaming_format: "1".to_owned(),
            streaming_format_version: "1".to_owned(),
            supports_delta_updates: None,
        }
    }
}

/// The catalog of a broadcast: either a list of tracks or a list of
/// catalogs, never both.
pub struct MoqCatalog {
    pub version: String,
    pub streaming_format: String,
    pub streaming_format_version: String,
    pub supports_delta_updates: Option<bool>,
    pub common_track_fields: Option<CommonStructFields>,
    pub tracks: Option<Vec<Track>>,
    pub catalogs: Option<Vec<Catalog>>,
}

impl MoqCatalog {
    pub open spec fn wf(&self) -> bool {
        !(self.tracks.is_some() && self.catalogs.is_some())
    }

    /// The tracks listed, as a sequence.
    pub open spec fn track_seq(&self) -> Seq<Track> {
        match self.tracks {
            Some(t) => t@,
            None => Seq::empty(),
        }
    }

    /// An empty catalog of format version 1, without delta updates.
    pub fn new() -> (r: MoqCatalog)
        ensures
            r.wf(),
            r.version@ == "1"@,
            r.streaming_format@ == "1"@,
            r.streaming_format_version@ == "1"@,
            r.supports_delta_updates.is_none(),
            r.common_track_fields.is_none(),
            r.tracks.is_none(),
            r.catalogs.is_none(),
    {
        MoqCatalog {
            version: "1".to_owned(),
            streaming_format: "1".to_owned(),
            streaming_format_version: "1".to_owned(),
            supports_delta_updates: None,
            common_track_fields: None,
            tracks: None,
            catalogs: None,
        }
    }

    pub fn version(&self) -> (r: &str)
        ensures
            r@ == self.version@,
    {
        self.version.as_str()
    }

    pub fn streaming_format(&self) -> (r: &str)
        ensures
            r@ == self.streaming_format@,
    {
        self.streaming_format.as_str()
    }

    pub fn streaming_format_version(&self) -> (r: &str)
        ensures
            r@ == self.streaming_format_version@,
    {
        self.streaming_format_version.as_str()
    }

    pub fn common_track_fields(&self) -> (r: Option<&CommonStructFields>)
        ensures
            r.is_some() == self.common_track_fields.is_some(),
            r.is_some() ==> *r.unwrap() == self.common_track_fields.unwrap(),
    {
        match &self.common_track_fields {
            Some(c) => Some(c),
            None => None,
        }
    }

    pub fn enable_delta_updates(&mut self)
        ensures
            *final(self) == (MoqCatalog { supports_delta_updates: Some(true), ..*old(self) }),
    {
        self.supports_delta_updates = Some(true);
    }

    pub fn disable_delta_updates(&mut self)
        ensures
            *final(self) == (MoqCatalog { supports_delta_updates: Some(false), ..*old(self) }),
    {
        self.supports_delta_updates = Some(false);
    }

    /// Whether delta updates are announced; absent means they are not.
    pub fn supports_delta_updates(&self) -> (r: bool)
        ensures
            r == (self.supports_delta_updates == Some(true)),
    {
        match self.supports_delta_updates {
            Some(b) => b,
            None => false,
        }
    }

    pub fn set_common_track_fields(&mut self, csf: CommonStructFields)
        ensures
            *final(self) == (MoqCatalog { common_track_fields: Some(csf), ..*old(self) }),
    {
        self.common_track_fields = Some(csf);
    }

    /// Appends a track, unless the catalog lists catalogs.
    pub fn insert_track(&mut self, track: Track) -> (r: Result<(), Error>)
        requires
            old(self).wf(),
        ensures
            final(self).wf(),
            old(self).catalogs.is_some() ==> r == Err::<(), Error>(Error::CatalogsAlreadySet) && *final(self)
                == *old(self),
            old(self).catalogs.is_none() ==> r.is_ok() && final(self).tracks.is_some()
                && final(self).track_seq() == old(self).track_seq().push(track) && *final(self) == (
            MoqCatalog { tracks: final(self).tracks, ..*old(self) }),
    {
        if self.catalogs.is_some() {
            return Err(Error::CatalogsAlreadySet);
        }
        match &mut self.tracks {
            Some(tracks) => tracks.push(track),
            None => {
                let mut v = Vec::new();
                v.push(track);
                self.tracks = Some(v);
            },
        }
        Ok(())
    }

    /// Appends a catalog, unless the catalog lists tracks.
    pub fn insert_catalog(&mut self, catalog: Catalog) -> (r: Result<(), Error>)
        requires
            old(self).wf(),
        ensures
            final(self).wf(),
            old(self).tracks.is_some() ==> r == Err::<(), Error>(Error::TracksAlreadySet) && *final(self)
                == *old(self),
            old(self).tracks.is_none() ==> r.is_ok() && final(self).catalogs.is_some()
                && final(self).catalogs.unwrap()@ == (match old(self).catalogs {
                Some(c) => c@,
                None => Seq::empty(),
            }).push(catalog) && *final(self) == (MoqCatalog {
                catalogs: final(self).catalogs,
                ..*old(self)
            }),
    {
        if self.tracks.is_some() {
            return Err(Error::TracksAlreadySet);
        }
        match &mut self.catalogs {
            Some(catalogs) => catalogs.push(catalog),
            None => {
                let mut v = Vec::new();
                v.push(catalog);
                self.catalogs = Some(v);
            },
        }
        Ok(())
    }

    /// The number of tracks listed.
    pub fn tracks_len(&self) -> (r: usize)
        ensures
            r == self.track_seq().len(),
    {
        match &self.tracks {
            Some(t) => t.len(),
            None => 0,
        }
    }

    /// The number of catalogs listed.
    pub fn catalogs_len(&self) -> (r: usize)
        ensures
            r == (match self.catalogs {
                Some(c) => c@.len(),
                None => 0,
            }),
    {
        match &self.catalogs {
            Some(c) => c.len(),
            None => 0,
        }
    }

    /// The track at `index`, if there is one.
    pub fn get_track_ref(&self, index: usize) -> (r: Option<&Track>)
        ensures
            index < self.track_seq().len() ==> r == Some(&self.track_seq()[index as int]),
            index >= self.track_seq().len() ==> r.is_none(),
    {
        match &self.tracks {
            Some(t) => {
                if index < t.len() {
                    Some(&t[index])
                } else {
                    None
                }
            },
            None => None,
        }
    }
}

} // verus!
