//! The publisher: per-representation buffers and state, box dispatch, and
//! the catalog shared by all representations.
use vstd::prelude::*;

use crate::boxes::{box_type, framing, is_box, lemma_box_front, lemma_complete_front, lemma_prefix_incomplete, next_atom, read_u32, Framing};
use crate::catalog::{base64_of, mime_of, CommonStructFields, MoqCatalog, Packaging};
use crate::decode::{decode_moof, decode_moov, moof_of, moov_of, MovieHeader};
use crate::error::Error;
use crate::nesting::{check_nested, well_nested};
use crate::fragment::{is_keyframe_header, priority_of, timestamp_ms, Fragment, MAX_PRIORITY};
use crate::settings::Setting;
use crate::decode::{Mp4aEntry, VideoEntries};
use crate::setup::{selected, selection_error, selection_params, track_type, track_type_of};
use crate::track::{lemma_steps_push, open_after_boundary, steps, Action, Step, Track, TrackType};

verus! {

/// Tag of the type box, `ftyp`.
pub const FTYP: u32 = 0x66747970;
/// Tag of the container-metadata box, `moov`.
pub const MOOV: u32 = 0x6d6f6f76;
/// Tag of the fragment-header box, `moof`.
pub const MOOF: u32 = 0x6d6f6f66;
/// Tag of the fragment-payload box, `mdat`.
pub const MDAT: u32 = 0x6d646174;
/// Tag of the producer-reference-time box, `prft`.
pub const PRFT: u32 = 0x70726674;

/// The label that the catalog gives every track in common.
pub const LABEL: &'static str = "Dash MoQ";

/// Appends `src` to `dst`.
pub fn append_bytes(dst: &mut Vec<u8>, src: &[u8])
    ensures
        final(dst)@ == old(dst)@ + src@,
{
    let mut i: usize = 0;
    while i < src.len()
        invariant
            i <= src@.len(),
            dst@ == old(dst)@ + src@.subrange(0, i as int),
        decreases src@.len() - i,
    {
        dst.push(src[i]);
        i = i + 1;
        assert(src@.subrange(0, i as int) == src@.subrange(0, i - 1) + seq![src@[i - 1]]);
    }
    assert(src@.subrange(0, src@.len() as int) == src@);
}

/// The timescale of the first stream with the given track id.
pub fn track_timescale(moov: &MovieHeader, track_id: u32) -> (r: Option<u64>)
    ensures
        r.is_none() <==> forall|i: int| 0 <= i < moov.streams@.len() ==> moov.streams@[i].track_id != track_id,
        r.is_some() ==> exists|i: int|
            0 <= i < moov.streams@.len() && moov.streams@[i].track_id == track_id && r.unwrap()
                == moov.streams@[i].timescale as u64 && forall|j: int|
                0 <= j < i ==> moov.streams@[j].track_id != track_id,
{
    let mut i: usize = 0;
    while i < moov.streams.len()
        invariant
            i <= moov.streams@.len(),
            forall|j: int| 0 <= j < i ==> moov.streams@[j].track_id != track_id,
        decreases moov.streams@.len() - i,
    {
        if moov.streams[i].track_id == track_id {
            return Some(moov.streams[i].timescale as u64);
        }
        i = i + 1;
    }
    None
}

/// The state of one representation.
pub struct Representation {
    /// Bytes received and not yet cut into boxes.
    pub buf: Vec<u8>,
    /// The type box, once received.
    pub ftyp: Option<Vec<u8>>,
    /// The container metadata, once set up.
    pub moov: Option<MovieHeader>,
    /// A producer-reference-time box waiting for the next payload.
    pub prft: Option<Vec<u8>>,
    /// The transport track, once set up.
    pub track: Option<Track>,
}

/// The catalog entry of a representation that has been set up: named and
/// labelled by its settings, with its initialization bytes in base64 and the
/// selection parameters of its sample entries.
pub open spec fn is_entry_of(t: crate::catalog::Track, setting: Setting, init: Seq<u8>, moov: MovieHeader) -> bool {
    &&& t.name@ == setting.name_spec()@
    &&& t.packaging == Packaging::CMAF
    &&& t.label.is_some() && t.label.unwrap()@ == setting.name_spec()@
    &&& t.init_data.is_some() && t.init_data.unwrap()@ == base64_of(init)
    &&& t.namespace.is_none() && t.alt_group.is_none()
    &&& t.selection_params.is_some()
    &&& selected(t.selection_params.unwrap(), moov.video@[0], moov.audio@[0], setting)
}

/// The error that setting a representation up from `moov` gives, if any.
pub open spec fn setup_error(ftyp: Option<Vec<u8>>, moov: MovieHeader, raw: Seq<u8>) -> Option<Error> {
    if moov.streams@.len() != 1 {
        Some(Error::MultipleTracks)
    } else if moov.video@.len() != 1 || moov.audio@.len() != 1 {
        Some(Error::Decode)
    } else if moov.streams@[0].timescale == 0 {
        Some(Error::MalformedBox)
    } else if track_type_of(moov.streams@[0].handler).is_none() {
        Some(Error::Decode)
    } else if ftyp.is_none() {
        Some(Error::Missing)
    } else if ftyp.unwrap()@.len() + raw.len() > usize::MAX / 4 {
        Some(Error::Other)
    } else {
        selection_error(moov.video@[0], moov.audio@[0])
    }
}

/// The outcome of a fragment-header box for a representation: its error,
/// or the track state after it and the steps it adds.
pub open spec fn moof_outcome(track: Option<Track>, atom: Seq<u8>, rep: usize) -> Result<(Track, Seq<Step>), Error> {
    if !well_nested(atom) {
        Err(Error::MalformedBox)
    } else {
    match moof_of(atom) {
        None => Err(Error::Decode),
        Some(h) => if h.trafs@.len() != 1 {
            Err(Error::MultipleTracks)
        } else if h.trafs@[0].base_media_decode_time.is_none() {
            Err(Error::Missing)
        } else if track.is_none() {
            Err(Error::MissingTrack)
        } else {
            let t = track.unwrap();
            let ts = h.trafs@[0].base_media_decode_time.unwrap();
            let open = open_after_boundary(t.handler, t.current, is_keyframe_header(h));
            if open.is_some() {
                Ok((Track { current: open, ..t }, seq![Step::Write(rep, atom)]))
            } else {
                match priority_of(timestamp_ms(ts, t.timescale)) {
                    Some(p) => Ok(
                        (Track { current: Some(p), ..t }, seq![Step::OpenGroup(rep, p), Step::Write(rep, atom)]),
                    ),
                    None => Err(Error::PriorityOverflow),
                }
            }
        },
    }
    }
}

/// The bytes written for a payload box: the box, then the pending
/// producer-reference-time box if there is one.
pub open spec fn payload_of(atom: Seq<u8>, prft: Option<Vec<u8>>) -> Seq<u8> {
    match prft {
        Some(p) => atom + p@,
        None => atom,
    }
}

/// The stored state of a representation, apart from its buffer.
pub struct RepState {
    pub ftyp: Option<Vec<u8>>,
    pub moov: Option<MovieHeader>,
    pub prft: Option<Vec<u8>>,
    pub track: Option<Track>,
}

/// What handling the whole box `atom` does: from state `a`, catalog `ca`
/// and actions `oa` to `b`, `cb` and `ob`, with result `r`.
pub open spec fn box_effect(
    a: RepState,
    b: RepState,
    ca: MoqCatalog,
    cb: MoqCatalog,
    oa: Seq<Action>,
    ob: Seq<Action>,
    atom: Seq<u8>,
    setting: Setting,
    rep: usize,
    r: Result<bool, Error>,
) -> bool {
    let kind = box_type(atom);
    &&& r.is_err() ==> ob == oa && b.ftyp == a.ftyp && b.moov == a.moov && b.prft == a.prft && cb == ca
    &&& r.is_ok() ==> r == Ok::<bool, Error>(true)
    &&& kind != MOOV ==> cb == ca
    &&& kind == MOOV && r.is_ok() ==> b.ftyp == a.ftyp && b.prft == a.prft
    &&& kind == MOOF && r.is_ok() ==> b.ftyp == a.ftyp && b.moov == a.moov && b.prft == a.prft
    &&& kind == MDAT && r.is_ok() ==> b.ftyp == a.ftyp && b.moov == a.moov
    &&& kind == FTYP && r.is_ok() ==> b.prft == a.prft && b.moov == a.moov
    &&& kind == PRFT ==> r == Ok::<bool, Error>(true) && b.prft.is_some()
        && b.prft.unwrap()@ == atom && b.ftyp == a.ftyp
        && b.moov == a.moov && b.track == a.track
        && ob == oa
    &&& kind == FTYP && a.ftyp.is_some() ==> r == Err::<bool, Error>(Error::DuplicateInit)
        && b.ftyp == a.ftyp
    &&& kind == FTYP && a.ftyp.is_none() ==> r == Ok::<bool, Error>(true)
        && b.ftyp.is_some() && b.ftyp.unwrap()@ == atom
        && b.track == a.track && ob == oa
    &&& kind == MOOV && a.moov.is_some() ==> r == Err::<bool, Error>(Error::DuplicateInit)
        && b.moov == a.moov && b.track == a.track
        && cb == ca && ob == oa
    &&& kind == MOOV && a.moov.is_none() && !well_nested(atom) ==> r
        == Err::<bool, Error>(Error::MalformedBox)
    &&& kind == MOOV && a.moov.is_none() && well_nested(atom) && moov_of(atom).is_none() ==> r
        == Err::<bool, Error>(Error::Decode)
    &&& kind == MOOV && a.moov.is_none() && well_nested(atom) && moov_of(atom).is_some() ==> ({
        let m = moov_of(atom).unwrap();
        let e = setup_error(a.ftyp, m, atom);
        &&& e.is_some() ==> r == Err::<bool, Error>(e.unwrap())
        &&& e.is_none() ==> r == Ok::<bool, Error>(true) && b.moov == Some(m)
            && b.track == Some(
                Track {
                    rep,
                    current: None,
                    timescale: m.streams@[0].timescale as u64,
                    handler: track_type_of(m.streams@[0].handler).unwrap(),
                },
            ) && cb.track_seq().len() == ca.track_seq().len() + 1
            && cb.track_seq().subrange(0, ca.track_seq().len() as int)
            == ca.track_seq() && is_entry_of(
                cb.track_seq().last(),
                setting,
                a.ftyp.unwrap()@ + atom,
                m,
            ) && ob == oa.push(
                Action::CreateTrack { rep, name: setting.name_spec() },
            ).push(Action::PublishCatalog)
    })
    &&& kind == MOOF ==> match moof_outcome(a.track, atom, rep) {
        Err(e) => r == Err::<bool, Error>(e),
        Ok((t, added)) => r == Ok::<bool, Error>(true) && b.track == Some(t)
            && steps(ob) == steps(oa) + added,
    }
    &&& kind == MDAT && a.track.is_none() ==> r == Err::<bool, Error>(Error::MissingTrack)
    &&& kind == MDAT && a.track.is_some() && a.track.unwrap().current.is_none()
        ==> r == Err::<bool, Error>(Error::MissingGroup)
    &&& kind == MDAT && a.track.is_some() && a.track.unwrap().current.is_some()
        ==> r == Ok::<bool, Error>(true) && b.prft.is_none()
        && b.track == a.track && steps(ob) == steps(oa).push(
            Step::Write(rep, payload_of(atom, a.prft)),
        )
    &&& kind != PRFT && kind != FTYP && kind != MOOV && kind != MOOF && kind != MDAT
        ==> r == Ok::<bool, Error>(true) && b.ftyp == a.ftyp
        && b.moov == a.moov && b.prft == a.prft
        && b.track == a.track && ob == oa
}

/// What receiving the bytes `buf` does, box by box in order, from state `a`
/// (catalog `ca`, actions `oa`) to the representation `b` (catalog `cb`,
/// actions `ob`), with result `r`: each complete box has its effect; the
/// first that fails ends it with its error; the bytes left are kept.
pub open spec fn fed(
    a: RepState,
    b: Representation,
    ca: MoqCatalog,
    cb: MoqCatalog,
    oa: Seq<Action>,
    ob: Seq<Action>,
    buf: Seq<u8>,
    setting: Setting,
    rep: usize,
    r: Result<(), Error>,
) -> bool
    decreases buf.len(),
{
    match framing(buf) {
        Framing::Incomplete => r == Ok::<(), Error>(()) && b.state() == a && b.buf@ == buf && cb == ca && ob == oa,
        Framing::Malformed => r == Err::<(), Error>(Error::MalformedBox) && b.state() == a && b.buf@ == buf
            && cb == ca && ob == oa,
        Framing::Complete(n) => if 0 < n <= buf.len() {
            let atom = buf.subrange(0, n as int);
            let rest = buf.subrange(n as int, buf.len() as int);
            exists|m: RepState, cm: MoqCatalog, om: Seq<Action>, rb: Result<bool, Error>|
                #[trigger] box_effect(a, m, ca, cm, oa, om, atom, setting, rep, rb) && match rb {
                    Err(e) => r == Err::<(), Error>(e) && b.state() == m && b.buf@ == rest && cb == cm && ob == om,
                    Ok(_) => fed(m, b, cm, cb, om, ob, rest, setting, rep, r),
                }
        } else {
            false
        },
    }
}

impl Representation {
    pub open spec fn wf(&self, rep: int) -> bool {
        &&& self.track.is_some() ==> self.track.unwrap().wf() && self.track.unwrap().rep == rep
        &&& self.moov.is_some() ==> self.track.is_some()
    }

    /// The stored state, apart from the buffer.
    pub open spec fn state(&self) -> RepState {
        RepState { ftyp: self.ftyp, moov: self.moov, prft: self.prft, track: self.track }
    }

    /// Holds the same bytes and state as `other`.
    pub open spec fn same_as(&self, other: Representation) -> bool {
        &&& self.buf@ == other.buf@
        &&& self.ftyp == other.ftyp
        &&& self.moov == other.moov
        &&& self.prft == other.prft
        &&& self.track == other.track
    }

    /// Appends received bytes to the buffer.
    pub fn receive(&mut self, data: &[u8])
        ensures
            final(self).buf@ == old(self).buf@ + data@,
            final(self).ftyp == old(self).ftyp,
            final(self).moov == old(self).moov,
            final(self).prft == old(self).prft,
            final(self).track == old(self).track,
    {
        append_bytes(&mut self.buf, data);
    }

    /// A representation that has received nothing.
    pub fn new() -> (r: Representation)
        ensures
            r.buf@.len() == 0,
            r.ftyp.is_none() && r.moov.is_none() && r.prft.is_none() && r.track.is_none(),
    {
        Representation { buf: Vec::new(), ftyp: None, moov: None, prft: None, track: None }
    }

    /// Sets the representation up from its first container-metadata box:
    /// creates its transport track, and adds its entry to the catalog and
    /// republishes it. On an error nothing changes.
    pub fn setup(
        &mut self,
        rep: usize,
        moov: &MovieHeader,
        raw: &Vec<u8>,
        setting: &Setting,
        catalog: &mut MoqCatalog,
        out: &mut Vec<Action>,
    ) -> (r: Result<(), Error>)
        requires
            old(self).wf(rep as int),
            old(catalog).wf(),
            old(catalog).catalogs.is_none(),
        ensures
            final(catalog).wf(),
            final(catalog).catalogs.is_none(),
            final(self).buf == old(self).buf,
            final(self).ftyp == old(self).ftyp,
            final(self).moov == old(self).moov,
            final(self).prft == old(self).prft,
            setup_error(old(self).ftyp, *moov, raw@).is_some() ==> r == Err::<(), Error>(
                setup_error(old(self).ftyp, *moov, raw@).unwrap(),
            ),
            setup_error(old(self).ftyp, *moov, raw@).is_none() ==> r.is_ok(),
            r.is_err() ==> final(self).track == old(self).track && *final(catalog) == *old(catalog)
                && final(out)@ == old(out)@,
            r.is_ok() ==> ({
                let trak = moov.streams@[0];
                &&& moov.streams@.len() == 1
                &&& old(self).ftyp.is_some()
                &&& final(self).track == Some(
                    Track {
                        rep,
                        current: None,
                        timescale: trak.timescale as u64,
                        handler: track_type_of(trak.handler).unwrap(),
                    },
                )
                &&& final(catalog).track_seq().len() == old(catalog).track_seq().len() + 1
                &&& final(catalog).track_seq().subrange(0, old(catalog).track_seq().len() as int)
                    == old(catalog).track_seq()
                &&& is_entry_of(
                    final(catalog).track_seq().last(),
                    *setting,
                    old(self).ftyp.unwrap()@ + raw@,
                    *moov,
                )
                &&& final(out)@ == old(out)@.push(
                    Action::CreateTrack { rep, name: setting.name_spec() },
                ).push(Action::PublishCatalog)
            }),
    {
        if moov.streams.len() != 1 {
            return Err(Error::MultipleTracks);
        }
        if moov.video.len() != 1 || moov.audio.len() != 1 {
            return Err(Error::Decode);
        }
        let trak = &moov.streams[0];
        let timescale = match track_timescale(moov, trak.track_id) {
            Some(t) => t,
            None => return Err(Error::Missing),
        };
        if timescale == 0 {
            return Err(Error::MalformedBox);
        }
        let handler = match track_type(trak.handler) {
            Some(h) => h,
            None => return Err(Error::Decode),
        };
        let mut init: Vec<u8> = match &self.ftyp {
            Some(f) => f.clone(),
            None => return Err(Error::Missing),
        };
        append_bytes(&mut init, raw.as_slice());
        if init.len() > usize::MAX / 4 {
            return Err(Error::Other);
        }
        let params = selection_params(&moov.video[0], &moov.audio[0], setting)?;
        let name = setting.name();
        let mut entry = crate::catalog::Track::new(name.as_str(), Packaging::CMAF);
        entry.set_selection_params(params);
        entry.set_init_data(init.as_slice());
        entry.set_label(name.as_str());
        if catalog.insert_track(entry).is_err() {
            return Err(Error::Catalog);
        }
        out.push(Action::CreateTrack { rep, name: name.clone() });
        out.push(Action::PublishCatalog);
        self.track = Some(Track::new(rep, handler, timescale));
        Ok(())
    }

    /// Cuts the next complete box off the buffer and handles it by its type.
    /// Returns whether a box was cut.
    pub fn parse_atom(
        &mut self,
        rep: usize,
        setting: &Setting,
        catalog: &mut MoqCatalog,
        out: &mut Vec<Action>,
    ) -> (r: Result<bool, Error>)
        requires
            old(self).wf(rep as int),
            old(catalog).wf(),
            old(catalog).catalogs.is_none(),
        ensures
            final(self).wf(rep as int),
            final(catalog).wf(),
            final(catalog).catalogs.is_none(),
            r == Ok::<bool, Error>(false) ==> framing(old(self).buf@) == Framing::Incomplete,
            r == Ok::<bool, Error>(true) ==> final(self).buf@.len() < old(self).buf@.len(),
            match framing(old(self).buf@) {
                Framing::Incomplete => r == Ok::<bool, Error>(false) && final(self).same_as(*old(self))
                    && *final(catalog) == *old(catalog) && final(out)@ == old(out)@,
                Framing::Malformed => r == Err::<bool, Error>(Error::MalformedBox) && final(self).same_as(
                    *old(self),
                ) && *final(catalog) == *old(catalog) && final(out)@ == old(out)@,
                Framing::Complete(n) => final(self).buf@ == old(self).buf@.subrange(n as int, old(self).buf@.len() as int)
                    && box_effect(old(self).state(), final(self).state(), *old(catalog), *final(catalog), old(out)@, final(out)@,
                    old(self).buf@.subrange(0, n as int), *setting, rep, r),
            },
    {
        let atom = match next_atom(&mut self.buf) {
            Ok(Some(a)) => a,
            Ok(None) => return Ok(false),
            Err(e) => return Err(e),
        };
        let kind = read_u32(atom.as_slice(), 4);
        if kind == PRFT {
            self.prft = Some(atom);
        } else if kind == FTYP {
            if self.ftyp.is_some() {
                return Err(Error::DuplicateInit);
            }
            self.ftyp = Some(atom);
        } else if kind == MOOV {
            if self.moov.is_some() {
                return Err(Error::DuplicateInit);
            }
            if !check_nested(atom.as_slice()) {
                return Err(Error::MalformedBox);
            }
            let moov = match decode_moov(atom.as_slice()) {
                Some(m) => m,
                None => return Err(Error::Decode),
            };
            self.setup(rep, &moov, &atom, setting, catalog, out)?;
            self.moov = Some(moov);
        } else if kind == MOOF {
            if !check_nested(atom.as_slice()) {
                return Err(Error::MalformedBox);
            }
            let moof = match decode_moof(atom.as_slice()) {
                Some(m) => m,
                None => return Err(Error::Decode),
            };
            let fragment = Fragment::new(moof)?;
            let track = match &mut self.track {
                Some(t) => t,
                None => return Err(Error::MissingTrack),
            };
            let ghost before = *track;
            let ghost out_before = out@;
            track.fragment(atom, &fragment, out)?;
            proof {
                let open = open_after_boundary(before.handler, before.current, fragment.keyframe);
                if open.is_some() {
                    lemma_steps_push(out_before, Action::Write { rep, data: atom });
                    assert(steps(out@) =~= steps(out_before) + seq![Step::Write(rep, atom@)]);
                } else {
                    let p = priority_of(timestamp_ms(fragment.timestamp, before.timescale)).unwrap();
                    lemma_steps_push(out_before, Action::OpenGroup { rep, priority: p });
                    lemma_steps_push(out_before.push(Action::OpenGroup { rep, priority: p }), Action::Write { rep, data: atom });
                    assert(steps(out@) =~= steps(out_before) + seq![Step::OpenGroup(rep, p), Step::Write(rep, atom@)]);
                }
            }
        } else if kind == MDAT {
            let track = match &mut self.track {
                Some(t) => t,
                None => return Err(Error::MissingTrack),
            };
            if track.current.is_none() {
                return Err(Error::MissingGroup);
            }
            let mut data = atom;
            match self.prft.take() {
                Some(p) => append_bytes(&mut data, p.as_slice()),
                None => {},
            }
            let ghost out_before = out@;
            track.data(data, out)?;
            proof {
                lemma_steps_push(out_before, Action::Write { rep, data });
            }
        }
        Ok(true)
    }
}

/// Step `i` of a trace: buffer `i` starts with a complete box, whose effect
/// leads from state `i` to state `i + 1`, and buffer `i + 1` is what follows.
pub open spec fn stepped(
    states: Seq<RepState>,
    cats: Seq<MoqCatalog>,
    outs: Seq<Seq<Action>>,
    bufs: Seq<Seq<u8>>,
    i: int,
    setting: Setting,
    rep: usize,
) -> bool {
    match framing(bufs[i]) {
        Framing::Complete(n) => 0 < n <= bufs[i].len() && bufs[i + 1] == bufs[i].subrange(
            n as int,
            bufs[i].len() as int,
        ) && box_effect(
            states[i],
            states[i + 1],
            cats[i],
            cats[i + 1],
            outs[i],
            outs[i + 1],
            bufs[i].subrange(0, n as int),
            setting,
            rep,
            Ok::<bool, Error>(true),
        ),
        _ => false,
    }
}

proof fn lemma_fed_trace(
    states: Seq<RepState>,
    cats: Seq<MoqCatalog>,
    outs: Seq<Seq<Action>>,
    bufs: Seq<Seq<u8>>,
    i: int,
    b: Representation,
    cb: MoqCatalog,
    ob: Seq<Action>,
    setting: Setting,
    rep: usize,
    r: Result<(), Error>,
)
    requires
        0 <= i < states.len(),
        cats.len() == states.len() && outs.len() == states.len() && bufs.len() == states.len(),
        forall|j: int| i <= j < states.len() - 1 ==> #[trigger] stepped(states, cats, outs, bufs, j, setting, rep),
        fed(states.last(), b, cats.last(), cb, outs.last(), ob, bufs.last(), setting, rep, r),
    ensures
        fed(states[i], b, cats[i], cb, outs[i], ob, bufs[i], setting, rep, r),
    decreases states.len() - i,
{
    if i < states.len() - 1 {
        lemma_fed_trace(states, cats, outs, bufs, i + 1, b, cb, ob, setting, rep, r);
        assert(stepped(states, cats, outs, bufs, i, setting, rep));
        let n = match framing(bufs[i]) {
            Framing::Complete(n) => n,
            _ => 0,
        };
        assert(box_effect(
            states[i],
            states[i + 1],
            cats[i],
            cats[i + 1],
            outs[i],
            outs[i + 1],
            bufs[i].subrange(0, n as int),
            setting,
            rep,
            Ok::<bool, Error>(true),
        ));
    }
}

/// Receiving bytes in two chunks does what receiving them at once does:
/// if the first chunk `c1` is handled without error, leaving the
/// representation `b1`, and then `c2` is received on top of what `b1` kept,
/// the whole is what receiving `c1 ++ c2` from the start does.
pub proof fn lemma_fed_chunks(
    a: RepState,
    b1: Representation,
    b2: Representation,
    ca: MoqCatalog,
    c1: MoqCatalog,
    c2: MoqCatalog,
    oa: Seq<Action>,
    o1: Seq<Action>,
    o2: Seq<Action>,
    x: Seq<u8>,
    y: Seq<u8>,
    setting: Setting,
    rep: usize,
    r: Result<(), Error>,
)
    requires
        fed(a, b1, ca, c1, oa, o1, x, setting, rep, Ok::<(), Error>(())),
        fed(b1.state(), b2, c1, c2, o1, o2, b1.buf@ + y, setting, rep, r),
    ensures
        fed(a, b2, ca, c2, oa, o2, x + y, setting, rep, r),
    decreases x.len(),
{
    match framing(x) {
        Framing::Complete(n) => {
            let (m, cm, om, rb) = choose|m: RepState, cm: MoqCatalog, om: Seq<Action>, rb: Result<bool, Error>|
                #[trigger] box_effect(a, m, ca, cm, oa, om, x.subrange(0, n as int), setting, rep, rb) && match rb {
                    Err(e) => Ok::<(), Error>(()) == Err::<(), Error>(e) && b1.state() == m && b1.buf@ == x.subrange(
                        n as int,
                        x.len() as int,
                    ) && c1 == cm && o1 == om,
                    Ok(_) => fed(m, b1, cm, c1, om, o1, x.subrange(n as int, x.len() as int), setting, rep, Ok::<(), Error>(())),
                };
            let rest = x.subrange(n as int, x.len() as int);
            lemma_fed_chunks(m, b1, b2, cm, c1, c2, om, o1, o2, rest, y, setting, rep, r);
            lemma_complete_front(x, y, n);
            assert((x + y).subrange(0, n as int) =~= x.subrange(0, n as int));
            assert((x + y).subrange(n as int, (x + y).len() as int) =~= rest + y);
            assert(box_effect(a, m, ca, cm, oa, om, (x + y).subrange(0, n as int), setting, rep, rb));
        },
        _ => {
            assert(b1.buf@ + y =~= x + y);
        },
    }
}

/// Receiving a strict prefix of a well-formed box succeeds and changes
/// nothing but the buffer, which keeps the prefix; no action is asked for.
pub proof fn lemma_fed_box_prefix(
    a: RepState,
    b: Representation,
    ca: MoqCatalog,
    cb: MoqCatalog,
    oa: Seq<Action>,
    ob: Seq<Action>,
    bx: Seq<u8>,
    k: int,
    setting: Setting,
    rep: usize,
    r: Result<(), Error>,
)
    requires
        is_box(bx),
        0 <= k < bx.len(),
        fed(a, b, ca, cb, oa, ob, bx.subrange(0, k), setting, rep, r),
    ensures
        r == Ok::<(), Error>(()),
        b.state() == a,
        b.buf@ == bx.subrange(0, k),
        cb == ca,
        ob == oa,
{
    lemma_prefix_incomplete(bx, k);
}

proof fn lemma_fed_first(
    a: RepState,
    b: Representation,
    ca: MoqCatalog,
    cb: MoqCatalog,
    oa: Seq<Action>,
    ob: Seq<Action>,
    bx: Seq<u8>,
    rest: Seq<u8>,
    setting: Setting,
    rep: usize,
    r: Result<(), Error>,
) -> (w: (RepState, MoqCatalog, Seq<Action>, Result<bool, Error>))
    requires
        is_box(bx),
        fed(a, b, ca, cb, oa, ob, bx + rest, setting, rep, r),
    ensures
        box_effect(a, w.0, ca, w.1, oa, w.2, bx, setting, rep, w.3),
        w.3.is_err() ==> r == Err::<(), Error>(w.3->Err_0),
        w.3.is_ok() ==> fed(w.0, b, w.1, cb, w.2, ob, rest, setting, rep, r),
{
    let x = bx + rest;
    let n = bx.len();
    lemma_box_front(bx, rest);
    assert(x.subrange(0, n as int) =~= bx);
    assert(x.subrange(n as int, x.len() as int) =~= rest);
    choose|m: RepState, cm: MoqCatalog, om: Seq<Action>, rb: Result<bool, Error>|
        #[trigger] box_effect(a, m, ca, cm, oa, om, bx, setting, rep, rb) && match rb {
            Err(e) => r == Err::<(), Error>(e) && b.state() == m && b.buf@ == rest && cb == cm && ob == om,
            Ok(_) => fed(m, b, cm, cb, om, ob, rest, setting, rep, r),
        }
}

/// A representation that has received nothing yet, without a track.
pub open spec fn fresh() -> RepState {
    RepState { ftyp: None, moov: None, prft: None, track: None }
}

/// A stream of a type box, a container-metadata box describing one avc1
/// video stream with timescale 1000, a keyframe fragment at time 0 with its
/// payload, and a non-keyframe fragment at time 40 with its payload, received
/// by a fresh representation: it succeeds, asking for the track, one catalog
/// publish, one group at the top priority, and the four boxes written to it
/// in order.
pub proof fn lemma_end_to_end(
    f: Seq<u8>,
    mv: Seq<u8>,
    mf1: Seq<u8>,
    d1: Seq<u8>,
    mf2: Seq<u8>,
    d2: Seq<u8>,
    b: Representation,
    ca: MoqCatalog,
    cb: MoqCatalog,
    oa: Seq<Action>,
    ob: Seq<Action>,
    setting: Setting,
    rep: usize,
    r: Result<(), Error>,
)
    requires
        is_box(f) && box_type(f) == FTYP,
        is_box(mv) && box_type(mv) == MOOV && well_nested(mv),
        is_box(mf1) && box_type(mf1) == MOOF && well_nested(mf1),
        is_box(d1) && box_type(d1) == MDAT,
        is_box(mf2) && box_type(mf2) == MOOF && well_nested(mf2),
        is_box(d2) && box_type(d2) == MDAT,
        moov_of(mv).is_some(),
        moov_of(mv).unwrap().streams@.len() == 1,
        moov_of(mv).unwrap().video@.len() == 1,
        moov_of(mv).unwrap().audio@.len() == 1,
        moov_of(mv).unwrap().streams@[0].timescale == 1000,
        moov_of(mv).unwrap().streams@[0].handler == 0x76696465,
        moov_of(mv).unwrap().video@[0].avc1.is_some(),
        mime_of("video/mp4"@).is_some(),
        f.len() + mv.len() <= usize::MAX / 4,
        moof_of(mf1).is_some() && moof_of(mf1).unwrap().trafs@.len() == 1,
        moof_of(mf1).unwrap().trafs@[0].base_media_decode_time == Some(0u64),
        is_keyframe_header(moof_of(mf1).unwrap()),
        moof_of(mf2).is_some() && moof_of(mf2).unwrap().trafs@.len() == 1,
        moof_of(mf2).unwrap().trafs@[0].base_media_decode_time == Some(40u64),
        !is_keyframe_header(moof_of(mf2).unwrap()),
        fed(fresh(), b, ca, cb, oa, ob, f + (mv + (mf1 + (d1 + (mf2 + d2)))), setting, rep, r),
    ensures
        r == Ok::<(), Error>(()),
        steps(ob) == steps(oa) + seq![
            Step::CreateTrack(rep, setting.name_spec()@),
            Step::PublishCatalog,
            Step::OpenGroup(rep, MAX_PRIORITY),
            Step::Write(rep, mf1),
            Step::Write(rep, d1),
            Step::Write(rep, mf2),
            Step::Write(rep, d2),
        ],
{
    let e = Seq::<u8>::empty();
    let w1 = lemma_fed_first(fresh(), b, ca, cb, oa, ob, f, mv + (mf1 + (d1 + (mf2 + d2))), setting, rep, r);
    let w2 = lemma_fed_first(w1.0, b, w1.1, cb, w1.2, ob, mv, mf1 + (d1 + (mf2 + d2)), setting, rep, r);
    let m = moov_of(mv).unwrap();
    assert(setup_error(w1.0.ftyp, m, mv).is_none());
    lemma_steps_push(w1.2, Action::CreateTrack { rep, name: setting.name_spec() });
    lemma_steps_push(w1.2.push(Action::CreateTrack { rep, name: setting.name_spec() }), Action::PublishCatalog);
    let w3 = lemma_fed_first(w2.0, b, w2.1, cb, w2.2, ob, mf1, d1 + (mf2 + d2), setting, rep, r);
    assert(timestamp_ms(0, 1000) == 0) by (nonlinear_arith);
    let w4 = lemma_fed_first(w3.0, b, w3.1, cb, w3.2, ob, d1, mf2 + d2, setting, rep, r);
    let w5 = lemma_fed_first(w4.0, b, w4.1, cb, w4.2, ob, mf2, d2, setting, rep, r);
    assert(d2 + e =~= d2);
    let w6 = lemma_fed_first(w5.0, b, w5.1, cb, w5.2, ob, d2, e, setting, rep, r);
    assert(steps(ob) =~= steps(oa) + seq![
        Step::CreateTrack(rep, setting.name_spec()@),
        Step::PublishCatalog,
        Step::OpenGroup(rep, MAX_PRIORITY),
        Step::Write(rep, mf1),
        Step::Write(rep, d1),
        Step::Write(rep, mf2),
        Step::Write(rep, d2),
    ]);
}

/// Republishes the box streams of a broadcast's representations.
pub struct Publisher {
    /// The state of each representation, by identifier.
    pub reps: Vec<Representation>,
    /// The settings of each representation, by identifier.
    pub settings: Vec<Setting>,
    /// The catalog of the representations set up so far.
    pub catalog: MoqCatalog,
}

impl Publisher {
    pub open spec fn wf(&self) -> bool {
        &&& self.reps@.len() == self.settings@.len()
        &&& self.catalog.wf()
        &&& self.catalog.catalogs.is_none()
        &&& forall|i: int| 0 <= i < self.reps@.len() ==> #[trigger] self.reps@[i].wf(i)
    }

    /// A publisher for one representation per setting, identified by its
    /// index, under the broadcast's namespace. Nothing is set up yet; the
    /// catalog lists no track and does not announce delta updates.
    pub fn new(namespace: &str, settings: Vec<Setting>) -> (r: Publisher)
        ensures
            r.wf(),
            r.settings@ == settings@,
            forall|i: int| 0 <= i < r.reps@.len() ==> (#[trigger] r.reps@[i]).buf@.len() == 0
                && r.reps@[i].ftyp.is_none() && r.reps@[i].moov.is_none() && r.reps@[i].prft.is_none()
                && r.reps@[i].track.is_none(),
            r.catalog.tracks.is_none(),
            r.catalog.supports_delta_updates.is_none(),
            r.catalog.common_track_fields.is_some(),
            r.catalog.common_track_fields.unwrap().namespace.is_some(),
            r.catalog.common_track_fields.unwrap().namespace.unwrap()@ == namespace@,
            r.catalog.common_track_fields.unwrap().alt_group == Some(1usize),
            r.catalog.common_track_fields.unwrap().label.is_some(),
            r.catalog.common_track_fields.unwrap().label.unwrap()@ == LABEL@,
    {
        let mut catalog = MoqCatalog::new();
        let mut csf = CommonStructFields::new("", Packaging::CMAF);
        csf.set_alt_group(1);
        csf.set_label(LABEL);
        csf.set_namespace(namespace);
        catalog.set_common_track_fields(csf);
        let mut reps: Vec<Representation> = Vec::new();
        let mut i: usize = 0;
        while i < settings.len()
            invariant
                i <= settings@.len(),
                reps@.len() == i,
                forall|j: int| 0 <= j < reps@.len() ==> (#[trigger] reps@[j]).buf@.len() == 0
                    && reps@[j].ftyp.is_none() && reps@[j].moov.is_none() && reps@[j].prft.is_none()
                    && reps@[j].track.is_none(),
            decreases settings@.len() - i,
        {
            reps.push(Representation::new());
            i = i + 1;
        }
        Publisher { reps, settings, catalog }
    }

    /// Appends bytes received for a representation, then handles every box
    /// that is complete. On success what is left of its buffer holds no
    /// complete box; an unknown representation is refused.
    pub fn publish(&mut self, rep: usize, data: &[u8], out: &mut Vec<Action>) -> (r: Result<(), Error>)
        requires
            old(self).wf(),
        ensures
            final(self).wf(),
            final(self).settings == old(self).settings,
            final(self).reps@.len() == old(self).reps@.len(),
            rep >= old(self).reps@.len() ==> r == Err::<(), Error>(Error::Missing)
                && final(self).reps == old(self).reps && final(self).catalog == old(self).catalog
                && final(out)@ == old(out)@,
            r.is_ok() ==> framing(final(self).reps@[rep as int].buf@) == Framing::Incomplete,
            forall|i: int| 0 <= i < old(self).reps@.len() && i != rep ==> final(self).reps@[i]
                == old(self).reps@[i],
            rep < old(self).reps@.len() ==> fed(
                old(self).reps@[rep as int].state(),
                final(self).reps@[rep as int],
                old(self).catalog,
                final(self).catalog,
                old(out)@,
                final(out)@,
                old(self).reps@[rep as int].buf@ + data@,
                old(self).settings@[rep as int],
                rep,
                r,
            ),
    {
        if rep >= self.reps.len() {
            return Err(Error::Missing);
        }
        let ghost setting = self.settings@[rep as int];
        self.reps[rep].receive(data);
        let ghost mut states: Seq<RepState> = seq![self.reps@[rep as int].state()];
        let ghost mut cats: Seq<MoqCatalog> = seq![self.catalog];
        let ghost mut outs: Seq<Seq<Action>> = seq![out@];
        let ghost mut bufs: Seq<Seq<u8>> = seq![self.reps@[rep as int].buf@];
        assert forall|i: int| 0 <= i < self.reps@.len() implies #[trigger] self.reps@[i].wf(i) by {
            assert(old(self).reps@[i].wf(i));
        }
        loop
            invariant
                self.wf(),
                rep < self.reps@.len(),
                self.settings == old(self).settings,
                self.reps@.len() == old(self).reps@.len(),
                forall|i: int| 0 <= i < old(self).reps@.len() && i != rep ==> self.reps@[i]
                    == old(self).reps@[i],
                setting == self.settings@[rep as int],
                states.len() >= 1,
                cats.len() == states.len() && outs.len() == states.len() && bufs.len() == states.len(),
                states[0] == old(self).reps@[rep as int].state(),
                cats[0] == old(self).catalog,
                outs[0] == old(out)@,
                bufs[0] == old(self).reps@[rep as int].buf@ + data@,
                states.last() == self.reps@[rep as int].state(),
                cats.last() == self.catalog,
                outs.last() == out@,
                bufs.last() == self.reps@[rep as int].buf@,
                forall|j: int| 0 <= j < states.len() - 1 ==> #[trigger] stepped(states, cats, outs, bufs, j, setting, rep),
            decreases self.reps@[rep as int].buf@.len(),
        {
            assert(self.reps@[rep as int].wf(rep as int));
            let cut = self.reps[rep].parse_atom(rep, &self.settings[rep], &mut self.catalog, out);
            assert(forall|i: int| 0 <= i < self.reps@.len() ==> #[trigger] self.reps@[i].wf(i));
            proof {
                let k = states.len() - 1;
                let n = match framing(bufs.last()) {
                    Framing::Complete(n) => n,
                    _ => 0,
                };
                if cut == Ok::<bool, Error>(true) {
                    let s2 = states.push(self.reps@[rep as int].state());
                    let c2 = cats.push(self.catalog);
                    let o2 = outs.push(out@);
                    let b2 = bufs.push(self.reps@[rep as int].buf@);
                    assert forall|j: int| 0 <= j < s2.len() - 1 implies #[trigger] stepped(s2, c2, o2, b2, j, setting, rep) by {
                        if j < k {
                            assert(stepped(states, cats, outs, bufs, j, setting, rep));
                            assert(s2[j] == states[j] && s2[j + 1] == states[j + 1]);
                            assert(b2[j] == bufs[j] && b2[j + 1] == bufs[j + 1]);
                        } else {
                            assert(b2[j] == bufs.last());
                        }
                    }
                    states = s2;
                    cats = c2;
                    outs = o2;
                    bufs = b2;
                } else {
                    let b = self.reps@[rep as int];
                    let r: Result<(), Error> = if cut.is_ok() {
                        Ok(())
                    } else {
                        Err(cut->Err_0)
                    };
                    if let Framing::Complete(n) = framing(bufs.last()) {
                        assert(box_effect(
                            states.last(),
                            b.state(),
                            cats.last(),
                            self.catalog,
                            outs.last(),
                            out@,
                            bufs.last().subrange(0, n as int),
                            setting,
                            rep,
                            cut,
                        ));
                    }
                    assert(fed(states.last(), b, cats.last(), self.catalog, outs.last(), out@, bufs.last(), setting, rep, r));
                    lemma_fed_trace(states, cats, outs, bufs, 0, b, self.catalog, out@, setting, rep, r);
                }
            }
            match cut {
                Ok(true) => {},
                Ok(false) => return Ok(()),
                Err(e) => return Err(e),
            }
        }
    }
}

} // verus!
