//! The audio sidecar file, commonly named `BPMInfo.dat`.
//!
//! See [`Audio`] to get started.

use vstd::prelude::*;
use vstd::string::StringExecFns;

use crate::fields::{f_beats, f_string, f_u32, f_usize, jget, sd_arr, sd_beats, sd_string, sd_uint};
use crate::json::{pp_document, sp_document, vs, Json, JsonV};
use crate::num::{dec_string, dec_text};
use crate::Beats;
use crate::Error;
use crate::ErrorKind;

verus! {

/// Information regarding how an audio file should be processed.
#[derive(Debug, Clone, PartialEq)]
pub struct Audio {
    /// Should be "4.0.0", that's the currently supported schema version.
    pub version: String,
    /// Used for verifying internal relationships and leaderboard integrity.
    pub song_checksum: String,
    /// The duration of the audio file in samples.
    pub song_sample_count: u32,
    /// The cached quality level of the audio file.
    pub song_frequency: u32,
    /// See [`BpmData`].
    pub bpm_data: Vec<BpmData>,
    /// See [`LufsData`].
    pub lufs_data: Vec<LufsData>,
}

/// Regions in an [`Audio`] to alter the BPM of.
#[derive(Debug, Clone, PartialEq)]
pub struct BpmData {
    /// The starting sample index.  Wire key `si`.
    pub start_index: usize,
    /// The ending sample index.  Wire key `ei`.
    pub end_index: usize,
    /// The starting beat.  Wire key `sb`.
    pub start_beat: Beats,
    /// The ending beat.  Wire key `eb`.
    pub end_beat: Beats,
}

/// Normalization to apply to the loudness of an [`Audio`] within the
/// specified region.
#[derive(Debug, Clone, PartialEq)]
pub struct LufsData {
    /// The starting sample index.  Wire key `si`.
    pub start_index: usize,
    /// The ending sample index.  Wire key `ei`.
    pub end_index: usize,
    /// The loudness.  Wire key `l`.
    pub loudness: usize,
}

/// The mathematical value of an [`Audio`].
pub struct AudioV {
    /// See [`Audio::version`].
    pub version: Seq<char>,
    /// See [`Audio::song_checksum`].
    pub song_checksum: Seq<char>,
    /// See [`Audio::song_sample_count`].
    pub song_sample_count: u32,
    /// See [`Audio::song_frequency`].
    pub song_frequency: u32,
    /// See [`Audio::bpm_data`].
    pub bpm_data: Seq<BpmDataV>,
    /// See [`Audio::lufs_data`].
    pub lufs_data: Seq<LufsDataV>,
}

/// The mathematical value of a [`BpmData`].
pub struct BpmDataV {
    /// See [`BpmData::start_index`].
    pub start_index: usize,
    /// See [`BpmData::end_index`].
    pub end_index: usize,
    /// See [`BpmData::start_beat`].
    pub start_beat: Seq<char>,
    /// See [`BpmData::end_beat`].
    pub end_beat: Seq<char>,
}

/// The mathematical value of a [`LufsData`].
pub struct LufsDataV {
    /// See [`LufsData::start_index`].
    pub start_index: usize,
    /// See [`LufsData::end_index`].
    pub end_index: usize,
    /// See [`LufsData::loudness`].
    pub loudness: usize,
}

impl View for BpmData {
    type V = BpmDataV;

    open spec fn view(&self) -> BpmDataV {
        BpmDataV {
            start_index: self.start_index,
            end_index: self.end_index,
            start_beat: self.start_beat@,
            end_beat: self.end_beat@,
        }
    }
}

impl DeepView for BpmData {
    type V = BpmDataV;

    open spec fn deep_view(&self) -> BpmDataV {
        self.view()
    }
}

impl View for LufsData {
    type V = LufsDataV;

    open spec fn view(&self) -> LufsDataV {
        LufsDataV {
            start_index: self.start_index,
            end_index: self.end_index,
            loudness: self.loudness,
        }
    }
}

impl DeepView for LufsData {
    type V = LufsDataV;

    open spec fn deep_view(&self) -> LufsDataV {
        self.view()
    }
}

impl View for Audio {
    type V = AudioV;

    open spec fn view(&self) -> AudioV {
        AudioV {
            version: self.version@,
            song_checksum: self.song_checksum@,
            song_sample_count: self.song_sample_count,
            song_frequency: self.song_frequency,
            bpm_data: self.bpm_data.deep_view(),
            lufs_data: self.lufs_data.deep_view(),
        }
    }
}

impl DeepView for Audio {
    type V = AudioV;

    open spec fn deep_view(&self) -> AudioV {
        self.view()
    }
}

/// How one BPM region is decoded from its wire object.
pub open spec fn sd_bpm(v: JsonV) -> Result<BpmDataV, ErrorKind> {
    match v {
        JsonV::Obj(ms) => match sd_uint(ms, "si"@, usize::MAX as nat) {
            Err(e) => Err(e),
            Ok(si) => match sd_uint(ms, "ei"@, usize::MAX as nat) {
                Err(e) => Err(e),
                Ok(ei) => match sd_beats(ms, "sb"@) {
                    Err(e) => Err(e),
                    Ok(sb) => match sd_beats(ms, "eb"@) {
                        Err(e) => Err(e),
                        Ok(eb) => Ok(
                            BpmDataV {
                                start_index: si as usize,
                                end_index: ei as usize,
                                start_beat: sb,
                                end_beat: eb,
                            },
                        ),
                    },
                },
            },
        },
        _ => Err(ErrorKind::Decode),
    }
}

/// How the BPM regions from `i` on are decoded, after those already read
/// into `acc`.
pub open spec fn sd_bpm_list(items: Seq<JsonV>, i: int, acc: Seq<BpmDataV>) -> Result<
    Seq<BpmDataV>,
    ErrorKind,
>
    decreases items.len() - i,
{
    if !(0 <= i < items.len()) {
        Ok(acc)
    } else {
        match sd_bpm(items[i]) {
            Err(e) => Err(e),
            Ok(x) => sd_bpm_list(items, i + 1, acc.push(x)),
        }
    }
}

/// How one loudness region is decoded from its wire object.
pub open spec fn sd_lufs(v: JsonV) -> Result<LufsDataV, ErrorKind> {
    match v {
        JsonV::Obj(ms) => match sd_uint(ms, "si"@, usize::MAX as nat) {
            Err(e) => Err(e),
            Ok(si) => match sd_uint(ms, "ei"@, usize::MAX as nat) {
                Err(e) => Err(e),
                Ok(ei) => match sd_uint(ms, "l"@, usize::MAX as nat) {
                    Err(e) => Err(e),
                    Ok(l) => Ok(
                        LufsDataV {
                            start_index: si as usize,
                            end_index: ei as usize,
                            loudness: l as usize,
                        },
                    ),
                },
            },
        },
        _ => Err(ErrorKind::Decode),
    }
}

/// How the loudness regions from `i` on are decoded.
pub open spec fn sd_lufs_list(items: Seq<JsonV>, i: int, acc: Seq<LufsDataV>) -> Result<
    Seq<LufsDataV>,
    ErrorKind,
>
    decreases items.len() - i,
{
    if !(0 <= i < items.len()) {
        Ok(acc)
    } else {
        match sd_lufs(items[i]) {
            Err(e) => Err(e),
            Ok(x) => sd_lufs_list(items, i + 1, acc.push(x)),
        }
    }
}

/// How a whole audio sidecar is decoded from its wire object's members.
pub open spec fn sd_audio(ms: Seq<(Seq<char>, JsonV)>) -> Result<AudioV, ErrorKind> {
    match sd_string(ms, "version"@, "4.0.0"@) {
        Err(e) => Err(e),
        Ok(version) => match sd_string(ms, "songChecksum"@, Seq::empty()) {
            Err(e) => Err(e),
            Ok(song_checksum) => match sd_uint(ms, "songSampleCount"@, u32::MAX as nat) {
                Err(e) => Err(e),
                Ok(ssc) => match sd_uint(ms, "songFrequency"@, u32::MAX as nat) {
                    Err(e) => Err(e),
                    Ok(sf) => match sd_arr(ms, "bpmData"@) {
                        Err(e) => Err(e),
                        Ok(bpm_items) => match sd_bpm_list(bpm_items, 0, Seq::empty()) {
                            Err(e) => Err(e),
                            Ok(bpm_data) => match sd_arr(ms, "lufsData"@) {
                                Err(e) => Err(e),
                                Ok(lufs_items) => match sd_lufs_list(lufs_items, 0, Seq::empty()) {
                                    Err(e) => Err(e),
                                    Ok(lufs_data) => Ok(
                                        AudioV {
                                            version,
                                            song_checksum,
                                            song_sample_count: ssc as u32,
                                            song_frequency: sf as u32,
                                            bpm_data,
                                            lufs_data,
                                        },
                                    ),
                                },
                            },
                        },
                    },
                },
            },
        },
    }
}

/// How a whole audio sidecar is decoded from a document value.
pub open spec fn sd_audio_doc(v: JsonV) -> Result<AudioV, ErrorKind> {
    match v {
        JsonV::Obj(ms) => sd_audio(ms),
        _ => Err(ErrorKind::Decode),
    }
}

/// How a whole audio sidecar is decoded from document text.
pub open spec fn audio_from_text(t: Seq<char>) -> Result<AudioV, ErrorKind> {
    match sp_document(t) {
        None => Err(ErrorKind::Decode),
        Some(v) => sd_audio_doc(v),
    }
}

/// The wire object of one BPM region.
pub open spec fn js_bpm(b: BpmDataV) -> JsonV {
    JsonV::Obj(
        seq![
            ("si"@, JsonV::Num(dec_text(b.start_index as nat))),
            ("ei"@, JsonV::Num(dec_text(b.end_index as nat))),
            ("sb"@, JsonV::Num(b.start_beat)),
            ("eb"@, JsonV::Num(b.end_beat)),
        ],
    )
}

/// The wire objects of a list of BPM regions.
pub open spec fn js_bpm_list(bs: Seq<BpmDataV>) -> Seq<JsonV> {
    Seq::new(
        bs.len(),
        |i: int|
            if 0 <= i < bs.len() {
                js_bpm(bs[i])
            } else {
                JsonV::Null
            },
    )
}

/// The wire object of one loudness region.
pub open spec fn js_lufs(l: LufsDataV) -> JsonV {
    JsonV::Obj(
        seq![
            ("si"@, JsonV::Num(dec_text(l.start_index as nat))),
            ("ei"@, JsonV::Num(dec_text(l.end_index as nat))),
            ("l"@, JsonV::Num(dec_text(l.loudness as nat))),
        ],
    )
}

/// The wire objects of a list of loudness regions.
pub open spec fn js_lufs_list(ls: Seq<LufsDataV>) -> Seq<JsonV> {
    Seq::new(
        ls.len(),
        |i: int|
            if 0 <= i < ls.len() {
                js_lufs(ls[i])
            } else {
                JsonV::Null
            },
    )
}

/// The wire object of a whole audio sidecar, keys in declaration order.
pub open spec fn js_audio(a: AudioV) -> JsonV {
    JsonV::Obj(
        seq![
            ("version"@, JsonV::Str(a.version)),
            ("songChecksum"@, JsonV::Str(a.song_checksum)),
            ("songSampleCount"@, JsonV::Num(dec_text(a.song_sample_count as nat))),
            ("songFrequency"@, JsonV::Num(dec_text(a.song_frequency as nat))),
            ("bpmData"@, JsonV::Arr(js_bpm_list(a.bpm_data))),
            ("lufsData"@, JsonV::Arr(js_lufs_list(a.lufs_data))),
        ],
    )
}

impl BpmData {
    /// Decodes one BPM region from its wire object.
    pub fn from_json(j: &Json) -> (r: Result<BpmData, Error>)
        ensures
            match r {
                Ok(b) => sd_bpm(j.v()) == Ok::<BpmDataV, ErrorKind>(b@),
                Err(e) => sd_bpm(j.v()) == Err::<BpmDataV, ErrorKind>(e.kind()),
            },
    {
        match j {
            Json::Obj(ms) => {
                let start_index = match f_usize(ms, "si") {
                    Ok(v) => v,
                    Err(e) => return Err(e),
                };
                let end_index = match f_usize(ms, "ei") {
                    Ok(v) => v,
                    Err(e) => return Err(e),
                };
                let start_beat = match f_beats(ms, "sb") {
                    Ok(v) => v,
                    Err(e) => return Err(e),
                };
                let end_beat = match f_beats(ms, "eb") {
                    Ok(v) => v,
                    Err(e) => return Err(e),
                };
                Ok(BpmData { start_index, end_index, start_beat, end_beat })
            },
            _ => Err(Error::Decode(String::from_str("bpm region"))),
        }
    }

    /// Encodes this BPM region as its wire object.
    pub fn to_json(&self) -> (r: Json)
        ensures
            r.v() == js_bpm(self@),
    {
        let mut ms: Vec<(String, Json)> = Vec::new();
        ms.push((String::from_str("si"), Json::Num(dec_string(self.start_index as u64))));
        ms.push((String::from_str("ei"), Json::Num(dec_string(self.end_index as u64))));
        ms.push((String::from_str("sb"), Json::Num(self.start_beat.clone())));
        ms.push((String::from_str("eb"), Json::Num(self.end_beat.clone())));
        let r = Json::Obj(ms);
        proof {
            assert(ms@[0].0@ == "si"@ && ms@[0].1.v() == JsonV::Num(
                dec_text(self.start_index as nat),
            ));
            assert(ms@[1].0@ == "ei"@ && ms@[1].1.v() == JsonV::Num(
                dec_text(self.end_index as nat),
            ));
            assert(ms@[2].0@ == "sb"@ && ms@[2].1.v() == JsonV::Num(self.start_beat@));
            assert(ms@[3].0@ == "eb"@ && ms@[3].1.v() == JsonV::Num(self.end_beat@));
            assert(r.v() matches JsonV::Obj(got) && (js_bpm(self@) matches JsonV::Obj(want)
                && got =~~= want));
        }
        r
    }
}

impl LufsData {
    /// Decodes one loudness region from its wire object.
    pub fn from_json(j: &Json) -> (r: Result<LufsData, Error>)
        ensures
            match r {
                Ok(l) => sd_lufs(j.v()) == Ok::<LufsDataV, ErrorKind>(l@),
                Err(e) => sd_lufs(j.v()) == Err::<LufsDataV, ErrorKind>(e.kind()),
            },
    {
        match j {
            Json::Obj(ms) => {
                let start_index = match f_usize(ms, "si") {
                    Ok(v) => v,
                    Err(e) => return Err(e),
                };
                let end_index = match f_usize(ms, "ei") {
                    Ok(v) => v,
                    Err(e) => return Err(e),
                };
                let loudness = match f_usize(ms, "l") {
                    Ok(v) => v,
                    Err(e) => return Err(e),
                };
                Ok(LufsData { start_index, end_index, loudness })
            },
            _ => Err(Error::Decode(String::from_str("lufs region"))),
        }
    }

    /// Encodes this loudness region as its wire object.
    pub fn to_json(&self) -> (r: Json)
        ensures
            r.v() == js_lufs(self@),
    {
        let mut ms: Vec<(String, Json)> = Vec::new();
        ms.push((String::from_str("si"), Json::Num(dec_string(self.start_index as u64))));
        ms.push((String::from_str("ei"), Json::Num(dec_string(self.end_index as u64))));
        ms.push((String::from_str("l"), Json::Num(dec_string(self.loudness as u64))));
        let r = Json::Obj(ms);
        proof {
            assert(ms@[0].0@ == "si"@ && ms@[0].1.v() == JsonV::Num(
                dec_text(self.start_index as nat),
            ));
            assert(ms@[1].0@ == "ei"@ && ms@[1].1.v() == JsonV::Num(
                dec_text(self.end_index as nat),
            ));
            assert(ms@[2].0@ == "l"@ && ms@[2].1.v() == JsonV::Num(dec_text(self.loudness as nat)));
            assert(r.v() matches JsonV::Obj(got) && (js_lufs(self@) matches JsonV::Obj(want)
                && got =~~= want));
        }
        r
    }
}

/// Decodes a whole array of BPM regions, failing on the first bad one.
fn bpm_list_from(items: &Vec<Json>) -> (r: Result<Vec<BpmData>, Error>)
    ensures
        match r {
            Ok(l) => sd_bpm_list(vs(items@), 0, Seq::empty()) == Ok::<Seq<BpmDataV>, ErrorKind>(
                l.deep_view(),
            ),
            Err(e) => sd_bpm_list(vs(items@), 0, Seq::empty()) == Err::<Seq<BpmDataV>, ErrorKind>(
                e.kind(),
            ),
        },
{
    let n = items.len();
    let mut acc: Vec<BpmData> = Vec::new();
    let mut i: usize = 0;
    proof {
        assert(acc.deep_view() =~= Seq::<BpmDataV>::empty());
    }
    while i < n
        invariant
            i <= n == items@.len(),
            sd_bpm_list(vs(items@), 0, Seq::empty()) == sd_bpm_list(
                vs(items@),
                i as int,
                acc.deep_view(),
            ),
        decreases n - i,
    {
        let ghost prev = acc.deep_view();
        match BpmData::from_json(&items[i]) {
            Ok(x) => {
                acc.push(x);
                proof {
                    assert(acc.deep_view() =~= prev.push(acc@[acc@.len() - 1]@));
                }
            },
            Err(e) => {
                return Err(e);
            },
        }
        i += 1;
    }
    Ok(acc)
}

/// Decodes a whole array of loudness regions, failing on the first bad one.
fn lufs_list_from(items: &Vec<Json>) -> (r: Result<Vec<LufsData>, Error>)
    ensures
        match r {
            Ok(l) => sd_lufs_list(vs(items@), 0, Seq::empty()) == Ok::<Seq<LufsDataV>, ErrorKind>(
                l.deep_view(),
            ),
            Err(e) => sd_lufs_list(vs(items@), 0, Seq::empty()) == Err::<Seq<LufsDataV>, ErrorKind>(
                e.kind(),
            ),
        },
{
    let n = items.len();
    let mut acc: Vec<LufsData> = Vec::new();
    let mut i: usize = 0;
    proof {
        assert(acc.deep_view() =~= Seq::<LufsDataV>::empty());
    }
    while i < n
        invariant
            i <= n == items@.len(),
            sd_lufs_list(vs(items@), 0, Seq::empty()) == sd_lufs_list(
                vs(items@),
                i as int,
                acc.deep_view(),
            ),
        decreases n - i,
    {
        let ghost prev = acc.deep_view();
        match LufsData::from_json(&items[i]) {
            Ok(x) => {
                acc.push(x);
                proof {
                    assert(acc.deep_view() =~= prev.push(acc@[acc@.len() - 1]@));
                }
            },
            Err(e) => {
                return Err(e);
            },
        }
        i += 1;
    }
    Ok(acc)
}

/// Encodes a whole list of BPM regions.
fn bpm_list_json(bs: &Vec<BpmData>) -> (r: Vec<Json>)
    ensures
        vs(r@) == js_bpm_list(bs.deep_view()),
{
    let n = bs.len();
    let mut acc: Vec<Json> = Vec::new();
    let mut i: usize = 0;
    while i < n
        invariant
            i <= n == bs@.len(),
            acc@.len() == i,
            forall|k: int| 0 <= k < i ==> #[trigger] acc@[k].v() == js_bpm(bs@[k]@),
        decreases n - i,
    {
        acc.push(bs[i].to_json());
        i += 1;
    }
    proof {
        assert forall|k: int| 0 <= k < bs@.len() implies #[trigger] vs(acc@)[k] == js_bpm_list(
            bs.deep_view(),
        )[k] by {
            assert(bs.deep_view()[k] == bs@[k]@);
            assert(acc@[k].v() == js_bpm(bs@[k]@));
        }
        assert(vs(acc@) =~= js_bpm_list(bs.deep_view()));
    }
    acc
}

/// Encodes a whole list of loudness regions.
fn lufs_list_json(ls: &Vec<LufsData>) -> (r: Vec<Json>)
    ensures
        vs(r@) == js_lufs_list(ls.deep_view()),
{
    let n = ls.len();
    let mut acc: Vec<Json> = Vec::new();
    let mut i: usize = 0;
    while i < n
        invariant
            i <= n == ls@.len(),
            acc@.len() == i,
            forall|k: int| 0 <= k < i ==> #[trigger] acc@[k].v() == js_lufs(ls@[k]@),
        decreases n - i,
    {
        acc.push(ls[i].to_json());
        i += 1;
    }
    proof {
        assert forall|k: int| 0 <= k < ls@.len() implies #[trigger] vs(acc@)[k] == js_lufs_list(
            ls.deep_view(),
        )[k] by {
            assert(ls.deep_view()[k] == ls@[k]@);
            assert(acc@[k].v() == js_lufs(ls@[k]@));
        }
        assert(vs(acc@) =~= js_lufs_list(ls.deep_view()));
    }
    acc
}

impl Audio {
    /// Decodes an audio sidecar from its wire object.
    pub fn from_json(j: &Json) -> (r: Result<Audio, Error>)
        ensures
            match r {
                Ok(a) => sd_audio_doc(j.v()) == Ok::<AudioV, ErrorKind>(a@),
                Err(e) => sd_audio_doc(j.v()) == Err::<AudioV, ErrorKind>(e.kind()),
            },
    {
        match j {
            Json::Obj(ms) => {
                let version = match f_string(ms, "version", "4.0.0") {
                    Ok(v) => v,
                    Err(e) => return Err(e),
                };
                proof {
                    reveal_strlit("");
                    assert(""@ =~= Seq::<char>::empty());
                }
                let song_checksum = match f_string(ms, "songChecksum", "") {
                    Ok(v) => v,
                    Err(e) => return Err(e),
                };
                let song_sample_count = match f_u32(ms, "songSampleCount") {
                    Ok(v) => v,
                    Err(e) => return Err(e),
                };
                let song_frequency = match f_u32(ms, "songFrequency") {
                    Ok(v) => v,
                    Err(e) => return Err(e),
                };
                let empty_items: Vec<Json> = Vec::new();
                proof {
                    assert(vs(empty_items@) =~= Seq::<JsonV>::empty());
                }
                let bpm_data = match crate::fields::get_e(ms, "bpmData") {
                    None => match bpm_list_from(&empty_items) {
                        Ok(v) => v,
                        Err(e) => return Err(e),
                    },
                    Some(a) => match a {
                        Json::Arr(items) => match bpm_list_from(items) {
                            Ok(v) => v,
                            Err(e) => return Err(e),
                        },
                        _ => return Err(Error::Decode(String::from_str("bpmData"))),
                    },
                };
                let lufs_data = match crate::fields::get_e(ms, "lufsData") {
                    None => match lufs_list_from(&empty_items) {
                        Ok(v) => v,
                        Err(e) => return Err(e),
                    },
                    Some(a) => match a {
                        Json::Arr(items) => match lufs_list_from(items) {
                            Ok(v) => v,
                            Err(e) => return Err(e),
                        },
                        _ => return Err(Error::Decode(String::from_str("lufsData"))),
                    },
                };
                Ok(
                    Audio {
                        version,
                        song_checksum,
                        song_sample_count,
                        song_frequency,
                        bpm_data,
                        lufs_data,
                    },
                )
            },
            _ => Err(Error::Decode(String::from_str("audio file"))),
        }
    }

    /// Decodes an audio sidecar from document text, typically the contents of
    /// a file named `BPMInfo.dat`.
    pub fn from_json_text(text: &str) -> (r: Result<Audio, Error>)
        ensures
            match r {
                Ok(a) => audio_from_text(text@) == Ok::<AudioV, ErrorKind>(a@),
                Err(e) => audio_from_text(text@) == Err::<AudioV, ErrorKind>(e.kind()),
            },
    {
        match Json::parse_document(text) {
            None => Err(Error::Decode(String::from_str(text))),
            Some(doc) => Audio::from_json(&doc),
        }
    }

    /// Encodes this audio sidecar as its wire object.
    pub fn to_json(&self) -> (r: Json)
        ensures
            r.v() == js_audio(self@),
    {
        let mut ms: Vec<(String, Json)> = Vec::new();
        ms.push((String::from_str("version"), Json::Str(self.version.clone())));
        ms.push((String::from_str("songChecksum"), Json::Str(self.song_checksum.clone())));
        ms.push(
            (
                String::from_str("songSampleCount"),
                Json::Num(dec_string(self.song_sample_count as u64)),
            ),
        );
        ms.push(
            (String::from_str("songFrequency"), Json::Num(dec_string(self.song_frequency as u64))),
        );
        ms.push((String::from_str("bpmData"), Json::Arr(bpm_list_json(&self.bpm_data))));
        ms.push((String::from_str("lufsData"), Json::Arr(lufs_list_json(&self.lufs_data))));
        let r = Json::Obj(ms);
        proof {
            assert(ms@[0].0@ == "version"@ && ms@[0].1.v() == JsonV::Str(self.version@));
            assert(ms@[1].0@ == "songChecksum"@ && ms@[1].1.v() == JsonV::Str(self.song_checksum@));
            assert(ms@[2].0@ == "songSampleCount"@ && ms@[2].1.v() == JsonV::Num(
                dec_text(self.song_sample_count as nat),
            ));
            assert(ms@[3].0@ == "songFrequency"@ && ms@[3].1.v() == JsonV::Num(
                dec_text(self.song_frequency as nat),
            ));
            assert(ms@[4].0@ == "bpmData"@ && ms@[4].1.v() == JsonV::Arr(
                js_bpm_list(self.bpm_data.deep_view()),
            ));
            assert(ms@[5].0@ == "lufsData"@ && ms@[5].1.v() == JsonV::Arr(
                js_lufs_list(self.lufs_data.deep_view()),
            ));
            assert(r.v() matches JsonV::Obj(got) && (js_audio(self@) matches JsonV::Obj(want)
                && got =~~= want));
        }
        r
    }

    /// Encodes this audio sidecar as pretty-printed document text, the exact
    /// layout of a `BPMInfo.dat` file.
    pub fn to_json_pretty(&self) -> (r: String)
        ensures
            r@ == pp_document(js_audio(self@)),
    {
        self.to_json().to_pretty()
    }
}

impl Default for Audio {
    /// The value whose every field carries its absent-field default: the
    /// same value that decoding an empty wire object yields.
    fn default() -> (r: Audio)
        ensures
            sd_audio(Seq::empty()) == Ok::<AudioV, ErrorKind>(r@),
    {
        let r = Audio {
            version: String::from_str("4.0.0"),
            song_checksum: String::new(),
            song_sample_count: 0,
            song_frequency: 0,
            bpm_data: Vec::new(),
            lufs_data: Vec::new(),
        };
        proof {
            reveal_strlit("");
            assert(r.song_checksum@ =~= Seq::<char>::empty());
            assert(r.bpm_data.deep_view() =~= Seq::<BpmDataV>::empty());
            assert(r.lufs_data.deep_view() =~= Seq::<LufsDataV>::empty());
        }
        r
    }
}

/// Decoding the wire object that encoding wrote gives the BPM region back.
pub proof fn lemma_bpm_round_trip(b: BpmDataV)
    ensures
        sd_bpm(js_bpm(b)) == Ok::<BpmDataV, ErrorKind>(b),
{
    reveal_strlit("si");
    reveal_strlit("ei");
    reveal_strlit("sb");
    reveal_strlit("eb");
    assert(("si"@).len() == 2 && ("si"@)[0] == 's' && ("si"@)[1] == 'i');
    assert(("ei"@).len() == 2 && ("ei"@)[0] == 'e' && ("ei"@)[1] == 'i');
    assert(("sb"@).len() == 2 && ("sb"@)[0] == 's' && ("sb"@)[1] == 'b');
    assert(("eb"@).len() == 2 && ("eb"@)[0] == 'e' && ("eb"@)[1] == 'b');
    crate::num::lemma_dec_text_val(b.start_index as nat);
    crate::num::lemma_dec_text_val(b.end_index as nat);
    let ms = seq![
        ("si"@, JsonV::Num(dec_text(b.start_index as nat))),
        ("ei"@, JsonV::Num(dec_text(b.end_index as nat))),
        ("sb"@, JsonV::Num(b.start_beat)),
        ("eb"@, JsonV::Num(b.end_beat)),
    ];
    reveal_with_fuel(jget, 5);
    assert(js_bpm(b) == JsonV::Obj(ms));
    assert(ms.drop_first() =~= ms.subrange(1, 4));
    assert(ms.subrange(1, 4).drop_first() =~= ms.subrange(2, 4));
    assert(ms.subrange(2, 4).drop_first() =~= ms.subrange(3, 4));
    assert(ms.subrange(3, 4).drop_first() =~= ms.subrange(4, 4));
    assert(jget(ms, "si"@) == Some(JsonV::Num(dec_text(b.start_index as nat))));
    assert(jget(ms, "ei"@) == Some(JsonV::Num(dec_text(b.end_index as nat))));
    assert(jget(ms, "sb"@) == Some(JsonV::Num(b.start_beat)));
    assert(jget(ms, "eb"@) == Some(JsonV::Num(b.end_beat)));
}

/// Decoding the wire object that encoding wrote gives the region back.
pub proof fn lemma_lufs_round_trip(l: LufsDataV)
    ensures
        sd_lufs(js_lufs(l)) == Ok::<LufsDataV, ErrorKind>(l),
{
    reveal_strlit("si");
    reveal_strlit("ei");
    reveal_strlit("l");
    assert(("si"@).len() == 2 && ("si"@)[0] == 's' && ("si"@)[1] == 'i');
    assert(("ei"@).len() == 2 && ("ei"@)[0] == 'e' && ("ei"@)[1] == 'i');
    assert(("l"@).len() == 1 && ("l"@)[0] == 'l');
    crate::num::lemma_dec_text_val(l.start_index as nat);
    crate::num::lemma_dec_text_val(l.end_index as nat);
    crate::num::lemma_dec_text_val(l.loudness as nat);
    let ms = seq![
        ("si"@, JsonV::Num(dec_text(l.start_index as nat))),
        ("ei"@, JsonV::Num(dec_text(l.end_index as nat))),
        ("l"@, JsonV::Num(dec_text(l.loudness as nat))),
    ];
    reveal_with_fuel(jget, 4);
    assert(js_lufs(l) == JsonV::Obj(ms));
    assert(ms.drop_first() =~= ms.subrange(1, 3));
    assert(ms.subrange(1, 3).drop_first() =~= ms.subrange(2, 3));
    assert(ms.subrange(2, 3).drop_first() =~= ms.subrange(3, 3));
    assert(jget(ms, "si"@) == Some(JsonV::Num(dec_text(l.start_index as nat))));
    assert(jget(ms, "ei"@) == Some(JsonV::Num(dec_text(l.end_index as nat))));
    assert(jget(ms, "l"@) == Some(JsonV::Num(dec_text(l.loudness as nat))));
}

/// Decoding an encoded list of BPM regions, from position `i` on, appends
/// the remaining regions to those already read.
pub proof fn lemma_bpm_list_round_trip(bs: Seq<BpmDataV>, i: int, acc: Seq<BpmDataV>)
    requires
        0 <= i <= bs.len(),
    ensures
        sd_bpm_list(js_bpm_list(bs), i, acc) == Ok::<Seq<BpmDataV>, ErrorKind>(acc + bs.skip(i)),
    decreases bs.len() - i,
{
    if i == bs.len() {
        assert(acc + bs.skip(i) =~= acc);
    } else {
        lemma_bpm_round_trip(bs[i]);
        assert(js_bpm_list(bs)[i] == js_bpm(bs[i]));
        lemma_bpm_list_round_trip(bs, i + 1, acc.push(bs[i]));
        assert(acc.push(bs[i]) + bs.skip(i + 1) =~= acc + bs.skip(i));
    }
}

/// Decoding an encoded list of loudness regions, from position `i` on,
/// appends the remaining regions to those already read.
pub proof fn lemma_lufs_list_round_trip(ls: Seq<LufsDataV>, i: int, acc: Seq<LufsDataV>)
    requires
        0 <= i <= ls.len(),
    ensures
        sd_lufs_list(js_lufs_list(ls), i, acc) == Ok::<Seq<LufsDataV>, ErrorKind>(
            acc + ls.skip(i),
        ),
    decreases ls.len() - i,
{
    if i == ls.len() {
        assert(acc + ls.skip(i) =~= acc);
    } else {
        lemma_lufs_round_trip(ls[i]);
        assert(js_lufs_list(ls)[i] == js_lufs(ls[i]));
        lemma_lufs_list_round_trip(ls, i + 1, acc.push(ls[i]));
        assert(acc.push(ls[i]) + ls.skip(i + 1) =~= acc + ls.skip(i));
    }
}

/// Decoding what encoding wrote gives the audio sidecar back: for every
/// audio value, the wire object of [`Audio::to_json`] decodes under
/// [`Audio::from_json`]'s specification to that same value.
pub proof fn lemma_audio_round_trip(a: AudioV)
    ensures
        sd_audio_doc(js_audio(a)) == Ok::<AudioV, ErrorKind>(a),
{
    reveal_strlit("version");
    reveal_strlit("songChecksum");
    reveal_strlit("songSampleCount");
    reveal_strlit("songFrequency");
    reveal_strlit("bpmData");
    reveal_strlit("lufsData");
    assert(("version"@).len() == 7 && ("version"@)[0] == 'v');
    assert(("songChecksum"@).len() == 12);
    assert(("songSampleCount"@).len() == 15);
    assert(("songFrequency"@).len() == 13);
    assert(("bpmData"@).len() == 7 && ("bpmData"@)[0] == 'b');
    assert(("lufsData"@).len() == 8);
    crate::num::lemma_dec_text_val(a.song_sample_count as nat);
    crate::num::lemma_dec_text_val(a.song_frequency as nat);
    let ms = seq![
        ("version"@, JsonV::Str(a.version)),
        ("songChecksum"@, JsonV::Str(a.song_checksum)),
        ("songSampleCount"@, JsonV::Num(dec_text(a.song_sample_count as nat))),
        ("songFrequency"@, JsonV::Num(dec_text(a.song_frequency as nat))),
        ("bpmData"@, JsonV::Arr(js_bpm_list(a.bpm_data))),
        ("lufsData"@, JsonV::Arr(js_lufs_list(a.lufs_data))),
    ];
    reveal_with_fuel(jget, 7);
    assert(js_audio(a) == JsonV::Obj(ms));
    assert(ms.drop_first() =~= ms.subrange(1, 6));
    assert(ms.subrange(1, 6).drop_first() =~= ms.subrange(2, 6));
    assert(ms.subrange(2, 6).drop_first() =~= ms.subrange(3, 6));
    assert(ms.subrange(3, 6).drop_first() =~= ms.subrange(4, 6));
    assert(ms.subrange(4, 6).drop_first() =~= ms.subrange(5, 6));
    assert(ms.subrange(5, 6).drop_first() =~= ms.subrange(6, 6));
    assert(jget(ms, "version"@) == Some(JsonV::Str(a.version)));
    assert(jget(ms, "songChecksum"@) == Some(JsonV::Str(a.song_checksum)));
    assert(jget(ms, "songSampleCount"@) == Some(
        JsonV::Num(dec_text(a.song_sample_count as nat)),
    ));
    assert(jget(ms, "songFrequency"@) == Some(JsonV::Num(dec_text(a.song_frequency as nat))));
    assert(jget(ms, "bpmData"@) == Some(JsonV::Arr(js_bpm_list(a.bpm_data))));
    assert(jget(ms, "lufsData"@) == Some(JsonV::Arr(js_lufs_list(a.lufs_data))));
    lemma_bpm_list_round_trip(a.bpm_data, 0, Seq::empty());
    lemma_lufs_list_round_trip(a.lufs_data, 0, Seq::empty());
    assert(Seq::<BpmDataV>::empty() + a.bpm_data.skip(0) =~= a.bpm_data);
    assert(Seq::<LufsDataV>::empty() + a.lufs_data.skip(0) =~= a.lufs_data);
}

} // verus!
