//! The `Info.dat` manifest: song metadata and pointers to a map's other
//! files.
//!
//! See [`Info`] to get started.

use vstd::prelude::*;

use crate::fields::{
    f_beats, f_bool, f_hex, f_string, f_u32, f_usize, get_e, jget, lemma_jget_at, sd_arr,
    sd_beats, sd_bool, sd_hex, sd_nested, sd_string, sd_uint,
};
use crate::hex::{encode_hex, hex_encoding};
use crate::json::{pp_document, sp_document, vms, vs, Json, JsonV};
use crate::num::{dec_string, dec_text};
use crate::text::str_eq;
use crate::Beats;
use crate::Error;
use crate::ErrorKind;

verus! {

/// How the string items from `i` on of an array are decoded, after those
/// already read into `acc`.
pub open spec fn sd_string_list(items: Seq<JsonV>, i: int, acc: Seq<Seq<char>>) -> Result<
    Seq<Seq<char>>,
    ErrorKind,
>
    decreases items.len() - i,
{
    if !(0 <= i < items.len()) {
        Ok(acc)
    } else {
        match items[i] {
            JsonV::Str(t) => sd_string_list(items, i + 1, acc.push(t)),
            _ => Err(ErrorKind::Decode),
        }
    }
}

/// How a whole array field of strings is decoded; absent means empty.
pub open spec fn sd_string_list_field(ms: Seq<(Seq<char>, JsonV)>, key: Seq<char>) -> Result<
    Seq<Seq<char>>,
    ErrorKind,
> {
    match sd_arr(ms, key) {
        Err(e) => Err(e),
        Ok(items) => sd_string_list(items, 0, Seq::empty()),
    }
}

/// The wire values of a list of strings.
pub open spec fn js_string_list(l: Seq<Seq<char>>) -> Seq<JsonV> {
    Seq::new(
        l.len(),
        |i: int|
            if 0 <= i < l.len() {
                JsonV::Str(l[i])
            } else {
                JsonV::Null
            },
    )
}

/// Decodes a whole array of strings, failing on the first non-string.
fn string_list_from(items: &Vec<Json>) -> (r: Result<Vec<String>, Error>)
    ensures
        match r {
            Ok(l) => sd_string_list(vs(items@), 0, Seq::empty()) == Ok::<Seq<Seq<char>>, ErrorKind>(
                l.deep_view(),
            ),
            Err(e) => sd_string_list(vs(items@), 0, Seq::empty()) == Err::<
                Seq<Seq<char>>,
                ErrorKind,
            >(e.kind()),
        },
{
    let n = items.len();
    let mut acc: Vec<String> = Vec::new();
    let mut i: usize = 0;
    proof {
        assert(acc.deep_view() =~= Seq::<Seq<char>>::empty());
    }
    while i < n
        invariant
            i <= n == items@.len(),
            sd_string_list(vs(items@), 0, Seq::empty()) == sd_string_list(
                vs(items@),
                i as int,
                acc.deep_view(),
            ),
        decreases n - i,
    {
        let ghost prev = acc.deep_view();
        match &items[i] {
            Json::Str(t) => {
                acc.push(t.clone());
                proof {
                    assert(acc.deep_view() =~= prev.push(acc@[acc@.len() - 1]@));
                }
            },
            _ => {
                return Err(Error::Decode(String::from_str("string list")));
            },
        }
        i += 1;
    }
    Ok(acc)
}

/// Reads a whole array field of strings; absent means empty.
fn string_list_field(ms: &Vec<(String, Json)>, key: &str) -> (r: Result<Vec<String>, Error>)
    ensures
        match r {
            Ok(l) => sd_string_list_field(vms(ms@), key@) == Ok::<Seq<Seq<char>>, ErrorKind>(
                l.deep_view(),
            ),
            Err(e) => sd_string_list_field(vms(ms@), key@) == Err::<Seq<Seq<char>>, ErrorKind>(
                e.kind(),
            ),
        },
{
    let empty_items: Vec<Json> = Vec::new();
    proof {
        assert(vs(empty_items@) =~= Seq::<JsonV>::empty());
    }
    match get_e(ms, key) {
        None => string_list_from(&empty_items),
        Some(a) => match a {
            Json::Arr(items) => string_list_from(items),
            _ => Err(Error::Decode(String::from_str(key))),
        },
    }
}

/// Encodes a whole list of strings.
fn string_list_json(l: &Vec<String>) -> (r: Vec<Json>)
    ensures
        vs(r@) == js_string_list(l.deep_view()),
{
    let n = l.len();
    let mut acc: Vec<Json> = Vec::new();
    let mut i: usize = 0;
    while i < n
        invariant
            i <= n == l@.len(),
            acc@.len() == i,
            forall|k: int| 0 <= k < i ==> #[trigger] acc@[k].v() == JsonV::Str(l@[k]@),
        decreases n - i,
    {
        acc.push(Json::Str(l[i].clone()));
        i += 1;
    }
    proof {
        assert forall|k: int| 0 <= k < l@.len() implies #[trigger] vs(acc@)[k] == js_string_list(
            l.deep_view(),
        )[k] by {
            assert(l.deep_view()[k] == l@[k]@);
            assert(acc@[k].v() == JsonV::Str(l@[k]@));
        }
        assert(vs(acc@) =~= js_string_list(l.deep_view()));
    }
    acc
}

/// Groups [`DifficultyBeatmap`]s into unique categories and applies
/// specialized behaviors to those affected [`DifficultyBeatmap`]s.
#[derive(Debug, Clone, Copy, PartialEq, Eq, Structural)]
pub enum Characteristic {
    /// No special behavior.  Wire label `"Standard"`.
    Standard,
    /// No special behavior.  Wire label `"NoArrows"`.
    NoArrows,
    /// Disables the left (red) saber.  Wire label `"OneSaber"`.
    OneSaber,
    /// Uses rotation behaviors.  Wire label `"360Degree"`.
    ThreeSixtyDegree,
    /// Uses rotation behaviors.  Wire label `"90Degree"`.
    NinetyDegree,
    /// No special behavior.  Wire label `"Legacy"`.
    Legacy,
}

/// The wire label of a variant.
pub open spec fn characteristic_label(v: Characteristic) -> Seq<char> {
    match v {
        Characteristic::Standard => "Standard"@,
        Characteristic::NoArrows => "NoArrows"@,
        Characteristic::OneSaber => "OneSaber"@,
        Characteristic::ThreeSixtyDegree => "360Degree"@,
        Characteristic::NinetyDegree => "90Degree"@,
        Characteristic::Legacy => "Legacy"@,
    }
}

/// The variant with wire label `t`, if any.
pub open spec fn characteristic_of_label(t: Seq<char>) -> Option<Characteristic> {
    if t == "Standard"@ {
        Some(Characteristic::Standard)
    } else if t == "NoArrows"@ {
        Some(Characteristic::NoArrows)
    } else if t == "OneSaber"@ {
        Some(Characteristic::OneSaber)
    } else if t == "360Degree"@ {
        Some(Characteristic::ThreeSixtyDegree)
    } else if t == "90Degree"@ {
        Some(Characteristic::NinetyDegree)
    } else if t == "Legacy"@ {
        Some(Characteristic::Legacy)
    } else {
        None
    }
}

impl Characteristic {
    /// Writes this variant as its fixed wire label.
    pub fn label(self) -> (r: String)
        ensures
            r@ == characteristic_label(self),
    {
        match self {
            Characteristic::Standard => String::from_str("Standard"),
            Characteristic::NoArrows => String::from_str("NoArrows"),
            Characteristic::OneSaber => String::from_str("OneSaber"),
            Characteristic::ThreeSixtyDegree => String::from_str("360Degree"),
            Characteristic::NinetyDegree => String::from_str("90Degree"),
            Characteristic::Legacy => String::from_str("Legacy"),
        }
    }

    /// Reads a variant back from its wire label.  Succeeds exactly on the
    /// declared labels; a completely unrecognized label is refused, with
    /// the offending text attached.
    pub fn from_label(s: &str) -> (r: Result<Characteristic, Error>)
        ensures
            match r {
                Ok(v) => characteristic_of_label(s@) == Some(v),
                Err(e) => characteristic_of_label(s@) is None && (e matches Error::Decode(m)
                    && m@ == s@),
            },
    {
        if str_eq(s, "Standard") {
            Ok(Characteristic::Standard)
        } else if str_eq(s, "NoArrows") {
            Ok(Characteristic::NoArrows)
        } else if str_eq(s, "OneSaber") {
            Ok(Characteristic::OneSaber)
        } else if str_eq(s, "360Degree") {
            Ok(Characteristic::ThreeSixtyDegree)
        } else if str_eq(s, "90Degree") {
            Ok(Characteristic::NinetyDegree)
        } else if str_eq(s, "Legacy") {
            Ok(Characteristic::Legacy)
        } else {
            Err(Error::Decode(String::from_str(s)))
        }
    }
}

impl Default for Characteristic {
    /// The default variant, used when the field is absent.
    fn default() -> (r: Self)
        ensures
            r == Characteristic::Standard,
    {
        Characteristic::Standard
    }
}

/// Writing a variant and reading the label back gives the variant again.
pub proof fn lemma_characteristic_label_round_trip(v: Characteristic)
    ensures
        characteristic_of_label(characteristic_label(v)) == Some(v),
{
    reveal_strlit("Standard");
    reveal_strlit("NoArrows");
    reveal_strlit("OneSaber");
    reveal_strlit("360Degree");
    reveal_strlit("90Degree");
    reveal_strlit("Legacy");
    assert(("Standard"@)[0] == 'S');
    assert(("Standard"@).len() == 8);
    assert(("NoArrows"@)[0] == 'N');
    assert(("NoArrows"@).len() == 8);
    assert(("OneSaber"@)[0] == 'O');
    assert(("OneSaber"@).len() == 8);
    assert(("360Degree"@)[0] == '3');
    assert(("360Degree"@).len() == 9);
    assert(("90Degree"@)[0] == '9');
    assert(("90Degree"@).len() == 8);
    assert(("Legacy"@)[0] == 'L');
    assert(("Legacy"@).len() == 6);
    assert(("NoArrows"@) != ("Standard"@));
    assert(("OneSaber"@) != ("Standard"@));
    assert(("OneSaber"@) != ("NoArrows"@));
    assert(("360Degree"@) != ("Standard"@));
    assert(("360Degree"@) != ("NoArrows"@));
    assert(("360Degree"@) != ("OneSaber"@));
    assert(("90Degree"@) != ("Standard"@));
    assert(("90Degree"@) != ("NoArrows"@));
    assert(("90Degree"@) != ("OneSaber"@));
    assert(("90Degree"@) != ("360Degree"@));
    assert(("Legacy"@) != ("Standard"@));
    assert(("Legacy"@) != ("NoArrows"@));
    assert(("Legacy"@) != ("OneSaber"@));
    assert(("Legacy"@) != ("360Degree"@));
    assert(("Legacy"@) != ("90Degree"@));
}

/// How a `Characteristic`-valued field is decoded; absent means the default.
pub open spec fn sd_characteristic_field(ms: Seq<(Seq<char>, JsonV)>, key: Seq<char>) -> Result<
    Characteristic,
    ErrorKind,
> {
    match jget(ms, key) {
        None => Ok(Characteristic::Standard),
        Some(JsonV::Str(t)) => match characteristic_of_label(t) {
            Some(v) => Ok(v),
            None => Err(ErrorKind::Decode),
        },
        Some(_) => Err(ErrorKind::Decode),
    }
}

/// Reads a `Characteristic`-valued field; absent means the default.
fn f_characteristic(ms: &Vec<(String, Json)>, key: &str) -> (r: Result<Characteristic, Error>)
    ensures
        match r {
            Ok(v) => sd_characteristic_field(vms(ms@), key@) == Ok::<Characteristic, ErrorKind>(v),
            Err(e) => sd_characteristic_field(vms(ms@), key@) == Err::<Characteristic, ErrorKind>(e.kind()),
        },
{
    match get_e(ms, key) {
        None => Ok(Characteristic::Standard),
        Some(j) => match j {
            Json::Str(t) => Characteristic::from_label(t.as_str()),
            _ => Err(Error::Decode(String::from_str(key))),
        },
    }
}
/// A cosmetic label to indicate the overall difficulty of a
/// [`DifficultyBeatmap`], relative to its [`Characteristic`].
#[derive(Debug, Clone, Copy, PartialEq, Eq, Structural)]
pub enum Difficulty {
    /// The easiest level.  Wire label `"Easy"`.
    Easy,
    /// An easy level.  Wire label `"Normal"`.
    Normal,
    /// A middling level.  Wire label `"Hard"`.
    Hard,
    /// A hard level.  Wire label `"Expert"`.
    Expert,
    /// The hardest level.  Wire label `"ExpertPlus"`.
    ExpertPlus,
}

/// The wire label of a variant.
pub open spec fn difficulty_label(v: Difficulty) -> Seq<char> {
    match v {
        Difficulty::Easy => "Easy"@,
        Difficulty::Normal => "Normal"@,
        Difficulty::Hard => "Hard"@,
        Difficulty::Expert => "Expert"@,
        Difficulty::ExpertPlus => "ExpertPlus"@,
    }
}

/// The variant with wire label `t`, if any.
pub open spec fn difficulty_of_label(t: Seq<char>) -> Option<Difficulty> {
    if t == "Easy"@ {
        Some(Difficulty::Easy)
    } else if t == "Normal"@ {
        Some(Difficulty::Normal)
    } else if t == "Hard"@ {
        Some(Difficulty::Hard)
    } else if t == "Expert"@ {
        Some(Difficulty::Expert)
    } else if t == "ExpertPlus"@ {
        Some(Difficulty::ExpertPlus)
    } else {
        None
    }
}

impl Difficulty {
    /// Writes this variant as its fixed wire label.
    pub fn label(self) -> (r: String)
        ensures
            r@ == difficulty_label(self),
    {
        match self {
            Difficulty::Easy => String::from_str("Easy"),
            Difficulty::Normal => String::from_str("Normal"),
            Difficulty::Hard => String::from_str("Hard"),
            Difficulty::Expert => String::from_str("Expert"),
            Difficulty::ExpertPlus => String::from_str("ExpertPlus"),
        }
    }

    /// Reads a variant back from its wire label.  Succeeds exactly on the
    /// declared labels; a completely unrecognized label is refused, with
    /// the offending text attached.
    pub fn from_label(s: &str) -> (r: Result<Difficulty, Error>)
        ensures
            match r {
                Ok(v) => difficulty_of_label(s@) == Some(v),
                Err(e) => difficulty_of_label(s@) is None && (e matches Error::Decode(m)
                    && m@ == s@),
            },
    {
        if str_eq(s, "Easy") {
            Ok(Difficulty::Easy)
        } else if str_eq(s, "Normal") {
            Ok(Difficulty::Normal)
        } else if str_eq(s, "Hard") {
            Ok(Difficulty::Hard)
        } else if str_eq(s, "Expert") {
            Ok(Difficulty::Expert)
        } else if str_eq(s, "ExpertPlus") {
            Ok(Difficulty::ExpertPlus)
        } else {
            Err(Error::Decode(String::from_str(s)))
        }
    }
}

impl Default for Difficulty {
    /// The default variant, used when the field is absent.
    fn default() -> (r: Self)
        ensures
            r == Difficulty::Normal,
    {
        Difficulty::Normal
    }
}

/// Writing a variant and reading the label back gives the variant again.
pub proof fn lemma_difficulty_label_round_trip(v: Difficulty)
    ensures
        difficulty_of_label(difficulty_label(v)) == Some(v),
{
    reveal_strlit("Easy");
    reveal_strlit("Normal");
    reveal_strlit("Hard");
    reveal_strlit("Expert");
    reveal_strlit("ExpertPlus");
    assert(("Easy"@)[0] == 'E');
    assert(("Easy"@).len() == 4);
    assert(("Normal"@)[0] == 'N');
    assert(("Normal"@).len() == 6);
    assert(("Hard"@)[0] == 'H');
    assert(("Hard"@).len() == 4);
    assert(("Expert"@)[0] == 'E');
    assert(("Expert"@).len() == 6);
    assert(("ExpertPlus"@)[0] == 'E');
    assert(("ExpertPlus"@).len() == 10);
    assert(("Normal"@) != ("Easy"@));
    assert(("Hard"@) != ("Easy"@));
    assert(("Hard"@) != ("Normal"@));
    assert(("Expert"@) != ("Easy"@));
    assert(("Expert"@) != ("Normal"@));
    assert(("Expert"@) != ("Hard"@));
    assert(("ExpertPlus"@) != ("Easy"@));
    assert(("ExpertPlus"@) != ("Normal"@));
    assert(("ExpertPlus"@) != ("Hard"@));
    assert(("ExpertPlus"@) != ("Expert"@));
}

/// How a `Difficulty`-valued field is decoded; absent means the default.
pub open spec fn sd_difficulty_field(ms: Seq<(Seq<char>, JsonV)>, key: Seq<char>) -> Result<
    Difficulty,
    ErrorKind,
> {
    match jget(ms, key) {
        None => Ok(Difficulty::Normal),
        Some(JsonV::Str(t)) => match difficulty_of_label(t) {
            Some(v) => Ok(v),
            None => Err(ErrorKind::Decode),
        },
        Some(_) => Err(ErrorKind::Decode),
    }
}

/// Reads a `Difficulty`-valued field; absent means the default.
fn f_difficulty(ms: &Vec<(String, Json)>, key: &str) -> (r: Result<Difficulty, Error>)
    ensures
        match r {
            Ok(v) => sd_difficulty_field(vms(ms@), key@) == Ok::<Difficulty, ErrorKind>(v),
            Err(e) => sd_difficulty_field(vms(ms@), key@) == Err::<Difficulty, ErrorKind>(e.kind()),
        },
{
    match get_e(ms, key) {
        None => Ok(Difficulty::Normal),
        Some(j) => match j {
            Json::Str(t) => Difficulty::from_label(t.as_str()),
            _ => Err(Error::Decode(String::from_str(key))),
        },
    }
}
/// Describes basic metadata about the song.
#[derive(Debug, Clone, PartialEq, Eq)]
pub struct Song {
    /// The title of the map's song.  Wire key `title`.
    pub title: String,
    /// The subtitle, which may indicate collaborators or arrangements.  Wire key `subTitle`.
    pub subtitle: String,
    /// The artist(s) of the map's song.  Wire key `author`.
    pub author: String,
}

/// The mathematical value of a [`Song`].
pub struct SongV {
    /// See [`Song::title`].
    pub title: Seq<char>,
    /// See [`Song::subtitle`].
    pub subtitle: Seq<char>,
    /// See [`Song::author`].
    pub author: Seq<char>,
}

impl View for Song {
    type V = SongV;

    open spec fn view(&self) -> SongV {
        SongV {
            title: self.title@,
            subtitle: self.subtitle@,
            author: self.author@,
        }
    }
}

impl DeepView for Song {
    type V = SongV;

    open spec fn deep_view(&self) -> SongV {
        self.view()
    }
}

/// How the song metadata is decoded from the members of its wire object.
pub open spec fn sd_song_ms(ms: Seq<(Seq<char>, JsonV)>) -> Result<SongV, ErrorKind> {
    let r_title = sd_string(ms, "title"@, ""@);
    let r_subtitle = sd_string(ms, "subTitle"@, ""@);
    let r_author = sd_string(ms, "author"@, ""@);
    if r_title is Err {
        Err(r_title->Err_0)
    } else if r_subtitle is Err {
        Err(r_subtitle->Err_0)
    } else if r_author is Err {
        Err(r_author->Err_0)
    } else {
        Ok(
            SongV {
                title: r_title->Ok_0,
                subtitle: r_subtitle->Ok_0,
                author: r_author->Ok_0,
            },
        )
    }
}

/// How the song metadata is decoded from a wire value.
pub open spec fn sd_song(v: JsonV) -> Result<SongV, ErrorKind> {
    match v {
        JsonV::Obj(ms) => sd_song_ms(ms),
        _ => Err(ErrorKind::Decode),
    }
}

/// The wire object of the song metadata, keys in declaration order.
pub open spec fn js_song(m: SongV) -> JsonV {
    JsonV::Obj(
        seq![
            ("title"@, JsonV::Str(m.title)),
            ("subTitle"@, JsonV::Str(m.subtitle)),
            ("author"@, JsonV::Str(m.author)),
        ],
    )
}

impl Song {
    /// Decodes one record from the members of its wire object.
    pub fn from_members(ms: &Vec<(String, Json)>) -> (r: Result<Song, Error>)
        ensures
            match r {
                Ok(x) => sd_song_ms(vms(ms@)) == Ok::<SongV, ErrorKind>(x@),
                Err(e) => sd_song_ms(vms(ms@)) == Err::<SongV, ErrorKind>(e.kind()),
            },
    {
        let title = match f_string(ms, "title", "") {
            Ok(v) => v,
            Err(e) => return Err(e),
        };
        let subtitle = match f_string(ms, "subTitle", "") {
            Ok(v) => v,
            Err(e) => return Err(e),
        };
        let author = match f_string(ms, "author", "") {
            Ok(v) => v,
            Err(e) => return Err(e),
        };
        Ok(Song { title, subtitle, author })
    }

    /// Decodes one record from its wire value.
    pub fn from_json(j: &Json) -> (r: Result<Song, Error>)
        ensures
            match r {
                Ok(x) => sd_song(j.v()) == Ok::<SongV, ErrorKind>(x@),
                Err(e) => sd_song(j.v()) == Err::<SongV, ErrorKind>(e.kind()),
            },
    {
        match j {
            Json::Obj(ms) => Song::from_members(ms),
            _ => Err(Error::Decode(String::from_str("song"))),
        }
    }

    /// Encodes this record as its wire object.
    pub fn to_json(&self) -> (r: Json)
        ensures
            r.v() == js_song(self@),
    {
        let mut ms: Vec<(String, Json)> = Vec::new();
        ms.push((String::from_str("title"), Json::Str(self.title.clone())));
        ms.push((String::from_str("subTitle"), Json::Str(self.subtitle.clone())));
        ms.push((String::from_str("author"), Json::Str(self.author.clone())));
        let r = Json::Obj(ms);
        proof {
            assert(ms@[0].0@ == "title"@ && ms@[0].1.v() == JsonV::Str(self@.title));
            assert(ms@[1].0@ == "subTitle"@ && ms@[1].1.v() == JsonV::Str(self@.subtitle));
            assert(ms@[2].0@ == "author"@ && ms@[2].1.v() == JsonV::Str(self@.author));
            assert(r.v() matches JsonV::Obj(got) && (js_song(self@) matches JsonV::Obj(
                want,
            ) && got =~~= want));
        }
        r
    }
}

/// How a nested `Song` field is decoded; absent means all defaults.
pub open spec fn sd_song_field(ms: Seq<(Seq<char>, JsonV)>, key: Seq<char>) -> Result<
    SongV,
    ErrorKind,
> {
    match sd_nested(ms, key) {
        Err(e) => Err(e),
        Ok(ms2) => sd_song_ms(ms2),
    }
}

impl Song {
    /// Reads a nested `Song` field; absent means all defaults.
    fn from_members_or_default(ms: &Vec<(String, Json)>, key: &str) -> (r: Result<Song, Error>)
        ensures
            match r {
                Ok(x) => sd_song_field(vms(ms@), key@) == Ok::<SongV, ErrorKind>(x@),
                Err(e) => sd_song_field(vms(ms@), key@) == Err::<SongV, ErrorKind>(e.kind()),
            },
    {
        let empty_ms: Vec<(String, Json)> = Vec::new();
        proof {
            assert(vms(empty_ms@) =~= Seq::<(Seq<char>, JsonV)>::empty());
        }
        match get_e(ms, key) {
            None => Song::from_members(&empty_ms),
            Some(j) => match j {
                Json::Obj(ms2) => Song::from_members(ms2),
                _ => Err(Error::Decode(String::from_str(key))),
            },
        }
    }
}

/// Audio metadata inside the manifest.
#[derive(Debug, Clone, PartialEq)]
pub struct Audio {
    /// The audio file associated with the map.  Wire key `songFilename`.
    pub song_filename: String,
    /// The cached length of the audio file in seconds, kept as written.  Wire key `songDuration`.
    pub song_duration: Beats,
    /// The audio metadata file associated with the map.  Wire key `audioDataFilename`.
    pub audio_data_filename: String,
    /// How the grid will align with the audio file.  Wire key `bpm`.
    pub bpm: Beats,
    /// The overall loudness of the audio file, kept as written.  Wire key `lufs`.
    pub lufs: Beats,
    /// The time in seconds of the song to start the preview at, kept as written.  Wire key `previewStartTime`.
    pub preview_start_time: Beats,
    /// The duration in seconds of the preview, kept as written.  Wire key `previewDuration`.
    pub preview_duration: Beats,
}

/// The mathematical value of a [`Audio`].
pub struct AudioV {
    /// See [`Audio::song_filename`].
    pub song_filename: Seq<char>,
    /// See [`Audio::song_duration`].
    pub song_duration: Seq<char>,
    /// See [`Audio::audio_data_filename`].
    pub audio_data_filename: Seq<char>,
    /// See [`Audio::bpm`].
    pub bpm: Seq<char>,
    /// See [`Audio::lufs`].
    pub lufs: Seq<char>,
    /// See [`Audio::preview_start_time`].
    pub preview_start_time: Seq<char>,
    /// See [`Audio::preview_duration`].
    pub preview_duration: Seq<char>,
}

impl View for Audio {
    type V = AudioV;

    open spec fn view(&self) -> AudioV {
        AudioV {
            song_filename: self.song_filename@,
            song_duration: self.song_duration@,
            audio_data_filename: self.audio_data_filename@,
            bpm: self.bpm@,
            lufs: self.lufs@,
            preview_start_time: self.preview_start_time@,
            preview_duration: self.preview_duration@,
        }
    }
}

impl DeepView for Audio {
    type V = AudioV;

    open spec fn deep_view(&self) -> AudioV {
        self.view()
    }
}

/// How the audio metadata is decoded from the members of its wire object.
pub open spec fn sd_audio_ms(ms: Seq<(Seq<char>, JsonV)>) -> Result<AudioV, ErrorKind> {
    let r_song_filename = sd_string(ms, "songFilename"@, "song.ogg"@);
    let r_song_duration = sd_beats(ms, "songDuration"@);
    let r_audio_data_filename = sd_string(ms, "audioDataFilename"@, "BPMInfo.dat"@);
    let r_bpm = sd_beats(ms, "bpm"@);
    let r_lufs = sd_beats(ms, "lufs"@);
    let r_preview_start_time = sd_beats(ms, "previewStartTime"@);
    let r_preview_duration = sd_beats(ms, "previewDuration"@);
    if r_song_filename is Err {
        Err(r_song_filename->Err_0)
    } else if r_song_duration is Err {
        Err(r_song_duration->Err_0)
    } else if r_audio_data_filename is Err {
        Err(r_audio_data_filename->Err_0)
    } else if r_bpm is Err {
        Err(r_bpm->Err_0)
    } else if r_lufs is Err {
        Err(r_lufs->Err_0)
    } else if r_preview_start_time is Err {
        Err(r_preview_start_time->Err_0)
    } else if r_preview_duration is Err {
        Err(r_preview_duration->Err_0)
    } else {
        Ok(
            AudioV {
                song_filename: r_song_filename->Ok_0,
                song_duration: r_song_duration->Ok_0,
                audio_data_filename: r_audio_data_filename->Ok_0,
                bpm: r_bpm->Ok_0,
                lufs: r_lufs->Ok_0,
                preview_start_time: r_preview_start_time->Ok_0,
                preview_duration: r_preview_duration->Ok_0,
            },
        )
    }
}

/// How the audio metadata is decoded from a wire value.
pub open spec fn sd_audio(v: JsonV) -> Result<AudioV, ErrorKind> {
    match v {
        JsonV::Obj(ms) => sd_audio_ms(ms),
        _ => Err(ErrorKind::Decode),
    }
}

/// The wire object of the audio metadata, keys in declaration order.
pub open spec fn js_audio(m: AudioV) -> JsonV {
    JsonV::Obj(
        seq![
            ("songFilename"@, JsonV::Str(m.song_filename)),
            ("songDuration"@, JsonV::Num(m.song_duration)),
            ("audioDataFilename"@, JsonV::Str(m.audio_data_filename)),
            ("bpm"@, JsonV::Num(m.bpm)),
            ("lufs"@, JsonV::Num(m.lufs)),
            ("previewStartTime"@, JsonV::Num(m.preview_start_time)),
            ("previewDuration"@, JsonV::Num(m.preview_duration)),
        ],
    )
}

impl Audio {
    /// Decodes one record from the members of its wire object.
    pub fn from_members(ms: &Vec<(String, Json)>) -> (r: Result<Audio, Error>)
        ensures
            match r {
                Ok(x) => sd_audio_ms(vms(ms@)) == Ok::<AudioV, ErrorKind>(x@),
                Err(e) => sd_audio_ms(vms(ms@)) == Err::<AudioV, ErrorKind>(e.kind()),
            },
    {
        let song_filename = match f_string(ms, "songFilename", "song.ogg") {
            Ok(v) => v,
            Err(e) => return Err(e),
        };
        let song_duration = match f_beats(ms, "songDuration") {
            Ok(v) => v,
            Err(e) => return Err(e),
        };
        let audio_data_filename = match f_string(ms, "audioDataFilename", "BPMInfo.dat") {
            Ok(v) => v,
            Err(e) => return Err(e),
        };
        let bpm = match f_beats(ms, "bpm") {
            Ok(v) => v,
            Err(e) => return Err(e),
        };
        let lufs = match f_beats(ms, "lufs") {
            Ok(v) => v,
            Err(e) => return Err(e),
        };
        let preview_start_time = match f_beats(ms, "previewStartTime") {
            Ok(v) => v,
            Err(e) => return Err(e),
        };
        let preview_duration = match f_beats(ms, "previewDuration") {
            Ok(v) => v,
            Err(e) => return Err(e),
        };
        Ok(Audio { song_filename, song_duration, audio_data_filename, bpm, lufs, preview_start_time, preview_duration })
    }

    /// Decodes one record from its wire value.
    pub fn from_json(j: &Json) -> (r: Result<Audio, Error>)
        ensures
            match r {
                Ok(x) => sd_audio(j.v()) == Ok::<AudioV, ErrorKind>(x@),
                Err(e) => sd_audio(j.v()) == Err::<AudioV, ErrorKind>(e.kind()),
            },
    {
        match j {
            Json::Obj(ms) => Audio::from_members(ms),
            _ => Err(Error::Decode(String::from_str("audio"))),
        }
    }

    /// Encodes this record as its wire object.
    pub fn to_json(&self) -> (r: Json)
        ensures
            r.v() == js_audio(self@),
    {
        let mut ms: Vec<(String, Json)> = Vec::new();
        ms.push((String::from_str("songFilename"), Json::Str(self.song_filename.clone())));
        ms.push((String::from_str("songDuration"), Json::Num(self.song_duration.clone())));
        ms.push((String::from_str("audioDataFilename"), Json::Str(self.audio_data_filename.clone())));
        ms.push((String::from_str("bpm"), Json::Num(self.bpm.clone())));
        ms.push((String::from_str("lufs"), Json::Num(self.lufs.clone())));
        ms.push((String::from_str("previewStartTime"), Json::Num(self.preview_start_time.clone())));
        ms.push((String::from_str("previewDuration"), Json::Num(self.preview_duration.clone())));
        let r = Json::Obj(ms);
        proof {
            assert(ms@[0].0@ == "songFilename"@ && ms@[0].1.v() == JsonV::Str(self@.song_filename));
            assert(ms@[1].0@ == "songDuration"@ && ms@[1].1.v() == JsonV::Num(self@.song_duration));
            assert(ms@[2].0@ == "audioDataFilename"@ && ms@[2].1.v() == JsonV::Str(self@.audio_data_filename));
            assert(ms@[3].0@ == "bpm"@ && ms@[3].1.v() == JsonV::Num(self@.bpm));
            assert(ms@[4].0@ == "lufs"@ && ms@[4].1.v() == JsonV::Num(self@.lufs));
            assert(ms@[5].0@ == "previewStartTime"@ && ms@[5].1.v() == JsonV::Num(self@.preview_start_time));
            assert(ms@[6].0@ == "previewDuration"@ && ms@[6].1.v() == JsonV::Num(self@.preview_duration));
            assert(r.v() matches JsonV::Obj(got) && (js_audio(self@) matches JsonV::Obj(
                want,
            ) && got =~~= want));
        }
        r
    }
}

/// How a nested `Audio` field is decoded; absent means all defaults.
pub open spec fn sd_audio_field(ms: Seq<(Seq<char>, JsonV)>, key: Seq<char>) -> Result<
    AudioV,
    ErrorKind,
> {
    match sd_nested(ms, key) {
        Err(e) => Err(e),
        Ok(ms2) => sd_audio_ms(ms2),
    }
}

impl Audio {
    /// Reads a nested `Audio` field; absent means all defaults.
    fn from_members_or_default(ms: &Vec<(String, Json)>, key: &str) -> (r: Result<Audio, Error>)
        ensures
            match r {
                Ok(x) => sd_audio_field(vms(ms@), key@) == Ok::<AudioV, ErrorKind>(x@),
                Err(e) => sd_audio_field(vms(ms@), key@) == Err::<AudioV, ErrorKind>(e.kind()),
            },
    {
        let empty_ms: Vec<(String, Json)> = Vec::new();
        proof {
            assert(vms(empty_ms@) =~= Seq::<(Seq<char>, JsonV)>::empty());
        }
        match get_e(ms, key) {
            None => Audio::from_members(&empty_ms),
            Some(j) => match j {
                Json::Obj(ms2) => Audio::from_members(ms2),
                _ => Err(Error::Decode(String::from_str(key))),
            },
        }
    }
}

/// The designer(s) of a [`DifficultyBeatmap`], including any contributing
/// mappers and lighters.
#[derive(Debug, Clone, PartialEq, Eq)]
pub struct BeatmapAuthors {
    /// The map designer(s) of a [`DifficultyBeatmap`].  Wire key `mappers`.
    pub mappers: Vec<String>,
    /// The light designer(s) of a [`DifficultyBeatmap`].  Wire key `lighters`.
    pub lighters: Vec<String>,
}

/// The mathematical value of a [`BeatmapAuthors`].
pub struct BeatmapAuthorsV {
    /// See [`BeatmapAuthors::mappers`].
    pub mappers: Seq<Seq<char>>,
    /// See [`BeatmapAuthors::lighters`].
    pub lighters: Seq<Seq<char>>,
}

impl View for BeatmapAuthors {
    type V = BeatmapAuthorsV;

    open spec fn view(&self) -> BeatmapAuthorsV {
        BeatmapAuthorsV {
            mappers: self.mappers.deep_view(),
            lighters: self.lighters.deep_view(),
        }
    }
}

impl DeepView for BeatmapAuthors {
    type V = BeatmapAuthorsV;

    open spec fn deep_view(&self) -> BeatmapAuthorsV {
        self.view()
    }
}

/// How the beatmap authors is decoded from the members of its wire object.
pub open spec fn sd_beatmap_authors_ms(ms: Seq<(Seq<char>, JsonV)>) -> Result<BeatmapAuthorsV, ErrorKind> {
    let r_mappers = sd_string_list_field(ms, "mappers"@);
    let r_lighters = sd_string_list_field(ms, "lighters"@);
    if r_mappers is Err {
        Err(r_mappers->Err_0)
    } else if r_lighters is Err {
        Err(r_lighters->Err_0)
    } else {
        Ok(
            BeatmapAuthorsV {
                mappers: r_mappers->Ok_0,
                lighters: r_lighters->Ok_0,
            },
        )
    }
}

/// How the beatmap authors is decoded from a wire value.
pub open spec fn sd_beatmap_authors(v: JsonV) -> Result<BeatmapAuthorsV, ErrorKind> {
    match v {
        JsonV::Obj(ms) => sd_beatmap_authors_ms(ms),
        _ => Err(ErrorKind::Decode),
    }
}

/// The wire object of the beatmap authors, keys in declaration order.
pub open spec fn js_beatmap_authors(m: BeatmapAuthorsV) -> JsonV {
    JsonV::Obj(
        seq![
            ("mappers"@, JsonV::Arr(js_string_list(m.mappers))),
            ("lighters"@, JsonV::Arr(js_string_list(m.lighters))),
        ],
    )
}

impl BeatmapAuthors {
    /// Decodes one record from the members of its wire object.
    pub fn from_members(ms: &Vec<(String, Json)>) -> (r: Result<BeatmapAuthors, Error>)
        ensures
            match r {
                Ok(x) => sd_beatmap_authors_ms(vms(ms@)) == Ok::<BeatmapAuthorsV, ErrorKind>(x@),
                Err(e) => sd_beatmap_authors_ms(vms(ms@)) == Err::<BeatmapAuthorsV, ErrorKind>(e.kind()),
            },
    {
        let mappers = match string_list_field(ms, "mappers") {
            Ok(v) => v,
            Err(e) => return Err(e),
        };
        let lighters = match string_list_field(ms, "lighters") {
            Ok(v) => v,
            Err(e) => return Err(e),
        };
        Ok(BeatmapAuthors { mappers, lighters })
    }

    /// Decodes one record from its wire value.
    pub fn from_json(j: &Json) -> (r: Result<BeatmapAuthors, Error>)
        ensures
            match r {
                Ok(x) => sd_beatmap_authors(j.v()) == Ok::<BeatmapAuthorsV, ErrorKind>(x@),
                Err(e) => sd_beatmap_authors(j.v()) == Err::<BeatmapAuthorsV, ErrorKind>(e.kind()),
            },
    {
        match j {
            Json::Obj(ms) => BeatmapAuthors::from_members(ms),
            _ => Err(Error::Decode(String::from_str("beatmap authors"))),
        }
    }

    /// Encodes this record as its wire object.
    pub fn to_json(&self) -> (r: Json)
        ensures
            r.v() == js_beatmap_authors(self@),
    {
        let mut ms: Vec<(String, Json)> = Vec::new();
        ms.push((String::from_str("mappers"), Json::Arr(string_list_json(&self.mappers))));
        ms.push((String::from_str("lighters"), Json::Arr(string_list_json(&self.lighters))));
        let r = Json::Obj(ms);
        proof {
            assert(ms@[0].0@ == "mappers"@ && ms@[0].1.v() == JsonV::Arr(js_string_list(self@.mappers)));
            assert(ms@[1].0@ == "lighters"@ && ms@[1].1.v() == JsonV::Arr(js_string_list(self@.lighters)));
            assert(r.v() matches JsonV::Obj(got) && (js_beatmap_authors(self@) matches JsonV::Obj(
                want,
            ) && got =~~= want));
        }
        r
    }
}

/// How a nested `BeatmapAuthors` field is decoded; absent means all defaults.
pub open spec fn sd_beatmap_authors_field(ms: Seq<(Seq<char>, JsonV)>, key: Seq<char>) -> Result<
    BeatmapAuthorsV,
    ErrorKind,
> {
    match sd_nested(ms, key) {
        Err(e) => Err(e),
        Ok(ms2) => sd_beatmap_authors_ms(ms2),
    }
}

impl BeatmapAuthors {
    /// Reads a nested `BeatmapAuthors` field; absent means all defaults.
    fn from_members_or_default(ms: &Vec<(String, Json)>, key: &str) -> (r: Result<BeatmapAuthors, Error>)
        ensures
            match r {
                Ok(x) => sd_beatmap_authors_field(vms(ms@), key@) == Ok::<BeatmapAuthorsV, ErrorKind>(x@),
                Err(e) => sd_beatmap_authors_field(vms(ms@), key@) == Err::<BeatmapAuthorsV, ErrorKind>(e.kind()),
            },
    {
        let empty_ms: Vec<(String, Json)> = Vec::new();
        proof {
            assert(vms(empty_ms@) =~= Seq::<(Seq<char>, JsonV)>::empty());
        }
        match get_e(ms, key) {
            None => BeatmapAuthors::from_members(&empty_ms),
            Some(j) => match j {
                Json::Obj(ms2) => BeatmapAuthors::from_members(ms2),
                _ => Err(Error::Decode(String::from_str(key))),
            },
        }
    }
}

/// A color palette used across in-game objects, each color written on the
/// wire in `#RRGGBBAA` form.
#[derive(Debug, Clone, PartialEq, Eq)]
pub struct ColorScheme {
    /// Whether this scheme overrides the environment colors.  Wire key `useOverride`.
    pub use_override: bool,
    /// The player-facing name of the color scheme.  Wire key `colorSchemeName`.
    pub color_scheme_name: String,
    /// The color of the left saber.  Wire key `saberAColor`.
    pub saber_a_color: u32,
    /// The color of the right saber.  Wire key `saberBColor`.
    pub saber_b_color: u32,
    /// The color of wall obstacles.  Wire key `obstaclesColor`.
    pub obstacles_color: u32,
    /// The first environment color.  Wire key `environmentColor0`.
    pub environment_color_0: u32,
    /// The second environment color.  Wire key `environmentColor1`.
    pub environment_color_1: u32,
    /// Boosted variant of the first environment color.  Wire key `environmentColor0Boost`.
    pub environment_color_0_boost: u32,
    /// Boosted variant of the second environment color.  Wire key `environmentColor1Boost`.
    pub environment_color_1_boost: u32,
}

/// The mathematical value of a [`ColorScheme`].
pub struct ColorSchemeV {
    /// See [`ColorScheme::use_override`].
    pub use_override: bool,
    /// See [`ColorScheme::color_scheme_name`].
    pub color_scheme_name: Seq<char>,
    /// See [`ColorScheme::saber_a_color`].
    pub saber_a_color: u32,
    /// See [`ColorScheme::saber_b_color`].
    pub saber_b_color: u32,
    /// See [`ColorScheme::obstacles_color`].
    pub obstacles_color: u32,
    /// See [`ColorScheme::environment_color_0`].
    pub environment_color_0: u32,
    /// See [`ColorScheme::environment_color_1`].
    pub environment_color_1: u32,
    /// See [`ColorScheme::environment_color_0_boost`].
    pub environment_color_0_boost: u32,
    /// See [`ColorScheme::environment_color_1_boost`].
    pub environment_color_1_boost: u32,
}

impl View for ColorScheme {
    type V = ColorSchemeV;

    open spec fn view(&self) -> ColorSchemeV {
        ColorSchemeV {
            use_override: self.use_override,
            color_scheme_name: self.color_scheme_name@,
            saber_a_color: self.saber_a_color,
            saber_b_color: self.saber_b_color,
            obstacles_color: self.obstacles_color,
            environment_color_0: self.environment_color_0,
            environment_color_1: self.environment_color_1,
            environment_color_0_boost: self.environment_color_0_boost,
            environment_color_1_boost: self.environment_color_1_boost,
        }
    }
}

impl DeepView for ColorScheme {
    type V = ColorSchemeV;

    open spec fn deep_view(&self) -> ColorSchemeV {
        self.view()
    }
}

/// How a color scheme is decoded from the members of its wire object.
pub open spec fn sd_color_scheme_ms(ms: Seq<(Seq<char>, JsonV)>) -> Result<ColorSchemeV, ErrorKind> {
    let r_use_override = sd_bool(ms, "useOverride"@);
    let r_color_scheme_name = sd_string(ms, "colorSchemeName"@, ""@);
    let r_saber_a_color = sd_hex(ms, "saberAColor"@);
    let r_saber_b_color = sd_hex(ms, "saberBColor"@);
    let r_obstacles_color = sd_hex(ms, "obstaclesColor"@);
    let r_environment_color_0 = sd_hex(ms, "environmentColor0"@);
    let r_environment_color_1 = sd_hex(ms, "environmentColor1"@);
    let r_environment_color_0_boost = sd_hex(ms, "environmentColor0Boost"@);
    let r_environment_color_1_boost = sd_hex(ms, "environmentColor1Boost"@);
    if r_use_override is Err {
        Err(r_use_override->Err_0)
    } else if r_color_scheme_name is Err {
        Err(r_color_scheme_name->Err_0)
    } else if r_saber_a_color is Err {
        Err(r_saber_a_color->Err_0)
    } else if r_saber_b_color is Err {
        Err(r_saber_b_color->Err_0)
    } else if r_obstacles_color is Err {
        Err(r_obstacles_color->Err_0)
    } else if r_environment_color_0 is Err {
        Err(r_environment_color_0->Err_0)
    } else if r_environment_color_1 is Err {
        Err(r_environment_color_1->Err_0)
    } else if r_environment_color_0_boost is Err {
        Err(r_environment_color_0_boost->Err_0)
    } else if r_environment_color_1_boost is Err {
        Err(r_environment_color_1_boost->Err_0)
    } else {
        Ok(
            ColorSchemeV {
                use_override: r_use_override->Ok_0,
                color_scheme_name: r_color_scheme_name->Ok_0,
                saber_a_color: r_saber_a_color->Ok_0 as u32,
                saber_b_color: r_saber_b_color->Ok_0 as u32,
                obstacles_color: r_obstacles_color->Ok_0 as u32,
                environment_color_0: r_environment_color_0->Ok_0 as u32,
                environment_color_1: r_environment_color_1->Ok_0 as u32,
                environment_color_0_boost: r_environment_color_0_boost->Ok_0 as u32,
                environment_color_1_boost: r_environment_color_1_boost->Ok_0 as u32,
            },
        )
    }
}

/// How a color scheme is decoded from a wire value.
pub open spec fn sd_color_scheme(v: JsonV) -> Result<ColorSchemeV, ErrorKind> {
    match v {
        JsonV::Obj(ms) => sd_color_scheme_ms(ms),
        _ => Err(ErrorKind::Decode),
    }
}

/// The wire object of a color scheme, keys in declaration order.
pub open spec fn js_color_scheme(m: ColorSchemeV) -> JsonV {
    JsonV::Obj(
        seq![
            ("useOverride"@, JsonV::Bool(m.use_override)),
            ("colorSchemeName"@, JsonV::Str(m.color_scheme_name)),
            ("saberAColor"@, JsonV::Str(hex_encoding(m.saber_a_color))),
            ("saberBColor"@, JsonV::Str(hex_encoding(m.saber_b_color))),
            ("obstaclesColor"@, JsonV::Str(hex_encoding(m.obstacles_color))),
            ("environmentColor0"@, JsonV::Str(hex_encoding(m.environment_color_0))),
            ("environmentColor1"@, JsonV::Str(hex_encoding(m.environment_color_1))),
            ("environmentColor0Boost"@, JsonV::Str(hex_encoding(m.environment_color_0_boost))),
            ("environmentColor1Boost"@, JsonV::Str(hex_encoding(m.environment_color_1_boost))),
        ],
    )
}

impl ColorScheme {
    /// Decodes one record from the members of its wire object.
    pub fn from_members(ms: &Vec<(String, Json)>) -> (r: Result<ColorScheme, Error>)
        ensures
            match r {
                Ok(x) => sd_color_scheme_ms(vms(ms@)) == Ok::<ColorSchemeV, ErrorKind>(x@),
                Err(e) => sd_color_scheme_ms(vms(ms@)) == Err::<ColorSchemeV, ErrorKind>(e.kind()),
            },
    {
        let use_override = match f_bool(ms, "useOverride") {
            Ok(v) => v,
            Err(e) => return Err(e),
        };
        let color_scheme_name = match f_string(ms, "colorSchemeName", "") {
            Ok(v) => v,
            Err(e) => return Err(e),
        };
        let saber_a_color = match f_hex(ms, "saberAColor") {
            Ok(v) => v,
            Err(e) => return Err(e),
        };
        let saber_b_color = match f_hex(ms, "saberBColor") {
            Ok(v) => v,
            Err(e) => return Err(e),
        };
        let obstacles_color = match f_hex(ms, "obstaclesColor") {
            Ok(v) => v,
            Err(e) => return Err(e),
        };
        let environment_color_0 = match f_hex(ms, "environmentColor0") {
            Ok(v) => v,
            Err(e) => return Err(e),
        };
        let environment_color_1 = match f_hex(ms, "environmentColor1") {
            Ok(v) => v,
            Err(e) => return Err(e),
        };
        let environment_color_0_boost = match f_hex(ms, "environmentColor0Boost") {
            Ok(v) => v,
            Err(e) => return Err(e),
        };
        let environment_color_1_boost = match f_hex(ms, "environmentColor1Boost") {
            Ok(v) => v,
            Err(e) => return Err(e),
        };
        Ok(ColorScheme { use_override, color_scheme_name, saber_a_color, saber_b_color, obstacles_color, environment_color_0, environment_color_1, environment_color_0_boost, environment_color_1_boost })
    }

    /// Decodes one record from its wire value.
    pub fn from_json(j: &Json) -> (r: Result<ColorScheme, Error>)
        ensures
            match r {
                Ok(x) => sd_color_scheme(j.v()) == Ok::<ColorSchemeV, ErrorKind>(x@),
                Err(e) => sd_color_scheme(j.v()) == Err::<ColorSchemeV, ErrorKind>(e.kind()),
            },
    {
        match j {
            Json::Obj(ms) => ColorScheme::from_members(ms),
            _ => Err(Error::Decode(String::from_str("color scheme"))),
        }
    }

    /// Encodes this record as its wire object.
    pub fn to_json(&self) -> (r: Json)
        ensures
            r.v() == js_color_scheme(self@),
    {
        let mut ms: Vec<(String, Json)> = Vec::new();
        ms.push((String::from_str("useOverride"), Json::Bool(self.use_override)));
        ms.push((String::from_str("colorSchemeName"), Json::Str(self.color_scheme_name.clone())));
        ms.push((String::from_str("saberAColor"), Json::Str(encode_hex(self.saber_a_color))));
        ms.push((String::from_str("saberBColor"), Json::Str(encode_hex(self.saber_b_color))));
        ms.push((String::from_str("obstaclesColor"), Json::Str(encode_hex(self.obstacles_color))));
        ms.push((String::from_str("environmentColor0"), Json::Str(encode_hex(self.environment_color_0))));
        ms.push((String::from_str("environmentColor1"), Json::Str(encode_hex(self.environment_color_1))));
        ms.push((String::from_str("environmentColor0Boost"), Json::Str(encode_hex(self.environment_color_0_boost))));
        ms.push((String::from_str("environmentColor1Boost"), Json::Str(encode_hex(self.environment_color_1_boost))));
        let r = Json::Obj(ms);
        proof {
            assert(ms@[0].0@ == "useOverride"@ && ms@[0].1.v() == JsonV::Bool(self@.use_override));
            assert(ms@[1].0@ == "colorSchemeName"@ && ms@[1].1.v() == JsonV::Str(self@.color_scheme_name));
            assert(ms@[2].0@ == "saberAColor"@ && ms@[2].1.v() == JsonV::Str(hex_encoding(self@.saber_a_color)));
            assert(ms@[3].0@ == "saberBColor"@ && ms@[3].1.v() == JsonV::Str(hex_encoding(self@.saber_b_color)));
            assert(ms@[4].0@ == "obstaclesColor"@ && ms@[4].1.v() == JsonV::Str(hex_encoding(self@.obstacles_color)));
            assert(ms@[5].0@ == "environmentColor0"@ && ms@[5].1.v() == JsonV::Str(hex_encoding(self@.environment_color_0)));
            assert(ms@[6].0@ == "environmentColor1"@ && ms@[6].1.v() == JsonV::Str(hex_encoding(self@.environment_color_1)));
            assert(ms@[7].0@ == "environmentColor0Boost"@ && ms@[7].1.v() == JsonV::Str(hex_encoding(self@.environment_color_0_boost)));
            assert(ms@[8].0@ == "environmentColor1Boost"@ && ms@[8].1.v() == JsonV::Str(hex_encoding(self@.environment_color_1_boost)));
            assert(r.v() matches JsonV::Obj(got) && (js_color_scheme(self@) matches JsonV::Obj(
                want,
            ) && got =~~= want));
        }
        r
    }
}

/// How the records from `i` on of an array are decoded, after those already
/// read into `acc`.
pub open spec fn sd_color_scheme_list(items: Seq<JsonV>, i: int, acc: Seq<ColorSchemeV>) -> Result<
    Seq<ColorSchemeV>,
    ErrorKind,
>
    decreases items.len() - i,
{
    if !(0 <= i < items.len()) {
        Ok(acc)
    } else {
        match sd_color_scheme(items[i]) {
            Err(e) => Err(e),
            Ok(x) => sd_color_scheme_list(items, i + 1, acc.push(x)),
        }
    }
}

/// How a whole array field of such records is decoded; absent means empty.
pub open spec fn sd_color_scheme_list_field(ms: Seq<(Seq<char>, JsonV)>, key: Seq<char>) -> Result<
    Seq<ColorSchemeV>,
    ErrorKind,
> {
    match sd_arr(ms, key) {
        Err(e) => Err(e),
        Ok(items) => sd_color_scheme_list(items, 0, Seq::empty()),
    }
}

/// The wire objects of a list of such records.
pub open spec fn js_color_scheme_list(l: Seq<ColorSchemeV>) -> Seq<JsonV> {
    Seq::new(
        l.len(),
        |i: int|
            if 0 <= i < l.len() {
                js_color_scheme(l[i])
            } else {
                JsonV::Null
            },
    )
}

/// Decodes a whole array of such records, failing on the first bad one.
fn color_scheme_list_from(items: &Vec<Json>) -> (r: Result<Vec<ColorScheme>, Error>)
    ensures
        match r {
            Ok(l) => sd_color_scheme_list(vs(items@), 0, Seq::empty()) == Ok::<Seq<ColorSchemeV>, ErrorKind>(
                l.deep_view(),
            ),
            Err(e) => sd_color_scheme_list(vs(items@), 0, Seq::empty()) == Err::<Seq<ColorSchemeV>, ErrorKind>(
                e.kind(),
            ),
        },
{
    let n = items.len();
    let mut acc: Vec<ColorScheme> = Vec::new();
    let mut i: usize = 0;
    proof {
        assert(acc.deep_view() =~= Seq::<ColorSchemeV>::empty());
    }
    while i < n
        invariant
            i <= n == items@.len(),
            sd_color_scheme_list(vs(items@), 0, Seq::empty()) == sd_color_scheme_list(
                vs(items@),
                i as int,
                acc.deep_view(),
            ),
        decreases n - i,
    {
        let ghost prev = acc.deep_view();
        match ColorScheme::from_json(&items[i]) {
            Ok(x) => {
                acc.push(x);
                proof {
                    assert(acc.deep_view() =~= prev.push(acc@[acc@.len() - 1]@));
                }
            },
            Err(e) => {
                return Err(e);
            },
        }
        i += 1;
    }
    Ok(acc)
}

/// Reads a whole array field of such records; absent means empty.
fn color_scheme_list_field(ms: &Vec<(String, Json)>, key: &str) -> (r: Result<Vec<ColorScheme>, Error>)
    ensures
        match r {
            Ok(l) => sd_color_scheme_list_field(vms(ms@), key@) == Ok::<Seq<ColorSchemeV>, ErrorKind>(
                l.deep_view(),
            ),
            Err(e) => sd_color_scheme_list_field(vms(ms@), key@) == Err::<Seq<ColorSchemeV>, ErrorKind>(e.kind()),
        },
{
    let empty_items: Vec<Json> = Vec::new();
    proof {
        assert(vs(empty_items@) =~= Seq::<JsonV>::empty());
    }
    match crate::fields::get_e(ms, key) {
        None => color_scheme_list_from(&empty_items),
        Some(a) => match a {
            Json::Arr(items) => color_scheme_list_from(items),
            _ => Err(Error::Decode(String::from_str(key))),
        },
    }
}

/// Encodes a whole list of such records.
fn color_scheme_list_json(l: &Vec<ColorScheme>) -> (r: Vec<Json>)
    ensures
        vs(r@) == js_color_scheme_list(l.deep_view()),
{
    let n = l.len();
    let mut acc: Vec<Json> = Vec::new();
    let mut i: usize = 0;
    while i < n
        invariant
            i <= n == l@.len(),
            acc@.len() == i,
            forall|k: int| 0 <= k < i ==> #[trigger] acc@[k].v() == js_color_scheme(l@[k]@),
        decreases n - i,
    {
        acc.push(l[i].to_json());
        i += 1;
    }
    proof {
        assert forall|k: int| 0 <= k < l@.len() implies #[trigger] vs(acc@)[k] == js_color_scheme_list(
            l.deep_view(),
        )[k] by {
            assert(l.deep_view()[k] == l@[k]@);
            assert(acc@[k].v() == js_color_scheme(l@[k]@));
        }
        assert(vs(acc@) =~= js_color_scheme_list(l.deep_view()));
    }
    acc
}

/// An individual level associated with a map, organized by its
/// characteristic and difficulty.
#[derive(Debug, Clone, PartialEq)]
pub struct DifficultyBeatmap {
    /// See [`Characteristic`].  Wire key `characteristic`.
    pub characteristic: Characteristic,
    /// See [`Difficulty`].  Wire key `difficulty`.
    pub difficulty: Difficulty,
    /// See [`BeatmapAuthors`].  Wire key `beatmapAuthors`.
    pub beatmap_authors: BeatmapAuthors,
    /// The index of an environment from [`Info::environment_names`]; carried, not checked.  Wire key `environmentNameIdx`.
    pub environment_name_idx: usize,
    /// The index of a color scheme from [`Info::color_schemes`]; carried, not checked.  Wire key `beatmapColorSchemeIdx`.
    pub beatmap_color_scheme_idx: usize,
    /// The speed at which objects in the beatmap will move towards the player.  Wire key `noteJumpMovementSpeed`.
    pub note_jump_movement_speed: u32,
    /// The offset at which objects in the beatmap will move towards the player.  Wire key `noteJumpStartBeatOffset`.
    pub note_jump_start_beat_offset: Beats,
    /// The level file for interactable objects associated with the map.  Wire key `beatmapDataFilename`.
    pub beatmap_data_filename: String,
    /// The level file for non-interactable objects associated with the map.  Wire key `lightshowDataFilename`.
    pub lightshow_data_filename: String,
}

/// The mathematical value of a [`DifficultyBeatmap`].
pub struct DifficultyBeatmapV {
    /// See [`DifficultyBeatmap::characteristic`].
    pub characteristic: Characteristic,
    /// See [`DifficultyBeatmap::difficulty`].
    pub difficulty: Difficulty,
    /// See [`DifficultyBeatmap::beatmap_authors`].
    pub beatmap_authors: BeatmapAuthorsV,
    /// See [`DifficultyBeatmap::environment_name_idx`].
    pub environment_name_idx: usize,
    /// See [`DifficultyBeatmap::beatmap_color_scheme_idx`].
    pub beatmap_color_scheme_idx: usize,
    /// See [`DifficultyBeatmap::note_jump_movement_speed`].
    pub note_jump_movement_speed: u32,
    /// See [`DifficultyBeatmap::note_jump_start_beat_offset`].
    pub note_jump_start_beat_offset: Seq<char>,
    /// See [`DifficultyBeatmap::beatmap_data_filename`].
    pub beatmap_data_filename: Seq<char>,
    /// See [`DifficultyBeatmap::lightshow_data_filename`].
    pub lightshow_data_filename: Seq<char>,
}

impl View for DifficultyBeatmap {
    type V = DifficultyBeatmapV;

    open spec fn view(&self) -> DifficultyBeatmapV {
        DifficultyBeatmapV {
            characteristic: self.characteristic,
            difficulty: self.difficulty,
            beatmap_authors: self.beatmap_authors@,
            environment_name_idx: self.environment_name_idx,
            beatmap_color_scheme_idx: self.beatmap_color_scheme_idx,
            note_jump_movement_speed: self.note_jump_movement_speed,
            note_jump_start_beat_offset: self.note_jump_start_beat_offset@,
            beatmap_data_filename: self.beatmap_data_filename@,
            lightshow_data_filename: self.lightshow_data_filename@,
        }
    }
}

impl DeepView for DifficultyBeatmap {
    type V = DifficultyBeatmapV;

    open spec fn deep_view(&self) -> DifficultyBeatmapV {
        self.view()
    }
}

/// How a difficulty beatmap entry is decoded from the members of its wire object.
pub open spec fn sd_difficulty_beatmap_ms(ms: Seq<(Seq<char>, JsonV)>) -> Result<DifficultyBeatmapV, ErrorKind> {
    let r_characteristic = sd_characteristic_field(ms, "characteristic"@);
    let r_difficulty = sd_difficulty_field(ms, "difficulty"@);
    let r_beatmap_authors = sd_beatmap_authors_field(ms, "beatmapAuthors"@);
    let r_environment_name_idx = sd_uint(ms, "environmentNameIdx"@, usize::MAX as nat);
    let r_beatmap_color_scheme_idx = sd_uint(ms, "beatmapColorSchemeIdx"@, usize::MAX as nat);
    let r_note_jump_movement_speed = sd_uint(ms, "noteJumpMovementSpeed"@, u32::MAX as nat);
    let r_note_jump_start_beat_offset = sd_beats(ms, "noteJumpStartBeatOffset"@);
    let r_beatmap_data_filename = sd_string(ms, "beatmapDataFilename"@, ""@);
    let r_lightshow_data_filename = sd_string(ms, "lightshowDataFilename"@, ""@);
    if r_characteristic is Err {
        Err(r_characteristic->Err_0)
    } else if r_difficulty is Err {
        Err(r_difficulty->Err_0)
    } else if r_beatmap_authors is Err {
        Err(r_beatmap_authors->Err_0)
    } else if r_environment_name_idx is Err {
        Err(r_environment_name_idx->Err_0)
    } else if r_beatmap_color_scheme_idx is Err {
        Err(r_beatmap_color_scheme_idx->Err_0)
    } else if r_note_jump_movement_speed is Err {
        Err(r_note_jump_movement_speed->Err_0)
    } else if r_note_jump_start_beat_offset is Err {
        Err(r_note_jump_start_beat_offset->Err_0)
    } else if r_beatmap_data_filename is Err {
        Err(r_beatmap_data_filename->Err_0)
    } else if r_lightshow_data_filename is Err {
        Err(r_lightshow_data_filename->Err_0)
    } else {
        Ok(
            DifficultyBeatmapV {
                characteristic: r_characteristic->Ok_0,
                difficulty: r_difficulty->Ok_0,
                beatmap_authors: r_beatmap_authors->Ok_0,
                environment_name_idx: r_environment_name_idx->Ok_0 as usize,
                beatmap_color_scheme_idx: r_beatmap_color_scheme_idx->Ok_0 as usize,
                note_jump_movement_speed: r_note_jump_movement_speed->Ok_0 as u32,
                note_jump_start_beat_offset: r_note_jump_start_beat_offset->Ok_0,
                beatmap_data_filename: r_beatmap_data_filename->Ok_0,
                lightshow_data_filename: r_lightshow_data_filename->Ok_0,
            },
        )
    }
}

/// How a difficulty beatmap entry is decoded from a wire value.
pub open spec fn sd_difficulty_beatmap(v: JsonV) -> Result<DifficultyBeatmapV, ErrorKind> {
    match v {
        JsonV::Obj(ms) => sd_difficulty_beatmap_ms(ms),
        _ => Err(ErrorKind::Decode),
    }
}

/// The wire object of a difficulty beatmap entry, keys in declaration order.
pub open spec fn js_difficulty_beatmap(m: DifficultyBeatmapV) -> JsonV {
    JsonV::Obj(
        seq![
            ("characteristic"@, JsonV::Str(characteristic_label(m.characteristic))),
            ("difficulty"@, JsonV::Str(difficulty_label(m.difficulty))),
            ("beatmapAuthors"@, js_beatmap_authors(m.beatmap_authors)),
            ("environmentNameIdx"@, JsonV::Num(dec_text(m.environment_name_idx as nat))),
            ("beatmapColorSchemeIdx"@, JsonV::Num(dec_text(m.beatmap_color_scheme_idx as nat))),
            ("noteJumpMovementSpeed"@, JsonV::Num(dec_text(m.note_jump_movement_speed as nat))),
            ("noteJumpStartBeatOffset"@, JsonV::Num(m.note_jump_start_beat_offset)),
            ("beatmapDataFilename"@, JsonV::Str(m.beatmap_data_filename)),
            ("lightshowDataFilename"@, JsonV::Str(m.lightshow_data_filename)),
        ],
    )
}

impl DifficultyBeatmap {
    /// Decodes one record from the members of its wire object.
    pub fn from_members(ms: &Vec<(String, Json)>) -> (r: Result<DifficultyBeatmap, Error>)
        ensures
            match r {
                Ok(x) => sd_difficulty_beatmap_ms(vms(ms@)) == Ok::<DifficultyBeatmapV, ErrorKind>(x@),
                Err(e) => sd_difficulty_beatmap_ms(vms(ms@)) == Err::<DifficultyBeatmapV, ErrorKind>(e.kind()),
            },
    {
        let characteristic = match f_characteristic(ms, "characteristic") {
            Ok(v) => v,
            Err(e) => return Err(e),
        };
        let difficulty = match f_difficulty(ms, "difficulty") {
            Ok(v) => v,
            Err(e) => return Err(e),
        };
        let beatmap_authors = match BeatmapAuthors::from_members_or_default(ms, "beatmapAuthors") {
            Ok(v) => v,
            Err(e) => return Err(e),
        };
        let environment_name_idx = match f_usize(ms, "environmentNameIdx") {
            Ok(v) => v,
            Err(e) => return Err(e),
        };
        let beatmap_color_scheme_idx = match f_usize(ms, "beatmapColorSchemeIdx") {
            Ok(v) => v,
            Err(e) => return Err(e),
        };
        let note_jump_movement_speed = match f_u32(ms, "noteJumpMovementSpeed") {
            Ok(v) => v,
            Err(e) => return Err(e),
        };
        let note_jump_start_beat_offset = match f_beats(ms, "noteJumpStartBeatOffset") {
            Ok(v) => v,
            Err(e) => return Err(e),
        };
        let beatmap_data_filename = match f_string(ms, "beatmapDataFilename", "") {
            Ok(v) => v,
            Err(e) => return Err(e),
        };
        let lightshow_data_filename = match f_string(ms, "lightshowDataFilename", "") {
            Ok(v) => v,
            Err(e) => return Err(e),
        };
        Ok(DifficultyBeatmap { characteristic, difficulty, beatmap_authors, environment_name_idx, beatmap_color_scheme_idx, note_jump_movement_speed, note_jump_start_beat_offset, beatmap_data_filename, lightshow_data_filename })
    }

    /// Decodes one record from its wire value.
    pub fn from_json(j: &Json) -> (r: Result<DifficultyBeatmap, Error>)
        ensures
            match r {
                Ok(x) => sd_difficulty_beatmap(j.v()) == Ok::<DifficultyBeatmapV, ErrorKind>(x@),
                Err(e) => sd_difficulty_beatmap(j.v()) == Err::<DifficultyBeatmapV, ErrorKind>(e.kind()),
            },
    {
        match j {
            Json::Obj(ms) => DifficultyBeatmap::from_members(ms),
            _ => Err(Error::Decode(String::from_str("difficulty beatmap"))),
        }
    }

    /// Encodes this record as its wire object.
    pub fn to_json(&self) -> (r: Json)
        ensures
            r.v() == js_difficulty_beatmap(self@),
    {
        let mut ms: Vec<(String, Json)> = Vec::new();
        ms.push((String::from_str("characteristic"), Json::Str(self.characteristic.label())));
        ms.push((String::from_str("difficulty"), Json::Str(self.difficulty.label())));
        ms.push((String::from_str("beatmapAuthors"), self.beatmap_authors.to_json()));
        ms.push((String::from_str("environmentNameIdx"), Json::Num(dec_string(self.environment_name_idx as u64))));
        ms.push((String::from_str("beatmapColorSchemeIdx"), Json::Num(dec_string(self.beatmap_color_scheme_idx as u64))));
        ms.push((String::from_str("noteJumpMovementSpeed"), Json::Num(dec_string(self.note_jump_movement_speed as u64))));
        ms.push((String::from_str("noteJumpStartBeatOffset"), Json::Num(self.note_jump_start_beat_offset.clone())));
        ms.push((String::from_str("beatmapDataFilename"), Json::Str(self.beatmap_data_filename.clone())));
        ms.push((String::from_str("lightshowDataFilename"), Json::Str(self.lightshow_data_filename.clone())));
        let r = Json::Obj(ms);
        proof {
            assert(ms@[0].0@ == "characteristic"@ && ms@[0].1.v() == JsonV::Str(characteristic_label(self@.characteristic)));
            assert(ms@[1].0@ == "difficulty"@ && ms@[1].1.v() == JsonV::Str(difficulty_label(self@.difficulty)));
            assert(ms@[2].0@ == "beatmapAuthors"@ && ms@[2].1.v() == js_beatmap_authors(self@.beatmap_authors));
            assert(ms@[3].0@ == "environmentNameIdx"@ && ms@[3].1.v() == JsonV::Num(dec_text(self@.environment_name_idx as nat)));
            assert(ms@[4].0@ == "beatmapColorSchemeIdx"@ && ms@[4].1.v() == JsonV::Num(dec_text(self@.beatmap_color_scheme_idx as nat)));
            assert(ms@[5].0@ == "noteJumpMovementSpeed"@ && ms@[5].1.v() == JsonV::Num(dec_text(self@.note_jump_movement_speed as nat)));
            assert(ms@[6].0@ == "noteJumpStartBeatOffset"@ && ms@[6].1.v() == JsonV::Num(self@.note_jump_start_beat_offset));
            assert(ms@[7].0@ == "beatmapDataFilename"@ && ms@[7].1.v() == JsonV::Str(self@.beatmap_data_filename));
            assert(ms@[8].0@ == "lightshowDataFilename"@ && ms@[8].1.v() == JsonV::Str(self@.lightshow_data_filename));
            assert(r.v() matches JsonV::Obj(got) && (js_difficulty_beatmap(self@) matches JsonV::Obj(
                want,
            ) && got =~~= want));
        }
        r
    }
}

/// How the records from `i` on of an array are decoded, after those already
/// read into `acc`.
pub open spec fn sd_difficulty_beatmap_list(items: Seq<JsonV>, i: int, acc: Seq<DifficultyBeatmapV>) -> Result<
    Seq<DifficultyBeatmapV>,
    ErrorKind,
>
    decreases items.len() - i,
{
    if !(0 <= i < items.len()) {
        Ok(acc)
    } else {
        match sd_difficulty_beatmap(items[i]) {
            Err(e) => Err(e),
            Ok(x) => sd_difficulty_beatmap_list(items, i + 1, acc.push(x)),
        }
    }
}

/// How a whole array field of such records is decoded; absent means empty.
pub open spec fn sd_difficulty_beatmap_list_field(ms: Seq<(Seq<char>, JsonV)>, key: Seq<char>) -> Result<
    Seq<DifficultyBeatmapV>,
    ErrorKind,
> {
    match sd_arr(ms, key) {
        Err(e) => Err(e),
        Ok(items) => sd_difficulty_beatmap_list(items, 0, Seq::empty()),
    }
}

/// The wire objects of a list of such records.
pub open spec fn js_difficulty_beatmap_list(l: Seq<DifficultyBeatmapV>) -> Seq<JsonV> {
    Seq::new(
        l.len(),
        |i: int|
            if 0 <= i < l.len() {
                js_difficulty_beatmap(l[i])
            } else {
                JsonV::Null
            },
    )
}

/// Decodes a whole array of such records, failing on the first bad one.
fn difficulty_beatmap_list_from(items: &Vec<Json>) -> (r: Result<Vec<DifficultyBeatmap>, Error>)
    ensures
        match r {
            Ok(l) => sd_difficulty_beatmap_list(vs(items@), 0, Seq::empty()) == Ok::<Seq<DifficultyBeatmapV>, ErrorKind>(
                l.deep_view(),
            ),
            Err(e) => sd_difficulty_beatmap_list(vs(items@), 0, Seq::empty()) == Err::<Seq<DifficultyBeatmapV>, ErrorKind>(
                e.kind(),
            ),
        },
{
    let n = items.len();
    let mut acc: Vec<DifficultyBeatmap> = Vec::new();
    let mut i: usize = 0;
    proof {
        assert(acc.deep_view() =~= Seq::<DifficultyBeatmapV>::empty());
    }
    while i < n
        invariant
            i <= n == items@.len(),
            sd_difficulty_beatmap_list(vs(items@), 0, Seq::empty()) == sd_difficulty_beatmap_list(
                vs(items@),
                i as int,
                acc.deep_view(),
            ),
        decreases n - i,
    {
        let ghost prev = acc.deep_view();
        match DifficultyBeatmap::from_json(&items[i]) {
            Ok(x) => {
                acc.push(x);
                proof {
                    assert(acc.deep_view() =~= prev.push(acc@[acc@.len() - 1]@));
                }
            },
            Err(e) => {
                return Err(e);
            },
        }
        i += 1;
    }
    Ok(acc)
}

/// Reads a whole array field of such records; absent means empty.
fn difficulty_beatmap_list_field(ms: &Vec<(String, Json)>, key: &str) -> (r: Result<Vec<DifficultyBeatmap>, Error>)
    ensures
        match r {
            Ok(l) => sd_difficulty_beatmap_list_field(vms(ms@), key@) == Ok::<Seq<DifficultyBeatmapV>, ErrorKind>(
                l.deep_view(),
            ),
            Err(e) => sd_difficulty_beatmap_list_field(vms(ms@), key@) == Err::<Seq<DifficultyBeatmapV>, ErrorKind>(e.kind()),
        },
{
    let empty_items: Vec<Json> = Vec::new();
    proof {
        assert(vs(empty_items@) =~= Seq::<JsonV>::empty());
    }
    match crate::fields::get_e(ms, key) {
        None => difficulty_beatmap_list_from(&empty_items),
        Some(a) => match a {
            Json::Arr(items) => difficulty_beatmap_list_from(items),
            _ => Err(Error::Decode(String::from_str(key))),
        },
    }
}

/// Encodes a whole list of such records.
fn difficulty_beatmap_list_json(l: &Vec<DifficultyBeatmap>) -> (r: Vec<Json>)
    ensures
        vs(r@) == js_difficulty_beatmap_list(l.deep_view()),
{
    let n = l.len();
    let mut acc: Vec<Json> = Vec::new();
    let mut i: usize = 0;
    while i < n
        invariant
            i <= n == l@.len(),
            acc@.len() == i,
            forall|k: int| 0 <= k < i ==> #[trigger] acc@[k].v() == js_difficulty_beatmap(l@[k]@),
        decreases n - i,
    {
        acc.push(l[i].to_json());
        i += 1;
    }
    proof {
        assert forall|k: int| 0 <= k < l@.len() implies #[trigger] vs(acc@)[k] == js_difficulty_beatmap_list(
            l.deep_view(),
        )[k] by {
            assert(l.deep_view()[k] == l@[k]@);
            assert(acc@[k].v() == js_difficulty_beatmap(l@[k]@));
        }
        assert(vs(acc@) =~= js_difficulty_beatmap_list(l.deep_view()));
    }
    acc
}

/// Describes basic metadata about the song and points to a map's other
/// files.
#[derive(Debug, Clone, PartialEq)]
pub struct Info {
    /// Should be "4.0.0", that's the currently supported schema version.  Wire key `version`.
    pub version: String,
    /// See [`Song`].  Wire key `song`.
    pub song: Song,
    /// See [`Audio`].  Wire key `audio`.
    pub audio: Audio,
    /// The audio file used for the in-game preview.  Wire key `songPreviewFilename`.
    pub song_preview_filename: String,
    /// The cover image that displays alongside the song metadata in the selection menu.  Wire key `coverImageFilename`.
    pub cover_image_filename: String,
    /// The surrounding worlds that a player may be within when playing the map.  Wire key `environmentNames`.
    pub environment_names: Vec<String>,
    /// The color palettes used across in-game objects.  Wire key `colorSchemes`.
    pub color_schemes: Vec<ColorScheme>,
    /// See [`DifficultyBeatmap`].  Wire key `difficultyBeatmaps`.
    pub difficulty_beatmaps: Vec<DifficultyBeatmap>,
}

/// The mathematical value of a [`Info`].
pub struct InfoV {
    /// See [`Info::version`].
    pub version: Seq<char>,
    /// See [`Info::song`].
    pub song: SongV,
    /// See [`Info::audio`].
    pub audio: AudioV,
    /// See [`Info::song_preview_filename`].
    pub song_preview_filename: Seq<char>,
    /// See [`Info::cover_image_filename`].
    pub cover_image_filename: Seq<char>,
    /// See [`Info::environment_names`].
    pub environment_names: Seq<Seq<char>>,
    /// See [`Info::color_schemes`].
    pub color_schemes: Seq<ColorSchemeV>,
    /// See [`Info::difficulty_beatmaps`].
    pub difficulty_beatmaps: Seq<DifficultyBeatmapV>,
}

impl View for Info {
    type V = InfoV;

    open spec fn view(&self) -> InfoV {
        InfoV {
            version: self.version@,
            song: self.song@,
            audio: self.audio@,
            song_preview_filename: self.song_preview_filename@,
            cover_image_filename: self.cover_image_filename@,
            environment_names: self.environment_names.deep_view(),
            color_schemes: self.color_schemes.deep_view(),
            difficulty_beatmaps: self.difficulty_beatmaps.deep_view(),
        }
    }
}

impl DeepView for Info {
    type V = InfoV;

    open spec fn deep_view(&self) -> InfoV {
        self.view()
    }
}

/// How a whole manifest is decoded from the members of its wire object.
pub open spec fn sd_info_ms(ms: Seq<(Seq<char>, JsonV)>) -> Result<InfoV, ErrorKind> {
    let r_version = sd_string(ms, "version"@, "4.0.0"@);
    let r_song = sd_song_field(ms, "song"@);
    let r_audio = sd_audio_field(ms, "audio"@);
    let r_song_preview_filename = sd_string(ms, "songPreviewFilename"@, "song.ogg"@);
    let r_cover_image_filename = sd_string(ms, "coverImageFilename"@, "cover.png"@);
    let r_environment_names = sd_string_list_field(ms, "environmentNames"@);
    let r_color_schemes = sd_color_scheme_list_field(ms, "colorSchemes"@);
    let r_difficulty_beatmaps = sd_difficulty_beatmap_list_field(ms, "difficultyBeatmaps"@);
    if r_version is Err {
        Err(r_version->Err_0)
    } else if r_song is Err {
        Err(r_song->Err_0)
    } else if r_audio is Err {
        Err(r_audio->Err_0)
    } else if r_song_preview_filename is Err {
        Err(r_song_preview_filename->Err_0)
    } else if r_cover_image_filename is Err {
        Err(r_cover_image_filename->Err_0)
    } else if r_environment_names is Err {
        Err(r_environment_names->Err_0)
    } else if r_color_schemes is Err {
        Err(r_color_schemes->Err_0)
    } else if r_difficulty_beatmaps is Err {
        Err(r_difficulty_beatmaps->Err_0)
    } else {
        Ok(
            InfoV {
                version: r_version->Ok_0,
                song: r_song->Ok_0,
                audio: r_audio->Ok_0,
                song_preview_filename: r_song_preview_filename->Ok_0,
                cover_image_filename: r_cover_image_filename->Ok_0,
                environment_names: r_environment_names->Ok_0,
                color_schemes: r_color_schemes->Ok_0,
                difficulty_beatmaps: r_difficulty_beatmaps->Ok_0,
            },
        )
    }
}

/// How a whole manifest is decoded from a wire value.
pub open spec fn sd_info(v: JsonV) -> Result<InfoV, ErrorKind> {
    match v {
        JsonV::Obj(ms) => sd_info_ms(ms),
        _ => Err(ErrorKind::Decode),
    }
}

/// The wire object of a whole manifest, keys in declaration order.
pub open spec fn js_info(m: InfoV) -> JsonV {
    JsonV::Obj(
        seq![
            ("version"@, JsonV::Str(m.version)),
            ("song"@, js_song(m.song)),
            ("audio"@, js_audio(m.audio)),
            ("songPreviewFilename"@, JsonV::Str(m.song_preview_filename)),
            ("coverImageFilename"@, JsonV::Str(m.cover_image_filename)),
            ("environmentNames"@, JsonV::Arr(js_string_list(m.environment_names))),
            ("colorSchemes"@, JsonV::Arr(js_color_scheme_list(m.color_schemes))),
            ("difficultyBeatmaps"@, JsonV::Arr(js_difficulty_beatmap_list(m.difficulty_beatmaps))),
        ],
    )
}

impl Info {
    /// Decodes one record from the members of its wire object.
    pub fn from_members(ms: &Vec<(String, Json)>) -> (r: Result<Info, Error>)
        ensures
            match r {
                Ok(x) => sd_info_ms(vms(ms@)) == Ok::<InfoV, ErrorKind>(x@),
                Err(e) => sd_info_ms(vms(ms@)) == Err::<InfoV, ErrorKind>(e.kind()),
            },
    {
        let version = match f_string(ms, "version", "4.0.0") {
            Ok(v) => v,
            Err(e) => return Err(e),
        };
        let song = match Song::from_members_or_default(ms, "song") {
            Ok(v) => v,
            Err(e) => return Err(e),
        };
        let audio = match Audio::from_members_or_default(ms, "audio") {
            Ok(v) => v,
            Err(e) => return Err(e),
        };
        let song_preview_filename = match f_string(ms, "songPreviewFilename", "song.ogg") {
            Ok(v) => v,
            Err(e) => return Err(e),
        };
        let cover_image_filename = match f_string(ms, "coverImageFilename", "cover.png") {
            Ok(v) => v,
            Err(e) => return Err(e),
        };
        let environment_names = match string_list_field(ms, "environmentNames") {
            Ok(v) => v,
            Err(e) => return Err(e),
        };
        let color_schemes = match color_scheme_list_field(ms, "colorSchemes") {
            Ok(v) => v,
            Err(e) => return Err(e),
        };
        let difficulty_beatmaps = match difficulty_beatmap_list_field(ms, "difficultyBeatmaps") {
            Ok(v) => v,
            Err(e) => return Err(e),
        };
        Ok(Info { version, song, audio, song_preview_filename, cover_image_filename, environment_names, color_schemes, difficulty_beatmaps })
    }

    /// Decodes one record from its wire value.
    pub fn from_json(j: &Json) -> (r: Result<Info, Error>)
        ensures
            match r {
                Ok(x) => sd_info(j.v()) == Ok::<InfoV, ErrorKind>(x@),
                Err(e) => sd_info(j.v()) == Err::<InfoV, ErrorKind>(e.kind()),
            },
    {
        match j {
            Json::Obj(ms) => Info::from_members(ms),
            _ => Err(Error::Decode(String::from_str("info"))),
        }
    }

    /// Encodes this record as its wire object.
    pub fn to_json(&self) -> (r: Json)
        ensures
            r.v() == js_info(self@),
    {
        let mut ms: Vec<(String, Json)> = Vec::new();
        ms.push((String::from_str("version"), Json::Str(self.version.clone())));
        ms.push((String::from_str("song"), self.song.to_json()));
        ms.push((String::from_str("audio"), self.audio.to_json()));
        ms.push((String::from_str("songPreviewFilename"), Json::Str(self.song_preview_filename.clone())));
        ms.push((String::from_str("coverImageFilename"), Json::Str(self.cover_image_filename.clone())));
        ms.push((String::from_str("environmentNames"), Json::Arr(string_list_json(&self.environment_names))));
        ms.push((String::from_str("colorSchemes"), Json::Arr(color_scheme_list_json(&self.color_schemes))));
        ms.push((String::from_str("difficultyBeatmaps"), Json::Arr(difficulty_beatmap_list_json(&self.difficulty_beatmaps))));
        let r = Json::Obj(ms);
        proof {
            assert(ms@[0].0@ == "version"@ && ms@[0].1.v() == JsonV::Str(self@.version));
            assert(ms@[1].0@ == "song"@ && ms@[1].1.v() == js_song(self@.song));
            assert(ms@[2].0@ == "audio"@ && ms@[2].1.v() == js_audio(self@.audio));
            assert(ms@[3].0@ == "songPreviewFilename"@ && ms@[3].1.v() == JsonV::Str(self@.song_preview_filename));
            assert(ms@[4].0@ == "coverImageFilename"@ && ms@[4].1.v() == JsonV::Str(self@.cover_image_filename));
            assert(ms@[5].0@ == "environmentNames"@ && ms@[5].1.v() == JsonV::Arr(js_string_list(self@.environment_names)));
            assert(ms@[6].0@ == "colorSchemes"@ && ms@[6].1.v() == JsonV::Arr(js_color_scheme_list(self@.color_schemes)));
            assert(ms@[7].0@ == "difficultyBeatmaps"@ && ms@[7].1.v() == JsonV::Arr(js_difficulty_beatmap_list(self@.difficulty_beatmaps)));
            assert(r.v() matches JsonV::Obj(got) && (js_info(self@) matches JsonV::Obj(
                want,
            ) && got =~~= want));
        }
        r
    }
}

/// How a whole manifest is decoded from document text.
pub open spec fn info_from_text(t: Seq<char>) -> Result<InfoV, ErrorKind> {
    match sp_document(t) {
        None => Err(ErrorKind::Decode),
        Some(v) => sd_info(v),
    }
}

impl Info {
    /// Decodes a manifest from document text, typically the contents of a
    /// file named `Info.dat`.
    pub fn from_json_text(text: &str) -> (r: Result<Info, Error>)
        ensures
            match r {
                Ok(x) => info_from_text(text@) == Ok::<InfoV, ErrorKind>(x@),
                Err(e) => info_from_text(text@) == Err::<InfoV, ErrorKind>(e.kind()),
            },
    {
        match Json::parse_document(text) {
            None => Err(Error::Decode(String::from_str(text))),
            Some(doc) => Info::from_json(&doc),
        }
    }

    /// Encodes this manifest as pretty-printed document text, the exact
    /// layout of an `Info.dat` file.
    pub fn to_json_pretty(&self) -> (r: String)
        ensures
            r@ == pp_document(js_info(self@)),
    {
        self.to_json().to_pretty()
    }
}

impl Default for Audio {
    /// The value whose every field carries its absent-field default: the
    /// same value that decoding an empty wire object yields.
    fn default() -> (r: Audio)
        ensures
            sd_audio_ms(Seq::empty()) == Ok::<AudioV, ErrorKind>(r@),
    {
        let r = Audio {
            song_filename: String::from_str("song.ogg"),
            song_duration: String::from_str("0.0"),
            audio_data_filename: String::from_str("BPMInfo.dat"),
            bpm: String::from_str("0.0"),
            lufs: String::from_str("0.0"),
            preview_start_time: String::from_str("0.0"),
            preview_duration: String::from_str("0.0"),
        };
        proof {
            reveal_strlit("0.0");
            assert(r.song_duration@ =~= seq!['0', '.', '0']);
        }
        r
    }
}

impl Default for Song {
    /// The value whose every field carries its absent-field default: the
    /// same value that decoding an empty wire object yields.
    fn default() -> (r: Song)
        ensures
            sd_song_ms(Seq::empty()) == Ok::<SongV, ErrorKind>(r@),
    {
        let r = Song {
            title: String::new(),
            subtitle: String::new(),
            author: String::new(),
        };
        proof {
            reveal_strlit("");
            assert(r.title@ =~= ""@);
        }
        r
    }
}

impl Default for Info {
    /// The value whose every field carries its absent-field default: the
    /// same value that decoding an empty wire object yields.
    fn default() -> (r: Info)
        ensures
            sd_info_ms(Seq::empty()) == Ok::<InfoV, ErrorKind>(r@),
    {
        let r = Info {
            version: String::from_str("4.0.0"),
            song: Song::default(),
            audio: Audio::default(),
            song_preview_filename: String::from_str("song.ogg"),
            cover_image_filename: String::from_str("cover.png"),
            environment_names: Vec::new(),
            color_schemes: Vec::new(),
            difficulty_beatmaps: Vec::new(),
        };
        proof {
            assert(r.environment_names.deep_view() =~= Seq::<Seq<char>>::empty());
            assert(r.color_schemes.deep_view() =~= Seq::<ColorSchemeV>::empty());
            assert(r.difficulty_beatmaps.deep_view() =~= Seq::<DifficultyBeatmapV>::empty());
        }
        r
    }
}

/// Decoding an encoded list of strings, from position `i` on, appends the
/// remaining strings to those already read.
pub proof fn lemma_string_list_round_trip(l: Seq<Seq<char>>, i: int, acc: Seq<Seq<char>>)
    requires
        0 <= i <= l.len(),
    ensures
        sd_string_list(js_string_list(l), i, acc) == Ok::<Seq<Seq<char>>, ErrorKind>(
            acc + l.skip(i),
        ),
    decreases l.len() - i,
{
    if i == l.len() {
        assert(acc + l.skip(i) =~= acc);
    } else {
        assert(js_string_list(l)[i] == JsonV::Str(l[i]));
        lemma_string_list_round_trip(l, i + 1, acc.push(l[i]));
        assert(acc.push(l[i]) + l.skip(i + 1) =~= acc + l.skip(i));
    }
}

/// Decoding the wire object that encoding wrote gives the song metadata back.
pub proof fn lemma_song_round_trip(m: SongV)
    ensures
        sd_song(js_song(m)) == Ok::<SongV, ErrorKind>(m),
{
    reveal_strlit("title");
    reveal_strlit("subTitle");
    reveal_strlit("author");
    assert((("title"@).len() == 5) && (("title"@)[0] == 't') && (("title"@)[1] == 'i') && (("title"@)[2] == 't') && (("title"@)[3] == 'l') && (("title"@)[4] == 'e'));
    assert((("subTitle"@).len() == 8) && (("subTitle"@)[0] == 's') && (("subTitle"@)[1] == 'u') && (("subTitle"@)[2] == 'b') && (("subTitle"@)[3] == 'T') && (("subTitle"@)[4] == 'i') && (("subTitle"@)[5] == 't') && (("subTitle"@)[6] == 'l') && (("subTitle"@)[7] == 'e'));
    assert((("author"@).len() == 6) && (("author"@)[0] == 'a') && (("author"@)[1] == 'u') && (("author"@)[2] == 't') && (("author"@)[3] == 'h') && (("author"@)[4] == 'o') && (("author"@)[5] == 'r'));
    let ms = seq![
        ("title"@, JsonV::Str(m.title)),
        ("subTitle"@, JsonV::Str(m.subtitle)),
        ("author"@, JsonV::Str(m.author)),
    ];
    assert(js_song(m) == JsonV::Obj(ms));
    lemma_jget_at(ms, 0, "title"@);
    assert(jget(ms, "title"@) == Some(JsonV::Str(m.title)));
    lemma_jget_at(ms, 1, "subTitle"@);
    assert(jget(ms, "subTitle"@) == Some(JsonV::Str(m.subtitle)));
    lemma_jget_at(ms, 2, "author"@);
    assert(jget(ms, "author"@) == Some(JsonV::Str(m.author)));
}

/// Decoding the wire object that encoding wrote gives the audio metadata back.
pub proof fn lemma_audio_round_trip(m: AudioV)
    ensures
        sd_audio(js_audio(m)) == Ok::<AudioV, ErrorKind>(m),
{
    reveal_strlit("songFilename");
    reveal_strlit("songDuration");
    reveal_strlit("audioDataFilename");
    reveal_strlit("bpm");
    reveal_strlit("lufs");
    reveal_strlit("previewStartTime");
    reveal_strlit("previewDuration");
    assert((("songFilename"@).len() == 12) && (("songFilename"@)[0] == 's') && (("songFilename"@)[1] == 'o') && (("songFilename"@)[2] == 'n') && (("songFilename"@)[3] == 'g') && (("songFilename"@)[4] == 'F') && (("songFilename"@)[5] == 'i') && (("songFilename"@)[6] == 'l') && (("songFilename"@)[7] == 'e') && (("songFilename"@)[8] == 'n') && (("songFilename"@)[9] == 'a') && (("songFilename"@)[10] == 'm') && (("songFilename"@)[11] == 'e'));
    assert((("songDuration"@).len() == 12) && (("songDuration"@)[0] == 's') && (("songDuration"@)[1] == 'o') && (("songDuration"@)[2] == 'n') && (("songDuration"@)[3] == 'g') && (("songDuration"@)[4] == 'D') && (("songDuration"@)[5] == 'u') && (("songDuration"@)[6] == 'r') && (("songDuration"@)[7] == 'a') && (("songDuration"@)[8] == 't') && (("songDuration"@)[9] == 'i') && (("songDuration"@)[10] == 'o') && (("songDuration"@)[11] == 'n'));
    assert((("audioDataFilename"@).len() == 17) && (("audioDataFilename"@)[0] == 'a') && (("audioDataFilename"@)[1] == 'u') && (("audioDataFilename"@)[2] == 'd') && (("audioDataFilename"@)[3] == 'i') && (("audioDataFilename"@)[4] == 'o') && (("audioDataFilename"@)[5] == 'D') && (("audioDataFilename"@)[6] == 'a') && (("audioDataFilename"@)[7] == 't') && (("audioDataFilename"@)[8] == 'a') && (("audioDataFilename"@)[9] == 'F') && (("audioDataFilename"@)[10] == 'i') && (("audioDataFilename"@)[11] == 'l') && (("audioDataFilename"@)[12] == 'e') && (("audioDataFilename"@)[13] == 'n') && (("audioDataFilename"@)[14] == 'a') && (("audioDataFilename"@)[15] == 'm') && (("audioDataFilename"@)[16] == 'e'));
    assert((("bpm"@).len() == 3) && (("bpm"@)[0] == 'b') && (("bpm"@)[1] == 'p') && (("bpm"@)[2] == 'm'));
    assert((("lufs"@).len() == 4) && (("lufs"@)[0] == 'l') && (("lufs"@)[1] == 'u') && (("lufs"@)[2] == 'f') && (("lufs"@)[3] == 's'));
    assert((("previewStartTime"@).len() == 16) && (("previewStartTime"@)[0] == 'p') && (("previewStartTime"@)[1] == 'r') && (("previewStartTime"@)[2] == 'e') && (("previewStartTime"@)[3] == 'v') && (("previewStartTime"@)[4] == 'i') && (("previewStartTime"@)[5] == 'e') && (("previewStartTime"@)[6] == 'w') && (("previewStartTime"@)[7] == 'S') && (("previewStartTime"@)[8] == 't') && (("previewStartTime"@)[9] == 'a') && (("previewStartTime"@)[10] == 'r') && (("previewStartTime"@)[11] == 't') && (("previewStartTime"@)[12] == 'T') && (("previewStartTime"@)[13] == 'i') && (("previewStartTime"@)[14] == 'm') && (("previewStartTime"@)[15] == 'e'));
    assert((("previewDuration"@).len() == 15) && (("previewDuration"@)[0] == 'p') && (("previewDuration"@)[1] == 'r') && (("previewDuration"@)[2] == 'e') && (("previewDuration"@)[3] == 'v') && (("previewDuration"@)[4] == 'i') && (("previewDuration"@)[5] == 'e') && (("previewDuration"@)[6] == 'w') && (("previewDuration"@)[7] == 'D') && (("previewDuration"@)[8] == 'u') && (("previewDuration"@)[9] == 'r') && (("previewDuration"@)[10] == 'a') && (("previewDuration"@)[11] == 't') && (("previewDuration"@)[12] == 'i') && (("previewDuration"@)[13] == 'o') && (("previewDuration"@)[14] == 'n'));
    let ms = seq![
        ("songFilename"@, JsonV::Str(m.song_filename)),
        ("songDuration"@, JsonV::Num(m.song_duration)),
        ("audioDataFilename"@, JsonV::Str(m.audio_data_filename)),
        ("bpm"@, JsonV::Num(m.bpm)),
        ("lufs"@, JsonV::Num(m.lufs)),
        ("previewStartTime"@, JsonV::Num(m.preview_start_time)),
        ("previewDuration"@, JsonV::Num(m.preview_duration)),
    ];
    assert(js_audio(m) == JsonV::Obj(ms));
    lemma_jget_at(ms, 0, "songFilename"@);
    assert(jget(ms, "songFilename"@) == Some(JsonV::Str(m.song_filename)));
    lemma_jget_at(ms, 1, "songDuration"@);
    assert(jget(ms, "songDuration"@) == Some(JsonV::Num(m.song_duration)));
    lemma_jget_at(ms, 2, "audioDataFilename"@);
    assert(jget(ms, "audioDataFilename"@) == Some(JsonV::Str(m.audio_data_filename)));
    lemma_jget_at(ms, 3, "bpm"@);
    assert(jget(ms, "bpm"@) == Some(JsonV::Num(m.bpm)));
    lemma_jget_at(ms, 4, "lufs"@);
    assert(jget(ms, "lufs"@) == Some(JsonV::Num(m.lufs)));
    lemma_jget_at(ms, 5, "previewStartTime"@);
    assert(jget(ms, "previewStartTime"@) == Some(JsonV::Num(m.preview_start_time)));
    lemma_jget_at(ms, 6, "previewDuration"@);
    assert(jget(ms, "previewDuration"@) == Some(JsonV::Num(m.preview_duration)));
}

/// Decoding the wire object that encoding wrote gives the authors back.
pub proof fn lemma_beatmap_authors_round_trip(m: BeatmapAuthorsV)
    ensures
        sd_beatmap_authors(js_beatmap_authors(m)) == Ok::<BeatmapAuthorsV, ErrorKind>(m),
{
    reveal_strlit("mappers");
    reveal_strlit("lighters");
    assert((("mappers"@).len() == 7) && (("mappers"@)[0] == 'm') && (("mappers"@)[1] == 'a') && (("mappers"@)[2] == 'p') && (("mappers"@)[3] == 'p') && (("mappers"@)[4] == 'e') && (("mappers"@)[5] == 'r') && (("mappers"@)[6] == 's'));
    assert((("lighters"@).len() == 8) && (("lighters"@)[0] == 'l') && (("lighters"@)[1] == 'i') && (("lighters"@)[2] == 'g') && (("lighters"@)[3] == 'h') && (("lighters"@)[4] == 't') && (("lighters"@)[5] == 'e') && (("lighters"@)[6] == 'r') && (("lighters"@)[7] == 's'));
    lemma_string_list_round_trip(m.mappers, 0, Seq::empty());
    assert(Seq::<Seq<char>>::empty() + m.mappers.skip(0) =~= m.mappers);
    lemma_string_list_round_trip(m.lighters, 0, Seq::empty());
    assert(Seq::<Seq<char>>::empty() + m.lighters.skip(0) =~= m.lighters);
    let ms = seq![
        ("mappers"@, JsonV::Arr(js_string_list(m.mappers))),
        ("lighters"@, JsonV::Arr(js_string_list(m.lighters))),
    ];
    assert(js_beatmap_authors(m) == JsonV::Obj(ms));
    lemma_jget_at(ms, 0, "mappers"@);
    assert(jget(ms, "mappers"@) == Some(JsonV::Arr(js_string_list(m.mappers))));
    lemma_jget_at(ms, 1, "lighters"@);
    assert(jget(ms, "lighters"@) == Some(JsonV::Arr(js_string_list(m.lighters))));
}

/// Decoding the wire object that encoding wrote gives the color scheme back.
pub proof fn lemma_color_scheme_round_trip(m: ColorSchemeV)
    ensures
        sd_color_scheme(js_color_scheme(m)) == Ok::<ColorSchemeV, ErrorKind>(m),
{
    reveal_strlit("useOverride");
    reveal_strlit("colorSchemeName");
    reveal_strlit("saberAColor");
    reveal_strlit("saberBColor");
    reveal_strlit("obstaclesColor");
    reveal_strlit("environmentColor0");
    reveal_strlit("environmentColor1");
    reveal_strlit("environmentColor0Boost");
    reveal_strlit("environmentColor1Boost");
    assert((("useOverride"@).len() == 11) && (("useOverride"@)[0] == 'u') && (("useOverride"@)[1] == 's') && (("useOverride"@)[2] == 'e') && (("useOverride"@)[3] == 'O') && (("useOverride"@)[4] == 'v') && (("useOverride"@)[5] == 'e') && (("useOverride"@)[6] == 'r') && (("useOverride"@)[7] == 'r') && (("useOverride"@)[8] == 'i') && (("useOverride"@)[9] == 'd') && (("useOverride"@)[10] == 'e'));
    assert((("colorSchemeName"@).len() == 15) && (("colorSchemeName"@)[0] == 'c') && (("colorSchemeName"@)[1] == 'o') && (("colorSchemeName"@)[2] == 'l') && (("colorSchemeName"@)[3] == 'o') && (("colorSchemeName"@)[4] == 'r') && (("colorSchemeName"@)[5] == 'S') && (("colorSchemeName"@)[6] == 'c') && (("colorSchemeName"@)[7] == 'h') && (("colorSchemeName"@)[8] == 'e') && (("colorSchemeName"@)[9] == 'm') && (("colorSchemeName"@)[10] == 'e') && (("colorSchemeName"@)[11] == 'N') && (("colorSchemeName"@)[12] == 'a') && (("colorSchemeName"@)[13] == 'm') && (("colorSchemeName"@)[14] == 'e'));
    assert((("saberAColor"@).len() == 11) && (("saberAColor"@)[0] == 's') && (("saberAColor"@)[1] == 'a') && (("saberAColor"@)[2] == 'b') && (("saberAColor"@)[3] == 'e') && (("saberAColor"@)[4] == 'r') && (("saberAColor"@)[5] == 'A') && (("saberAColor"@)[6] == 'C') && (("saberAColor"@)[7] == 'o') && (("saberAColor"@)[8] == 'l') && (("saberAColor"@)[9] == 'o') && (("saberAColor"@)[10] == 'r'));
    assert((("saberBColor"@).len() == 11) && (("saberBColor"@)[0] == 's') && (("saberBColor"@)[1] == 'a') && (("saberBColor"@)[2] == 'b') && (("saberBColor"@)[3] == 'e') && (("saberBColor"@)[4] == 'r') && (("saberBColor"@)[5] == 'B') && (("saberBColor"@)[6] == 'C') && (("saberBColor"@)[7] == 'o') && (("saberBColor"@)[8] == 'l') && (("saberBColor"@)[9] == 'o') && (("saberBColor"@)[10] == 'r'));
    assert((("obstaclesColor"@).len() == 14) && (("obstaclesColor"@)[0] == 'o') && (("obstaclesColor"@)[1] == 'b') && (("obstaclesColor"@)[2] == 's') && (("obstaclesColor"@)[3] == 't') && (("obstaclesColor"@)[4] == 'a') && (("obstaclesColor"@)[5] == 'c') && (("obstaclesColor"@)[6] == 'l') && (("obstaclesColor"@)[7] == 'e') && (("obstaclesColor"@)[8] == 's') && (("obstaclesColor"@)[9] == 'C') && (("obstaclesColor"@)[10] == 'o') && (("obstaclesColor"@)[11] == 'l') && (("obstaclesColor"@)[12] == 'o') && (("obstaclesColor"@)[13] == 'r'));
    assert((("environmentColor0"@).len() == 17) && (("environmentColor0"@)[0] == 'e') && (("environmentColor0"@)[1] == 'n') && (("environmentColor0"@)[2] == 'v') && (("environmentColor0"@)[3] == 'i') && (("environmentColor0"@)[4] == 'r') && (("environmentColor0"@)[5] == 'o') && (("environmentColor0"@)[6] == 'n') && (("environmentColor0"@)[7] == 'm') && (("environmentColor0"@)[8] == 'e') && (("environmentColor0"@)[9] == 'n') && (("environmentColor0"@)[10] == 't') && (("environmentColor0"@)[11] == 'C') && (("environmentColor0"@)[12] == 'o') && (("environmentColor0"@)[13] == 'l') && (("environmentColor0"@)[14] == 'o') && (("environmentColor0"@)[15] == 'r') && (("environmentColor0"@)[16] == '0'));
    assert((("environmentColor1"@).len() == 17) && (("environmentColor1"@)[0] == 'e') && (("environmentColor1"@)[1] == 'n') && (("environmentColor1"@)[2] == 'v') && (("environmentColor1"@)[3] == 'i') && (("environmentColor1"@)[4] == 'r') && (("environmentColor1"@)[5] == 'o') && (("environmentColor1"@)[6] == 'n') && (("environmentColor1"@)[7] == 'm') && (("environmentColor1"@)[8] == 'e') && (("environmentColor1"@)[9] == 'n') && (("environmentColor1"@)[10] == 't') && (("environmentColor1"@)[11] == 'C') && (("environmentColor1"@)[12] == 'o') && (("environmentColor1"@)[13] == 'l') && (("environmentColor1"@)[14] == 'o') && (("environmentColor1"@)[15] == 'r') && (("environmentColor1"@)[16] == '1'));
    assert((("environmentColor0Boost"@).len() == 22) && (("environmentColor0Boost"@)[0] == 'e') && (("environmentColor0Boost"@)[1] == 'n') && (("environmentColor0Boost"@)[2] == 'v') && (("environmentColor0Boost"@)[3] == 'i') && (("environmentColor0Boost"@)[4] == 'r') && (("environmentColor0Boost"@)[5] == 'o') && (("environmentColor0Boost"@)[6] == 'n') && (("environmentColor0Boost"@)[7] == 'm') && (("environmentColor0Boost"@)[8] == 'e') && (("environmentColor0Boost"@)[9] == 'n') && (("environmentColor0Boost"@)[10] == 't') && (("environmentColor0Boost"@)[11] == 'C') && (("environmentColor0Boost"@)[12] == 'o') && (("environmentColor0Boost"@)[13] == 'l') && (("environmentColor0Boost"@)[14] == 'o') && (("environmentColor0Boost"@)[15] == 'r') && (("environmentColor0Boost"@)[16] == '0') && (("environmentColor0Boost"@)[17] == 'B') && (("environmentColor0Boost"@)[18] == 'o') && (("environmentColor0Boost"@)[19] == 'o') && (("environmentColor0Boost"@)[20] == 's') && (("environmentColor0Boost"@)[21] == 't'));
    assert((("environmentColor1Boost"@).len() == 22) && (("environmentColor1Boost"@)[0] == 'e') && (("environmentColor1Boost"@)[1] == 'n') && (("environmentColor1Boost"@)[2] == 'v') && (("environmentColor1Boost"@)[3] == 'i') && (("environmentColor1Boost"@)[4] == 'r') && (("environmentColor1Boost"@)[5] == 'o') && (("environmentColor1Boost"@)[6] == 'n') && (("environmentColor1Boost"@)[7] == 'm') && (("environmentColor1Boost"@)[8] == 'e') && (("environmentColor1Boost"@)[9] == 'n') && (("environmentColor1Boost"@)[10] == 't') && (("environmentColor1Boost"@)[11] == 'C') && (("environmentColor1Boost"@)[12] == 'o') && (("environmentColor1Boost"@)[13] == 'l') && (("environmentColor1Boost"@)[14] == 'o') && (("environmentColor1Boost"@)[15] == 'r') && (("environmentColor1Boost"@)[16] == '1') && (("environmentColor1Boost"@)[17] == 'B') && (("environmentColor1Boost"@)[18] == 'o') && (("environmentColor1Boost"@)[19] == 'o') && (("environmentColor1Boost"@)[20] == 's') && (("environmentColor1Boost"@)[21] == 't'));
    crate::hex::lemma_hex_round_trip(m.saber_a_color);
    crate::hex::lemma_hex_round_trip(m.saber_b_color);
    crate::hex::lemma_hex_round_trip(m.obstacles_color);
    crate::hex::lemma_hex_round_trip(m.environment_color_0);
    crate::hex::lemma_hex_round_trip(m.environment_color_1);
    crate::hex::lemma_hex_round_trip(m.environment_color_0_boost);
    crate::hex::lemma_hex_round_trip(m.environment_color_1_boost);
    let ms = seq![
        ("useOverride"@, JsonV::Bool(m.use_override)),
        ("colorSchemeName"@, JsonV::Str(m.color_scheme_name)),
        ("saberAColor"@, JsonV::Str(hex_encoding(m.saber_a_color))),
        ("saberBColor"@, JsonV::Str(hex_encoding(m.saber_b_color))),
        ("obstaclesColor"@, JsonV::Str(hex_encoding(m.obstacles_color))),
        ("environmentColor0"@, JsonV::Str(hex_encoding(m.environment_color_0))),
        ("environmentColor1"@, JsonV::Str(hex_encoding(m.environment_color_1))),
        ("environmentColor0Boost"@, JsonV::Str(hex_encoding(m.environment_color_0_boost))),
        ("environmentColor1Boost"@, JsonV::Str(hex_encoding(m.environment_color_1_boost))),
    ];
    assert(js_color_scheme(m) == JsonV::Obj(ms));
    lemma_jget_at(ms, 0, "useOverride"@);
    assert(jget(ms, "useOverride"@) == Some(JsonV::Bool(m.use_override)));
    lemma_jget_at(ms, 1, "colorSchemeName"@);
    assert(jget(ms, "colorSchemeName"@) == Some(JsonV::Str(m.color_scheme_name)));
    lemma_jget_at(ms, 2, "saberAColor"@);
    assert(jget(ms, "saberAColor"@) == Some(JsonV::Str(hex_encoding(m.saber_a_color))));
    lemma_jget_at(ms, 3, "saberBColor"@);
    assert(jget(ms, "saberBColor"@) == Some(JsonV::Str(hex_encoding(m.saber_b_color))));
    lemma_jget_at(ms, 4, "obstaclesColor"@);
    assert(jget(ms, "obstaclesColor"@) == Some(JsonV::Str(hex_encoding(m.obstacles_color))));
    lemma_jget_at(ms, 5, "environmentColor0"@);
    assert(jget(ms, "environmentColor0"@) == Some(JsonV::Str(hex_encoding(m.environment_color_0))));
    lemma_jget_at(ms, 6, "environmentColor1"@);
    assert(jget(ms, "environmentColor1"@) == Some(JsonV::Str(hex_encoding(m.environment_color_1))));
    lemma_jget_at(ms, 7, "environmentColor0Boost"@);
    assert(jget(ms, "environmentColor0Boost"@) == Some(JsonV::Str(hex_encoding(m.environment_color_0_boost))));
    lemma_jget_at(ms, 8, "environmentColor1Boost"@);
    assert(jget(ms, "environmentColor1Boost"@) == Some(JsonV::Str(hex_encoding(m.environment_color_1_boost))));
}

/// Decoding an encoded list of such records, from position `i` on, appends
/// the remaining records to those already read.
pub proof fn lemma_color_scheme_list_round_trip(l: Seq<ColorSchemeV>, i: int, acc: Seq<ColorSchemeV>)
    requires
        0 <= i <= l.len(),
    ensures
        sd_color_scheme_list(js_color_scheme_list(l), i, acc) == Ok::<Seq<ColorSchemeV>, ErrorKind>(acc + l.skip(i)),
    decreases l.len() - i,
{
    if i == l.len() {
        assert(acc + l.skip(i) =~= acc);
    } else {
        lemma_color_scheme_round_trip(l[i]);
        assert(js_color_scheme_list(l)[i] == js_color_scheme(l[i]));
        lemma_color_scheme_list_round_trip(l, i + 1, acc.push(l[i]));
        assert(acc.push(l[i]) + l.skip(i + 1) =~= acc + l.skip(i));
    }
}

/// Decoding the wire object that encoding wrote gives the difficulty entry back.
pub proof fn lemma_difficulty_beatmap_round_trip(m: DifficultyBeatmapV)
    ensures
        sd_difficulty_beatmap(js_difficulty_beatmap(m)) == Ok::<DifficultyBeatmapV, ErrorKind>(m),
{
    reveal_strlit("characteristic");
    reveal_strlit("difficulty");
    reveal_strlit("beatmapAuthors");
    reveal_strlit("environmentNameIdx");
    reveal_strlit("beatmapColorSchemeIdx");
    reveal_strlit("noteJumpMovementSpeed");
    reveal_strlit("noteJumpStartBeatOffset");
    reveal_strlit("beatmapDataFilename");
    reveal_strlit("lightshowDataFilename");
    assert((("characteristic"@).len() == 14) && (("characteristic"@)[0] == 'c') && (("characteristic"@)[1] == 'h') && (("characteristic"@)[2] == 'a') && (("characteristic"@)[3] == 'r') && (("characteristic"@)[4] == 'a') && (("characteristic"@)[5] == 'c') && (("characteristic"@)[6] == 't') && (("characteristic"@)[7] == 'e') && (("characteristic"@)[8] == 'r') && (("characteristic"@)[9] == 'i') && (("characteristic"@)[10] == 's') && (("characteristic"@)[11] == 't') && (("characteristic"@)[12] == 'i') && (("characteristic"@)[13] == 'c'));
    assert((("difficulty"@).len() == 10) && (("difficulty"@)[0] == 'd') && (("difficulty"@)[1] == 'i') && (("difficulty"@)[2] == 'f') && (("difficulty"@)[3] == 'f') && (("difficulty"@)[4] == 'i') && (("difficulty"@)[5] == 'c') && (("difficulty"@)[6] == 'u') && (("difficulty"@)[7] == 'l') && (("difficulty"@)[8] == 't') && (("difficulty"@)[9] == 'y'));
    assert((("beatmapAuthors"@).len() == 14) && (("beatmapAuthors"@)[0] == 'b') && (("beatmapAuthors"@)[1] == 'e') && (("beatmapAuthors"@)[2] == 'a') && (("beatmapAuthors"@)[3] == 't') && (("beatmapAuthors"@)[4] == 'm') && (("beatmapAuthors"@)[5] == 'a') && (("beatmapAuthors"@)[6] == 'p') && (("beatmapAuthors"@)[7] == 'A') && (("beatmapAuthors"@)[8] == 'u') && (("beatmapAuthors"@)[9] == 't') && (("beatmapAuthors"@)[10] == 'h') && (("beatmapAuthors"@)[11] == 'o') && (("beatmapAuthors"@)[12] == 'r') && (("beatmapAuthors"@)[13] == 's'));
    assert((("environmentNameIdx"@).len() == 18) && (("environmentNameIdx"@)[0] == 'e') && (("environmentNameIdx"@)[1] == 'n') && (("environmentNameIdx"@)[2] == 'v') && (("environmentNameIdx"@)[3] == 'i') && (("environmentNameIdx"@)[4] == 'r') && (("environmentNameIdx"@)[5] == 'o') && (("environmentNameIdx"@)[6] == 'n') && (("environmentNameIdx"@)[7] == 'm') && (("environmentNameIdx"@)[8] == 'e') && (("environmentNameIdx"@)[9] == 'n') && (("environmentNameIdx"@)[10] == 't') && (("environmentNameIdx"@)[11] == 'N') && (("environmentNameIdx"@)[12] == 'a') && (("environmentNameIdx"@)[13] == 'm') && (("environmentNameIdx"@)[14] == 'e') && (("environmentNameIdx"@)[15] == 'I') && (("environmentNameIdx"@)[16] == 'd') && (("environmentNameIdx"@)[17] == 'x'));
    assert((("beatmapColorSchemeIdx"@).len() == 21) && (("beatmapColorSchemeIdx"@)[0] == 'b') && (("beatmapColorSchemeIdx"@)[1] == 'e') && (("beatmapColorSchemeIdx"@)[2] == 'a') && (("beatmapColorSchemeIdx"@)[3] == 't') && (("beatmapColorSchemeIdx"@)[4] == 'm') && (("beatmapColorSchemeIdx"@)[5] == 'a') && (("beatmapColorSchemeIdx"@)[6] == 'p') && (("beatmapColorSchemeIdx"@)[7] == 'C') && (("beatmapColorSchemeIdx"@)[8] == 'o') && (("beatmapColorSchemeIdx"@)[9] == 'l') && (("beatmapColorSchemeIdx"@)[10] == 'o') && (("beatmapColorSchemeIdx"@)[11] == 'r') && (("beatmapColorSchemeIdx"@)[12] == 'S') && (("beatmapColorSchemeIdx"@)[13] == 'c') && (("beatmapColorSchemeIdx"@)[14] == 'h') && (("beatmapColorSchemeIdx"@)[15] == 'e') && (("beatmapColorSchemeIdx"@)[16] == 'm') && (("beatmapColorSchemeIdx"@)[17] == 'e') && (("beatmapColorSchemeIdx"@)[18] == 'I') && (("beatmapColorSchemeIdx"@)[19] == 'd') && (("beatmapColorSchemeIdx"@)[20] == 'x'));
    assert((("noteJumpMovementSpeed"@).len() == 21) && (("noteJumpMovementSpeed"@)[0] == 'n') && (("noteJumpMovementSpeed"@)[1] == 'o') && (("noteJumpMovementSpeed"@)[2] == 't') && (("noteJumpMovementSpeed"@)[3] == 'e') && (("noteJumpMovementSpeed"@)[4] == 'J') && (("noteJumpMovementSpeed"@)[5] == 'u') && (("noteJumpMovementSpeed"@)[6] == 'm') && (("noteJumpMovementSpeed"@)[7] == 'p') && (("noteJumpMovementSpeed"@)[8] == 'M') && (("noteJumpMovementSpeed"@)[9] == 'o') && (("noteJumpMovementSpeed"@)[10] == 'v') && (("noteJumpMovementSpeed"@)[11] == 'e') && (("noteJumpMovementSpeed"@)[12] == 'm') && (("noteJumpMovementSpeed"@)[13] == 'e') && (("noteJumpMovementSpeed"@)[14] == 'n') && (("noteJumpMovementSpeed"@)[15] == 't') && (("noteJumpMovementSpeed"@)[16] == 'S') && (("noteJumpMovementSpeed"@)[17] == 'p') && (("noteJumpMovementSpeed"@)[18] == 'e') && (("noteJumpMovementSpeed"@)[19] == 'e') && (("noteJumpMovementSpeed"@)[20] == 'd'));
    assert((("noteJumpStartBeatOffset"@).len() == 23) && (("noteJumpStartBeatOffset"@)[0] == 'n') && (("noteJumpStartBeatOffset"@)[1] == 'o') && (("noteJumpStartBeatOffset"@)[2] == 't') && (("noteJumpStartBeatOffset"@)[3] == 'e') && (("noteJumpStartBeatOffset"@)[4] == 'J') && (("noteJumpStartBeatOffset"@)[5] == 'u') && (("noteJumpStartBeatOffset"@)[6] == 'm') && (("noteJumpStartBeatOffset"@)[7] == 'p') && (("noteJumpStartBeatOffset"@)[8] == 'S') && (("noteJumpStartBeatOffset"@)[9] == 't') && (("noteJumpStartBeatOffset"@)[10] == 'a') && (("noteJumpStartBeatOffset"@)[11] == 'r') && (("noteJumpStartBeatOffset"@)[12] == 't') && (("noteJumpStartBeatOffset"@)[13] == 'B') && (("noteJumpStartBeatOffset"@)[14] == 'e') && (("noteJumpStartBeatOffset"@)[15] == 'a') && (("noteJumpStartBeatOffset"@)[16] == 't') && (("noteJumpStartBeatOffset"@)[17] == 'O') && (("noteJumpStartBeatOffset"@)[18] == 'f') && (("noteJumpStartBeatOffset"@)[19] == 'f') && (("noteJumpStartBeatOffset"@)[20] == 's') && (("noteJumpStartBeatOffset"@)[21] == 'e') && (("noteJumpStartBeatOffset"@)[22] == 't'));
    assert((("beatmapDataFilename"@).len() == 19) && (("beatmapDataFilename"@)[0] == 'b') && (("beatmapDataFilename"@)[1] == 'e') && (("beatmapDataFilename"@)[2] == 'a') && (("beatmapDataFilename"@)[3] == 't') && (("beatmapDataFilename"@)[4] == 'm') && (("beatmapDataFilename"@)[5] == 'a') && (("beatmapDataFilename"@)[6] == 'p') && (("beatmapDataFilename"@)[7] == 'D') && (("beatmapDataFilename"@)[8] == 'a') && (("beatmapDataFilename"@)[9] == 't') && (("beatmapDataFilename"@)[10] == 'a') && (("beatmapDataFilename"@)[11] == 'F') && (("beatmapDataFilename"@)[12] == 'i') && (("beatmapDataFilename"@)[13] == 'l') && (("beatmapDataFilename"@)[14] == 'e') && (("beatmapDataFilename"@)[15] == 'n') && (("beatmapDataFilename"@)[16] == 'a') && (("beatmapDataFilename"@)[17] == 'm') && (("beatmapDataFilename"@)[18] == 'e'));
    assert((("lightshowDataFilename"@).len() == 21) && (("lightshowDataFilename"@)[0] == 'l') && (("lightshowDataFilename"@)[1] == 'i') && (("lightshowDataFilename"@)[2] == 'g') && (("lightshowDataFilename"@)[3] == 'h') && (("lightshowDataFilename"@)[4] == 't') && (("lightshowDataFilename"@)[5] == 's') && (("lightshowDataFilename"@)[6] == 'h') && (("lightshowDataFilename"@)[7] == 'o') && (("lightshowDataFilename"@)[8] == 'w') && (("lightshowDataFilename"@)[9] == 'D') && (("lightshowDataFilename"@)[10] == 'a') && (("lightshowDataFilename"@)[11] == 't') && (("lightshowDataFilename"@)[12] == 'a') && (("lightshowDataFilename"@)[13] == 'F') && (("lightshowDataFilename"@)[14] == 'i') && (("lightshowDataFilename"@)[15] == 'l') && (("lightshowDataFilename"@)[16] == 'e') && (("lightshowDataFilename"@)[17] == 'n') && (("lightshowDataFilename"@)[18] == 'a') && (("lightshowDataFilename"@)[19] == 'm') && (("lightshowDataFilename"@)[20] == 'e'));
    lemma_characteristic_label_round_trip(m.characteristic);
    lemma_difficulty_label_round_trip(m.difficulty);
    lemma_beatmap_authors_round_trip(m.beatmap_authors);
    crate::num::lemma_dec_text_val(m.environment_name_idx as nat);
    crate::num::lemma_dec_text_val(m.beatmap_color_scheme_idx as nat);
    crate::num::lemma_dec_text_val(m.note_jump_movement_speed as nat);
    let ms = seq![
        ("characteristic"@, JsonV::Str(characteristic_label(m.characteristic))),
        ("difficulty"@, JsonV::Str(difficulty_label(m.difficulty))),
        ("beatmapAuthors"@, js_beatmap_authors(m.beatmap_authors)),
        ("environmentNameIdx"@, JsonV::Num(dec_text(m.environment_name_idx as nat))),
        ("beatmapColorSchemeIdx"@, JsonV::Num(dec_text(m.beatmap_color_scheme_idx as nat))),
        ("noteJumpMovementSpeed"@, JsonV::Num(dec_text(m.note_jump_movement_speed as nat))),
        ("noteJumpStartBeatOffset"@, JsonV::Num(m.note_jump_start_beat_offset)),
        ("beatmapDataFilename"@, JsonV::Str(m.beatmap_data_filename)),
        ("lightshowDataFilename"@, JsonV::Str(m.lightshow_data_filename)),
    ];
    assert(js_difficulty_beatmap(m) == JsonV::Obj(ms));
    lemma_jget_at(ms, 0, "characteristic"@);
    assert(jget(ms, "characteristic"@) == Some(JsonV::Str(characteristic_label(m.characteristic))));
    lemma_jget_at(ms, 1, "difficulty"@);
    assert(jget(ms, "difficulty"@) == Some(JsonV::Str(difficulty_label(m.difficulty))));
    lemma_jget_at(ms, 2, "beatmapAuthors"@);
    assert(jget(ms, "beatmapAuthors"@) == Some(js_beatmap_authors(m.beatmap_authors)));
    lemma_jget_at(ms, 3, "environmentNameIdx"@);
    assert(jget(ms, "environmentNameIdx"@) == Some(JsonV::Num(dec_text(m.environment_name_idx as nat))));
    lemma_jget_at(ms, 4, "beatmapColorSchemeIdx"@);
    assert(jget(ms, "beatmapColorSchemeIdx"@) == Some(JsonV::Num(dec_text(m.beatmap_color_scheme_idx as nat))));
    lemma_jget_at(ms, 5, "noteJumpMovementSpeed"@);
    assert(jget(ms, "noteJumpMovementSpeed"@) == Some(JsonV::Num(dec_text(m.note_jump_movement_speed as nat))));
    lemma_jget_at(ms, 6, "noteJumpStartBeatOffset"@);
    assert(jget(ms, "noteJumpStartBeatOffset"@) == Some(JsonV::Num(m.note_jump_start_beat_offset)));
    lemma_jget_at(ms, 7, "beatmapDataFilename"@);
    assert(jget(ms, "beatmapDataFilename"@) == Some(JsonV::Str(m.beatmap_data_filename)));
    lemma_jget_at(ms, 8, "lightshowDataFilename"@);
    assert(jget(ms, "lightshowDataFilename"@) == Some(JsonV::Str(m.lightshow_data_filename)));
}

/// Decoding an encoded list of such records, from position `i` on, appends
/// the remaining records to those already read.
pub proof fn lemma_difficulty_beatmap_list_round_trip(l: Seq<DifficultyBeatmapV>, i: int, acc: Seq<DifficultyBeatmapV>)
    requires
        0 <= i <= l.len(),
    ensures
        sd_difficulty_beatmap_list(js_difficulty_beatmap_list(l), i, acc) == Ok::<Seq<DifficultyBeatmapV>, ErrorKind>(acc + l.skip(i)),
    decreases l.len() - i,
{
    if i == l.len() {
        assert(acc + l.skip(i) =~= acc);
    } else {
        lemma_difficulty_beatmap_round_trip(l[i]);
        assert(js_difficulty_beatmap_list(l)[i] == js_difficulty_beatmap(l[i]));
        lemma_difficulty_beatmap_list_round_trip(l, i + 1, acc.push(l[i]));
        assert(acc.push(l[i]) + l.skip(i + 1) =~= acc + l.skip(i));
    }
}

/// Decoding the wire object that encoding wrote gives the whole manifest back.
#[verifier::rlimit(100)]
pub proof fn lemma_info_round_trip(m: InfoV)
    ensures
        sd_info(js_info(m)) == Ok::<InfoV, ErrorKind>(m),
{
    reveal_strlit("version");
    reveal_strlit("song");
    reveal_strlit("audio");
    reveal_strlit("songPreviewFilename");
    reveal_strlit("coverImageFilename");
    reveal_strlit("environmentNames");
    reveal_strlit("colorSchemes");
    reveal_strlit("difficultyBeatmaps");
    assert((("version"@).len() == 7) && (("version"@)[0] == 'v') && (("version"@)[1] == 'e') && (("version"@)[2] == 'r') && (("version"@)[3] == 's') && (("version"@)[4] == 'i') && (("version"@)[5] == 'o') && (("version"@)[6] == 'n'));
    assert((("song"@).len() == 4) && (("song"@)[0] == 's') && (("song"@)[1] == 'o') && (("song"@)[2] == 'n') && (("song"@)[3] == 'g'));
    assert((("audio"@).len() == 5) && (("audio"@)[0] == 'a') && (("audio"@)[1] == 'u') && (("audio"@)[2] == 'd') && (("audio"@)[3] == 'i') && (("audio"@)[4] == 'o'));
    assert((("songPreviewFilename"@).len() == 19) && (("songPreviewFilename"@)[0] == 's') && (("songPreviewFilename"@)[1] == 'o') && (("songPreviewFilename"@)[2] == 'n') && (("songPreviewFilename"@)[3] == 'g') && (("songPreviewFilename"@)[4] == 'P') && (("songPreviewFilename"@)[5] == 'r') && (("songPreviewFilename"@)[6] == 'e') && (("songPreviewFilename"@)[7] == 'v') && (("songPreviewFilename"@)[8] == 'i') && (("songPreviewFilename"@)[9] == 'e') && (("songPreviewFilename"@)[10] == 'w') && (("songPreviewFilename"@)[11] == 'F') && (("songPreviewFilename"@)[12] == 'i') && (("songPreviewFilename"@)[13] == 'l') && (("songPreviewFilename"@)[14] == 'e') && (("songPreviewFilename"@)[15] == 'n') && (("songPreviewFilename"@)[16] == 'a') && (("songPreviewFilename"@)[17] == 'm') && (("songPreviewFilename"@)[18] == 'e'));
    assert((("coverImageFilename"@).len() == 18) && (("coverImageFilename"@)[0] == 'c') && (("coverImageFilename"@)[1] == 'o') && (("coverImageFilename"@)[2] == 'v') && (("coverImageFilename"@)[3] == 'e') && (("coverImageFilename"@)[4] == 'r') && (("coverImageFilename"@)[5] == 'I') && (("coverImageFilename"@)[6] == 'm') && (("coverImageFilename"@)[7] == 'a') && (("coverImageFilename"@)[8] == 'g') && (("coverImageFilename"@)[9] == 'e') && (("coverImageFilename"@)[10] == 'F') && (("coverImageFilename"@)[11] == 'i') && (("coverImageFilename"@)[12] == 'l') && (("coverImageFilename"@)[13] == 'e') && (("coverImageFilename"@)[14] == 'n') && (("coverImageFilename"@)[15] == 'a') && (("coverImageFilename"@)[16] == 'm') && (("coverImageFilename"@)[17] == 'e'));
    assert((("environmentNames"@).len() == 16) && (("environmentNames"@)[0] == 'e') && (("environmentNames"@)[1] == 'n') && (("environmentNames"@)[2] == 'v') && (("environmentNames"@)[3] == 'i') && (("environmentNames"@)[4] == 'r') && (("environmentNames"@)[5] == 'o') && (("environmentNames"@)[6] == 'n') && (("environmentNames"@)[7] == 'm') && (("environmentNames"@)[8] == 'e') && (("environmentNames"@)[9] == 'n') && (("environmentNames"@)[10] == 't') && (("environmentNames"@)[11] == 'N') && (("environmentNames"@)[12] == 'a') && (("environmentNames"@)[13] == 'm') && (("environmentNames"@)[14] == 'e') && (("environmentNames"@)[15] == 's'));
    assert((("colorSchemes"@).len() == 12) && (("colorSchemes"@)[0] == 'c') && (("colorSchemes"@)[1] == 'o') && (("colorSchemes"@)[2] == 'l') && (("colorSchemes"@)[3] == 'o') && (("colorSchemes"@)[4] == 'r') && (("colorSchemes"@)[5] == 'S') && (("colorSchemes"@)[6] == 'c') && (("colorSchemes"@)[7] == 'h') && (("colorSchemes"@)[8] == 'e') && (("colorSchemes"@)[9] == 'm') && (("colorSchemes"@)[10] == 'e') && (("colorSchemes"@)[11] == 's'));
    assert((("difficultyBeatmaps"@).len() == 18) && (("difficultyBeatmaps"@)[0] == 'd') && (("difficultyBeatmaps"@)[1] == 'i') && (("difficultyBeatmaps"@)[2] == 'f') && (("difficultyBeatmaps"@)[3] == 'f') && (("difficultyBeatmaps"@)[4] == 'i') && (("difficultyBeatmaps"@)[5] == 'c') && (("difficultyBeatmaps"@)[6] == 'u') && (("difficultyBeatmaps"@)[7] == 'l') && (("difficultyBeatmaps"@)[8] == 't') && (("difficultyBeatmaps"@)[9] == 'y') && (("difficultyBeatmaps"@)[10] == 'B') && (("difficultyBeatmaps"@)[11] == 'e') && (("difficultyBeatmaps"@)[12] == 'a') && (("difficultyBeatmaps"@)[13] == 't') && (("difficultyBeatmaps"@)[14] == 'm') && (("difficultyBeatmaps"@)[15] == 'a') && (("difficultyBeatmaps"@)[16] == 'p') && (("difficultyBeatmaps"@)[17] == 's'));
    lemma_song_round_trip(m.song);
    lemma_audio_round_trip(m.audio);
    lemma_string_list_round_trip(m.environment_names, 0, Seq::empty());
    assert(Seq::<Seq<char>>::empty() + m.environment_names.skip(0) =~= m.environment_names);
    lemma_color_scheme_list_round_trip(m.color_schemes, 0, Seq::empty());
    assert(Seq::<ColorSchemeV>::empty() + m.color_schemes.skip(0) =~= m.color_schemes);
    lemma_difficulty_beatmap_list_round_trip(m.difficulty_beatmaps, 0, Seq::empty());
    assert(Seq::<DifficultyBeatmapV>::empty() + m.difficulty_beatmaps.skip(0) =~= m.difficulty_beatmaps);
    let ms = seq![
        ("version"@, JsonV::Str(m.version)),
        ("song"@, js_song(m.song)),
        ("audio"@, js_audio(m.audio)),
        ("songPreviewFilename"@, JsonV::Str(m.song_preview_filename)),
        ("coverImageFilename"@, JsonV::Str(m.cover_image_filename)),
        ("environmentNames"@, JsonV::Arr(js_string_list(m.environment_names))),
        ("colorSchemes"@, JsonV::Arr(js_color_scheme_list(m.color_schemes))),
        ("difficultyBeatmaps"@, JsonV::Arr(js_difficulty_beatmap_list(m.difficulty_beatmaps))),
    ];
    assert(js_info(m) == JsonV::Obj(ms));
    lemma_jget_at(ms, 0, "version"@);
    assert(jget(ms, "version"@) == Some(JsonV::Str(m.version)));
    lemma_jget_at(ms, 1, "song"@);
    assert(jget(ms, "song"@) == Some(js_song(m.song)));
    lemma_jget_at(ms, 2, "audio"@);
    assert(jget(ms, "audio"@) == Some(js_audio(m.audio)));
    lemma_jget_at(ms, 3, "songPreviewFilename"@);
    assert(jget(ms, "songPreviewFilename"@) == Some(JsonV::Str(m.song_preview_filename)));
    lemma_jget_at(ms, 4, "coverImageFilename"@);
    assert(jget(ms, "coverImageFilename"@) == Some(JsonV::Str(m.cover_image_filename)));
    lemma_jget_at(ms, 5, "environmentNames"@);
    assert(jget(ms, "environmentNames"@) == Some(JsonV::Arr(js_string_list(m.environment_names))));
    lemma_jget_at(ms, 6, "colorSchemes"@);
    assert(jget(ms, "colorSchemes"@) == Some(JsonV::Arr(js_color_scheme_list(m.color_schemes))));
    lemma_jget_at(ms, 7, "difficultyBeatmaps"@);
    assert(jget(ms, "difficultyBeatmaps"@) == Some(JsonV::Arr(js_difficulty_beatmap_list(m.difficulty_beatmaps))));
}

} // verus!
