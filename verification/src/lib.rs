//! Read and write Beat Saber maps.
//!
//! A map lives in a folder: an `Info.dat` manifest, an audio sidecar file
//! (commonly `BPMInfo.dat`) and one beatmap file per difficulty.  All three
//! are JSON documents with a fixed key layout.  This crate models the
//! documents as plain data, decodes and re-encodes them with a verified JSON
//! codec, and assembles a whole folder into one value.

use vstd::prelude::*;
use vstd::string::StringExecFns;

pub use crate::audio::Audio;
pub use crate::beatmap::Beatmap;
pub use crate::info::Info;

pub mod audio;
pub mod beatmap;
pub mod fields;
pub mod hex;
pub mod info;
pub mod json;
pub mod lightshow;
pub mod num;
mod text;

verus! {

/// A beat count, kept exactly in its written JSON decimal form.
pub type Beats = String;

/// Any error that may occur from a function originating in this library.
#[derive(Debug)]
pub enum Error {
    /// The text is not well-formed JSON, a field has the wrong JSON shape, or
    /// a numeric field's value does not fit its type.  Carries the offending
    /// text where one value is at fault, or a short description.
    Decode(String),
    /// A file could not be read.  Carries the reporting text of the failure;
    /// raised only by the unverified file-reading layer around this crate.
    Io(String),
    /// Occurs when failing to convert [`u8`] to [`beatmap::LineIndex`].
    LineIndexTryFromU8(u8),
    /// Occurs when failing to convert [`u8`] to [`beatmap::LineLayer`].
    LineLayerTryFromU8(u8),
    /// Occurs when failing to convert [`u8`] to [`beatmap::Color`].
    ColorTryFromU8(u8),
    /// Occurs when failing to convert [`u8`] to [`beatmap::CutDirection`].
    CutDirectionTryFromU8(u8),
    /// Occurs when failing to convert [`u8`] to [`beatmap::MidAnchorMode`].
    MidAnchorModeTryFromU8(u8),
    /// Occurs when failing to convert [`u8`] to [`beatmap::ExecutionTime`].
    /// Legacy: [`beatmap::ExecutionTime`] only serves the deprecated
    /// spawn-rotation records.
    ExecutionTimeTryFromU8(u8),
}

/// The kind of an [`Error`], with the diagnostic text of the two textual
/// variants dropped: what the decoding contracts pin down.
pub enum ErrorKind {
    /// See [`Error::Decode`].
    Decode,
    /// See [`Error::Io`].
    Io,
    /// See [`Error::LineIndexTryFromU8`].
    LineIndex(u8),
    /// See [`Error::LineLayerTryFromU8`].
    LineLayer(u8),
    /// See [`Error::ColorTryFromU8`].
    Color(u8),
    /// See [`Error::CutDirectionTryFromU8`].
    CutDirection(u8),
    /// See [`Error::MidAnchorModeTryFromU8`].
    MidAnchorMode(u8),
    /// See [`Error::ExecutionTimeTryFromU8`].
    ExecutionTime(u8),
}

impl Error {
    /// The kind of this error.
    pub open spec fn kind(self) -> ErrorKind {
        match self {
            Error::Decode(_) => ErrorKind::Decode,
            Error::Io(_) => ErrorKind::Io,
            Error::LineIndexTryFromU8(n) => ErrorKind::LineIndex(n),
            Error::LineLayerTryFromU8(n) => ErrorKind::LineLayer(n),
            Error::ColorTryFromU8(n) => ErrorKind::Color(n),
            Error::CutDirectionTryFromU8(n) => ErrorKind::CutDirection(n),
            Error::MidAnchorModeTryFromU8(n) => ErrorKind::MidAnchorMode(n),
            Error::ExecutionTimeTryFromU8(n) => ErrorKind::ExecutionTime(n),
        }
    }

    /// A short description of this error, for reporting.
    pub fn message(&self) -> String {
        match self {
            Error::Decode(m) => m.clone(),
            Error::Io(m) => m.clone(),
            Error::LineIndexTryFromU8(n) => String::from_str(
                "could not convert u8 to LineIndex, expected integer from 0 to 3, got ",
            ).concat(num::dec_string(*n as u64).as_str()),
            Error::LineLayerTryFromU8(n) => String::from_str(
                "could not convert u8 to LineLayer, expected integer from 0 to 2, got ",
            ).concat(num::dec_string(*n as u64).as_str()),
            Error::ColorTryFromU8(n) => String::from_str(
                "could not convert u8 to Color, expected 0 or 1, got ",
            ).concat(num::dec_string(*n as u64).as_str()),
            Error::CutDirectionTryFromU8(n) => String::from_str(
                "could not convert u8 to CutDirection, expected integer from 0 to 8, got ",
            ).concat(num::dec_string(*n as u64).as_str()),
            Error::MidAnchorModeTryFromU8(n) => String::from_str(
                "could not convert u8 to MidAnchorMode, expected integer from 0 to 2, got ",
            ).concat(num::dec_string(*n as u64).as_str()),
            Error::ExecutionTimeTryFromU8(n) => String::from_str(
                "could not convert u8 to ExecutionTime, expected 0 or 1, got ",
            ).concat(num::dec_string(*n as u64).as_str()),
        }
    }
}

/// The position right after the last `/` of `s` (zero if there is none).
pub open spec fn base_start(s: Seq<char>) -> int
    decreases s.len(),
{
    if s.len() == 0 {
        0
    } else if s.last() == '/' {
        s.len() as int
    } else {
        base_start(s.drop_last())
    }
}

/// The position of the last `.` of `s`, or `-1` if there is none.
pub open spec fn last_dot(s: Seq<char>) -> int
    decreases s.len(),
{
    if s.len() == 0 {
        -1
    } else if s.last() == '.' {
        s.len() - 1
    } else {
        last_dot(s.drop_last())
    }
}

/// The stem of the file name `s`: the portion of its base name (after the
/// last `/`) before the final `.`, with two exceptions that mirror the
/// standard path rules: a base name whose only `.` is its first character
/// keeps it, and when the base name is empty the whole text stands in.
pub open spec fn file_stem_of(s: Seq<char>) -> Seq<char> {
    let base = s.skip(base_start(s));
    if base.len() == 0 {
        s
    } else {
        let d = last_dot(base);
        if d <= 0 {
            base
        } else {
            base.take(d)
        }
    }
}

proof fn lemma_base_start_bounds(s: Seq<char>)
    ensures
        0 <= base_start(s) <= s.len(),
    decreases s.len(),
{
    if s.len() > 0 && s.last() != '/' {
        lemma_base_start_bounds(s.drop_last());
    }
}

proof fn lemma_last_dot_bounds(s: Seq<char>)
    ensures
        -1 <= last_dot(s) < s.len(),
    decreases s.len(),
{
    if s.len() > 0 && s.last() != '.' {
        lemma_last_dot_bounds(s.drop_last());
    }
}

/// The position right after the last `/` of `cs` (zero if there is none).
fn base_start_e(cs: &Vec<char>) -> (r: usize)
    ensures
        r as int == base_start(cs@),
        r <= cs@.len(),
{
    let mut i = cs.len();
    proof {
        assert(cs@.subrange(0, cs@.len() as int) =~= cs@);
    }
    while i > 0
        invariant
            i <= cs@.len(),
            base_start(cs@) == base_start(cs@.subrange(0, i as int)),
        decreases i,
    {
        if cs[i - 1] == '/' {
            proof {
                assert(cs@.subrange(0, i as int).last() == cs@[i - 1]);
            }
            return i;
        }
        proof {
            assert(cs@.subrange(0, i as int).last() == cs@[i - 1]);
            assert(cs@.subrange(0, i as int).drop_last() =~= cs@.subrange(0, i - 1));
        }
        i -= 1;
    }
    proof {
        assert(cs@.subrange(0, 0).len() == 0);
    }
    0
}

/// The position of the last `.` of `cs[from..]`, if any.
fn last_dot_e(cs: &Vec<char>, from: usize) -> (r: Option<usize>)
    requires
        from <= cs@.len(),
    ensures
        match r {
            Some(d) => from <= d < cs@.len() && last_dot(cs@.skip(from as int)) == d - from,
            None => last_dot(cs@.skip(from as int)) == -1,
        },
{
    let ghost base = cs@.skip(from as int);
    let n = cs.len();
    let mut i = n;
    proof {
        assert(base.subrange(0, base.len() as int) =~= base);
    }
    while i > from
        invariant
            from <= i <= n == cs@.len(),
            base == cs@.skip(from as int),
            last_dot(base) == last_dot(base.subrange(0, i - from)),
        decreases i,
    {
        proof {
            assert(base.subrange(0, i - from).last() == base[i - from - 1]);
            assert(base[i - from - 1] == cs@[i - 1]);
            assert(base.subrange(0, i - from).drop_last() =~= base.subrange(0, i - from - 1));
        }
        if cs[i - 1] == '.' {
            return Some(i - 1);
        }
        i -= 1;
    }
    proof {
        assert(base.subrange(0, 0).len() == 0);
    }
    None
}

/// The stem of a beatmap file name: its base name without the extension.
/// The key under which a loaded beatmap is filed in a [`BeatSaberMap`].
pub fn file_stem(name: &str) -> (r: String)
    ensures
        r@ == file_stem_of(name@),
{
    let cs = crate::text::str_to_chars(name);
    let b = base_start_e(&cs);
    let ghost base = name@.skip(b as int);
    if b == cs.len() {
        proof {
            assert(base.len() == 0);
        }
        return String::from_str(name);
    }
    match last_dot_e(&cs, b) {
        None => crate::json::range_to_string(&cs, b, cs.len()),
        Some(d) => {
            if d == b {
                proof {
                    assert(base.take(base.len() as int) =~= base);
                }
                crate::json::range_to_string(&cs, b, cs.len())
            } else {
                proof {
                    assert(cs@.subrange(b as int, d as int) =~= base.take(d - b));
                }
                crate::json::range_to_string(&cs, b, d)
            }
        },
    }
}

/// The first beatmap filed under `k`, if any.
pub open spec fn assoc_get(s: Seq<(Seq<char>, beatmap::BeatmapV)>, k: Seq<char>) -> Option<
    beatmap::BeatmapV,
>
    decreases s.len(),
{
    if s.len() == 0 {
        None
    } else if s[0].0 == k {
        Some(s[0].1)
    } else {
        assoc_get(s.drop_first(), k)
    }
}

/// `s` with `v` filed under `k`: the existing entry for `k` is replaced,
/// else the pair goes at the end.
pub open spec fn assoc_put(
    s: Seq<(Seq<char>, beatmap::BeatmapV)>,
    k: Seq<char>,
    v: beatmap::BeatmapV,
) -> Seq<(Seq<char>, beatmap::BeatmapV)>
    decreases s.len(),
{
    if s.len() == 0 {
        seq![(k, v)]
    } else if s[0].0 == k {
        seq![(k, v)] + s.drop_first()
    } else {
        seq![s[0]] + assoc_put(s.drop_first(), k, v)
    }
}

/// The beatmap mapping built from the difficulty entries and their loaded
/// beatmaps, from position `i` on: each beatmap filed under the stem of the
/// entry's beatmap file name, later entries replacing earlier ones with the
/// same stem.
pub open spec fn keyed_beatmaps(
    dbs: Seq<info::DifficultyBeatmapV>,
    bms: Seq<beatmap::BeatmapV>,
    i: int,
    acc: Seq<(Seq<char>, beatmap::BeatmapV)>,
) -> Seq<(Seq<char>, beatmap::BeatmapV)>
    decreases dbs.len() - i,
{
    if !(0 <= i < dbs.len() && i < bms.len()) {
        acc
    } else {
        keyed_beatmaps(
            dbs,
            bms,
            i + 1,
            assoc_put(acc, file_stem_of(dbs[i].beatmap_data_filename), bms[i]),
        )
    }
}

/// A structural representation of a Beat Saber map folder.
#[derive(Debug, Clone, PartialEq)]
pub struct BeatSaberMap {
    /// The `Info.dat` file.
    ///
    /// See [`Info`].
    pub info: Info,
    /// The `BPMInfo.dat` file.
    ///
    /// See [`Audio`].
    pub audio: Audio,
    /// Any beatmap files that may exist, each filed under its file name's
    /// stem.  Keys are unique; a later entry for the same stem replaces the
    /// earlier one.
    ///
    /// See [`Beatmap`].
    pub beatmaps: Vec<(String, Beatmap)>,
}

/// Files `bm` under `k` in `keyed`, replacing an existing entry for `k`.
fn put_beatmap(keyed: &mut Vec<(String, Beatmap)>, k: String, bm: Beatmap)
    ensures
        final(keyed).deep_view() == assoc_put(old(keyed).deep_view(), k@, bm@),
{
    let n = keyed.len();
    let mut i: usize = 0;
    while i < n
        invariant
            i <= n == keyed@.len(),
            keyed@ == old(keyed)@,
            forall|j: int| 0 <= j < i ==> old(keyed).deep_view()[j].0 != k@,
        decreases n - i,
    {
        if crate::text::str_eq(keyed[i].0.as_str(), k.as_str()) {
            keyed[i] = (k, bm);
            proof {
                lemma_assoc_put_at(old(keyed).deep_view(), k@, bm@, i as int);
                assert(keyed.deep_view() =~= assoc_put(old(keyed).deep_view(), k@, bm@));
            }
            return ;
        }
        i += 1;
    }
    keyed.push((k, bm));
    proof {
        lemma_assoc_put_missing(old(keyed).deep_view(), k@, bm@);
        assert(keyed.deep_view() =~= assoc_put(old(keyed).deep_view(), k@, bm@));
    }
}

/// Replacing the entry at the one position holding `k` is what filing under
/// `k` does.
proof fn lemma_assoc_put_at(
    s: Seq<(Seq<char>, beatmap::BeatmapV)>,
    k: Seq<char>,
    v: beatmap::BeatmapV,
    i: int,
)
    requires
        0 <= i < s.len(),
        s[i].0 == k,
        forall|j: int| 0 <= j < i ==> s[j].0 != k,
    ensures
        assoc_put(s, k, v) =~= s.update(i, (k, v)),
    decreases i,
{
    if i == 0 {
    } else {
        lemma_assoc_put_at(s.drop_first(), k, v, i - 1);
        assert(forall|j: int|
            0 <= j < i - 1 ==> s.drop_first()[j].0 == #[trigger] s[j + 1].0 && s[j + 1].0 != k);
        assert(assoc_put(s, k, v) == seq![s[0]] + assoc_put(s.drop_first(), k, v));
        assert(seq![s[0]] + s.drop_first().update(i - 1, (k, v)) =~= s.update(i, (k, v)));
    }
}

/// Filing under a key that is absent appends the pair at the end.
proof fn lemma_assoc_put_missing(
    s: Seq<(Seq<char>, beatmap::BeatmapV)>,
    k: Seq<char>,
    v: beatmap::BeatmapV,
)
    requires
        forall|j: int| 0 <= j < s.len() ==> (#[trigger] s[j].0) != k,
    ensures
        assoc_put(s, k, v) =~= s.push((k, v)),
    decreases s.len(),
{
    if s.len() > 0 {
        assert(forall|j: int|
            0 <= j < s.len() - 1 ==> s.drop_first()[j].0 == #[trigger] s[j + 1].0 && s[j + 1].0
                != k);
        lemma_assoc_put_missing(s.drop_first(), k, v);
        assert(seq![s[0]] + s.drop_first().push((k, v)) =~= s.push((k, v)));
    }
}

impl BeatSaberMap {
    /// Stitches the decoded files of a map folder into one value: the
    /// manifest, the audio sidecar, and one loaded beatmap per difficulty
    /// entry of the manifest, in the entry order.  Each beatmap is filed
    /// under its file name's stem.
    pub fn assemble(info: Info, audio: Audio, mut beatmaps: Vec<Beatmap>) -> (r: BeatSaberMap)
        requires
            beatmaps@.len() == info.difficulty_beatmaps@.len(),
        ensures
            r.info == info,
            r.audio == audio,
            r.beatmaps.deep_view() == keyed_beatmaps(
                info.difficulty_beatmaps.deep_view(),
                beatmaps.deep_view(),
                0,
                Seq::empty(),
            ),
            keys_distinct(r.beatmaps.deep_view()),
    {
        let ghost dbs = info.difficulty_beatmaps.deep_view();
        let ghost bms = beatmaps.deep_view();
        let n = info.difficulty_beatmaps.len();
        let mut keyed: Vec<(String, Beatmap)> = Vec::new();
        let mut i: usize = 0;
        proof {
            assert(keyed.deep_view() =~= Seq::<(Seq<char>, beatmap::BeatmapV)>::empty());
        }
        while i < n
            invariant
                i <= n == dbs.len(),
                bms.len() == n,
                info.difficulty_beatmaps.deep_view() == dbs,
                beatmaps@.len() + i == n,
                beatmaps.deep_view() =~= bms.skip(i as int),
                keyed_beatmaps(dbs, bms, 0, Seq::empty()) == keyed_beatmaps(
                    dbs,
                    bms,
                    i as int,
                    keyed.deep_view(),
                ),
            decreases n - i,
        {
            let name = file_stem(info.difficulty_beatmaps[i].beatmap_data_filename.as_str());
            let ghost prevv = beatmaps@;
            let ghost pre = beatmaps.deep_view();
            let bm = beatmaps.remove(0);
            proof {
                assert(info.difficulty_beatmaps.deep_view()[i as int]
                    == info.difficulty_beatmaps@[i as int]@);
                assert(pre[0] == prevv[0]@);
                assert(pre == bms.skip(i as int));
                assert(bms.skip(i as int)[0] == bms[0 + i as int]);
                assert(pre[0] == bms[i as int]);
                assert(bm@ == bms[i as int]);
                assert(name@ == file_stem_of(dbs[i as int].beatmap_data_filename));
            }
            put_beatmap(&mut keyed, name, bm);
            proof {
                assert forall|k: int|
                    0 <= k < beatmaps@.len() implies #[trigger] beatmaps.deep_view()[k] == bms.skip(
                    i + 1,
                )[k] by {
                    assert(beatmaps@[k] == prevv[k + 1]);
                    assert(beatmaps.deep_view()[k] == beatmaps@[k]@);
                    assert(bms.skip(i + 1)[k] == bms[k + (i + 1)]);
                    assert(pre[k + 1] == bms[i + 1 + k]);
                    assert(pre[k + 1] == prevv[k + 1]@);
                }
                assert(beatmaps.deep_view() =~= bms.skip(i + 1));
            }
            i += 1;
        }
        proof {
            lemma_keyed_beatmaps_distinct(dbs, bms, 0, Seq::empty());
        }
        BeatSaberMap { info, audio, beatmaps: keyed }
    }

    /// The beatmap filed under `key`, if any.
    pub fn beatmap(&self, key: &str) -> (r: Option<&Beatmap>)
        ensures
            match r {
                Some(bm) => assoc_get(self.beatmaps.deep_view(), key@) == Some(bm@),
                None => assoc_get(self.beatmaps.deep_view(), key@) is None,
            },
    {
        let n = self.beatmaps.len();
        let mut i: usize = 0;
        proof {
            assert(self.beatmaps.deep_view().skip(0) =~= self.beatmaps.deep_view());
        }
        while i < n
            invariant
                i <= n == self.beatmaps@.len(),
                assoc_get(self.beatmaps.deep_view(), key@) == assoc_get(
                    self.beatmaps.deep_view().skip(i as int),
                    key@,
                ),
            decreases n - i,
        {
            proof {
                assert(self.beatmaps.deep_view().skip(i as int)[0]
                    == self.beatmaps.deep_view()[i as int]);
                assert(self.beatmaps.deep_view().skip(i as int).drop_first()
                    =~= self.beatmaps.deep_view().skip(i + 1));
            }
            if crate::text::str_eq(self.beatmaps[i].0.as_str(), key) {
                return Some(&self.beatmaps[i].1);
            }
            i += 1;
        }
        proof {
            assert(self.beatmaps.deep_view().skip(n as int).len() == 0);
        }
        None
    }
}

impl Default for BeatSaberMap {
    /// The empty map: a defaulted manifest, a defaulted audio sidecar and no
    /// beatmaps.
    fn default() -> (r: BeatSaberMap)
        ensures
            info::sd_info_ms(Seq::empty()) == Ok::<info::InfoV, ErrorKind>(r.info@),
            audio::sd_audio(Seq::empty()) == Ok::<audio::AudioV, ErrorKind>(r.audio@),
            r.beatmaps@.len() == 0,
    {
        BeatSaberMap { info: Info::default(), audio: Audio::default(), beatmaps: Vec::new() }
    }
}

/// Whether the keys of the beatmap mapping are pairwise distinct.
pub open spec fn keys_distinct(s: Seq<(Seq<char>, beatmap::BeatmapV)>) -> bool {
    forall|i: int, j: int| 0 <= i < j < s.len() ==> (#[trigger] s[i].0) != (#[trigger] s[j].0)
}

/// Filing a beatmap under a key keeps the keys pairwise distinct.
pub proof fn lemma_assoc_put_distinct(
    s: Seq<(Seq<char>, beatmap::BeatmapV)>,
    k: Seq<char>,
    v: beatmap::BeatmapV,
)
    requires
        keys_distinct(s),
    ensures
        keys_distinct(assoc_put(s, k, v)),
    decreases s.len(),
{
    if s.len() == 0 {
    } else if s[0].0 == k {
        let r = seq![(k, v)] + s.drop_first();
        assert(forall|j: int| 0 <= j < s.len() - 1 ==> (#[trigger] s.drop_first()[j]) == s[j + 1]);
        assert(keys_distinct(r));
    } else {
        assert(forall|j: int| 0 <= j < s.len() - 1 ==> (#[trigger] s.drop_first()[j]) == s[j + 1]);
        lemma_assoc_put_distinct(s.drop_first(), k, v);
        lemma_assoc_put_keys(s.drop_first(), k, v);
        let r = seq![s[0]] + assoc_put(s.drop_first(), k, v);
        assert forall|i: int, j: int| 0 <= i < j < r.len() implies (#[trigger] r[i].0)
            != (#[trigger] r[j].0) by {
            if i == 0 {
                assert(r[j].0 == assoc_put(s.drop_first(), k, v)[j - 1].0);
            }
        }
    }
}

/// Every key of the mapping after filing is the filed key or an old key.
pub proof fn lemma_assoc_put_keys(
    s: Seq<(Seq<char>, beatmap::BeatmapV)>,
    k: Seq<char>,
    v: beatmap::BeatmapV,
)
    ensures
        forall|i: int|
            0 <= i < assoc_put(s, k, v).len() ==> (#[trigger] assoc_put(s, k, v)[i].0) == k
                || exists|j: int| 0 <= j < s.len() && s[j].0 == assoc_put(s, k, v)[i].0,
    decreases s.len(),
{
    if s.len() == 0 {
    } else if s[0].0 == k {
        assert(forall|j: int| 0 <= j < s.len() - 1 ==> (#[trigger] s.drop_first()[j]) == s[j + 1]);
        assert forall|i: int| 0 <= i < assoc_put(s, k, v).len() implies (#[trigger] assoc_put(
            s,
            k,
            v,
        )[i].0) == k || exists|j: int| 0 <= j < s.len() && s[j].0 == assoc_put(s, k, v)[i].0 by {
            if i > 0 {
                assert(assoc_put(s, k, v)[i] == s[i]);
            }
        }
    } else {
        lemma_assoc_put_keys(s.drop_first(), k, v);
        assert(forall|j: int| 0 <= j < s.len() - 1 ==> (#[trigger] s.drop_first()[j]) == s[j + 1]);
        assert forall|i: int| 0 <= i < assoc_put(s, k, v).len() implies (#[trigger] assoc_put(
            s,
            k,
            v,
        )[i].0) == k || exists|j: int| 0 <= j < s.len() && s[j].0 == assoc_put(s, k, v)[i].0 by {
            if i > 0 {
                assert(assoc_put(s, k, v)[i] == assoc_put(s.drop_first(), k, v)[i - 1]);
                if assoc_put(s.drop_first(), k, v)[i - 1].0 != k {
                    let j = choose|j: int|
                        0 <= j < s.drop_first().len() && s.drop_first()[j].0 == assoc_put(
                            s.drop_first(),
                            k,
                            v,
                        )[i - 1].0;
                    assert(s[j + 1].0 == assoc_put(s, k, v)[i].0);
                }
            }
        }
    }
}

/// The mapping built by [`BeatSaberMap::assemble`] has pairwise distinct
/// keys, whatever it starts from that does.
pub proof fn lemma_keyed_beatmaps_distinct(
    dbs: Seq<info::DifficultyBeatmapV>,
    bms: Seq<beatmap::BeatmapV>,
    i: int,
    acc: Seq<(Seq<char>, beatmap::BeatmapV)>,
)
    requires
        keys_distinct(acc),
    ensures
        keys_distinct(keyed_beatmaps(dbs, bms, i, acc)),
    decreases dbs.len() - i,
{
    if 0 <= i < dbs.len() && i < bms.len() {
        lemma_assoc_put_distinct(acc, file_stem_of(dbs[i].beatmap_data_filename), bms[i]);
        lemma_keyed_beatmaps_distinct(
            dbs,
            bms,
            i + 1,
            assoc_put(acc, file_stem_of(dbs[i].beatmap_data_filename), bms[i]),
        );
    }
}

/// Filing a beatmap makes it the one found under its key.
pub proof fn lemma_assoc_get_put_same(
    s: Seq<(Seq<char>, beatmap::BeatmapV)>,
    k: Seq<char>,
    v: beatmap::BeatmapV,
)
    ensures
        assoc_get(assoc_put(s, k, v), k) == Some(v),
    decreases s.len(),
{
    if s.len() == 0 {
    } else if s[0].0 == k {
        assert((seq![(k, v)] + s.drop_first())[0] == (k, v));
    } else {
        lemma_assoc_get_put_same(s.drop_first(), k, v);
        let r = seq![s[0]] + assoc_put(s.drop_first(), k, v);
        assert(r[0] == s[0]);
        assert(r.drop_first() =~= assoc_put(s.drop_first(), k, v));
    }
}

/// Filing a beatmap leaves every other key's entry as it was.
pub proof fn lemma_assoc_get_put_other(
    s: Seq<(Seq<char>, beatmap::BeatmapV)>,
    k: Seq<char>,
    v: beatmap::BeatmapV,
    k2: Seq<char>,
)
    requires
        k2 != k,
    ensures
        assoc_get(assoc_put(s, k, v), k2) == assoc_get(s, k2),
    decreases s.len(),
{
    if s.len() == 0 {
        let r = assoc_put(s, k, v);
        assert(r == seq![(k, v)]);
        assert(r.drop_first() =~= Seq::<(Seq<char>, beatmap::BeatmapV)>::empty());
        assert(r[0] == (k, v));
        assert(assoc_get(Seq::<(Seq<char>, beatmap::BeatmapV)>::empty(), k2) is None);
        assert(assoc_get(s, k2) is None);
    } else if s[0].0 == k {
        let r = seq![(k, v)] + s.drop_first();
        assert(r[0] == (k, v));
        assert(r.drop_first() =~= s.drop_first());
        lemma_assoc_get_absent_head(s, k2);
    } else {
        lemma_assoc_get_put_other(s.drop_first(), k, v, k2);
        let r = seq![s[0]] + assoc_put(s.drop_first(), k, v);
        assert(r[0] == s[0]);
        assert(r.drop_first() =~= assoc_put(s.drop_first(), k, v));
    }
}

/// A lookup that does not match the first entry looks past it.
proof fn lemma_assoc_get_absent_head(s: Seq<(Seq<char>, beatmap::BeatmapV)>, k2: Seq<char>)
    requires
        s.len() > 0,
        s[0].0 != k2,
    ensures
        assoc_get(s, k2) == assoc_get(s.drop_first(), k2),
{
}

/// Every difficulty entry still to be walked, and every key already filed,
/// ends up filed in the finished mapping.
proof fn lemma_keyed_beatmaps_covers_from(
    dbs: Seq<info::DifficultyBeatmapV>,
    bms: Seq<beatmap::BeatmapV>,
    i: int,
    acc: Seq<(Seq<char>, beatmap::BeatmapV)>,
    k: Seq<char>,
)
    requires
        0 <= i,
        (exists|j: int|
            i <= j < dbs.len() && j < bms.len() && file_stem_of(
                (#[trigger] dbs[j]).beatmap_data_filename,
            ) == k) || assoc_get(acc, k) is Some,
    ensures
        assoc_get(keyed_beatmaps(dbs, bms, i, acc), k) is Some,
    decreases dbs.len() - i,
{
    if i < dbs.len() && i < bms.len() {
        let stem = file_stem_of(dbs[i].beatmap_data_filename);
        let acc2 = assoc_put(acc, stem, bms[i]);
        if k == stem {
            lemma_assoc_get_put_same(acc, stem, bms[i]);
        } else if assoc_get(acc, k) is Some {
            lemma_assoc_get_put_other(acc, stem, bms[i], k);
        }
        lemma_keyed_beatmaps_covers_from(dbs, bms, i + 1, acc2, k);
    }
}

/// A beatmap entry exists for every difficulty entry of the manifest: after
/// assembly, looking up the stem of any referenced beatmap file name finds
/// a beatmap.
pub proof fn lemma_keyed_beatmaps_covers(
    dbs: Seq<info::DifficultyBeatmapV>,
    bms: Seq<beatmap::BeatmapV>,
    i: int,
)
    requires
        0 <= i < dbs.len(),
        dbs.len() == bms.len(),
    ensures
        assoc_get(
            keyed_beatmaps(dbs, bms, 0, Seq::empty()),
            file_stem_of(dbs[i].beatmap_data_filename),
        ) is Some,
{
    lemma_keyed_beatmaps_covers_from(
        dbs,
        bms,
        0,
        Seq::empty(),
        file_stem_of(dbs[i].beatmap_data_filename),
    );
}

} // verus!
