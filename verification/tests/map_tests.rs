use beat_saber_map::audio::Audio;
use beat_saber_map::beatmap::Beatmap;
use beat_saber_map::file_stem;
use beat_saber_map::info::Info;
use beat_saber_map::BeatSaberMap;

fn info_text(files: &[&str]) -> String {
    let mut entries = String::new();
    for (i, f) in files.iter().enumerate() {
        if i > 0 {
            entries.push_str(", ");
        }
        entries.push_str(&format!("{{ \"beatmapDataFilename\": \"{f}\" }}"));
    }
    format!(
        "{{ \"audio\": {{ \"audioDataFilename\": \"BPMInfo.dat\" }}, \
         \"difficultyBeatmaps\": [ {entries} ] }}"
    )
}

fn beatmap_with_notes(n: usize) -> String {
    let mut notes = String::new();
    for i in 0..n {
        if i > 0 {
            notes.push_str(", ");
        }
        notes.push_str(&format!("{{ \"b\": {i}.0, \"r\": 0, \"i\": 0 }}"));
    }
    format!("{{ \"colorNotes\": [ {notes} ] }}")
}

#[test]
fn assembles_five_difficulties() {
    let info = Info::from_json_text(&info_text(&[
        "Easy.dat",
        "Normal.dat",
        "Hard.dat",
        "Expert.dat",
        "ExpertPlus.dat",
    ]))
    .unwrap();
    let audio = Audio::from_json_text("{}").unwrap();
    let beatmaps: Vec<Beatmap> = (1..=5)
        .map(|n| Beatmap::from_json_text(&beatmap_with_notes(n)).unwrap())
        .collect();

    let map = BeatSaberMap::assemble(info, audio, beatmaps);

    assert_eq!(map.beatmaps.len(), 5);
    for key in ["Easy", "Normal", "Hard", "Expert", "ExpertPlus"] {
        assert!(map.beatmap(key).is_some(), "missing key {key:?}");
    }
    assert!(map.beatmap("Easy.dat").is_none());
    assert_eq!(map.beatmap("Hard").unwrap().color_notes.len(), 3);
}

#[test]
fn assemble_keeps_info_and_audio() {
    let info = Info::from_json_text(&info_text(&["Normal.dat"])).unwrap();
    let audio = Audio::from_json_text(r#"{ "songFrequency": 44100 }"#).unwrap();
    let beatmap = Beatmap::from_json_text("{}").unwrap();

    let map = BeatSaberMap::assemble(info.clone(), audio.clone(), vec![beatmap]);

    assert_eq!(map.info, info);
    assert_eq!(map.audio, audio);
}

#[test]
fn assemble_replaces_duplicate_stems() {
    // Two entries pointing at the same file name leave one entry, holding
    // the beatmap loaded for the later reference.
    let info = Info::from_json_text(&info_text(&["Normal.dat", "Normal.dat"])).unwrap();
    let audio = Audio::from_json_text("{}").unwrap();
    let first = Beatmap::from_json_text(&beatmap_with_notes(1)).unwrap();
    let second = Beatmap::from_json_text(&beatmap_with_notes(2)).unwrap();

    let map = BeatSaberMap::assemble(info, audio, vec![first, second]);

    assert_eq!(map.beatmaps.len(), 1);
    assert_eq!(map.beatmap("Normal").unwrap().color_notes.len(), 2);
}

#[test]
fn file_stem_strips_one_extension() {
    assert_eq!(file_stem("Easy.dat"), "Easy");
    assert_eq!(file_stem("Easy"), "Easy");
    assert_eq!(file_stem("a.b.c"), "a.b");
    assert_eq!(file_stem(".hidden"), ".hidden");
    assert_eq!(file_stem("maps/Expert.dat"), "Expert");
    assert_eq!(file_stem(""), "");
}

#[test]
fn error_messages_name_the_failure() {
    let err = beat_saber_map::hex::decode_hex("#nope").unwrap_err();
    assert_eq!(err.message(), "#nope");
    let range = beat_saber_map::beatmap::LineIndex::from_wire(9).unwrap_err();
    assert!(range.message().contains("LineIndex"));
}

#[test]
fn defaults_match_decoding_an_empty_object() {
    assert_eq!(Audio::default(), Audio::from_json_text("{}").unwrap());
    assert_eq!(Beatmap::default(), Beatmap::from_json_text("{}").unwrap());
    assert_eq!(Info::default(), Info::from_json_text("{}").unwrap());
    let map = BeatSaberMap::default();
    assert_eq!(map.info, Info::default());
    assert_eq!(map.audio, Audio::default());
    assert!(map.beatmaps.is_empty());
}
