use beat_saber_map::info::{
    Audio, BeatmapAuthors, Characteristic, ColorScheme, Difficulty, DifficultyBeatmap, Info, Song,
};
use beat_saber_map::Error;

fn sample() -> &'static str {
    r##"{
  "version": "4.0.0",
  "song": {
    "title": "Magic",
    "subTitle": "ft. Meredith Bull",
    "author": "Jaroslav Beck"
  },
  "audio": {
    "songFilename": "song.ogg",
    "songDuration": 202.0,
    "audioDataFilename": "BPMInfo.dat",
    "bpm": 208.0,
    "lufs": 0.0,
    "previewStartTime": 0.0,
    "previewDuration": 0.0
  },
  "songPreviewFilename": "song.ogg",
  "coverImageFilename": "cover.png",
  "environmentNames": [
    "WeaveEnvironment",
    "GlassDesertEnvironment"
  ],
  "colorSchemes": [
    {
      "useOverride": true,
      "colorSchemeName": "Weave",
      "saberAColor": "#C81414FF",
      "saberBColor": "#288ED2FF",
      "obstaclesColor": "#FF3030FF",
      "environmentColor0": "#D91616FF",
      "environmentColor1": "#30ACFFFF",
      "environmentColor0Boost": "#D216D9FF",
      "environmentColor1Boost": "#00FFA5FF"
    }
  ],
  "difficultyBeatmaps": [
    {
      "characteristic": "Standard",
      "difficulty": "Easy",
      "beatmapAuthors": {
        "mappers": [
          "Freeek"
        ],
        "lighters": [
          "Freeek"
        ]
      },
      "environmentNameIdx": 0,
      "beatmapColorSchemeIdx": 0,
      "noteJumpMovementSpeed": 10,
      "noteJumpStartBeatOffset": 0.0,
      "beatmapDataFilename": "Easy.dat",
      "lightshowDataFilename": "Lightshow.dat"
    },
    {
      "characteristic": "Standard",
      "difficulty": "Normal",
      "beatmapAuthors": {
        "mappers": [
          "Freeek"
        ],
        "lighters": [
          "Freeek"
        ]
      },
      "environmentNameIdx": 0,
      "beatmapColorSchemeIdx": 0,
      "noteJumpMovementSpeed": 10,
      "noteJumpStartBeatOffset": 0.0,
      "beatmapDataFilename": "Normal.dat",
      "lightshowDataFilename": "Lightshow.dat"
    },
    {
      "characteristic": "Standard",
      "difficulty": "Hard",
      "beatmapAuthors": {
        "mappers": [
          "Freeek"
        ],
        "lighters": [
          "Freeek"
        ]
      },
      "environmentNameIdx": 0,
      "beatmapColorSchemeIdx": 0,
      "noteJumpMovementSpeed": 10,
      "noteJumpStartBeatOffset": 0.0,
      "beatmapDataFilename": "Hard.dat",
      "lightshowDataFilename": "Lightshow.dat"
    },
    {
      "characteristic": "Standard",
      "difficulty": "Expert",
      "beatmapAuthors": {
        "mappers": [
          "Freeek"
        ],
        "lighters": [
          "Freeek"
        ]
      },
      "environmentNameIdx": 0,
      "beatmapColorSchemeIdx": 0,
      "noteJumpMovementSpeed": 16,
      "noteJumpStartBeatOffset": 1.0,
      "beatmapDataFilename": "Expert.dat",
      "lightshowDataFilename": "Lightshow.dat"
    },
    {
      "characteristic": "Standard",
      "difficulty": "ExpertPlus",
      "beatmapAuthors": {
        "mappers": [
          "Freeek"
        ],
        "lighters": [
          "Freeek"
        ]
      },
      "environmentNameIdx": 0,
      "beatmapColorSchemeIdx": 0,
      "noteJumpMovementSpeed": 18,
      "noteJumpStartBeatOffset": 0.5,
      "beatmapDataFilename": "ExpertPlus.dat",
      "lightshowDataFilename": "LightshowPlus.dat"
    }
  ]
}"##
}

fn entry(
    difficulty: Difficulty,
    speed: u32,
    offset: &str,
    beatmap_file: &str,
    lightshow_file: &str,
) -> DifficultyBeatmap {
    DifficultyBeatmap {
        characteristic: Characteristic::Standard,
        difficulty,
        beatmap_authors: BeatmapAuthors {
            mappers: vec!["Freeek".to_string()],
            lighters: vec!["Freeek".to_string()],
        },
        environment_name_idx: 0,
        beatmap_color_scheme_idx: 0,
        note_jump_movement_speed: speed,
        note_jump_start_beat_offset: offset.to_string(),
        beatmap_data_filename: beatmap_file.to_string(),
        lightshow_data_filename: lightshow_file.to_string(),
    }
}

fn manual_recreation() -> Info {
    Info {
        version: "4.0.0".to_string(),
        song: Song {
            title: "Magic".to_string(),
            subtitle: "ft. Meredith Bull".to_string(),
            author: "Jaroslav Beck".to_string(),
        },
        audio: Audio {
            song_filename: "song.ogg".to_string(),
            song_duration: "202.0".to_string(),
            audio_data_filename: "BPMInfo.dat".to_string(),
            bpm: "208.0".to_string(),
            lufs: "0.0".to_string(),
            preview_start_time: "0.0".to_string(),
            preview_duration: "0.0".to_string(),
        },
        song_preview_filename: "song.ogg".to_string(),
        cover_image_filename: "cover.png".to_string(),
        environment_names: vec![
            "WeaveEnvironment".to_string(),
            "GlassDesertEnvironment".to_string(),
        ],
        color_schemes: vec![ColorScheme {
            use_override: true,
            color_scheme_name: "Weave".to_string(),
            saber_a_color: 0xC81414FF,
            saber_b_color: 0x288ED2FF,
            obstacles_color: 0xFF3030FF,
            environment_color_0: 0xD91616FF,
            environment_color_1: 0x30ACFFFF,
            environment_color_0_boost: 0xD216D9FF,
            environment_color_1_boost: 0x00FFA5FF,
        }],
        difficulty_beatmaps: vec![
            entry(Difficulty::Easy, 10, "0.0", "Easy.dat", "Lightshow.dat"),
            entry(Difficulty::Normal, 10, "0.0", "Normal.dat", "Lightshow.dat"),
            entry(Difficulty::Hard, 10, "0.0", "Hard.dat", "Lightshow.dat"),
            entry(Difficulty::Expert, 16, "1.0", "Expert.dat", "Lightshow.dat"),
            entry(
                Difficulty::ExpertPlus,
                18,
                "0.5",
                "ExpertPlus.dat",
                "LightshowPlus.dat",
            ),
        ],
    }
}

#[test]
fn info_serializes_correctly() {
    let serialized = manual_recreation().to_json_pretty();

    assert_eq!(serialized, sample());
}

#[test]
fn info_deserializes_correctly() {
    let deserialized: Info = Info::from_json_text(sample()).unwrap();

    assert_eq!(deserialized, manual_recreation());
}

#[test]
fn info_reads_song_and_bpm() {
    let decoded = Info::from_json_text(sample()).unwrap();
    assert_eq!(decoded.song.title, "Magic");
    assert_eq!(decoded.song.author, "Jaroslav Beck");
    assert_eq!(decoded.audio.bpm, "208.0");
    assert_eq!(decoded.environment_names.len(), 2);
}

#[test]
fn info_defaults_when_fields_are_absent() {
    let decoded = Info::from_json_text("{}").unwrap();
    assert_eq!(decoded.version, "4.0.0");
    assert_eq!(decoded.song.title, "");
    assert_eq!(decoded.audio.song_filename, "song.ogg");
    assert_eq!(decoded.audio.audio_data_filename, "BPMInfo.dat");
    assert_eq!(decoded.song_preview_filename, "song.ogg");
    assert_eq!(decoded.cover_image_filename, "cover.png");
    assert!(decoded.environment_names.is_empty());
    assert!(decoded.color_schemes.is_empty());
    assert!(decoded.difficulty_beatmaps.is_empty());

    // A partially given nested structure defaults the rest of its fields.
    let partial = Info::from_json_text(r#"{ "song": { "title": "Magic" } }"#).unwrap();
    assert_eq!(partial.song.title, "Magic");
    assert_eq!(partial.song.subtitle, "");
}

#[test]
fn info_difficulty_entry_defaults() {
    let decoded = Info::from_json_text(r#"{ "difficultyBeatmaps": [ {} ] }"#).unwrap();
    let e = &decoded.difficulty_beatmaps[0];
    assert_eq!(e.characteristic, Characteristic::Standard);
    assert_eq!(e.difficulty, Difficulty::Normal);
    assert!(e.beatmap_authors.mappers.is_empty());
    assert_eq!(e.note_jump_movement_speed, 0);
    assert_eq!(e.note_jump_start_beat_offset, "0.0");
    assert_eq!(e.beatmap_data_filename, "");
}

#[test]
fn characteristic_labels_round_trip() {
    for c in [
        Characteristic::Standard,
        Characteristic::NoArrows,
        Characteristic::OneSaber,
        Characteristic::ThreeSixtyDegree,
        Characteristic::NinetyDegree,
        Characteristic::Legacy,
    ] {
        assert_eq!(Characteristic::from_label(&c.label()).unwrap(), c);
    }
    assert_eq!(Characteristic::ThreeSixtyDegree.label(), "360Degree");
    assert_eq!(Characteristic::NinetyDegree.label(), "90Degree");
}

#[test]
fn difficulty_labels_round_trip() {
    for d in [
        Difficulty::Easy,
        Difficulty::Normal,
        Difficulty::Hard,
        Difficulty::Expert,
        Difficulty::ExpertPlus,
    ] {
        assert_eq!(Difficulty::from_label(&d.label()).unwrap(), d);
    }
}

#[test]
fn unrecognized_labels_are_refused() {
    match Characteristic::from_label("Lawless") {
        Err(Error::Decode(m)) => assert_eq!(m, "Lawless"),
        other => panic!("expected a decode error, got {other:?}"),
    }
    assert!(matches!(
        Difficulty::from_label("ExpertPlusPlus"),
        Err(Error::Decode(_))
    ));
    assert!(matches!(
        Info::from_json_text(r#"{ "difficultyBeatmaps": [ { "difficulty": "Medium" } ] }"#),
        Err(Error::Decode(_))
    ));
}

#[test]
fn color_scheme_colors_travel_as_hex_strings() {
    let decoded = Info::from_json_text(sample()).unwrap();
    let scheme = &decoded.color_schemes[0];
    assert!(scheme.use_override);
    assert_eq!(scheme.saber_a_color, 0xC81414FF);
    assert_eq!(scheme.environment_color_1_boost, 0x00FFA5FF);

    assert!(matches!(
        Info::from_json_text(r##"{ "colorSchemes": [ { "saberAColor": "#XYZ" } ] }"##),
        Err(Error::Decode(_))
    ));
}
