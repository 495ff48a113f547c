use beat_saber_map::beatmap::{
    Arc, ArcData, Beatmap, Chain, ChainData, Color, ColorNoteData, CutDirection, GridPosition,
    LineIndex, LineLayer, MidAnchorMode, Object, ObstacleData, SpawnRotation, SpawnRotationData,
};
use beat_saber_map::Error;

fn sample() -> &'static str {
    r#"{
  "version": "4.0.0",
  "colorNotes": [
    {
      "b": 10.0,
      "r": 0,
      "i": 0
    }
  ],
  "colorNotesData": [
    {
      "x": 1,
      "y": 0,
      "c": 0,
      "d": 1,
      "a": 0
    },
    {
      "x": 2,
      "y": 2,
      "c": 0,
      "d": 0,
      "a": 0
    }
  ],
  "bombNotes": [
    {
      "b": 10.0,
      "r": 0,
      "i": 0
    }
  ],
  "bombNotesData": [
    {
      "x": 1,
      "y": 0
    }
  ],
  "obstacles": [
    {
      "b": 10.0,
      "r": 0,
      "i": 0
    }
  ],
  "obstaclesData": [
    {
      "d": 5.0,
      "x": 1,
      "y": 0,
      "w": 1,
      "h": 5
    }
  ],
  "arcs": [
    {
      "hb": 10.0,
      "tb": 15.0,
      "hr": 0,
      "tr": 0,
      "hi": 0,
      "ti": 1,
      "ai": 0
    }
  ],
  "arcsData": [
    {
      "m": 1.0,
      "tm": 1.0,
      "a": 0
    }
  ],
  "chains": [
    {
      "hb": 10.0,
      "tb": 15.0,
      "hr": 0,
      "tr": 0,
      "i": 0,
      "ci": 0
    }
  ],
  "chainsData": [
    {
      "tx": 2,
      "ty": 2,
      "c": 3,
      "s": 0.5
    }
  ],
  "spawnRotations": [
    {
      "b": 10.0,
      "i": 0
    },
    {
      "b": 15.0,
      "i": 1
    }
  ],
  "spawnRotationsData": [
    {
      "t": 0,
      "r": 15.0
    },
    {
      "t": 1,
      "r": 15.0
    }
  ]
}"#
}

fn manual_recreation() -> Beatmap {
    Beatmap {
        version: "4.0.0".to_string(),
        color_notes: vec![Object {
            beat: "10.0".to_string(),
            rotation_lane: 0,
            metadata_index: 0,
        }],
        color_notes_data: vec![
            ColorNoteData {
                grid_position: GridPosition {
                    line_index: LineIndex::Left,
                    line_layer: LineLayer::Bottom,
                },
                color: Color::LeftSaber,
                cut_direction: CutDirection::Down,
                angle_offset: 0,
            },
            ColorNoteData {
                grid_position: GridPosition {
                    line_index: LineIndex::Right,
                    line_layer: LineLayer::Top,
                },
                color: Color::LeftSaber,
                cut_direction: CutDirection::Up,
                angle_offset: 0,
            },
        ],
        bomb_notes: vec![Object {
            beat: "10.0".to_string(),
            rotation_lane: 0,
            metadata_index: 0,
        }],
        bomb_notes_data: vec![GridPosition {
            line_index: LineIndex::Left,
            line_layer: LineLayer::Bottom,
        }],
        obstacles: vec![Object {
            beat: "10.0".to_string(),
            rotation_lane: 0,
            metadata_index: 0,
        }],
        obstacles_data: vec![ObstacleData {
            duration: "5.0".to_string(),
            grid_position: GridPosition {
                line_index: LineIndex::Left,
                line_layer: LineLayer::Bottom,
            },
            width: 1,
            height: 5,
        }],
        arcs: vec![Arc {
            head_beat: "10.0".to_string(),
            tail_beat: "15.0".to_string(),
            head_rotation_lane: 0,
            tail_rotation_lane: 0,
            head_metadata_index: 0,
            tail_metadata_index: 1,
            arc_metadata_index: 0,
        }],
        arcs_data: vec![ArcData {
            head_multiplier: "1.0".to_string(),
            tail_multiplier: "1.0".to_string(),
            mid_anchor_mode: MidAnchorMode::Straight,
        }],
        chains: vec![Chain {
            head_beat: "10.0".to_string(),
            tail_beat: "15.0".to_string(),
            head_rotation_lane: 0,
            tail_rotation_lane: 0,
            head_metadata_index: 0,
            chain_metadata_index: 0,
        }],
        chains_data: vec![ChainData {
            tail_line_index: LineIndex::Right,
            tail_line_layer: LineLayer::Top,
            slice_count: 3,
            squish_factor: "0.5".to_string(),
        }],
        spawn_rotations: vec![
            SpawnRotation {
                beat: "10.0".to_string(),
                index: 0,
            },
            SpawnRotation {
                beat: "15.0".to_string(),
                index: 1,
            },
        ],
        spawn_rotations_data: vec![
            SpawnRotationData {
                execution_time: beat_saber_map::beatmap::ExecutionTime::Early,
                magnitude: "15.0".to_string(),
            },
            SpawnRotationData {
                execution_time: beat_saber_map::beatmap::ExecutionTime::Late,
                magnitude: "15.0".to_string(),
            },
        ],
    }
}

#[test]
fn beatmap_serializes_correctly() {
    let serialized = manual_recreation().to_json_pretty();

    assert_eq!(serialized, sample());
}

#[test]
fn beatmap_deserializes_correctly() {
    let deserialized: Beatmap = Beatmap::from_json_text(sample()).unwrap();

    assert_eq!(deserialized, manual_recreation());
}

#[test]
fn beatmap_reads_notes_and_data() {
    let decoded = Beatmap::from_json_text(sample()).unwrap();
    assert_eq!(decoded.color_notes[0].beat, "10.0");
    assert_eq!(decoded.color_notes_data[1].cut_direction, CutDirection::Up);
}

#[test]
fn beatmap_defaults_every_collection_to_empty() {
    let decoded = Beatmap::from_json_text("{}").unwrap();
    assert_eq!(decoded.version, "4.0.0");
    assert!(decoded.color_notes.is_empty());
    assert!(decoded.color_notes_data.is_empty());
    assert!(decoded.bomb_notes.is_empty());
    assert!(decoded.bomb_notes_data.is_empty());
    assert!(decoded.obstacles.is_empty());
    assert!(decoded.obstacles_data.is_empty());
    assert!(decoded.arcs.is_empty());
    assert!(decoded.arcs_data.is_empty());
    assert!(decoded.chains.is_empty());
    assert!(decoded.chains_data.is_empty());
    assert!(decoded.spawn_rotations.is_empty());
    assert!(decoded.spawn_rotations_data.is_empty());
}

#[test]
fn beatmap_enum_range_errors_carry_the_value() {
    let cases: [(&str, fn(&Error) -> bool); 6] = [
        (r#"{ "colorNotesData": [ { "x": 4 } ] }"#, |e| {
            matches!(e, Error::LineIndexTryFromU8(4))
        }),
        (r#"{ "colorNotesData": [ { "y": 3 } ] }"#, |e| {
            matches!(e, Error::LineLayerTryFromU8(3))
        }),
        (r#"{ "colorNotesData": [ { "c": 2 } ] }"#, |e| {
            matches!(e, Error::ColorTryFromU8(2))
        }),
        (r#"{ "colorNotesData": [ { "d": 9 } ] }"#, |e| {
            matches!(e, Error::CutDirectionTryFromU8(9))
        }),
        (r#"{ "arcsData": [ { "a": 3 } ] }"#, |e| {
            matches!(e, Error::MidAnchorModeTryFromU8(3))
        }),
        (r#"{ "spawnRotationsData": [ { "t": 2 } ] }"#, |e| {
            matches!(e, Error::ExecutionTimeTryFromU8(2))
        }),
    ];
    for (text, check) in cases {
        match Beatmap::from_json_text(text) {
            Err(e) => assert!(check(&e), "wrong error for {text:?}: {e:?}"),
            Ok(_) => panic!("expected an error for {text:?}"),
        }
    }
}

#[test]
fn enum_wire_round_trips() {
    for n in 0..4u8 {
        assert_eq!(LineIndex::from_wire(n).unwrap().to_wire(), n);
    }
    for n in 0..3u8 {
        assert_eq!(LineLayer::from_wire(n).unwrap().to_wire(), n);
    }
    for n in 0..2u8 {
        assert_eq!(Color::from_wire(n).unwrap().to_wire(), n);
    }
    for n in 0..9u8 {
        assert_eq!(CutDirection::from_wire(n).unwrap().to_wire(), n);
    }
    for n in 0..3u8 {
        assert_eq!(MidAnchorMode::from_wire(n).unwrap().to_wire(), n);
    }
    for n in 0..2u8 {
        assert_eq!(
            beat_saber_map::beatmap::ExecutionTime::from_wire(n)
                .unwrap()
                .to_wire(),
            n
        );
    }
}

#[test]
fn enum_wire_rejects_out_of_range_ordinals() {
    assert!(matches!(
        LineIndex::from_wire(4),
        Err(Error::LineIndexTryFromU8(4))
    ));
    assert!(matches!(
        LineLayer::from_wire(3),
        Err(Error::LineLayerTryFromU8(3))
    ));
    assert!(matches!(Color::from_wire(2), Err(Error::ColorTryFromU8(2))));
    assert!(matches!(
        CutDirection::from_wire(255),
        Err(Error::CutDirectionTryFromU8(255))
    ));
    assert!(matches!(
        MidAnchorMode::from_wire(3),
        Err(Error::MidAnchorModeTryFromU8(3))
    ));
    assert!(matches!(
        beat_saber_map::beatmap::ExecutionTime::from_wire(2),
        Err(Error::ExecutionTimeTryFromU8(2))
    ));
}

#[test]
fn beatmap_negative_rotation_lane_round_trips() {
    let text = r#"{
  "colorNotes": [
    {
      "b": 2.5,
      "r": -45,
      "i": 0
    }
  ]
}"#;
    let decoded = Beatmap::from_json_text(text).unwrap();
    assert_eq!(decoded.color_notes[0].rotation_lane, -45);
    let reencoded = decoded.to_json_pretty();
    assert!(reencoded.contains("\"r\": -45"));
    assert!(reencoded.contains("\"b\": 2.5"));
}

#[test]
fn integer_fields_accept_their_whole_range() {
    let text = r#"{
  "colorNotes": [
    {
      "b": 0,
      "r": -32768,
      "i": 18446744073709551615
    },
    {
      "b": 1,
      "r": 32767,
      "i": 0
    }
  ]
}"#;
    let decoded = Beatmap::from_json_text(text).unwrap();
    assert_eq!(decoded.color_notes[0].rotation_lane, -32768);
    assert_eq!(decoded.color_notes[0].metadata_index, usize::MAX);
    assert_eq!(decoded.color_notes[1].rotation_lane, 32767);
}

#[test]
fn integer_fields_reject_values_out_of_range() {
    for bad in [
        r#"{ "colorNotes": [ { "r": -32769 } ] }"#,
        r#"{ "colorNotes": [ { "r": 32768 } ] }"#,
        r#"{ "colorNotes": [ { "i": 18446744073709551616 } ] }"#,
        r#"{ "chainsData": [ { "c": 256 } ] }"#,
        r#"{ "obstaclesData": [ { "w": 128 } ] }"#,
    ] {
        assert!(
            matches!(Beatmap::from_json_text(bad), Err(Error::Decode(_))),
            "expected a decode error for {bad:?}"
        );
    }
    // The largest slice count and obstacle sizes still fit.
    let ok = Beatmap::from_json_text(
        r#"{ "chainsData": [ { "c": 255 } ] }"#,
    )
    .unwrap();
    assert_eq!(ok.chains_data[0].slice_count, 255);
}
