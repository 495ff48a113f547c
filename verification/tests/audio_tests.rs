use beat_saber_map::audio::{Audio, BpmData, LufsData};
use beat_saber_map::Error;

fn sample() -> &'static str {
    r#"{
  "version": "4.0.0",
  "songChecksum": "",
  "songSampleCount": 1149214,
  "songFrequency": 44100,
  "bpmData": [
    {
      "si": 0,
      "ei": 1149214,
      "sb": 0.0,
      "eb": 26.0
    }
  ],
  "lufsData": [
    {
      "si": 0,
      "ei": 1149214,
      "l": 0
    }
  ]
}"#
}

fn manual_recreation() -> Audio {
    Audio {
        version: "4.0.0".to_string(),
        song_checksum: "".to_string(),
        song_sample_count: 1149214,
        song_frequency: 44100,
        bpm_data: vec![BpmData {
            start_index: 0,
            end_index: 1149214,
            start_beat: "0.0".to_string(),
            end_beat: "26.0".to_string(),
        }],
        lufs_data: vec![LufsData {
            start_index: 0,
            end_index: 1149214,
            loudness: 0,
        }],
    }
}

#[test]
fn audio_serializes_correctly() {
    let serialized = manual_recreation().to_json_pretty();

    assert_eq!(serialized, sample());
}

#[test]
fn audio_deserializes_correctly() {
    let deserialized: Audio = Audio::from_json_text(sample()).unwrap();

    assert_eq!(deserialized, manual_recreation());
}

#[test]
fn audio_reencodes_byte_for_byte() {
    let decoded = Audio::from_json_text(sample()).unwrap();
    assert_eq!(decoded.song_sample_count, 1149214);
    assert_eq!(decoded.song_frequency, 44100);
    assert_eq!(decoded.bpm_data[0].start_index, 0);
    assert_eq!(decoded.bpm_data[0].end_index, 1149214);
    assert_eq!(decoded.bpm_data[0].start_beat, "0.0");
    assert_eq!(decoded.bpm_data[0].end_beat, "26.0");
    assert_eq!(decoded.lufs_data[0].start_index, 0);
    assert_eq!(decoded.lufs_data[0].end_index, 1149214);
    assert_eq!(decoded.lufs_data[0].loudness, 0);
    assert_eq!(decoded.to_json_pretty(), sample());
}

#[test]
fn audio_defaults_when_fields_are_absent() {
    let decoded = Audio::from_json_text("{}").unwrap();
    assert_eq!(decoded.version, "4.0.0");
    assert_eq!(decoded.song_checksum, "");
    assert_eq!(decoded.song_sample_count, 0);
    assert_eq!(decoded.song_frequency, 0);
    assert!(decoded.bpm_data.is_empty());
    assert!(decoded.lufs_data.is_empty());

    // A region with no fields defaults too, and the beats default to 0.0.
    let partial = Audio::from_json_text(r#"{ "bpmData": [ {} ] }"#).unwrap();
    assert_eq!(partial.bpm_data[0].start_index, 0);
    assert_eq!(partial.bpm_data[0].start_beat, "0.0");
}

#[test]
fn audio_ignores_unknown_keys() {
    let decoded = Audio::from_json_text(r#"{ "songFrequency": 48000, "extra": [1, 2] }"#).unwrap();
    assert_eq!(decoded.song_frequency, 48000);
}

#[test]
fn audio_rejects_malformed_documents() {
    // Not JSON at all; not an object; a field of the wrong type; a counter
    // that does not fit; a float where an integer is owed.
    for bad in [
        "",
        "nonsense",
        "[1, 2]",
        r#"{ "songSampleCount": "many" }"#,
        r#"{ "songSampleCount": 4294967296 }"#,
        r#"{ "songSampleCount": 3.5 }"#,
        r#"{ "songSampleCount": -1 }"#,
        r#"{ "bpmData": [ { "si": true } ] }"#,
        r#"{ "bpmData": {} }"#,
    ] {
        assert!(
            matches!(Audio::from_json_text(bad), Err(Error::Decode(_))),
            "expected a decode error for {bad:?}"
        );
    }
}
