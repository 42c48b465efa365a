use track_classification::data_structs::{
    AlbumData, AnalysisTrackData, AudioAnalysisData, AudioFeaturesData, BetterSavedTrack,
    SectionData, SegmentData, TrackData, TrimmedTrack,
};
use track_classification::dataset::{
    write_to_db, DatasetError, SplitStore, TrackClassificationDatasetStruct,
    TrackClassificationDatasetTrait, TrackClassificationItem, WriteError,
};
use track_classification::labels::{LabelSession, SubmitOutcome};
use track_classification::misc_helpers::Modality;

use std::collections::HashMap;

fn features() -> AudioFeaturesData {
    AudioFeaturesData {
        acousticness: 0.1f32.to_bits(),
        danceability: 0.2f32.to_bits(),
        energy: 0.3f32.to_bits(),
        liveness: 0.4f32.to_bits(),
        mode: Modality::Minor,
        speechiness: 0.5f32.to_bits(),
        valence: 0.6f32.to_bits(),
    }
}

fn analysis() -> AudioAnalysisData {
    AudioAnalysisData {
        track: AnalysisTrackData {
            duration: 180.0f32.to_bits(),
            end_of_fade_in: 0.0f32.to_bits(),
            start_of_fade_out: 170.0f32.to_bits(),
            loudness: (-6.0f32).to_bits(),
            tempo: 128.0f32.to_bits(),
            tempo_confidence: 0.9f32.to_bits(),
            time_signature: 4,
            time_signature_confidence: 0.8f32.to_bits(),
            key: 7,
            key_confidence: 0.7f32.to_bits(),
            mode_confidence: 0.6f32.to_bits(),
            codestring: "c".to_string(),
            code_version: 3.15f32.to_bits(),
            echoprintstring: "e".to_string(),
            echoprint_version: 4.12f32.to_bits(),
            synchstring: "s".to_string(),
            synch_version: 1.0f32.to_bits(),
            rhythmstring: "r".to_string(),
            rhythm_version: 1.0f32.to_bits(),
        },
        sections: vec![SectionData {
            duration: 60.0f32.to_bits(),
            confidence: 0.5f32.to_bits(),
            loudness: (-7.0f32).to_bits(),
            tempo: 128.0f32.to_bits(),
            tempo_confidence: 0.4f32.to_bits(),
            key: 7,
            key_confidence: 0.3f32.to_bits(),
            mode: Modality::Major,
            mode_confidence: 0.2f32.to_bits(),
            time_signature: 4,
            time_signature_confidence: 0.1f32.to_bits(),
        }],
        segments: vec![SegmentData {
            duration: 0.5f32.to_bits(),
            duration_confidence: 0.9f32.to_bits(),
            loudness_start: (-20.0f32).to_bits(),
            loudness_max_time: 0.1f32.to_bits(),
            loudness_max: (-3.0f32).to_bits(),
            pitches: Some(vec![0u32; 12]),
            timbre: Some(vec![0u32; 12]),
        }],
    }
}

fn flat(name: &str) -> TrimmedTrack {
    let saved = BetterSavedTrack {
        added_at: 1_600_000_000,
        track: TrackData {
            name: name.to_string(),
            explicit: false,
            album: AlbumData {
                name: "Album".to_string(),
                artists: vec!["A".to_string()],
                release_date: Some("2020-06-15".to_string()),
            },
            artists: vec!["A".to_string()],
        },
    };
    TrimmedTrack::new(saved, features(), analysis()).unwrap()
}

#[test]
fn mismatched_lengths_fail_and_change_nothing() {
    let mut store = SplitStore::new();
    let records = vec![flat("t0"), flat("t1")];
    let labels = vec![Some(1u32)];
    let r = write_to_db(&mut store, records, &labels);
    assert_eq!(r.unwrap_err(), WriteError::PreconditionViolated);
    assert!(!store.has_committed());
}

#[test]
fn opening_an_uncommitted_store_fails() {
    let store = SplitStore::new();
    let r = TrackClassificationDatasetStruct::train(&store);
    assert!(matches!(r, Err(DatasetError::SplitNotFound)));
}

#[test]
fn labeled_records_land_in_train_and_only_there() {
    let mut store = SplitStore::new();
    let records = vec![flat("t0"), flat("t1"), flat("t2")];
    let labels = vec![Some(2u32), None, Some(1u32)];
    write_to_db(&mut store, records, &labels).unwrap();

    let train = TrackClassificationDatasetStruct::train(&store).unwrap();
    let test = TrackClassificationDatasetStruct::test(&store).unwrap();
    assert_eq!(train.len(), 2);
    assert_eq!(test.len(), 1);
    assert_eq!(train.get(0).unwrap().track.track_name, "t0");
    assert_eq!(train.get(0).unwrap().label, 2);
    assert_eq!(train.get(1).unwrap().track.track_name, "t2");
    assert_eq!(train.get(1).unwrap().label, 1);
    assert_eq!(test.get(0).unwrap().track.track_name, "t1");
    assert_eq!(test.get(0).unwrap().label, 0);
    assert!(train.get(2).is_none());
    assert!(test.get(1).is_none());
}

#[test]
fn interrupted_write_leaves_committed_snapshot_readable() {
    let mut store = SplitStore::new();
    write_to_db(&mut store, vec![flat("old")], &vec![Some(1u32)]).unwrap();

    // a new writer opens and writes, but is interrupted before commit
    store.open_writer();
    store.write_entry(
        track_classification::dataset::Split::Train,
        TrackClassificationItem::new(flat("new"), 1),
    );

    let train = TrackClassificationDatasetStruct::train(&store).unwrap();
    assert_eq!(train.len(), 1);
    assert_eq!(train.get(0).unwrap().track.track_name, "old");

    // dropping the writer changes nothing either
    store.abort_writer();
    let train = TrackClassificationDatasetStruct::train(&store).unwrap();
    assert_eq!(train.get(0).unwrap().track.track_name, "old");
}

#[test]
fn commit_replaces_the_prior_snapshot_wholesale() {
    let mut store = SplitStore::new();
    write_to_db(&mut store, vec![flat("a"), flat("b")], &vec![Some(1u32), None]).unwrap();
    write_to_db(&mut store, vec![flat("c")], &vec![None]).unwrap();
    let train = TrackClassificationDatasetStruct::train(&store).unwrap();
    let test = TrackClassificationDatasetStruct::test(&store).unwrap();
    assert_eq!(train.len(), 0);
    assert_eq!(test.len(), 1);
    assert_eq!(test.get(0).unwrap().track.track_name, "c");
}

#[test]
fn category_map_helpers() {
    let mut store = SplitStore::new();
    write_to_db(&mut store, vec![flat("a")], &vec![Some(1u32)]).unwrap();
    let train = TrackClassificationDatasetStruct::train(&store).unwrap();
    let mut map: HashMap<usize, String> = HashMap::new();
    map.insert(1, "Chill".to_string());
    map.insert(2, "Hype".to_string());
    assert_eq!(train.number_of_classes(map.clone()), 2);
    assert_eq!(train.class_name(1, map.clone()), "Chill");
    assert_eq!(train.class_name(2, map), "Hype");
}

#[test]
fn five_track_scenario() {
    // 5 tracks, 2 categories; the user labels track 0 with category 1 and
    // track 2 with category 2, then stops at the third presented track.
    let mut session = LabelSession::new(5);
    assert!(!session.add_category("Chill".to_string()));
    assert!(!session.add_category("Hype".to_string()));
    session.start_labeling_with_order(vec![0, 2, 3, 1, 4]);
    assert_eq!(
        session.submit(1),
        SubmitOutcome::Assigned { track_index: 0, category: 1 }
    );
    assert_eq!(
        session.submit(2),
        SubmitOutcome::Assigned { track_index: 2, category: 2 }
    );
    assert_eq!(session.submit(0), SubmitOutcome::Stopped);
    let labels = session.into_labels();
    assert_eq!(labels, vec![Some(1), None, Some(2), None, None]);

    let names = ["t0", "t1", "t2", "t3", "t4"];
    let records: Vec<TrimmedTrack> = names.iter().map(|n| flat(n)).collect();
    let mut store = SplitStore::new();
    write_to_db(&mut store, records, &labels).unwrap();

    let train = TrackClassificationDatasetStruct::train(&store).unwrap();
    let test = TrackClassificationDatasetStruct::test(&store).unwrap();
    assert_eq!(train.len(), 2);
    assert_eq!(test.len(), 3);
    assert_eq!(train.get(0).unwrap().track.track_name, "t0");
    assert_eq!(train.get(0).unwrap().label, 1);
    assert_eq!(train.get(1).unwrap().track.track_name, "t2");
    assert_eq!(train.get(1).unwrap().label, 2);
    assert_eq!(test.get(0).unwrap().track.track_name, "t1");
    assert_eq!(test.get(1).unwrap().track.track_name, "t3");
    assert_eq!(test.get(2).unwrap().track.track_name, "t4");
    // each stored record is the correctly flattened one for its index
    assert_eq!(train.get(0).unwrap().track, flat("t0"));
    assert_eq!(test.get(2).unwrap().track, flat("t4"));
}
