use track_classification::data_structs::{
    AlbumData, AnalysisTrackData, AudioAnalysisData, AudioFeaturesData, BetterSavedTrack,
    FlattenError, SectionData, SegmentData, TrackData, TrimmedTrack,
};
use track_classification::misc_helpers::{Modality, NO_DATE_SENTINEL};

fn features() -> AudioFeaturesData {
    AudioFeaturesData {
        acousticness: 0.1f32.to_bits(),
        danceability: 0.2f32.to_bits(),
        energy: 0.3f32.to_bits(),
        liveness: 0.4f32.to_bits(),
        mode: Modality::Major,
        speechiness: 0.5f32.to_bits(),
        valence: 0.6f32.to_bits(),
    }
}

fn analysis_track() -> AnalysisTrackData {
    AnalysisTrackData {
        duration: 200.5f32.to_bits(),
        end_of_fade_in: 1.0f32.to_bits(),
        start_of_fade_out: 190.0f32.to_bits(),
        loudness: (-7.5f32).to_bits(),
        tempo: 120.0f32.to_bits(),
        tempo_confidence: 0.9f32.to_bits(),
        time_signature: 4,
        time_signature_confidence: 0.8f32.to_bits(),
        key: 5,
        key_confidence: 0.7f32.to_bits(),
        mode_confidence: 0.6f32.to_bits(),
        codestring: "code".to_string(),
        code_version: 3.15f32.to_bits(),
        echoprintstring: "echo".to_string(),
        echoprint_version: 4.12f32.to_bits(),
        synchstring: "synch".to_string(),
        synch_version: 1.0f32.to_bits(),
        rhythmstring: "rhythm".to_string(),
        rhythm_version: 1.0f32.to_bits(),
    }
}

fn section(tempo: f32, mode: Modality) -> SectionData {
    SectionData {
        duration: 30.0f32.to_bits(),
        confidence: 0.5f32.to_bits(),
        loudness: (-8.0f32).to_bits(),
        tempo: tempo.to_bits(),
        tempo_confidence: 0.4f32.to_bits(),
        key: 2,
        key_confidence: 0.3f32.to_bits(),
        mode,
        mode_confidence: 0.2f32.to_bits(),
        time_signature: 3,
        time_signature_confidence: 0.1f32.to_bits(),
    }
}

fn segment(loudness_max: f32) -> SegmentData {
    SegmentData {
        duration: 0.25f32.to_bits(),
        duration_confidence: 0.9f32.to_bits(),
        loudness_start: (-20.0f32).to_bits(),
        loudness_max_time: 0.05f32.to_bits(),
        loudness_max: loudness_max.to_bits(),
        pitches: Some((0..12).map(|i| (i as f32 / 12.0).to_bits()).collect()),
        timbre: Some((0..12).map(|i| (i as f32).to_bits()).collect()),
    }
}

fn saved(name: &str, release_date: Option<&str>) -> BetterSavedTrack {
    BetterSavedTrack {
        added_at: 1_600_000_000,
        track: TrackData {
            name: name.to_string(),
            explicit: true,
            album: AlbumData {
                name: "An Album".to_string(),
                artists: vec!["Album Artist".to_string()],
                release_date: release_date.map(|s| s.to_string()),
            },
            artists: vec!["Artist One".to_string(), "Artist Two".to_string()],
        },
    }
}

#[test]
fn flatten_scalar_fields() {
    let analysis = AudioAnalysisData {
        track: analysis_track(),
        sections: vec![section(100.0, Modality::Minor)],
        segments: vec![segment(-3.0)],
    };
    let t = TrimmedTrack::new(saved("Song A", Some("2020-06-15")), features(), analysis)
        .expect("flattening should succeed");
    assert_eq!(t.track_name, "Song A");
    assert_eq!(t.added_at, 1_600_000_000);
    assert_eq!(t.explicit, true);
    assert_eq!(t.album_name, "An Album");
    assert_eq!(t.album_artists, vec!["Album Artist".to_string()]);
    assert_eq!(t.album_release_date, 1592179200);
    assert_eq!(t.artists, vec!["Artist One".to_string(), "Artist Two".to_string()]);
    assert_eq!(f32::from_bits(t.acousticness), 0.1);
    assert_eq!(t.mode, 1);
    assert_eq!(f32::from_bits(t.duration), 200.5);
    assert_eq!(t.codestring, "code");
    assert_eq!(t.key, 5);
    assert_eq!(t.time_signature, 4);
}

#[test]
fn flatten_missing_release_date_is_sentinel() {
    let analysis = AudioAnalysisData {
        track: analysis_track(),
        sections: vec![],
        segments: vec![],
    };
    let t = TrimmedTrack::new(saved("Song B", None), features(), analysis).unwrap();
    assert_eq!(t.album_release_date, NO_DATE_SENTINEL);
}

#[test]
fn flatten_vector_lengths_match_sections_and_segments() {
    let analysis = AudioAnalysisData {
        track: analysis_track(),
        sections: vec![
            section(100.0, Modality::Minor),
            section(110.0, Modality::Major),
            section(120.0, Modality::NoResult),
        ],
        segments: vec![segment(-3.0), segment(-4.0)],
    };
    let t = TrimmedTrack::new(saved("Song C", Some("2020")), features(), analysis).unwrap();
    for len in [
        t.sections_duration.len(),
        t.sections_confidence.len(),
        t.sections_loudness.len(),
        t.sections_tempo.len(),
        t.sections_tempo_confidence.len(),
        t.sections_key.len(),
        t.sections_key_confidence.len(),
        t.sections_mode.len(),
        t.sections_mode_confidence.len(),
        t.sections_time_signature.len(),
        t.sections_time_signature_confidence.len(),
    ] {
        assert_eq!(len, 3);
    }
    for len in [
        t.segments_duration.len(),
        t.segments_duration_confidence.len(),
        t.segments_loudness_start.len(),
        t.segments_loudness_max_time.len(),
        t.segments_loudness_max.len(),
        t.segments_pitches.len(),
        t.segments_timbre.len(),
    ] {
        assert_eq!(len, 2);
    }
    for row in &t.segments_pitches {
        assert_eq!(row.len(), 12);
    }
    for row in &t.segments_timbre {
        assert_eq!(row.len(), 12);
    }
    assert_eq!(t.sections_mode, vec![0, 1, -1]);
    assert_eq!(f32::from_bits(t.sections_tempo[1]), 110.0);
    assert_eq!(f32::from_bits(t.segments_loudness_max[1]), -4.0);
}

#[test]
fn flatten_missing_pitches_fails() {
    let mut seg = segment(-3.0);
    seg.pitches = None;
    let analysis = AudioAnalysisData {
        track: analysis_track(),
        sections: vec![],
        segments: vec![segment(-2.0), seg],
    };
    let r = TrimmedTrack::new(saved("Song D", Some("2020")), features(), analysis);
    assert_eq!(r.unwrap_err(), FlattenError::MissingAnalysisField);
}

#[test]
fn flatten_missing_timbre_fails() {
    let mut seg = segment(-3.0);
    seg.timbre = None;
    let analysis = AudioAnalysisData {
        track: analysis_track(),
        sections: vec![],
        segments: vec![seg],
    };
    let r = TrimmedTrack::new(saved("Song E", Some("2020")), features(), analysis);
    assert_eq!(r.unwrap_err(), FlattenError::MissingAnalysisField);
}
