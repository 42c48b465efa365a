//! The data model of the pipeline and the feature flattener.
//!
//! The input types mirror what the streaming provider hands back for one
//! track — its descriptive data, its track-level audio features, and its
//! nested audio analysis — as plain values.  Fractional audio attributes are
//! carried as the raw bit patterns of their 32-bit values: the pipeline only
//! moves them between the provider and the store and never interprets them.
//! [`TrimmedTrack::new`] flattens one track into the fixed flat schema that
//! the dataset store persists.

use vstd::prelude::*;

use crate::misc_helpers::{date_normalization, mode_int, Modality, NO_DATE_SENTINEL};
use crate::misc_helpers::convert_mode_to_int;
use crate::misc_helpers::convert_to_parsable_date;

verus! {

/// Album description of a track: name, artist names, and the release date
/// string of variable precision, where the provider gave one.
pub struct AlbumData {
    pub name: String,
    pub artists: Vec<String>,
    pub release_date: Option<String>,
}

/// Descriptive data of one track.
pub struct TrackData {
    pub name: String,
    pub explicit: bool,
    pub album: AlbumData,
    pub artists: Vec<String>,
}

/// A track of the motherlist together with the instant it was added to the
/// source library.
pub struct BetterSavedTrack {
    pub added_at: i64,
    pub track: TrackData,
}

/// Track-level audio features.  Fractional attributes are raw 32-bit
/// patterns.
pub struct AudioFeaturesData {
    pub acousticness: u32,
    pub danceability: u32,
    pub energy: u32,
    pub liveness: u32,
    pub mode: Modality,
    pub speechiness: u32,
    pub valence: u32,
}

/// One coarse structural section of a track's audio analysis.
pub struct SectionData {
    pub duration: u32,
    pub confidence: u32,
    pub loudness: u32,
    pub tempo: u32,
    pub tempo_confidence: u32,
    pub key: i32,
    pub key_confidence: u32,
    pub mode: Modality,
    pub mode_confidence: u32,
    pub time_signature: i32,
    pub time_signature_confidence: u32,
}

/// One fine-grained analysis frame of a track.  The provider documents the
/// pitch and timbre vectors as optional, so they are optional here; a frame
/// without them cannot be flattened.
pub struct SegmentData {
    pub duration: u32,
    pub duration_confidence: u32,
    pub loudness_start: u32,
    pub loudness_max_time: u32,
    pub loudness_max: u32,
    pub pitches: Option<Vec<u32>>,
    pub timbre: Option<Vec<u32>>,
}

/// The track-level summary of an audio analysis.
pub struct AnalysisTrackData {
    pub duration: u32,
    pub end_of_fade_in: u32,
    pub start_of_fade_out: u32,
    pub loudness: u32,
    pub tempo: u32,
    pub tempo_confidence: u32,
    pub time_signature: i32,
    pub time_signature_confidence: u32,
    pub key: u32,
    pub key_confidence: u32,
    pub mode_confidence: u32,
    pub codestring: String,
    pub code_version: u32,
    pub echoprintstring: String,
    pub echoprint_version: u32,
    pub synchstring: String,
    pub synch_version: u32,
    pub rhythmstring: String,
    pub rhythm_version: u32,
}

/// A track's full nested audio analysis.
pub struct AudioAnalysisData {
    pub track: AnalysisTrackData,
    pub sections: Vec<SectionData>,
    pub segments: Vec<SegmentData>,
}

/// Why flattening a track failed.
#[derive(Clone, Copy, PartialEq, Eq, Structural, Debug)]
pub enum FlattenError {
    /// A required nested field was absent from the analysis payload.
    MissingAnalysisField,
}

/// One flattened track: a fixed scalar block plus one parallel vector per
/// section attribute and per segment attribute.  Section-derived vectors all
/// have one entry per section, segment-derived vectors one entry per segment.
#[derive(PartialEq, Debug)]
pub struct TrimmedTrack {
    pub track_name: String,
    pub added_at: i64,
    pub duration: u32,
    pub explicit: bool,
    pub album_name: String,
    pub album_artists: Vec<String>,
    pub album_release_date: i64,
    pub artists: Vec<String>,
    pub acousticness: u32,
    pub danceability: u32,
    pub energy: u32,
    pub liveness: u32,
    pub mode: i32,
    pub speechiness: u32,
    pub valence: u32,
    pub sections_duration: Vec<u32>,
    pub sections_confidence: Vec<u32>,
    pub sections_loudness: Vec<u32>,
    pub sections_tempo: Vec<u32>,
    pub sections_tempo_confidence: Vec<u32>,
    pub sections_key: Vec<i32>,
    pub sections_key_confidence: Vec<u32>,
    pub sections_mode: Vec<i32>,
    pub sections_mode_confidence: Vec<u32>,
    pub sections_time_signature: Vec<i32>,
    pub sections_time_signature_confidence: Vec<u32>,
    pub segments_duration: Vec<u32>,
    pub segments_duration_confidence: Vec<u32>,
    pub segments_loudness_start: Vec<u32>,
    pub segments_loudness_max_time: Vec<u32>,
    pub segments_loudness_max: Vec<u32>,
    pub segments_pitches: Vec<Vec<u32>>,
    pub segments_timbre: Vec<Vec<u32>>,
    pub end_of_fade_in: u32,
    pub start_of_fade_out: u32,
    pub loudness: u32,
    pub tempo: u32,
    pub tempo_confidence: u32,
    pub time_signature: i32,
    pub time_signature_confidence: u32,
    pub key: u32,
    pub key_confidence: u32,
    pub mode_confidence: u32,
    pub codestring: String,
    pub code_version: u32,
    pub echoprintstring: String,
    pub echoprint_version: u32,
    pub synchstring: String,
    pub synch_version: u32,
    pub rhythmstring: String,
    pub rhythm_version: u32,
}

/// Every analysis frame carries its pitch and timbre vectors.
pub open spec fn analysis_complete(segments: Seq<SegmentData>) -> bool {
    forall|i: int|
        0 <= i < segments.len() ==> (#[trigger] segments[i]).pitches is Some
            && segments[i].timbre is Some
}

/// The normalized release-date timestamp of an optional release-date string:
/// a missing date maps to the sentinel.
pub open spec fn release_date_timestamp(release_date: Option<String>) -> i64 {
    match release_date {
        Some(d) => date_normalization(d@),
        None => NO_DATE_SENTINEL,
    }
}

/// `t` is the flattening of one track: every field of the flat record as a
/// function of the track's descriptive data, features, and analysis.
pub open spec fn is_flattening(
    t: TrimmedTrack,
    saved: BetterSavedTrack,
    features: AudioFeaturesData,
    analysis: AudioAnalysisData,
) -> bool {
    &&& t.track_name == saved.track.name
    &&& t.added_at == saved.added_at
    &&& t.duration == analysis.track.duration
    &&& t.explicit == saved.track.explicit
    &&& t.album_name == saved.track.album.name
    &&& t.album_artists == saved.track.album.artists
    &&& t.album_release_date == release_date_timestamp(saved.track.album.release_date)
    &&& t.artists == saved.track.artists
    &&& t.acousticness == features.acousticness
    &&& t.danceability == features.danceability
    &&& t.energy == features.energy
    &&& t.liveness == features.liveness
    &&& t.mode == mode_int(features.mode)
    &&& t.speechiness == features.speechiness
    &&& t.valence == features.valence
    &&& t.sections_duration@ == analysis.sections@.map_values(|s: SectionData| s.duration)
    &&& t.sections_confidence@ == analysis.sections@.map_values(|s: SectionData| s.confidence)
    &&& t.sections_loudness@ == analysis.sections@.map_values(|s: SectionData| s.loudness)
    &&& t.sections_tempo@ == analysis.sections@.map_values(|s: SectionData| s.tempo)
    &&& t.sections_tempo_confidence@ == analysis.sections@.map_values(
        |s: SectionData| s.tempo_confidence,
    )
    &&& t.sections_key@ == analysis.sections@.map_values(|s: SectionData| s.key)
    &&& t.sections_key_confidence@ == analysis.sections@.map_values(
        |s: SectionData| s.key_confidence,
    )
    &&& t.sections_mode@ == analysis.sections@.map_values(|s: SectionData| mode_int(s.mode))
    &&& t.sections_mode_confidence@ == analysis.sections@.map_values(
        |s: SectionData| s.mode_confidence,
    )
    &&& t.sections_time_signature@ == analysis.sections@.map_values(
        |s: SectionData| s.time_signature,
    )
    &&& t.sections_time_signature_confidence@ == analysis.sections@.map_values(
        |s: SectionData| s.time_signature_confidence,
    )
    &&& t.segments_duration@ == analysis.segments@.map_values(|s: SegmentData| s.duration)
    &&& t.segments_duration_confidence@ == analysis.segments@.map_values(
        |s: SegmentData| s.duration_confidence,
    )
    &&& t.segments_loudness_start@ == analysis.segments@.map_values(
        |s: SegmentData| s.loudness_start,
    )
    &&& t.segments_loudness_max_time@ == analysis.segments@.map_values(
        |s: SegmentData| s.loudness_max_time,
    )
    &&& t.segments_loudness_max@ == analysis.segments@.map_values(
        |s: SegmentData| s.loudness_max,
    )
    &&& t.segments_pitches@.len() == analysis.segments@.len()
    &&& forall|i: int|
        0 <= i < analysis.segments@.len() ==> t.segments_pitches@[i] == (
        #[trigger] analysis.segments@[i]).pitches->Some_0
    &&& t.segments_timbre@.len() == analysis.segments@.len()
    &&& forall|i: int|
        0 <= i < analysis.segments@.len() ==> t.segments_timbre@[i] == (
        #[trigger] analysis.segments@[i]).timbre->Some_0
    &&& t.end_of_fade_in == analysis.track.end_of_fade_in
    &&& t.start_of_fade_out == analysis.track.start_of_fade_out
    &&& t.loudness == analysis.track.loudness
    &&& t.tempo == analysis.track.tempo
    &&& t.tempo_confidence == analysis.track.tempo_confidence
    &&& t.time_signature == analysis.track.time_signature
    &&& t.time_signature_confidence == analysis.track.time_signature_confidence
    &&& t.key == analysis.track.key
    &&& t.key_confidence == analysis.track.key_confidence
    &&& t.mode_confidence == analysis.track.mode_confidence
    &&& t.codestring == analysis.track.codestring
    &&& t.code_version == analysis.track.code_version
    &&& t.echoprintstring == analysis.track.echoprintstring
    &&& t.echoprint_version == analysis.track.echoprint_version
    &&& t.synchstring == analysis.track.synchstring
    &&& t.synch_version == analysis.track.synch_version
    &&& t.rhythmstring == analysis.track.rhythmstring
    &&& t.rhythm_version == analysis.track.rhythm_version
}

impl TrimmedTrack {
    /// Flattens one track: its descriptive data, features and nested
    /// analysis become one flat record.  Fails exactly when an analysis
    /// frame lacks its pitch or timbre vector.
    #[verifier::loop_isolation(false)]
    pub fn new(
        saved: BetterSavedTrack,
        features: AudioFeaturesData,
        analysis: AudioAnalysisData,
    ) -> (r: Result<TrimmedTrack, FlattenError>)
        ensures
            r is Ok <==> analysis_complete(analysis.segments@),
            r matches Err(e) ==> e == FlattenError::MissingAnalysisField,
            r matches Ok(t) ==> is_flattening(t, saved, features, analysis),
    {
        let ghost sections_in: Seq<SectionData> = analysis.sections@;
        let ghost segments_in: Seq<SegmentData> = analysis.segments@;

        let sections = analysis.sections;
        let mut sections_duration: Vec<u32> = Vec::new();
        let mut sections_confidence: Vec<u32> = Vec::new();
        let mut sections_loudness: Vec<u32> = Vec::new();
        let mut sections_tempo: Vec<u32> = Vec::new();
        let mut sections_tempo_confidence: Vec<u32> = Vec::new();
        let mut sections_key: Vec<i32> = Vec::new();
        let mut sections_key_confidence: Vec<u32> = Vec::new();
        let mut sections_mode: Vec<i32> = Vec::new();
        let mut sections_mode_confidence: Vec<u32> = Vec::new();
        let mut sections_time_signature: Vec<i32> = Vec::new();
        let mut sections_time_signature_confidence: Vec<u32> = Vec::new();
        let mut i: usize = 0;
        while i < sections.len()
            invariant
                i <= sections@.len(),
                sections@ == sections_in,
                sections_duration@.len() == i,
                sections_confidence@.len() == i,
                sections_loudness@.len() == i,
                sections_tempo@.len() == i,
                sections_tempo_confidence@.len() == i,
                sections_key@.len() == i,
                sections_key_confidence@.len() == i,
                sections_mode@.len() == i,
                sections_mode_confidence@.len() == i,
                sections_time_signature@.len() == i,
                sections_time_signature_confidence@.len() == i,
                forall|j: int|
                    0 <= j < i ==> {
                        let s = #[trigger] sections_in[j];
                        &&& sections_duration@[j] == s.duration
                        &&& sections_confidence@[j] == s.confidence
                        &&& sections_loudness@[j] == s.loudness
                        &&& sections_tempo@[j] == s.tempo
                        &&& sections_tempo_confidence@[j] == s.tempo_confidence
                        &&& sections_key@[j] == s.key
                        &&& sections_key_confidence@[j] == s.key_confidence
                        &&& sections_mode@[j] == mode_int(s.mode)
                        &&& sections_mode_confidence@[j] == s.mode_confidence
                        &&& sections_time_signature@[j] == s.time_signature
                        &&& sections_time_signature_confidence@[j] == s.time_signature_confidence
                    },
            decreases sections@.len() - i,
        {
            let s = &sections[i];
            sections_duration.push(s.duration);
            sections_confidence.push(s.confidence);
            sections_loudness.push(s.loudness);
            sections_tempo.push(s.tempo);
            sections_tempo_confidence.push(s.tempo_confidence);
            sections_key.push(s.key);
            sections_key_confidence.push(s.key_confidence);
            sections_mode.push(convert_mode_to_int(s.mode));
            sections_mode_confidence.push(s.mode_confidence);
            sections_time_signature.push(s.time_signature);
            sections_time_signature_confidence.push(s.time_signature_confidence);
            i = i + 1;
        }
        proof {
            assert(sections_duration@ =~= sections_in.map_values(|s: SectionData| s.duration));
            assert(sections_confidence@ =~= sections_in.map_values(
                |s: SectionData| s.confidence,
            ));
            assert(sections_loudness@ =~= sections_in.map_values(|s: SectionData| s.loudness));
            assert(sections_tempo@ =~= sections_in.map_values(|s: SectionData| s.tempo));
            assert(sections_tempo_confidence@ =~= sections_in.map_values(
                |s: SectionData| s.tempo_confidence,
            ));
            assert(sections_key@ =~= sections_in.map_values(|s: SectionData| s.key));
            assert(sections_key_confidence@ =~= sections_in.map_values(
                |s: SectionData| s.key_confidence,
            ));
            assert(sections_mode@ =~= sections_in.map_values(|s: SectionData| mode_int(s.mode)));
            assert(sections_mode_confidence@ =~= sections_in.map_values(
                |s: SectionData| s.mode_confidence,
            ));
            assert(sections_time_signature@ =~= sections_in.map_values(
                |s: SectionData| s.time_signature,
            ));
            assert(sections_time_signature_confidence@ =~= sections_in.map_values(
                |s: SectionData| s.time_signature_confidence,
            ));
        }

        let mut segments = analysis.segments;
        let segments_count: usize = segments.len();
        let mut segments_duration: Vec<u32> = Vec::new();
        let mut segments_duration_confidence: Vec<u32> = Vec::new();
        let mut segments_loudness_start: Vec<u32> = Vec::new();
        let mut segments_loudness_max_time: Vec<u32> = Vec::new();
        let mut segments_loudness_max: Vec<u32> = Vec::new();
        let mut segments_pitches: Vec<Vec<u32>> = Vec::new();
        let mut segments_timbre: Vec<Vec<u32>> = Vec::new();
        let mut j: usize = 0;
        while segments.len() > 0
            invariant
                j + segments@.len() == segments_in.len(),
                segments@ == segments_in.skip(j as int),
                segments_duration@.len() == j,
                segments_duration_confidence@.len() == j,
                segments_loudness_start@.len() == j,
                segments_loudness_max_time@.len() == j,
                segments_loudness_max@.len() == j,
                segments_pitches@.len() == j,
                segments_timbre@.len() == j,
                forall|k: int|
                    0 <= k < j ==> {
                        let s = #[trigger] segments_in[k];
                        &&& s.pitches is Some
                        &&& s.timbre is Some
                        &&& segments_duration@[k] == s.duration
                        &&& segments_duration_confidence@[k] == s.duration_confidence
                        &&& segments_loudness_start@[k] == s.loudness_start
                        &&& segments_loudness_max_time@[k] == s.loudness_max_time
                        &&& segments_loudness_max@[k] == s.loudness_max
                        &&& segments_pitches@[k] == s.pitches->Some_0
                        &&& segments_timbre@[k] == s.timbre->Some_0
                    },
            decreases segments@.len(),
        {
            let seg = segments.remove(0);
            proof {
                assert(seg == segments_in[j as int]);
                assert(segments_in.skip(j as int).remove(0) =~= segments_in.skip(j as int + 1));
            }
            let p = match seg.pitches {
                Some(p) => p,
                None => {
                    assert(!analysis_complete(segments_in));
                    return Err(FlattenError::MissingAnalysisField);
                },
            };
            let t = match seg.timbre {
                Some(t) => t,
                None => {
                    assert(!analysis_complete(segments_in));
                    return Err(FlattenError::MissingAnalysisField);
                },
            };
            segments_duration.push(seg.duration);
            segments_duration_confidence.push(seg.duration_confidence);
            segments_loudness_start.push(seg.loudness_start);
            segments_loudness_max_time.push(seg.loudness_max_time);
            segments_loudness_max.push(seg.loudness_max);
            segments_pitches.push(p);
            segments_timbre.push(t);
            j = j + 1;
        }
        proof {
            assert(analysis_complete(segments_in));
            assert(segments_duration@ =~= segments_in.map_values(|s: SegmentData| s.duration));
            assert(segments_duration_confidence@ =~= segments_in.map_values(
                |s: SegmentData| s.duration_confidence,
            ));
            assert(segments_loudness_start@ =~= segments_in.map_values(
                |s: SegmentData| s.loudness_start,
            ));
            assert(segments_loudness_max_time@ =~= segments_in.map_values(
                |s: SegmentData| s.loudness_max_time,
            ));
            assert(segments_loudness_max@ =~= segments_in.map_values(
                |s: SegmentData| s.loudness_max,
            ));
        }

        let track = saved.track;
        let album_release_date = match track.album.release_date {
            Some(d) => convert_to_parsable_date(d),
            None => NO_DATE_SENTINEL,
        };
        let best_track = TrimmedTrack {
            track_name: track.name,
            added_at: saved.added_at,
            duration: analysis.track.duration,
            explicit: track.explicit,
            album_name: track.album.name,
            album_artists: track.album.artists,
            album_release_date,
            artists: track.artists,
            acousticness: features.acousticness,
            danceability: features.danceability,
            energy: features.energy,
            liveness: features.liveness,
            mode: convert_mode_to_int(features.mode),
            speechiness: features.speechiness,
            valence: features.valence,
            sections_duration,
            sections_confidence,
            sections_loudness,
            sections_tempo,
            sections_tempo_confidence,
            sections_key,
            sections_key_confidence,
            sections_mode,
            sections_mode_confidence,
            sections_time_signature,
            sections_time_signature_confidence,
            segments_duration,
            segments_duration_confidence,
            segments_loudness_start,
            segments_loudness_max_time,
            segments_loudness_max,
            segments_pitches,
            segments_timbre,
            end_of_fade_in: analysis.track.end_of_fade_in,
            start_of_fade_out: analysis.track.start_of_fade_out,
            loudness: analysis.track.loudness,
            tempo: analysis.track.tempo,
            tempo_confidence: analysis.track.tempo_confidence,
            time_signature: analysis.track.time_signature,
            time_signature_confidence: analysis.track.time_signature_confidence,
            key: analysis.track.key,
            key_confidence: analysis.track.key_confidence,
            mode_confidence: analysis.track.mode_confidence,
            codestring: analysis.track.codestring,
            code_version: analysis.track.code_version,
            echoprintstring: analysis.track.echoprintstring,
            echoprint_version: analysis.track.echoprint_version,
            synchstring: analysis.track.synchstring,
            synch_version: analysis.track.synch_version,
            rhythmstring: analysis.track.rhythmstring,
            rhythm_version: analysis.track.rhythm_version,
        };
        Ok(best_track)
    }
}

/// Law: flattening keeps the field counts.  A flattening of a track with S
/// sections and G segments has length S in every section-derived vector and
/// length G in every segment-derived vector, and each pitch and timbre row
/// keeps the width of the frame it came from.
pub proof fn lemma_flattening_field_counts(
    t: TrimmedTrack,
    saved: BetterSavedTrack,
    features: AudioFeaturesData,
    analysis: AudioAnalysisData,
)
    requires
        is_flattening(t, saved, features, analysis),
    ensures
        t.sections_duration@.len() == analysis.sections@.len(),
        t.sections_confidence@.len() == analysis.sections@.len(),
        t.sections_loudness@.len() == analysis.sections@.len(),
        t.sections_tempo@.len() == analysis.sections@.len(),
        t.sections_tempo_confidence@.len() == analysis.sections@.len(),
        t.sections_key@.len() == analysis.sections@.len(),
        t.sections_key_confidence@.len() == analysis.sections@.len(),
        t.sections_mode@.len() == analysis.sections@.len(),
        t.sections_mode_confidence@.len() == analysis.sections@.len(),
        t.sections_time_signature@.len() == analysis.sections@.len(),
        t.sections_time_signature_confidence@.len() == analysis.sections@.len(),
        t.segments_duration@.len() == analysis.segments@.len(),
        t.segments_duration_confidence@.len() == analysis.segments@.len(),
        t.segments_loudness_start@.len() == analysis.segments@.len(),
        t.segments_loudness_max_time@.len() == analysis.segments@.len(),
        t.segments_loudness_max@.len() == analysis.segments@.len(),
        t.segments_pitches@.len() == analysis.segments@.len(),
        t.segments_timbre@.len() == analysis.segments@.len(),
        forall|i: int|
            0 <= i < analysis.segments@.len() ==> t.segments_pitches@[i]@.len() == (
            #[trigger] analysis.segments@[i]).pitches->Some_0@.len(),
        forall|i: int|
            0 <= i < analysis.segments@.len() ==> t.segments_timbre@[i]@.len() == (
            #[trigger] analysis.segments@[i]).timbre->Some_0@.len(),
{
}

} // verus!
