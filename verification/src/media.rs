//! The media item the engine builds a graph for: timing fields, probed
//! stream descriptors and role flags.  An external prober fills these in
//! before the engine runs; the engine only reads them.
//!
//! Durations and offsets are held in milliseconds, so that the timing
//! comparisons and the rendered decimal seconds are exact integer
//! arithmetic.

use vstd::prelude::*;

verus! {

/// Processing context of a media item.
#[derive(Clone, Copy, Debug, PartialEq, Eq, Structural)]
pub enum ProcessUnit {
    /// Ordinary file playback.
    Decoder,
    /// Continuous encoder without a probe-driven pipeline.
    Encoder,
    /// Live ingest.
    Ingest,
}

/// Probed descriptor of one video stream.
#[derive(Clone, Debug)]
pub struct VideoStream {
    pub width: Option<i64>,
    pub height: Option<i64>,
    /// Aspect ratio as reported by the prober, e.g. `16:9`.
    pub aspect_ratio: Option<String>,
    /// Frame rate as reported by the prober, e.g. `25/1`.
    pub frame_rate: String,
    pub field_order: Option<String>,
    /// Stream duration in milliseconds.
    pub duration_milli: Option<i64>,
}

/// Probed descriptor of one audio stream.
#[derive(Clone, Debug)]
pub struct AudioStream {
    /// Stream duration in milliseconds.
    pub duration_milli: Option<i64>,
}

/// Probe results for one media item.
#[derive(Clone, Debug)]
pub struct MediaProbe {
    pub video: Vec<VideoStream>,
    pub audio: Vec<AudioStream>,
}

/// One playable item.
#[derive(Clone, Debug)]
pub struct Media {
    pub unit: ProcessUnit,
    /// Seek offset in milliseconds.
    pub seek_milli: i64,
    /// Out point in milliseconds.
    pub out_milli: i64,
    /// Total duration in milliseconds.
    pub duration_milli: i64,
    /// Separate audio duration in milliseconds; 0 when unknown.
    pub duration_audio_milli: i64,
    pub category: String,
    pub source: String,
    /// Path of a separate audio file, possibly empty.
    pub audio: String,
    /// Whether `audio` names an existing file; the caller checks the file
    /// system.
    pub audio_present: bool,
    /// The item ends an ad block.
    pub last_ad: bool,
    /// The item precedes an ad block.
    pub next_ad: bool,
    /// Per-item custom filters, already split by stream type.
    pub custom_vf: String,
    pub custom_af: String,
    pub probe: Option<MediaProbe>,
}

impl Media {
    /// Timing fields stay in ranges where the engine's arithmetic cannot
    /// overflow.
    pub open spec fn wf(&self) -> bool {
        &&& 0 <= self.seek_milli <= 1_000_000_000_000
        &&& 0 <= self.out_milli <= 1_000_000_000_000
        &&& 0 <= self.duration_milli <= 1_000_000_000_000
        &&& 0 <= self.duration_audio_milli <= 1_000_000_000_000
        &&& match self.probe {
            Some(ref p) => {
                &&& (forall|i: int|
                    0 <= i < p.video@.len() ==> match #[trigger] p.video@[i].duration_milli {
                        Some(d) => 0 <= d <= 1_000_000_000_000,
                        None => true,
                    })
                &&& (forall|i: int|
                    0 <= i < p.audio@.len() ==> match #[trigger] p.audio@[i].duration_milli {
                        Some(d) => 0 <= d <= 1_000_000_000_000,
                        None => true,
                    })
            },
            None => true,
        }
    }
}

} // verus!
