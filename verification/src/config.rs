//! Configuration snapshot consumed by the filter-graph engine.  The engine
//! never mutates it.
//!
//! Fractional configuration quantities (aspect ratio, frame rate, volume,
//! logo opacity) are held in thousandths, so that every comparison and every
//! rendered decimal is exact integer arithmetic.

use vstd::prelude::*;

verus! {

/// Output delivery mode of the surrounding playout service.
#[derive(Clone, Copy, Debug, PartialEq, Eq, Structural)]
pub enum OutputMode {
    Desktop,
    HLS,
    Null,
    Stream,
}

/// User-supplied override templates for the generated filter expressions.
/// `{}` placeholders are filled in argument order.
#[derive(Clone, Debug)]
pub struct FilterTemplates {
    pub deinterlace: Option<String>,
    pub pad_video: Option<String>,
    pub fps: Option<String>,
    pub scale: Option<String>,
    pub set_dar: Option<String>,
    pub fade_in: Option<String>,
    pub fade_out: Option<String>,
    pub afade_in: Option<String>,
    pub afade_out: Option<String>,
    pub logo: Option<String>,
    pub overlay_logo_fade_in: Option<String>,
    pub overlay_logo_fade_out: Option<String>,
    pub overlay_logo_scale: Option<String>,
    pub overlay_logo: Option<String>,
    pub tpad: Option<String>,
    pub aevalsrc: Option<String>,
    pub apad: Option<String>,
    pub volume: Option<String>,
    pub split: Option<String>,
}

/// Advanced decoder settings; the input parameter string decides whether a
/// hardware context exists and which upload variant to use.
#[derive(Clone, Debug)]
pub struct AdvancedConfig {
    pub decoder_input_param: Option<String>,
    pub filter: FilterTemplates,
}

/// Target geometry and per-stream processing options.
#[derive(Clone, Debug)]
pub struct ProcessingConfig {
    pub audio_only: bool,
    pub copy_audio: bool,
    pub copy_video: bool,
    pub width: i64,
    pub height: i64,
    /// Target display aspect ratio, in thousandths.
    pub aspect_milli: i64,
    /// Target frame rate, in thousandths of frames per second.
    pub fps_milli: i64,
    pub add_logo: bool,
    pub logo_path: String,
    /// Whether the logo file exists; the caller checks the file system.
    pub logo_present: bool,
    /// Logo opacity, in thousandths.
    pub logo_opacity_milli: i64,
    pub logo_scale: String,
    pub logo_position: String,
    pub audio_tracks: i32,
    /// A single pinned audio track, or -1 for all configured tracks.
    pub audio_track_index: i32,
    /// Volume factor, in thousandths; 1000 means unchanged.
    pub volume_milli: i64,
    /// Per-channel custom filters, already split by stream type.
    pub custom_vf: String,
    pub custom_af: String,
}

/// Text-overlay options; the rendered filter text itself comes from an
/// external provider.
#[derive(Clone, Debug)]
pub struct TextConfig {
    pub add_text: bool,
    pub text_from_filename: bool,
}

/// Output section: delivery mode, fan-out count and the optional custom
/// complex-filter template.
#[derive(Clone, Debug)]
pub struct OutputConfig {
    pub mode: OutputMode,
    pub output_count: i32,
    pub output_filter: Option<String>,
}

/// Custom filters applied while live-ingesting, already split by stream type.
#[derive(Clone, Debug)]
pub struct IngestConfig {
    pub custom_vf: String,
    pub custom_af: String,
}

/// The full configuration snapshot the engine reads.
#[derive(Clone, Debug)]
pub struct PlayoutConfig {
    pub advanced: AdvancedConfig,
    pub processing: ProcessingConfig,
    pub text: TextConfig,
    pub output: OutputConfig,
    pub ingest: IngestConfig,
}

/// An exact copy of an optional string.
fn dup_opt(o: &Option<String>) -> (r: Option<String>)
    ensures
        r == *o,
{
    match o {
        Some(s) => Some(s.clone()),
        None => None,
    }
}

impl FilterTemplates {
    /// An exact copy.
    pub fn duplicate(&self) -> (r: FilterTemplates)
        ensures
            r == *self,
    {
        FilterTemplates {
            deinterlace: dup_opt(&self.deinterlace),
            pad_video: dup_opt(&self.pad_video),
            fps: dup_opt(&self.fps),
            scale: dup_opt(&self.scale),
            set_dar: dup_opt(&self.set_dar),
            fade_in: dup_opt(&self.fade_in),
            fade_out: dup_opt(&self.fade_out),
            afade_in: dup_opt(&self.afade_in),
            afade_out: dup_opt(&self.afade_out),
            logo: dup_opt(&self.logo),
            overlay_logo_fade_in: dup_opt(&self.overlay_logo_fade_in),
            overlay_logo_fade_out: dup_opt(&self.overlay_logo_fade_out),
            overlay_logo_scale: dup_opt(&self.overlay_logo_scale),
            overlay_logo: dup_opt(&self.overlay_logo),
            tpad: dup_opt(&self.tpad),
            aevalsrc: dup_opt(&self.aevalsrc),
            apad: dup_opt(&self.apad),
            volume: dup_opt(&self.volume),
            split: dup_opt(&self.split),
        }
    }
}

impl PlayoutConfig {
    /// An exact copy.
    pub fn duplicate(&self) -> (r: PlayoutConfig)
        ensures
            r == *self,
    {
        PlayoutConfig {
            advanced: AdvancedConfig {
                decoder_input_param: dup_opt(&self.advanced.decoder_input_param),
                filter: self.advanced.filter.duplicate(),
            },
            processing: ProcessingConfig {
                audio_only: self.processing.audio_only,
                copy_audio: self.processing.copy_audio,
                copy_video: self.processing.copy_video,
                width: self.processing.width,
                height: self.processing.height,
                aspect_milli: self.processing.aspect_milli,
                fps_milli: self.processing.fps_milli,
                add_logo: self.processing.add_logo,
                logo_path: self.processing.logo_path.clone(),
                logo_present: self.processing.logo_present,
                logo_opacity_milli: self.processing.logo_opacity_milli,
                logo_scale: self.processing.logo_scale.clone(),
                logo_position: self.processing.logo_position.clone(),
                audio_tracks: self.processing.audio_tracks,
                audio_track_index: self.processing.audio_track_index,
                volume_milli: self.processing.volume_milli,
                custom_vf: self.processing.custom_vf.clone(),
                custom_af: self.processing.custom_af.clone(),
            },
            text: TextConfig {
                add_text: self.text.add_text,
                text_from_filename: self.text.text_from_filename,
            },
            output: OutputConfig {
                mode: self.output.mode,
                output_count: self.output.output_count,
                output_filter: dup_opt(&self.output.output_filter),
            },
            ingest: IngestConfig {
                custom_vf: self.ingest.custom_vf.clone(),
                custom_af: self.ingest.custom_af.clone(),
            },
        }
    }

    /// Numeric fields stay in ranges where the engine's arithmetic cannot
    /// overflow.
    pub open spec fn wf(&self) -> bool {
        &&& 0 <= self.processing.width <= 1_000_000_000
        &&& 0 <= self.processing.height <= 1_000_000_000
        &&& 0 <= self.processing.aspect_milli <= 1_000_000_000
        &&& 0 <= self.processing.fps_milli <= 1_000_000_000
        &&& 0 <= self.processing.logo_opacity_milli <= 1_000_000_000
        &&& 0 <= self.processing.volume_milli <= 1_000_000_000
        &&& 0 <= self.processing.audio_tracks <= 512
        &&& -1 <= self.processing.audio_track_index <= 512
        &&& 0 <= self.output.output_count <= 4096
    }
}

} // verus!
