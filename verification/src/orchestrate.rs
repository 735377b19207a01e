//! The orchestrator: sequences all effect stages for one media item
//! according to its role, and the diagnostics the sequencing emits.
//!
//! The text-overlay stage consumes an externally rendered drawtext
//! expression: the surrounding service awaits its text provider and hands
//! the finished expression in, so graph construction itself never suspends.

use vstd::prelude::*;
use crate::chain::{FilterType, FiltersModel, HalfModel};
use crate::config::{OutputMode, PlayoutConfig};
use crate::filters::{model_new, Filters};
use crate::media::{Media, ProcessUnit};
use crate::merge::{model_process_output_filters, process_output_filters};
use crate::parse::{calc_aspect, fps_calc, spec_calc_aspect, spec_fps_calc};
use crate::stages::{
    add_audio, audio_volume, custom, deinterlace, extend_audio, extend_video, fade, fps,
    model_add_audio, model_audio_volume, model_custom, model_deinterlace, model_extend_audio,
    model_extend_video, model_fade, model_fps, model_overlay, model_pad, model_scale,
    model_setdar, model_split_filter, overlay, pad, scale, setdar, split_filter,
};
use crate::text::{has_sub, str_has_sub};
use crate::chain::model_add_filter;

verus! {

/// Text stage: when the text flag is set and the mode asks for it, append
/// the externally rendered drawtext expression.  `None` stands for an
/// unavailable provider and appends nothing.
pub open spec fn model_add_text(
    cfg: PlayoutConfig,
    m: FiltersModel,
    node: Media,
    drawtext: Option<String>,
) -> FiltersModel {
    if cfg.text.add_text && (cfg.text.text_from_filename || cfg.output.mode == OutputMode::HLS
        || node.unit == ProcessUnit::Encoder) {
        match drawtext {
            Some(s) => model_add_filter(m, s@, 0, FilterType::Video),
            None => m,
        }
    } else {
        m
    }
}

/// Appends the externally rendered drawtext expression when the text stage
/// is active.
pub fn add_text(
    config: &PlayoutConfig,
    chain: &mut Filters,
    node: &Media,
    drawtext: &Option<String>,
)
    ensures
        final(chain)@ == model_add_text(*config, old(chain)@, *node, *drawtext),
{
    if config.text.add_text && (config.text.text_from_filename || matches!(
        config.output.mode,
        OutputMode::HLS,
    ) || matches!(node.unit, ProcessUnit::Encoder)) {
        match drawtext {
            Some(s) => {
                chain.add_filter(s.as_str(), 0, FilterType::Video);
            },
            None => {},
        }
    }
}

/// Track `i` has source audio: the probe reports a stream for it, or a
/// separate audio file exists.
pub open spec fn has_audio_track(node: Media, i: int) -> bool {
    (node.probe matches Some(p) && 0 <= i < p.audio@.len()) || node.audio_present
}

/// Silent audio is synthesized for track `i`: no source audio, ordinary file
/// playback, and not a synthetic test source.
pub open spec fn synthesizes_audio(node: Media, i: int) -> bool {
    !has_audio_track(node, i) && node.unit == ProcessUnit::Decoder && !has_sub(
        node.source@,
        "color=c="@,
    )
}

/// The audio pipeline of one track: extend or synthesize, the mandatory
/// neutral no-op that keeps the chain segment non-empty, fades, volume, and
/// the custom audio filters.
pub open spec fn model_audio_track(
    cfg: PlayoutConfig,
    node: Media,
    m: FiltersModel,
    i: int,
    proc_af: Seq<char>,
    list_af: Seq<char>,
) -> FiltersModel {
    let m1: FiltersModel = if has_audio_track(node, i) {
        model_extend_audio(cfg, m, node, i)
    } else if synthesizes_audio(node, i) {
        model_add_audio(cfg, m, node, i)
    } else {
        m
    };
    let m2 = model_add_filter(m1, "anull"@, i, FilterType::Audio);
    let m3 = model_fade(cfg, m2, node, i, FilterType::Audio);
    let m4 = model_audio_volume(cfg, m3, i);
    let m5 = model_custom(m4, proc_af, i, FilterType::Audio);
    model_custom(m5, list_af, i, FilterType::Audio)
}

/// The audio pipelines of tracks `i..n`, in order.
pub open spec fn model_audio_loop(
    cfg: PlayoutConfig,
    node: Media,
    m: FiltersModel,
    i: int,
    n: int,
    proc_af: Seq<char>,
    list_af: Seq<char>,
) -> FiltersModel
    decreases n - i,
{
    if i >= n {
        m
    } else {
        model_audio_loop(
            cfg,
            node,
            model_audio_track(cfg, node, m, i, proc_af, list_af),
            i + 1,
            n,
            proc_af,
            list_af,
        )
    }
}

/// All selected audio tracks: every configured track, or the single pinned
/// one.
pub open spec fn model_all_audio(
    cfg: PlayoutConfig,
    node: Media,
    m: FiltersModel,
    proc_af: Seq<char>,
    list_af: Seq<char>,
) -> FiltersModel {
    if cfg.processing.audio_track_index == -1 {
        model_audio_loop(cfg, node, m, 0, cfg.processing.audio_tracks as int, proc_af, list_af)
    } else {
        model_audio_track(cfg, node, m, cfg.processing.audio_track_index as int, proc_af, list_af)
    }
}

/// One append to the audio half never shrinks its chain.
proof fn lemma_audio_append_grows(m: FiltersModel, f: Seq<char>, track: int)
    ensures
        model_add_filter(m, f, track, FilterType::Audio).audio.chain.len() >= m.audio.chain.len()
            + f.len(),
{
    crate::stages::lemma_add_half_grows(m.audio, m.hw_context, m.cuda, f, track, FilterType::Audio);
}

/// The mandatory neutral no-op guarantees that every processed audio track
/// leaves a non-empty audio chain, whatever the configuration and item; this
/// keeps the downstream mapping and splitting well-formed.
pub proof fn lemma_audio_track_nonempty(
    cfg: PlayoutConfig,
    node: Media,
    m: FiltersModel,
    i: int,
    proc_af: Seq<char>,
    list_af: Seq<char>,
)
    ensures
        model_audio_track(cfg, node, m, i, proc_af, list_af).audio.chain.len() > 0,
{
    let m1: FiltersModel = if has_audio_track(node, i) {
        crate::stages::model_extend_audio(cfg, m, node, i)
    } else if synthesizes_audio(node, i) {
        crate::stages::model_add_audio(cfg, m, node, i)
    } else {
        m
    };
    let m2 = model_add_filter(m1, "anull"@, i, FilterType::Audio);
    assert("anull"@.len() == 5) by {
        reveal_strlit("anull");
    }
    lemma_audio_append_grows(m1, "anull"@, i);
    let m3 = crate::stages::model_fade(cfg, m2, node, i, FilterType::Audio);
    assert(m3.audio.chain.len() >= m2.audio.chain.len()) by {
        let m2a: FiltersModel = if node.seek_milli > 0 || node.unit == ProcessUnit::Ingest {
            model_add_filter(
                m2,
                crate::stages::fade_in_expr(cfg, FilterType::Audio),
                i,
                FilterType::Audio,
            )
        } else {
            m2
        };
        lemma_audio_append_grows(m2, crate::stages::fade_in_expr(cfg, FilterType::Audio), i);
        lemma_audio_append_grows(
            m2a,
            crate::stages::fade_out_expr(
                cfg,
                FilterType::Audio,
                node.out_milli - node.seek_milli - 1000,
            ),
            i,
        );
    }
    let m4 = crate::stages::model_audio_volume(cfg, m3, i);
    assert(m4.audio.chain.len() >= m3.audio.chain.len()) by {
        lemma_audio_append_grows(m3, crate::stages::volume_expr(cfg), i);
    }
    let m5 = crate::stages::model_custom(m4, proc_af, i, FilterType::Audio);
    assert(m5.audio.chain.len() >= m4.audio.chain.len()) by {
        lemma_audio_append_grows(m4, proc_af, i);
    }
    let m6 = crate::stages::model_custom(m5, list_af, i, FilterType::Audio);
    assert(m6.audio.chain.len() >= m5.audio.chain.len()) by {
        lemma_audio_append_grows(m5, list_af, i);
    }
}

/// Runs the audio pipeline of one track; afterwards the audio chain is never
/// empty, thanks to the mandatory neutral no-op.
fn audio_track(
    config: &PlayoutConfig,
    chain: &mut Filters,
    node: &Media,
    i: i32,
    proc_af: &str,
    list_af: &str,
)
    requires
        config.wf(),
        node.wf(),
        0 <= i,
    ensures
        final(chain)@ == model_audio_track(
            *config,
            *node,
            old(chain)@,
            i as int,
            proc_af@,
            list_af@,
        ),
        final(chain)@.audio.chain.len() > 0,
{
    proof {
        lemma_audio_track_nonempty(*config, *node, old(chain)@, i as int, proc_af@, list_af@);
    }
    let has = match &node.probe {
        Some(p) => (i as usize) < p.audio.len(),
        None => false,
    } || node.audio_present;
    proof {
        assert(has == has_audio_track(*node, i as int));
    }
    if has {
        extend_audio(config, chain, node, i);
    } else if matches!(node.unit, ProcessUnit::Decoder) && !str_has_sub(
        node.source.as_str(),
        "color=c=",
    ) {
        add_audio(config, chain, node, i);
    }
    chain.add_filter("anull", i, FilterType::Audio);
    fade(config, chain, node, i, FilterType::Audio);
    audio_volume(config, chain, i);
    custom(proc_af, chain, i, FilterType::Audio);
    custom(list_af, chain, i, FilterType::Audio);
}

/// A graph state with the audio half moved to input position `pos`.
pub open spec fn with_audio_pos(m: FiltersModel, pos: int) -> FiltersModel {
    FiltersModel { audio: HalfModel { pos: pos, ..m.audio }, ..m }
}

/// Tracks in `i..n` for which silent audio is synthesized.
pub open spec fn missing_in_range(node: Media, i: int, n: int) -> Seq<int>
    decreases n - i,
{
    if i >= n {
        Seq::empty()
    } else {
        (if synthesizes_audio(node, i) {
            seq![i]
        } else {
            Seq::<int>::empty()
        }) + missing_in_range(node, i + 1, n)
    }
}

/// The tracks the orchestrator compensates with synthesized audio; the
/// surrounding service reports each as a missing-audio warning.
pub open spec fn model_missing_audio(cfg: PlayoutConfig, node: Media) -> Seq<int> {
    if cfg.processing.copy_audio {
        Seq::empty()
    } else if cfg.processing.audio_track_index == -1 {
        missing_in_range(node, 0, cfg.processing.audio_tracks as int)
    } else if synthesizes_audio(node, cfg.processing.audio_track_index as int) {
        seq![cfg.processing.audio_track_index as int]
    } else {
        Seq::empty()
    }
}

/// Computes the tracks that will be compensated with synthesized audio.
pub fn missing_audio_tracks(config: &PlayoutConfig, node: &Media) -> (r: Vec<i32>)
    requires
        config.wf(),
    ensures
        r@.map_values(|x: i32| x as int) == model_missing_audio(*config, *node),
{
    let mut r: Vec<i32> = Vec::new();
    if config.processing.copy_audio {
        proof {
            assert(r@.map_values(|x: i32| x as int) =~= Seq::<int>::empty());
        }
        return r;
    }
    if config.processing.audio_track_index == -1 {
        let n = config.processing.audio_tracks;
        let mut i: i32 = 0;
        proof {
            assert(r@.map_values(|x: i32| x as int) + missing_in_range(*node, 0, n as int)
                =~= missing_in_range(*node, 0, n as int));
        }
        while i < n
            invariant
                0 <= i <= n,
                missing_in_range(*node, 0, n as int) == r@.map_values(|x: i32| x as int)
                    + missing_in_range(*node, i as int, n as int),
            decreases n - i,
        {
            if synthesizes_track(node, i) {
                let ghost before = r@;
                r.push(i);
                proof {
                    assert(r@.map_values(|x: i32| x as int) =~= before.map_values(
                        |x: i32| x as int,
                    ) + seq![i as int]);
                    assert((before.map_values(|x: i32| x as int) + seq![i as int])
                        + missing_in_range(*node, i + 1, n as int) =~= before.map_values(
                        |x: i32| x as int,
                    ) + (seq![i as int] + missing_in_range(*node, i + 1, n as int)));
                }
            } else {
                proof {
                    assert(Seq::<int>::empty() + missing_in_range(*node, i + 1, n as int)
                        =~= missing_in_range(*node, i + 1, n as int));
                }
            }
            i += 1;
        }
        proof {
            assert(missing_in_range(*node, n as int, n as int) =~= Seq::<int>::empty());
            assert(r@.map_values(|x: i32| x as int) + Seq::<int>::empty() =~= r@.map_values(
                |x: i32| x as int,
            ));
        }
    } else {
        if synthesizes_track(node, config.processing.audio_track_index) {
            r.push(config.processing.audio_track_index);
            proof {
                assert(r@.map_values(|x: i32| x as int) =~= seq![
                    config.processing.audio_track_index as int,
                ]);
            }
        } else {
            proof {
                assert(r@.map_values(|x: i32| x as int) =~= Seq::<int>::empty());
            }
        }
    }
    r
}

/// Decides whether silent audio is synthesized for one track.
fn synthesizes_track(node: &Media, i: i32) -> (r: bool)
    requires
        0 <= i,
    ensures
        r == synthesizes_audio(*node, i as int),
{
    let probed = match &node.probe {
        Some(p) => (i as usize) < p.audio.len(),
        None => false,
    };
    let has = probed || node.audio_present;
    let decoding = matches!(node.unit, ProcessUnit::Decoder);
    let synthetic = str_has_sub(node.source.as_str(), "color=c=");
    (!has) && decoding && (!synthetic)
}

/// A pinned audio track cannot be combined with audio copy mode; the
/// surrounding service reports this as an error and continues best-effort.
pub open spec fn pinned_track_disallowed(cfg: PlayoutConfig) -> bool {
    cfg.processing.copy_audio && cfg.processing.audio_track_index > -1
}

/// Tests the disallowed pinned-track/copy-audio combination.
pub fn pinned_audio_disallowed(config: &PlayoutConfig) -> (r: bool)
    ensures
        r == pinned_track_disallowed(*config),
{
    config.processing.copy_audio && config.processing.audio_track_index > -1
}

/// The full graph construction for one media item.
///
/// A continuous-encoder item gets only the text stage and the output merge
/// (or a bare split); any other item runs the probe-driven pipeline:
/// geometry when probe data exists (a neutral frame-rate and scale pair
/// otherwise), video extension, text, video fade, logo overlay, the custom
/// video filters, the per-track audio pipelines, and finally the output
/// merge when streaming with an override template.
pub open spec fn model_filter_chains(
    cfg: PlayoutConfig,
    node: Media,
    drawtext: Option<String>,
) -> FiltersModel {
    let m0 = model_new(&cfg, 0);
    let mc: FiltersModel = if has_sub(node.source@, "color=c="@) {
        with_audio_pos(m0, 1)
    } else {
        m0
    };
    if node.unit == ProcessUnit::Encoder {
        let m1: FiltersModel = if !cfg.processing.audio_only {
            model_add_text(cfg, mc, node, drawtext)
        } else {
            mc
        };
        match cfg.output.output_filter {
            Some(f) => model_process_output_filters(cfg, m1, f@),
            None => {
                if cfg.output.output_count > 1 && !cfg.processing.audio_only {
                    model_split_filter(cfg, m1, 0, FilterType::Video)
                } else {
                    m1
                }
            },
        }
    } else {
        let m2: FiltersModel = if !cfg.processing.audio_only && !cfg.processing.copy_video {
            let mv: FiltersModel = match node.probe {
                Some(p) => {
                    let mp: FiltersModel = if node.audio_present {
                        with_audio_pos(mc, 1)
                    } else {
                        mc
                    };
                    let mg: FiltersModel = if p.video@.len() > 0 {
                        let v = p.video@[0];
                        let aspect = spec_calc_aspect(&cfg, &v.aspect_ratio);
                        let rate = spec_fps_calc(v.frame_rate@, 1000);
                        let g1 = model_deinterlace(cfg, mp, v.field_order);
                        let g2 = model_pad(cfg, g1, aspect);
                        let g3 = model_fps(cfg, g2, rate);
                        let g4 = model_scale(cfg, g3, v.width, v.height);
                        model_setdar(cfg, g4, aspect)
                    } else {
                        mp
                    };
                    model_extend_video(cfg, mg, node)
                },
                None => {
                    let g1 = model_fps(cfg, mc, 0);
                    model_scale(cfg, g1, None, None)
                },
            };
            let t1 = model_add_text(cfg, mv, node, drawtext);
            let t2 = model_fade(cfg, t1, node, 0, FilterType::Video);
            model_overlay(cfg, t2, node)
        } else {
            mc
        };
        let proc_vf: Seq<char> = if node.unit == ProcessUnit::Ingest {
            cfg.ingest.custom_vf@
        } else {
            cfg.processing.custom_vf@
        };
        let proc_af: Seq<char> = if node.unit == ProcessUnit::Ingest {
            cfg.ingest.custom_af@
        } else {
            cfg.processing.custom_af@
        };
        let m3: FiltersModel = if !cfg.processing.copy_video {
            model_custom(
                model_custom(m2, proc_vf, 0, FilterType::Video),
                node.custom_vf@,
                0,
                FilterType::Video,
            )
        } else {
            m2
        };
        let m4: FiltersModel = if !cfg.processing.copy_audio {
            model_all_audio(cfg, node, m3, proc_af, node.custom_af@)
        } else {
            m3
        };
        if cfg.output.mode == OutputMode::HLS {
            match cfg.output.output_filter {
                Some(f) => model_process_output_filters(cfg, m4, f@),
                None => m4,
            }
        } else {
            m4
        }
    }
}

/// Builds the full graph state for one media item.  The drawtext expression
/// is rendered by an external provider and handed in by the caller.
pub fn filter_chains(
    config: &PlayoutConfig,
    node: &Media,
    drawtext: &Option<String>,
) -> (r: Filters)
    requires
        config.wf(),
        node.wf(),
    ensures
        r@ == model_filter_chains(*config, *node, *drawtext),
{
    let mut filters = Filters::new(config.duplicate(), 0);
    if str_has_sub(node.source.as_str(), "color=c=") {
        filters.audio_position = 1;
    }
    proof {
        assert(filters@ =~= (if has_sub(node.source@, "color=c="@) {
            with_audio_pos(model_new(config, 0), 1)
        } else {
            model_new(config, 0)
        }));
    }
    if matches!(node.unit, ProcessUnit::Encoder) {
        if !config.processing.audio_only {
            add_text(config, &mut filters, node, drawtext);
        }
        match &config.output.output_filter {
            Some(f) => {
                let f2 = f.clone();
                process_output_filters(config, &mut filters, f2.as_str());
            },
            None => {
                if config.output.output_count > 1 && !config.processing.audio_only {
                    split_filter(config, &mut filters, 0, FilterType::Video);
                }
            },
        }
        return filters;
    }
    let ghost mc = filters@;
    if !config.processing.audio_only && !config.processing.copy_video {
        match &node.probe {
            Some(probe) => {
                if node.audio_present {
                    filters.audio_position = 1;
                }
                proof {
                    assert(filters@ =~= (if node.audio_present {
                        with_audio_pos(mc, 1)
                    } else {
                        mc
                    }));
                }
                if probe.video.len() > 0 {
                    let v_stream = &probe.video[0];
                    let aspect = calc_aspect(config, &v_stream.aspect_ratio);
                    let frame_per_sec = fps_calc(v_stream.frame_rate.as_str(), 1000);
                    deinterlace(config, &mut filters, &v_stream.field_order);
                    pad(config, &mut filters, aspect);
                    fps(config, &mut filters, frame_per_sec);
                    scale(config, &mut filters, v_stream.width, v_stream.height);
                    setdar(config, &mut filters, aspect);
                }
                extend_video(config, &mut filters, node);
            },
            None => {
                fps(config, &mut filters, 0);
                scale(config, &mut filters, None, None);
            },
        }
        add_text(config, &mut filters, node, drawtext);
        fade(config, &mut filters, node, 0, FilterType::Video);
        overlay(config, &mut filters, node);
    }
    let proc_vf = if matches!(node.unit, ProcessUnit::Ingest) {
        config.ingest.custom_vf.clone()
    } else {
        config.processing.custom_vf.clone()
    };
    let proc_af = if matches!(node.unit, ProcessUnit::Ingest) {
        config.ingest.custom_af.clone()
    } else {
        config.processing.custom_af.clone()
    };
    if !config.processing.copy_video {
        custom(proc_vf.as_str(), &mut filters, 0, FilterType::Video);
        custom(node.custom_vf.as_str(), &mut filters, 0, FilterType::Video);
    }
    if !config.processing.copy_audio {
        let ghost m_pre = filters@;
        if config.processing.audio_track_index == -1 {
            let n = config.processing.audio_tracks;
            let mut i: i32 = 0;
            while i < n
                invariant
                    0 <= i <= n,
                    config.wf(),
                    node.wf(),
                    model_audio_loop(
                        *config,
                        *node,
                        m_pre,
                        0,
                        n as int,
                        proc_af@,
                        node.custom_af@,
                    ) == model_audio_loop(
                        *config,
                        *node,
                        filters@,
                        i as int,
                        n as int,
                        proc_af@,
                        node.custom_af@,
                    ),
                decreases n - i,
            {
                audio_track(config, &mut filters, node, i, proc_af.as_str(), node.custom_af.as_str());
                i += 1;
            }
        } else {
            audio_track(
                config,
                &mut filters,
                node,
                config.processing.audio_track_index,
                proc_af.as_str(),
                node.custom_af.as_str(),
            );
        }
    }
    if matches!(config.output.mode, OutputMode::HLS) {
        match &config.output.output_filter {
            Some(f) => {
                let f2 = f.clone();
                process_output_filters(config, &mut filters, f2.as_str());
            },
            None => {},
        }
    }
    filters
}

} // verus!
