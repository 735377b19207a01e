use playout_filter::chain::FilterType;
use playout_filter::config::{
    AdvancedConfig, FilterTemplates, IngestConfig, OutputConfig, OutputMode, PlayoutConfig,
    ProcessingConfig, TextConfig,
};
use playout_filter::filters::Filters;
use playout_filter::media::{AudioStream, Media, MediaProbe, ProcessUnit, VideoStream};
use playout_filter::merge::process_output_filters;
use playout_filter::orchestrate::{
    filter_chains, missing_audio_tracks, pinned_audio_disallowed,
};
use playout_filter::stages::{
    add_audio, audio_volume, extend_audio, extend_video, fade, overlay, pad, scale, setdar,
    split_filter,
};

fn templates() -> FilterTemplates {
    FilterTemplates {
        deinterlace: None,
        pad_video: None,
        fps: None,
        scale: None,
        set_dar: None,
        fade_in: None,
        fade_out: None,
        afade_in: None,
        afade_out: None,
        logo: None,
        overlay_logo_fade_in: None,
        overlay_logo_fade_out: None,
        overlay_logo_scale: None,
        overlay_logo: None,
        tpad: None,
        aevalsrc: None,
        apad: None,
        volume: None,
        split: None,
    }
}

fn base_config() -> PlayoutConfig {
    PlayoutConfig {
        advanced: AdvancedConfig { decoder_input_param: None, filter: templates() },
        processing: ProcessingConfig {
            audio_only: false,
            copy_audio: false,
            copy_video: false,
            width: 1024,
            height: 576,
            aspect_milli: 1778,
            fps_milli: 25000,
            add_logo: false,
            logo_path: String::new(),
            logo_present: false,
            logo_opacity_milli: 700,
            logo_scale: String::new(),
            logo_position: "W-w-12:12".to_string(),
            audio_tracks: 1,
            audio_track_index: -1,
            volume_milli: 1000,
            custom_vf: String::new(),
            custom_af: String::new(),
        },
        text: TextConfig { add_text: false, text_from_filename: false },
        output: OutputConfig { mode: OutputMode::Stream, output_count: 1, output_filter: None },
        ingest: IngestConfig { custom_vf: String::new(), custom_af: String::new() },
    }
}

fn base_media() -> Media {
    Media {
        unit: ProcessUnit::Decoder,
        seek_milli: 0,
        out_milli: 30000,
        duration_milli: 30000,
        duration_audio_milli: 0,
        category: String::new(),
        source: "clip.mp4".to_string(),
        audio: String::new(),
        audio_present: false,
        last_ad: false,
        next_ad: false,
        custom_vf: String::new(),
        custom_af: String::new(),
        probe: None,
    }
}

fn probe(aspect: &str, rate: &str, w: i64, h: i64) -> MediaProbe {
    MediaProbe {
        video: vec![VideoStream {
            width: Some(w),
            height: Some(h),
            aspect_ratio: Some(aspect.to_string()),
            frame_rate: rate.to_string(),
            field_order: Some("progressive".to_string()),
            duration_milli: Some(30000),
        }],
        audio: vec![AudioStream { duration_milli: Some(30000) }],
    }
}

#[test]
fn first_append_registers_label_and_map() {
    let mut f = Filters::new(base_config(), 0);
    f.add_filter("scale=1024:576", 0, FilterType::Video);
    assert_eq!(f.video_chain, "[0:v:0]scale=1024:576");
    assert_eq!(f.video_map, vec!["[vout0]".to_string()]);
    assert_eq!(f.output_map, vec!["-map".to_string(), "[vout0]".to_string()]);
}

#[test]
fn second_append_same_track_registers_nothing() {
    let mut f = Filters::new(base_config(), 0);
    f.add_filter("scale=1024:576", 0, FilterType::Video);
    f.add_filter("fade=in:st=0:d=0.5", 0, FilterType::Video);
    assert_eq!(f.video_chain, "[0:v:0]scale=1024:576,fade=in:st=0:d=0.5");
    assert_eq!(f.video_map.len(), 1);
    assert_eq!(f.output_map.len(), 2);
}

#[test]
fn track_switch_closes_previous_chain() {
    let mut f = Filters::new(base_config(), 0);
    f.add_filter("anull", 0, FilterType::Audio);
    f.add_filter("anull", 1, FilterType::Audio);
    assert_eq!(f.audio_chain, "[0:a:0]anull[aout0];[0:a:1]anull");
    assert_eq!(
        f.output_map,
        vec![
            "-map".to_string(),
            "[aout0]".to_string(),
            "-map".to_string(),
            "[aout1]".to_string()
        ]
    );
}

#[test]
fn source_generator_gets_no_input_selector() {
    let mut f = Filters::new(base_config(), 0);
    f.add_filter("aevalsrc=0:channel_layout=stereo:duration=30:sample_rate=48000", 0, FilterType::Audio);
    assert!(f.audio_chain.starts_with("aevalsrc=0"));
}

#[test]
fn overlay_append_relabels_main_chain() {
    let mut f = Filters::new(base_config(), 0);
    f.add_filter("null", 0, FilterType::Video);
    f.add_filter("overlay=12:12:shortest=1", 0, FilterType::Video);
    assert_eq!(f.video_chain, "[0:v:0]null[l];[v][l]overlay=12:12:shortest=1");
}

#[test]
fn cmd_closes_open_chain_with_label() {
    let mut f = Filters::new(base_config(), 0);
    f.add_filter("scale=1024:576", 0, FilterType::Video);
    let cmd = f.cmd();
    assert_eq!(
        cmd,
        vec!["-filter_complex".to_string(), "[0:v:0]scale=1024:576[vout0]".to_string()]
    );
}

#[test]
fn cmd_empty_when_untouched() {
    let mut f = Filters::new(base_config(), 0);
    let cmd = f.cmd();
    assert!(cmd.is_empty());
}

#[test]
fn cmd_joins_video_and_audio_chains() {
    let mut f = Filters::new(base_config(), 0);
    f.add_filter("null", 0, FilterType::Video);
    f.add_filter("anull", 0, FilterType::Audio);
    let cmd = f.cmd();
    assert_eq!(cmd[1], "[0:v:0]null[vout0];[0:a:0]anull[aout0]");
}

#[test]
fn map_adds_default_video_when_untouched() {
    let mut f = Filters::new(base_config(), 0);
    let m = f.map();
    assert_eq!(
        m,
        vec![
            "-map".to_string(),
            "0:v".to_string(),
            "-map".to_string(),
            "0:a:0".to_string()
        ]
    );
}

#[test]
fn map_no_default_video_when_audio_only() {
    let mut cfg = base_config();
    cfg.processing.audio_only = true;
    let mut f = Filters::new(cfg, 0);
    let m = f.map();
    assert_eq!(m, vec!["-map".to_string(), "0:a:0".to_string()]);
}

#[test]
fn map_defaults_respect_audio_position() {
    let mut cfg = base_config();
    cfg.processing.audio_tracks = 2;
    let mut f = Filters::new(cfg, 1);
    let m = f.map();
    assert_eq!(
        m,
        vec![
            "-map".to_string(),
            "0:v".to_string(),
            "-map".to_string(),
            "1:a:0".to_string(),
            "-map".to_string(),
            "1:a:1".to_string()
        ]
    );
}

#[test]
fn pad_and_setdar_for_narrow_source() {
    // source aspect 4:3 against a 16:9 target
    let cfg = base_config();
    let mut f = Filters::new(cfg.clone(), 0);
    pad(&cfg, &mut f, 1333);
    setdar(&cfg, &mut f, 1333);
    assert!(f.video_chain.contains("pad='ih*16/9:ih:(ow-iw)/2:(oh-ih)/2'"));
    assert!(f.video_chain.contains("setdar=dar=1.778"));
}

#[test]
fn no_pad_when_aspect_close() {
    let cfg = base_config();
    let mut f = Filters::new(cfg.clone(), 0);
    pad(&cfg, &mut f, 1778);
    setdar(&cfg, &mut f, 1790);
    assert!(f.video_chain.is_empty());
}

#[test]
fn scale_appends_noop_when_no_change_needed() {
    let cfg = base_config();
    let mut f = Filters::new(cfg.clone(), 0);
    scale(&cfg, &mut f, Some(1024), Some(576), );
    assert_eq!(f.video_chain, "[0:v:0]null");
}

#[test]
fn scale_converts_differing_dimensions() {
    let cfg = base_config();
    let mut f = Filters::new(cfg.clone(), 0);
    scale(&cfg, &mut f, Some(1920), Some(1080));
    assert_eq!(f.video_chain, "[0:v:0]scale=1024:576");
}

#[test]
fn fade_in_present_with_seek() {
    let cfg = base_config();
    let mut node = base_media();
    node.seek_milli = 2000;
    let mut f = Filters::new(cfg.clone(), 0);
    fade(&cfg, &mut f, &node, 0, FilterType::Video);
    assert!(f.video_chain.contains("fade=in"));
}

#[test]
fn fade_in_absent_without_seek_for_file_playback() {
    let cfg = base_config();
    let node = base_media();
    let mut f = Filters::new(cfg.clone(), 0);
    fade(&cfg, &mut f, &node, 0, FilterType::Video);
    assert!(!f.video_chain.contains("fade=in"));
}

#[test]
fn fade_out_ends_at_remaining_span() {
    let cfg = base_config();
    let mut node = base_media();
    node.out_milli = 25000;
    let mut f = Filters::new(cfg.clone(), 0);
    fade(&cfg, &mut f, &node, 0, FilterType::Video);
    assert!(f.video_chain.contains("fade=out:st=24:d=1.0"));
}

#[test]
fn logo_fade_in_after_ad_block() {
    let mut cfg = base_config();
    cfg.processing.add_logo = true;
    cfg.processing.logo_present = true;
    cfg.processing.logo_path = "logo.png".to_string();
    let mut node = base_media();
    node.last_ad = true;
    let mut f = Filters::new(cfg.clone(), 0);
    f.add_filter("null", 0, FilterType::Video);
    overlay(&cfg, &mut f, &node);
    assert!(f.video_chain.contains("fade=in:st=0:d=1.0:alpha=1"));
    assert!(!f.video_chain.contains("fade=out"));
}

#[test]
fn no_logo_for_advertisement() {
    let mut cfg = base_config();
    cfg.processing.add_logo = true;
    cfg.processing.logo_present = true;
    cfg.processing.logo_path = "logo.png".to_string();
    let mut node = base_media();
    node.category = "advertisement".to_string();
    let mut f = Filters::new(cfg.clone(), 0);
    f.add_filter("null", 0, FilterType::Video);
    overlay(&cfg, &mut f, &node);
    assert!(!f.video_chain.contains("movie="));
}

#[test]
fn logo_path_colons_escaped() {
    let mut cfg = base_config();
    cfg.processing.add_logo = true;
    cfg.processing.logo_present = true;
    cfg.processing.logo_path = "c:\\media\\logo.png".to_string();
    let node = base_media();
    let mut f = Filters::new(cfg.clone(), 0);
    f.add_filter("null", 0, FilterType::Video);
    overlay(&cfg, &mut f, &node);
    assert!(f.video_chain.contains("movie=c\\\\:/media/logo.png:loop=0"));
}

#[test]
fn split_produces_three_labelled_outputs() {
    let mut cfg = base_config();
    cfg.output.output_count = 3;
    let mut f = Filters::new(cfg.clone(), 0);
    f.add_filter("null", 0, FilterType::Video);
    split_filter(&cfg, &mut f, 0, FilterType::Video);
    assert!(f.video_chain.contains("split=3[vout_0_0][vout_0_1][vout_0_2]"));
    assert_eq!(f.video_out_link.len(), 3);
}

#[test]
fn no_split_for_single_output() {
    let cfg = base_config();
    let mut f = Filters::new(cfg.clone(), 0);
    f.add_filter("null", 0, FilterType::Video);
    split_filter(&cfg, &mut f, 0, FilterType::Video);
    assert!(!f.video_chain.contains("split"));
}

#[test]
fn extend_video_pads_short_stream() {
    let cfg = base_config();
    let mut node = base_media();
    let mut p = probe("16:9", "25/1", 1024, 576);
    p.video[0].duration_milli = Some(20000);
    node.probe = Some(p);
    let mut f = Filters::new(cfg.clone(), 0);
    extend_video(&cfg, &mut f, &node);
    assert_eq!(f.video_chain, "[0:v:0]tpad=stop_mode=add:stop_duration=10");
}

#[test]
fn extend_audio_pads_short_stream() {
    let cfg = base_config();
    let mut node = base_media();
    let mut p = probe("16:9", "25/1", 1024, 576);
    p.audio[0].duration_milli = Some(20000);
    node.probe = Some(p);
    let mut f = Filters::new(cfg.clone(), 0);
    extend_audio(&cfg, &mut f, &node, 0);
    assert_eq!(f.audio_chain, "[0:a:0]apad=whole_dur=30");
}

#[test]
fn synthesized_audio_covers_span() {
    let cfg = base_config();
    let mut node = base_media();
    node.seek_milli = 500;
    let mut f = Filters::new(cfg.clone(), 0);
    add_audio(&cfg, &mut f, &node, 0);
    assert_eq!(
        f.audio_chain,
        "aevalsrc=0:channel_layout=stereo:duration=29.5:sample_rate=48000"
    );
}

#[test]
fn volume_scaling_when_not_unity() {
    let mut cfg = base_config();
    cfg.processing.volume_milli = 500;
    let mut f = Filters::new(cfg.clone(), 0);
    audio_volume(&cfg, &mut f, 0);
    assert_eq!(f.audio_chain, "[0:a:0]volume=0.5");
}

#[test]
fn hardware_bridge_on_software_filter_in_hw_context() {
    let mut cfg = base_config();
    cfg.advanced.decoder_input_param = Some("-hwaccel cuda -hwaccel_output_format cuda".to_string());
    let mut f = Filters::new(cfg, 0);
    f.add_filter("scale=1024:576", 0, FilterType::Video);
    assert_eq!(f.video_chain, "[0:v:0]hwdownload,format=nv12,scale=1024:576");
}

#[test]
fn upload_bridge_before_hardware_filter() {
    let mut cfg = base_config();
    cfg.advanced.decoder_input_param = Some("-hwaccel cuda".to_string());
    let mut f = Filters::new(cfg, 0);
    f.add_filter("scale=1024:576", 0, FilterType::Video);
    f.add_filter("scale_cuda=1024:576", 0, FilterType::Video);
    assert_eq!(
        f.video_chain,
        "[0:v:0]hwdownload,format=nv12,scale=1024:576,hwupload_cuda,scale_cuda=1024:576"
    );
}

#[test]
fn filter_chains_full_file_playback() {
    let cfg = base_config();
    let mut node = base_media();
    node.probe = Some(probe("4:3", "29.97/1", 640, 480));
    let f = filter_chains(&cfg, &node, &None);
    assert!(f.video_chain.contains("pad="));
    assert!(f.video_chain.contains("fps=25"));
    assert!(f.video_chain.contains("scale=1024:576"));
    assert!(f.video_chain.contains("setdar=dar=1.778"));
    assert!(f.audio_chain.contains("anull"));
}

#[test]
fn filter_chains_without_probe_uses_neutral_pair() {
    let cfg = base_config();
    let node = base_media();
    let f = filter_chains(&cfg, &node, &None);
    assert!(f.video_chain.starts_with("[0:v:0]fps=25,null"));
}

#[test]
fn filter_chains_encoder_only_splits() {
    let mut cfg = base_config();
    cfg.output.output_count = 2;
    let mut node = base_media();
    node.unit = ProcessUnit::Encoder;
    let f = filter_chains(&cfg, &node, &None);
    assert!(f.video_chain.contains("split=2"));
    assert!(f.audio_chain.is_empty());
}

#[test]
fn filter_chains_synthesizes_missing_audio() {
    let cfg = base_config();
    let mut node = base_media();
    let mut p = probe("16:9", "25/1", 1024, 576);
    p.audio.clear();
    node.probe = Some(p);
    let f = filter_chains(&cfg, &node, &None);
    assert!(f.audio_chain.starts_with("aevalsrc=0"));
    let missing = missing_audio_tracks(&cfg, &node);
    assert_eq!(missing, vec![0]);
}

#[test]
fn pinned_track_with_copy_audio_is_flagged() {
    let mut cfg = base_config();
    cfg.processing.copy_audio = true;
    cfg.processing.audio_track_index = 1;
    assert!(pinned_audio_disallowed(&cfg));
    cfg.processing.audio_track_index = -1;
    assert!(!pinned_audio_disallowed(&cfg));
}

#[test]
fn merge_splices_chains_into_template() {
    let mut cfg = base_config();
    cfg.output.mode = OutputMode::HLS;
    let mut f = Filters::new(cfg.clone(), 0);
    f.add_filter("null", 0, FilterType::Video);
    f.add_filter("anull", 0, FilterType::Audio);
    process_output_filters(&cfg, &mut f, "[0:v]drawtext=text=x[v];[0:a:0]volume=2[a]");
    assert_eq!(
        f.output_chain,
        vec![
            "-filter_complex".to_string(),
            "[0:v:0]null,drawtext=text=x[v];[0:a:0]anull,volume=2[a]".to_string()
        ]
    );
    let cmd = f.cmd();
    assert_eq!(cmd[1], "[0:v:0]null,drawtext=text=x[v];[0:a:0]anull,volume=2[a]");
}

#[test]
fn merge_without_placeholder_keeps_template() {
    let mut cfg = base_config();
    cfg.output.mode = OutputMode::HLS;
    let mut f = Filters::new(cfg.clone(), 0);
    f.add_filter("null", 0, FilterType::Video);
    process_output_filters(&cfg, &mut f, "[v0]drawtext=text=x[v]");
    assert_eq!(f.output_chain[1], "[v0]drawtext=text=x[v]");
}

#[test]
fn merge_skips_audio_tracks_beyond_built_pieces() {
    let mut cfg = base_config();
    cfg.output.mode = OutputMode::HLS;
    cfg.processing.audio_tracks = 2;
    let mut f = Filters::new(cfg.clone(), 0);
    f.add_filter("anull", 0, FilterType::Audio);
    process_output_filters(&cfg, &mut f, "[0:a:0]volume=2[a];[0:a:1]volume=2[b]");
    assert_eq!(f.output_chain[1], "[0:a:0]anull,volume=2[a];[0:a:1]volume=2[b]");
}

#[test]
fn merge_keeps_template_outside_streaming() {
    let cfg = base_config();
    let mut f = Filters::new(cfg.clone(), 0);
    f.add_filter("null", 0, FilterType::Video);
    process_output_filters(&cfg, &mut f, "[0:v]drawtext=text=x[v]");
    assert_eq!(f.output_chain[1], "[0:v]drawtext=text=x[v]");
}

#[test]
fn drawtext_appended_for_encoder() {
    let mut cfg = base_config();
    cfg.text.add_text = true;
    let mut node = base_media();
    node.unit = ProcessUnit::Encoder;
    let f = filter_chains(&cfg, &node, &Some("drawtext=text=hello".to_string()));
    assert!(f.video_chain.contains("drawtext=text=hello"));
}

#[test]
fn deinterlace_for_interlaced_source() {
    let cfg = base_config();
    let mut node = base_media();
    let mut p = probe("16:9", "25/1", 1024, 576);
    p.video[0].field_order = Some("tb".to_string());
    node.probe = Some(p);
    let f = filter_chains(&cfg, &node, &None);
    assert!(f.video_chain.contains("yadif=0:-1:0"));
}

#[test]
fn separate_audio_file_moves_audio_position() {
    let cfg = base_config();
    let mut node = base_media();
    node.probe = Some(probe("16:9", "25/1", 1024, 576));
    node.audio = "clip.wav".to_string();
    node.audio_present = true;
    let f = filter_chains(&cfg, &node, &None);
    assert!(f.audio_chain.starts_with("[1:a:0]"));
}

#[test]
fn synthetic_color_source_moves_audio_position() {
    let cfg = base_config();
    let mut node = base_media();
    node.source = "color=c=#121212:size=1024x576".to_string();
    let f = filter_chains(&cfg, &node, &None);
    // a synthetic test source gets neither synthesized audio nor a probe
    assert!(f.audio_chain.starts_with("[1:a:0]anull"));
}

#[test]
fn ingest_items_use_ingest_custom_filters() {
    let mut cfg = base_config();
    cfg.ingest.custom_vf = "eq=brightness=0.1".to_string();
    cfg.processing.custom_vf = "hue=s=0".to_string();
    let mut node = base_media();
    node.unit = ProcessUnit::Ingest;
    node.probe = Some(probe("16:9", "25/1", 1024, 576));
    let f = filter_chains(&cfg, &node, &None);
    assert!(f.video_chain.contains("eq=brightness=0.1"));
    assert!(!f.video_chain.contains("hue=s=0"));
}

#[test]
fn copy_video_skips_video_pipeline() {
    let mut cfg = base_config();
    cfg.processing.copy_video = true;
    let mut node = base_media();
    node.probe = Some(probe("4:3", "25/1", 640, 480));
    let f = filter_chains(&cfg, &node, &None);
    assert!(f.video_chain.is_empty());
    assert!(f.audio_chain.contains("anull"));
}

#[test]
fn copy_audio_skips_audio_pipeline() {
    let mut cfg = base_config();
    cfg.processing.copy_audio = true;
    let node = base_media();
    let f = filter_chains(&cfg, &node, &None);
    assert!(f.audio_chain.is_empty());
}

#[test]
fn pinned_audio_track_runs_alone() {
    let mut cfg = base_config();
    cfg.processing.audio_tracks = 2;
    cfg.processing.audio_track_index = 1;
    let mut node = base_media();
    let mut p = probe("16:9", "25/1", 1024, 576);
    p.audio.push(AudioStream { duration_milli: Some(30000) });
    node.probe = Some(p);
    let f = filter_chains(&cfg, &node, &None);
    assert!(f.audio_chain.starts_with("[0:a:1]"));
    assert!(!f.audio_chain.contains("[0:a:0]"));
}

#[test]
fn streaming_override_merges_through_orchestrator() {
    let mut cfg = base_config();
    cfg.output.mode = OutputMode::HLS;
    cfg.output.output_filter = Some("[0:v]drawbox=w=10[v]".to_string());
    let node = base_media();
    let mut f = filter_chains(&cfg, &node, &None);
    let cmd = f.cmd();
    assert_eq!(cmd[0], "-filter_complex");
    assert!(cmd[1].starts_with("[0:v:0]fps=25,null,drawbox=w=10[v]"));
}

#[test]
fn encoder_override_replaces_assembly() {
    let mut cfg = base_config();
    cfg.output.output_filter = Some("[0:v]null[v]".to_string());
    cfg.text.add_text = true;
    let mut node = base_media();
    node.unit = ProcessUnit::Encoder;
    let mut f = filter_chains(&cfg, &node, &Some("drawtext=text=t".to_string()));
    let cmd = f.cmd();
    // complex text overlay is active, so the built chain is spliced in
    assert_eq!(cmd[1], "[0:v:0]drawtext=text=t,null[v]");
}

#[test]
fn audio_fade_uses_audio_variants() {
    let cfg = base_config();
    let mut node = base_media();
    node.seek_milli = 1500;
    node.out_milli = 20000;
    let mut f = Filters::new(cfg.clone(), 0);
    fade(&cfg, &mut f, &node, 0, FilterType::Audio);
    assert!(f.audio_chain.contains("afade=in:st=0:d=0.5"));
    assert!(f.audio_chain.contains("afade=out:st=17.5:d=1.0"));
}

#[test]
fn audio_fade_out_when_audio_duration_differs() {
    let cfg = base_config();
    let mut node = base_media();
    node.duration_audio_milli = 29000;
    let mut f = Filters::new(cfg.clone(), 0);
    fade(&cfg, &mut f, &node, 0, FilterType::Audio);
    assert!(!f.audio_chain.contains("afade=in"));
    assert!(f.audio_chain.contains("afade=out"));
}

#[test]
fn fade_override_templates_take_precedence() {
    let mut cfg = base_config();
    cfg.advanced.filter.fade_in = Some("{}fade=in:st=0:d=2.0".to_string());
    let mut node = base_media();
    node.seek_milli = 1000;
    let mut f = Filters::new(cfg.clone(), 0);
    fade(&cfg, &mut f, &node, 0, FilterType::Video);
    assert!(f.video_chain.contains("fade=in:st=0:d=2.0"));
}

fn well_formed_chain(s: &str) -> bool {
    let mut inside = false;
    let mut prev_semi = false;
    for (i, c) in s.chars().enumerate() {
        match c {
            '[' => {
                if inside {
                    return false;
                }
                inside = true;
            },
            ']' => {
                if !inside {
                    return false;
                }
                inside = false;
            },
            ';' => {
                if prev_semi || i == 0 {
                    return false;
                }
            },
            _ => {},
        }
        prev_semi = c == ';';
    }
    !inside
}

#[test]
fn chains_stay_balanced_across_appends() {
    let mut cfg = base_config();
    cfg.processing.add_logo = true;
    cfg.processing.logo_present = true;
    cfg.processing.logo_path = "logo.png".to_string();
    cfg.processing.volume_milli = 800;
    cfg.output.output_count = 2;
    let mut node = base_media();
    node.seek_milli = 2000;
    node.out_milli = 25000;
    let mut p = probe("4:3", "30000/1001", 640, 480);
    p.audio.clear();
    node.probe = Some(p);
    let mut f = filter_chains(&cfg, &node, &None);
    split_filter(&cfg, &mut f, 0, FilterType::Video);
    let cmd = f.cmd();
    assert_eq!(cmd[0], "-filter_complex");
    assert!(well_formed_chain(&cmd[1]), "ill-formed graph: {}", cmd[1]);
}

#[test]
fn override_template_fills_placeholders() {
    let mut cfg = base_config();
    cfg.advanced.filter.scale = Some("scale={}:{}:flags=lanczos".to_string());
    let mut f = Filters::new(cfg.clone(), 0);
    scale(&cfg, &mut f, Some(1920), Some(1080));
    assert_eq!(f.video_chain, "[0:v:0]scale=1024:576:flags=lanczos");
}
