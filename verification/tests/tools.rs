use playout_filter::config::{
    AdvancedConfig, FilterTemplates, IngestConfig, OutputConfig, OutputMode, PlayoutConfig,
    ProcessingConfig, TextConfig,
};
use playout_filter::hw::{hw_download, hw_upload, is_hw, last_is_hw};
use playout_filter::parse::{calc_aspect, fps_calc, fraction, is_close, str_parse_milli};
use playout_filter::scan::str_trimmed;
use playout_filter::text::{custom_format, int_string, milli_string, str_replace_all};

fn plain_config() -> PlayoutConfig {
    PlayoutConfig {
        advanced: AdvancedConfig {
            decoder_input_param: None,
            filter: FilterTemplates {
                deinterlace: None,
                pad_video: None,
                fps: None,
                scale: None,
                set_dar: None,
                fade_in: None,
                fade_out: None,
                afade_in: None,
                afade_out: None,
                logo: None,
                overlay_logo_fade_in: None,
                overlay_logo_fade_out: None,
                overlay_logo_scale: None,
                overlay_logo: None,
                tpad: None,
                aevalsrc: None,
                apad: None,
                volume: None,
                split: None,
            },
        },
        processing: ProcessingConfig {
            audio_only: false,
            copy_audio: false,
            copy_video: false,
            width: 1024,
            height: 576,
            aspect_milli: 1778,
            fps_milli: 25000,
            add_logo: false,
            logo_path: String::new(),
            logo_present: false,
            logo_opacity_milli: 700,
            logo_scale: String::new(),
            logo_position: String::new(),
            audio_tracks: 1,
            audio_track_index: -1,
            volume_milli: 1000,
            custom_vf: String::new(),
            custom_af: String::new(),
        },
        text: TextConfig { add_text: false, text_from_filename: false },
        output: OutputConfig { mode: OutputMode::Stream, output_count: 1, output_filter: None },
        ingest: IngestConfig { custom_vf: String::new(), custom_af: String::new() },
    }
}

#[test]
fn milli_values_render_like_decimals() {
    assert_eq!(milli_string(0), "0");
    assert_eq!(milli_string(1000), "1");
    assert_eq!(milli_string(500), "0.5");
    assert_eq!(milli_string(-500), "-0.5");
    assert_eq!(milli_string(28975), "28.975");
    assert_eq!(milli_string(29970), "29.97");
    assert_eq!(milli_string(25000), "25");
}

#[test]
fn integers_render_in_decimal() {
    assert_eq!(int_string(0), "0");
    assert_eq!(int_string(1778), "1778");
    assert_eq!(int_string(-42), "-42");
}

#[test]
fn template_placeholders_fill_in_order() {
    let args = vec!["16".to_string(), "9".to_string()];
    assert_eq!(custom_format("pad='ih*{}/{}'", &args), "pad='ih*16/9'");
    let one = vec!["25".to_string()];
    assert_eq!(custom_format("fps={}:round=near", &one), "fps=25:round=near");
    // placeholders beyond the arguments stay verbatim
    assert_eq!(custom_format("a={} b={}", &one), "a=25 b={}");
}

#[test]
fn replace_all_is_left_to_right() {
    assert_eq!(str_replace_all("ababab", "ab", "x"), "xxx");
    assert_eq!(str_replace_all("[0:a:0]y[0:a:0]", "[0:a:0]", "z,"), "z,yz,");
    assert_eq!(str_replace_all("abc", "", "x"), "abc");
}

#[test]
fn trimming_strips_blanks() {
    assert_eq!(str_trimmed("  yadif=0 "), "yadif=0");
    assert_eq!(str_trimmed("\t \r\n"), "");
    assert_eq!(str_trimmed("x"), "x");
}

#[test]
fn parses_decimals_into_milli_units() {
    assert_eq!(str_parse_milli("16"), Some(16000));
    assert_eq!(str_parse_milli("29.97"), Some(29970));
    assert_eq!(str_parse_milli("1.7777"), Some(1777));
    assert_eq!(str_parse_milli(".5"), Some(500));
    assert_eq!(str_parse_milli("7."), Some(7000));
    assert_eq!(str_parse_milli(""), None);
    assert_eq!(str_parse_milli("x9"), None);
    assert_eq!(str_parse_milli("1.2.3"), None);
}

#[test]
fn aspect_from_ratio_string() {
    let cfg = plain_config();
    assert_eq!(calc_aspect(&cfg, &Some("16:9".to_string())), 1778);
    assert_eq!(calc_aspect(&cfg, &Some("4:3".to_string())), 1333);
    // no ratio given: the configured target stands in
    assert_eq!(calc_aspect(&cfg, &None), 1778);
    // unparseable parts fail soft to zero
    assert_eq!(calc_aspect(&cfg, &Some("x:y".to_string())), 0);
    assert_eq!(calc_aspect(&cfg, &Some("16:0".to_string())), 0);
}

#[test]
fn frame_rate_from_rate_string() {
    assert_eq!(fps_calc("25/1", 1000), 25000);
    assert_eq!(fps_calc("30000/1001", 1000), 29970);
    assert_eq!(fps_calc("24", 1000), 1000);
    assert_eq!(fps_calc("a/b", 1000), 1000);
}

#[test]
fn fraction_finds_best_target_aspect() {
    // the 16:9 and 4:3 targets come back as their canonical fractions
    assert_eq!(fraction(1778), (16, 9));
    assert_eq!(fraction(1333), (4, 3));
    assert_eq!(fraction(2000), (2, 1));
    assert_eq!(fraction(1000), (1, 1));
}

#[test]
fn closeness_uses_strict_bound() {
    assert!(is_close(1778, 1790, 30));
    assert!(!is_close(1778, 1333, 30));
    assert!(!is_close(1778, 1808, 30));
}

#[test]
fn hardware_suffixes_are_detected() {
    assert!(is_hw("scale_cuda=1280:720"));
    assert!(is_hw("overlay_vaapi"));
    assert!(!is_hw("scale=1280:720"));
}

#[test]
fn chain_end_detection_ignores_downloads() {
    assert!(last_is_hw("scale_cuda=1280:720"));
    assert!(last_is_hw("null,scale_npp=1280:720"));
    assert!(!last_is_hw(""));
    assert!(!last_is_hw("scale=1280:720"));
    // a download at or just before the end blocks re-bridging
    assert!(!last_is_hw("scale_cuda,hwdownload"));
    assert!(!last_is_hw("hwdownload,scale_cuda"));
}

#[test]
fn no_redundant_bridges_on_matching_domains() {
    let cfg = plain_config();
    // chain already hardware: no upload
    assert_eq!(hw_upload(&cfg, "scale_cuda", "overlay_cuda"), "");
    // chain software, software filter: no download
    assert_eq!(hw_download("scale=1280:720", "null"), "");
    // real transitions bridge once
    assert_eq!(hw_upload(&cfg, "scale=1280:720", "overlay_cuda"), "hwupload");
    assert_eq!(hw_download("scale_cuda", "null"), "hwdownload");
    // label references cross without a download
    assert_eq!(hw_download("scale_cuda", "[l]overlay"), "");
}

#[test]
fn cuda_backend_selects_cuda_upload() {
    let mut cfg = plain_config();
    cfg.advanced.decoder_input_param = Some("-hwaccel cuda".to_string());
    assert_eq!(hw_upload(&cfg, "null", "scale_cuda"), "hwupload_cuda");
}
