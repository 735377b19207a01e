//! Effect stage generators: each conditionally appends one or more filter
//! expressions for one concern.  Every stage's effect on the graph state is
//! stated exactly as a composition of `model_add_filter` transitions.

use vstd::prelude::*;
use crate::chain::{
    model_add_filter, model_add_half, switch_text, ty_text, FilterType, FiltersModel, HalfModel,
};
use crate::config::PlayoutConfig;
use crate::filters::Filters;
use crate::media::{Media, ProcessUnit};
use crate::parse::{is_close, fraction, milli_close, spec_fraction};
use crate::text::{
    custom_format, int_string, int_text, milli_string, milli_text, push_i64, push_milli,
    repl_char, replace_char, str_eq, tmpl_fill,
};

verus! {

/// A one-argument vector for template filling.
fn args1(a: String) -> (r: Vec<String>)
    ensures
        r.deep_view() == seq![a@],
{
    let mut v: Vec<String> = Vec::new();
    v.push(a);
    proof {
        assert(v.deep_view() =~= seq![v@[0]@]);
    }
    v
}

/// A two-argument vector for template filling.
fn args2(a: String, b: String) -> (r: Vec<String>)
    ensures
        r.deep_view() == seq![a@, b@],
{
    let mut v: Vec<String> = Vec::new();
    v.push(a);
    v.push(b);
    proof {
        assert(v.deep_view() =~= seq![v@[0]@, v@[1]@]);
    }
    v
}

/// The deinterlace expression: the override template verbatim, or the
/// standard deinterlace filter.
pub open spec fn deinterlace_expr(cfg: PlayoutConfig) -> Seq<char> {
    match cfg.advanced.filter.deinterlace {
        Some(t) => t@,
        None => "yadif=0:-1:0"@,
    }
}

/// Deinterlace stage: appends when a field order is probed and it is not
/// progressive.
pub open spec fn model_deinterlace(
    cfg: PlayoutConfig,
    m: FiltersModel,
    field_order: Option<String>,
) -> FiltersModel {
    match field_order {
        Some(o) => {
            if o@ != "progressive"@ {
                model_add_filter(m, deinterlace_expr(cfg), 0, FilterType::Video)
            } else {
                m
            }
        },
        None => m,
    }
}

/// Appends a deinterlace filter when the probed field order demands one.
pub fn deinterlace(config: &PlayoutConfig, chain: &mut Filters, field_order: &Option<String>)
    ensures
        final(chain)@ == model_deinterlace(*config, old(chain)@, *field_order),
{
    match field_order {
        Some(order) => {
            if !str_eq(order.as_str(), "progressive") {
                let f = match &config.advanced.filter.deinterlace {
                    Some(t) => t.clone(),
                    None => String::from_str("yadif=0:-1:0"),
                };
                chain.add_filter(f.as_str(), 0, FilterType::Video);
            }
        },
        None => {},
    }
}

/// The pad expression for a reduced target-aspect fraction `n/d`.
pub open spec fn pad_expr(cfg: PlayoutConfig) -> Seq<char> {
    let fr = spec_fraction(cfg.processing.aspect_milli as int);
    match cfg.advanced.filter.pad_video {
        Some(t) => tmpl_fill(t@, seq![int_text(fr.0), int_text(fr.1)]),
        None => "pad='ih*"@ + int_text(fr.0) + "/"@ + int_text(fr.1)
            + ":ih:(ow-iw)/2:(oh-ih)/2'"@,
    }
}

/// Pad stage: appends when the source aspect differs from the target beyond
/// the tolerance of three hundredths.
pub open spec fn model_pad(cfg: PlayoutConfig, m: FiltersModel, aspect_milli: int) -> FiltersModel {
    if !milli_close(aspect_milli, cfg.processing.aspect_milli as int, 30) {
        model_add_filter(m, pad_expr(cfg), 0, FilterType::Video)
    } else {
        m
    }
}

/// Appends a centered pad to the target aspect when the source aspect
/// differs beyond the tolerance.
pub fn pad(config: &PlayoutConfig, chain: &mut Filters, aspect: i64)
    requires
        config.wf(),
        -1_000_000_000_000_000_000 <= aspect <= 1_000_000_000_000_000_000,
    ensures
        final(chain)@ == model_pad(*config, old(chain)@, aspect as int),
{
    if !is_close(aspect, config.processing.aspect_milli, 30) {
        let fr = fraction(config.processing.aspect_milli);
        let f = match &config.advanced.filter.pad_video {
            Some(t) => custom_format(t.as_str(), &args2(int_string(fr.0), int_string(fr.1))),
            None => {
                let mut s = String::from_str("pad='ih*");
                push_i64(&mut s, fr.0);
                s.append("/");
                push_i64(&mut s, fr.1);
                s.append(":ih:(ow-iw)/2:(oh-ih)/2'");
                s
            },
        };
        proof {
            assert(f@ =~= pad_expr(*config));
        }
        chain.add_filter(f.as_str(), 0, FilterType::Video);
    }
}

/// The frame-rate conversion expression.
pub open spec fn fps_expr(cfg: PlayoutConfig) -> Seq<char> {
    match cfg.advanced.filter.fps {
        Some(t) => tmpl_fill(t@, seq![milli_text(cfg.processing.fps_milli as int)]),
        None => "fps="@ + milli_text(cfg.processing.fps_milli as int),
    }
}

/// Frame-rate stage: appends when the probed rate differs from the target.
pub open spec fn model_fps(cfg: PlayoutConfig, m: FiltersModel, fps_milli: int) -> FiltersModel {
    if fps_milli != cfg.processing.fps_milli as int {
        model_add_filter(m, fps_expr(cfg), 0, FilterType::Video)
    } else {
        m
    }
}

/// Appends a frame-rate conversion when the probed rate differs from the
/// target.
pub fn fps(config: &PlayoutConfig, chain: &mut Filters, fps_milli: i64)
    ensures
        final(chain)@ == model_fps(*config, old(chain)@, fps_milli as int),
{
    if fps_milli != config.processing.fps_milli {
        let f = match &config.advanced.filter.fps {
            Some(t) => custom_format(
                t.as_str(),
                &args1(milli_string(config.processing.fps_milli)),
            ),
            None => {
                let mut s = String::from_str("fps=");
                push_milli(&mut s, config.processing.fps_milli);
                s
            },
        };
        proof {
            assert(f@ =~= fps_expr(*config));
        }
        chain.add_filter(f.as_str(), 0, FilterType::Video);
    }
}

/// The scale expression: the override template, a scale to the target
/// dimensions, or the explicit no-op filter that keeps the chain non-empty.
pub open spec fn scale_expr(
    cfg: PlayoutConfig,
    width: Option<i64>,
    height: Option<i64>,
) -> Seq<char> {
    match cfg.advanced.filter.scale {
        Some(t) => tmpl_fill(
            t@,
            seq![
                int_text(cfg.processing.width as int),
                int_text(cfg.processing.height as int),
            ],
        ),
        None => {
            if (width matches Some(w) && w != cfg.processing.width) || (height matches Some(h)
                && h != cfg.processing.height) {
                "scale="@ + int_text(cfg.processing.width as int) + ":"@ + int_text(
                    cfg.processing.height as int,
                )
            } else {
                "null"@
            }
        },
    }
}

/// Scale stage: always appends exactly one expression, so the video chain is
/// never left bare.
pub open spec fn model_scale(
    cfg: PlayoutConfig,
    m: FiltersModel,
    width: Option<i64>,
    height: Option<i64>,
) -> FiltersModel {
    model_add_filter(m, scale_expr(cfg, width, height), 0, FilterType::Video)
}

/// Appends a scale to the target dimensions, or the explicit no-op filter
/// when no change is needed.  The video chain is never left empty
/// afterwards, unless the user set an empty override template (which would
/// append an empty expression).
pub fn scale(config: &PlayoutConfig, chain: &mut Filters, width: Option<i64>, height: Option<i64>)
    ensures
        final(chain)@ == model_scale(*config, old(chain)@, width, height),
        (config.advanced.filter.scale matches Some(t) ==> t@.len() > 0)
            ==> final(chain)@.video.chain.len() > 0,
{
    let f = match &config.advanced.filter.scale {
        Some(t) => custom_format(
            t.as_str(),
            &args2(int_string(config.processing.width), int_string(config.processing.height)),
        ),
        None => {
            let differs = match width {
                Some(w) => w != config.processing.width,
                None => false,
            } || match height {
                Some(h) => h != config.processing.height,
                None => false,
            };
            if differs {
                let mut s = String::from_str("scale=");
                push_i64(&mut s, config.processing.width);
                s.append(":");
                push_i64(&mut s, config.processing.height);
                s
            } else {
                String::from_str("null")
            }
        },
    };
    proof {
        assert(f@ =~= scale_expr(*config, width, height));
    }
    chain.add_filter(f.as_str(), 0, FilterType::Video);
    proof {
        if match config.advanced.filter.scale {
            Some(ref t) => t@.len() > 0,
            None => true,
        } {
            lemma_scale_nonempty(old(chain)@, *config, width, height);
        }
    }
}

/// One append can only grow a chain, by at least the appended expression.
pub proof fn lemma_add_half_grows(
    h: HalfModel,
    hw: bool,
    cuda: bool,
    f: Seq<char>,
    track: int,
    ty: FilterType,
)
    ensures
        model_add_half(h, hw, cuda, f, track, ty).chain.len() >= h.chain.len() + f.len(),
{
    let h2 = model_add_half(h, hw, cuda, f, track, ty);
    if h.last != track {
        let st = switch_text(h, hw, f, track, ty);
        assert(st.len() >= f.len());
        assert(h2.chain == h.chain + st);
    }
}

/// A non-empty expression never fills an empty template, so the appended
/// filter is non-empty whenever the template (if any) is.
proof fn lemma_scale_expr_nonempty(cfg: PlayoutConfig, width: Option<i64>, height: Option<i64>)
    requires
        cfg.advanced.filter.scale matches Some(t) ==> t@.len() > 0,
    ensures
        scale_expr(cfg, width, height).len() > 0,
{
    match cfg.advanced.filter.scale {
        Some(t) => {
            let args = seq![
                int_text(cfg.processing.width as int),
                int_text(cfg.processing.height as int),
            ];
            crate::text::lemma_int_text_nonempty(cfg.processing.width as int);
            crate::text::lemma_int_text_nonempty(cfg.processing.height as int);
            assert(args[0].len() > 0);
            assert(args[1].len() > 0);
            assert forall|i: int| 0 <= i < args.len() implies #[trigger] args[i].len() > 0 by {
                if i == 0 {
                    assert(args[0].len() > 0);
                } else {
                    assert(args[1].len() > 0);
                }
            }
            lemma_tmpl_fill_nonempty(t@, args);
            assert(scale_expr(cfg, width, height) == tmpl_fill(t@, args));
        },
        None => {
            reveal_strlit("null");
            crate::text::lemma_int_text_nonempty(cfg.processing.width as int);
        },
    }
}

/// Filling a non-empty template whose arguments are all non-empty yields a
/// non-empty result.
pub proof fn lemma_tmpl_fill_nonempty(t: Seq<char>, args: Seq<Seq<char>>)
    requires
        t.len() > 0,
        forall|i: int| 0 <= i < args.len() ==> #[trigger] args[i].len() > 0,
    ensures
        tmpl_fill(t, args).len() > 0,
{
}

/// After the scale stage the video chain is non-empty, whatever the state
/// and configuration (with a non-empty override template, when one is set).
proof fn lemma_scale_nonempty(
    m: FiltersModel,
    cfg: PlayoutConfig,
    width: Option<i64>,
    height: Option<i64>,
)
    requires
        cfg.advanced.filter.scale matches Some(t) ==> t@.len() > 0,
    ensures
        model_scale(cfg, m, width, height).video.chain.len() > 0,
{
    lemma_scale_expr_nonempty(cfg, width, height);
    lemma_add_half_grows(
        m.video,
        m.hw_context,
        m.cuda,
        scale_expr(cfg, width, height),
        0,
        FilterType::Video,
    );
}

/// The display-aspect expression.
pub open spec fn setdar_expr(cfg: PlayoutConfig) -> Seq<char> {
    match cfg.advanced.filter.set_dar {
        Some(t) => tmpl_fill(t@, seq![milli_text(cfg.processing.aspect_milli as int)]),
        None => "setdar=dar="@ + milli_text(cfg.processing.aspect_milli as int),
    }
}

/// Set-display-aspect stage: paired with the pad stage, same tolerance.
pub open spec fn model_setdar(
    cfg: PlayoutConfig,
    m: FiltersModel,
    aspect_milli: int,
) -> FiltersModel {
    if !milli_close(aspect_milli, cfg.processing.aspect_milli as int, 30) {
        model_add_filter(m, setdar_expr(cfg), 0, FilterType::Video)
    } else {
        m
    }
}

/// Appends a display-aspect correction when the source aspect differs from
/// the target beyond the tolerance.
pub fn setdar(config: &PlayoutConfig, chain: &mut Filters, aspect: i64)
    requires
        config.wf(),
        -1_000_000_000_000_000_000 <= aspect <= 1_000_000_000_000_000_000,
    ensures
        final(chain)@ == model_setdar(*config, old(chain)@, aspect as int),
{
    if !is_close(aspect, config.processing.aspect_milli, 30) {
        let f = match &config.advanced.filter.set_dar {
            Some(t) => custom_format(
                t.as_str(),
                &args1(milli_string(config.processing.aspect_milli)),
            ),
            None => {
                let mut s = String::from_str("setdar=dar=");
                push_milli(&mut s, config.processing.aspect_milli);
                s
            },
        };
        proof {
            assert(f@ =~= setdar_expr(*config));
        }
        chain.add_filter(f.as_str(), 0, FilterType::Video);
    }
}

/// The volume expression.
pub open spec fn volume_expr(cfg: PlayoutConfig) -> Seq<char> {
    match cfg.advanced.filter.volume {
        Some(t) => tmpl_fill(t@, seq![milli_text(cfg.processing.volume_milli as int)]),
        None => "volume="@ + milli_text(cfg.processing.volume_milli as int),
    }
}

/// Volume stage: appends when the configured volume is not unity.
pub open spec fn model_audio_volume(cfg: PlayoutConfig, m: FiltersModel, nr: int) -> FiltersModel {
    if cfg.processing.volume_milli != 1000 {
        model_add_filter(m, volume_expr(cfg), nr, FilterType::Audio)
    } else {
        m
    }
}

/// Appends a volume scaling filter when the configured volume is not unity.
pub fn audio_volume(config: &PlayoutConfig, chain: &mut Filters, nr: i32)
    ensures
        final(chain)@ == model_audio_volume(*config, old(chain)@, nr as int),
{
    if config.processing.volume_milli != 1000 {
        let f = match &config.advanced.filter.volume {
            Some(t) => custom_format(
                t.as_str(),
                &args1(milli_string(config.processing.volume_milli)),
            ),
            None => {
                let mut s = String::from_str("volume=");
                push_milli(&mut s, config.processing.volume_milli);
                s
            },
        };
        proof {
            assert(f@ =~= volume_expr(*config));
        }
        chain.add_filter(f.as_str(), nr, FilterType::Audio);
    }
}

/// The synthetic-audio expression for the required span.
pub open spec fn add_audio_expr(cfg: PlayoutConfig, node: Media) -> Seq<char> {
    let span = node.out_milli - node.seek_milli;
    match cfg.advanced.filter.aevalsrc {
        Some(t) => tmpl_fill(t@, seq![milli_text(span as int)]),
        None => "aevalsrc=0:channel_layout=stereo:duration="@ + milli_text(span as int)
            + ":sample_rate=48000"@,
    }
}

/// Synthesize-audio stage: always appends the silent source.
pub open spec fn model_add_audio(
    cfg: PlayoutConfig,
    m: FiltersModel,
    node: Media,
    nr: int,
) -> FiltersModel {
    model_add_filter(m, add_audio_expr(cfg, node), nr, FilterType::Audio)
}

/// Appends a silent audio source covering the required output span.
pub fn add_audio(config: &PlayoutConfig, chain: &mut Filters, node: &Media, nr: i32)
    requires
        node.wf(),
    ensures
        final(chain)@ == model_add_audio(*config, old(chain)@, *node, nr as int),
{
    let span = node.out_milli - node.seek_milli;
    let f = match &config.advanced.filter.aevalsrc {
        Some(t) => custom_format(t.as_str(), &args1(milli_string(span))),
        None => {
            let mut s = String::from_str("aevalsrc=0:channel_layout=stereo:duration=");
            push_milli(&mut s, span);
            s.append(":sample_rate=48000");
            s
        },
    };
    proof {
        assert(f@ =~= add_audio_expr(*config, *node));
    }
    chain.add_filter(f.as_str(), nr, FilterType::Audio);
}

/// Custom stage: appends a user filter verbatim when it is non-empty.
pub open spec fn model_custom(
    m: FiltersModel,
    f: Seq<char>,
    nr: int,
    ty: FilterType,
) -> FiltersModel {
    if f.len() > 0 {
        model_add_filter(m, f, nr, ty)
    } else {
        m
    }
}

/// Appends a custom filter expression verbatim when it is non-empty.
pub fn custom(filter: &str, chain: &mut Filters, nr: i32, filter_type: FilterType)
    ensures
        final(chain)@ == model_custom(old(chain)@, filter@, nr as int, filter_type),
{
    if !filter.is_empty() {
        chain.add_filter(filter, nr, filter_type);
    }
}

/// The one-letter prefix of audio fade filters; empty for video.
pub open spec fn fade_tag(ty: FilterType) -> Seq<char> {
    if ty == FilterType::Audio {
        "a"@
    } else {
        Seq::empty()
    }
}

/// The fade-in expression: half a second from the start.
pub open spec fn fade_in_expr(cfg: PlayoutConfig, ty: FilterType) -> Seq<char> {
    let t = fade_tag(ty);
    let tmpl = if ty == FilterType::Audio {
        cfg.advanced.filter.afade_in
    } else {
        cfg.advanced.filter.fade_in
    };
    match tmpl {
        Some(tm) => tmpl_fill(tm@, seq![t]),
        None => t + "fade=in:st=0:d=0.5"@,
    }
}

/// The fade-out expression: one second ending at the remaining-duration
/// boundary `st` (milliseconds).
pub open spec fn fade_out_expr(cfg: PlayoutConfig, ty: FilterType, st: int) -> Seq<char> {
    let t = fade_tag(ty);
    let tmpl = if ty == FilterType::Audio {
        cfg.advanced.filter.afade_out
    } else {
        cfg.advanced.filter.fade_out
    };
    match tmpl {
        Some(tm) => tmpl_fill(tm@, seq![milli_text(st)]),
        None => t + "fade=out:st="@ + milli_text(st) + ":d=1.0"@,
    }
}

/// Fade stage: a fade-in when the item starts mid-stream or is live-ingest;
/// a fade-out when a span remains beyond one second, or (audio) the audio
/// duration differs from the video duration.
pub open spec fn model_fade(
    cfg: PlayoutConfig,
    m: FiltersModel,
    node: Media,
    nr: int,
    ty: FilterType,
) -> FiltersModel {
    let fade_audio = ty == FilterType::Audio && node.duration_audio_milli > 0
        && node.duration_audio_milli != node.duration_milli;
    let m1: FiltersModel = if node.seek_milli > 0 || node.unit == ProcessUnit::Ingest {
        model_add_filter(m, fade_in_expr(cfg, ty), nr, ty)
    } else {
        m
    };
    if (node.out_milli != node.duration_milli && node.out_milli - node.seek_milli > 1000)
        || fade_audio {
        model_add_filter(
            m1,
            fade_out_expr(cfg, ty, node.out_milli - node.seek_milli - 1000),
            nr,
            ty,
        )
    } else {
        m1
    }
}

/// Appends the owed fade-in and fade-out filters for one track.
pub fn fade(config: &PlayoutConfig, chain: &mut Filters, node: &Media, nr: i32, ty: FilterType)
    requires
        node.wf(),
    ensures
        final(chain)@ == model_fade(*config, old(chain)@, *node, nr as int, ty),
{
    let audio = matches!(ty, FilterType::Audio);
    let fade_audio = audio && node.duration_audio_milli > 0 && node.duration_audio_milli
        != node.duration_milli;
    if node.seek_milli > 0 || matches!(node.unit, ProcessUnit::Ingest) {
        let tmpl = if audio {
            &config.advanced.filter.afade_in
        } else {
            &config.advanced.filter.fade_in
        };
        let f = match tmpl {
            Some(tm) => {
                let t = if audio {
                    String::from_str("a")
                } else {
                    String::new()
                };
                custom_format(tm.as_str(), &args1(t))
            },
            None => {
                let mut s = if audio {
                    String::from_str("a")
                } else {
                    String::new()
                };
                s.append("fade=in:st=0:d=0.5");
                s
            },
        };
        proof {
            assert(f@ =~= fade_in_expr(*config, ty));
        }
        chain.add_filter(f.as_str(), nr, ty);
    }
    if (node.out_milli != node.duration_milli && node.out_milli - node.seek_milli > 1000)
        || fade_audio {
        let st = node.out_milli - node.seek_milli - 1000;
        let tmpl = if audio {
            &config.advanced.filter.afade_out
        } else {
            &config.advanced.filter.fade_out
        };
        let f = match tmpl {
            Some(tm) => custom_format(tm.as_str(), &args1(milli_string(st))),
            None => {
                let mut s = if audio {
                    String::from_str("a")
                } else {
                    String::new()
                };
                s.append("fade=out:st=");
                push_milli(&mut s, st);
                s.append(":d=1.0");
                s
            },
        };
        proof {
            assert(f@ =~= fade_out_expr(*config, ty, st as int));
        }
        chain.add_filter(f.as_str(), nr, ty);
    }
}

/// The logo path with separators normalised and colons escaped.
pub open spec fn logo_path_text(cfg: PlayoutConfig) -> Seq<char> {
    repl_char(repl_char(cfg.processing.logo_path@, '\\', "/"@), ':', "\\\\:"@)
}

/// The timed logo source expression with the configured opacity.
pub open spec fn movie_expr(cfg: PlayoutConfig) -> Seq<char> {
    match cfg.advanced.filter.logo {
        Some(t) => tmpl_fill(
            t@,
            seq![logo_path_text(cfg), milli_text(cfg.processing.logo_opacity_milli as int)],
        ),
        None => "movie="@ + logo_path_text(cfg)
            + ":loop=0,setpts=N/(FRAME_RATE*TB),format=rgba,colorchannelmixer=aa="@ + milli_text(
            cfg.processing.logo_opacity_milli as int,
        ),
    }
}

/// Logo fade-in at an ad-block end.
pub open spec fn logo_fade_in_expr(cfg: PlayoutConfig) -> Seq<char> {
    match cfg.advanced.filter.overlay_logo_fade_in {
        Some(t) => t@,
        None => "fade=in:st=0:d=1.0:alpha=1"@,
    }
}

/// Logo fade-out before an ad block, ending at `length` milliseconds.
pub open spec fn logo_fade_out_expr(cfg: PlayoutConfig, length: int) -> Seq<char> {
    match cfg.advanced.filter.overlay_logo_fade_out {
        Some(t) => tmpl_fill(t@, seq![milli_text(length)]),
        None => "fade=out:st="@ + milli_text(length) + ":d=1.0:alpha=1"@,
    }
}

/// Optional scaling of the logo source.
pub open spec fn logo_scale_expr(cfg: PlayoutConfig) -> Seq<char> {
    match cfg.advanced.filter.overlay_logo_scale {
        Some(t) => tmpl_fill(t@, seq![cfg.processing.logo_scale@]),
        None => "scale="@ + cfg.processing.logo_scale@,
    }
}

/// The final composite at the configured position.
pub open spec fn overlay_expr(cfg: PlayoutConfig) -> Seq<char> {
    match cfg.advanced.filter.overlay_logo {
        Some(t) => tmpl_fill(t@, seq![cfg.processing.logo_position@]),
        None => "overlay="@ + cfg.processing.logo_position@ + ":shortest=1"@,
    }
}

/// Overlay stage: when the logo is enabled, its file exists and the item is
/// not an advertisement, relabel the main chain, load the logo as a timed
/// source, optionally fade it in and out around ad blocks, optionally scale
/// it, and composite it at the configured position.
pub open spec fn model_overlay(cfg: PlayoutConfig, m: FiltersModel, node: Media) -> FiltersModel {
    if cfg.processing.add_logo && cfg.processing.logo_present && node.category@
        != "advertisement"@ {
        let m1 = model_add_filter(m, "null[v];"@, 0, FilterType::Video);
        let m2 = model_add_filter(m1, movie_expr(cfg), 0, FilterType::Video);
        let m3: FiltersModel = if node.last_ad {
            model_add_filter(m2, logo_fade_in_expr(cfg), 0, FilterType::Video)
        } else {
            m2
        };
        let m4: FiltersModel = if node.next_ad {
            model_add_filter(
                m3,
                logo_fade_out_expr(cfg, node.out_milli - node.seek_milli - 1000),
                0,
                FilterType::Video,
            )
        } else {
            m3
        };
        let m5: FiltersModel = if cfg.processing.logo_scale@.len() > 0 {
            model_add_filter(m4, logo_scale_expr(cfg), 0, FilterType::Video)
        } else {
            m4
        };
        model_add_filter(m5, overlay_expr(cfg), 0, FilterType::Video)
    } else {
        m
    }
}

/// Appends the logo overlay sub-chain.
pub fn overlay(config: &PlayoutConfig, chain: &mut Filters, node: &Media)
    requires
        node.wf(),
    ensures
        final(chain)@ == model_overlay(*config, old(chain)@, *node),
{
    if config.processing.add_logo && config.processing.logo_present && !str_eq(
        node.category.as_str(),
        "advertisement",
    ) {
        let slashed = replace_char(config.processing.logo_path.as_str(), '\\', "/");
        let logo_path = replace_char(slashed.as_str(), ':', "\\\\:");
        chain.add_filter("null[v];", 0, FilterType::Video);
        let movie = match &config.advanced.filter.logo {
            Some(t) => custom_format(
                t.as_str(),
                &args2(logo_path, milli_string(config.processing.logo_opacity_milli)),
            ),
            None => {
                let mut s = String::from_str("movie=");
                s.append(logo_path.as_str());
                s.append(":loop=0,setpts=N/(FRAME_RATE*TB),format=rgba,colorchannelmixer=aa=");
                push_milli(&mut s, config.processing.logo_opacity_milli);
                s
            },
        };
        proof {
            assert(movie@ =~= movie_expr(*config));
        }
        chain.add_filter(movie.as_str(), 0, FilterType::Video);
        if node.last_ad {
            let f = match &config.advanced.filter.overlay_logo_fade_in {
                Some(t) => t.clone(),
                None => String::from_str("fade=in:st=0:d=1.0:alpha=1"),
            };
            chain.add_filter(f.as_str(), 0, FilterType::Video);
        }
        if node.next_ad {
            let length = node.out_milli - node.seek_milli - 1000;
            let f = match &config.advanced.filter.overlay_logo_fade_out {
                Some(t) => custom_format(t.as_str(), &args1(milli_string(length))),
                None => {
                    let mut s = String::from_str("fade=out:st=");
                    push_milli(&mut s, length);
                    s.append(":d=1.0:alpha=1");
                    s
                },
            };
            proof {
                assert(f@ =~= logo_fade_out_expr(*config, length as int));
            }
            chain.add_filter(f.as_str(), 0, FilterType::Video);
        }
        if !config.processing.logo_scale.as_str().is_empty() {
            let f = match &config.advanced.filter.overlay_logo_scale {
                Some(t) => custom_format(t.as_str(), &args1(config.processing.logo_scale.clone())),
                None => {
                    let mut s = String::from_str("scale=");
                    s.append(config.processing.logo_scale.as_str());
                    s
                },
            };
            proof {
                assert(f@ =~= logo_scale_expr(*config));
            }
            chain.add_filter(f.as_str(), 0, FilterType::Video);
        }
        let f = match &config.advanced.filter.overlay_logo {
            Some(t) => custom_format(t.as_str(), &args1(config.processing.logo_position.clone())),
            None => {
                let mut s = String::from_str("overlay=");
                s.append(config.processing.logo_position.as_str());
                s.append(":shortest=1");
                s
            },
        };
        proof {
            assert(f@ =~= overlay_expr(*config));
        }
        chain.add_filter(f.as_str(), 0, FilterType::Video);
    }
}

/// The stop-pad expression for a video shortfall of `duration` milliseconds.
pub open spec fn tpad_expr(cfg: PlayoutConfig, duration: int) -> Seq<char> {
    match cfg.advanced.filter.tpad {
        Some(t) => tmpl_fill(t@, seq![milli_text(duration)]),
        None => "tpad=stop_mode=add:stop_duration="@ + milli_text(duration),
    }
}

/// Extend-video stage: stop-pad when the probed video runs out before the
/// required span.
pub open spec fn model_extend_video(cfg: PlayoutConfig, m: FiltersModel, node: Media) -> FiltersModel {
    match node.probe {
        Some(p) => {
            if p.video@.len() > 0 {
                match p.video@[0].duration_milli {
                    Some(vd) => {
                        if node.out_milli - node.seek_milli > vd - node.seek_milli + 100
                            && node.duration_milli >= node.out_milli {
                            model_add_filter(
                                m,
                                tpad_expr(
                                    cfg,
                                    (node.out_milli - node.seek_milli) - (vd - node.seek_milli),
                                ),
                                0,
                                FilterType::Video,
                            )
                        } else {
                            m
                        }
                    },
                    None => m,
                }
            } else {
                m
            }
        },
        None => m,
    }
}

/// Appends a stop-pad when the probed video duration falls short of the
/// required output span.
pub fn extend_video(config: &PlayoutConfig, chain: &mut Filters, node: &Media)
    requires
        node.wf(),
    ensures
        final(chain)@ == model_extend_video(*config, old(chain)@, *node),
{
    match &node.probe {
        Some(p) => {
            if p.video.len() > 0 {
                match p.video[0].duration_milli {
                    Some(vd) => {
                        proof {
                            assert(p.video@[0].duration_milli == Some(vd));
                        }
                        if node.out_milli - node.seek_milli > vd - node.seek_milli + 100
                            && node.duration_milli >= node.out_milli {
                            let duration = (node.out_milli - node.seek_milli) - (vd
                                - node.seek_milli);
                            let f = match &config.advanced.filter.tpad {
                                Some(t) => custom_format(t.as_str(), &args1(milli_string(duration))),
                                None => {
                                    let mut s = String::from_str(
                                        "tpad=stop_mode=add:stop_duration=",
                                    );
                                    push_milli(&mut s, duration);
                                    s
                                },
                            };
                            proof {
                                assert(f@ =~= tpad_expr(*config, duration as int));
                            }
                            chain.add_filter(f.as_str(), 0, FilterType::Video);
                        }
                    },
                    None => {},
                }
            }
        },
        None => {},
    }
}

/// The audio-pad expression for the required span.
pub open spec fn apad_expr(cfg: PlayoutConfig, span: int) -> Seq<char> {
    match cfg.advanced.filter.apad {
        Some(t) => tmpl_fill(t@, seq![milli_text(span)]),
        None => "apad=whole_dur="@ + milli_text(span),
    }
}

/// Extend-audio stage: pad when no separate audio file exists and the probed
/// audio runs out before the required span.
pub open spec fn model_extend_audio(
    cfg: PlayoutConfig,
    m: FiltersModel,
    node: Media,
    nr: int,
) -> FiltersModel {
    if !node.audio_present {
        match node.probe {
            Some(p) => {
                if p.audio@.len() > 0 {
                    match p.audio@[0].duration_milli {
                        Some(ad) => {
                            if node.out_milli - node.seek_milli > ad - node.seek_milli + 100
                                && node.duration_milli >= node.out_milli {
                                model_add_filter(
                                    m,
                                    apad_expr(cfg, node.out_milli - node.seek_milli),
                                    nr,
                                    FilterType::Audio,
                                )
                            } else {
                                m
                            }
                        },
                        None => m,
                    }
                } else {
                    m
                }
            },
            None => m,
        }
    } else {
        m
    }
}

/// The labelled output link of one split leg, e.g. `[vout_0_2]`.
pub open spec fn split_label(ty: FilterType, nr: int, i: int) -> Seq<char> {
    "["@ + ty_text(ty) + "out_"@ + int_text(nr) + "_"@ + int_text(i) + "]"@
}

/// Output links registered by the split stage for legs `i..count`, skipping
/// links already present.
pub open spec fn add_links(
    links: Seq<Seq<char>>,
    ty: FilterType,
    nr: int,
    i: int,
    count: int,
) -> Seq<Seq<char>>
    decreases count - i,
{
    if i >= count {
        links
    } else {
        let l = split_label(ty, nr, i);
        let links2: Seq<Seq<char>> = if links.contains(l) {
            links
        } else {
            links.push(l)
        };
        add_links(links2, ty, nr, i + 1, count)
    }
}

/// The concatenation of all link labels.
pub open spec fn concat_texts(ss: Seq<Seq<char>>) -> Seq<char>
    decreases ss.len(),
{
    if ss.len() == 0 {
        Seq::empty()
    } else {
        concat_texts(ss.drop_last()) + ss.last()
    }
}

/// The split expression fanning one output into the given links.
pub open spec fn split_expr(cfg: PlayoutConfig, links: Seq<Seq<char>>) -> Seq<char> {
    match cfg.advanced.filter.split {
        Some(t) => tmpl_fill(
            t@,
            seq![int_text(cfg.output.output_count as int), concat_texts(links)],
        ),
        None => "split="@ + int_text(cfg.output.output_count as int) + concat_texts(links),
    }
}

/// Split stage: when more than one output is configured, register one
/// labelled link per output and append the fan-out filter.
pub open spec fn model_split_filter(
    cfg: PlayoutConfig,
    m: FiltersModel,
    nr: int,
    ty: FilterType,
) -> FiltersModel {
    let count = cfg.output.output_count as int;
    if count > 1 {
        let links0 = match ty {
            FilterType::Audio => m.audio_out_link,
            FilterType::Video => m.video_out_link,
        };
        let links = add_links(links0, ty, nr, 0, count);
        let m1 = match ty {
            FilterType::Audio => FiltersModel { audio_out_link: links, ..m },
            FilterType::Video => FiltersModel { video_out_link: links, ..m },
        };
        model_add_filter(m1, split_expr(cfg, links), nr, ty)
    } else {
        m
    }
}

/// Registers the split links for legs `0..count` of track `nr`.
fn push_links(links: &mut Vec<String>, ty: FilterType, nr: i32, count: i32)
    requires
        count >= 0,
    ensures
        final(links).deep_view() == add_links(old(links).deep_view(), ty, nr as int, 0, count as int),
{
    let ghost links0 = links.deep_view();
    let mut i: i32 = 0;
    while i < count
        invariant
            0 <= i <= count,
            add_links(links0, ty, nr as int, 0, count as int) == add_links(
                links.deep_view(),
                ty,
                nr as int,
                i as int,
                count as int,
            ),
        decreases count - i,
    {
        let mut link = String::from_str("[");
        link.append(crate::filters::ty_str(ty));
        link.append("out_");
        push_i64(&mut link, nr as i64);
        link.append("_");
        push_i64(&mut link, i as i64);
        link.append("]");
        proof {
            assert(link@ =~= split_label(ty, nr as int, i as int));
        }
        if !crate::filters::vec_has_string(links, &link) {
            let ghost before = links.deep_view();
            links.push(link);
            proof {
                assert(links.deep_view() =~= before.push(split_label(ty, nr as int, i as int)));
            }
        }
        i += 1;
    }
}

/// Joins all link labels into one string.
fn join_links(links: &Vec<String>) -> (r: String)
    ensures
        r@ == concat_texts(links.deep_view()),
{
    let mut r = String::new();
    let mut i: usize = 0;
    proof {
        assert(links.deep_view().take(0) =~= Seq::<Seq<char>>::empty());
    }
    while i < links.len()
        invariant
            i <= links.len(),
            r@ == concat_texts(links.deep_view().take(i as int)),
        decreases links.len() - i,
    {
        r.append(links[i].as_str());
        proof {
            assert(links.deep_view()[i as int] == links@[i as int]@);
            assert(links.deep_view().take(i + 1).drop_last() =~= links.deep_view().take(i as int));
            assert(links.deep_view().take(i + 1).last() == links.deep_view()[i as int]);
        }
        i += 1;
    }
    proof {
        assert(links.deep_view().take(links.len() as int) =~= links.deep_view());
    }
    r
}

/// Duplicates the final output of one track into the configured number of
/// labelled links, when more than one output is configured.
pub fn split_filter(config: &PlayoutConfig, chain: &mut Filters, nr: i32, filter_type: FilterType)
    requires
        config.wf(),
    ensures
        final(chain)@ == model_split_filter(*config, old(chain)@, nr as int, filter_type),
{
    let count = config.output.output_count;
    if count > 1 {
        match filter_type {
            FilterType::Audio => {
                push_links(&mut chain.audio_out_link, filter_type, nr, count);
            },
            FilterType::Video => {
                push_links(&mut chain.video_out_link, filter_type, nr, count);
            },
        }
        let joined = match filter_type {
            FilterType::Audio => join_links(&chain.audio_out_link),
            FilterType::Video => join_links(&chain.video_out_link),
        };
        let f = match &config.advanced.filter.split {
            Some(t) => custom_format(t.as_str(), &args2(int_string(count as i64), joined)),
            None => {
                let mut s = String::from_str("split=");
                push_i64(&mut s, count as i64);
                s.append(joined.as_str());
                s
            },
        };
        let ghost m1 = chain@;
        proof {
            let links = add_links(
                match filter_type {
                    FilterType::Audio => old(chain)@.audio_out_link,
                    FilterType::Video => old(chain)@.video_out_link,
                },
                filter_type,
                nr as int,
                0,
                count as int,
            );
            assert(m1 =~= (match filter_type {
                FilterType::Audio => FiltersModel { audio_out_link: links, ..old(chain)@ },
                FilterType::Video => FiltersModel { video_out_link: links, ..old(chain)@ },
            }));
            assert(f@ =~= split_expr(*config, links));
        }
        chain.add_filter(f.as_str(), nr, filter_type);
    }
}

/// Appends an audio pad when the probed audio duration falls short of the
/// required output span.
pub fn extend_audio(config: &PlayoutConfig, chain: &mut Filters, node: &Media, nr: i32)
    requires
        node.wf(),
    ensures
        final(chain)@ == model_extend_audio(*config, old(chain)@, *node, nr as int),
{
    if !node.audio_present {
        match &node.probe {
            Some(p) => {
                if p.audio.len() > 0 {
                    match p.audio[0].duration_milli {
                        Some(ad) => {
                            proof {
                                assert(p.audio@[0].duration_milli == Some(ad));
                            }
                            if node.out_milli - node.seek_milli > ad - node.seek_milli + 100
                                && node.duration_milli >= node.out_milli {
                                let span = node.out_milli - node.seek_milli;
                                let f = match &config.advanced.filter.apad {
                                    Some(t) => custom_format(t.as_str(), &args1(milli_string(span))),
                                    None => {
                                        let mut s = String::from_str("apad=whole_dur=");
                                        push_milli(&mut s, span);
                                        s
                                    },
                                };
                                proof {
                                    assert(f@ =~= apad_expr(*config, span as int));
                                }
                                chain.add_filter(f.as_str(), nr, FilterType::Audio);
                            }
                        },
                        None => {},
                    }
                }
            },
            None => {},
        }
    }
}

} // verus!
