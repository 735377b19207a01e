//! The mutable graph state and its operations: constructing the empty state
//! from a configuration, appending one filter expression to a track's chain,
//! and finalising to command-line and map arguments.
//!
//! Every mutating method promises exactly the transition of the ghost model
//! in [`crate::chain`].

use vstd::prelude::*;
use crate::chain::{
    audio_defaults, close_chain, in_selector, model_add_filter, model_add_half, model_cmd,
    model_graph, model_map, model_map_additions, out_label, switch_text, ty_text, FilterType,
    FiltersModel, HalfModel,
};
use crate::config::PlayoutConfig;
use crate::hw::{hw_download, hw_upload, hw_upload_str, is_hw, last_is_hw, spec_cuda};
use crate::text::{has_sub, push_i64, str_first_is, str_has_sub, str_last_is, str_starts};

verus! {

/// One-letter stream type tag.
pub fn ty_str(ty: FilterType) -> (r: &'static str)
    ensures
        r@ == ty_text(ty),
{
    match ty {
        FilterType::Audio => "a",
        FilterType::Video => "v",
    }
}

/// Builds the output label of track `n`, e.g. `[vout0]`.
pub fn label_string(ty: FilterType, n: i32) -> (r: String)
    ensures
        r@ == out_label(ty, n as int),
{
    let mut s = String::from_str("[");
    s.append(ty_str(ty));
    s.append("out");
    push_i64(&mut s, n as i64);
    s.append("]");
    proof {
        assert(s@ =~= out_label(ty, n as int));
    }
    s
}

/// Builds the input selector of a track, e.g. `[0:v:0]`.
fn selector_string(pos: i32, ty: FilterType, track: i32) -> (r: String)
    ensures
        r@ == in_selector(pos as int, ty, track as int),
{
    let mut s = String::from_str("[");
    push_i64(&mut s, pos as i64);
    s.append(":");
    s.append(ty_str(ty));
    s.append(":");
    push_i64(&mut s, track as i64);
    s.append("]");
    proof {
        assert(s@ =~= in_selector(pos as int, ty, track as int));
    }
    s
}

/// Copies a vector of strings.
pub fn clone_string_vec(v: &Vec<String>) -> (r: Vec<String>)
    ensures
        r.deep_view() == v.deep_view(),
{
    let mut r: Vec<String> = Vec::new();
    proof {
        assert(r.deep_view() =~= v.deep_view().take(0));
    }
    let mut i: usize = 0;
    while i < v.len()
        invariant
            i <= v.len(),
            r.deep_view() == v.deep_view().take(i as int),
        decreases v.len() - i,
    {
        let ghost before = r.deep_view();
        r.push(v[i].clone());
        proof {
            assert(v.deep_view()[i as int] == v@[i as int]@);
            assert(r.deep_view() =~= before.push(v.deep_view()[i as int]));
            assert(r.deep_view() =~= v.deep_view().take(i + 1));
        }
        i += 1;
    }
    proof {
        assert(v.deep_view().take(v.len() as int) =~= v.deep_view());
    }
    r
}

/// True iff some entry of `v` equals `x`.
pub fn vec_has_string(v: &Vec<String>, x: &String) -> (r: bool)
    ensures
        r == v.deep_view().contains(x@),
{
    let mut i: usize = 0;
    while i < v.len()
        invariant
            i <= v.len(),
            forall|j: int| 0 <= j < i ==> v.deep_view()[j] != x@,
        decreases v.len() - i,
    {
        if v[i].eq(x) {
            proof {
                assert(v.deep_view()[i as int] == v@[i as int]@);
                assert(v.deep_view().contains(x@)) by {
                    assert(v.deep_view()[i as int] == x@);
                }
            }
            return true;
        }
        proof {
            assert(v.deep_view()[i as int] == v@[i as int]@);
        }
        i += 1;
    }
    proof {
        assert(!v.deep_view().contains(x@));
    }
    false
}

/// The graph state of one media item: two independent chain halves, their
/// labels, the accumulated map pairs and the optional full override.
#[derive(Clone, Debug)]
pub struct Filters {
    /// Hardware context derived once from the decoder parameters.
    pub hw_context: bool,
    pub audio_chain: String,
    pub video_chain: String,
    pub output_chain: Vec<String>,
    pub audio_map: Vec<String>,
    pub video_map: Vec<String>,
    pub audio_out_link: Vec<String>,
    pub video_out_link: Vec<String>,
    pub output_map: Vec<String>,
    /// The configuration snapshot the state was built from.
    pub config: PlayoutConfig,
    /// Input-stream position of the audio half; 1 when the audio comes from
    /// a separate input.
    pub audio_position: i32,
    /// Input-stream position of the video half.
    pub video_position: i32,
    /// Last audio track appended to; -1 before the first append.
    pub audio_last: i32,
    /// Last video track appended to; -1 before the first append.
    pub video_last: i32,
}

impl View for Filters {
    type V = FiltersModel;

    open spec fn view(&self) -> FiltersModel {
        FiltersModel {
            hw_context: self.hw_context,
            cuda: spec_cuda(&self.config),
            audio: HalfModel {
                chain: self.audio_chain@,
                labels: self.audio_map.deep_view(),
                pos: self.audio_position as int,
                last: self.audio_last as int,
            },
            video: HalfModel {
                chain: self.video_chain@,
                labels: self.video_map.deep_view(),
                pos: self.video_position as int,
                last: self.video_last as int,
            },
            audio_out_link: self.audio_out_link.deep_view(),
            video_out_link: self.video_out_link.deep_view(),
            output_chain: self.output_chain.deep_view(),
            output_map: self.output_map.deep_view(),
            audio_only: self.config.processing.audio_only,
            audio_tracks: self.config.processing.audio_tracks as int,
        }
    }
}

/// The initial graph state: empty chains, last-track markers at -1, and the
/// hardware context derived once from the decoder input parameters.
pub open spec fn model_new(config: &PlayoutConfig, audio_position: int) -> FiltersModel {
    FiltersModel {
        hw_context: spec_hw_context(config),
        cuda: spec_cuda(config),
        audio: HalfModel::init(audio_position),
        video: HalfModel::init(0),
        audio_out_link: Seq::empty(),
        video_out_link: Seq::empty(),
        output_chain: Seq::empty(),
        output_map: Seq::empty(),
        audio_only: config.processing.audio_only,
        audio_tracks: config.processing.audio_tracks as int,
    }
}

/// A hardware context exists when the decoder input parameters mention a
/// hardware flag.
pub open spec fn spec_hw_context(config: &PlayoutConfig) -> bool {
    match config.advanced.decoder_input_param {
        Some(ref p) => has_sub(p@, "-hw"@),
        None => false,
    }
}

/// Appends one filter expression to the half held in the given fields; the
/// effect is exactly `model_add_half`, and the map pairs grow by
/// `model_map_additions`.
#[allow(clippy::too_many_arguments)]
#[verifier::rlimit(60)]
fn add_half(
    chain: &mut String,
    labels: &mut Vec<String>,
    out_map: &mut Vec<String>,
    last: &mut i32,
    pos: i32,
    hw_context: bool,
    config: &PlayoutConfig,
    filter: &str,
    track_nr: i32,
    ty: FilterType,
)
    ensures
        ({
            let h = HalfModel {
                chain: old(chain)@,
                labels: old(labels).deep_view(),
                pos: pos as int,
                last: *old(last) as int,
            };
            let h2 = model_add_half(
                h,
                hw_context,
                spec_cuda(config),
                filter@,
                track_nr as int,
                ty,
            );
            &&& final(chain)@ == h2.chain
            &&& final(labels).deep_view() == h2.labels
            &&& *final(last) as int == h2.last
            &&& final(out_map).deep_view() == old(out_map).deep_view() + model_map_additions(
                h,
                track_nr as int,
                ty,
            )
        }),
{
    let ghost h = HalfModel {
        chain: chain@,
        labels: labels.deep_view(),
        pos: pos as int,
        last: *last as int,
    };
    if *last != track_nr {
        let was_empty = chain.as_str().is_empty();
        if !was_empty {
            let lbl = label_string(ty, *last);
            chain.append(lbl.as_str());
            chain.append(";");
        }
        if str_starts(filter, "aevalsrc") || str_starts(filter, "movie") {
            chain.append(filter);
        } else {
            let sel = selector_string(pos, ty, track_nr);
            chain.append(sel.as_str());
            if hw_context && !is_hw(filter) && matches!(ty, FilterType::Video) {
                chain.append("hwdownload,format=nv12,");
            }
            chain.append(filter);
        }
        proof {
            assert(chain@ =~= h.chain + switch_text(h, hw_context, filter@, track_nr as int, ty));
        }
        let m_lbl = label_string(ty, track_nr);
        labels.push(m_lbl.clone());
        out_map.push(String::from_str("-map"));
        out_map.push(m_lbl);
        *last = track_nr;
        proof {
            assert(labels.deep_view() =~= h.labels + seq![out_label(ty, track_nr as int)]);
            assert(out_map.deep_view() =~= old(out_map).deep_view() + seq![
                "-map"@,
                out_label(ty, track_nr as int),
            ]);
        }
    } else if str_first_is(filter, ';') || str_first_is(filter, '[') || str_starts(filter, "movie")
        || str_last_is(chain.as_str(), '[') {
        let up = hw_upload(config, chain.as_str(), filter);
        chain.append(up.as_str());
        let dn = hw_download(chain.as_str(), filter);
        chain.append(dn.as_str());
        chain.append(filter);
        proof {
            assert(chain@ =~= model_add_half(
                h,
                hw_context,
                spec_cuda(config),
                filter@,
                track_nr as int,
                ty,
            ).chain);
            assert(out_map.deep_view() =~= old(out_map).deep_view());
        }
    } else if str_has_sub(filter, "overlay") {
        if hw_context && !last_is_hw(chain.as_str()) {
            chain.append(",");
            let up = hw_upload_str(config);
            chain.append(up.as_str());
        }
        chain.append("[l];[v][l]");
        chain.append(filter);
        proof {
            assert(chain@ =~= model_add_half(
                h,
                hw_context,
                spec_cuda(config),
                filter@,
                track_nr as int,
                ty,
            ).chain);
            assert(out_map.deep_view() =~= old(out_map).deep_view());
        }
    } else {
        let up = hw_upload(config, chain.as_str(), filter);
        let dn = hw_download(chain.as_str(), filter);
        if !up.as_str().is_empty() || !dn.as_str().is_empty() {
            chain.append(",");
            chain.append(up.as_str());
            chain.append(dn.as_str());
        } else if hw_context && !last_is_hw(chain.as_str()) && str_last_is(filter, ';') {
            chain.append(",");
            let u = hw_upload_str(config);
            chain.append(u.as_str());
        }
        chain.append(",");
        chain.append(filter);
        proof {
            assert(chain@ =~= model_add_half(
                h,
                hw_context,
                spec_cuda(config),
                filter@,
                track_nr as int,
                ty,
            ).chain);
            assert(out_map.deep_view() =~= old(out_map).deep_view());
        }
    }
}

impl Filters {
    /// Constructs the empty graph state from a configuration snapshot; the
    /// hardware-context flag is derived here, once.
    pub fn new(config: PlayoutConfig, audio_position: i32) -> (r: Filters)
        ensures
            r@ == model_new(&config, audio_position as int),
    {
        let hw = match &config.advanced.decoder_input_param {
            Some(p) => str_has_sub(p.as_str(), "-hw"),
            None => false,
        };
        let r = Filters {
            hw_context: hw,
            audio_chain: String::new(),
            video_chain: String::new(),
            output_chain: Vec::new(),
            audio_map: Vec::new(),
            video_map: Vec::new(),
            audio_out_link: Vec::new(),
            video_out_link: Vec::new(),
            output_map: Vec::new(),
            config,
            audio_position,
            video_position: 0,
            audio_last: -1,
            video_last: -1,
        };
        proof {
            assert(r@ =~= model_new(&r.config, audio_position as int));
        }
        r
    }

    /// Appends one filter expression to the chain of `track_nr` within the
    /// half selected by `filter_type`; the effect on the whole state is
    /// exactly `model_add_filter`.
    pub fn add_filter(&mut self, filter: &str, track_nr: i32, filter_type: FilterType)
        ensures
            final(self)@ == model_add_filter(old(self)@, filter@, track_nr as int, filter_type),
    {
        match filter_type {
            FilterType::Audio => {
                let pos = self.audio_position;
                let hw = self.hw_context;
                add_half(
                    &mut self.audio_chain,
                    &mut self.audio_map,
                    &mut self.output_map,
                    &mut self.audio_last,
                    pos,
                    hw,
                    &self.config,
                    filter,
                    track_nr,
                    filter_type,
                );
            },
            FilterType::Video => {
                let pos = self.video_position;
                let hw = self.hw_context;
                add_half(
                    &mut self.video_chain,
                    &mut self.video_map,
                    &mut self.output_map,
                    &mut self.video_last,
                    pos,
                    hw,
                    &self.config,
                    filter,
                    track_nr,
                    filter_type,
                );
            },
        }
        proof {
            assert(final(self)@ =~= model_add_filter(
                old(self)@,
                filter@,
                track_nr as int,
                filter_type,
            ));
        }
    }

    /// Finalise-to-command: the override verbatim when set; otherwise the
    /// closed halves joined into one graph behind `-filter_complex`, or no
    /// arguments at all when nothing was ever appended.
    pub fn cmd(&mut self) -> (r: Vec<String>)
        ensures
            *final(self) == *old(self),
            r.deep_view() == model_cmd(old(self)@),
    {
        if self.output_chain.len() != 0 {
            return clone_string_vec(&self.output_chain);
        }
        let mut v_chain = self.video_chain.clone();
        let mut a_chain = self.audio_chain.clone();
        if self.video_last >= 0 && !str_last_is(v_chain.as_str(), ']') {
            let lbl = label_string(FilterType::Video, self.video_last);
            v_chain.append(lbl.as_str());
        }
        if self.audio_last >= 0 && !str_last_is(a_chain.as_str(), ']') {
            let lbl = label_string(FilterType::Audio, self.audio_last);
            a_chain.append(lbl.as_str());
        }
        proof {
            assert(v_chain@ == close_chain(old(self)@.video, FilterType::Video));
            assert(a_chain@ == close_chain(old(self)@.audio, FilterType::Audio));
        }
        let mut f_chain = v_chain;
        if !a_chain.as_str().is_empty() {
            if !f_chain.as_str().is_empty() {
                f_chain.append(";");
            }
            f_chain.append(a_chain.as_str());
        }
        proof {
            assert(f_chain@ =~= model_graph(old(self)@));
        }
        let mut out: Vec<String> = Vec::new();
        if !f_chain.as_str().is_empty() {
            out.push(String::from_str("-filter_complex"));
            out.push(f_chain);
        }
        proof {
            assert(out.deep_view() =~= model_cmd(old(self)@));
        }
        out
    }

    /// Finalise-to-map: the accumulated pairs plus the owed default
    /// selectors for untouched halves.
    pub fn map(&mut self) -> (r: Vec<String>)
        ensures
            *final(self) == *old(self),
            r.deep_view() == model_map(old(self)@),
    {
        let mut o = clone_string_vec(&self.output_map);
        if self.video_last == -1 && !self.config.processing.audio_only {
            let vm = String::from_str("0:v");
            if !vec_has_string(&o, &vm) {
                o.push(String::from_str("-map"));
                o.push(vm);
                proof {
                    assert(o.deep_view() =~= old(self)@.output_map + seq!["-map"@, "0:v"@]);
                }
            }
        }
        let ghost o1 = o.deep_view();
        if self.audio_last == -1 {
            let n = self.config.processing.audio_tracks;
            let pos = self.audio_position;
            let mut i: i32 = 0;
            if i < n {
                while i < n
                    invariant
                        0 <= i <= n,
                        audio_defaults(o1, pos as int, 0, n as int) == audio_defaults(
                            o.deep_view(),
                            pos as int,
                            i as int,
                            n as int,
                        ),
                    decreases n - i,
                {
                    let mut sel = crate::text::int_string(pos as i64);
                    sel.append(":a:");
                    push_i64(&mut sel, i as i64);
                    if !vec_has_string(&o, &sel) {
                        let ghost before = o.deep_view();
                        o.push(String::from_str("-map"));
                        o.push(sel);
                        proof {
                            assert(o.deep_view() =~= before + seq![
                                "-map"@,
                                crate::text::int_text(pos as int) + ":a:"@ + crate::text::int_text(
                                    i as int,
                                ),
                            ]);
                        }
                    }
                    i += 1;
                }
            }
        }
        proof {
            assert(o.deep_view() =~= model_map(old(self)@));
        }
        o
    }
}

} // verus!
