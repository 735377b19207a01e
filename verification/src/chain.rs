//! The mathematical model of the graph state: one `HalfModel` per stream
//! type (its chain text, output labels, input position and last-track
//! marker), and the transition function `model_add_half` describing exactly
//! what one append does to a half.  The executable methods on `Filters`
//! promise that they realise these transitions.

use vstd::prelude::*;
use crate::hw::{
    spec_hw_download, spec_hw_upload, spec_is_hw, spec_last_is_hw, spec_upload_text,
};
use crate::text::{first_is, has_sub, int_text, last_is, txt_starts};

verus! {

/// Stream type selector of one chain half.
#[derive(Clone, Copy, Debug, PartialEq, Eq, Structural)]
pub enum FilterType {
    Audio,
    Video,
}

/// One-letter stream type tag used inside labels and selectors.
pub open spec fn ty_text(ty: FilterType) -> Seq<char> {
    match ty {
        FilterType::Audio => "a"@,
        FilterType::Video => "v"@,
    }
}

/// The bracketed output label of track `n`, e.g. `[vout0]`.
pub open spec fn out_label(ty: FilterType, n: int) -> Seq<char> {
    "["@ + ty_text(ty) + "out"@ + int_text(n) + "]"@
}

/// The implicit input selector of a track, e.g. `[0:v:0]`.
pub open spec fn in_selector(pos: int, ty: FilterType, track: int) -> Seq<char> {
    "["@ + int_text(pos) + ":"@ + ty_text(ty) + ":"@ + int_text(track) + "]"@
}

/// Ghost state of one chain half.
#[verifier::ext_equal]
pub ghost struct HalfModel {
    /// The chain text built so far.
    pub chain: Seq<char>,
    /// One registered output label per track that received a filter.
    pub labels: Seq<Seq<char>>,
    /// Input-stream position offset.
    pub pos: int,
    /// Last track appended to; -1 before the first append.
    pub last: int,
}

impl HalfModel {
    /// The empty half with input position `pos`.
    pub open spec fn init(pos: int) -> HalfModel {
        HalfModel { chain: Seq::empty(), labels: Seq::empty(), pos: pos, last: -1 }
    }
}

/// A filter expression that is a source generator: it feeds no stream input,
/// so no input selector is prepended.
pub open spec fn is_source_gen(f: Seq<char>) -> bool {
    txt_starts(f, "aevalsrc"@) || txt_starts(f, "movie"@)
}

/// Text appended to the chain on a track transition: close the previous
/// chain with its output label and a `;` (when one exists), then open the
/// new track with its input selector — unless the filter is a source
/// generator — inserting a download bridge when the hardware context is
/// active but the filter is a software video filter.
pub open spec fn switch_text(
    h: HalfModel,
    hw: bool,
    f: Seq<char>,
    track: int,
    ty: FilterType,
) -> Seq<char> {
    let prefix: Seq<char> = if h.chain.len() == 0 {
        Seq::empty()
    } else {
        out_label(ty, h.last)
    };
    let sep: Seq<char> = if h.chain.len() == 0 {
        Seq::empty()
    } else {
        ";"@
    };
    if is_source_gen(f) {
        prefix + sep + f
    } else {
        let dl: Seq<char> = if hw && !spec_is_hw(f) && ty == FilterType::Video {
            "hwdownload,format=nv12,"@
        } else {
            Seq::empty()
        };
        prefix + sep + in_selector(h.pos, ty, track) + dl + f
    }
}

/// The same-track link-expression case: the filter continues the chain text
/// itself (starts with a separator, a label bracket or a source generator,
/// or the chain ends mid-label), so it is appended verbatim after any owed
/// bridges.
pub open spec fn is_link_expr(chain: Seq<char>, f: Seq<char>) -> bool {
    first_is(f, ';') || first_is(f, '[') || txt_starts(f, "movie"@) || last_is(chain, '[')
}

/// The transition of one half under `append(f, track, ty)`.
pub open spec fn model_add_half(
    h: HalfModel,
    hw: bool,
    cuda: bool,
    f: Seq<char>,
    track: int,
    ty: FilterType,
) -> HalfModel {
    if h.last != track {
        HalfModel {
            chain: h.chain + switch_text(h, hw, f, track, ty),
            labels: h.labels + seq![out_label(ty, track)],
            pos: h.pos,
            last: track,
        }
    } else if is_link_expr(h.chain, f) {
        let up = spec_hw_upload(cuda, h.chain, f);
        let c1 = h.chain + up;
        let dn = spec_hw_download(c1, f);
        HalfModel { chain: c1 + dn + f, ..h }
    } else if has_sub(f, "overlay"@) {
        let up: Seq<char> = if hw && !spec_last_is_hw(h.chain) {
            ","@ + spec_upload_text(cuda)
        } else {
            Seq::empty()
        };
        HalfModel { chain: h.chain + up + "[l];[v][l]"@ + f, ..h }
    } else {
        let up = spec_hw_upload(cuda, h.chain, f);
        let dn = spec_hw_download(h.chain, f);
        let bridge: Seq<char> = if up.len() != 0 || dn.len() != 0 {
            ","@ + up + dn
        } else if hw && !spec_last_is_hw(h.chain) && last_is(f, ';') {
            ","@ + spec_upload_text(cuda)
        } else {
            Seq::empty()
        };
        HalfModel { chain: h.chain + bridge + ","@ + f, ..h }
    }
}

/// The `-map` pairs an append registers: one pair on a track transition,
/// none on a same-track continuation.
pub open spec fn model_map_additions(h: HalfModel, track: int, ty: FilterType) -> Seq<Seq<char>> {
    if h.last != track {
        seq!["-map"@, out_label(ty, track)]
    } else {
        Seq::empty()
    }
}

/// Ghost state of the whole graph.
#[verifier::ext_equal]
pub ghost struct FiltersModel {
    /// Hardware context derived from the decoder parameters.
    pub hw_context: bool,
    /// Whether the CUDA upload variant is selected.
    pub cuda: bool,
    pub audio: HalfModel,
    pub video: HalfModel,
    pub audio_out_link: Seq<Seq<char>>,
    pub video_out_link: Seq<Seq<char>>,
    /// Full override of the assembled command, when set.
    pub output_chain: Seq<Seq<char>>,
    /// Accumulated `-map` argument pairs.
    pub output_map: Seq<Seq<char>>,
    pub audio_only: bool,
    pub audio_tracks: int,
}

/// The half selected by a stream type.
pub open spec fn half_of(m: FiltersModel, ty: FilterType) -> HalfModel {
    match ty {
        FilterType::Audio => m.audio,
        FilterType::Video => m.video,
    }
}

/// The transition of the whole graph state under `append(f, track, ty)`:
/// exactly one half changes, and the map pairs grow accordingly.
pub open spec fn model_add_filter(
    m: FiltersModel,
    f: Seq<char>,
    track: int,
    ty: FilterType,
) -> FiltersModel {
    let h = half_of(m, ty);
    let h2 = model_add_half(h, m.hw_context, m.cuda, f, track, ty);
    let om = m.output_map + model_map_additions(h, track, ty);
    match ty {
        FilterType::Audio => FiltersModel { audio: h2, output_map: om, ..m },
        FilterType::Video => FiltersModel { video: h2, output_map: om, ..m },
    }
}

/// A half closed for output: when it received appends but does not already
/// end in a label, its output label is attached.
pub open spec fn close_chain(h: HalfModel, ty: FilterType) -> Seq<char> {
    if h.last >= 0 && !last_is(h.chain, ']') {
        h.chain + out_label(ty, h.last)
    } else {
        h.chain
    }
}

/// The full graph text: the closed video chain and the closed audio chain,
/// joined with `;` when both are non-empty.
pub open spec fn model_graph(m: FiltersModel) -> Seq<char> {
    let v = close_chain(m.video, FilterType::Video);
    let a = close_chain(m.audio, FilterType::Audio);
    if a.len() == 0 {
        v
    } else if v.len() == 0 {
        a
    } else {
        v + ";"@ + a
    }
}

/// Finalise-to-command: the override verbatim when set; otherwise
/// `-filter_complex` with the graph text, or nothing when the graph is
/// empty.
pub open spec fn model_cmd(m: FiltersModel) -> Seq<Seq<char>> {
    if m.output_chain.len() != 0 {
        m.output_chain
    } else {
        let g = model_graph(m);
        if g.len() == 0 {
            Seq::empty()
        } else {
            seq!["-filter_complex"@, g]
        }
    }
}

/// Default audio map selectors appended for tracks `i..n` when the audio
/// half was never touched, skipping selectors already present.
pub open spec fn audio_defaults(o: Seq<Seq<char>>, pos: int, i: int, n: int) -> Seq<Seq<char>>
    decreases n - i,
{
    if i >= n {
        o
    } else {
        let sel = int_text(pos) + ":a:"@ + int_text(i);
        let o2: Seq<Seq<char>> = if o.contains(sel) {
            o
        } else {
            o + seq!["-map"@, sel]
        };
        audio_defaults(o2, pos, i + 1, n)
    }
}

/// Finalise-to-map: the accumulated pairs, plus a default video selector
/// when the video half was never touched and the item is not audio-only,
/// plus default audio selectors when the audio half was never touched.
pub open spec fn model_map(m: FiltersModel) -> Seq<Seq<char>> {
    let o1: Seq<Seq<char>> = if m.video.last == -1 && !m.audio_only && !m.output_map.contains(
        "0:v"@,
    ) {
        m.output_map + seq!["-map"@, "0:v"@]
    } else {
        m.output_map
    };
    if m.audio.last == -1 {
        audio_defaults(o1, m.audio.pos, 0, m.audio_tracks)
    } else {
        o1
    }
}

} // verus!
