//! Output-filter merge: splicing the built per-track chains into a
//! user-supplied custom complex-filter template by replacing its
//! input-placeholder tokens, and installing the result as the full command
//! override.
//!
//! A video input placeholder is `[`, one or more of `0`/`:`, one or more of
//! `v`/`^`/`[`, optionally more of `:`/`0`, then `]` — e.g. `[0:v]` or
//! `[0:v:0]`; only the first one is replaced.  Audio placeholders are the
//! exact tokens `[0:a:<i>]` for each configured track, all replaced.

use vstd::prelude::*;
use crate::chain::FiltersModel;
use crate::config::{OutputMode, PlayoutConfig};
use crate::filters::Filters;
use crate::parse::{first_char_idx, lemma_first_char_at, lemma_first_char_idx};
use crate::text::{int_text, push_char, push_i64, replace_all, str_replace_all};

verus! {

/// Splits `s` on `c`, keeping empty parts and a trailing empty part.
pub open spec fn raw_split(s: Seq<char>, c: char) -> Seq<Seq<char>>
    decreases s.len(),
{
    let i = first_char_idx(s, c);
    if 0 <= i && i < s.len() {
        seq![s.take(i)] + raw_split(s.skip(i + 1), c)
    } else {
        seq![s]
    }
}

proof fn lemma_raw_split_step(cur: Seq<char>, c: char, rest: Seq<char>)
    requires
        forall|j: int| 0 <= j < cur.len() ==> cur[j] != c,
    ensures
        raw_split(cur + seq![c] + rest, c) == seq![cur] + raw_split(rest, c),
{
    let s = cur + seq![c] + rest;
    assert(s[cur.len() as int] == c);
    assert(forall|j: int| 0 <= j < cur.len() ==> s[j] == cur[j]);
    lemma_first_char_at(s, c, cur.len() as int);
    assert(s.take(cur.len() as int) =~= cur);
    assert(s.skip(cur.len() as int + 1) =~= rest);
}

proof fn lemma_raw_split_whole(cur: Seq<char>, c: char)
    requires
        forall|j: int| 0 <= j < cur.len() ==> cur[j] != c,
    ensures
        raw_split(cur, c) == seq![cur],
{
    lemma_first_char_idx(cur, c);
}

/// Splits a string on one character, keeping empty parts.
pub fn split_on_char(s: &str, c: char) -> (out: Vec<String>)
    ensures
        out.deep_view() == raw_split(s@, c),
{
    let l = s.unicode_len();
    let mut out: Vec<String> = Vec::new();
    let mut cur = String::new();
    let ghost mut done: Seq<Seq<char>> = seq![];
    let mut i: usize = 0;
    proof {
        assert(cur@ + s@.skip(0) =~= s@);
        assert(out.deep_view() =~= done);
    }
    while i < l
        invariant
            i <= l,
            l == s@.len(),
            raw_split(s@, c) == done + raw_split(cur@ + s@.skip(i as int), c),
            out.deep_view() == done,
            forall|j: int| 0 <= j < cur@.len() ==> cur@[j] != c,
        decreases l - i,
    {
        let x = s.get_char(i);
        proof {
            assert(s@.skip(i as int) =~= seq![s@[i as int]] + s@.skip(i + 1));
        }
        if x == c {
            proof {
                assert(cur@ + s@.skip(i as int) =~= cur@ + seq![c] + s@.skip(i + 1));
                lemma_raw_split_step(cur@, c, s@.skip(i + 1));
                assert(done + (seq![cur@] + raw_split(s@.skip(i + 1), c)) =~= (done + seq![cur@])
                    + raw_split(s@.skip(i + 1), c));
            }
            let ghost prev = cur@;
            out.push(cur);
            proof {
                done = done + seq![prev];
                assert(out.deep_view() =~= done);
            }
            cur = String::new();
            proof {
                assert(cur@ + s@.skip(i + 1) =~= s@.skip(i + 1));
            }
        } else {
            let ghost prev = cur@;
            push_char(&mut cur, x);
            proof {
                assert(cur@ + s@.skip(i + 1) =~= prev + s@.skip(i as int));
                assert(forall|j: int| 0 <= j < prev.len() ==> cur@[j] == prev[j]);
            }
        }
        i += 1;
    }
    proof {
        assert(cur@ + s@.skip(l as int) =~= cur@);
        lemma_raw_split_whole(cur@, c);
    }
    out.push(cur);
    proof {
        assert(out.deep_view() =~= raw_split(s@, c));
    }
    out
}

/// Characters allowed in the selector runs of a placeholder.
pub open spec fn sel_char(c: char) -> bool {
    c == '0' || c == ':'
}

/// Characters allowed in the stream-tag run of a video placeholder.
pub open spec fn vtag_char(c: char) -> bool {
    c == 'v' || c == '^' || c == '['
}

/// End of the maximal run of selector or tag characters starting at `i`.
pub open spec fn run_end(s: Seq<char>, i: int, vtag: bool) -> int
    decreases s.len() - i,
{
    if 0 <= i && i < s.len() && (if vtag {
        vtag_char(s[i])
    } else {
        sel_char(s[i])
    }) {
        run_end(s, i + 1, vtag)
    } else {
        i
    }
}

proof fn lemma_run_end_bounds(s: Seq<char>, i: int, vtag: bool)
    requires
        0 <= i <= s.len(),
    ensures
        i <= run_end(s, i, vtag) <= s.len(),
    decreases s.len() - i,
{
    if i < s.len() && (if vtag {
        vtag_char(s[i])
    } else {
        sel_char(s[i])
    }) {
        lemma_run_end_bounds(s, i + 1, vtag);
    }
}

/// End index (exclusive) of a video placeholder starting at `i`, or -1 when
/// none starts there.
pub open spec fn v_ph_end(s: Seq<char>, i: int) -> int {
    if 0 <= i && i < s.len() && s[i] == '[' {
        let a = run_end(s, i + 1, false);
        if a > i + 1 {
            let b = run_end(s, a, true);
            if b > a {
                let c2 = run_end(s, b, false);
                if c2 < s.len() && s[c2] == ']' {
                    c2 + 1
                } else {
                    -1
                }
            } else {
                -1
            }
        } else {
            -1
        }
    } else {
        -1
    }
}

/// First position at or after `i` where a video placeholder starts, or -1.
pub open spec fn first_v_ph(s: Seq<char>, i: int) -> int
    decreases s.len() - i,
{
    if 0 <= i && i < s.len() {
        if v_ph_end(s, i) >= 0 {
            i
        } else {
            first_v_ph(s, i + 1)
        }
    } else {
        -1
    }
}

proof fn lemma_first_v_ph_bounds(s: Seq<char>, i: int)
    requires
        0 <= i,
    ensures
        first_v_ph(s, i) == -1 || (i <= first_v_ph(s, i) < s.len() && v_ph_end(
            s,
            first_v_ph(s, i),
        ) >= 0),
    decreases s.len() - i,
{
    if i < s.len() && v_ph_end(s, i) < 0 {
        lemma_first_v_ph_bounds(s, i + 1);
    }
}

/// The custom template with its first video placeholder replaced by the
/// built video chain followed by a comma; unchanged when no placeholder
/// occurs.
pub open spec fn merge_video(cf: Seq<char>, vchain: Seq<char>) -> Seq<char> {
    let i = first_v_ph(cf, 0);
    if i >= 0 {
        cf.take(i) + vchain + ","@ + cf.skip(v_ph_end(cf, i))
    } else {
        cf
    }
}

fn sel_char_exec(c: char) -> (r: bool)
    ensures
        r == sel_char(c),
{
    c == '0' || c == ':'
}

fn vtag_char_exec(c: char) -> (r: bool)
    ensures
        r == vtag_char(c),
{
    c == 'v' || c == '^' || c == '['
}

fn run_end_exec(s: &str, i: usize, vtag: bool) -> (r: usize)
    requires
        i <= s@.len(),
    ensures
        r as int == run_end(s@, i as int, vtag),
        i <= r <= s@.len(),
{
    let l = s.unicode_len();
    let mut j = i;
    while j < l
        invariant
            i <= j <= l,
            l == s@.len(),
            run_end(s@, i as int, vtag) == run_end(s@, j as int, vtag),
        decreases l - j,
    {
        let c = s.get_char(j);
        let inside = if vtag {
            vtag_char_exec(c)
        } else {
            sel_char_exec(c)
        };
        if !inside {
            proof {
                assert(run_end(s@, j as int, vtag) == j as int);
            }
            return j;
        }
        j += 1;
    }
    proof {
        assert(run_end(s@, j as int, vtag) == j as int);
    }
    j
}

/// Computes `v_ph_end` for position `i`.
fn v_ph_end_exec(s: &str, i: usize) -> (r: Option<usize>)
    requires
        i <= s@.len(),
    ensures
        match r {
            Some(e) => v_ph_end(s@, i as int) == e as int && i < e <= s@.len(),
            None => v_ph_end(s@, i as int) == -1,
        },
{
    let l = s.unicode_len();
    if i >= l || s.get_char(i) != '[' {
        return None;
    }
    let a = run_end_exec(s, i + 1, false);
    if !(a > i + 1) {
        return None;
    }
    let b = run_end_exec(s, a, true);
    if !(b > a) {
        return None;
    }
    let c2 = run_end_exec(s, b, false);
    if c2 < l && s.get_char(c2) == ']' {
        Some(c2 + 1)
    } else {
        None
    }
}

/// Replaces the first video placeholder of `cf` by `vchain` and a comma.
pub fn merge_video_exec(cf: &str, vchain: &str) -> (r: String)
    ensures
        r@ == merge_video(cf@, vchain@),
{
    let l = cf.unicode_len();
    let mut i: usize = 0;
    while i < l
        invariant
            i <= l,
            l == cf@.len(),
            first_v_ph(cf@, 0) == first_v_ph(cf@, i as int),
        decreases l - i,
    {
        match v_ph_end_exec(cf, i) {
            Some(e) => {
                proof {
                    assert(first_v_ph(cf@, i as int) == i);
                }
                let mut out = String::from_str(cf.substring_char(0, i));
                out.append(vchain);
                out.append(",");
                out.append(cf.substring_char(e, l));
                proof {
                    assert(cf@.subrange(0, i as int) =~= cf@.take(i as int));
                    assert(cf@.subrange(e as int, l as int) =~= cf@.skip(e as int));
                    assert(out@ =~= merge_video(cf@, vchain@));
                }
                return out;
            },
            None => {
                i += 1;
            },
        }
    }
    proof {
        assert(first_v_ph(cf@, l as int) == -1);
    }
    String::from_str(cf)
}

/// The audio chain piece for track `i`: the `i`-th `;`-separated part of the
/// built audio chain, with its output label removed.
pub open spec fn audio_piece(achain: Seq<char>, i: int) -> Seq<char> {
    replace_all(raw_split(achain, ';')[i], "[aout"@ + int_text(i) + "]"@, Seq::empty())
}

/// The template after inserting audio pieces for tracks `i..n`: each exact
/// token `[0:a:<i>]` is replaced by the piece followed by a comma.  A track
/// beyond the built pieces leaves the template unchanged.
pub open spec fn audio_insert(cf: Seq<char>, achain: Seq<char>, i: int, n: int) -> Seq<char>
    decreases n - i,
{
    if i >= n {
        cf
    } else {
        let parts = raw_split(achain, ';');
        let cf2: Seq<char> = if i < parts.len() {
            replace_all(cf, "[0:a:"@ + int_text(i) + "]"@, audio_piece(achain, i) + ","@)
        } else {
            cf
        };
        audio_insert(cf2, achain, i + 1, n)
    }
}

/// The merged override: when complex text overlay is active or the output
/// mode is streaming, the chains are spliced into the template; otherwise
/// the template stands verbatim.
pub open spec fn merged_filter(cfg: PlayoutConfig, m: FiltersModel, cf: Seq<char>) -> Seq<char> {
    if (cfg.text.add_text && !cfg.text.text_from_filename) || cfg.output.mode == OutputMode::HLS {
        let cf1: Seq<char> = if m.video.chain.len() > 0 {
            merge_video(cf, m.video.chain)
        } else {
            cf
        };
        if m.audio.chain.len() > 0 {
            audio_insert(cf1, m.audio.chain, 0, cfg.processing.audio_tracks as int)
        } else {
            cf1
        }
    } else {
        cf
    }
}

/// Merge stage: installs the merged override as the full command, replacing
/// normal output assembly.
pub open spec fn model_process_output_filters(
    cfg: PlayoutConfig,
    m: FiltersModel,
    cf: Seq<char>,
) -> FiltersModel {
    FiltersModel { output_chain: seq!["-filter_complex"@, merged_filter(cfg, m, cf)], ..m }
}

/// Splices the built chains into a user-supplied custom complex-filter
/// template and installs the result as the full command override.
pub fn process_output_filters(config: &PlayoutConfig, chain: &mut Filters, custom_filter: &str)
    requires
        config.wf(),
    ensures
        final(chain)@ == model_process_output_filters(*config, old(chain)@, custom_filter@),
{
    let do_merge = (config.text.add_text && !config.text.text_from_filename) || matches!(
        config.output.mode,
        OutputMode::HLS,
    );
    let f: String = if do_merge {
        let mut cf = if !chain.video_chain.as_str().is_empty() {
            merge_video_exec(custom_filter, chain.video_chain.as_str())
        } else {
            String::from_str(custom_filter)
        };
        if !chain.audio_chain.as_str().is_empty() {
            let parts = split_on_char(chain.audio_chain.as_str(), ';');
            let n = config.processing.audio_tracks;
            let ghost achain = chain.audio_chain@;
            let ghost cf1 = cf@;
            let mut i: i32 = 0;
            while i < n
                invariant
                    0 <= i <= n,
                    parts.deep_view() == raw_split(achain, ';'),
                    audio_insert(cf1, achain, 0, n as int) == audio_insert(
                        cf@,
                        achain,
                        i as int,
                        n as int,
                    ),
                decreases n - i,
            {
                if (i as usize) < parts.len() {
                    let mut tok = String::from_str("[aout");
                    push_i64(&mut tok, i as i64);
                    tok.append("]");
                    proof {
                        assert(tok@ =~= "[aout"@ + int_text(i as int) + "]"@);
                        assert(parts.deep_view()[i as int] == parts@[i as int]@);
                    }
                    let piece = str_replace_all(parts[i as usize].as_str(), tok.as_str(), "");
                    proof {
                        reveal_strlit("");
                        assert(""@ =~= Seq::<char>::empty());
                        assert(piece@ == audio_piece(achain, i as int));
                    }
                    let mut ph = String::from_str("[0:a:");
                    push_i64(&mut ph, i as i64);
                    ph.append("]");
                    proof {
                        assert(ph@ =~= "[0:a:"@ + int_text(i as int) + "]"@);
                    }
                    let mut rep = piece;
                    rep.append(",");
                    cf = str_replace_all(cf.as_str(), ph.as_str(), rep.as_str());
                }
                i += 1;
            }
        }
        cf
    } else {
        String::from_str(custom_filter)
    };
    let mut oc: Vec<String> = Vec::new();
    oc.push(String::from_str("-filter_complex"));
    oc.push(f);
    proof {
        assert(oc.deep_view() =~= seq![
            "-filter_complex"@,
            merged_filter(*config, old(chain)@, custom_filter@),
        ]);
    }
    chain.output_chain = oc;
    proof {
        assert(final(chain)@ =~= model_process_output_filters(
            *config,
            old(chain)@,
            custom_filter@,
        ));
    }
}

} // verus!
