//! Global laws of the graph state, proved against the transition model:
//! chains stay bracket-balanced with no empty `;`-delimited segment, a first
//! append registers exactly one label and one map pair while a repeat
//! registers none, bridges are never redundant, an untouched state yields no
//! command arguments, and the default video map appears exactly when the
//! video half was never touched on a not-audio-only item.

use vstd::prelude::*;
use crate::chain::{
    close_chain, half_of, in_selector, is_link_expr, is_source_gen, model_add_filter,
    model_add_half, model_cmd, model_graph, model_map, model_map_additions, out_label,
    switch_text, ty_text, FilterType, FiltersModel, HalfModel,
};
use crate::hw::{spec_hw_download, spec_hw_upload, spec_last_is_hw, spec_upload_text};
use crate::text::{dec_digits, digit_char, first_is, int_text, last_is};

verus! {

/// Bracket scan: one level of labels, never nested, all closed at the end.
pub open spec fn bal(s: Seq<char>, inside: bool) -> bool
    decreases s.len(),
{
    if s.len() == 0 {
        !inside
    } else if s[0] == '[' {
        !inside && bal(s.skip(1), true)
    } else if s[0] == ']' {
        inside && bal(s.skip(1), false)
    } else {
        bal(s.skip(1), inside)
    }
}

/// Balanced bracket labels.
pub open spec fn balanced(s: Seq<char>) -> bool {
    bal(s, false)
}

/// No two adjacent chain separators, so no `;`-delimited segment is empty
/// (a trailing separator closes the last segment).
pub open spec fn nodd(s: Seq<char>) -> bool
    decreases s.len(),
{
    s.len() < 2 || (!(s[0] == ';' && s[1] == ';') && nodd(s.skip(1)))
}

/// Inner text: no bracket and no chain separator among its characters.
pub open spec fn plain(s: Seq<char>) -> bool
    decreases s.len(),
{
    s.len() == 0 || (s[0] != '[' && s[0] != ']' && s[0] != ';' && plain(s.skip(1)))
}

/// A well-formed chain: balanced, no empty segment, not opening with a
/// separator.
pub open spec fn chain_wf(s: Seq<char>) -> bool {
    &&& balanced(s)
    &&& nodd(s)
    &&& (s.len() > 0 ==> s[0] != ';')
}

/// A filter expression admitted by the laws: non-empty, balanced, without
/// empty segments, and not opening with a separator.
pub open spec fn filter_ok(f: Seq<char>) -> bool {
    &&& f.len() > 0
    &&& balanced(f)
    &&& nodd(f)
    &&& f[0] != ';'
}

/// Balance splits over concatenation when the right part starts closed.
pub proof fn lemma_bal_concat(a: Seq<char>, b: Seq<char>, inside: bool)
    requires
        bal(a, inside),
        bal(b, false),
    ensures
        bal(a + b, inside),
    decreases a.len(),
{
    if a.len() == 0 {
        assert(a + b =~= b);
    } else {
        assert((a + b).skip(1) =~= a.skip(1) + b);
        assert((a + b)[0] == a[0]);
        if a[0] == '[' {
            lemma_bal_concat(a.skip(1), b, true);
        } else if a[0] == ']' {
            lemma_bal_concat(a.skip(1), b, false);
        } else {
            lemma_bal_concat(a.skip(1), b, inside);
        }
    }
}

/// A plain prefix does not change the bracket state.
pub proof fn lemma_plain_prefix(a: Seq<char>, b: Seq<char>, inside: bool)
    requires
        plain(a),
    ensures
        bal(a + b, inside) == bal(b, inside),
    decreases a.len(),
{
    if a.len() == 0 {
        assert(a + b =~= b);
    } else {
        assert((a + b).skip(1) =~= a.skip(1) + b);
        assert((a + b)[0] == a[0]);
        lemma_plain_prefix(a.skip(1), b, inside);
    }
}

/// Plain text is balanced.
pub proof fn lemma_plain_balanced(a: Seq<char>)
    requires
        plain(a),
    ensures
        balanced(a),
{
    lemma_plain_prefix(a, Seq::empty(), false);
    assert(a + Seq::<char>::empty() =~= a);
}

/// Plain text is free of separators at every index.
pub proof fn lemma_plain_at(a: Seq<char>, i: int)
    requires
        plain(a),
        0 <= i < a.len(),
    ensures
        a[i] != '[' && a[i] != ']' && a[i] != ';',
    decreases i,
{
    if i > 0 {
        lemma_plain_at(a.skip(1), i - 1);
    }
}

/// Plain text has no adjacent separators.
pub proof fn lemma_plain_nodd(a: Seq<char>)
    requires
        plain(a),
    ensures
        nodd(a),
    decreases a.len(),
{
    if a.len() >= 2 {
        lemma_plain_nodd(a.skip(1));
    }
}

/// Plain parts concatenate to plain text.
pub proof fn lemma_plain_concat(a: Seq<char>, b: Seq<char>)
    requires
        plain(a),
        plain(b),
    ensures
        plain(a + b),
    decreases a.len(),
{
    if a.len() == 0 {
        assert(a + b =~= b);
    } else {
        assert((a + b).skip(1) =~= a.skip(1) + b);
        lemma_plain_concat(a.skip(1), b);
    }
}

/// `nodd` splits over concatenation when the junction is not `;;`.
pub proof fn lemma_nodd_concat(a: Seq<char>, b: Seq<char>)
    requires
        nodd(a),
        nodd(b),
        a.len() > 0 && b.len() > 0 ==> !(a[a.len() - 1] == ';' && b[0] == ';'),
    ensures
        nodd(a + b),
    decreases a.len(),
{
    if a.len() == 0 {
        assert(a + b =~= b);
    } else if a.len() == 1 {
        assert((a + b).skip(1) =~= b);
        lemma_nodd_tail(a + b);
    } else {
        assert((a + b).skip(1) =~= a.skip(1) + b);
        lemma_nodd_concat(a.skip(1), b);
    }
}

proof fn lemma_nodd_tail(s: Seq<char>)
    requires
        s.len() >= 1,
        nodd(s.skip(1)),
        s.len() >= 2 ==> !(s[0] == ';' && s[1] == ';'),
    ensures
        nodd(s),
{
}

/// A single non-separator character is plain text.
pub proof fn lemma_plain_single(c: char)
    requires
        c != '[',
        c != ']',
        c != ';',
    ensures
        plain(seq![c]),
{
    let s = seq![c];
    assert(s.skip(1) =~= Seq::<char>::empty());
    assert(plain(Seq::<char>::empty()));
    assert(s[0] == c);
    assert(s.len() == 1);
}

/// Decimal digit text is plain.
pub proof fn lemma_dec_digits_plain(n: nat)
    ensures
        plain(dec_digits(n)),
    decreases n,
{
    if n < 10 {
        lemma_plain_single(digit_char(n as int));
    } else {
        lemma_dec_digits_plain(n / 10);
        lemma_plain_single(digit_char((n % 10) as int));
        lemma_plain_concat(dec_digits(n / 10), seq![digit_char((n % 10) as int)]);
    }
}

proof fn lemma_lit_semi()
    ensures
        ";"@ =~= seq![';'],
{
    reveal_strlit(";");
    assert(";"@.len() == 1);
}

proof fn lemma_lit_comma()
    ensures
        ","@ =~= seq![','],
        plain(","@),
{
    reveal_strlit(",");
    assert(","@.len() == 1);
    lemma_plain_single(',');
}

proof fn lemma_lit_bracket_open()
    ensures
        "["@ =~= seq!['['],
{
    reveal_strlit("[");
    assert("["@.len() == 1);
}

proof fn lemma_lit_bracket_close()
    ensures
        "]"@ =~= seq![']'],
{
    reveal_strlit("]");
    assert("]"@.len() == 1);
}

proof fn lemma_lit_hwdownload()
    ensures
        plain("hwdownload"@),
{
    reveal_strlit("hwdownload");
    reveal_with_fuel(plain, 12);
}

proof fn lemma_lit_hwupload()
    ensures
        plain("hwupload"@),
        plain("hwupload_cuda"@),
{
    reveal_strlit("hwupload");
    reveal_strlit("hwupload_cuda");
    reveal_with_fuel(plain, 15);
}

proof fn lemma_lit_download_bridge()
    ensures
        plain("hwdownload,format=nv12,"@),
{
    reveal_strlit("hwdownload,format=nv12,");
    reveal_with_fuel(plain, 25);
}

proof fn lemma_lit_overlay_glue()
    ensures
        balanced("[l];[v][l]"@),
        nodd("[l];[v][l]"@),
        first_is("[l];[v][l]"@, '['),
        last_is("[l];[v][l]"@, ']'),
{
    reveal_strlit("[l];[v][l]");
    reveal_with_fuel(bal, 12);
    reveal_with_fuel(nodd, 12);
}

proof fn lemma_lit_label_words()
    ensures
        plain("out"@),
        plain(":"@),
        plain("out_"@),
        plain("_"@),
        plain("a"@),
        plain("v"@),
{
    reveal_strlit("out");
    reveal_strlit(":");
    reveal_strlit("out_");
    reveal_strlit("_");
    reveal_strlit("a");
    reveal_strlit("v");
    reveal_with_fuel(plain, 6);
}

proof fn lemma_lit_map_words()
    ensures
        "-map"@ != "0:v"@,
        "0:v"@.len() == 3,
        "0:v"@[0] == '0',
{
    reveal_strlit("-map");
    reveal_strlit("0:v");
    assert("-map"@.len() == 4);
    assert("0:v"@.len() == 3);
}

/// The one-character separator texts.
proof fn lemma_semi_props()
    ensures
        balanced(";"@),
        nodd(";"@),
        ";"@.len() == 1,
        ";"@[0] == ';',
{
    lemma_lit_semi();
    assert(seq![';'].skip(1) =~= Seq::<char>::empty());
    assert(bal(Seq::<char>::empty(), false));
    assert(bal(seq![';'], false));
    assert(nodd(seq![';']));
}

/// The upload filter name is plain for either backend.
proof fn lemma_upload_text_plain(cuda: bool)
    ensures
        plain(spec_upload_text(cuda)),
        spec_upload_text(cuda).len() > 0,
        spec_upload_text(cuda)[0] == 'h',
{
    lemma_lit_hwupload();
    reveal_strlit("hwupload");
    reveal_strlit("hwupload_cuda");
}

/// Both bridge texts are plain, and start with `h` when non-empty.
proof fn lemma_bridges_plain(cuda: bool, chain: Seq<char>, f: Seq<char>)
    ensures
        plain(spec_hw_upload(cuda, chain, f)),
        plain(spec_hw_download(chain, f)),
        spec_hw_upload(cuda, chain, f).len() > 0 ==> spec_hw_upload(cuda, chain, f)[0] == 'h',
        spec_hw_download(chain, f).len() > 0 ==> spec_hw_download(chain, f)[0] == 'h',
{
    lemma_upload_text_plain(cuda);
    lemma_lit_hwdownload();
    reveal_strlit("hwdownload");
}

/// Bracket-wrapped plain text is a well-shaped label.
pub proof fn lemma_wrap_label(x: Seq<char>)
    requires
        plain(x),
    ensures
        ({
            let s = seq!['['] + x + seq![']'];
            &&& balanced(s)
            &&& nodd(s)
            &&& s.len() >= 2
            &&& s[0] == '['
            &&& s[s.len() - 1] == ']'
        }),
{
    let s = seq!['['] + x + seq![']'];
    assert(bal(seq![']'], true)) by {
        assert(seq![']'].skip(1) =~= Seq::<char>::empty());
        assert(bal(Seq::<char>::empty(), false));
        assert(seq![']'][0] == ']');
    }
    lemma_plain_prefix(x, seq![']'], true);
    assert(s.skip(1) =~= x + seq![']']);
    assert(s[0] == '[');
    assert(balanced(s));
    assert(nodd(seq!['['])) by {
        assert(seq!['['].len() < 2);
    }
    lemma_plain_nodd(x);
    if x.len() > 0 {
        lemma_plain_at(x, 0);
        lemma_plain_at(x, x.len() - 1);
    }
    lemma_nodd_concat(seq!['['], x, );
    assert(nodd(seq![']'])) by {
        assert(seq![']'].len() < 2);
    }
    lemma_nodd_concat(seq!['['] + x, seq![']']);
    assert((seq!['['] + x) + seq![']'] =~= s);
}

/// A label text: starts `[`, ends `]`, balanced, no empty segment.
pub open spec fn label_shaped(s: Seq<char>) -> bool {
    &&& s.len() >= 2
    &&& s[0] == '['
    &&& s[s.len() - 1] == ']'
    &&& balanced(s)
    &&& nodd(s)
}

/// Output labels are well-shaped.
pub proof fn lemma_out_label_shaped(ty: FilterType, n: int)
    ensures
        label_shaped(out_label(ty, n)),
{
    lemma_lit_bracket_open();
    lemma_lit_bracket_close();
    lemma_lit_label_words();
    lemma_int_text_plain(n);
    let inner = ty_text(ty) + "out"@ + int_text(n);
    lemma_plain_concat(ty_text(ty), "out"@);
    lemma_plain_concat(ty_text(ty) + "out"@, int_text(n));
    lemma_wrap_label(inner);
    assert(out_label(ty, n) =~= seq!['['] + inner + seq![']']);
}

/// One append preserves chain well-formedness; a half whose last-track
/// marker is set holds a non-empty chain afterwards.
#[verifier::rlimit(100)]
#[verifier::spinoff_prover]
pub proof fn lemma_add_half_wf(
    h: HalfModel,
    hw: bool,
    cuda: bool,
    f: Seq<char>,
    track: int,
    ty: FilterType,
)
    requires
        chain_wf(h.chain),
        filter_ok(f),
        track >= 0,
        h.last == -1 ==> h.chain.len() == 0,
    ensures
        ({
            let h2 = model_add_half(h, hw, cuda, f, track, ty);
            &&& chain_wf(h2.chain)
            &&& (h2.last == -1 ==> h2.chain.len() == 0)
            &&& h2.chain.len() > 0
        }),
{
    let h2 = model_add_half(h, hw, cuda, f, track, ty);
    lemma_semi_props();
    if h.last != track {
        let st = switch_text(h, hw, f, track, ty);
        if h.chain.len() == 0 {
            if is_source_gen(f) {
                assert(st =~= f);
                assert(h2.chain =~= f);
            } else {
                let sel = in_selector(h.pos, ty, track);
                let dl: Seq<char> = if hw && !crate::hw::spec_is_hw(f) && ty
                    == FilterType::Video {
                    "hwdownload,format=nv12,"@
                } else {
                    Seq::empty()
                };
                lemma_in_selector_shaped(h.pos, ty, track);
                lemma_lit_download_bridge();
                assert(plain(dl));
                lemma_plain_prefix(dl, f, false);
                lemma_bal_concat(sel, dl + f, false);
                assert(sel + (dl + f) =~= (sel + dl) + f);
                lemma_plain_nodd(dl);
                if dl.len() > 0 {
                    lemma_plain_at(dl, 0);
                    lemma_plain_at(dl, dl.len() - 1);
                }
                lemma_nodd_concat(sel, dl);
                lemma_nodd_concat(sel + dl, f);
                assert(h2.chain =~= (sel + dl) + f);
                assert(h2.chain[0] == '[');
            }
        } else {
            let lbl = out_label(ty, h.last);
            lemma_out_label_shaped(ty, h.last);
            let rest: Seq<char> = if is_source_gen(f) {
                f
            } else {
                let sel = in_selector(h.pos, ty, track);
                let dl: Seq<char> = if hw && !crate::hw::spec_is_hw(f) && ty
                    == FilterType::Video {
                    "hwdownload,format=nv12,"@
                } else {
                    Seq::empty()
                };
                sel + dl + f
            };
            // rest is well-formed and starts with a non-separator
            if is_source_gen(f) {
            } else {
                let sel = in_selector(h.pos, ty, track);
                let dl: Seq<char> = if hw && !crate::hw::spec_is_hw(f) && ty
                    == FilterType::Video {
                    "hwdownload,format=nv12,"@
                } else {
                    Seq::empty()
                };
                lemma_in_selector_shaped(h.pos, ty, track);
                lemma_lit_download_bridge();
                lemma_plain_prefix(dl, f, false);
                lemma_bal_concat(sel, dl + f, false);
                assert(sel + (dl + f) =~= (sel + dl) + f);
                lemma_plain_nodd(dl);
                if dl.len() > 0 {
                    lemma_plain_at(dl, 0);
                    lemma_plain_at(dl, dl.len() - 1);
                }
                lemma_nodd_concat(sel, dl);
                lemma_nodd_concat(sel + dl, f);
                assert(rest[0] == '[');
            }
            assert(balanced(rest) && nodd(rest) && rest.len() > 0 && rest[0] != ';');
            assert(bal(seq![';'], false)) by {
                assert(seq![';'].skip(1) =~= Seq::<char>::empty());
                assert(bal(Seq::<char>::empty(), false));
            }
            lemma_bal_concat(lbl, seq![';'], false);
            lemma_bal_concat(lbl + seq![';'], rest, false);
            lemma_bal_concat(h.chain, (lbl + seq![';']) + rest, false);
            lemma_nodd_concat(lbl, seq![';']);
            lemma_nodd_concat(lbl + seq![';'], rest);
            lemma_nodd_concat(h.chain, (lbl + seq![';']) + rest);
            assert(h2.chain =~= h.chain + ((lbl + seq![';']) + rest)) by {
                lemma_lit_semi();
                assert(st =~= (lbl + ";"@) + rest);
                assert(lbl + ";"@ =~= lbl + seq![';']);
                assert(h2.chain =~= h.chain + st);
            }
            assert(h2.chain[0] == h.chain[0]);
        }
    } else if is_link_expr(h.chain, f) {
        let up = spec_hw_upload(cuda, h.chain, f);
        let c1 = h.chain + up;
        let dn = spec_hw_download(c1, f);
        lemma_bridges_plain(cuda, h.chain, f);
        lemma_bridges_plain(cuda, c1, f);
        lemma_plain_balanced(up);
        lemma_plain_balanced(dn);
        lemma_bal_concat(h.chain, up, false);
        lemma_bal_concat(c1, dn, false);
        lemma_bal_concat(c1 + dn, f, false);
        lemma_plain_nodd(up);
        lemma_plain_nodd(dn);
        if up.len() > 0 {
            lemma_plain_at(up, 0);
        }
        if dn.len() > 0 {
            lemma_plain_at(dn, 0);
        }
        lemma_nodd_concat(h.chain, up);
        lemma_nodd_concat(c1, dn);
        lemma_nodd_concat(c1 + dn, f);
        assert(h2.chain =~= (c1 + dn) + f);
        assert(h2.chain.len() > 0);
        assert(h2.chain[0] != ';');
    } else if crate::text::has_sub(f, "overlay"@) {
        let up: Seq<char> = if hw && !spec_last_is_hw(h.chain) {
            ","@ + spec_upload_text(cuda)
        } else {
            Seq::empty()
        };
        lemma_lit_comma();
        lemma_upload_text_plain(cuda);
        lemma_plain_concat(","@, spec_upload_text(cuda));
        assert(plain(up));
        lemma_lit_overlay_glue();
        let glue = "[l];[v][l]"@;
        lemma_plain_balanced(up);
        lemma_bal_concat(h.chain, up, false);
        lemma_bal_concat(h.chain + up, glue, false);
        lemma_bal_concat((h.chain + up) + glue, f, false);
        lemma_plain_nodd(up);
        if up.len() > 0 {
            lemma_plain_at(up, 0);
            lemma_plain_at(up, up.len() - 1);
        }
        lemma_nodd_concat(h.chain, up);
        lemma_nodd_concat(h.chain + up, glue);
        lemma_nodd_concat((h.chain + up) + glue, f);
        assert(h2.chain =~= ((h.chain + up) + glue) + f);
        assert(h2.chain[0] != ';');
    } else {
        let up = spec_hw_upload(cuda, h.chain, f);
        let dn = spec_hw_download(h.chain, f);
        let bridge: Seq<char> = if up.len() != 0 || dn.len() != 0 {
            ","@ + up + dn
        } else if hw && !spec_last_is_hw(h.chain) && last_is(f, ';') {
            ","@ + spec_upload_text(cuda)
        } else {
            Seq::empty()
        };
        lemma_lit_comma();
        lemma_bridges_plain(cuda, h.chain, f);
        lemma_upload_text_plain(cuda);
        lemma_plain_concat(","@, up);
        lemma_plain_concat(","@ + up, dn);
        lemma_plain_concat(","@, spec_upload_text(cuda));
        assert(plain(bridge));
        lemma_plain_balanced(bridge);
        lemma_bal_concat(h.chain, bridge, false);
        assert(bal(","@ + f, false)) by {
            lemma_plain_prefix(","@, f, false);
        }
        lemma_bal_concat(h.chain + bridge, ","@ + f, false);
        lemma_plain_nodd(bridge);
        if bridge.len() > 0 {
            lemma_plain_at(bridge, 0);
            lemma_plain_at(bridge, bridge.len() - 1);
        }
        lemma_nodd_concat(h.chain, bridge);
        assert(nodd(","@ + f)) by {
            assert(nodd(","@)) by {
                assert(","@.len() < 2);
            }
            lemma_nodd_concat(","@, f);
        }
        lemma_nodd_concat(h.chain + bridge, ","@ + f);
        assert(h2.chain =~= (h.chain + bridge) + (","@ + f));
        assert(h2.chain[0] != ';');
    }
}

/// Well-formedness of one half: its chain is well-formed, and the chain is
/// empty exactly until the first append sets the last-track marker.
pub open spec fn half_inv(h: HalfModel) -> bool {
    &&& chain_wf(h.chain)
    &&& h.last >= -1
    &&& (h.last == -1 ==> h.chain.len() == 0)
}

/// No accumulated map entry is the bare default video selector; the entries
/// are `-map` words and bracketed labels.
pub open spec fn map_entries_ok(m: FiltersModel) -> bool {
    forall|i: int| 0 <= i < m.output_map.len() ==> #[trigger] m.output_map[i] != "0:v"@
}

/// The global invariant of the graph state.
pub open spec fn state_inv(m: FiltersModel) -> bool {
    &&& half_inv(m.audio)
    &&& half_inv(m.video)
    &&& map_entries_ok(m)
}

/// The initial state satisfies the invariant.
pub proof fn lemma_new_inv(config: &crate::config::PlayoutConfig, audio_position: int)
    ensures
        state_inv(crate::filters::model_new(config, audio_position)),
{
    assert(bal(Seq::<char>::empty(), false));
    assert(nodd(Seq::<char>::empty()));
}

/// One append keeps the invariant: chains stay balanced with no empty
/// segment, and no map entry collides with the default video selector.
pub proof fn lemma_add_filter_inv(m: FiltersModel, f: Seq<char>, track: int, ty: FilterType)
    requires
        state_inv(m),
        filter_ok(f),
        track >= 0,
    ensures
        state_inv(model_add_filter(m, f, track, ty)),
{
    let h = half_of(m, ty);
    lemma_add_half_wf(h, m.hw_context, m.cuda, f, track, ty);
    lemma_lit_map_words();
    lemma_out_label_shaped(ty, track);
    let m2 = model_add_filter(m, f, track, ty);
    assert(out_label(ty, track) != "0:v"@) by {
        if out_label(ty, track) == "0:v"@ {
            assert(out_label(ty, track)[0] == '[');
        }
    }
    assert forall|i: int| 0 <= i < m2.output_map.len() implies #[trigger] m2.output_map[i]
        != "0:v"@ by {
        if i < m.output_map.len() {
            assert(m2.output_map[i] == m.output_map[i]);
        } else {
            assert(m2.output_map[i] == model_map_additions(h, track, ty)[i
                - m.output_map.len()]);
        }
    }
}

/// One labelled append step: a filter expression, its track and stream type.
pub open spec fn steps_ok(steps: Seq<(Seq<char>, int, FilterType)>) -> bool {
    forall|i: int|
        0 <= i < steps.len() ==> (#[trigger] steps[i]).0.len() > 0 && filter_ok(steps[i].0)
            && steps[i].1 >= 0
}

/// The state after a whole sequence of appends.
pub open spec fn apply_appends(
    m: FiltersModel,
    steps: Seq<(Seq<char>, int, FilterType)>,
) -> FiltersModel
    decreases steps.len(),
{
    if steps.len() == 0 {
        m
    } else {
        apply_appends(model_add_filter(m, steps[0].0, steps[0].1, steps[0].2), steps.skip(1))
    }
}

/// For any sequence of appends of admissible filter expressions, the chains
/// keep balanced brackets and no empty `;`-delimited segment.
pub proof fn lemma_appends_keep_inv(m: FiltersModel, steps: Seq<(Seq<char>, int, FilterType)>)
    requires
        state_inv(m),
        steps_ok(steps),
    ensures
        state_inv(apply_appends(m, steps)),
    decreases steps.len(),
{
    if steps.len() > 0 {
        lemma_add_filter_inv(m, steps[0].0, steps[0].1, steps[0].2);
        assert forall|i: int|
            0 <= i < steps.skip(1).len() implies (#[trigger] steps.skip(1)[i]).0.len() > 0
            && filter_ok(steps.skip(1)[i].0) && steps.skip(1)[i].1 >= 0 by {
            assert(steps.skip(1)[i] == steps[i + 1]);
        }
        lemma_appends_keep_inv(
            model_add_filter(m, steps[0].0, steps[0].1, steps[0].2),
            steps.skip(1),
        );
    }
}

/// Any sequence of appends of admissible filter expressions, applied to a
/// freshly constructed state, leaves both chain strings bracket-balanced
/// with no empty `;`-delimited segment.
pub proof fn lemma_chains_wf_from_new(
    config: &crate::config::PlayoutConfig,
    audio_position: int,
    steps: Seq<(Seq<char>, int, FilterType)>,
)
    requires
        steps_ok(steps),
    ensures
        ({
            let m = apply_appends(crate::filters::model_new(config, audio_position), steps);
            &&& chain_wf(m.audio.chain)
            &&& chain_wf(m.video.chain)
        }),
{
    lemma_new_inv(config, audio_position);
    lemma_appends_keep_inv(crate::filters::model_new(config, audio_position), steps);
}

/// A closed half is well-formed and ends in a label.
proof fn lemma_close_chain_wf(h: HalfModel, ty: FilterType)
    requires
        half_inv(h),
    ensures
        chain_wf(close_chain(h, ty)),
        close_chain(h, ty).len() > 0 ==> close_chain(h, ty)[close_chain(h, ty).len() - 1] == ']',
{
    let c = close_chain(h, ty);
    if h.last >= 0 && !last_is(h.chain, ']') {
        let lbl = out_label(ty, h.last);
        lemma_out_label_shaped(ty, h.last);
        lemma_bal_concat(h.chain, lbl, false);
        lemma_nodd_concat(h.chain, lbl);
        assert(c[c.len() - 1] == lbl[lbl.len() - 1]);
        if h.chain.len() > 0 {
            assert(c[0] == h.chain[0]);
        } else {
            assert(c =~= lbl);
        }
    } else {
        if h.last == -1 {
            assert(h.chain.len() == 0);
        }
    }
}

/// The finalised graph text keeps balanced brackets and no empty segment.
pub proof fn lemma_graph_wf(m: FiltersModel)
    requires
        state_inv(m),
    ensures
        chain_wf(model_graph(m)),
{
    let v = close_chain(m.video, FilterType::Video);
    let a = close_chain(m.audio, FilterType::Audio);
    lemma_close_chain_wf(m.video, FilterType::Video);
    lemma_close_chain_wf(m.audio, FilterType::Audio);
    lemma_semi_props();
    if a.len() > 0 && v.len() > 0 {
        assert(bal(seq![';'], false)) by {
            assert(seq![';'].skip(1) =~= Seq::<char>::empty());
            assert(bal(Seq::<char>::empty(), false));
        }
        assert(v + ";"@ =~= v + seq![';']);
        lemma_bal_concat(v, seq![';'], false);
        lemma_bal_concat(v + seq![';'], a, false);
        assert(nodd(seq![';']));
        lemma_nodd_concat(v, seq![';']);
        lemma_nodd_concat(v + seq![';'], a);
        assert(model_graph(m) =~= (v + seq![';']) + a);
        assert(model_graph(m)[0] == v[0]);
    }
}

/// Never a redundant bridge: a chain already in the hardware domain gets no
/// upload, and one outside it gets no download.
pub proof fn lemma_no_redundant_bridges(cuda: bool, chain: Seq<char>, f: Seq<char>)
    ensures
        spec_last_is_hw(chain) ==> spec_hw_upload(cuda, chain, f).len() == 0,
        !spec_last_is_hw(chain) ==> spec_hw_download(chain, f).len() == 0,
{
}

/// The first append for a track registers exactly one output label and
/// exactly one `-map` pair, and moves the last-track marker to the track.
pub proof fn lemma_first_append_registers(m: FiltersModel, f: Seq<char>, track: int, ty: FilterType)
    requires
        half_of(m, ty).last != track,
    ensures
        ({
            let m2 = model_add_filter(m, f, track, ty);
            &&& half_of(m2, ty).labels == half_of(m, ty).labels + seq![out_label(ty, track)]
            &&& m2.output_map == m.output_map + seq!["-map"@, out_label(ty, track)]
            &&& half_of(m2, ty).last == track
        }),
{
}

/// A repeated append for the same track, before any switch, registers no
/// label and no map pair.
pub proof fn lemma_repeat_append_registers_nothing(
    m: FiltersModel,
    f: Seq<char>,
    track: int,
    ty: FilterType,
)
    requires
        half_of(m, ty).last == track,
    ensures
        ({
            let m2 = model_add_filter(m, f, track, ty);
            &&& half_of(m2, ty).labels == half_of(m, ty).labels
            &&& m2.output_map == m.output_map
            &&& half_of(m2, ty).last == track
        }),
{
    let m2 = model_add_filter(m, f, track, ty);
    assert(m2.output_map =~= m.output_map);
}

/// Two consecutive appends for one fresh track: the first registers exactly
/// one label and one map pair, the second registers neither.
pub proof fn lemma_first_then_repeat(
    m: FiltersModel,
    f1: Seq<char>,
    f2: Seq<char>,
    track: int,
    ty: FilterType,
)
    requires
        half_of(m, ty).last != track,
    ensures
        ({
            let m1 = model_add_filter(m, f1, track, ty);
            let m2 = model_add_filter(m1, f2, track, ty);
            &&& half_of(m1, ty).labels.len() == half_of(m, ty).labels.len() + 1
            &&& m1.output_map.len() == m.output_map.len() + 2
            &&& half_of(m2, ty).labels == half_of(m1, ty).labels
            &&& m2.output_map == m1.output_map
        }),
{
    lemma_first_append_registers(m, f1, track, ty);
    let m1 = model_add_filter(m, f1, track, ty);
    lemma_repeat_append_registers_nothing(m1, f2, track, ty);
}

/// A state never touched by any append, with no override set, yields no
/// command arguments at all.
pub proof fn lemma_cmd_untouched(m: FiltersModel)
    requires
        m.output_chain.len() == 0,
        m.audio.last == -1,
        m.video.last == -1,
        m.audio.chain.len() == 0,
        m.video.chain.len() == 0,
    ensures
        model_cmd(m).len() == 0,
{
}

/// Appending the owed default audio selectors neither adds nor removes the
/// default video selector.
proof fn lemma_audio_defaults_zv(o: Seq<Seq<char>>, pos: int, i: int, n: int)
    ensures
        crate::chain::audio_defaults(o, pos, i, n).contains("0:v"@) == o.contains("0:v"@),
    decreases n - i,
{
    if i < n {
        let sel = int_text(pos) + ":a:"@ + int_text(i);
        assert(sel != "0:v"@) by {
            lemma_lit_map_words();
            reveal_strlit(":a:");
            crate::text::lemma_int_text_nonempty(pos);
            crate::text::lemma_int_text_nonempty(i);
            assert(sel.len() >= 5);
        }
        assert("-map"@ != "0:v"@) by {
            lemma_lit_map_words();
        }
        let o2: Seq<Seq<char>> = if o.contains(sel) {
            o
        } else {
            o + seq!["-map"@, sel]
        };
        assert(o2.contains("0:v"@) == o.contains("0:v"@)) by {
            if !o.contains(sel) {
                if o.contains("0:v"@) {
                    let w = choose|k: int| 0 <= k < o.len() && o[k] == "0:v"@;
                    assert(o2[w] == "0:v"@);
                }
                if o2.contains("0:v"@) {
                    let w = choose|k: int| 0 <= k < o2.len() && o2[k] == "0:v"@;
                    if w < o.len() {
                        assert(o[w] == "0:v"@);
                    }
                }
            }
        }
        lemma_audio_defaults_zv(o2, pos, i + 1, n);
    }
}

/// Finalise-to-map yields the default video selector exactly when the video
/// half was never touched and the item is not audio-only.
pub proof fn lemma_default_video_map(m: FiltersModel)
    requires
        map_entries_ok(m),
    ensures
        model_map(m).contains("0:v"@) <==> (m.video.last == -1 && !m.audio_only),
{
    lemma_lit_map_words();
    assert(!m.output_map.contains("0:v"@)) by {
        if m.output_map.contains("0:v"@) {
            let w = choose|k: int| 0 <= k < m.output_map.len() && m.output_map[k] == "0:v"@;
            assert(m.output_map[w] != "0:v"@);
        }
    }
    let o1: Seq<Seq<char>> = if m.video.last == -1 && !m.audio_only && !m.output_map.contains(
        "0:v"@,
    ) {
        m.output_map + seq!["-map"@, "0:v"@]
    } else {
        m.output_map
    };
    if m.video.last == -1 && !m.audio_only {
        assert(o1[o1.len() - 1] == "0:v"@);
        assert(o1.contains("0:v"@));
    } else {
        assert(!o1.contains("0:v"@)) by {
            if o1.contains("0:v"@) {
                let w = choose|k: int| 0 <= k < o1.len() && o1[k] == "0:v"@;
                assert(m.output_map[w] != "0:v"@);
            }
        }
    }
    if m.audio.last == -1 {
        lemma_audio_defaults_zv(o1, m.audio.pos, 0, m.audio_tracks as int);
    }
}

/// Input selectors are well-shaped labels.
pub proof fn lemma_in_selector_shaped(pos: int, ty: FilterType, track: int)
    ensures
        label_shaped(in_selector(pos, ty, track)),
{
    lemma_lit_bracket_open();
    lemma_lit_bracket_close();
    lemma_lit_label_words();
    lemma_int_text_plain(pos);
    lemma_int_text_plain(track);
    let inner = int_text(pos) + ":"@ + ty_text(ty) + ":"@ + int_text(track);
    lemma_plain_concat(int_text(pos), ":"@);
    lemma_plain_concat(int_text(pos) + ":"@, ty_text(ty));
    lemma_plain_concat(int_text(pos) + ":"@ + ty_text(ty), ":"@);
    lemma_plain_concat(int_text(pos) + ":"@ + ty_text(ty) + ":"@, int_text(track));
    lemma_wrap_label(inner);
    assert(in_selector(pos, ty, track) =~= seq!['['] + inner + seq![']']);
}

/// Integer text is plain.
pub proof fn lemma_int_text_plain(n: int)
    ensures
        plain(int_text(n)),
{
    if n < 0 {
        lemma_dec_digits_plain((-n) as nat);
        lemma_plain_single('-');
        lemma_plain_concat(seq!['-'], dec_digits((-n) as nat));
    } else {
        lemma_dec_digits_plain(n as nat);
    }
}

} // verus!
