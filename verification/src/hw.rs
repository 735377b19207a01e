//! Hardware lowering helpers: deciding when a chain currently ends in the
//! hardware memory domain, and which upload or download bridge filter (if
//! any) must separate a hardware filter run from a software run.

use vstd::prelude::*;
use crate::config::PlayoutConfig;
use crate::scan::{split_tokens, ttokens};
use crate::text::{first_is, has_sub, str_first_is, str_has_sub, str_starts, txt_starts};

verus! {

/// A filter expression is hardware-tagged when its name carries one of the
/// hardware-backend suffixes.
pub open spec fn spec_is_hw(f: Seq<char>) -> bool {
    ||| has_sub(f, "_cuda"@)
    ||| has_sub(f, "_npp"@)
    ||| has_sub(f, "_opencl"@)
    ||| has_sub(f, "_vaapi"@)
    ||| has_sub(f, "_vulkan"@)
    ||| has_sub(f, "_qsv"@)
}

/// True iff the filter expression is hardware-tagged.
pub fn is_hw(filter: &str) -> (r: bool)
    ensures
        r == spec_is_hw(filter@),
{
    str_has_sub(filter, "_cuda") || str_has_sub(filter, "_npp") || str_has_sub(filter, "_opencl")
        || str_has_sub(filter, "_vaapi") || str_has_sub(filter, "_vulkan") || str_has_sub(
        filter,
        "_qsv",
    )
}

/// The chain ends in the hardware domain: its last token is hardware-tagged
/// and not a download, and (with several tokens) the second-to-last token is
/// not a download either, which prevents flip-flop re-bridging.
pub open spec fn spec_last_is_hw(chain: Seq<char>) -> bool {
    let ts = ttokens(chain);
    if ts.len() == 0 {
        false
    } else if ts.len() == 1 {
        spec_is_hw(ts[0]) && !has_sub(ts[0], "hwdownload"@)
    } else {
        &&& spec_is_hw(ts[ts.len() - 1])
        &&& !has_sub(ts[ts.len() - 1], "hwdownload"@)
        &&& !has_sub(ts[ts.len() - 2], "hwdownload"@)
    }
}

/// True iff the chain currently ends in the hardware domain.
pub fn last_is_hw(chain: &str) -> (r: bool)
    ensures
        r == spec_last_is_hw(chain@),
{
    let toks = split_tokens(chain);
    let n = toks.len();
    if n == 0 {
        false
    } else if n == 1 {
        let t = &toks[0];
        proof {
            assert(toks.deep_view()[0] == toks@[0]@);
        }
        is_hw(t.as_str()) && !str_has_sub(t.as_str(), "hwdownload")
    } else {
        let last = &toks[n - 1];
        let second = &toks[n - 2];
        proof {
            assert(toks.deep_view()[n - 1] == toks@[n - 1]@);
            assert(toks.deep_view()[n - 2] == toks@[n - 2]@);
        }
        is_hw(last.as_str()) && !str_has_sub(last.as_str(), "hwdownload") && !str_has_sub(
            second.as_str(),
            "hwdownload",
        )
    }
}

/// The download bridge owed before appending `f` to `chain`: `hwdownload`
/// when the chain ends hardware but `f` is a software filter that actually
/// consumes frames (not a label reference or labelled no-op).
pub open spec fn spec_hw_download(chain: Seq<char>, f: Seq<char>) -> Seq<char> {
    if spec_last_is_hw(chain) && !spec_is_hw(f) && !txt_starts(f, "null["@) && !first_is(f, '[') {
        "hwdownload"@
    } else {
        Seq::<char>::empty()
    }
}

/// Computes the download bridge for appending `f` to `chain`.
pub fn hw_download(chain: &str, f: &str) -> (r: String)
    ensures
        r@ == spec_hw_download(chain@, f@),
{
    if last_is_hw(chain) && !is_hw(f) && !str_starts(f, "null[") && !str_first_is(f, '[') {
        String::from_str("hwdownload")
    } else {
        String::new()
    }
}

/// True iff the decoder input parameters select the CUDA backend.
pub open spec fn spec_cuda(config: &PlayoutConfig) -> bool {
    match config.advanced.decoder_input_param {
        Some(ref p) => has_sub(p@, "cuda"@),
        None => false,
    }
}

/// The upload filter name for the configured backend.
pub open spec fn spec_upload_text(cuda: bool) -> Seq<char> {
    if cuda {
        "hwupload_cuda"@
    } else {
        "hwupload"@
    }
}

/// Picks the upload filter variant for the configured decoder backend.
pub fn hw_upload_str(config: &PlayoutConfig) -> (r: String)
    ensures
        r@ == spec_upload_text(spec_cuda(config)),
{
    match &config.advanced.decoder_input_param {
        Some(p) => {
            if str_has_sub(p.as_str(), "cuda") {
                String::from_str("hwupload_cuda")
            } else {
                String::from_str("hwupload")
            }
        },
        None => String::from_str("hwupload"),
    }
}

/// The upload bridge owed before appending `f` to `chain`: the backend's
/// upload filter when the chain does not end hardware but `f` is
/// hardware-tagged.
pub open spec fn spec_hw_upload(cuda: bool, chain: Seq<char>, f: Seq<char>) -> Seq<char> {
    if !spec_last_is_hw(chain) && spec_is_hw(f) {
        spec_upload_text(cuda)
    } else {
        Seq::<char>::empty()
    }
}

/// Computes the upload bridge for appending `f` to `chain`.
pub fn hw_upload(config: &PlayoutConfig, chain: &str, f: &str) -> (r: String)
    ensures
        r@ == spec_hw_upload(spec_cuda(config), chain@, f@),
{
    if !last_is_hw(chain) && is_hw(f) {
        hw_upload_str(config)
    } else {
        String::new()
    }
}

} // verus!
