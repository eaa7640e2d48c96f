//! The link that opens a blueprint in the building planner.

use vstd::prelude::*;
use vstd::string::{StrSliceExecFns, StringExecFns};

verus! {

/// A text of fewer characters than this can be compressed.
pub const COMPRESSIBLE: usize = 0x4000_0000;

/// What `text` is compressed to for use in a link.
pub uninterp spec fn uri_component(text: Seq<char>) -> Seq<char>;

/// Compresses `text` with `lz_str::compress_to_encoded_uri_component`.
///
/// The result depends on the text alone. The compressor numbers its
/// dictionary entries with 32 bits and stops where they run out. It makes
/// at most two entries for each UTF-16 unit of the text, and a character
/// takes at most two units, so a text of fewer than 2^30 characters never
/// gets that far.
#[verifier::external_body]
fn compress(text: &str) -> (data: String)
    requires
        text@.len() < COMPRESSIBLE,
    ensures
        data@ == uri_component(text@),
{
    lz_str::compress_to_encoded_uri_component(text)
}

/// The link that shows the blueprint whose compressed text is `data`.
pub open spec fn link_to(data: Seq<char>) -> Seq<char> {
    "https://screepers.github.io/screeps-tools/?share="@ + data + "#/building-planner"@
}

/// The link that shows the blueprint whose compressed text is `data`.
pub fn link_for(data: &str) -> (link: String)
    ensures
        link@ == link_to(data@),
{
    let mut link = String::new();
    link.append("https://screepers.github.io/screeps-tools/?share=");
    link.append(data);
    link.append("#/building-planner");
    assert(link@ =~= link_to(data@));
    link
}

/// The link that opens the blueprint `serialized` in the building planner.
pub fn link_of(serialized: &str) -> (link: String)
    requires
        serialized@.len() < COMPRESSIBLE,
    ensures
        link@ == link_to(uri_component(serialized@)),
{
    let data = compress(serialized);
    link_for(data.as_str())
}

/// The link that opens the blueprint `serialized` in the building planner,
/// or nothing where the text is too long to be compressed.
pub fn screepers_planner_link(serialized: &str) -> (link: Option<String>)
    ensures
        link is Some <==> serialized@.len() < COMPRESSIBLE,
        link matches Some(text) ==> text@ == link_to(uri_component(serialized@)),
{
    if serialized.unicode_len() < COMPRESSIBLE {
        Some(link_of(serialized))
    } else {
        None
    }
}

} // verus!
