//! Counting user-perceived characters, which is left to `unicode_segmentation`.

use unicode_segmentation::UnicodeSegmentation;
use vstd::prelude::*;
use vstd::string::StringSliceAdditionalSpecFns;

verus! {

/// The number of extended grapheme clusters that `unicode_segmentation` splits
/// a text into. The segmentation rules fill pages of Unicode tables, so the
/// count has a name here and no definition.
pub uninterp spec fn grapheme_cluster_count(text: Seq<char>) -> nat;

/// Calls `UnicodeSegmentation::graphemes(s, true)` and counts what the
/// iterator yields. Trusted: the count is a function of the text alone, and it
/// is at most the text's length in bytes, because every cluster that the
/// iterator yields is a non-empty slice of the text (its `size_hint` gives the
/// byte length as upper bound).
#[verifier::external_body]
pub(crate) fn count_grapheme_clusters(s: &str) -> (count: usize)
    ensures
        count == grapheme_cluster_count(s@),
        count <= s.spec_bytes().len(),
{
    s.graphemes(true).count()
}

} // verus!
