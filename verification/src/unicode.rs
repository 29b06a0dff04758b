use vstd::prelude::*;

use unicode_segmentation::UnicodeSegmentation;
use unicode_width::UnicodeWidthStr;

verus! {

/// The extended grapheme clusters of a string, in order. The segmentation
/// depends on the characters alone; it is performed by an outside crate and
/// is not given a definition here.
pub uninterp spec fn grapheme_clusters(s: Seq<char>) -> Seq<Seq<char>>;

/// The displayed column width of a string. The width depends on the
/// characters alone; it is computed by an outside crate and is not given a
/// definition here.
pub uninterp spec fn display_width(s: Seq<char>) -> usize;

/// Relies on unicode_segmentation's `UnicodeSegmentation::graphemes`: it
/// splits a string into its extended grapheme clusters, a function of the
/// characters alone, and yields nothing for an empty string.
#[verifier::external_body]
pub(crate) fn split_graphemes(s: &str) -> (parts: Vec<String>)
    ensures
        parts@.len() == grapheme_clusters(s@).len(),
        forall|i: int| 0 <= i < parts@.len() ==> parts@[i]@ == grapheme_clusters(s@)[i],
        s@.len() == 0 ==> parts@.len() == 0,
{
    UnicodeSegmentation::graphemes(s, true).map(|g| g.to_owned()).collect()
}

/// Relies on unicode_width's `UnicodeWidthStr::width`: the displayed column
/// width of a string, a function of the characters alone, zero for an empty
/// string.
#[verifier::external_body]
pub(crate) fn str_width(s: &str) -> (w: usize)
    ensures
        w == display_width(s@),
        s@.len() == 0 ==> w == 0,
{
    UnicodeWidthStr::width(s)
}

} // verus!
