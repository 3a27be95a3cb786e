//! Display widths of text, counted by grapheme cluster.

use vstd::prelude::*;
use unicode_segmentation::UnicodeSegmentation;
use unicode_width::UnicodeWidthChar;
use crate::text::{chars_of, views_of};

verus! {

/// The number of terminal columns that `unicode_width` assigns to a single
/// character, or `None` where it assigns none.
pub uninterp spec fn char_columns(c: char) -> Option<usize>;

/// The extended grapheme clusters into which `unicode_segmentation` divides a
/// text, in order.
pub uninterp spec fn grapheme_clusters(s: Seq<char>) -> Seq<Seq<char>>;

/// Calls `UnicodeWidthChar::width` of `unicode_width`, which gives the number
/// of columns that a character takes on a terminal, or `None` for a control
/// character. The result is that crate's answer for `c`.
#[verifier::external_body]
fn columns_of_char(c: char) -> (columns: Option<usize>)
    ensures
        columns == char_columns(c),
{
    UnicodeWidthChar::width(c)
}

/// Calls `UnicodeSegmentation::graphemes` of `unicode_segmentation` for
/// extended clusters and copies each cluster into a `String`. The result is
/// that crate's division of `s` into clusters, in their order.
#[verifier::external_body]
pub(crate) fn graphemes_of(s: &str) -> (clusters: Vec<String>)
    ensures
        views_of(clusters@) == grapheme_clusters(s@),
{
    s.graphemes(true).map(|g| g.to_string()).collect()
}

/// The columns that one character adds to a cluster: its column count, or
/// zero where it has none.
pub open spec fn columns_or_zero(c: char) -> nat {
    match char_columns(c) {
        Some(w) => w as nat,
        None => 0,
    }
}

/// The display width of one grapheme cluster: the largest column count among
/// its characters, and zero where no character has one.
pub open spec fn grapheme_width(g: Seq<char>) -> nat
    decreases g.len(),
{
    if g.len() == 0 {
        0
    } else {
        let rest = grapheme_width(g.drop_last());
        let here = columns_or_zero(g.last());
        if here > rest {
            here
        } else {
            rest
        }
    }
}

/// The sum of the display widths of a list of clusters.
pub open spec fn clusters_width(clusters: Seq<Seq<char>>) -> nat
    decreases clusters.len(),
{
    if clusters.len() == 0 {
        0
    } else {
        clusters_width(clusters.drop_last()) + grapheme_width(clusters.last())
    }
}

/// The display width of a text: the sum of the widths of its grapheme
/// clusters.
pub open spec fn text_width(s: Seq<char>) -> nat {
    clusters_width(grapheme_clusters(s))
}

/// A count held in a `usize`, which stops at `usize::MAX`.
pub open spec fn saturated(n: int) -> usize {
    if n >= usize::MAX {
        usize::MAX
    } else if n <= 0 {
        0
    } else {
        n as usize
    }
}

/// One grapheme cluster of a text.
pub struct Grapheme<'a>(&'a str);

impl<'a> Grapheme<'a> {
    /// Takes `s` as a single cluster.
    pub fn new(s: &'a str) -> (g: Self)
        ensures
            g@ == s@,
    {
        Grapheme(s)
    }

    /// The characters of the cluster.
    pub closed spec fn view(&self) -> Seq<char> {
        self.0@
    }

    /// The display width of the cluster.
    pub fn width(&self) -> (w: usize)
        ensures
            w == grapheme_width(self@),
    {
        let chars = chars_of(self.0);
        let mut w: usize = 0;
        let mut i: usize = 0;
        while i < chars.len()
            invariant
                i <= chars.len(),
                chars@ == self@,
                w == grapheme_width(chars@.take(i as int)),
            decreases chars.len() - i,
        {
            let columns = columns_of_char(chars[i]);
            proof {
                assert(chars@.take(i + 1).drop_last() =~= chars@.take(i as int));
            }
            match columns {
                Some(c) => {
                    if c > w {
                        w = c;
                    }
                },
                None => {},
            }
            i += 1;
        }
        proof {
            assert(chars@.take(chars.len() as int) =~= chars@);
        }
        w
    }
}

/// Text whose display width can be measured by grapheme cluster.
pub trait UnicodeWidthGraphemes {
    /// The characters that are measured.
    spec fn measured(&self) -> Seq<char>;

    /// The display width of the text: the sum over its grapheme clusters of
    /// each cluster's width, stopping at `usize::MAX`.
    fn width_graphemes(&self) -> (w: usize)
        ensures
            w == saturated(text_width(self.measured()) as int),
    ;
}

/// The display width of a list of clusters, stopping at `usize::MAX`.
pub fn width_of_clusters(clusters: &Vec<String>) -> (w: usize)
    ensures
        w == saturated(clusters_width(views_of(clusters@)) as int),
{
    let mut w: usize = 0;
    let mut i: usize = 0;
    while i < clusters.len()
        invariant
            i <= clusters.len(),
            w == saturated(clusters_width(views_of(clusters@).take(i as int)) as int),
        decreases clusters.len() - i,
    {
        let g = Grapheme::new(clusters[i].as_str());
        let gw = g.width();
        proof {
            let all = views_of(clusters@);
            assert(all.take(i + 1).drop_last() =~= all.take(i as int));
            assert(all.take(i + 1).last() == clusters@[i as int]@);
        }
        w = w.saturating_add(gw);
        i += 1;
    }
    proof {
        let all = views_of(clusters@);
        assert(all.take(clusters.len() as int) =~= all);
    }
    w
}

impl UnicodeWidthGraphemes for str {
    open spec fn measured(&self) -> Seq<char> {
        self@
    }

    fn width_graphemes(&self) -> (w: usize) {
        let clusters = graphemes_of(self);
        width_of_clusters(&clusters)
    }
}

impl UnicodeWidthGraphemes for String {
    open spec fn measured(&self) -> Seq<char> {
        self@
    }

    fn width_graphemes(&self) -> (w: usize) {
        let clusters = graphemes_of(self.as_str());
        width_of_clusters(&clusters)
    }
}

} // verus!
