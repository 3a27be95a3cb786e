//! Segments, the modules that produce them, and their rendering with
//! terminal styling.

use vstd::prelude::*;
use std::time::Duration;
use ansi_term::{ANSIString, ANSIStrings, Colour, Style};
use vstd::string::StringExecFns;

verus! {

/// `Colour` of `ansi_term`: one of eight named colours, a colour of the
/// 256-colour palette, or red, green and blue.
#[verifier::external_type_specification]
pub struct ExColour(Colour);

/// `Style` of `ansi_term`: a foreground and a background colour, each
/// optional, and eight attributes that are on or off.
#[verifier::external_type_specification]
pub struct ExStyle(Style);

/// The text that `ansi_term` writes for a run of styled strings: each string
/// with the escape codes that switch from the style before it to its own,
/// and a final reset where the last style is not plain.
pub uninterp spec fn ansi_text(pieces: Seq<(Style, Seq<char>)>) -> Seq<char>;

/// The style that changes nothing.
pub open spec fn plain_style() -> Style {
    Style {
        foreground: None,
        background: None,
        is_bold: false,
        is_dimmed: false,
        is_italic: false,
        is_underline: false,
        is_blink: false,
        is_reverse: false,
        is_hidden: false,
        is_strikethrough: false,
    }
}

/// The smallest unit of output: a text and, optionally, the style to show it
/// in.
pub struct Segment {
    pub value: String,
    pub style: Option<Style>,
}

impl Segment {
    /// A segment with the given text and style.
    pub fn new(value: String, style: Option<Style>) -> (segment: Self)
        ensures
            segment.value == value,
            segment.style == style,
    {
        Segment { value, style }
    }

    /// The style the segment is painted with: its own, or the plain one.
    pub open spec fn effective_style(&self) -> Style {
        match self.style {
            Some(style) => style,
            None => plain_style(),
        }
    }

    /// The style the segment is painted with.
    pub fn style_or_plain(&self) -> (style: Style)
        ensures
            style == self.effective_style(),
    {
        match self.style {
            Some(style) => style,
            None => Style {
                foreground: None,
                background: None,
                is_bold: false,
                is_dimmed: false,
                is_italic: false,
                is_underline: false,
                is_blink: false,
                is_reverse: false,
                is_hidden: false,
                is_strikethrough: false,
            },
        }
    }
}

/// Each segment as the pair of style and text that is painted.
pub open spec fn styled_pieces(segments: Seq<Segment>) -> Seq<(Style, Seq<char>)> {
    Seq::new(segments.len(), |i: int| (segments[i].effective_style(), segments[i].value@))
}

/// The texts of the segments, joined without styling.
pub open spec fn joined_values(segments: Seq<Segment>) -> Seq<char>
    decreases segments.len(),
{
    if segments.len() == 0 {
        Seq::empty()
    } else {
        joined_values(segments.drop_last()) + segments.last().value@
    }
}

/// Whether every segment is painted with the plain style.
pub open spec fn all_plain(segments: Seq<Segment>) -> bool {
    forall|i: int| 0 <= i < segments.len() ==> (#[trigger] segments[i]).effective_style()
        == plain_style()
}

/// The style that each segment is painted with.
pub fn effective_styles(segments: &Vec<Segment>) -> (styles: Vec<Style>)
    ensures
        styles@.len() == segments@.len(),
        forall|i: int| 0 <= i < styles@.len() ==> styles@[i] == segments@[i].effective_style(),
{
    let mut styles: Vec<Style> = Vec::new();
    let mut i: usize = 0;
    while i < segments.len()
        invariant
            i <= segments.len(),
            styles@.len() == i,
            forall|j: int| 0 <= j < i ==> styles@[j] == segments@[j].effective_style(),
        decreases segments.len() - i,
    {
        styles.push(segments[i].style_or_plain());
        i += 1;
    }
    styles
}

/// Paints the text of each segment in the style at the same index with
/// `Style::paint`, and writes the run with `ANSIStrings` of `ansi_term`. The
/// result is the text that crate writes for the styled pieces. For no
/// segments at all it is empty, and where every style is plain, so that no
/// escape code is written, it is the joined texts.
#[verifier::external_body]
pub(crate) fn paint(styles: &Vec<Style>, segments: &Vec<Segment>) -> (text: String)
    requires
        styles@.len() == segments@.len(),
    ensures
        text@ == ansi_text(Seq::new(segments@.len(), |i: int| (styles@[i], segments@[i].value@))),
        segments@.len() == 0 ==> text@.len() == 0,
        (forall|i: int| 0 <= i < styles@.len() ==> styles@[i] == plain_style()) ==> text@
            == joined_values(segments@),
{
    let strings: Vec<ANSIString> = styles
        .iter()
        .zip(segments.iter())
        .map(|(style, segment)| style.paint(segment.value.as_str()))
        .collect();
    ANSIStrings(&strings).to_string()
}

/// The segments with their terminal styling: each in its own style, or in
/// the plain one where it has none. No segments give the empty text, and
/// segments that are all plain give their joined texts.
pub fn paint_segments(segments: &Vec<Segment>) -> (text: String)
    ensures
        text@ == ansi_text(styled_pieces(segments@)),
        segments@.len() == 0 ==> text@.len() == 0,
        all_plain(segments@) ==> text@ == joined_values(segments@),
{
    let styles = effective_styles(segments);
    proof {
        assert(Seq::new(segments@.len(), |i: int| (styles@[i], segments@[i].value@))
            =~= styled_pieces(segments@));
    }
    paint(&styles, segments)
}

/// A named unit of work: the segments it produced and how long that took.
pub struct Module {
    pub name: String,
    pub description: String,
    pub segments: Vec<Segment>,
    pub duration: Duration,
}

impl Module {
    /// A module that has produced nothing yet.
    pub fn new(name: &str, description: &str, duration: Duration) -> (module: Self)
        ensures
            module.name@ == name@,
            module.description@ == description@,
            module.segments@.len() == 0,
            module.duration == duration,
    {
        Module {
            name: name.to_owned(),
            description: description.to_owned(),
            segments: Vec::new(),
            duration,
        }
    }

    /// Attaches the segments that the module produced.
    pub fn set_segments(&mut self, segments: Vec<Segment>)
        ensures
            final(self).segments == segments,
            final(self).name == old(self).name,
            final(self).description == old(self).description,
            final(self).duration == old(self).duration,
    {
        self.segments = segments;
    }

    /// The module's name.
    pub fn get_name(&self) -> (name: &String)
        ensures
            name == self.name,
    {
        &self.name
    }

    /// The module's description.
    pub fn get_description(&self) -> (description: &String)
        ensures
            description == self.description,
    {
        &self.description
    }

    /// Whether the module produced no segment; the time it took plays no
    /// part.
    pub fn is_empty(&self) -> (empty: bool)
        ensures
            empty <==> self.segments@.len() == 0,
    {
        self.segments.len() == 0
    }

    /// The texts of the module's segments, joined without styling.
    pub fn joined_text(&self) -> (text: String)
        ensures
            text@ == joined_values(self.segments@),
    {
        let mut text = String::new();
        let mut i: usize = 0;
        while i < self.segments.len()
            invariant
                i <= self.segments.len(),
                text@ == joined_values(self.segments@.take(i as int)),
            decreases self.segments.len() - i,
        {
            proof {
                assert(self.segments@.take(i + 1).drop_last() =~= self.segments@.take(i as int));
            }
            text.append(self.segments[i].value.as_str());
            i += 1;
        }
        proof {
            assert(self.segments@.take(self.segments.len() as int) =~= self.segments@);
        }
        text
    }

    /// The module's segments with their terminal styling.
    pub fn render(&self) -> (text: String)
        ensures
            text@ == ansi_text(styled_pieces(self.segments@)),
            self.segments@.len() == 0 ==> text@.len() == 0,
            all_plain(self.segments@) ==> text@ == joined_values(self.segments@),
    {
        paint_segments(&self.segments)
    }
}

} // verus!
