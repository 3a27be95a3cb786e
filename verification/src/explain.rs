//! The annotated breakdown of a prompt: one line per module with its value,
//! the time it took and its description, the description wrapped to the
//! terminal's width.

use vstd::prelude::*;
use vstd::string::StringExecFns;
use crate::duration::{duration_millis, format_duration, millis_text};
use crate::segment::{all_plain, ansi_text, joined_values, styled_pieces, Module};
use crate::text::{chars_of, is_single_char, push_spaces, repeated, same_text, views_of};
use crate::width::{
    grapheme_clusters, grapheme_width, graphemes_of, saturated, text_width, Grapheme,
    UnicodeWidthGraphemes,
};

verus! {

/// Besides the module's value, each line of the breakdown holds this many
/// columns of quotes, brackets and separators before the description.
pub const PADDING_WIDTH: usize = 11;

/// One grapheme cluster of a description together with its display width.
pub struct MeasuredCluster {
    pub text: String,
    pub width: usize,
}

/// A measured cluster as plain values.
pub struct ClusterView {
    pub text: Seq<char>,
    pub width: usize,
}

impl View for MeasuredCluster {
    type V = ClusterView;

    open spec fn view(&self) -> ClusterView {
        ClusterView { text: self.text@, width: self.width }
    }
}

/// What the breakdown shows of one module.
pub struct ModuleInfo {
    /// The module's value with its terminal styling.
    pub value: String,
    /// The columns taken by the unstyled value and the duration together.
    pub value_len: usize,
    /// The module's description.
    pub desc: String,
    /// The description, cluster by cluster.
    pub desc_clusters: Vec<MeasuredCluster>,
    /// The time the module took, as text.
    pub duration: String,
}

/// A row of the breakdown as plain values.
pub struct InfoView {
    pub value: Seq<char>,
    pub value_len: usize,
    pub desc: Seq<char>,
    pub desc_clusters: Seq<ClusterView>,
    pub duration: Seq<char>,
}

/// The views of a list of measured clusters.
pub open spec fn cluster_views(clusters: Seq<MeasuredCluster>) -> Seq<ClusterView> {
    Seq::new(clusters.len(), |i: int| clusters[i]@)
}

impl View for ModuleInfo {
    type V = InfoView;

    open spec fn view(&self) -> InfoView {
        InfoView {
            value: self.value@,
            value_len: self.value_len,
            desc: self.desc@,
            desc_clusters: cluster_views(self.desc_clusters@),
            duration: self.duration@,
        }
    }
}

/// The views of a list of rows.
pub open spec fn info_views(rows: Seq<ModuleInfo>) -> Seq<InfoView> {
    Seq::new(rows.len(), |i: int| rows[i]@)
}

/// A cluster that is a single ASCII letter; such a cluster ends an escape
/// sequence.
pub open spec fn is_ascii_letter(g: Seq<char>) -> bool {
    g.len() == 1 && (('a' <= g[0] && g[0] <= 'z') || ('A' <= g[0] && g[0] <= 'Z'))
}

/// A line break followed by the indentation of the description column.
pub open spec fn line_break(indent: usize) -> Seq<char> {
    seq!['\n'] + repeated(' ', indent as nat)
}

/// The wrapped text of the clusters from index `from` on, given the columns
/// already used on the current line and whether an escape sequence is open.
///
/// A cluster inside an escape sequence is kept as it is and takes no column;
/// the sequence opens at the escape character and closes after an ASCII
/// letter. Any other cluster adds its width to the line. Where that exceeds
/// `desc_width`, or at a newline, the line is broken and indented: a space
/// at the break is dropped when `desc_width` is more than one, a newline is
/// replaced by the break, and any other cluster starts the new line.
pub open spec fn wrapped_from(
    clusters: Seq<ClusterView>,
    from: int,
    pos: usize,
    escaping: bool,
    desc_width: usize,
    indent: usize,
) -> Seq<char>
    decreases clusters.len() - from,
{
    if from < 0 || from >= clusters.len() {
        Seq::empty()
    } else {
        let g = clusters[from].text;
        if escaping || g == seq!['\u{1b}'] {
            g + wrapped_from(clusters, from + 1, pos, !is_ascii_letter(g), desc_width, indent)
        } else {
            let reached = saturated(pos + clusters[from].width);
            if g == seq!['\n'] || reached > desc_width {
                if g == seq![' '] && desc_width > 1 {
                    wrapped_from(clusters, from + 1, reached, false, desc_width, indent)
                } else if g == seq!['\n'] {
                    line_break(indent) + wrapped_from(
                        clusters,
                        from + 1,
                        0,
                        false,
                        desc_width,
                        indent,
                    )
                } else {
                    line_break(indent) + g + wrapped_from(
                        clusters,
                        from + 1,
                        1,
                        false,
                        desc_width,
                        indent,
                    )
                }
            } else {
                g + wrapped_from(clusters, from + 1, reached, false, desc_width, indent)
            }
        }
    }
}

/// A description wrapped to `desc_width` columns, its continuation lines
/// indented by `indent` spaces.
pub open spec fn wrapped(clusters: Seq<ClusterView>, desc_width: usize, indent: usize) -> Seq<
    char,
> {
    wrapped_from(clusters, 0, 0, false, desc_width, indent)
}

/// Whether a cluster is a single ASCII letter.
pub fn cluster_is_ascii_letter(text: &str) -> (letter: bool)
    ensures
        letter <==> is_ascii_letter(text@),
{
    let chars = chars_of(text);
    if chars.len() != 1 {
        return false;
    }
    let c: char = chars[0];
    ('a' <= c && c <= 'z') || ('A' <= c && c <= 'Z')
}

/// Wraps a description, given cluster by cluster, to `desc_width` columns
/// and appends it to `out`.
pub fn push_wrapped(
    out: &mut String,
    clusters: &Vec<MeasuredCluster>,
    desc_width: usize,
    indent: usize,
)
    ensures
        final(out)@ == old(out)@ + wrapped(cluster_views(clusters@), desc_width, indent),
{
    let ghost views = cluster_views(clusters@);
    let mut current_pos: usize = 0;
    let mut escaping = false;
    let mut i: usize = 0;
    while i < clusters.len()
        invariant
            i <= clusters.len(),
            views == cluster_views(clusters@),
            out@ + wrapped_from(views, i as int, current_pos, escaping, desc_width, indent)
                == old(out)@ + wrapped(views, desc_width, indent),
        decreases clusters.len() - i,
    {
        let g = clusters[i].text.as_str();
        let ghost before = out@;
        let ghost rest_before = wrapped_from(
            views,
            i as int,
            current_pos,
            escaping,
            desc_width,
            indent,
        );
        assert(views[i as int].text == g@);
        assert(views[i as int].width == clusters[i as int].width);
        if is_single_char(g, '\u{1b}') {
            escaping = true;
        }
        if escaping {
            out.append(g);
            escaping = !cluster_is_ascii_letter(g);
            i += 1;
            assert(out@ + wrapped_from(
                views,
                i as int,
                current_pos,
                escaping,
                desc_width,
                indent,
            ) =~= before + rest_before);
            continue;
        }
        current_pos = current_pos.saturating_add(clusters[i].width);
        let newline = is_single_char(g, '\n');
        if newline || current_pos > desc_width {
            if is_single_char(g, ' ') && desc_width > 1 {
                i += 1;
                continue;
            }
            out.push('\n');
            push_spaces(out, indent);
            if newline {
                current_pos = 0;
                i += 1;
                assert(out@ + wrapped_from(
                    views,
                    i as int,
                    current_pos,
                    escaping,
                    desc_width,
                    indent,
                ) =~= before + rest_before);
                continue;
            }
            current_pos = 1;
        }
        out.append(g);
        i += 1;
        assert(out@ + wrapped_from(views, i as int, current_pos, escaping, desc_width, indent)
            =~= before + rest_before);
    }
}

/// The widest value column among the rows, and zero for no rows.
pub open spec fn max_value_len(rows: Seq<InfoView>) -> usize
    decreases rows.len(),
{
    if rows.len() == 0 {
        0
    } else {
        let rest = max_value_len(rows.drop_last());
        if rows.last().value_len > rest {
            rows.last().value_len
        } else {
            rest
        }
    }
}

/// The column at which the descriptions start: the widest value column plus
/// the padding.
pub open spec fn indent_of(rows: Seq<InfoView>) -> usize {
    saturated(max_value_len(rows) + PADDING_WIDTH)
}

/// The columns left for the description on a terminal of the given width:
/// what remains beside the indentation. There is none where the terminal's
/// width is not known or is less than the indentation; the descriptions are
/// then not wrapped.
pub open spec fn description_width(term_width: Option<usize>, indent: usize) -> Option<usize> {
    match term_width {
        Some(width) => if width < indent {
            None
        } else {
            Some((width - indent) as usize)
        },
        None => None,
    }
}

/// One line of the breakdown. With a description width the line holds the
/// quoted value, the duration in brackets, padding up to the widest value,
/// and the wrapped description; without one it holds the value, the padding
/// and the description as it is.
pub open spec fn explain_line(
    info: InfoView,
    max_len: usize,
    desc_width: Option<usize>,
    indent: usize,
) -> Seq<char> {
    let pad = repeated(' ', (max_len - info.value_len) as nat);
    match desc_width {
        Some(width) => " \""@ + info.value + "\" ("@ + info.duration + ")"@ + pad + "  -  "@
            + wrapped(info.desc_clusters, width, indent) + "\n"@,
        None => " "@ + info.value + pad + "  -  "@ + info.desc + "\n"@,
    }
}

/// The first `upto` lines of the breakdown.
pub open spec fn explain_lines(
    rows: Seq<InfoView>,
    upto: int,
    max_len: usize,
    desc_width: Option<usize>,
    indent: usize,
) -> Seq<char>
    decreases upto,
{
    if upto <= 0 {
        Seq::empty()
    } else {
        explain_lines(rows, upto - 1, max_len, desc_width, indent) + explain_line(
            rows[upto - 1],
            max_len,
            desc_width,
            indent,
        )
    }
}

/// The breakdown of the given rows for a terminal of the given width: a
/// heading and one line for each row, in order.
pub open spec fn explain_text(rows: Seq<InfoView>, term_width: Option<usize>) -> Seq<char> {
    let indent = indent_of(rows);
    "\n Here's a breakdown of your prompt:\n"@ + explain_lines(
        rows,
        rows.len() as int,
        max_value_len(rows),
        description_width(term_width, indent),
        indent,
    )
}

/// No row is wider than the widest.
pub proof fn lemma_max_value_len_bounds(rows: Seq<InfoView>, i: int)
    requires
        0 <= i < rows.len(),
    ensures
        rows[i].value_len <= max_value_len(rows),
    decreases rows.len(),
{
    if i < rows.len() - 1 {
        lemma_max_value_len_bounds(rows.drop_last(), i);
    }
}

/// The widest value column among the rows.
pub fn widest_value(rows: &Vec<ModuleInfo>) -> (widest: usize)
    ensures
        widest == max_value_len(info_views(rows@)),
{
    let ghost views = info_views(rows@);
    let mut widest: usize = 0;
    let mut i: usize = 0;
    while i < rows.len()
        invariant
            i <= rows.len(),
            views == info_views(rows@),
            widest == max_value_len(views.take(i as int)),
        decreases rows.len() - i,
    {
        proof {
            assert(views.take(i + 1).drop_last() =~= views.take(i as int));
        }
        if rows[i].value_len > widest {
            widest = rows[i].value_len;
        }
        i += 1;
    }
    proof {
        assert(views.take(rows.len() as int) =~= views);
    }
    widest
}

/// Lays out the breakdown of the given rows for a terminal of the given
/// width.
pub fn explain_table(rows: &Vec<ModuleInfo>, term_width: Option<usize>) -> (text: String)
    ensures
        text@ == explain_text(info_views(rows@), term_width),
{
    let ghost views = info_views(rows@);
    let max_module_width = widest_value(rows);
    let indent = max_module_width.saturating_add(PADDING_WIDTH);
    let desc_width: Option<usize> = match term_width {
        Some(width) => if width < indent {
            None
        } else {
            Some(width - indent)
        },
        None => None,
    };
    let mut text = String::new();
    text.append("\n Here's a breakdown of your prompt:\n");
    let mut i: usize = 0;
    while i < rows.len()
        invariant
            i <= rows.len(),
            views == info_views(rows@),
            max_module_width == max_value_len(views),
            text@ == "\n Here's a breakdown of your prompt:\n"@ + explain_lines(
                views,
                i as int,
                max_module_width,
                desc_width,
                indent,
            ),
        decreases rows.len() - i,
    {
        let info = &rows[i];
        let ghost before = text@;
        proof {
            lemma_max_value_len_bounds(views, i as int);
            assert(views[i as int] == info@);
        }
        let pad: usize = max_module_width - info.value_len;
        match desc_width {
            Some(width) => {
                text.append(" \"");
                text.append(info.value.as_str());
                text.append("\" (");
                text.append(info.duration.as_str());
                text.append(")");
                push_spaces(&mut text, pad);
                text.append("  -  ");
                push_wrapped(&mut text, &info.desc_clusters, width, indent);
                text.append("\n");
            },
            None => {
                text.append(" ");
                text.append(info.value.as_str());
                push_spaces(&mut text, pad);
                text.append("  -  ");
                text.append(info.desc.as_str());
                text.append("\n");
            },
        }
        proof {
            assert(text@ =~= before + explain_line(info@, max_module_width, desc_width, indent));
        }
        i += 1;
    }
    text
}

/// The grapheme clusters of a text, each with its display width.
pub open spec fn measured_clusters(s: Seq<char>) -> Seq<ClusterView> {
    let clusters = grapheme_clusters(s);
    Seq::new(
        clusters.len(),
        |i: int| ClusterView { text: clusters[i], width: grapheme_width(clusters[i]) as usize },
    )
}

/// Divides a text into grapheme clusters and measures each.
pub fn measure_clusters(s: &str) -> (measured: Vec<MeasuredCluster>)
    ensures
        cluster_views(measured@) == measured_clusters(s@),
{
    let clusters = graphemes_of(s);
    let mut measured: Vec<MeasuredCluster> = Vec::new();
    let mut i: usize = 0;
    while i < clusters.len()
        invariant
            i <= clusters.len(),
            views_of(clusters@) == grapheme_clusters(s@),
            cluster_views(measured@) == measured_clusters(s@).take(i as int),
        decreases clusters.len() - i,
    {
        let width = Grapheme::new(clusters[i].as_str()).width();
        let text = clusters[i].clone();
        let ghost before = cluster_views(measured@);
        let cluster = MeasuredCluster { text, width };
        proof {
            assert(views_of(clusters@)[i as int] == clusters@[i as int]@);
            assert(grapheme_clusters(s@)[i as int] == cluster.text@);
            assert(cluster@ == measured_clusters(s@)[i as int]);
        }
        measured.push(cluster);
        i += 1;
        proof {
            assert(cluster_views(measured@) =~= before.push(cluster@));
            assert(before.push(cluster@) =~= measured_clusters(s@).take(i as int));
        }
    }
    proof {
        assert(measured_clusters(s@).take(clusters.len() as int) =~= measured_clusters(s@));
    }
    measured
}

/// The row that the breakdown shows for a module.
pub open spec fn info_of(module: Module) -> InfoView {
    let duration = millis_text(duration_millis(module.duration));
    InfoView {
        value: ansi_text(styled_pieces(module.segments@)),
        value_len: saturated(
            (text_width(joined_values(module.segments@)) + text_width(duration)) as int,
        ),
        desc: module.description@,
        desc_clusters: measured_clusters(module.description@),
        duration,
    }
}

/// Gathers what the breakdown shows of a module. The value of a module
/// whose segments are all plain is their joined texts.
pub fn module_info(module: &Module) -> (info: ModuleInfo)
    ensures
        info@ == info_of(*module),
        all_plain(module.segments@) ==> info.value@ == joined_values(module.segments@),
{
    let duration = format_duration(&module.duration);
    let value_width = module.joined_text().width_graphemes();
    let duration_width = duration.width_graphemes();
    ModuleInfo {
        value: module.render(),
        value_len: value_width.saturating_add(duration_width),
        desc: module.description.clone(),
        desc_clusters: measure_clusters(module.description.as_str()),
        duration,
    }
}

/// Whether a module has a line in the breakdown: the line break module has
/// none, nor has a module without segments.
pub open spec fn is_explained(module: Module) -> bool {
    module.name@ != "line_break"@ && module.segments@.len() > 0
}

/// The rows of the breakdown for the given modules, in their order.
pub open spec fn explained_rows(modules: Seq<Module>) -> Seq<InfoView>
    decreases modules.len(),
{
    if modules.len() == 0 {
        Seq::empty()
    } else {
        let rest = explained_rows(modules.drop_last());
        if is_explained(modules.last()) {
            rest.push(info_of(modules.last()))
        } else {
            rest
        }
    }
}

/// Gathers the rows of the breakdown.
pub fn explain_rows(modules: &Vec<Module>) -> (rows: Vec<ModuleInfo>)
    ensures
        info_views(rows@) == explained_rows(modules@),
{
    let mut rows: Vec<ModuleInfo> = Vec::new();
    let mut i: usize = 0;
    while i < modules.len()
        invariant
            i <= modules.len(),
            info_views(rows@) == explained_rows(modules@.take(i as int)),
        decreases modules.len() - i,
    {
        let module = &modules[i];
        proof {
            assert(modules@.take(i + 1).drop_last() =~= modules@.take(i as int));
        }
        let ghost before = info_views(rows@);
        if !same_text(module.name.as_str(), "line_break") && !module.is_empty() {
            rows.push(module_info(module));
            proof {
                assert(info_views(rows@) =~= before.push(info_of(*module)));
            }
        }
        i += 1;
    }
    proof {
        assert(modules@.take(modules.len() as int) =~= modules@);
    }
    rows
}

/// The breakdown of the given modules for a terminal of the given width.
pub fn explain_with_width(modules: &Vec<Module>, term_width: Option<usize>) -> (text: String)
    ensures
        text@ == explain_text(explained_rows(modules@), term_width),
{
    let rows = explain_rows(modules);
    explain_table(&rows, term_width)
}

/// Calls `dimensions` of `term_size`, which asks the terminal for its width
/// and height in columns and rows. Nothing is claimed of the answer.
#[verifier::external_body]
fn terminal_dimensions() -> (dimensions: Option<(usize, usize)>) {
    term_size::dimensions()
}

/// The breakdown of the given modules for the terminal the process runs in:
/// wrapped to its width where the terminal reports one that leaves room for
/// the descriptions, unwrapped otherwise.
pub fn explain(modules: &Vec<Module>) -> (text: String)
    ensures
        exists|term_width: Option<usize>|
            text@ == explain_text(explained_rows(modules@), term_width),
{
    let term_width: Option<usize> = match terminal_dimensions() {
        Some((width, _)) => Some(width),
        None => None,
    };
    explain_with_width(modules, term_width)
}

} // verus!
