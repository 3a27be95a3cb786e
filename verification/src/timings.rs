//! The table of how long each module took, slowest first.

use vstd::prelude::*;
use vstd::string::StringExecFns;
use crate::duration::{
    duration_millis, duration_nanos, format_duration, format_millis, millis_text, nanos_of,
    NANOS_PER_MILLI,
};
use crate::segment::{all_plain, ansi_text, joined_values, styled_pieces, Module};
use crate::text::{chars_of, push_spaces, repeated};
use crate::width::{saturated, text_width, UnicodeWidthGraphemes};

verus! {

/// What the table shows of one module.
pub struct ModuleTiming {
    /// The module's name.
    pub name: String,
    /// The columns that the name takes.
    pub name_len: usize,
    /// The module's value with its terminal styling, on a single line.
    pub value: String,
    /// The time the module took, in nanoseconds.
    pub nanos: u128,
    /// The columns that the time takes when written in milliseconds.
    pub duration_len: usize,
}

/// A row of the table as plain values.
pub struct TimingView {
    pub name: Seq<char>,
    pub name_len: usize,
    pub value: Seq<char>,
    pub nanos: u128,
    pub duration_len: usize,
}

impl View for ModuleTiming {
    type V = TimingView;

    open spec fn view(&self) -> TimingView {
        TimingView {
            name: self.name@,
            name_len: self.name_len,
            value: self.value@,
            nanos: self.nanos,
            duration_len: self.duration_len,
        }
    }
}

/// The views of a list of rows.
pub open spec fn timing_views(rows: Seq<ModuleTiming>) -> Seq<TimingView> {
    Seq::new(rows.len(), |i: int| rows[i]@)
}

/// A text on a single line: each newline is written as a backslash and the
/// letter `n`.
pub open spec fn newline_escaped(s: Seq<char>) -> Seq<char>
    decreases s.len(),
{
    if s.len() == 0 {
        Seq::empty()
    } else {
        newline_escaped(s.drop_last()) + if s.last() == '\n' {
            seq!['\\', 'n']
        } else {
            seq![s.last()]
        }
    }
}

/// A text written on a single line holds no newline.
pub proof fn lemma_newline_escaped_is_one_line(s: Seq<char>, i: int)
    requires
        0 <= i < newline_escaped(s).len(),
    ensures
        newline_escaped(s)[i] != '\n',
    decreases s.len(),
{
    if s.len() > 0 {
        let before = newline_escaped(s.drop_last());
        if i < before.len() {
            lemma_newline_escaped_is_one_line(s.drop_last(), i);
        }
    }
}

/// Writes a text on a single line.
pub fn escape_newlines(text: &str) -> (escaped: String)
    ensures
        escaped@ == newline_escaped(text@),
{
    let chars = chars_of(text);
    let mut escaped = String::new();
    let mut i: usize = 0;
    while i < chars.len()
        invariant
            i <= chars.len(),
            escaped@ == newline_escaped(chars@.take(i as int)),
        decreases chars.len() - i,
    {
        let c: char = chars[i];
        proof {
            assert(chars@.take(i + 1).drop_last() =~= chars@.take(i as int));
        }
        if c == '\n' {
            escaped.push('\\');
            escaped.push('n');
        } else {
            escaped.push(c);
        }
        i += 1;
    }
    proof {
        assert(chars@.take(chars.len() as int) =~= chars@);
    }
    escaped
}

/// The order with the row at index `x` put in its place: behind every row of
/// `order` that took at least as long, and before the others.
pub open spec fn placed(rows: Seq<TimingView>, order: Seq<usize>, x: usize) -> Seq<usize>
    decreases order.len(),
{
    if order.len() == 0 {
        seq![x]
    } else if rows[order.last() as int].nanos >= rows[x as int].nanos {
        order.push(x)
    } else {
        placed(rows, order.drop_last(), x).push(order.last())
    }
}

/// The indices of the first `upto` rows, the row that took longest first;
/// rows that took equally long keep their order.
pub open spec fn duration_order(rows: Seq<TimingView>, upto: nat) -> Seq<usize>
    decreases upto,
{
    if upto == 0 {
        Seq::empty()
    } else {
        placed(rows, duration_order(rows, (upto - 1) as nat), (upto - 1) as usize)
    }
}

/// Whether the row at index `a` stands before the row at index `b` in the
/// table: it took longer, or equally long and comes first among the rows.
pub open spec fn stands_before(rows: Seq<TimingView>, a: usize, b: usize) -> bool {
    rows[a as int].nanos > rows[b as int].nanos || (rows[a as int].nanos == rows[b as int].nanos
        && a < b)
}

/// Whether each index of `order` stands before those that follow it.
pub open spec fn is_ordered(rows: Seq<TimingView>, order: Seq<usize>) -> bool {
    forall|i: int, j: int|
        0 <= i < j < order.len() ==> stands_before(rows, #[trigger] order[i], #[trigger] order[j])
}

/// Putting an index in its place is inserting it before the first row that
/// took less time.
pub proof fn lemma_placed_is_insert(rows: Seq<TimingView>, order: Seq<usize>, x: usize, at: int)
    requires
        0 <= at <= order.len(),
        forall|j: int| at <= j < order.len() ==> rows[order[j] as int].nanos < rows[x as int].nanos,
        at > 0 ==> rows[order[at - 1] as int].nanos >= rows[x as int].nanos,
    ensures
        placed(rows, order, x) == order.insert(at, x),
    decreases order.len(),
{
    if order.len() == 0 {
        assert(order.insert(at, x) =~= seq![x]);
    } else if at == order.len() {
        assert(order.insert(at, x) =~= order.push(x));
    } else {
        lemma_placed_is_insert(rows, order.drop_last(), x, at);
        assert(order.drop_last().insert(at, x).push(order.last()) =~= order.insert(at, x));
    }
}

/// Putting an index in its place keeps every index that was there and adds
/// the new one.
pub proof fn lemma_placed_contents(rows: Seq<TimingView>, order: Seq<usize>, x: usize)
    ensures
        placed(rows, order, x).len() == order.len() + 1,
        placed(rows, order, x).contains(x),
        forall|v: usize| #[trigger] order.contains(v) ==> placed(rows, order, x).contains(v),
        forall|v: usize|
            #[trigger] placed(rows, order, x).contains(v) ==> order.contains(v) || v == x,
    decreases order.len(),
{
    let result = placed(rows, order, x);
    if order.len() == 0 {
        assert(result[0] == x);
    } else if rows[order.last() as int].nanos >= rows[x as int].nanos {
        assert(result[order.len() as int] == x);
        assert forall|v: usize| #[trigger] order.contains(v) implies result.contains(v) by {
            let k = choose|k: int| 0 <= k < order.len() && order[k] == v;
            assert(result[k] == v);
        }
        assert forall|v: usize| #[trigger] result.contains(v) implies order.contains(v) || v
            == x by {
            let k = choose|k: int| 0 <= k < result.len() && result[k] == v;
            if k < order.len() {
                assert(order[k] == v);
            }
        }
    } else {
        let front = order.drop_last();
        let inner = placed(rows, front, x);
        lemma_placed_contents(rows, front, x);
        assert(result.contains(x)) by {
            let m = choose|m: int| 0 <= m < inner.len() && inner[m] == x;
            assert(result[m] == x);
        }
        assert forall|v: usize| #[trigger] order.contains(v) implies result.contains(v) by {
            let k = choose|k: int| 0 <= k < order.len() && order[k] == v;
            if k < order.len() - 1 {
                assert(front[k] == v);
                assert(front.contains(v));
                assert(inner.contains(v));
                let m = choose|m: int| 0 <= m < inner.len() && inner[m] == v;
                assert(result[m] == v);
            } else {
                assert(result[inner.len() as int] == v);
            }
        }
        assert forall|v: usize| #[trigger] result.contains(v) implies order.contains(v) || v
            == x by {
            let k = choose|k: int| 0 <= k < result.len() && result[k] == v;
            if k < inner.len() {
                assert(inner[k] == v);
                assert(inner.contains(v));
                if front.contains(v) {
                    let m = choose|m: int| 0 <= m < front.len() && front[m] == v;
                    assert(order[m] == v);
                }
            } else {
                assert(order[order.len() - 1] == v);
            }
        }
    }
}

/// The order of the first `upto` rows holds each of their indices, and no
/// other.
pub proof fn lemma_duration_order_contents(rows: Seq<TimingView>, upto: nat)
    requires
        upto <= rows.len(),
        rows.len() <= usize::MAX,
    ensures
        duration_order(rows, upto).len() == upto,
        forall|v: usize| #[trigger] duration_order(rows, upto).contains(v) <==> v < upto,
    decreases upto,
{
    if upto > 0 {
        let before = duration_order(rows, (upto - 1) as nat);
        let last = (upto - 1) as usize;
        lemma_duration_order_contents(rows, (upto - 1) as nat);
        lemma_placed_contents(rows, before, last);
        assert forall|v: usize| #[trigger]
            duration_order(rows, upto).contains(v) <==> v < upto by {
            if v < upto - 1 {
                assert(before.contains(v));
            }
        }
    }
}

/// Putting a later index in its place keeps the order.
pub proof fn lemma_placed_is_ordered(rows: Seq<TimingView>, order: Seq<usize>, x: usize)
    requires
        is_ordered(rows, order),
        forall|i: int| 0 <= i < order.len() ==> #[trigger] order[i] < x,
    ensures
        is_ordered(rows, placed(rows, order, x)),
    decreases order.len(),
{
    let result = placed(rows, order, x);
    if order.len() == 0 {
    } else if rows[order.last() as int].nanos >= rows[x as int].nanos {
        assert forall|i: int, j: int| 0 <= i < j < result.len() implies stands_before(
            rows,
            #[trigger] result[i],
            #[trigger] result[j],
        ) by {
            if j == order.len() {
                if i < order.len() - 1 {
                    assert(stands_before(rows, order[i], order[order.len() - 1]));
                }
                assert(order[i] < x);
            } else {
                assert(stands_before(rows, order[i], order[j]));
            }
        }
    } else {
        let front = order.drop_last();
        let inner = placed(rows, front, x);
        assert(is_ordered(rows, front)) by {
            assert forall|i: int, j: int| 0 <= i < j < front.len() implies stands_before(
                rows,
                #[trigger] front[i],
                #[trigger] front[j],
            ) by {
                assert(stands_before(rows, order[i], order[j]));
            }
        }
        assert forall|i: int| 0 <= i < front.len() implies #[trigger] front[i] < x by {
            assert(order[i] < x);
        }
        lemma_placed_is_ordered(rows, front, x);
        lemma_placed_contents(rows, front, x);
        assert forall|i: int, j: int| 0 <= i < j < result.len() implies stands_before(
            rows,
            #[trigger] result[i],
            #[trigger] result[j],
        ) by {
            if j < inner.len() {
                assert(stands_before(rows, inner[i], inner[j]));
            } else {
                let v = inner[i];
                assert(inner.contains(v));
                if v == x {
                } else {
                    assert(front.contains(v));
                    let m = choose|m: int| 0 <= m < front.len() && front[m] == v;
                    assert(stands_before(rows, order[m], order[order.len() - 1]));
                }
            }
        }
    }
}

/// The rows stand in the table by the time they took, the longest first, and
/// rows that took equally long stand in the order in which they were given.
pub proof fn lemma_duration_order_is_ordered(rows: Seq<TimingView>, upto: nat)
    requires
        upto <= rows.len(),
        rows.len() <= usize::MAX,
    ensures
        is_ordered(rows, duration_order(rows, upto)),
    decreases upto,
{
    if upto > 0 {
        let before = duration_order(rows, (upto - 1) as nat);
        lemma_duration_order_is_ordered(rows, (upto - 1) as nat);
        lemma_duration_order_contents(rows, (upto - 1) as nat);
        assert forall|i: int| 0 <= i < before.len() implies #[trigger] before[i] < (upto
            - 1) as usize by {
            assert(before.contains(before[i]));
        }
        lemma_placed_is_ordered(rows, before, (upto - 1) as usize);
    }
}

/// Works out the order in which the rows stand in the table.
pub fn order_by_duration(rows: &Vec<ModuleTiming>) -> (order: Vec<usize>)
    ensures
        order@ == duration_order(timing_views(rows@), rows@.len()),
        order@.len() == rows@.len(),
        forall|k: int| 0 <= k < order@.len() ==> #[trigger] order@[k] < rows@.len(),
        forall|v: usize| #[trigger] order@.contains(v) <==> v < rows@.len(),
        is_ordered(timing_views(rows@), order@),
{
    let ghost views = timing_views(rows@);
    let mut order: Vec<usize> = Vec::new();
    let mut i: usize = 0;
    while i < rows.len()
        invariant
            i <= rows.len(),
            views == timing_views(rows@),
            order@ == duration_order(views, i as nat),
            order@.len() == i,
            forall|k: int| 0 <= k < order@.len() ==> #[trigger] order@[k] < i,
        decreases rows.len() - i,
    {
        let mut at: usize = order.len();
        while at > 0 && rows[order[at - 1]].nanos < rows[i].nanos
            invariant
                at <= order@.len(),
                i < rows.len(),
                views == timing_views(rows@),
                forall|k: int| 0 <= k < order@.len() ==> #[trigger] order@[k] < i,
                forall|j: int|
                    at <= j < order@.len() ==> views[order@[j] as int].nanos < views[i as int].nanos,
            decreases at,
        {
            at -= 1;
        }
        proof {
            lemma_placed_is_insert(views, order@, i, at as int);
        }
        order.insert(at, i);
        i += 1;
    }
    proof {
        lemma_duration_order_contents(views, rows@.len());
        lemma_duration_order_is_ordered(views, rows@.len());
    }
    order
}

/// The most columns that a name takes among the rows, and zero for no rows.
pub open spec fn max_name_len(rows: Seq<TimingView>) -> usize
    decreases rows.len(),
{
    if rows.len() == 0 {
        0
    } else {
        let rest = max_name_len(rows.drop_last());
        if rows.last().name_len > rest {
            rows.last().name_len
        } else {
            rest
        }
    }
}

/// The most columns that a time takes among the rows, and zero for no rows.
pub open spec fn max_duration_len(rows: Seq<TimingView>) -> usize
    decreases rows.len(),
{
    if rows.len() == 0 {
        0
    } else {
        let rest = max_duration_len(rows.drop_last());
        if rows.last().duration_len > rest {
            rows.last().duration_len
        } else {
            rest
        }
    }
}

/// No row takes more columns than the widest.
pub proof fn lemma_max_lens_bound(rows: Seq<TimingView>, i: int)
    requires
        0 <= i < rows.len(),
    ensures
        rows[i].name_len <= max_name_len(rows),
        rows[i].duration_len <= max_duration_len(rows),
    decreases rows.len(),
{
    if i < rows.len() - 1 {
        lemma_max_lens_bound(rows.drop_last(), i);
    }
}

/// One line of the table: the name and the time in milliseconds, each padded
/// on the left to the widest of its column, and the value in quotes.
pub open spec fn timing_line(row: TimingView, max_name: usize, max_duration: usize) -> Seq<char> {
    " "@ + repeated(' ', (max_name - row.name_len) as nat) + row.name + "  -  "@ + repeated(
        ' ',
        (max_duration - row.duration_len) as nat,
    ) + millis_text((row.nanos / NANOS_PER_MILLI) as nat) + "  -   \""@ + row.value + "\"\n"@
}

/// The lines for the first `upto` indices of `order`.
pub open spec fn timing_lines(
    rows: Seq<TimingView>,
    order: Seq<usize>,
    upto: int,
    max_name: usize,
    max_duration: usize,
) -> Seq<char>
    decreases upto,
{
    if upto <= 0 {
        Seq::empty()
    } else {
        timing_lines(rows, order, upto - 1, max_name, max_duration) + timing_line(
            rows[order[upto - 1] as int],
            max_name,
            max_duration,
        )
    }
}

/// The table of the given rows: a heading and one line for each row, the row
/// that took longest first.
pub open spec fn timings_text(rows: Seq<TimingView>) -> Seq<char> {
    "\n Here are the timings of modules in your prompt (>=1ms or output):\n"@ + timing_lines(
        rows,
        duration_order(rows, rows.len()),
        rows.len() as int,
        max_name_len(rows),
        max_duration_len(rows),
    )
}

/// Lays out the table of the given rows.
pub fn timings_table(rows: &Vec<ModuleTiming>) -> (text: String)
    ensures
        text@ == timings_text(timing_views(rows@)),
{
    let ghost views = timing_views(rows@);
    let order = order_by_duration(rows);
    let mut max_name_width: usize = 0;
    let mut max_duration_width: usize = 0;
    let mut i: usize = 0;
    while i < rows.len()
        invariant
            i <= rows.len(),
            views == timing_views(rows@),
            max_name_width == max_name_len(views.take(i as int)),
            max_duration_width == max_duration_len(views.take(i as int)),
        decreases rows.len() - i,
    {
        proof {
            assert(views.take(i + 1).drop_last() =~= views.take(i as int));
        }
        if rows[i].name_len > max_name_width {
            max_name_width = rows[i].name_len;
        }
        if rows[i].duration_len > max_duration_width {
            max_duration_width = rows[i].duration_len;
        }
        i += 1;
    }
    proof {
        assert(views.take(rows.len() as int) =~= views);
    }
    let mut text = String::new();
    text.append("\n Here are the timings of modules in your prompt (>=1ms or output):\n");
    let mut k: usize = 0;
    while k < order.len()
        invariant
            k <= order@.len(),
            order@.len() == rows@.len(),
            views == timing_views(rows@),
            forall|j: int| 0 <= j < order@.len() ==> #[trigger] order@[j] < rows@.len(),
            max_name_width == max_name_len(views),
            max_duration_width == max_duration_len(views),
            text@ == "\n Here are the timings of modules in your prompt (>=1ms or output):\n"@
                + timing_lines(views, order@, k as int, max_name_width, max_duration_width),
        decreases order.len() - k,
    {
        let timing = &rows[order[k]];
        let ghost before = text@;
        proof {
            lemma_max_lens_bound(views, order@[k as int] as int);
            assert(views[order@[k as int] as int] == timing@);
        }
        text.append(" ");
        push_spaces(&mut text, max_name_width - timing.name_len);
        text.append(timing.name.as_str());
        text.append("  -  ");
        push_spaces(&mut text, max_duration_width - timing.duration_len);
        let duration = format_millis(timing.nanos / NANOS_PER_MILLI);
        text.append(duration.as_str());
        text.append("  -   \"");
        text.append(timing.value.as_str());
        text.append("\"\n");
        proof {
            assert(text@ =~= before + timing_line(timing@, max_name_width, max_duration_width));
        }
        k += 1;
    }
    text
}

/// Whether a module has a line in the table: it has one if it produced a
/// segment or took a millisecond or more.
pub open spec fn is_timed(module: Module) -> bool {
    module.segments@.len() > 0 || duration_millis(module.duration) > 0
}

/// The row that the table shows for a module.
pub open spec fn timing_of(module: Module) -> TimingView {
    TimingView {
        name: module.name@,
        name_len: saturated(text_width(module.name@) as int),
        value: newline_escaped(ansi_text(styled_pieces(module.segments@))),
        nanos: duration_nanos(module.duration),
        duration_len: saturated(text_width(millis_text(duration_millis(module.duration))) as int),
    }
}

/// The rows of the table for the given modules, in their order.
pub open spec fn timed_rows(modules: Seq<Module>) -> Seq<TimingView>
    decreases modules.len(),
{
    if modules.len() == 0 {
        Seq::empty()
    } else {
        let rest = timed_rows(modules.drop_last());
        if is_timed(modules.last()) {
            rest.push(timing_of(modules.last()))
        } else {
            rest
        }
    }
}

/// Gathers what the table shows of a module. The value of a module whose
/// segments are all plain is their joined texts on a single line.
pub fn module_timing(module: &Module) -> (timing: ModuleTiming)
    ensures
        timing@ == timing_of(*module),
        all_plain(module.segments@) ==> timing.value@ == newline_escaped(
            joined_values(module.segments@),
        ),
{
    let rendered = module.render();
    ModuleTiming {
        name: module.name.clone(),
        name_len: module.name.width_graphemes(),
        value: escape_newlines(rendered.as_str()),
        nanos: nanos_of(&module.duration),
        duration_len: format_duration(&module.duration).width_graphemes(),
    }
}

/// Gathers the rows of the table.
pub fn timing_rows(modules: &Vec<Module>) -> (rows: Vec<ModuleTiming>)
    ensures
        timing_views(rows@) == timed_rows(modules@),
{
    let mut rows: Vec<ModuleTiming> = Vec::new();
    let mut i: usize = 0;
    while i < modules.len()
        invariant
            i <= modules.len(),
            timing_views(rows@) == timed_rows(modules@.take(i as int)),
        decreases modules.len() - i,
    {
        let module = &modules[i];
        proof {
            assert(modules@.take(i + 1).drop_last() =~= modules@.take(i as int));
        }
        let ghost before = timing_views(rows@);
        if !module.is_empty() || nanos_of(&module.duration) / NANOS_PER_MILLI > 0 {
            rows.push(module_timing(module));
            proof {
                assert(timing_views(rows@) =~= before.push(timing_of(*module)));
            }
        }
        i += 1;
    }
    proof {
        assert(modules@.take(modules.len() as int) =~= modules@);
    }
    rows
}

/// The table of how long each of the given modules took. A module has a line
/// if it produced a segment or took a millisecond or more; the module that
/// took longest comes first.
pub fn timings(modules: &Vec<Module>) -> (text: String)
    ensures
        text@ == timings_text(timed_rows(modules@)),
{
    let rows = timing_rows(modules);
    timings_table(&rows)
}

} // verus!
