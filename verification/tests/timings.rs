use ansi_term::Colour;
use prompt_print::segment::{Module, Segment};
use prompt_print::timings::{
    escape_newlines, order_by_duration, timing_rows, timings, timings_table, ModuleTiming,
};
use std::time::Duration;

const HEADING: &str = "\n Here are the timings of modules in your prompt (>=1ms or output):\n";

fn module(name: &str, millis: u64, texts: &[&str]) -> Module {
    let mut module = Module::new(name, "", Duration::from_millis(millis));
    module.set_segments(texts.iter().map(|t| Segment::new(t.to_string(), None)).collect());
    module
}

fn row(name: &str, nanos: u128, duration_len: usize, value: &str) -> ModuleTiming {
    ModuleTiming {
        name: name.to_string(),
        name_len: name.chars().count(),
        value: value.to_string(),
        nanos,
        duration_len,
    }
}

#[test]
fn slower_modules_come_first() {
    let modules = vec![module("a", 0, &["x"]), module("bb", 5, &["y"]), module("c", 2, &["z"])];
    let expected = format!(
        "{}{}{}{}",
        HEADING,
        " bb  -   5ms  -   \"y\"\n",
        "  c  -   2ms  -   \"z\"\n",
        "  a  -  <1ms  -   \"x\"\n"
    );
    assert_eq!(timings(&modules), expected);
}

#[test]
fn a_module_without_output_and_time_is_left_out() {
    let modules = vec![module("a", 0, &[]), module("bb", 5, &[]), module("c", 2, &[])];
    let expected =
        format!("{}{}{}", HEADING, " bb  -  5ms  -   \"\"\n", "  c  -  2ms  -   \"\"\n");
    assert_eq!(timings(&modules), expected);
    let rows = timing_rows(&modules);
    assert_eq!(rows.len(), 2);
    assert_eq!(rows[0].name, "bb");
    assert_eq!(rows[1].name, "c");
}

#[test]
fn a_module_that_took_under_a_millisecond_needs_output() {
    let mut quick = Module::new("quick", "", Duration::from_micros(999));
    assert!(timing_rows(&vec![quick]).is_empty());
    quick = Module::new("quick", "", Duration::from_micros(999));
    quick.set_segments(vec![Segment::new(String::new(), None)]);
    let rows = timing_rows(&vec![quick]);
    assert_eq!(rows.len(), 1);
    assert_eq!(rows[0].nanos, 999_000);
    assert_eq!(rows[0].duration_len, 4);
    let slow = Module::new("slow", "", Duration::from_millis(1));
    assert_eq!(timing_rows(&vec![slow]).len(), 1);
}

#[test]
fn no_modules_leave_the_heading() {
    assert_eq!(timings(&vec![]), HEADING);
    assert_eq!(timings_table(&vec![]), HEADING);
}

#[test]
fn equal_durations_keep_their_order() {
    let rows = vec![
        row("a", 2_000_000, 3, ""),
        row("b", 7_000_000, 3, ""),
        row("c", 2_000_000, 3, ""),
        row("d", 7_000_000, 3, ""),
        row("e", 2_000_000, 3, ""),
    ];
    assert_eq!(order_by_duration(&rows), vec![1, 3, 0, 2, 4]);
}

#[test]
fn order_is_by_the_full_duration() {
    let rows = vec![
        row("a", 1_000_001, 3, ""),
        row("b", 1_999_999, 3, ""),
        row("c", 1_000_000, 3, ""),
    ];
    assert_eq!(order_by_duration(&rows), vec![1, 0, 2]);
    assert_eq!(order_by_duration(&vec![]), Vec::<usize>::new());
    assert_eq!(order_by_duration(&vec![row("only", 0, 4, "")]), vec![0]);
}

#[test]
fn columns_are_padded_to_the_widest() {
    let rows = vec![
        row("directory", 123_000_000, 5, "~/src"),
        row("git", 0, 4, "main"),
        row("日本", 45_000_000, 4, ""),
    ];
    let mut rows = rows;
    rows[2].name_len = 4;
    let expected = format!(
        "{}{}{}{}",
        HEADING,
        " directory  -  123ms  -   \"~/src\"\n",
        "      日本  -   45ms  -   \"\"\n",
        "       git  -   <1ms  -   \"main\"\n"
    );
    assert_eq!(timings_table(&rows), expected);
}

#[test]
fn names_are_measured_by_grapheme() {
    let modules = vec![module("日本", 1, &[]), module("abc", 2, &[])];
    let rows = timing_rows(&modules);
    assert_eq!(rows[0].name_len, 4);
    assert_eq!(rows[1].name_len, 3);
    let expected =
        format!("{}{}{}", HEADING, "  abc  -  2ms  -   \"\"\n", " 日本  -  1ms  -   \"\"\n");
    assert_eq!(timings(&modules), expected);
}

#[test]
fn values_are_shown_on_one_line_with_their_styling() {
    let mut m = Module::new("m", "", Duration::from_millis(3));
    m.set_segments(vec![
        Segment::new("a\nb".to_string(), Some(Colour::Blue.normal())),
        Segment::new("\n".to_string(), None),
    ]);
    let expected = format!("{}{}", HEADING, " m  -  3ms  -   \"\u{1b}[34ma\\nb\u{1b}[0m\\n\"\n");
    assert_eq!(timings(&vec![m]), expected);
}

#[test]
fn newlines_are_written_as_two_characters() {
    assert_eq!(escape_newlines("a\nb\n"), "a\\nb\\n");
    assert_eq!(escape_newlines("no newline \\n"), "no newline \\n");
    assert_eq!(escape_newlines(""), "");
}
