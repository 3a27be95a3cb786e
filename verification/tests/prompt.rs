use ansi_term::{Colour, Style};
use prompt_print::config::{Config, Context, ModuleTable, Shell};
use prompt_print::prompt::{assemble_prompt, escape_for_tcsh, get_module, get_prompt};
use prompt_print::segment::{effective_styles, paint_segments, Module, Segment};
use std::time::Duration;

fn context(shell: Shell, add_newline: bool, term_is_dumb: bool) -> Context {
    Context {
        shell,
        term_is_dumb,
        modules: ModuleTable { all_modules: vec![], prompt_order: vec![] },
        config: Config { add_newline, disabled: vec![], custom: None },
    }
}

fn plain(text: &str) -> Segment {
    Segment::new(text.to_string(), None)
}

#[test]
fn tcsh_escapes_exclamation_marks_and_newlines() {
    assert_eq!(escape_for_tcsh("a!b\nc"), "a\\!b \\nc");
}

#[test]
fn tcsh_escaping_leaves_other_text_alone() {
    assert_eq!(escape_for_tcsh(""), "");
    assert_eq!(escape_for_tcsh("plain \\ text"), "plain \\ text");
    assert_eq!(escape_for_tcsh("!!"), "\\!\\!");
    assert_eq!(escape_for_tcsh("\n\n"), " \\n \\n");
}

#[test]
fn segments_are_joined_in_order() {
    let segments = vec![plain("one"), plain(" "), plain("two")];
    let text = get_prompt(&context(Shell::Bash, false, false), Some(&segments));
    assert_eq!(text, "one two");
}

#[test]
fn styled_segments_carry_escape_codes() {
    let segments =
        vec![Segment::new("hi".to_string(), Some(Colour::Red.bold())), plain(" there")];
    let text = get_prompt(&context(Shell::Zsh, false, false), Some(&segments));
    assert_eq!(text, "\u{1b}[1;31mhi\u{1b}[0m there");
}

#[test]
fn a_style_that_ends_the_prompt_is_reset() {
    let segments = vec![Segment::new("x".to_string(), Some(Style::new().underline()))];
    let text = get_prompt(&context(Shell::Bash, false, false), Some(&segments));
    assert_eq!(text, "\u{1b}[4mx\u{1b}[0m");
}

#[test]
fn a_blank_line_comes_first_when_asked_for() {
    let segments = vec![plain("$ ")];
    let text = get_prompt(&context(Shell::Bash, true, false), Some(&segments));
    assert_eq!(text, "\n$ ");
}

#[test]
fn fish_gets_the_screen_cleared_first() {
    let segments = vec![plain("$ ")];
    assert_eq!(
        get_prompt(&context(Shell::Fish, false, false), Some(&segments)),
        "\u{1b}[J$ "
    );
    assert_eq!(
        get_prompt(&context(Shell::Fish, true, false), Some(&segments)),
        "\u{1b}[J\n$ "
    );
    assert_eq!(get_prompt(&context(Shell::Zsh, false, false), Some(&segments)), "$ ");
}

#[test]
fn tcsh_gets_the_whole_prompt_escaped() {
    let segments = vec![plain("a!b\nc")];
    assert_eq!(
        get_prompt(&context(Shell::Tcsh, false, false), Some(&segments)),
        "a\\!b \\nc"
    );
    assert_eq!(
        get_prompt(&context(Shell::Tcsh, true, false), Some(&segments)),
        " \\na\\!b \\nc"
    );
}

#[test]
fn tcsh_escaping_follows_the_styling() {
    let segments = vec![Segment::new("wow!".to_string(), Some(Colour::Green.normal()))];
    assert_eq!(
        get_prompt(&context(Shell::Tcsh, false, false), Some(&segments)),
        "\u{1b}[32mwow\\!\u{1b}[0m"
    );
}

#[test]
fn a_dumb_terminal_gets_the_plain_fallback() {
    let segments = vec![Segment::new("hi".to_string(), Some(Colour::Red.bold()))];
    for shell in [Shell::Bash, Shell::Fish, Shell::Tcsh] {
        assert_eq!(
            get_prompt(&context(shell, true, true), Some(&segments)),
            "Starship disabled due to TERM=dumb > "
        );
        assert_eq!(
            get_prompt(&context(shell, true, true), None),
            "Starship disabled due to TERM=dumb > "
        );
    }
}

#[test]
fn an_unparsed_template_leaves_a_marker() {
    assert_eq!(get_prompt(&context(Shell::Bash, true, false), None), ">");
    assert_eq!(get_prompt(&context(Shell::Tcsh, true, false), None), ">");
    assert_eq!(get_prompt(&context(Shell::Fish, false, false), None), "\u{1b}[J>");
}

#[test]
fn an_empty_prompt_is_empty() {
    let segments: Vec<Segment> = vec![];
    assert_eq!(get_prompt(&context(Shell::Bash, false, false), Some(&segments)), "");
}

#[test]
fn assemble_prompt_takes_the_painted_text_as_it_is() {
    assert_eq!(assemble_prompt(Shell::Bash, false, Some("abc")), "abc");
    assert_eq!(assemble_prompt(Shell::PowerShell, true, Some("abc")), "\nabc");
    assert_eq!(assemble_prompt(Shell::Tcsh, true, Some("a!")), " \\na\\!");
    assert_eq!(assemble_prompt(Shell::Fish, false, None), "\u{1b}[J>");
}

#[test]
fn get_module_renders_the_module() {
    let mut module = Module::new("character", "the prompt character", Duration::from_millis(0));
    module.set_segments(vec![Segment::new("❯".to_string(), Some(Colour::Green.bold())), plain(" ")]);
    assert_eq!(get_module(Some(&module)), Some("\u{1b}[1;32m❯\u{1b}[0m ".to_string()));
    assert_eq!(get_module(None), None);
}

#[test]
fn a_module_is_empty_when_it_has_no_segment() {
    let mut module = Module::new("git", "git status", Duration::from_millis(12));
    assert!(module.is_empty());
    assert_eq!(module.render(), "");
    module.set_segments(vec![plain("")]);
    assert!(!module.is_empty());
    assert_eq!(module.get_name(), "git");
    assert_eq!(module.get_description(), "git status");
    assert_eq!(module.joined_text(), "");
    module.set_segments(vec![plain("a"), Segment::new("b".to_string(), Some(Colour::Red.normal()))]);
    assert_eq!(module.joined_text(), "ab");
}

#[test]
fn a_segment_without_a_style_is_painted_plain() {
    let segments = vec![
        plain("a"),
        Segment::new("b".to_string(), Some(Colour::Red.normal())),
        Segment::new("c".to_string(), Some(Style::default())),
    ];
    let styles = effective_styles(&segments);
    assert_eq!(styles.len(), 3);
    assert!(styles[0] == Style::default());
    assert!(styles[1] == Colour::Red.normal());
    assert!(styles[2] == Style::default());
    assert!(effective_styles(&vec![]).is_empty());
}

#[test]
fn painting_follows_the_styles_from_one_segment_to_the_next() {
    let segments = vec![
        Segment::new("a".to_string(), Some(Colour::Red.normal())),
        Segment::new("b".to_string(), Some(Colour::Red.bold())),
        plain("c"),
        Segment::new("d".to_string(), Some(Colour::Blue.normal())),
    ];
    assert_eq!(
        paint_segments(&segments),
        "\u{1b}[31ma\u{1b}[1mb\u{1b}[0mc\u{1b}[34md\u{1b}[0m"
    );
    assert_eq!(paint_segments(&vec![plain("x"), plain("y")]), "xy");
    assert_eq!(paint_segments(&vec![]), "");
}
