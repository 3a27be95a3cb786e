//! Rendering the segments of a prompt for a shell.

use vstd::prelude::*;
use vstd::string::StringExecFns;
use crate::config::{Context, Shell};
use crate::segment::{
    all_plain, ansi_text, joined_values, paint_segments, styled_pieces, Module, Segment,
};
use crate::text::chars_of;

verus! {

/// What one character becomes in a prompt for tcsh: an exclamation mark is
/// escaped with a backslash, and a newline becomes a space followed by a
/// backslash and the letter `n`.
pub open spec fn tcsh_char(c: char) -> Seq<char> {
    if c == '!' {
        seq!['\\', '!']
    } else if c == '\n' {
        seq![' ', '\\', 'n']
    } else {
        seq![c]
    }
}

/// A text as tcsh needs it in a prompt: each character as `tcsh_char` gives
/// it.
pub open spec fn tcsh_escaped(s: Seq<char>) -> Seq<char>
    decreases s.len(),
{
    if s.len() == 0 {
        Seq::empty()
    } else {
        tcsh_escaped(s.drop_last()) + tcsh_char(s.last())
    }
}

/// A text escaped for tcsh holds no newline, and each exclamation mark in it
/// follows a backslash.
pub proof fn lemma_tcsh_escaped_is_safe(s: Seq<char>, i: int)
    requires
        0 <= i < tcsh_escaped(s).len(),
    ensures
        tcsh_escaped(s)[i] != '\n',
        tcsh_escaped(s)[i] == '!' ==> i > 0 && tcsh_escaped(s)[i - 1] == '\\',
    decreases s.len(),
{
    if s.len() > 0 {
        let before = tcsh_escaped(s.drop_last());
        if i < before.len() {
            lemma_tcsh_escaped_is_safe(s.drop_last(), i);
        }
    }
}

/// Escapes a text for a tcsh prompt.
pub fn escape_for_tcsh(text: &str) -> (escaped: String)
    ensures
        escaped@ == tcsh_escaped(text@),
{
    let chars = chars_of(text);
    let mut escaped = String::new();
    let mut i: usize = 0;
    while i < chars.len()
        invariant
            i <= chars.len(),
            escaped@ == tcsh_escaped(chars@.take(i as int)),
        decreases chars.len() - i,
    {
        let c: char = chars[i];
        let ghost before = escaped@;
        proof {
            assert(chars@.take(i + 1).drop_last() =~= chars@.take(i as int));
        }
        if c == '!' {
            escaped.push('\\');
            escaped.push('!');
        } else if c == '\n' {
            escaped.push(' ');
            escaped.push('\\');
            escaped.push('n');
        } else {
            escaped.push(c);
        }
        proof {
            assert(escaped@ =~= before + tcsh_char(c));
        }
        i += 1;
    }
    proof {
        assert(chars@.take(chars.len() as int) =~= chars@);
    }
    escaped
}

/// The prompt for a terminal that can show control sequences, given the
/// painted segments of the template, or `None` where the template could not
/// be parsed.
///
/// For fish the prompt begins with the control sequence that clears the
/// screen below the cursor. A template that could not be parsed leaves a
/// bare `>`. Otherwise a newline follows if the configuration asks for one,
/// then the painted segments; for tcsh the whole is escaped.
pub open spec fn prompt_text(shell: Shell, add_newline: bool, painted: Option<Seq<char>>) -> Seq<
    char,
> {
    let clear = if shell == Shell::Fish {
        "\x1b[J"@
    } else {
        Seq::empty()
    };
    match painted {
        None => clear + ">"@,
        Some(content) => {
            let newline = if add_newline {
                "\n"@
            } else {
                Seq::empty()
            };
            let text = clear + newline + content;
            if shell == Shell::Tcsh {
                tcsh_escaped(text)
            } else {
                text
            }
        },
    }
}

/// What is shown in place of a prompt on a terminal that cannot show control
/// sequences.
pub open spec fn dumb_terminal_text() -> Seq<char> {
    "Starship disabled due to TERM=dumb > "@
}

/// Puts the prompt together from the painted segments of the template.
pub fn assemble_prompt(shell: Shell, add_newline: bool, painted: Option<&str>) -> (text: String)
    ensures
        text@ == prompt_text(
            shell,
            add_newline,
            match painted {
                Some(content) => Some(content@),
                None => None,
            },
        ),
{
    let mut buf = String::new();
    match shell {
        Shell::Fish => {
            buf.append("\x1b[J");
        },
        _ => {},
    }
    let ghost clear = buf@;
    match painted {
        None => {
            buf.append(">");
            buf
        },
        Some(content) => {
            if add_newline {
                buf.append("\n");
            }
            buf.append(content);
            proof {
                let newline = if add_newline {
                    "\n"@
                } else {
                    Seq::empty()
                };
                assert(buf@ =~= clear + newline + content@);
            }
            match shell {
                Shell::Tcsh => escape_for_tcsh(buf.as_str()),
                _ => buf,
            }
        },
    }
}

/// The text of the whole prompt as a function of the context, the segments
/// of the template and what painting them gives.
pub open spec fn rendered_prompt(context: Context, painted: Option<Seq<char>>) -> Seq<char> {
    if context.term_is_dumb {
        dumb_terminal_text()
    } else {
        prompt_text(context.shell, context.config.add_newline, painted)
    }
}

/// Renders the prompt from the segments of the template, in their order, or
/// from `None` where the template could not be parsed. On a terminal that
/// cannot show control sequences a fixed plain text takes the prompt's place.
/// A template without segments is painted as the empty text, and segments
/// that are all plain as their joined texts.
pub fn get_prompt(context: &Context, root: Option<&Vec<Segment>>) -> (text: String)
    ensures
        text@ == rendered_prompt(
            *context,
            match root {
                Some(segments) => Some(ansi_text(styled_pieces(segments@))),
                None => None,
            },
        ),
        root is Some && root->0@.len() == 0 ==> text@ == rendered_prompt(
            *context,
            Some(Seq::empty()),
        ),
        root is Some && all_plain(root->0@) ==> text@ == rendered_prompt(
            *context,
            Some(joined_values(root->0@)),
        ),
{
    if context.term_is_dumb {
        return String::from_str("Starship disabled due to TERM=dumb > ");
    }
    match root {
        Some(segments) => {
            let painted = paint_segments(segments);
            proof {
                if segments@.len() == 0 {
                    assert(painted@ =~= Seq::empty());
                }
            }
            assemble_prompt(context.shell, context.config.add_newline, Some(painted.as_str()))
        },
        None => assemble_prompt(context.shell, context.config.add_newline, None),
    }
}

/// Renders a single module, where there is one. A module without segments
/// is rendered as the empty text, and one whose segments are all plain as
/// their joined texts.
pub fn get_module(module: Option<&Module>) -> (text: Option<String>)
    ensures
        match module {
            Some(m) => text is Some && text->0@ == ansi_text(styled_pieces(m.segments@)),
            None => text is None,
        },
        module is Some && module->0.segments@.len() == 0 ==> text is Some && text->0@.len() == 0,
        module is Some && all_plain(module->0.segments@) ==> text is Some && text->0@
            == joined_values(module->0.segments@),
{
    match module {
        Some(m) => Some(m.render()),
        None => None,
    }
}

} // verus!
