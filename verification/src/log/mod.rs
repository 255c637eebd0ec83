//! How the log is set up: what is logged, and whether in colour; and the
//! banner the program starts with.

use crate::text::{given_or, or_default, same_text};
use figlet_rs::FIGfont;
use vstd::prelude::*;
use vstd::string::StringExecFns;

verus! {

/// The settings of the log.
#[derive(Debug)]
pub struct LogSettings {
    /// The filter that says what is logged.
    pub filter: String,
    /// Whether the log is coloured.
    pub ansi: bool,
}

/// What a text says of a switch: `true` or `false`, and nothing else.
pub open spec fn switch_of(text: Seq<char>) -> Option<bool> {
    if text == "true"@ {
        Some(true)
    } else if text == "false"@ {
        Some(false)
    } else {
        None
    }
}

/// Whether the log is coloured: as given, and not where nothing is given.
pub open spec fn colour_of(log_color: Option<String>) -> Option<bool> {
    switch_of(given_or(log_color, "false"@))
}

/// The settings of the log for what the environment gives: the filter as
/// given or else `info`, in colour only where that is asked for. `None`
/// where the colour is neither `true` nor `false`.
pub fn log_settings(rust_log: Option<String>, log_color: Option<String>) -> (settings: Option<
    LogSettings,
>)
    ensures
        match settings {
            Some(made) => made.filter@ == given_or(rust_log, "info"@) && colour_of(log_color)
                == Some(made.ansi),
            None => colour_of(log_color) is None,
        },
{
    let filter = or_default(rust_log, "info");
    let colour = or_default(log_color, "false");
    if same_text(colour.as_str(), "true") {
        Some(LogSettings { filter, ansi: true })
    } else if same_text(colour.as_str(), "false") {
        Some(LogSettings { filter, ansi: false })
    } else {
        None
    }
}

/// Where nothing is said of the colour, the log is not coloured.
pub proof fn lemma_log_is_plain_by_default()
    ensures
        colour_of(None) == Some(false),
{
    reveal_strlit("true");
    reveal_strlit("false");
    assert("true"@.len() == 4);
    assert("false"@.len() == 5);
}

/// What figlet-rs draws of a message in its standard font: the text of the
/// figure, or `None` where it draws none.
pub uninterp spec fn standard_figure(message: Seq<char>) -> Option<Seq<char>>;

/// The characters of a text that may not be there.
pub open spec fn text_of(text: Option<String>) -> Option<Seq<char>> {
    match text {
        Some(given) => Some(given@),
        None => None,
    }
}

/// Draws a message with `FIGfont::standard` and `FIGfont::convert` of
/// figlet-rs, and renders the figure through its `Display`.
///
/// Believed, not proved: the result is what those calls give for the
/// message and for nothing else, the font being part of the crate; and no
/// figure is drawn of an empty message, which `convert` refuses first of
/// all.
#[verifier::external_body]
fn draw(message: &str) -> (figure: Option<String>)
    ensures
        text_of(figure) == standard_figure(message@),
        message@.len() == 0 ==> figure is None,
{
    match FIGfont::standard() {
        Ok(font) => match font.convert(message) {
            Some(figure) => Some(format!("{}", figure)),
            None => None,
        },
        Err(_) => None,
    }
}

/// What the program shows when it starts: the figure of its name, and the
/// line that names its version.
#[derive(Debug)]
pub struct Banner {
    pub figure: String,
    pub line: String,
}

/// The line that names the program and its version.
pub open spec fn starting_line(name: Seq<char>, version: Seq<char>) -> Seq<char> {
    "Starting "@ + name + " version: "@ + version
}

/// The banner for a figure that was drawn, and none where none was.
pub fn compose_banner(figure: Option<String>, name: &str, version: &str) -> (banner: Option<
    Banner,
>)
    ensures
        match banner {
            Some(made) => figure == Some(made.figure) && made.line@ == starting_line(
                name@,
                version@,
            ),
            None => figure is None,
        },
{
    match figure {
        Some(figure) => {
            let mut line = String::from_str("Starting ");
            line.append(name);
            line.append(" version: ");
            line.append(version);
            Some(Banner { figure, line })
        },
        None => None,
    }
}

/// The banner of a program: the figure of its name in the standard font,
/// with the line that names its version. `None` where no figure can be
/// drawn of the name, as of an empty one.
pub fn banner(name: &str, version: &str) -> (banner: Option<Banner>)
    ensures
        match banner {
            Some(made) => standard_figure(name@) == Some(made.figure@) && made.line@
                == starting_line(name@, version@),
            None => standard_figure(name@) is None,
        },
        name@.len() == 0 ==> banner is None,
{
    compose_banner(draw(name), name, version)
}

} // verus!
