//! What the user is told, and how it looks.
//!
//! The reporter makes the lines and decides what progress to show; the caller
//! prints and draws.
use vstd::prelude::*;
use vstd::string::*;

use crate::text;

verus! {

broadcast use vstd::string::group_string_axioms;

/// How things are reported.
#[derive(Debug, Clone)]
pub struct Reporter {
    verbose: u8,
    quiet: bool,
    interactive: bool,
    use_color: bool,
}

/// The kinds of messages.
#[derive(Debug, Clone, Copy, PartialEq, Eq, Structural)]
pub enum Level {
    Info,
    Success,
    Warning,
    Error,
    Debug,
}

/// The colors of tags.
#[derive(Debug, Clone, Copy, PartialEq, Eq, Structural)]
pub enum TagColor {
    Green,
    Yellow,
    Red,
    Blue,
    Cyan,
}

/// How the progress of something is shown.
#[derive(Debug)]
pub enum Progress {
    /// Not at all.
    Hidden,
    /// By one line, printed now.
    Line(String),
    /// By something that turns, with a message.
    Spinner(String),
    /// By something that turns, with a message and how much has been done.
    Counter(String),
    /// By a bar that grows up to `total`, with a message.
    Bar { total: u64, message: String },
}

// ---------------------------------------------------------------------------
// Model
// ---------------------------------------------------------------------------

/// The model of a [`Reporter`].
pub struct ReporterView {
    pub verbose: u8,
    pub quiet: bool,
    pub interactive: bool,
    pub use_color: bool,
}

impl View for Reporter {
    type V = ReporterView;

    closed spec fn view(&self) -> ReporterView {
        ReporterView {
            verbose: self.verbose,
            quiet: self.quiet,
            interactive: self.interactive,
            use_color: self.use_color,
        }
    }
}

/// The color of a level.
pub open spec fn color_of(level: Level) -> TagColor {
    match level {
        Level::Success => TagColor::Green,
        Level::Warning => TagColor::Yellow,
        Level::Error => TagColor::Red,
        Level::Debug => TagColor::Blue,
        Level::Info => TagColor::Cyan,
    }
}

/// The number by which terminals know a color.
pub open spec fn color_code(color: TagColor) -> Seq<char> {
    match color {
        TagColor::Green => "32"@,
        TagColor::Yellow => "33"@,
        TagColor::Red => "31"@,
        TagColor::Blue => "34"@,
        TagColor::Cyan => "36"@,
    }
}

/// A text in bold and in a color.
pub open spec fn bright(text: Seq<char>, color: TagColor) -> Seq<char> {
    "\u{1b}[1;"@ + color_code(color) + "m"@ + text + "\u{1b}[0m"@
}

/// `line` is a message of a level as the reporter shows it. Where it uses color,
/// the tag is colored unless the environment forbids it.
pub open spec fn is_line(
    reporter: ReporterView,
    level: Level,
    message: Seq<char>,
    line: Seq<char>,
) -> bool {
    if reporter.use_color {
        line == tagged("cook"@, message) || line == tagged(bright("cook"@, color_of(level)), message)
    } else {
        line == "cook: "@ + message
    }
}

/// A message behind a tag.
pub open spec fn tagged(tag: Seq<char>, message: Seq<char>) -> Seq<char> {
    tag + " "@ + message
}

/// A message of a level is shown unless the user wants less.
pub open spec fn is_shown(reporter: ReporterView, level: Level) -> bool {
    match level {
        Level::Info | Level::Success => !reporter.quiet,
        Level::Debug => !reporter.quiet && reporter.verbose > 0,
        Level::Warning | Level::Error => true,
    }
}

/// `line` is what becomes of a message of a level.
pub open spec fn is_report(
    reporter: ReporterView,
    level: Level,
    message: Seq<char>,
    line: Option<String>,
) -> bool {
    if is_shown(reporter, level) {
        line is Some && is_line(reporter, level, message, line->0@)
    } else {
        line is None
    }
}

/// What may be drawn where drawing is possible.
#[verifier::ext_equal]
pub enum DrawnView {
    Spinner(Seq<char>),
    Counter(Seq<char>),
    Bar { total: u64, message: Seq<char> },
}

/// What is drawn for a progress.
pub open spec fn drawn(progress: Progress) -> Option<DrawnView> {
    match progress {
        Progress::Hidden => None,
        Progress::Line(_) => None,
        Progress::Spinner(message) => Some(DrawnView::Spinner(message@)),
        Progress::Counter(message) => Some(DrawnView::Counter(message@)),
        Progress::Bar { total, message } => Some(DrawnView::Bar { total, message: message@ }),
    }
}

/// `progress` is how a progress is shown that would be drawn as `wanted`.
pub open spec fn is_progress(
    reporter: ReporterView,
    message: Seq<char>,
    wanted: DrawnView,
    progress: Progress,
) -> bool {
    if reporter.quiet {
        progress is Hidden
    } else if !reporter.interactive {
        progress matches Progress::Line(line) && is_line(reporter, Level::Info, message, line@)
    } else {
        drawn(progress) == Some(wanted)
    }
}

// ---------------------------------------------------------------------------
// Laws
// ---------------------------------------------------------------------------

/// Whatever is asked for, warnings and errors are shown.
pub proof fn errors_are_always_shown(reporter: ReporterView)
    ensures
        is_shown(reporter, Level::Warning),
        is_shown(reporter, Level::Error),
{
}

/// A quiet reporter shows nothing but warnings and errors.
pub proof fn quiet_shows_only_trouble(reporter: ReporterView, level: Level)
    requires
        reporter.quiet,
        is_shown(reporter, level),
    ensures
        level == Level::Warning || level == Level::Error,
{
}

/// Without color a line is the message behind `cook: `. With color it is the message
/// behind `cook`, which is bold and green for success, yellow for a warning, red for
/// an error, blue for details and cyan otherwise, unless the environment forbids it.
pub proof fn lines_show_the_message(reporter: ReporterView, message: Seq<char>, line: Seq<char>)
    ensures
        !reporter.use_color ==> (is_line(reporter, Level::Error, message, line) <==> line
            == "cook: "@ + message),
        !reporter.use_color ==> (is_line(reporter, Level::Info, message, line) <==> line
            == "cook: "@ + message),
        reporter.use_color ==> {
            let plain = "cook"@ + " "@ + message;
            let end = "\u{1b}[0m"@ + " "@ + message;
            &&& is_line(reporter, Level::Success, message, line) ==> line == plain || line
                == "\u{1b}[1;32m"@ + "cook"@ + end
            &&& is_line(reporter, Level::Warning, message, line) ==> line == plain || line
                == "\u{1b}[1;33m"@ + "cook"@ + end
            &&& is_line(reporter, Level::Error, message, line) ==> line == plain || line
                == "\u{1b}[1;31m"@ + "cook"@ + end
            &&& is_line(reporter, Level::Debug, message, line) ==> line == plain || line
                == "\u{1b}[1;34m"@ + "cook"@ + end
            &&& is_line(reporter, Level::Info, message, line) ==> line == plain || line
                == "\u{1b}[1;36m"@ + "cook"@ + end
        },
{
    reveal_strlit("\u{1b}[1;");
    reveal_strlit("m");
    reveal_strlit("32");
    reveal_strlit("33");
    reveal_strlit("31");
    reveal_strlit("34");
    reveal_strlit("36");
    reveal_strlit("\u{1b}[1;32m");
    reveal_strlit("\u{1b}[1;33m");
    reveal_strlit("\u{1b}[1;31m");
    reveal_strlit("\u{1b}[1;34m");
    reveal_strlit("\u{1b}[1;36m");
    assert("\u{1b}[1;"@ + "32"@ + "m"@ =~= "\u{1b}[1;32m"@);
    assert("\u{1b}[1;"@ + "33"@ + "m"@ =~= "\u{1b}[1;33m"@);
    assert("\u{1b}[1;"@ + "31"@ + "m"@ =~= "\u{1b}[1;31m"@);
    assert("\u{1b}[1;"@ + "34"@ + "m"@ =~= "\u{1b}[1;34m"@);
    assert("\u{1b}[1;"@ + "36"@ + "m"@ =~= "\u{1b}[1;36m"@);
    assert forall|front: Seq<char>| #[trigger] (front + "cook"@ + "\u{1b}[0m"@ + " "@ + message)
        == front + "cook"@ + ("\u{1b}[0m"@ + " "@ + message) by {
        assert(front + "cook"@ + "\u{1b}[0m"@ + " "@ + message =~= front + "cook"@ + ("\u{1b}[0m"@
            + " "@ + message));
    }
}

/// Details are shown only to a user who asks for them and does not ask for quiet;
/// everything else is shown to everyone who does not ask for quiet.
pub proof fn details_are_shown_on_request(reporter: ReporterView)
    ensures
        is_shown(reporter, Level::Debug) <==> !reporter.quiet && reporter.verbose >= 1,
        is_shown(reporter, Level::Info) <==> !reporter.quiet,
        is_shown(reporter, Level::Success) <==> !reporter.quiet,
{
}

/// Progress is hidden from a quiet user, told by a line where nothing can be drawn,
/// and otherwise drawn as it was asked for.
pub proof fn progress_suits_the_terminal(
    reporter: ReporterView,
    message: Seq<char>,
    wanted: DrawnView,
    progress: Progress,
)
    requires
        is_progress(reporter, message, wanted, progress),
    ensures
        reporter.quiet <==> progress is Hidden,
        !reporter.quiet && !reporter.interactive <==> progress is Line,
        progress matches Progress::Line(told) ==> (!reporter.use_color ==> told@ == "cook: "@
            + message),
        progress matches Progress::Spinner(shown) ==> wanted == DrawnView::Spinner(shown@),
        progress matches Progress::Counter(shown) ==> wanted == DrawnView::Counter(shown@),
        progress matches Progress::Bar { total, message: shown } ==> wanted == (DrawnView::Bar {
            total,
            message: shown@,
        }),
{
}

// ---------------------------------------------------------------------------
// The outside crate
// ---------------------------------------------------------------------------

/// Calls `colored::Colorize::color` and `bold` and writes the result out.
/// Trusted: it is the text in bold and in the color, or the plain text where the
/// environment switches colors off. Which of the two it is, is left open. A text
/// that holds escape characters is not admitted.
#[verifier::external_body]
fn paint(plain: &str, color: TagColor) -> (r: String)
    requires
        !plain@.contains('\u{1b}'),
    ensures
        r@ == plain@ || r@ == bright(plain@, color),
{
    let color = match color {
        TagColor::Green => colored::Color::Green,
        TagColor::Yellow => colored::Color::Yellow,
        TagColor::Red => colored::Color::Red,
        TagColor::Blue => colored::Color::Blue,
        TagColor::Cyan => colored::Color::Cyan,
    };
    format!("{}", colored::Colorize::bold(colored::Colorize::color(plain, color)))
}

// ---------------------------------------------------------------------------
// Functions
// ---------------------------------------------------------------------------

/// A message behind a tag.
pub fn behind_tag(tag: &str, message: &str) -> (r: String)
    ensures
        r@ == tagged(tag@, message@),
{
    let mut out = tag.to_owned();
    out.append(" ");
    out.append(message);
    out
}

fn tag_color(level: Level) -> (r: TagColor)
    ensures
        r == color_of(level),
{
    match level {
        Level::Success => TagColor::Green,
        Level::Warning => TagColor::Yellow,
        Level::Error => TagColor::Red,
        Level::Debug => TagColor::Blue,
        Level::Info => TagColor::Cyan,
    }
}

impl Reporter {
    /// A reporter for a user who asked for `verbose` more or for `quiet`, whose
    /// environment sets `NO_COLOR` to `no_color`, and whose terminal can be drawn
    /// on if `interactive`.
    pub fn new(verbose: u8, quiet: bool, no_color: Option<&str>, interactive: bool) -> (r: Self)
        ensures
            r@.verbose == verbose,
            r@.quiet == quiet,
            r@.interactive == interactive,
            r@.use_color == (interactive && !(no_color is Some && text::trimmed(no_color->0@).len()
                > 0)),
    {
        let forbidden = match no_color {
            Some(value) => !text::blank(value),
            None => false,
        };
        Reporter { verbose, quiet, interactive, use_color: interactive && !forbidden }
    }

    /// The line that shows a message.
    fn prefixed(&self, level: Level, message: &str) -> (r: String)
        ensures
            is_line(self@, level, message@, r@),
    {
        if self.use_color {
            proof {
                reveal_strlit("cook");
            }
            behind_tag(paint("cook", tag_color(level)).as_str(), message)
        } else {
            let mut out = "cook: ".to_owned();
            out.append(message);
            out
        }
    }

    /// The line for standard output that tells something.
    pub fn info(&self, message: &str) -> (r: Option<String>)
        ensures
            is_report(self@, Level::Info, message@, r),
    {
        if self.quiet {
            None
        } else {
            Some(self.prefixed(Level::Info, message))
        }
    }

    /// The line for standard output that tells of success.
    pub fn success(&self, message: &str) -> (r: Option<String>)
        ensures
            is_report(self@, Level::Success, message@, r),
    {
        if self.quiet {
            None
        } else {
            Some(self.prefixed(Level::Success, message))
        }
    }

    /// The line for standard error that warns.
    pub fn warn(&self, message: &str) -> (r: String)
        ensures
            is_line(self@, Level::Warning, message@, r@),
    {
        self.prefixed(Level::Warning, message)
    }

    /// The line for standard error that tells of a failure.
    pub fn error(&self, message: &str) -> (r: String)
        ensures
            is_line(self@, Level::Error, message@, r@),
    {
        self.prefixed(Level::Error, message)
    }

    /// The line for standard error that tells what is going on inside.
    pub fn debug(&self, message: &str) -> (r: Option<String>)
        ensures
            is_report(self@, Level::Debug, message@, r),
    {
        if self.quiet || self.verbose == 0 {
            None
        } else {
            Some(self.prefixed(Level::Debug, message))
        }
    }

    /// How to show that something is going on.
    pub fn spinner(&self, message: &str) -> (r: Progress)
        ensures
            is_progress(self@, message@, DrawnView::Spinner(message@), r),
    {
        if self.quiet {
            return Progress::Hidden;
        }
        if !self.interactive {
            return Progress::Line(self.prefixed(Level::Info, message));
        }
        Progress::Spinner(message.to_owned())
    }

    /// How to show the progress of something measured in bytes.
    pub fn progress_bytes(&self, total: Option<u64>, message: &str) -> (r: Progress)
        ensures
            is_progress(
                self@,
                message@,
                if total is Some && total->0 > 0 {
                    DrawnView::Bar { total: total->0, message: message@ }
                } else {
                    DrawnView::Counter(message@)
                },
                r,
            ),
    {
        if self.quiet {
            return Progress::Hidden;
        }
        if !self.interactive {
            return Progress::Line(self.prefixed(Level::Info, message));
        }
        match total {
            Some(total) => if total > 0 {
                Progress::Bar { total, message: message.to_owned() }
            } else {
                Progress::Counter(message.to_owned())
            },
            None => Progress::Counter(message.to_owned()),
        }
    }

    /// How to show the progress through a number of items.
    pub fn progress_items(&self, total: u64, message: &str) -> (r: Progress)
        ensures
            is_progress(
                self@,
                message@,
                if total == 0 {
                    DrawnView::Spinner(message@)
                } else {
                    DrawnView::Bar { total, message: message@ }
                },
                r,
            ),
    {
        if self.quiet {
            return Progress::Hidden;
        }
        if !self.interactive {
            return Progress::Line(self.prefixed(Level::Info, message));
        }
        if total == 0 {
            return self.spinner(message);
        }
        Progress::Bar { total, message: message.to_owned() }
    }
}

}
