use crate::error::PasteError;
use crate::lines::{lines_of, split_lines};
use crate::text::{has_prefix, starts_with};
use syntect::easy::HighlightLines;
use syntect::highlighting::{Theme, ThemeSet};
use syntect::html::highlighted_html_for_string;
use syntect::parsing::SyntaxSet;
use syntect::util::as_24_bit_terminal_escaped;
use vstd::prelude::*;

verus! {

/// syntect's set of syntax definitions.
#[verifier::external_type_specification]
#[verifier::external_body]
pub struct ExSyntaxSet(SyntaxSet);

/// syntect's colour theme.
#[verifier::external_type_specification]
#[verifier::external_body]
pub struct ExTheme(Theme);

/// syntect's line-by-line highlighter.
#[verifier::external_type_specification]
#[verifier::external_body]
pub struct ExHighlightLines<'a>(HighlightLines<'a>);

/// Relies on syntect's `SyntaxSet::load_defaults_nonewlines`: the bundled
/// syntax definitions, for lines given without their endings.
pub assume_specification[ SyntaxSet::load_defaults_nonewlines ]() -> SyntaxSet;

/// Relies on syntect's `SyntaxSet::load_defaults_newlines`: the bundled
/// syntax definitions, for lines given with their endings.
pub assume_specification[ SyntaxSet::load_defaults_newlines ]() -> SyntaxSet;

/// Name of the syntax that syntect's bundled syntax set (the one for lines
/// without endings) finds for file extension `ext`, if any.
pub uninterp spec fn bundled_syntax(ext: Seq<char>) -> Option<Seq<char>>;

/// syntect's HTML snippet of `text`, highlighted with the syntax that the
/// bundled syntax set for lines with endings finds for `ext`, in the bundled
/// theme `THEME_NAME`; `None` where no syntax is found or syntect fails.
pub uninterp spec fn bundled_html(text: Seq<char>, ext: Seq<char>) -> Option<Seq<char>>;

/// syntect's 24-bit terminal rendering of `line` by a line highlighter for
/// the bundled syntax of `ext` in the bundled theme `THEME_NAME` that has
/// already highlighted the lines `before`; `None` where highlighting fails.
pub uninterp spec fn escaped_line(before: Seq<Seq<char>>, line: Seq<char>, ext: Seq<char>) -> Option<
    Seq<char>,
>;

/// Relies on syntect's `ThemeSet::load_defaults`: the bundled theme of the
/// given name, if there is one; `THEME_NAME` is among them.
#[verifier::external_body]
fn bundled_theme(name: &str) -> (r: Option<Theme>)
    ensures
        name@ == THEME_NAME@ ==> r is Some,
{
    ThemeSet::load_defaults().themes.get(name).cloned()
}

/// Relies on syntect's `SyntaxSet::find_syntax_by_extension` and the `name`
/// field of the syntax found: the name of the bundled syntax for `ext`.
#[verifier::external_body]
fn syntax_name_for(h: &Highlighter, ext: &str) -> (r: Option<String>)
    ensures
        opt_view(r) == bundled_syntax(ext@),
{
    h.syntaxes.find_syntax_by_extension(ext).map(|s| s.name.clone())
}

/// Relies on syntect's `highlighted_html_for_string`, with the syntax that
/// `SyntaxSet::find_syntax_by_extension` finds for `ext` in the syntax set
/// for lines with endings.
#[verifier::external_body]
fn html_for(h: &Highlighter, text: &str, ext: &str) -> (r: Option<String>)
    ensures
        opt_view(r) == bundled_html(text@, ext@),
{
    match h.html_syntaxes.find_syntax_by_extension(ext) {
        None => None,
        Some(syntax) => highlighted_html_for_string(text, &h.html_syntaxes, syntax, &h.theme).ok(),
    }
}

/// A text outcome that may be missing, with the text viewed as characters.
pub open spec fn opt_view(r: Option<String>) -> Option<Seq<char>> {
    match r {
        None => None,
        Some(t) => Some(t@),
    }
}

/// Terminal rendering of `lines` in the syntax of `ext`: each line's
/// escaped text followed by a newline; `None` where any line fails.
pub open spec fn terminal_render(lines: Seq<Seq<char>>, ext: Seq<char>) -> Option<Seq<char>>
    decreases lines.len(),
{
    if lines.len() == 0 {
        Some(Seq::<char>::empty())
    } else {
        let before = lines.drop_last();
        match (terminal_render(before, ext), escaped_line(before, lines.last(), ext)) {
            (Some(a), Some(e)) => Some(a + e + seq!['\n']),
            _ => None,
        }
    }
}

/// Once a prefix of `lines` fails to render, so does the whole.
proof fn lemma_render_fails_onwards(lines: Seq<Seq<char>>, k: int, ext: Seq<char>)
    requires
        0 <= k <= lines.len(),
        terminal_render(lines.take(k), ext) is None,
    ensures
        terminal_render(lines, ext) is None,
    decreases lines.len() - k,
{
    if k == lines.len() {
        assert(lines.take(k) =~= lines);
    } else {
        assert(lines.take(k + 1).drop_last() =~= lines.take(k));
        lemma_render_fails_onwards(lines, k + 1, ext);
    }
}

/// Highlights the lines of one text in turn, keeping syntect's parse state
/// from line to line.
pub struct LineHighlighter<'a> {
    inner: HighlightLines<'a>,
    syntaxes: &'a SyntaxSet,
    fed: Ghost<Seq<Seq<char>>>,
    ext: Ghost<Seq<char>>,
}

impl<'a> LineHighlighter<'a> {
    /// The lines highlighted so far.
    pub closed spec fn fed(&self) -> Seq<Seq<char>> {
        self.fed@
    }

    /// The file extension whose syntax is used.
    pub closed spec fn ext(&self) -> Seq<char> {
        self.ext@
    }

    /// Relies on syntect's `SyntaxSet::find_syntax_by_extension` and
    /// `HighlightLines::new`: a highlighter for the bundled syntax of `ext`
    /// in the highlighter's theme, built from the syntax set it will parse
    /// with.
    #[verifier::external_body]
    fn start(owner: &'a Highlighter, ext: &str) -> (r: Option<LineHighlighter<'a>>)
        ensures
            r is Some <==> bundled_syntax(ext@) is Some,
            r is Some ==> r->0.fed() == Seq::<Seq<char>>::empty() && r->0.ext() == ext@,
    {
        let syntax = owner.syntaxes.find_syntax_by_extension(ext)?;
        Some(LineHighlighter {
            inner: HighlightLines::new(syntax, &owner.theme),
            syntaxes: &owner.syntaxes,
            fed: Ghost(Seq::empty()),
            ext: Ghost(ext@),
        })
    }

    /// Relies on syntect's `HighlightLines::highlight_line` and
    /// `as_24_bit_terminal_escaped`: the next line, highlighted after the
    /// lines before it, as text with terminal colour escapes.
    #[verifier::external_body]
    fn next_line(&mut self, line: &str) -> (r: Option<String>)
        requires
            terminal_render(old(self).fed(), old(self).ext()) is Some,
        ensures
            final(self).fed() == old(self).fed().push(line@),
            final(self).ext() == old(self).ext(),
            opt_view(r) == escaped_line(old(self).fed(), line@, old(self).ext()),
    {
        let ranges = self.inner.highlight_line(line, self.syntaxes).ok()?;
        Some(as_24_bit_terminal_escaped(&ranges[..], false))
    }
}

/// Name of the theme that pastes are highlighted in.
pub const THEME_NAME: &'static str = "base16-eighties.dark";

/// Name of the syntax that marks a language as not highlightable.
pub const PLAIN_TEXT: &'static str = "Plain Text";

/// The form in which highlighted text is delivered.
#[derive(Debug, Clone, Copy, PartialEq, Eq, Structural)]
pub enum OutputMode {
    /// Terminal colour escapes.
    Terminal,
    /// An HTML snippet.
    Html,
}

/// Highlighted text.
#[derive(Debug, Clone, PartialEq, Eq)]
pub enum Rendered {
    /// Text with terminal colour escapes, one highlighted line per line.
    Terminal(String),
    /// An HTML snippet.
    Html(String),
}

/// A rendering outcome, as the form and the characters of the text.
pub open spec fn rendered_view(r: Result<Rendered, PasteError>) -> Result<
    (OutputMode, Seq<char>),
    PasteError,
> {
    match r {
        Ok(Rendered::Terminal(t)) => Ok((OutputMode::Terminal, t@)),
        Ok(Rendered::Html(h)) => Ok((OutputMode::Html, h@)),
        Err(e) => Err(e),
    }
}

/// The outcome of highlighting `text` as the language of file extension
/// `ext` in the form `mode`: `HighlightUnavailable` where the language has
/// no syntax, or only plain text, or syntect fails; otherwise syntect's
/// HTML snippet, or the terminal rendering of the lines of `text`.
pub open spec fn highlighting(text: Seq<char>, ext: Seq<char>, mode: OutputMode) -> Result<
    (OutputMode, Seq<char>),
    PasteError,
> {
    if !highlightable(bundled_syntax(ext)) {
        Err(PasteError::HighlightUnavailable)
    } else {
        let out = match mode {
            OutputMode::Html => bundled_html(text, ext),
            OutputMode::Terminal => terminal_render(lines_of(text), ext),
        };
        match out {
            Some(t) => Ok((mode, t)),
            None => Err(PasteError::HighlightUnavailable),
        }
    }
}

/// Terminal output goes to clients without a user agent and to curl; other
/// clients get HTML.
pub open spec fn mode_for(user_agent: Option<Seq<char>>) -> OutputMode {
    match user_agent {
        None => OutputMode::Terminal,
        Some(ua) => if has_prefix(ua, "curl/"@) {
            OutputMode::Terminal
        } else {
            OutputMode::Html
        },
    }
}

/// A language can be highlighted where a syntax is found for it and that
/// syntax is not plain text.
pub open spec fn highlightable(syntax: Option<Seq<char>>) -> bool {
    match syntax {
        None => false,
        Some(name) => name != PLAIN_TEXT@,
    }
}

/// Chooses the output form for a client from its user agent.
pub fn output_mode(user_agent: Option<&str>) -> (m: OutputMode)
    ensures
        m == mode_for(
            match user_agent {
                None => None,
                Some(ua) => Some(ua@),
            },
        ),
{
    match user_agent {
        None => OutputMode::Terminal,
        Some(ua) => if starts_with(ua, "curl/") {
            OutputMode::Terminal
        } else {
            OutputMode::Html
        },
    }
}

/// Decides from the name of the syntax found for a language, if any,
/// whether that language can be highlighted.
pub fn is_highlightable(syntax: Option<&str>) -> (r: bool)
    ensures
        r == highlightable(
            match syntax {
                None => None,
                Some(name) => Some(name@),
            },
        ),
{
    match syntax {
        None => false,
        Some(name) => name.to_owned() != PLAIN_TEXT.to_owned(),
    }
}

/// Syntax definitions and a theme to highlight pastes with.
pub struct Highlighter {
    syntaxes: SyntaxSet,
    html_syntaxes: SyntaxSet,
    theme: Theme,
}

impl Highlighter {
    /// Loads the bundled syntaxes and the bundled theme `THEME_NAME`.
    pub fn new() -> (r: Highlighter) {
        let theme = bundled_theme(THEME_NAME).unwrap();
        Highlighter {
            syntaxes: SyntaxSet::load_defaults_nonewlines(),
            html_syntaxes: SyntaxSet::load_defaults_newlines(),
            theme,
        }
    }

    /// Highlights `text` as the language of file extension `lang`, in the
    /// form `mode` asks for.
    pub fn highlight(&self, text: &str, lang: &str, mode: OutputMode) -> (r: Result<
        Rendered,
        PasteError,
    >)
        ensures
            rendered_view(r) == highlighting(text@, lang@, mode),
    {
        let name = syntax_name_for(self, lang);
        let found = match &name {
            None => None,
            Some(n) => Some(n.as_str()),
        };
        if !is_highlightable(found) {
            return Err(PasteError::HighlightUnavailable);
        }
        match mode {
            OutputMode::Html => match html_for(self, text, lang) {
                Some(s) => Ok(Rendered::Html(s)),
                None => Err(PasteError::HighlightUnavailable),
            },
            OutputMode::Terminal => {
                let lines = split_lines(text);
                let ghost lv = lines@.map_values(|l: String| l@);
                let mut th = match LineHighlighter::start(self, lang) {
                    None => {
                        return Err(PasteError::HighlightUnavailable);
                    },
                    Some(t) => t,
                };
                let mut out = String::new();
                assert(lv.take(0) =~= Seq::<Seq<char>>::empty());
                for i in 0..lines.len()
                    invariant
                        lv == lines@.map_values(|l: String| l@),
                        lv == lines_of(text@),
                        th.fed() == lv.take(i as int),
                        th.ext() == lang@,
                        mode == OutputMode::Terminal,
                        highlightable(bundled_syntax(lang@)),
                        terminal_render(lv.take(i as int), lang@) == Some(out@),
                {
                    let ghost before = lv.take(i as int);
                    assert(lv.take(i + 1).drop_last() =~= before);
                    assert(lv.take(i + 1).last() == lines@[i as int]@);
                    match th.next_line(lines[i].as_str()) {
                        None => {
                            assert(terminal_render(lv.take(i + 1), lang@) is None);
                            proof {
                                lemma_render_fails_onwards(lv, i + 1, lang@);
                            }

                            return Err(PasteError::HighlightUnavailable);
                        },
                        Some(e) => {
                            out.append(e.as_str());
                            out.push('\n');
                            assert(th.fed() =~= lv.take(i + 1));
                        },
                    }
                }
                assert(lv.take(lines@.len() as int) =~= lv);
                Ok(Rendered::Terminal(out))
            },
        }
    }
}

} // verus!
