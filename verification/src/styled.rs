//! Terminal text whose visible width is tracked separately from its rendered
//! form. Style markup (ANSI escape codes) is added only through
//! [`ColouredString::apply_style`], which never changes the stored width, so
//! the width always equals the number of visible columns by construction.

use colored::Colorize;
use vstd::prelude::*;
use vstd::string::StrSliceExecFns;
use vstd::string::StringExecFns;

verus! {

/// A visual attribute that can wrap a piece of terminal text: a weight, a
/// slant, a foreground colour or a background colour. Attributes compose by
/// repeated application.
#[derive(Clone, Copy)]
pub enum Style {
    Bold,
    Italic,
    Black,
    Red,
    Green,
    Yellow,
    Blue,
    Purple,
    Cyan,
    OnRed,
    OnGreen,
    OnYellow,
    OnCyan,
    OnWhite,
}

/// A string paired with the number of display columns it occupies when
/// printed. The rendered form may contain non-printing style markup; the
/// abstract view of the value is the sequence of visible characters only.
pub struct ColouredString {
    s: String,
    l: usize,
    vis: Ghost<Seq<char>>,
}

impl View for ColouredString {
    type V = Seq<char>;

    closed spec fn view(&self) -> Seq<char> {
        self.vis@
    }
}

impl ColouredString {
    /// The rendered form, style markup included. For text that was never
    /// styled it coincides with the visible view.
    pub closed spec fn text(self) -> Seq<char> {
        self.s@
    }

    /// The stored width.
    pub closed spec fn width(self) -> nat {
        self.l as nat
    }

    /// Width bookkeeping is intact: the stored width equals the number of
    /// visible characters.
    pub closed spec fn wf(self) -> bool {
        self.l == self.vis@.len()
    }

    pub fn new() -> (r: ColouredString)
        ensures
            r.wf(),
            r@ == Seq::<char>::empty(),
            r.text() == Seq::<char>::empty(),
    {
        ColouredString { s: String::new(), l: 0, vis: Ghost(Seq::empty()) }
    }

    pub fn from_string(string: String) -> (r: ColouredString)
        ensures
            r.wf(),
            r@ == string@,
            r.text() == string@,
    {
        let l = string.as_str().unicode_len();
        ColouredString { vis: Ghost(string@), l, s: string }
    }

    pub fn from_str(string: &str) -> (r: ColouredString)
        ensures
            r.wf(),
            r@ == string@,
            r.text() == string@,
    {
        ColouredString::from_string(String::from_str(string))
    }

    pub fn as_str(&self) -> (r: &str)
        ensures
            r@ == self.text(),
    {
        self.s.as_str()
    }

    pub fn to_string(&self) -> (r: String)
        ensures
            r@ == self.text(),
    {
        self.s.clone()
    }

    pub fn push_str(&mut self, string: &str)
        requires
            old(self).wf(),
            old(self)@.len() + string@.len() <= usize::MAX,
        ensures
            final(self).wf(),
            final(self)@ == old(self)@ + string@,
            final(self).text() == old(self).text() + string@,
    {
        self.s.append(string);
        self.l = self.l + string.unicode_len();
        self.vis = Ghost(self.vis@ + string@);
    }

    pub fn push_string(&mut self, string: String)
        requires
            old(self).wf(),
            old(self)@.len() + string@.len() <= usize::MAX,
        ensures
            final(self).wf(),
            final(self)@ == old(self)@ + string@,
            final(self).text() == old(self).text() + string@,
    {
        self.push_str(string.as_str())
    }

    /// Joins on a string that may already carry style markup: the widths add,
    /// whatever markup either side holds.
    pub fn push_coloured_string(&mut self, coloured_string: ColouredString)
        requires
            old(self).wf(),
            coloured_string.wf(),
            old(self)@.len() + coloured_string@.len() <= usize::MAX,
        ensures
            final(self).wf(),
            final(self)@ == old(self)@ + coloured_string@,
            final(self).text() == old(self).text() + coloured_string.text(),
    {
        self.s.append(coloured_string.s.as_str());
        self.l = self.l + coloured_string.l;
        self.vis = Ghost(self.vis@ + coloured_string.vis@);
    }

    pub fn len(&self) -> (r: usize)
        requires
            self.wf(),
        ensures
            r == self@.len(),
    {
        self.l
    }

    /// Wraps the rendered form in the markup of one style attribute. The
    /// visible view and the stored width are unchanged: style application is
    /// never counted as visible width.
    pub fn apply_style(&self, style: Style) -> (r: ColouredString)
        requires
            self.wf(),
        ensures
            r.wf(),
            r@ == self@,
    {
        let styled: String = match style {
            Style::Bold => style_bold(self.s.as_str()),
            Style::Italic => style_italic(self.s.as_str()),
            Style::Black => style_black(self.s.as_str()),
            Style::Red => style_red(self.s.as_str()),
            Style::Green => style_green(self.s.as_str()),
            Style::Yellow => style_yellow(self.s.as_str()),
            Style::Blue => style_blue(self.s.as_str()),
            Style::Purple => style_purple(self.s.as_str()),
            Style::Cyan => style_cyan(self.s.as_str()),
            Style::OnRed => style_on_red(self.s.as_str()),
            Style::OnGreen => style_on_green(self.s.as_str()),
            Style::OnYellow => style_on_yellow(self.s.as_str()),
            Style::OnCyan => style_on_cyan(self.s.as_str()),
            Style::OnWhite => style_on_white(self.s.as_str()),
        };
        ColouredString { s: styled, l: self.l, vis: self.vis }
    }
}

impl Clone for ColouredString {
    fn clone(&self) -> (res: Self)
        ensures
            res == *self,
    {
        ColouredString { s: self.s.clone(), l: self.l, vis: self.vis }
    }
}

/// Law: for any value built purely through the constructors and operations
/// above, the stored width equals the count of characters that would be
/// visible if all style markers were stripped, whatever the nesting or order
/// of style applications.
pub proof fn lemma_width_counts_visible_columns(cs: ColouredString)
    requires
        cs.wf(),
    ensures
        cs.width() == cs@.len(),
{
}

/// Relies on colored::Colorize::bold: wraps the text in ANSI style codes,
/// which occupy no display columns when printed.
#[verifier::external_body]
fn style_bold(s: &str) -> String {
    s.bold().to_string()
}

/// Relies on colored::Colorize::italic: ANSI markup only, no visible columns.
#[verifier::external_body]
fn style_italic(s: &str) -> String {
    s.italic().to_string()
}

/// Relies on colored::Colorize::black: ANSI markup only, no visible columns.
#[verifier::external_body]
fn style_black(s: &str) -> String {
    s.black().to_string()
}

/// Relies on colored::Colorize::red: ANSI markup only, no visible columns.
#[verifier::external_body]
fn style_red(s: &str) -> String {
    s.red().to_string()
}

/// Relies on colored::Colorize::green: ANSI markup only, no visible columns.
#[verifier::external_body]
fn style_green(s: &str) -> String {
    s.green().to_string()
}

/// Relies on colored::Colorize::yellow: ANSI markup only, no visible columns.
#[verifier::external_body]
fn style_yellow(s: &str) -> String {
    s.yellow().to_string()
}

/// Relies on colored::Colorize::blue: ANSI markup only, no visible columns.
#[verifier::external_body]
fn style_blue(s: &str) -> String {
    s.blue().to_string()
}

/// Relies on colored::Colorize::purple: ANSI markup only, no visible columns.
#[verifier::external_body]
fn style_purple(s: &str) -> String {
    s.purple().to_string()
}

/// Relies on colored::Colorize::cyan: ANSI markup only, no visible columns.
#[verifier::external_body]
fn style_cyan(s: &str) -> String {
    s.cyan().to_string()
}

/// Relies on colored::Colorize::on_red: ANSI markup only, no visible columns.
#[verifier::external_body]
fn style_on_red(s: &str) -> String {
    s.on_red().to_string()
}

/// Relies on colored::Colorize::on_green: ANSI markup only, no visible columns.
#[verifier::external_body]
fn style_on_green(s: &str) -> String {
    s.on_green().to_string()
}

/// Relies on colored::Colorize::on_yellow: ANSI markup only, no visible columns.
#[verifier::external_body]
fn style_on_yellow(s: &str) -> String {
    s.on_yellow().to_string()
}

/// Relies on colored::Colorize::on_cyan: ANSI markup only, no visible columns.
#[verifier::external_body]
fn style_on_cyan(s: &str) -> String {
    s.on_cyan().to_string()
}

/// Relies on colored::Colorize::on_white: ANSI markup only, no visible columns.
#[verifier::external_body]
fn style_on_white(s: &str) -> String {
    s.on_white().to_string()
}

} // verus!
