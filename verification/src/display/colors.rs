//! Colours of the line.

use crate::config::Thresholds;
use crate::double::Double;
use crate::text::{opt_str, same};
use vstd::prelude::*;

verus! {

/// The escape codes of the colours, by name and by what they are for.
#[derive(Debug)]
pub struct Theme {
    pub red: String,
    pub green: String,
    pub yellow: String,
    pub blue: String,
    pub magenta: String,
    pub cyan: String,
    pub white: String,
    pub gray: String,
    pub orange: String,
    pub light_gray: String,
    pub separator: String,
    pub directory: String,
    pub model: String,
    pub git_branch: String,
    pub duration: String,
    pub lines_added: String,
    pub lines_removed: String,
    pub cost_low: String,
    pub cost_medium: String,
    pub cost_high: String,
    pub context_normal: String,
    pub context_caution: String,
    pub context_warning: String,
    pub context_critical: String,
}

impl Theme {
    /// The theme that writes plain text in one code, and what is to stand back in another.
    pub open spec fn has_palette(self, text: Seq<char>, faint: Seq<char>) -> bool {
        &&& self.red@ == "\x1b[31m"@
        &&& self.green@ == "\x1b[32m"@
        &&& self.yellow@ == "\x1b[33m"@
        &&& self.blue@ == "\x1b[34m"@
        &&& self.magenta@ == "\x1b[35m"@
        &&& self.cyan@ == "\x1b[36m"@
        &&& self.white@ == "\x1b[37m"@
        &&& self.gray@ == "\x1b[90m"@
        &&& self.orange@ == "\x1b[38;5;208m"@
        &&& self.light_gray@ == "\x1b[38;5;245m"@
        &&& self.separator@ == faint
        &&& self.directory@ == "\x1b[36m"@
        &&& self.model@ == "\x1b[36m"@
        &&& self.git_branch@ == "\x1b[32m"@
        &&& self.duration@ == faint
        &&& self.lines_added@ == "\x1b[32m"@
        &&& self.lines_removed@ == "\x1b[31m"@
        &&& self.cost_low@ == "\x1b[32m"@
        &&& self.cost_medium@ == "\x1b[33m"@
        &&& self.cost_high@ == "\x1b[31m"@
        &&& self.context_normal@ == text
        &&& self.context_caution@ == "\x1b[33m"@
        &&& self.context_warning@ == "\x1b[38;5;208m"@
        &&& self.context_critical@ == "\x1b[31m"@
    }

    fn palette(text: &str, faint: &str) -> (r: Theme)
        ensures
            r.has_palette(text@, faint@),
    {
        Theme {
            red: "\x1b[31m".to_owned(),
            green: "\x1b[32m".to_owned(),
            yellow: "\x1b[33m".to_owned(),
            blue: "\x1b[34m".to_owned(),
            magenta: "\x1b[35m".to_owned(),
            cyan: "\x1b[36m".to_owned(),
            white: "\x1b[37m".to_owned(),
            gray: "\x1b[90m".to_owned(),
            orange: "\x1b[38;5;208m".to_owned(),
            light_gray: "\x1b[38;5;245m".to_owned(),
            separator: faint.to_owned(),
            directory: "\x1b[36m".to_owned(),
            model: "\x1b[36m".to_owned(),
            git_branch: "\x1b[32m".to_owned(),
            duration: faint.to_owned(),
            lines_added: "\x1b[32m".to_owned(),
            lines_removed: "\x1b[31m".to_owned(),
            cost_low: "\x1b[32m".to_owned(),
            cost_medium: "\x1b[33m".to_owned(),
            cost_high: "\x1b[31m".to_owned(),
            context_normal: text.to_owned(),
            context_caution: "\x1b[33m".to_owned(),
            context_warning: "\x1b[38;5;208m".to_owned(),
            context_critical: "\x1b[31m".to_owned(),
        }
    }

    /// The code of a colour by its name.
    pub open spec fn named_code(self, name: Seq<char>) -> Option<Seq<char>> {
        if name == "red"@ {
            Some(self.red@)
        } else if name == "green"@ {
            Some(self.green@)
        } else if name == "yellow"@ {
            Some(self.yellow@)
        } else if name == "blue"@ {
            Some(self.blue@)
        } else if name == "magenta"@ {
            Some(self.magenta@)
        } else if name == "cyan"@ {
            Some(self.cyan@)
        } else if name == "white"@ {
            Some(self.white@)
        } else if name == "gray"@ {
            Some(self.gray@)
        } else if name == "orange"@ {
            Some(self.orange@)
        } else if name == "light_gray"@ {
            Some(self.light_gray@)
        } else {
            None
        }
    }

    fn code_named(&self, name: &str) -> (r: Option<&str>)
        ensures
            opt_str(r) == self.named_code(name@),
    {
        if same(name, "red") {
            Some(self.red.as_str())
        } else if same(name, "green") {
            Some(self.green.as_str())
        } else if same(name, "yellow") {
            Some(self.yellow.as_str())
        } else if same(name, "blue") {
            Some(self.blue.as_str())
        } else if same(name, "magenta") {
            Some(self.magenta.as_str())
        } else if same(name, "cyan") {
            Some(self.cyan.as_str())
        } else if same(name, "white") {
            Some(self.white.as_str())
        } else if same(name, "gray") {
            Some(self.gray.as_str())
        } else if same(name, "orange") {
            Some(self.orange.as_str())
        } else if same(name, "light_gray") {
            Some(self.light_gray.as_str())
        } else {
            None
        }
    }

    /// The theme for a dark background: white text, light gray separators.
    pub open spec fn is_dark(self) -> bool {
        self.has_palette("\x1b[37m"@, "\x1b[38;5;245m"@)
    }

    /// The theme for a light background: gray text and separators.
    pub open spec fn is_light(self) -> bool {
        self.has_palette("\x1b[90m"@, "\x1b[90m"@)
    }

    /// The theme of a name; the dark one where no theme has that name.
    pub fn named(name: &str) -> (r: Theme)
        ensures
            name@ == "light"@ ==> r.is_light(),
            name@ != "light"@ ==> r.is_dark(),
    {
        if same(name, "light") {
            Theme::palette("\x1b[90m", "\x1b[90m")
        } else {
            Theme::palette("\x1b[37m", "\x1b[38;5;245m")
        }
    }
}

/// Which theme is asked for: the host's variable comes first, then the general one, then
/// the configuration file; without any of them it is the dark one.
pub open spec fn asked_theme(
    host_variable: Option<Seq<char>>,
    variable: Option<Seq<char>>,
    file: Option<Seq<char>>,
) -> Seq<char> {
    match (host_variable, variable, file) {
        (Some(name), _, _) => name,
        (None, Some(name), _) => name,
        (None, None, Some(name)) => name,
        (None, None, None) => "dark"@,
    }
}

/// Which theme is asked for.
pub fn choose_theme<'a>(
    host_variable: Option<&'a str>,
    variable: Option<&'a str>,
    file: Option<&'a str>,
) -> (r: &'a str)
    ensures
        r@ == asked_theme(opt_str(host_variable), opt_str(variable), opt_str(file)),
{
    match (host_variable, variable, file) {
        (Some(name), _, _) => name,
        (None, Some(name), _) => name,
        (None, None, Some(name)) => name,
        (None, None, None) => "dark",
    }
}

/// The colours in use: a theme, or none at all.
#[derive(Debug)]
pub struct Colors {
    /// Whether anything is coloured.
    pub on: bool,
    pub theme: Theme,
    pub thresholds: Thresholds,
}

impl Colors {
    /// Whether to colour: as forced, or else unless the user asked for no colour.
    pub fn enabled(forced: Option<bool>, no_color: bool) -> (r: bool)
        ensures
            match forced {
                Some(b) => r == b,
                None => r == !no_color,
            },
    {
        match forced {
            Some(b) => b,
            None => !no_color,
        }
    }

    /// A code as it is written: nothing where nothing is coloured.
    pub open spec fn code(self, c: Seq<char>) -> Seq<char> {
        if self.on {
            c
        } else {
            Seq::empty()
        }
    }

    fn get_themed(&self, code: &str) -> (r: String)
        ensures
            r@ == self.code(code@),
    {
        if self.on {
            code.to_owned()
        } else {
            String::new()
        }
    }

    /// The code that a colour of the user's stands for: that of the theme where it is the
    /// name of a colour, and else what is written.
    pub open spec fn override_code(self, color: Seq<char>) -> Seq<char> {
        match self.theme.named_code(color) {
            Some(c) => self.code(c),
            None => color,
        }
    }

    /// The code that a colour of the user's stands for.
    pub fn resolve_color_override(&self, color: &str) -> (r: String)
        ensures
            r@ == self.override_code(color@),
    {
        match self.theme.code_named(color) {
            Some(c) => self.get_themed(c),
            None => color.to_owned(),
        }
    }

    pub open spec fn reset_code(self) -> Seq<char> {
        self.code("\x1b[0m"@)
    }

    pub fn reset(&self) -> (r: String)
        ensures
            r@ == self.reset_code(),
    {
        self.get_themed("\x1b[0m")
    }

    pub fn bold(&self) -> (r: String)
        ensures
            r@ == self.code("\x1b[1m"@),
    {
        self.get_themed("\x1b[1m")
    }

    pub fn red(&self) -> (r: String)
        ensures
            r@ == self.code(self.theme.red@),
    {
        self.get_themed(self.theme.red.as_str())
    }

    pub fn green(&self) -> (r: String)
        ensures
            r@ == self.code(self.theme.green@),
    {
        self.get_themed(self.theme.green.as_str())
    }

    pub fn yellow(&self) -> (r: String)
        ensures
            r@ == self.code(self.theme.yellow@),
    {
        self.get_themed(self.theme.yellow.as_str())
    }

    pub fn blue(&self) -> (r: String)
        ensures
            r@ == self.code(self.theme.blue@),
    {
        self.get_themed(self.theme.blue.as_str())
    }

    pub fn magenta(&self) -> (r: String)
        ensures
            r@ == self.code(self.theme.magenta@),
    {
        self.get_themed(self.theme.magenta.as_str())
    }

    pub fn cyan(&self) -> (r: String)
        ensures
            r@ == self.code(self.theme.cyan@),
    {
        self.get_themed(self.theme.cyan.as_str())
    }

    pub fn white(&self) -> (r: String)
        ensures
            r@ == self.code(self.theme.white@),
    {
        self.get_themed(self.theme.white.as_str())
    }

    pub fn gray(&self) -> (r: String)
        ensures
            r@ == self.code(self.theme.gray@),
    {
        self.get_themed(self.theme.gray.as_str())
    }

    pub fn orange(&self) -> (r: String)
        ensures
            r@ == self.code(self.theme.orange@),
    {
        self.get_themed(self.theme.orange.as_str())
    }

    pub fn light_gray(&self) -> (r: String)
        ensures
            r@ == self.code(self.theme.light_gray@),
    {
        self.get_themed(self.theme.light_gray.as_str())
    }

    /// Colour of plain text.
    pub fn text_color(&self) -> (r: String)
        ensures
            r@ == self.code(self.theme.context_normal@),
    {
        self.get_themed(self.theme.context_normal.as_str())
    }

    pub fn separator_color(&self) -> (r: String)
        ensures
            r@ == self.code(self.theme.separator@),
    {
        self.get_themed(self.theme.separator.as_str())
    }

    pub fn directory(&self) -> (r: String)
        ensures
            r@ == self.code(self.theme.directory@),
    {
        self.get_themed(self.theme.directory.as_str())
    }

    pub fn model(&self) -> (r: String)
        ensures
            r@ == self.code(self.theme.model@),
    {
        self.get_themed(self.theme.model.as_str())
    }

    pub fn git_branch(&self) -> (r: String)
        ensures
            r@ == self.code(self.theme.git_branch@),
    {
        self.get_themed(self.theme.git_branch.as_str())
    }

    pub fn duration(&self) -> (r: String)
        ensures
            r@ == self.code(self.theme.duration@),
    {
        self.get_themed(self.theme.duration.as_str())
    }

    pub fn lines_added(&self) -> (r: String)
        ensures
            r@ == self.code(self.theme.lines_added@),
    {
        self.get_themed(self.theme.lines_added.as_str())
    }

    pub fn lines_removed(&self) -> (r: String)
        ensures
            r@ == self.code(self.theme.lines_removed@),
    {
        self.get_themed(self.theme.lines_removed.as_str())
    }

    /// The code of a cost: low, medium from the first threshold on, high from the second.
    pub open spec fn cost_code(self, cost: Double) -> Seq<char> {
        self.code(
            if self.thresholds.cost_medium.at_most(cost) {
                self.theme.cost_high@
            } else if self.thresholds.cost_low.at_most(cost) {
                self.theme.cost_medium@
            } else {
                self.theme.cost_low@
            },
        )
    }

    /// Colour of a cost.
    pub fn cost_color(&self, cost: Double) -> (r: String)
        ensures
            r@ == self.cost_code(cost),
    {
        if self.thresholds.cost_medium.not_above(&cost) {
            self.get_themed(self.theme.cost_high.as_str())
        } else if self.thresholds.cost_low.not_above(&cost) {
            self.get_themed(self.theme.cost_medium.as_str())
        } else {
            self.get_themed(self.theme.cost_low.as_str())
        }
    }

    /// The code of a context percentage: each of three thresholds has to be exceeded.
    pub open spec fn context_code(self, percentage: Double) -> Seq<char> {
        self.code(
            if self.thresholds.context_critical.below(percentage) {
                self.theme.context_critical@
            } else if self.thresholds.context_warning.below(percentage) {
                self.theme.context_warning@
            } else if self.thresholds.context_caution.below(percentage) {
                self.theme.context_caution@
            } else {
                self.theme.context_normal@
            },
        )
    }

    /// Colour of a context percentage.
    pub fn context_color(&self, percentage: Double) -> (r: String)
        ensures
            r@ == self.context_code(percentage),
    {
        if self.thresholds.context_critical.less_than(&percentage) {
            self.get_themed(self.theme.context_critical.as_str())
        } else if self.thresholds.context_warning.less_than(&percentage) {
            self.get_themed(self.theme.context_warning.as_str())
        } else if self.thresholds.context_caution.less_than(&percentage) {
            self.get_themed(self.theme.context_caution.as_str())
        } else {
            self.get_themed(self.theme.context_normal.as_str())
        }
    }
}

/// With colours off, every code is empty.
pub proof fn colours_off_write_nothing(
    c: Colors,
    code: Seq<char>,
    cost: Double,
    percentage: Double,
)
    requires
        !c.on,
    ensures
        c.code(code) == Seq::<char>::empty(),
        c.reset_code() == Seq::<char>::empty(),
        c.cost_code(cost) == Seq::<char>::empty(),
        c.context_code(percentage) == Seq::<char>::empty(),
{
}

} // verus!
