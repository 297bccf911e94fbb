//! The variables that a template can name.

use crate::config::{
    ContextComponentConfig, DirectoryComponentConfig, GitComponentConfig, ModelComponentConfig,
};
use crate::display::colors::Colors;
use crate::layout::format::{paint, painted};
use crate::text::{
    chars_of, concat2, concat4, dec, if_not_empty, join_opt, joined_opt, non_empty,
    opt_str, opt_view, same, text_of, u64_text,
};
use crate::text_map::TextMap;
use vstd::prelude::*;

verus! {

/// The texts of a map of strings.
pub open spec fn texts(m: Map<Seq<char>, String>) -> Map<Seq<char>, Seq<char>> {
    m.map_values(|s: String| s@)
}

/// Collects variables, each by its name. A variable without a value is not there at all.
#[derive(Debug)]
pub struct VariableBuilder {
    variables: TextMap<String>,
}

impl View for VariableBuilder {
    type V = Map<Seq<char>, Seq<char>>;

    closed spec fn view(&self) -> Map<Seq<char>, Seq<char>> {
        texts(self.variables@)
    }
}

/// A variable set to a value, unless the value is empty.
pub open spec fn set_text(m: Map<Seq<char>, Seq<char>>, key: Seq<char>, value: Seq<char>) -> Map<
    Seq<char>,
    Seq<char>,
> {
    if value.len() > 0 {
        m.insert(key, value)
    } else {
        m
    }
}

/// A variable set to a value in a colour, unless the value is empty.
pub open spec fn set_painted(
    m: Map<Seq<char>, Seq<char>>,
    key: Seq<char>,
    color: Seq<char>,
    value: Seq<char>,
    reset: Seq<char>,
) -> Map<Seq<char>, Seq<char>> {
    if value.len() > 0 {
        m.insert(key, painted(color, value, reset))
    } else {
        m
    }
}

/// The code of a configured colour, or the default.
pub open spec fn chosen_color(
    colors: Colors,
    configured: Seq<char>,
    default: Seq<char>,
) -> Seq<char> {
    if configured.len() == 0 {
        default
    } else {
        colors.override_code(configured)
    }
}

/// `s` cut at its front to `max` characters, the first of them an ellipsis. 0 is no
/// limit.
pub open spec fn cut_front(s: Seq<char>, max: nat) -> Seq<char> {
    if max > 0 && s.len() > max {
        "…"@ + s.skip(s.len() - max + 1)
    } else {
        s
    }
}

fn truncate_front(s: &str, max: usize) -> (r: String)
    ensures
        r@ == cut_front(s@, max as nat),
{
    let c = chars_of(s);
    if max > 0 && c.len() > max {
        let skip: usize = c.len() - max + 1;
        let tail = text_of(&c, skip, c.len());
        proof {
            assert(s@.subrange(skip as int, s@.len() as int) =~= s@.skip(skip as int));
        }
        concat2("…", tail.as_str())
    } else {
        s.to_owned()
    }
}

/// Tokens used and tokens there are, in thousands.
pub open spec fn token_pair(used: nat, of: nat) -> Seq<char> {
    dec(used / 1000) + "k/"@ + dec(of / 1000) + "k"@
}

fn token_pair_text(used: u64, of: u64) -> (r: String)
    ensures
        r@ == token_pair(used as nat, of as nat),
{
    concat4(u64_text(used / 1000).as_str(), "k/", u64_text(of / 1000).as_str(), "k")
}

pub open spec fn percent_text(pct: nat) -> Seq<char> {
    dec(pct) + "%"@
}

fn percent_string(pct: u32) -> (r: String)
    ensures
        r@ == percent_text(pct as nat),
{
    concat2(u64_text(pct as u64).as_str(), "%")
}

/// The directory in its configured form.
pub open spec fn directory_value(
    full: Seq<char>,
    short: Seq<char>,
    base: Seq<char>,
    config: DirectoryComponentConfig,
) -> Seq<char> {
    cut_front(
        if config.format@ == "full"@ {
            full
        } else if config.format@ == "basename"@ {
            base
        } else {
            short
        },
        config.max_length as nat,
    )
}

/// Whether the repository is shown.
pub open spec fn git_shown(config: GitComponentConfig, dirty: bool) -> bool {
    if config.show_when@ == "never"@ {
        false
    } else if config.show_when@ == "dirty"@ {
        dirty
    } else {
        true
    }
}

pub open spec fn or_empty(s: Option<Seq<char>>) -> Seq<char> {
    match s {
        Some(t) => t,
        None => Seq::empty(),
    }
}

/// The variables of the repository.
pub open spec fn git_variables(
    m: Map<Seq<char>, Seq<char>>,
    full: Seq<char>,
    branch: Option<Seq<char>>,
    status: Option<Seq<char>>,
    dirty: bool,
    default_color: Seq<char>,
    reset: Seq<char>,
    config: GitComponentConfig,
    colors: Colors,
) -> Map<Seq<char>, Seq<char>> {
    let color = chosen_color(colors, config.color@, default_color);
    if !git_shown(config, dirty) {
        m
    } else {
        let n = if config.format@ == "branch"@ {
            set_painted(m, "git"@, color, or_empty(branch), reset)
        } else if config.format@ == "status"@ {
            set_text(m, "git"@, or_empty(status))
        } else {
            set_text(m, "git"@, full)
        };
        set_painted(n, "git_branch"@, color, or_empty(branch), reset)
    }
}

/// The context in its configured form, if there is anything to show.
pub open spec fn context_value(
    bar: Seq<char>,
    percentage: Option<u32>,
    tokens: Option<(u64, u64)>,
    config: ContextComponentConfig,
) -> Option<Seq<char>> {
    let pct = match percentage {
        Some(p) => Some(percent_text(p as nat)),
        None => None,
    };
    let toks = match tokens {
        Some(t) => Some(token_pair(t.0 as nat, t.1 as nat)),
        None => None,
    };
    if config.format@ == "bar"@ {
        non_empty(bar)
    } else if config.format@ == "percent"@ {
        pct
    } else if config.format@ == "tokens"@ {
        toks
    } else {
        joined_opt(
            joined_opt(pct, " "@, non_empty(bar)),
            " "@,
            if config.show_tokens {
                toks
            } else {
                None
            },
        )
    }
}

fn context_text(
    bar: &str,
    percentage: Option<u32>,
    tokens: Option<(u64, u64)>,
    config: &ContextComponentConfig,
) -> (r: Option<String>)
    ensures
        opt_view(r) == context_value(bar@, percentage, tokens, *config),
{
    let pct = match percentage {
        Some(p) => Some(percent_string(p)),
        None => None,
    };
    let toks = match tokens {
        Some(t) => Some(token_pair_text(t.0, t.1)),
        None => None,
    };
    let format = config.format.as_str();
    if same(format, "bar") {
        if_not_empty(bar)
    } else if same(format, "percent") {
        pct
    } else if same(format, "tokens") {
        toks
    } else {
        let front = join_opt(pct, " ", if_not_empty(bar));
        join_opt(
            front,
            " ",
            if config.show_tokens {
                toks
            } else {
                None
            },
        )
    }
}

/// The variables of the context.
pub open spec fn context_variables(
    m: Map<Seq<char>, Seq<char>>,
    bar: Seq<char>,
    percentage: Option<u32>,
    tokens: Option<(u64, u64)>,
    config: ContextComponentConfig,
) -> Map<Seq<char>, Seq<char>> {
    let a = match percentage {
        Some(p) => m.insert("context_pct"@, percent_text(p as nat)),
        None => m,
    };
    let b = match tokens {
        Some(t) => a.insert("context_tokens"@, token_pair(t.0 as nat, t.1 as nat)),
        None => a,
    };
    set_opt(b, "context"@, context_value(bar, percentage, tokens, config))
}

/// The model in its configured form.
pub open spec fn model_value(
    abbreviation: Seq<char>,
    full: Seq<char>,
    family: Seq<char>,
    version: Seq<char>,
    config: ModelComponentConfig,
) -> Seq<char> {
    if config.format@ == "full"@ {
        full
    } else if config.format@ == "name"@ {
        family
    } else if config.format@ == "version"@ {
        version
    } else {
        abbreviation
    }
}

/// Lines added and removed, each where there are any.
pub open spec fn lines_value(
    added: nat,
    removed: nat,
    add_color: Seq<char>,
    remove_color: Seq<char>,
    reset: Seq<char>,
) -> Option<Seq<char>> {
    joined_opt(
        if added > 0 {
            Some(add_color + "+"@ + dec(added) + reset)
        } else {
            None
        },
        " "@,
        if removed > 0 {
            Some(remove_color + "-"@ + dec(removed) + reset)
        } else {
            None
        },
    )
}

/// Lines added and removed, each where there are any.
pub fn lines_text(added: u64, removed: u64, add_color: &str, remove_color: &str, reset: &str) -> (r:
    Option<String>)
    ensures
        opt_view(r) == lines_value(added as nat, removed as nat, add_color@, remove_color@, reset@),
{
    let plus = if added > 0 {
        Some(concat4(add_color, "+", u64_text(added).as_str(), reset))
    } else {
        None
    };
    let minus = if removed > 0 {
        Some(concat4(remove_color, "-", u64_text(removed).as_str(), reset))
    } else {
        None
    };
    join_opt(plus, " ", minus)
}

/// A variable set to a value, where there is one.
pub open spec fn set_opt(m: Map<Seq<char>, Seq<char>>, key: Seq<char>, value: Option<Seq<char>>) -> Map<
    Seq<char>,
    Seq<char>,
> {
    match value {
        Some(v) => m.insert(key, v),
        None => m,
    }
}

pub(crate) fn pick_color(colors: &Colors, configured: &str, default: &str) -> (r: String)
    ensures
        r@ == chosen_color(*colors, configured@, default@),
{
    if configured.is_empty() {
        default.to_owned()
    } else {
        colors.resolve_color_override(configured)
    }
}

impl VariableBuilder {
    pub fn new() -> (r: Self)
        ensures
            r@ == Map::<Seq<char>, Seq<char>>::empty(),
    {
        let r = VariableBuilder { variables: TextMap::new() };
        proof {
            assert(r@ =~= Map::<Seq<char>, Seq<char>>::empty());
        }
        r
    }

    pub(crate) fn put(&mut self, key: &str, value: String)
        ensures
            final(self)@ == old(self)@.insert(key@, value@),
    {
        let ghost m = self.variables@;
        self.variables.insert(key.to_owned(), value);
        proof {
            assert(texts(m.insert(key@, value)) =~= texts(m).insert(key@, value@));
        }
    }

    pub(crate) fn put_text(&mut self, key: &str, value: &str)
        ensures
            final(self)@ == set_text(old(self)@, key@, value@),
    {
        if !value.is_empty() {
            self.put(key, value.to_owned());
        }
    }

    pub(crate) fn put_opt(&mut self, key: &str, value: Option<String>)
        ensures
            final(self)@ == set_opt(old(self)@, key@, opt_view(value)),
    {
        match value {
            Some(v) => self.put(key, v),
            None => {},
        }
    }

    pub(crate) fn put_painted(&mut self, key: &str, color: &str, value: &str, reset: &str)
        ensures
            final(self)@ == set_painted(old(self)@, key@, color@, value@, reset@),
    {
        if !value.is_empty() {
            self.put(key, paint(color, value, reset));
        }
    }

    /// Set a variable, unless the value is empty.
    pub fn set(self, key: &str, value: String) -> (r: Self)
        ensures
            r@ == set_text(self@, key@, value@),
    {
        let mut b = self;
        b.put_text(key, value.as_str());
        b
    }

    /// `{directory}` and `{dir_short}`.
    pub fn directory(self, path: &str, short_path: &str, color: &str, reset: &str) -> (r: Self)
        ensures
            r@ == set_painted(
                set_painted(self@, "directory"@, color@, path@, reset@),
                "dir_short"@,
                color@,
                short_path@,
                reset@,
            ),
    {
        let mut b = self;
        b.put_painted("directory", color, path, reset);
        b.put_painted("dir_short", color, short_path, reset);
        b
    }

    /// `{directory}` and `{dir_short}` as configured.
    pub fn directory_with_config(
        self,
        full_path: &str,
        short_path: &str,
        basename: &str,
        default_color: &str,
        reset: &str,
        config: &DirectoryComponentConfig,
        colors: &Colors,
    ) -> (r: Self)
        ensures
            r@ == ({
                let color = chosen_color(*colors, config.color@, default_color@);
                let m = set_painted(
                    self@,
                    "directory"@,
                    color,
                    directory_value(full_path@, short_path@, basename@, *config),
                    reset@,
                );
                if basename@.len() > 0 {
                    m.insert(
                        "dir_short"@,
                        painted(color, cut_front(basename@, config.max_length as nat), reset@),
                    )
                } else {
                    m
                }
            }),
    {
        let color = pick_color(colors, config.color.as_str(), default_color);
        let value = if same(config.format.as_str(), "full") {
            truncate_front(full_path, config.max_length)
        } else if same(config.format.as_str(), "basename") {
            truncate_front(basename, config.max_length)
        } else {
            truncate_front(short_path, config.max_length)
        };
        let mut b = self;
        b.put_painted("directory", color.as_str(), value.as_str(), reset);
        if !basename.is_empty() {
            let short = truncate_front(basename, config.max_length);
            b.put("dir_short", paint(color.as_str(), short.as_str(), reset));
        }
        b
    }

    /// `{git}` and `{git_branch}`.
    pub fn git(self, full_info: &str, branch: Option<&str>) -> (r: Self)
        ensures
            r@ == set_text(
                set_text(self@, "git"@, full_info@),
                "git_branch"@,
                or_empty(opt_str(branch)),
            ),
    {
        let mut b = self;
        b.put_text("git", full_info);
        match branch {
            Some(name) => b.put_text("git_branch", name),
            None => {},
        }
        b
    }

    /// `{git}` and `{git_branch}` as configured.
    pub fn git_with_config(
        self,
        full_info: &str,
        branch: Option<&str>,
        status_only: Option<&str>,
        is_dirty: bool,
        default_color: &str,
        reset: &str,
        config: &GitComponentConfig,
        colors: &Colors,
    ) -> (r: Self)
        ensures
            r@ == git_variables(
                self@,
                full_info@,
                opt_str(branch),
                opt_str(status_only),
                is_dirty,
                default_color@,
                reset@,
                *config,
                *colors,
            ),
    {
        let shown = if same(config.show_when.as_str(), "never") {
            false
        } else if same(config.show_when.as_str(), "dirty") {
            is_dirty
        } else {
            true
        };
        if !shown {
            return self;
        }
        let color = pick_color(colors, config.color.as_str(), default_color);
        let mut b = self;
        if same(config.format.as_str(), "branch") {
            match branch {
                Some(name) => b.put_painted("git", color.as_str(), name, reset),
                None => {},
            }
        } else if same(config.format.as_str(), "status") {
            match status_only {
                Some(status) => b.put_text("git", status),
                None => {},
            }
        } else {
            b.put_text("git", full_info);
        }
        match branch {
            Some(name) => b.put_painted("git_branch", color.as_str(), name, reset),
            None => {},
        }
        b
    }

    /// `{context}`, `{context_pct}` and `{context_tokens}`.
    pub fn context(
        self,
        bar_display: &str,
        percentage: Option<u32>,
        tokens: Option<(u64, u64)>,
    ) -> (r: Self)
        ensures
            r@ == ({
                let a = set_text(self@, "context"@, bar_display@);
                let b = match percentage {
                    Some(p) => a.insert("context_pct"@, dec(p as nat)),
                    None => a,
                };
                match tokens {
                    Some(t) => b.insert("context_tokens"@, token_pair(t.0 as nat, t.1 as nat)),
                    None => b,
                }
            }),
    {
        let mut b = self;
        b.put_text("context", bar_display);
        match percentage {
            Some(p) => b.put("context_pct", u64_text(p as u64)),
            None => {},
        }
        match tokens {
            Some(t) => b.put("context_tokens", token_pair_text(t.0, t.1)),
            None => {},
        }
        b
    }

    /// `{context}`, `{context_pct}` and `{context_tokens}` as configured.
    pub fn context_with_config(
        self,
        bar_only: &str,
        percentage: Option<u32>,
        tokens: Option<(u64, u64)>,
        config: &ContextComponentConfig,
    ) -> (r: Self)
        ensures
            r@ == context_variables(self@, bar_only@, percentage, tokens, *config),
    {
        let mut b = self;
        match percentage {
            Some(p) => b.put("context_pct", percent_string(p)),
            None => {},
        }
        match tokens {
            Some(t) => b.put("context_tokens", token_pair_text(t.0, t.1)),
            None => {},
        }
        b.put_opt("context", context_text(bar_only, percentage, tokens, config));
        b
    }

    /// `{model}` and `{model_full}`.
    pub fn model(self, abbreviation: &str, full_name: &str, color: &str, reset: &str) -> (r: Self)
        ensures
            r@ == set_painted(
                set_painted(self@, "model"@, color@, abbreviation@, reset@),
                "model_full"@,
                color@,
                full_name@,
                reset@,
            ),
    {
        let mut b = self;
        b.put_painted("model", color, abbreviation, reset);
        b.put_painted("model_full", color, full_name, reset);
        b
    }

    /// `{model}`, `{model_full}` and `{model_name}` as configured.
    pub fn model_with_config(
        self,
        abbreviation: &str,
        full_name: &str,
        family_name: &str,
        version: &str,
        default_color: &str,
        reset: &str,
        config: &ModelComponentConfig,
        colors: &Colors,
    ) -> (r: Self)
        ensures
            r@ == ({
                let color = chosen_color(*colors, config.color@, default_color@);
                let value = model_value(
                    abbreviation@,
                    full_name@,
                    family_name@,
                    version@,
                    *config,
                );
                set_painted(
                    set_painted(
                        set_painted(self@, "model"@, color, value, reset@),
                        "model_full"@,
                        color,
                        full_name@,
                        reset@,
                    ),
                    "model_name"@,
                    color,
                    family_name@,
                    reset@,
                )
            }),
    {
        let color = pick_color(colors, config.color.as_str(), default_color);
        let value = if same(config.format.as_str(), "full") {
            full_name
        } else if same(config.format.as_str(), "name") {
            family_name
        } else if same(config.format.as_str(), "version") {
            version
        } else {
            abbreviation
        };
        let mut b = self;
        b.put_painted("model", color.as_str(), value, reset);
        b.put_painted("model_full", color.as_str(), full_name, reset);
        b.put_painted("model_name", color.as_str(), family_name, reset);
        b
    }

    /// `{duration}`.
    pub fn duration(self, formatted: &str, color: &str, reset: &str) -> (r: Self)
        ensures
            r@ == set_painted(self@, "duration"@, color@, formatted@, reset@),
    {
        let mut b = self;
        b.put_painted("duration", color, formatted, reset);
        b
    }

    /// `{lines}`.
    pub fn lines_changed(
        self,
        added: u64,
        removed: u64,
        add_color: &str,
        remove_color: &str,
        reset: &str,
    ) -> (r: Self)
        ensures
            r@ == set_opt(
                self@,
                "lines"@,
                lines_value(added as nat, removed as nat, add_color@, remove_color@, reset@),
            ),
    {
        let mut b = self;
        b.put_opt("lines", lines_text(added, removed, add_color, remove_color, reset));
        b
    }

    /// The variables that were set.
    pub fn build(self) -> (r: TextMap<String>)
        ensures
            texts(r@) == self@,
    {
        self.variables
    }
}

} // verus!
