//! Templates by name: the built-in ones, and those of the user.

use crate::config::LayoutConfig;
use crate::text::{concat2, opt_view, same, to_lowercase, unicode_lower, views};
use vstd::prelude::*;

verus! {

/// The built-in templates. A separator in front of a variable that is empty is left out,
/// so `{agents}` takes no room until there are agents.
pub const PRESET_DEFAULT: &'static str = "{directory}{sep}{git}{sep}{context}{sep}{model}{sep}{cost}{sep}{agents}";

pub const PRESET_COMPACT: &'static str = "{dir_short} {git_branch} {model} {cost_short}";

pub const PRESET_DETAILED: &'static str = "{directory}{sep}{git}\n{context}{sep}{model}{sep}{duration}{sep}{cost}{sep}{agents}";

pub const PRESET_MINIMAL: &'static str = "{directory} {model}";

pub const PRESET_POWER: &'static str = "{directory}{sep}{git}{sep}{context}\n{model}{sep}{duration}{sep}{lines}{sep}{cost} ({burn_rate}){sep}{agents}";

/// The built-in template of a name in lower case; the default one where it names none.
pub open spec fn built_in(name: Seq<char>) -> Seq<char> {
    if name == "compact"@ {
        PRESET_COMPACT@
    } else if name == "detailed"@ {
        PRESET_DETAILED@
    } else if name == "minimal"@ {
        PRESET_MINIMAL@
    } else if name == "power"@ {
        PRESET_POWER@
    } else {
        PRESET_DEFAULT@
    }
}

/// The built-in template of a name in lower case; the default one where it names none.
pub fn built_in_preset(name: &str) -> (r: String)
    ensures
        r@ == built_in(name@),
{
    if same(name, "compact") {
        PRESET_COMPACT.to_owned()
    } else if same(name, "detailed") {
        PRESET_DETAILED.to_owned()
    } else if same(name, "minimal") {
        PRESET_MINIMAL.to_owned()
    } else if same(name, "power") {
        PRESET_POWER.to_owned()
    } else {
        PRESET_DEFAULT.to_owned()
    }
}

/// The template of a preset: the user's own, if there is one, else the built-in one.
pub fn get_preset_format(preset: &str, user_format: Option<String>) -> (r: String)
    ensures
        r@ == match user_format {
            Some(f) => f@,
            None => built_in(unicode_lower(preset@)),
        },
{
    match user_format {
        Some(f) => f,
        None => built_in_preset(to_lowercase(preset).as_str()),
    }
}

/// The file, in the user's directory of presets, that holds a preset.
pub fn preset_file_name(name: &str) -> (r: String)
    ensures
        r@ == unicode_lower(name@) + ".toml"@,
{
    concat2(to_lowercase(name).as_str(), ".toml")
}

/// What a TOML table holds under a key, as `toml` reads it: absent where the text is no
/// table; absent again where the key is; and again where the value is no text.
pub uninterp spec fn toml_text(content: Seq<char>, key: Seq<char>) -> Option<
    Option<Option<Seq<char>>>,
>;

/// What a table holds under a key.
pub enum TomlField {
    Missing,
    Text(String),
    /// A value that is no text.
    Other,
}

pub open spec fn field_view(f: Option<TomlField>) -> Option<Option<Option<Seq<char>>>> {
    match f {
        None => None,
        Some(TomlField::Missing) => Some(None),
        Some(TomlField::Other) => Some(Some(None)),
        Some(TomlField::Text(t)) => Some(Some(Some(t@))),
    }
}

/// Reads `content` with `toml::from_str` as a `toml::Table` and looks `key` up with
/// `Table::get`. Claims that the outcome depends on the two texts alone; what TOML is, is
/// left to that crate.
#[verifier::external_body]
fn toml_field(content: &str, key: &str) -> (r: Option<TomlField>)
    ensures
        field_view(r) == toml_text(content@, key@),
{
    match toml::from_str::<toml::Table>(content) {
        Ok(table) => match table.get(key) {
            Some(toml::Value::String(text)) => Some(TomlField::Text(text.clone())),
            Some(_) => Some(TomlField::Other),
            None => Some(TomlField::Missing),
        },
        Err(_) => None,
    }
}

/// The template that a preset's fields give. A preset with a separator that is no text is
/// not read at all.
pub open spec fn format_given(
    format: Option<Option<Option<Seq<char>>>>,
    separator: Option<Option<Option<Seq<char>>>>,
) -> Option<Seq<char>> {
    match (format, separator) {
        (Some(Some(f)), Some(s)) => if s == Some(None::<Seq<char>>) {
            None
        } else {
            f
        },
        _ => None,
    }
}

/// The template that a preset's fields give.
pub fn format_of_fields(format: Option<TomlField>, separator: Option<TomlField>) -> (r: Option<
    String,
>)
    ensures
        opt_view(r) == format_given(field_view(format), field_view(separator)),
{
    match separator {
        None => None,
        Some(TomlField::Other) => None,
        Some(_) => match format {
            Some(TomlField::Text(t)) => Some(t),
            _ => None,
        },
    }
}

/// The template of a preset that the user has written in TOML, if it gives one.
pub fn load_user_preset(content: &str) -> (r: Option<String>)
    ensures
        opt_view(r) == format_given(
            toml_text(content@, "format"@),
            toml_text(content@, "separator"@),
        ),
{
    format_of_fields(toml_field(content, "format"), toml_field(content, "separator"))
}

/// The template of a layout: its own, or else that of its preset.
pub fn layout_template(layout: &LayoutConfig, user_format: Option<String>) -> (r: String)
    ensures
        r@ == if layout.format@.len() > 0 {
            layout.format@
        } else {
            match user_format {
                Some(f) => f@,
                None => built_in(unicode_lower(layout.preset@)),
            }
        },
{
    if !layout.format.as_str().is_empty() {
        layout.format.clone()
    } else {
        get_preset_format(layout.preset.as_str(), user_format)
    }
}

/// Whether the line is written through a template: a template of the user's own, or a
/// preset other than the default one.
pub fn uses_layout(layout: &LayoutConfig) -> (r: bool)
    ensures
        r == (layout.format@.len() > 0 || unicode_lower(layout.preset@) != "default"@),
{
    if !layout.format.as_str().is_empty() {
        return true;
    }
    let preset = to_lowercase(layout.preset.as_str());
    !same(preset.as_str(), "default")
}

// ---------------------------------------------------------------------------
// Which presets there are
// ---------------------------------------------------------------------------

/// The names of the built-in templates.
pub open spec fn built_in_names() -> Seq<Seq<char>> {
    seq!["default"@, "compact"@, "detailed"@, "minimal"@, "power"@]
}

/// Names with those added, in order, that are not among them.
pub open spec fn with_names(names: Seq<Seq<char>>, more: Seq<Seq<char>>) -> Seq<Seq<char>>
    decreases more.len(),
{
    if more.len() == 0 {
        names
    } else {
        let before = with_names(names, more.drop_last());
        if before.contains(more.last()) {
            before
        } else {
            before.push(more.last())
        }
    }
}

fn lists(names: &Vec<String>, name: &str) -> (r: bool)
    ensures
        r == views(names@).contains(name@),
{
    let n: usize = names.len();
    let mut i: usize = 0;
    while i < n
        invariant
            n == names@.len(),
            i <= n,
            forall|j: int| 0 <= j < i ==> (#[trigger] views(names@)[j]) != name@,
        decreases n - i,
    {
        if same(names[i].as_str(), name) {
            proof {
                assert(views(names@)[i as int] == name@);
            }
            return true;
        }
        i += 1;
    }
    false
}

/// The names of all presets, the built-in ones first. `stems` are the names, without their
/// endings, of the files in the user's directory of presets.
pub fn list_available_presets(stems: &Vec<String>) -> (r: Vec<String>)
    ensures
        views(r@) == with_names(
            built_in_names(),
            views(stems@).map_values(|s: Seq<char>| unicode_lower(s)),
        ),
{
    let mut out: Vec<String> = vec![
        "default".to_owned(),
        "compact".to_owned(),
        "detailed".to_owned(),
        "minimal".to_owned(),
        "power".to_owned(),
    ];
    let n: usize = stems.len();
    let ghost more = views(stems@).map_values(|s: Seq<char>| unicode_lower(s));
    let mut i: usize = 0;
    proof {
        assert(views(out@) =~= built_in_names());
        assert(more.take(0) =~= Seq::<Seq<char>>::empty());
    }
    while i < n
        invariant
            n == stems@.len(),
            i <= n,
            more == views(stems@).map_values(|s: Seq<char>| unicode_lower(s)),
            views(out@) == with_names(built_in_names(), more.take(i as int)),
        decreases n - i,
    {
        let name = to_lowercase(stems[i].as_str());
        let ghost before = views(out@);
        proof {
            assert(more.take(i + 1).drop_last() =~= more.take(i as int));
            assert(more.take(i + 1).last() == name@);
        }
        if !lists(&out, name.as_str()) {
            out.push(name);
            proof {
                assert(views(out@) =~= before.push(more[i as int]));
            }
        }
        i += 1;
    }
    proof {
        assert(more.take(n as int) =~= more);
    }
    out
}

/// No preset is listed twice, and none is left out.
pub proof fn presets_are_listed_once(more: Seq<Seq<char>>)
    ensures
        with_names(built_in_names(), more).no_duplicates(),
        forall|i: int|
            0 <= i < more.len() ==> with_names(built_in_names(), more).contains(#[trigger] more[i]),
        forall|i: int|
            0 <= i < built_in_names().len() ==> with_names(built_in_names(), more).contains(
                #[trigger] built_in_names()[i],
            ),
    decreases more.len(),
{
    let names = built_in_names();
    let all = with_names(names, more);
    if more.len() == 0 {
        reveal_strlit("default");
        reveal_strlit("compact");
        reveal_strlit("detailed");
        reveal_strlit("minimal");
        reveal_strlit("power");
        assert(names[0][0] == 'd' && names[0][2] == 'f');
        assert(names[1][0] == 'c');
        assert(names[2][0] == 'd' && names[2][2] == 't');
        assert(names[3][0] == 'm');
        assert(names[4][0] == 'p');
        assert forall|i: int| 0 <= i < names.len() implies all.contains(#[trigger] names[i]) by {
            assert(all[i] == names[i]);
        }
    } else {
        presets_are_listed_once(more.drop_last());
        let before = with_names(names, more.drop_last());
        let last = more.last();
        assert forall|s: Seq<char>| before.contains(s) implies #[trigger] all.contains(s) by {
            if !before.contains(last) {
                let j = choose|j: int| 0 <= j < before.len() && before[j] == s;
                assert(all[j] == s);
            }
        }
        assert(all.contains(last)) by {
            if !before.contains(last) {
                assert(all[before.len() as int] == last);
            }
        }
        assert forall|i: int| 0 <= i < more.len() implies all.contains(#[trigger] more[i]) by {
            if i < more.len() - 1 {
                assert(more.drop_last()[i] == more[i]);
            }
        }
        assert(all.no_duplicates()) by {
            if !before.contains(last) {
                assert forall|i: int, j: int|
                    0 <= i < all.len() && 0 <= j < all.len() && i != j implies all[i] != all[j] by {
                    if i < before.len() && j < before.len() {
                        assert(before[i] != before[j]);
                    } else if i < before.len() {
                        assert(before.contains(before[i]));
                    } else {
                        assert(before.contains(before[j]));
                    }
                }
            }
        }
    }
}

} // verus!
