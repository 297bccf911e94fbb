//! The list of all variables that a template can name, grouped by where they come from.

use crate::display::colors::Colors;
use crate::display::line::ModelFacts;
use crate::double::Double;
use crate::layout::variables::{texts, VariableBuilder};
use crate::text::{
    concat2, concat3, dec, has_prefix, in_order, ordered, starts_with, u64_text,
    views,
};
use crate::text_map::TextMap;
use crate::utils::{cleaned, sanitize_for_terminal};
use vstd::prelude::*;

verus! {

/// Where a variable comes from.
#[derive(Debug, Clone, Copy, PartialEq, Eq, Structural)]
pub enum VarGroup {
    Git,
    Stats,
    Gsd,
    Other,
}

/// Where a variable comes from, by how its name begins.
pub open spec fn group(name: Seq<char>) -> VarGroup {
    if has_prefix(name, "git"@) {
        VarGroup::Git
    } else if has_prefix(name, "stats_"@) {
        VarGroup::Stats
    } else if has_prefix(name, "gsd_"@) {
        VarGroup::Gsd
    } else {
        VarGroup::Other
    }
}

/// Where a variable comes from, by how its name begins.
pub fn group_of(name: &str) -> (r: VarGroup)
    ensures
        r == group(name@),
{
    if starts_with(name, "git") {
        VarGroup::Git
    } else if starts_with(name, "stats_") {
        VarGroup::Stats
    } else if starts_with(name, "gsd_") {
        VarGroup::Gsd
    } else {
        VarGroup::Other
    }
}

/// The names of a group, or all names where no group is given.
pub open spec fn of_group(names: Seq<Seq<char>>, g: Option<VarGroup>) -> Seq<Seq<char>>
    decreases names.len(),
{
    if names.len() == 0 {
        Seq::empty()
    } else if g is None || g == Some(group(names.last())) {
        of_group(names.drop_last(), g).push(names.last())
    } else {
        of_group(names.drop_last(), g)
    }
}

fn names_of_group(vars: &TextMap<String>, g: Option<VarGroup>) -> (r: Vec<String>)
    ensures
        views(r@) == of_group(vars.names(), g),
        forall|i: int| 0 <= i < r@.len() ==> vars@.dom().contains((#[trigger] r@[i])@),
{
    let n: usize = vars.len();
    let mut out: Vec<String> = Vec::new();
    let mut i: usize = 0;
    let ghost names = vars.names();
    proof {
        assert(names.take(0) =~= Seq::<Seq<char>>::empty());
        assert(views(out@) =~= Seq::<Seq<char>>::empty());
    }
    while i < n
        invariant
            n == names.len(),
            names == vars.names(),
            i <= n,
            views(out@) == of_group(names.take(i as int), g),
            forall|j: int| 0 <= j < out@.len() ==> vars@.dom().contains((#[trigger] out@[j])@),
        decreases n - i,
    {
        let name = vars.name_at(i);
        proof {
            assert(names.take(i + 1).drop_last() =~= names.take(i as int));
        }
        let keep = match g {
            Some(x) => x == group_of(name),
            None => true,
        };
        if keep {
            let ghost before = views(out@);
            out.push(name.to_owned());
            proof {
                assert(views(out@) =~= before.push(names[i as int]));
            }
        }
        i += 1;
    }
    proof {
        assert(names.take(n as int) =~= names);
    }
    out
}

/// A text in quotes, with its special characters escaped, as Rust's debug format has it.
pub uninterp spec fn quoted(s: Seq<char>) -> Seq<char>;

/// Whether a character stands for itself between quotes.
pub open spec fn is_plain(c: char) -> bool {
    32 <= c as u32 && (c as u32) < 127 && c != '"' && c != '\\'
}

/// Formats a text with `{:?}`. Claims that the outcome depends on the text alone, and that
/// a text of printable ASCII characters without quotes and backslashes is only put in
/// quotes; how other characters are escaped is left to that format.
#[verifier::external_body]
fn debug_text(s: &str) -> (r: String)
    ensures
        r@ == quoted(s@),
        (forall|i: int| 0 <= i < s@.len() ==> is_plain(#[trigger] s@[i])) ==> r@ == seq!['"'] + s@
            + seq!['"'],
{
    format!("{:?}", s)
}

/// The line of a variable.
pub open spec fn variable_line(name: Seq<char>, value: Seq<char>, shown: Seq<char>) -> Seq<char> {
    "  "@ + name + (if value.len() == 0 {
        " = (empty)"@
    } else {
        " = "@ + shown
    })
}

/// The line of a variable, whose value is shown as given.
pub fn variable_line_text(name: &str, value: &str, shown: &str) -> (r: String)
    ensures
        r@ == variable_line(name@, value@, shown@),
{
    let tail = if value.is_empty() {
        " = (empty)".to_owned()
    } else {
        concat2(" = ", shown)
    };
    concat3("  ", name, tail.as_str())
}

/// The lines of some variables.
pub open spec fn variable_lines(names: Seq<Seq<char>>, vars: Map<Seq<char>, Seq<char>>) -> Seq<
    Seq<char>,
> {
    names.map_values(|k: Seq<char>| variable_line(k, vars[k], quoted(vars[k])))
}

/// A group of variables in the order of their names; nothing where it is empty.
pub open spec fn group_text(
    title: Seq<char>,
    names: Seq<Seq<char>>,
    vars: Map<Seq<char>, Seq<char>>,
) -> Seq<Seq<char>> {
    if names.len() == 0 {
        Seq::empty()
    } else {
        seq!["=== "@ + title + " ==="@] + variable_lines(in_order(names), vars) + seq![Seq::empty()]
    }
}

proof fn lemma_order_keeps_membership(names: Seq<Seq<char>>, vars: Set<Seq<char>>)
    requires
        forall|i: int| 0 <= i < names.len() ==> vars.contains(#[trigger] names[i]),
    ensures
        forall|i: int| 0 <= i < in_order(names).len() ==> vars.contains(#[trigger] in_order(names)[i]),
{
    broadcast use vstd::seq_lib::group_to_multiset_ensures;

    crate::text::order_keeps_all(names);
    let o = in_order(names);
    assert forall|i: int| 0 <= i < o.len() implies vars.contains(#[trigger] o[i]) by {
        assert(o.contains(o[i]));
        assert(o.to_multiset().contains(o[i]));
        assert(names.contains(o[i]));
    }
}

fn push_group(out: &mut Vec<String>, title: &str, vars: &TextMap<String>, g: Option<VarGroup>)
    ensures
        views(final(out)@) == views(old(out)@) + group_text(
            title@,
            of_group(vars.names(), g),
            texts(vars@),
        ),
{
    let ghost before = views(out@);
    let names = names_of_group(vars, g);
    let n: usize = names.len();
    if n == 0 {
        proof {
            assert(views(out@) =~= before + Seq::<Seq<char>>::empty());
        }
        return;
    }
    let sorted = ordered(&names);
    let ghost all = of_group(vars.names(), g);
    let ghost lines = variable_lines(in_order(all), texts(vars@));
    proof {
        crate::text::order_keeps_all(all);
        assert forall|i: int| 0 <= i < all.len() implies vars@.dom().contains(
            #[trigger] all[i],
        ) by {
            assert(views(names@)[i] == names@[i]@);
        }
        lemma_order_keeps_membership(all, vars@.dom());
    }
    out.push(concat3("=== ", title, " ==="));
    let ghost top = views(out@);
    let mut i: usize = 0;
    proof {
        assert(top =~= before + seq!["=== "@ + title@ + " ==="@]);
        assert(views(out@) =~= top + lines.take(0));
    }
    while i < n
        invariant
            n == sorted@.len(),
            n == lines.len(),
            views(sorted@) == in_order(all),
            lines == variable_lines(in_order(all), texts(vars@)),
            forall|j: int|
                0 <= j < in_order(all).len() ==> vars@.dom().contains(#[trigger] in_order(all)[j]),
            i <= n,
            views(out@) == top + lines.take(i as int),
        decreases n - i,
    {
        let name = sorted[i].as_str();
        proof {
            assert(views(sorted@)[i as int] == sorted@[i as int]@);
            assert(vars@.dom().contains(in_order(all)[i as int]));
        }
        let ghost so_far = views(out@);
        match vars.get(name) {
            Some(v) => {
                out.push(
                    variable_line_text(name, v.as_str(), debug_text(v.as_str()).as_str()),
                );
            },
            None => {},
        }
        proof {
            assert(views(out@) =~= so_far.push(lines[i as int]));
            assert(views(out@) =~= top + lines.take(i + 1));
        }
        i += 1;
    }
    proof {
        assert(lines.take(n as int) =~= lines);
    }
    let ghost body = views(out@);
    out.push(String::new());
    proof {
        assert(out@[body.len() as int]@ =~= Seq::<char>::empty());
        assert(views(out@) =~= body.push(Seq::empty()));
        assert(all.len() == n);
        assert(views(out@) =~= before + (seq!["=== "@ + title@ + " ==="@] + lines + seq![
            Seq::empty(),
        ]));
    }
}

/// What stands above the groups.
pub open spec fn list_head(no_color: bool) -> Seq<Seq<char>> {
    if no_color {
        seq!["Template Variables"@, "=================="@, "(Colors disabled)"@, Seq::empty()]
    } else {
        seq!["Template Variables"@, "=================="@, Seq::empty()]
    }
}

/// What is said of the templates.
pub open spec fn template_part(
    default_template: Seq<char>,
    user_path: Option<Seq<char>>,
    user_active: bool,
) -> Seq<Seq<char>> {
    let head = seq!["=== template ==="@, "  Default template: "@ + default_template];
    match user_path {
        Some(p) => head + seq![
            "  User override:    "@ + p + (if user_active {
                " (active)"@
            } else {
                " (not found, using default)"@
            }),
            Seq::empty(),
        ],
        None => head + seq![Seq::empty()],
    }
}

/// The list of all variables, line by line: those of the providers in their groups, then
/// the ones that every line has, then what is known of the templates.
pub fn list_vars_lines(
    no_color: bool,
    provider_vars: &TextMap<String>,
    core_vars: &TextMap<String>,
    default_template: &str,
    user_path: Option<&str>,
    user_active: bool,
) -> (r: Vec<String>)
    ensures
        ({
            let p = texts(provider_vars@);
            let names = provider_vars.names();
            views(r@) == list_head(no_color) + group_text(
                "git"@,
                of_group(names, Some(VarGroup::Git)),
                p,
            ) + group_text("stats"@, of_group(names, Some(VarGroup::Stats)), p) + group_text(
                "gsd"@,
                of_group(names, Some(VarGroup::Gsd)),
                p,
            ) + group_text("other"@, of_group(names, Some(VarGroup::Other)), p) + group_text(
                "core"@,
                of_group(core_vars.names(), None),
                texts(core_vars@),
            ) + template_part(
                default_template@,
                match user_path {
                    Some(u) => Some(u@),
                    None => None,
                },
                user_active,
            )
        }),
{
    let mut out: Vec<String> = Vec::new();
    out.push("Template Variables".to_owned());
    out.push("==================".to_owned());
    if no_color {
        out.push("(Colors disabled)".to_owned());
    }
    out.push(String::new());
    proof {
        assert(out@.last()@ =~= Seq::<char>::empty());
        assert(views(out@) =~= list_head(no_color));
    }
    push_group(&mut out, "git", provider_vars, Some(VarGroup::Git));
    push_group(&mut out, "stats", provider_vars, Some(VarGroup::Stats));
    push_group(&mut out, "gsd", provider_vars, Some(VarGroup::Gsd));
    push_group(&mut out, "other", provider_vars, Some(VarGroup::Other));
    push_group(&mut out, "core", core_vars, None);
    let ghost top = views(out@);
    out.push("=== template ===".to_owned());
    out.push(concat2("  Default template: ", default_template));
    match user_path {
        Some(p) => {
            let state = if user_active {
                " (active)"
            } else {
                " (not found, using default)"
            };
            out.push(concat3("  User override:    ", p, state));
        },
        None => {},
    }
    out.push(String::new());
    proof {
        assert(out@.last()@ =~= Seq::<char>::empty());
        assert(views(out@) =~= top + template_part(
            default_template@,
            match user_path {
                Some(u) => Some(u@),
                None => None,
            },
            user_active,
        ));
    }
    out
}

// ---------------------------------------------------------------------------
// The variables that every line has
// ---------------------------------------------------------------------------

/// The model's variables.
pub open spec fn with_model(m: Map<Seq<char>, Seq<char>>, model: Option<ModelFacts>) -> Map<
    Seq<char>,
    Seq<char>,
> {
    match model {
        Some(x) => m.insert("model"@, x.abbreviation@).insert(
            "model_full"@,
            cleaned(x.name@),
        ).insert(
            "model_name"@,
            x.family@,
        ),
        None => m,
    }
}

/// The variables that every line has, as far as they are known.
pub open spec fn core_values(
    colors: Colors,
    short_dir: Seq<char>,
    basename: Seq<char>,
    model: Option<ModelFacts>,
    context: Option<Double>,
    cost: Option<Double>,
    daily_total: Double,
) -> Map<Seq<char>, Seq<char>> {
    let a = Map::<Seq<char>, Seq<char>>::empty().insert(
        "directory"@,
        colors.code(colors.theme.directory@) + short_dir + colors.reset_code(),
    ).insert("dir_short"@, basename);
    let b = with_model(a, model);
    let c = match context {
        Some(p) => b.insert("context_pct"@, dec(p.rounded_count())),
        None => b,
    };
    let d = match cost {
        Some(x) => c.insert("cost"@, "$"@ + x.digits(2)),
        None => c,
    };
    if daily_total.is_positive() {
        d.insert("daily_total"@, "$"@ + daily_total.digits(2))
    } else {
        d
    }
}

/// The variables that every line has, as far as they are known.
pub fn core_variables(
    colors: &Colors,
    short_dir: &str,
    basename: &str,
    model: &Option<ModelFacts>,
    context: Option<Double>,
    cost: Option<Double>,
    daily_total: Double,
) -> (r: TextMap<String>)
    ensures
        texts(r@) == core_values(
            *colors,
            short_dir@,
            basename@,
            *model,
            context,
            cost,
            daily_total,
        ),
{
    let mut b = VariableBuilder::new();
    b.put(
        "directory",
        concat3(colors.directory().as_str(), short_dir, colors.reset().as_str()),
    );
    b.put("dir_short", basename.to_owned());
    match model {
        Some(x) => {
            b.put("model", x.abbreviation.clone());
            b.put("model_full", sanitize_for_terminal(x.name.as_str()));
            b.put("model_name", x.family.clone());
        },
        None => {},
    }
    match context {
        Some(p) => {
            b.put("context_pct", u64_text(p.round_count() as u64));
        },
        None => {},
    }
    match cost {
        Some(x) => b.put("cost", concat2("$", x.text(2).as_str())),
        None => {},
    }
    if daily_total.positive() {
        b.put("daily_total", concat2("$", daily_total.text(2).as_str()));
    }
    b.build()
}

/// Every variable of the providers is listed in exactly one group.
pub proof fn every_variable_has_one_group(names: Seq<Seq<char>>, name: Seq<char>)
    ensures
        forall|g: VarGroup| #[trigger]
            of_group(names, Some(g)).contains(name) <==> names.contains(name) && g == group(name),
    decreases names.len(),
{
    assert forall|g: VarGroup| #[trigger]
        of_group(names, Some(g)).contains(name) <==> names.contains(name) && g == group(name) by {
        if names.len() > 0 {
            every_variable_has_one_group(names.drop_last(), name);
            let rest = names.drop_last();
            let last = names.last();
            let before = of_group(rest, Some(g));
            let after = of_group(names, Some(g));
            assert(before.contains(name) <==> rest.contains(name) && g == group(name));
            assert(names.contains(name) <==> rest.contains(name) || name == last) by {
                if rest.contains(name) {
                    let j = choose|j: int| 0 <= j < rest.len() && rest[j] == name;
                    assert(names[j] == name);
                }
                if names.contains(name) && name != last {
                    let j = choose|j: int| 0 <= j < names.len() && names[j] == name;
                    assert(rest[j] == name);
                }
                assert(names[names.len() - 1] == last);
            }
            if g == group(last) {
                assert(after == before.push(last));
                assert(after.contains(name) <==> before.contains(name) || name == last) by {
                    assert(after[before.len() as int] == last);
                    if before.contains(name) {
                        let j = choose|j: int| 0 <= j < before.len() && before[j] == name;
                        assert(after[j] == name);
                    }
                    if after.contains(name) && name != last {
                        let j = choose|j: int| 0 <= j < after.len() && after[j] == name;
                        assert(before[j] == name);
                    }
                }
            }
        }
    }
}

} // verus!
