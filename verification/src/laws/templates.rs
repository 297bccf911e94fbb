//! How a template becomes a line.

use crate::config::{LayoutConfig, LineConfig};
use crate::display::colors::Colors;
use crate::display::enrichment::Enrichment;
use crate::display::line::{line_text, LineFacts, PayloadExtras};
use crate::display::output::{output_text, templated_line};
use crate::laws::words::is_free_of;
use crate::layout::presets::{
    built_in, built_in_names, format_given, layout_template, uses_layout, with_names,
};
use crate::layout::render::{blank, closing, filled, piece_of, pieces_from, written, Piece, Written};
use crate::text::unicode_lower;
use vstd::prelude::*;

verus! {

/// The line is written through the template that is configured, or else through the user's
/// for the preset, or else through the built-in one; and without a template where none is
/// configured and the preset is the default one.
pub proof fn templates_in_their_order(
    colors: Colors,
    facts: LineFacts,
    extras: PayloadExtras,
    api: Enrichment,
    config: LineConfig,
    user: Option<Seq<char>>,
)
    ensures
        ({
            let out = output_text(colors, facts, extras, api, config, user);
            let own = config.layout.format@;
            let preset = unicode_lower(config.layout.preset@);
            &&& own.len() > 0 ==> out == templated_line(colors, facts, extras, api, config, own)
            &&& own.len() == 0 && preset == "default"@ ==> out == line_text(
                colors,
                facts,
                extras,
                config,
            )
            &&& own.len() == 0 && preset != "default"@ ==> (user matches Some(t) ==> out
                == templated_line(colors, facts, extras, api, config, t))
            &&& own.len() == 0 && preset != "default"@ && user is None ==> out == templated_line(
                colors,
                facts,
                extras,
                api,
                config,
                built_in(preset),
            )
        }),
{
}

/// The template of a layout is chosen in the same order, and a layout is used where there
/// is a template of its own or another preset than the default one.
pub proof fn layouts_in_their_order(
    layout: &LayoutConfig,
    user: Option<String>,
    r: String,
    used: bool,
)
    requires
        call_ensures(layout_template, (layout, user), r),
        call_ensures(uses_layout, (layout,), used),
    ensures
        layout.format@.len() > 0 ==> r@ == layout.format@,
        layout.format@.len() == 0 ==> (user matches Some(t) ==> r@ == t@),
        layout.format@.len() == 0 && user is None ==> r@ == built_in(unicode_lower(layout.preset@)),
        !used <==> layout.format@.len() == 0 && unicode_lower(layout.preset@) == "default"@,
{
}

/// The built-in templates by their names; a name that is none of them is the default one.
pub proof fn built_in_templates(other: Seq<char>)
    requires
        other != "compact"@ && other != "detailed"@ && other != "minimal"@ && other != "power"@,
    ensures
        built_in("minimal"@) == "{directory} {model}"@,
        built_in("compact"@) == "{dir_short} {git_branch} {model} {cost_short}"@,
        built_in("detailed"@)
            == "{directory}{sep}{git}\n{context}{sep}{model}{sep}{duration}{sep}{cost}{sep}{agents}"@,
        built_in("power"@)
            == "{directory}{sep}{git}{sep}{context}\n{model}{sep}{duration}{sep}{lines}{sep}{cost} ({burn_rate}){sep}{agents}"@,
        built_in(other)
            == "{directory}{sep}{git}{sep}{context}{sep}{model}{sep}{cost}{sep}{agents}"@,
{
    reveal_strlit("compact");
    reveal_strlit("detailed");
    reveal_strlit("minimal");
    reveal_strlit("power");
    assert("compact"@.len() == 7 && "minimal"@.len() == 7 && "detailed"@.len() == 8
        && "power"@.len() == 5);
    assert("compact"@[0] == 'c' && "minimal"@[0] == 'm');
}

/// A preset of the user's gives its template where that is a text and its separator, if it
/// has one, is a text too; a file that cannot be read gives none.
pub proof fn presets_of_the_user(
    t: Seq<char>,
    sep: Seq<char>,
    any: Option<Option<Option<Seq<char>>>>,
)
    ensures
        format_given(Some(Some(Some(t))), Some(None)) == Some(t),
        format_given(Some(Some(Some(t))), Some(Some(Some(sep)))) == Some(t),
        format_given(Some(Some(Some(t))), Some(Some(None))) is None,
        format_given(Some(Some(Some(t))), None) is None,
        format_given(Some(Some(None)), any) is None,
        format_given(Some(None), any) is None,
        format_given(None, any) is None,
{
}

/// A text without braces is written as it stands.
pub proof fn plain_text_stays(
    t: Seq<char>,
    vars: Map<Seq<char>, Seq<char>>,
    sep: Seq<char>,
    show: bool,
)
    requires
        is_free_of(t, '{'),
    ensures
        filled(t, vars, sep, show) == t,
{
    lemma_plain(t, 0, blank(), vars, sep, show);
    assert(blank().text + t.skip(0) =~= t);
}

proof fn lemma_plain(
    t: Seq<char>,
    i: int,
    w: Written,
    vars: Map<Seq<char>, Seq<char>>,
    sep: Seq<char>,
    show: bool,
)
    requires
        is_free_of(t, '{'),
        0 <= i <= t.len(),
        !w.pending,
    ensures
        written(w, pieces_from(t, i, vars, show), sep).text == w.text + t.skip(i),
    decreases t.len() - i,
{
    if i < t.len() {
        let rest = pieces_from(t, i + 1, vars, show);
        let one = Piece::Text(seq![t[i]]);
        assert(t[i] != '{');
        assert(pieces_from(t, i, vars, show) == seq![one] + rest);
        assert((seq![one] + rest).skip(1) =~= rest);
        let next = crate::layout::render::write(w, one, sep);
        lemma_plain(t, i + 1, next, vars, sep, show);
        assert(next.text =~= w.text + seq![t[i]]);
        assert(w.text + seq![t[i]] + t.skip(i + 1) =~= w.text + t.skip(i));
    } else {
        assert(w.text + t.skip(i) =~= w.text);
    }
}

proof fn lemma_closing(t: Seq<char>, i: int, j: int)
    requires
        0 <= i <= j < t.len(),
        t[j] == '}',
        forall|k: int| i <= k < j ==> t[k] != '{' && t[k] != '}',
    ensures
        closing(t, i) == Some(j),
    decreases j - i,
{
    if i < j {
        lemma_closing(t, i + 1, j);
    }
}

/// A name in braces stands for its value; where it has none, it is left out, or left as it
/// is where that is asked for.
pub proof fn names_stand_for_their_values(
    name: Seq<char>,
    vars: Map<Seq<char>, Seq<char>>,
    sep: Seq<char>,
)
    requires
        is_free_of(name, '{'),
        is_free_of(name, '}'),
        name != "sep"@,
    ensures
        vars.dom().contains(name) ==> filled(seq!['{'] + name + seq!['}'], vars, sep, false)
            == vars[name],
        vars.dom().contains(name) ==> filled(seq!['{'] + name + seq!['}'], vars, sep, true)
            == vars[name],
        !vars.dom().contains(name) ==> filled(seq!['{'] + name + seq!['}'], vars, sep, false).len()
            == 0,
        !vars.dom().contains(name) ==> filled(seq!['{'] + name + seq!['}'], vars, sep, true)
            == seq!['{'] + name + seq!['}'],
{
    let t = seq!['{'] + name + seq!['}'];
    let n = t.len() as int;
    assert forall|k: int| 1 <= k < n - 1 implies t[k] != '{' && t[k] != '}' by {
        assert(t[k] == name[k - 1]);
    }
    lemma_closing(t, 1, n - 1);
    assert(t.subrange(1, n - 1) =~= name);
    lemma_one_name(t, name, vars, sep, false);
    lemma_one_name(t, name, vars, sep, true);
    reveal_strlit("{");
    reveal_strlit("}");
    assert("{"@ =~= seq!['{']);
    assert("}"@ =~= seq!['}']);
}

proof fn lemma_one_name(
    t: Seq<char>,
    name: Seq<char>,
    vars: Map<Seq<char>, Seq<char>>,
    sep: Seq<char>,
    show: bool,
)
    requires
        t.len() >= 2,
        t[0] == '{',
        closing(t, 1) == Some(t.len() - 1),
        t.subrange(1, t.len() - 1) == name,
        name != "sep"@,
    ensures
        piece_of(name, vars, show) matches Piece::Text(s) && filled(t, vars, sep, show) == s,
{
    let p = piece_of(name, vars, show);
    reveal_with_fuel(pieces_from, 2);
    reveal_with_fuel(written, 2);
    let rest = pieces_from(t, t.len() as int, vars, show);
    assert(rest =~= Seq::empty());
    assert(pieces_from(t, 0, vars, show) == seq![p] + rest);
    assert((seq![p] + rest).skip(1) =~= Seq::empty());
    match p {
        Piece::Text(s) => {
            assert(blank().text + s =~= s);
            if s.len() == 0 {
                assert(s =~= Seq::empty());
            }
        },
        Piece::Separator => {},
    }
}

/// The built-in presets are listed first, in their order, and the user's behind them, each
/// once.
pub proof fn presets_are_listed(more: Seq<Seq<char>>, name: Seq<char>, names: Seq<Seq<char>>)
    ensures
        with_names(built_in_names(), Seq::empty()) == seq![
            "default"@,
            "compact"@,
            "detailed"@,
            "minimal"@,
            "power"@,
        ],
        with_names(names, more).contains(name) ==> with_names(names, more.push(name)) == with_names(
            names,
            more,
        ),
        !with_names(names, more).contains(name) ==> with_names(names, more.push(name))
            == with_names(names, more).push(name),
{
    assert(more.push(name).drop_last() =~= more);
}

} // verus!
