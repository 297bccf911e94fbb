//! The line, written with or without a template.

use crate::ant::cache::{ModelsCache, UsageCache};
use crate::ant::config::AntConfig;
use crate::clock::Timestamp;
use crate::config::LineConfig;
use crate::display::colors::Colors;
use crate::display::enrichment::{is_api_name, is_enrichment, Enrichment};
use crate::display::line::{
    counts_fit, format_statusline_string, line_text, LineFacts, PayloadExtras,
};
use crate::display::template::{layout_variables, lemma_same_variables, line_variables};
use crate::layout::presets::{built_in, layout_template, uses_layout};
use crate::layout::render::{agree_on, filled, mentions, only_named_variables_matter, render};
use crate::text::{opt_view, unicode_lower};
use vstd::prelude::*;

verus! {

/// The template that the line is written with.
pub open spec fn line_template(config: LineConfig, user_format: Option<Seq<char>>) -> Seq<char> {
    if config.layout.format@.len() > 0 {
        config.layout.format@
    } else {
        match user_format {
            Some(f) => f,
            None => built_in(unicode_lower(config.layout.preset@)),
        }
    }
}

/// The line, written through a template.
pub open spec fn templated_line(
    colors: Colors,
    facts: LineFacts,
    extras: PayloadExtras,
    api: Enrichment,
    config: LineConfig,
    template: Seq<char>,
) -> Seq<char> {
    filled(
        template,
        line_variables(colors, facts, extras, api, config),
        config.layout.separator@,
        config.layout.show_unknown_vars,
    )
}

/// The line, written through a template.
pub fn format_statusline_with_layout(
    colors: &Colors,
    facts: &LineFacts,
    extras: &PayloadExtras,
    api: &Enrichment,
    config: &LineConfig,
    template: &str,
) -> (r: String)
    requires
        counts_fit(*extras),
    ensures
        r@ == templated_line(*colors, *facts, *extras, *api, *config, template@),
{
    let variables = layout_variables(colors, facts, extras, api, config);
    render(
        template,
        &variables,
        config.layout.separator.as_str(),
        config.layout.show_unknown_vars,
    )
}

/// Whether the layout asks for a template.
pub open spec fn has_template(config: LineConfig) -> bool {
    config.layout.format@.len() > 0 || unicode_lower(config.layout.preset@) != "default"@
}

/// The line: through a template where the layout asks for one, else with its parts in
/// their fixed order.
pub open spec fn output_text(
    colors: Colors,
    facts: LineFacts,
    extras: PayloadExtras,
    api: Enrichment,
    config: LineConfig,
    user_format: Option<Seq<char>>,
) -> Seq<char> {
    if has_template(config) {
        templated_line(colors, facts, extras, api, config, line_template(config, user_format))
    } else {
        line_text(colors, facts, extras, config)
    }
}

/// The line: through a template where the layout asks for one, else with its parts in
/// their fixed order. `user_format` is the template that the user has for the preset.
pub fn format_output_to_string(
    colors: &Colors,
    facts: &LineFacts,
    extras: &PayloadExtras,
    api: &Enrichment,
    config: &LineConfig,
    user_format: Option<String>,
) -> (r: String)
    requires
        counts_fit(*extras),
    ensures
        r@ == output_text(*colors, *facts, *extras, *api, *config, opt_view(user_format)),
{
    if uses_layout(&config.layout) {
        let template = layout_template(&config.layout, user_format);
        format_statusline_with_layout(colors, facts, extras, api, config, template.as_str())
    } else {
        format_statusline_string(colors, facts, extras, config)
    }
}

/// With the enrichment off, or on and without caches, the line is what it is without any
/// enrichment.
pub proof fn enrichment_is_opt_in(
    ant: AntConfig,
    usage: Option<UsageCache>,
    models: Option<&ModelsCache>,
    now: Timestamp,
    api: Enrichment,
    plain: Enrichment,
    colors: Colors,
    facts: LineFacts,
    extras: PayloadExtras,
    config: LineConfig,
    user_format: Option<Seq<char>>,
)
    requires
        is_enrichment(api, ant, usage, models, now),
        !ant.enabled || (usage is None && models is None),
        plain.is_empty(),
    ensures
        output_text(colors, facts, extras, api, config, user_format) == output_text(
            colors,
            facts,
            extras,
            plain,
            config,
            user_format,
        ),
{
}

/// A line whose template names none of the enrichment's variables is the same whatever the
/// enrichment has to show; so is one without a template.
pub proof fn lines_without_its_variables_are_unchanged(
    one: Enrichment,
    other: Enrichment,
    colors: Colors,
    facts: LineFacts,
    extras: PayloadExtras,
    config: LineConfig,
    user_format: Option<Seq<char>>,
)
    requires
        has_template(config) ==> forall|name: Seq<char>| #[trigger]
            is_api_name(name) ==> !mentions(line_template(config, user_format), name),
    ensures
        output_text(colors, facts, extras, one, config, user_format) == output_text(
            colors,
            facts,
            extras,
            other,
            config,
            user_format,
        ),
{
    if has_template(config) {
        let t = line_template(config, user_format);
        let a = line_variables(colors, facts, extras, one, config);
        let b = line_variables(colors, facts, extras, other, config);
        assert forall|name: Seq<char>| mentions(t, name) implies #[trigger] agree_on(
            a,
            b,
            name,
        ) by {
            assert(!is_api_name(name));
            lemma_same_variables(one, other, colors, facts, extras, config, name);
        }
        only_named_variables_matter(
            t,
            a,
            b,
            config.layout.separator@,
            config.layout.show_unknown_vars,
        );
    }
}

} // verus!
