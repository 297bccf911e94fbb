//! What the other commands tell.

use crate::ant::cache::{ModelEntry, ModelsCache};
use crate::ant::config::{AntAccount, AntConfig};
use crate::ant::duration::{age_text, past_threshold};
use crate::commands::ant::{
    account_command, account_meant, audit_part, cache_line, configuration_part, divergence_note,
    divergences, diverges, diverging, doctor, is_divergence, models_summary_text, probe_label,
    setup_of, start_models_sync, start_usage_sync, starts_as, state_part, usage_label, usage_probe,
    usage_summary_text, AccountSetup, CacheReport, DoctorFacts, DoctorReport, SyncStart, UsageProbe,
};
use crate::commands::list_vars::{
    core_values, group, group_text, list_head, list_vars_lines, of_group, quoted, template_part,
    variable_line, VarGroup,
};
use crate::display::colors::Colors;
use crate::display::line::ModelFacts;
use crate::double::Double;
use crate::error::{Result, StatuslineError};
use crate::laws::words::{begins_with, ends_in, is_found, is_found_at};
use crate::layout::variables::texts;
use crate::text::{dec, in_order, joined, opt_str, opt_view, views};
use crate::text_map::TextMap;
use crate::utils::cleaned;
use vstd::prelude::*;

verus! {

// ---------------------------------------------------------------------------
// Syncing
// ---------------------------------------------------------------------------

/// The account that is named goes before the one in the environment, even where the name
/// is empty; an empty one is none.
pub proof fn the_named_account_goes_first(named: Seq<char>, in_env: Seq<char>, any: Option<Seq<char>>)
    ensures
        named.len() > 0 ==> account_meant(Some(named), any) == Some(named),
        named.len() == 0 ==> account_meant(Some(named), any) is None,
        in_env.len() > 0 ==> account_meant(None, Some(in_env)) == Some(in_env),
        account_meant(None, None) is None,
{
}

/// After a sync of usage the user is told the account, where the cache lies, and today's
/// cost before the month's, each its own, with the time zone.
pub proof fn usage_is_summed_up(
    account: Seq<char>,
    path: Seq<char>,
    today: Double,
    month: Double,
    tz: Seq<char>,
)
    ensures
        ({
            let lines = usage_summary_text(account, path, today, month, tz);
            &&& lines.len() == 4
            &&& is_found(lines[0], "'"@ + account + "'"@)
            &&& lines[1] == "Cache: "@ + path
            &&& lines[2] == "Credential source: admin_key_command (credential command)"@
            &&& begins_with(lines[3], "Today: $"@ + today.digits(2) + " "@ + tz)
            &&& ends_in(lines[3], "MTD: $"@ + month.digits(2) + " "@ + tz)
        }),
{
    let lines = usage_summary_text(account, path, today, month, tz);
    reveal_strlit("Synced usage & cost for ant account '");
    reveal_strlit("Credential source: ");
    reveal_strlit("admin_key_command (credential command)");
    reveal_strlit("Credential source: admin_key_command (credential command)");
    reveal_strlit("'.");
    reveal_strlit("'");
    reveal_strlit("Today: $");
    reveal_strlit("   MTD: $");
    reveal_strlit("MTD: $");
    reveal_strlit(" ");
    assert(is_found_at(lines[0], "'"@ + account + "'"@, 36));
}

/// After a sync of models the user is told their number, where the cache lies, and where
/// the credential came from; of one model in the singular.
pub proof fn models_are_summed_up(count: nat, path: Seq<char>, source: Seq<char>)
    ensures
        ({
            let lines = models_summary_text(count, path, source);
            &&& lines.len() == 3
            &&& count == 1 ==> begins_with(lines[0], "Synced "@ + dec(count) + " model from"@)
            &&& count != 1 ==> begins_with(lines[0], "Synced "@ + dec(count) + " models from"@)
            &&& lines[1] == "Cache: "@ + path
            &&& lines[2] == "Credential source: "@ + source
        }),
{
    reveal_strlit("Synced ");
    reveal_strlit(" model");
    reveal_strlit("");
    reveal_strlit("s");
    reveal_strlit(" from the Models API.");
    reveal_strlit(" model from");
    reveal_strlit(" models from");
}

/// A model diverges where its window is known, the user has set one, and the two differ;
/// what is reported is the cached window and then the user's.
pub proof fn windows_that_differ(
    models: Map<Seq<char>, ModelEntry>,
    chosen: Map<Seq<char>, usize>,
    id: Seq<char>,
    d: (String, u64, usize),
)
    ensures
        diverges(models, chosen, id) <==> models.dom().contains(id) && chosen.dom().contains(id)
            && models[id].max_input_tokens != 0 && models[id].max_input_tokens != chosen[id],
        is_divergence(d, models, chosen, id) <==> d.0@ == id && d.1 == models[id].max_input_tokens
            && d.2 == chosen[id],
{
}

/// The note of a divergence names the model, its cached window and then the user's.
pub proof fn divergences_are_told(model: &str, cached: u64, chosen: usize, r: String)
    requires
        call_ensures(divergence_note, (model, cached, chosen), r),
    ensures
        begins_with(
            r@,
            "note: cached context window for "@ + model@ + " ("@ + dec(cached as nat) + ")"@,
        ),
        is_found(r@, "override ("@ + dec(chosen as nat) + ")"@),
{
    reveal_strlit("note: cached context window for ");
    reveal_strlit(" (");
    reveal_strlit(") differs from your [context.model_windows] override (");
    reveal_strlit("); the override wins at render time");
    reveal_strlit(")");
    reveal_strlit("override (");
    assert(is_found_at(
        r@,
        "override ("@ + dec(chosen as nat) + ")"@,
        32int + model@.len() + 2 + dec(cached as nat).len() + 44,
    ));
}

// ---------------------------------------------------------------------------
// The doctor
// ---------------------------------------------------------------------------

/// What is set up for an account is the command that prints its key, if it has one, and the
/// user is told which of the cases it is.
pub proof fn accounts_as_they_are_set_up(accounts: Map<Seq<char>, AntAccount>, name: Seq<char>)
    ensures
        setup_of(accounts, name) is Absent <==> !accounts.dom().contains(name),
        accounts.dom().contains(name) ==> (setup_of(accounts, name) is NoCommand
            <==> accounts[name].admin_key_command@.len() == 0),
        setup_of(accounts, name) matches AccountSetup::Command(c) ==> c == views(
            accounts[name].admin_key_command@,
        ),
        setup_of(accounts, name) is Absent ==> is_found(usage_label(accounts, name), name),
        setup_of(accounts, name) is Absent ==> begins_with(
            usage_label(accounts, name),
            "not configured (no [ant.accounts."@,
        ),
        setup_of(accounts, name) is NoCommand ==> usage_label(accounts, name)
            == "not configured (account has no admin_key_command)"@,
        setup_of(accounts, name) is Command ==> usage_label(accounts, name)
            == "admin_key_command (credential command)"@,
{
    if setup_of(accounts, name) is Absent {
        let label = usage_label(accounts, name);
        reveal_strlit("not configured (no [ant.accounts.");
        assert(is_found_at(label, name, 33));
    }
}

/// A probe runs a command only where the active account has one.
pub proof fn probes_run_what_is_set_up(config: &AntConfig, account: &str, r: UsageProbe, none: UsageProbe)
    requires
        call_ensures(usage_probe, (config, Some(account)), r),
        call_ensures(usage_probe, (config, None::<&str>), none),
    ensures
        r is Run <==> config.accounts@.dom().contains(account@)
            && config.accounts@[account@].admin_key_command@.len() > 0,
        r matches UsageProbe::Run(words) ==> views(words@) == views(
            config.accounts@[account@].admin_key_command@,
        ),
        none is Skip,
{
}

/// The doctor reports each cache by its own age, its own threshold and its own path, and an
/// enrichment as active where it is turned on and its own cache is there.
pub proof fn the_doctor_reports_each_by_its_own(config: &AntConfig, facts: DoctorFacts, r: DoctorReport)
    requires
        call_ensures(doctor, (config, facts), r),
    ensures
        r.ant_on_path == facts.ant_on_path,
        r.enabled == config.enabled,
        r.profile@ == config.profile@,
        opt_view(r.active_account) == opt_view(facts.active_account),
        r.clean == facts.clean,
        r.scanned == facts.scanned,
        r.models.present <==> facts.models_age is Some,
        r.usage.present <==> facts.usage_age is Some,
        opt_view(r.models.path) == opt_view(facts.models_path),
        opt_view(r.usage.path) == opt_view(facts.usage_path),
        facts.models_age matches Some(a) ==> opt_view(r.models.age) == Some(age_text(a as int))
            && r.models.stale == past_threshold(a as int, config.models_stale_after@),
        facts.usage_age matches Some(a) ==> opt_view(r.usage.age) == Some(age_text(a as int))
            && r.usage.stale == past_threshold(a as int, config.usage_stale_after@),
        facts.models_age is None ==> r.models.age is None && !r.models.stale,
        facts.usage_age is None ==> r.usage.age is None && !r.usage.stale,
        r.models_active <==> config.enabled && facts.models_age is Some,
        r.usage_active <==> config.enabled && facts.usage_age is Some,
        facts.probes matches Some(p) ==> (r.probes matches Some(q) && q.0@ == p.0@ && q.1@ == p.1@),
        r.probes is Some <==> facts.probes is Some,
        config.profile@.len() > 0 ==> r.models_credential@ == "ant profile '"@ + config.profile@
            + "'"@,
        config.profile@.len() == 0 && facts.key_in_env ==> r.models_credential@
            == "ANTHROPIC_API_KEY (env)"@,
        config.profile@.len() == 0 && !facts.key_in_env ==> r.models_credential@
            == "ant default auth"@,
        r.usage_credential is Some <==> facts.active_account is Some,
        views(r.accounts@) == in_order(config.accounts.names()),
{
}

/// A word for each answer.
pub open spec fn answer(b: bool) -> Seq<char> {
    if b {
        "yes"@
    } else {
        "no"@
    }
}

/// The lines of the configuration tell each setting under its own name.
pub proof fn settings_are_told_by_name(r: DoctorReport)
    ensures
        ({
            let lines = configuration_part(r);
            &&& lines[0] == "ant Enrichment Doctor"@
            &&& lines[3] == "Configuration:"@
            &&& lines[4] == "  ant on PATH: "@ + answer(r.ant_on_path)
            &&& lines[5] == "  Enabled: "@ + answer(r.enabled)
            &&& r.profile@.len() > 0 ==> lines[6] == "  Profile: "@ + r.profile@
            &&& r.profile@.len() == 0 ==> lines[6] == "  Profile: "@ + "(default)"@
            &&& r.accounts@.len() > 0 ==> lines[7] == "  Accounts: "@ + joined(
                views(r.accounts@),
                ", "@,
            )
            &&& r.accounts@.len() == 0 ==> lines[7] == "  Accounts: "@ + "(none)"@
            &&& r.active_account matches Some(a) ==> lines[8] == "  Active account: "@ + a@
            &&& r.active_account is None ==> lines[8] == "  Active account: "@ + "(none)"@
        }),
{
}

/// The lines of the state tell the models' cache, credential and enrichment under models,
/// and the usage's under usage.
pub proof fn states_are_told_by_name(r: DoctorReport)
    ensures
        ({
            let lines = state_part(r);
            &&& begins_with(lines[1], "  Models: "@) && begins_with(lines[2], "  Usage:  "@)
            &&& r.models.age is None ==> lines[1] == "  Models: "@ + "absent"@
            &&& r.usage.age is None ==> lines[2] == "  Usage:  "@ + "absent"@
            &&& (r.models.age is Some && r.models.path is Some) ==> ends_in(
                lines[1],
                "\n    "@ + r.models.path->Some_0@,
            ) && begins_with(lines[1], "  Models: "@ + "present, age "@ + r.models.age->Some_0@)
            &&& (r.usage.age is Some && r.usage.path is Some) ==> ends_in(
                lines[2],
                "\n    "@ + r.usage.path->Some_0@,
            ) && begins_with(lines[2], "  Usage:  "@ + "present, age "@ + r.usage.age->Some_0@)
            &&& lines[5] == "  Models: "@ + r.models_credential@
            &&& r.usage_credential matches Some(c) ==> lines[6] == "  Usage:  "@ + c@
            &&& r.usage_credential is None ==> lines[6] == "  Usage:  "@ + "(no active account)"@
            &&& lines[9] == "  {api_*} models vars: "@ + answer(r.models_active)
            &&& lines[10] == "  {api_*} usage vars:  "@ + answer(r.usage_active)
        }),
{
    reveal_strlit("");
    lemma_cache_line("  Models: "@, r.models);
    lemma_cache_line("  Usage:  "@, r.usage);
}

proof fn lemma_cache_line(label: Seq<char>, c: CacheReport)
    ensures
        begins_with(cache_line(label, c), label),
        (c.age is Some && c.path is Some) ==> ends_in(
            cache_line(label, c),
            "\n    "@ + c.path->Some_0@,
        ) && begins_with(cache_line(label, c), label + "present, age "@ + c.age->Some_0@),
{
}

/// A cache that is stale is said to be so, and no other is.
pub proof fn stale_caches_are_told(label: Seq<char>, c: CacheReport, age: String, path: String)
    requires
        c.age == Some(age),
        c.path == Some(path),
    ensures
        c.stale ==> cache_line(label, c) == label + "present, age "@ + age@ + " (stale)"@ + (
        "\n    "@ + path@),
        !c.stale ==> cache_line(label, c) == label + "present, age "@ + age@ + ("\n    "@ + path@),
{
    reveal_strlit("");
    assert(label + "present, age "@ + age@ + ""@ =~= label + "present, age "@ + age@);
}

/// The lines of the audit tell whether a key was found, in how many files it was looked for,
/// and what the probes of models and of usage came to.
pub proof fn audits_are_told(r: DoctorReport)
    ensures
        ({
            let lines = audit_part(r);
            &&& lines[0] == "Security self-audit (on-disk artifacts):"@
            &&& lines[3] == "Probe (--probe to run; opt-in credential/network):"@
            &&& r.scanned == 1 ==> ends_in(lines[1], " artifact scanned)"@)
            &&& r.scanned != 1 ==> ends_in(lines[1], " artifacts scanned)"@)
            &&& r.clean ==> begins_with(lines[1], "  "@ + "✅ no key-shaped strings found"@)
            &&& !r.clean ==> begins_with(
                lines[1],
                "  "@ + "❌ key-shaped string found in an on-disk artifact"@,
            )
            &&& is_found(lines[1], " ("@ + dec(r.scanned as nat) + " artifact"@)
            &&& r.probes is None ==> lines.len() == 5 && lines[4] == "  not run (passive)"@
            &&& r.probes matches Some(p) ==> lines.len() == 6 && lines[4]
                == "  Models reachability: "@ + p.0@ && lines[5] == "  Usage reachability:  "@
                + p.1@
        }),
{
    let lines = audit_part(r);
    reveal_strlit("  ");
    reveal_strlit(" (");
    reveal_strlit(" artifact");
    reveal_strlit("");
    reveal_strlit("s");
    reveal_strlit(" scanned)");
    reveal_strlit(" artifact scanned)");
    reveal_strlit(" artifacts scanned)");
    reveal_strlit("✅ no key-shaped strings found");
    reveal_strlit("❌ key-shaped string found in an on-disk artifact");
    let verdict = if r.clean {
        "✅ no key-shaped strings found"@
    } else {
        "❌ key-shaped string found in an on-disk artifact"@
    };
    assert(is_found_at(lines[1], " ("@ + dec(r.scanned as nat) + " artifact"@, 2int + verdict.len()));
}

/// What a probe came to is its label, or the failure as an error.
pub proof fn probes_tell_what_they_came_to(label: String, e: StatuslineError, good: String, bad: String)
    requires
        call_ensures(probe_label, (Ok::<String, StatuslineError>(label),), good),
        call_ensures(probe_label, (Err::<String, StatuslineError>(e),), bad),
    ensures
        good@ == label@,
        bad@ == "error: "@ + e.text(),
{
}

// ---------------------------------------------------------------------------
// Variables
// ---------------------------------------------------------------------------

/// A variable belongs to the group that its name begins with, and to the others where it
/// begins with none.
pub proof fn groups_by_their_beginnings(rest: Seq<char>, name: Seq<char>)
    ensures
        group("git"@ + rest) is Git,
        group("stats_"@ + rest) is Stats,
        group("gsd_"@ + rest) is Gsd,
        !begins_with(name, "git"@) && !begins_with(name, "stats_"@) && !begins_with(name, "gsd_"@)
            ==> group(name) is Other,
{
    reveal_strlit("git");
    reveal_strlit("stats_");
    reveal_strlit("gsd_");
    assert(("git"@ + rest).take(3) =~= "git"@);
    assert(("stats_"@ + rest).take(6) =~= "stats_"@);
    assert(("gsd_"@ + rest).take(4) =~= "gsd_"@);
    assert(("stats_"@ + rest)[0] == 's');
    assert(("gsd_"@ + rest)[1] == 's');
    assert(("gsd_"@ + rest)[0] == 'g');
    assert("git"@[0] == 'g' && "git"@[1] == 'i');
    assert("stats_"@[0] == 's' && "gsd_"@[0] == 'g');
    assert(("stats_"@ + rest).take(3)[0] == 's');
    assert(("gsd_"@ + rest).take(3)[1] == 's');
    if rest.len() >= 2 {
        assert(("gsd_"@ + rest).take(6)[0] == 'g');
    }
    assert(("stats_"@ + rest).take(4)[0] == 's');
}

/// A variable's line has its name and its value, or the word that it is empty.
pub proof fn variables_have_their_lines(name: Seq<char>, value: Seq<char>, shown: Seq<char>)
    ensures
        value.len() > 0 ==> variable_line(name, value, shown) == "  "@ + name + (" = "@ + shown),
        value.len() == 0 ==> variable_line(name, value, shown) == "  "@ + name + " = (empty)"@,
{
}

/// A group has its title and then a line for each of its variables, in order of their
/// names, with the variable's own value; a group without variables is left out.
pub proof fn groups_have_a_line_for_each(
    title: Seq<char>,
    names: Seq<Seq<char>>,
    vars: Map<Seq<char>, Seq<char>>,
    i: int,
)
    requires
        0 <= i < names.len(),
    ensures
        ({
            let lines = group_text(title, names, vars);
            let k = in_order(names)[i];
            &&& lines.len() == names.len() + 2
            &&& lines[0] == "=== "@ + title + " ==="@
            &&& lines[i + 1] == variable_line(k, vars[k], quoted(vars[k]))
            &&& lines.last().len() == 0
            &&& group_text(title, Seq::empty(), vars).len() == 0
        }),
{
    crate::text::order_keeps_all(names);
}

/// The template that is used is told, and whether the user's own is active or was not found.
pub proof fn templates_are_told(template: Seq<char>, path: Seq<char>, active: bool)
    ensures
        ({
            let with = template_part(template, Some(path), active);
            let without = template_part(template, None, active);
            &&& with[1] == "  Default template: "@ + template
            &&& without[1] == "  Default template: "@ + template
            &&& active ==> with[2] == "  User override:    "@ + path + " (active)"@
            &&& !active ==> with[2] == "  User override:    "@ + path
                + " (not found, using default)"@
            &&& without.len() == 3
            &&& with.len() == 4
        }),
{
}

/// The variables that every line has hold their own values: the directory in its colour, its
/// last part, the model's names, the context's percentage, the cost and the day's total.
pub proof fn core_variables_hold_their_own(
    colors: Colors,
    short_dir: Seq<char>,
    basename: Seq<char>,
    model: ModelFacts,
    context: Double,
    cost: Double,
    daily: Double,
)
    requires
        daily.is_positive(),
    ensures
        ({
            let v = core_values(
                colors,
                short_dir,
                basename,
                Some(model),
                Some(context),
                Some(cost),
                daily,
            );
            &&& v["directory"@] == colors.code(colors.theme.directory@) + short_dir
                + colors.reset_code()
            &&& v["dir_short"@] == basename
            &&& v["model"@] == model.abbreviation@
            &&& v["model_full"@] == cleaned(model.name@)
            &&& v["model_name"@] == model.family@
            &&& v["context_pct"@] == dec(context.rounded_count())
            &&& v["cost"@] == "$"@ + cost.digits(2)
            &&& v["daily_total"@] == "$"@ + daily.digits(2)
            &&& v.dom().contains("directory"@) && v.dom().contains("dir_short"@)
            &&& v.dom().contains("model"@) && v.dom().contains("model_full"@)
            &&& v.dom().contains("model_name"@) && v.dom().contains("context_pct"@)
            &&& v.dom().contains("cost"@) && v.dom().contains("daily_total"@)
        }),
{
    reveal_strlit("directory");
    reveal_strlit("dir_short");
    reveal_strlit("model");
    reveal_strlit("model_full");
    reveal_strlit("model_name");
    reveal_strlit("context_pct");
    reveal_strlit("cost");
    reveal_strlit("daily_total");
    assert("directory"@.len() == 9 && "dir_short"@.len() == 9);
    assert("directory"@[3] == 'e' && "dir_short"@[3] == '_');
    assert("model"@.len() == 5 && "model_full"@.len() == 10 && "model_name"@.len() == 10);
    assert("model_full"@[6] == 'f' && "model_name"@[6] == 'n');
    assert("context_pct"@.len() == 11 && "daily_total"@.len() == 11 && "cost"@.len() == 4);
    assert("context_pct"@[0] == 'c' && "daily_total"@[0] == 'd');
}

/// A sync that is left out says of which cache, and how fresh it is; one without a limit
/// is never left out.
pub proof fn syncs_that_are_left_out_say_so(
    r: Result<SyncStart>,
    age: Option<i64>,
    limit: Seq<char>,
    subject: Seq<char>,
)
    ensures
        starts_as(r, None, age, subject) ==> (r matches Ok(SyncStart::Fetch)),
        starts_as(r, Some(limit), age, subject) ==> (r matches Ok(SyncStart::Skip(m)) ==> m@
            == subject + " is fresh (within "@ + limit + "); skipping fetch."@),
        starts_as(r, Some(limit), None, subject) ==> !(r matches Ok(SyncStart::Skip(_))),
{
}

/// What is synced is told by its name: the models', or the account's own.
pub proof fn syncs_are_told_by_name(
    limit: Option<&str>,
    age: Option<i64>,
    account: &str,
    models: Result<SyncStart>,
    usage: Result<SyncStart>,
)
    requires
        call_ensures(start_models_sync, (limit, age), models),
        call_ensures(start_usage_sync, (account, limit, age), usage),
    ensures
        models matches Ok(SyncStart::Skip(m)) ==> begins_with(m@, "Models cache is fresh"@),
        usage matches Ok(SyncStart::Skip(m)) ==> begins_with(
            m@,
            "Usage cache for ant account '"@ + account@ + "' is fresh"@,
        ),
{
    reveal_strlit("Models cache");
    reveal_strlit(" is fresh (within ");
    reveal_strlit("Models cache is fresh");
    reveal_strlit("Usage cache for ant account '");
    reveal_strlit("'");
    reveal_strlit("' is fresh");
}

/// The list of variables says where colours are off.
pub proof fn lists_say_where_colours_are_off()
    ensures
        list_head(true).len() == list_head(false).len() + 1,
        list_head(true)[2] == "(Colors disabled)"@,
        list_head(false)[0] == "Template Variables"@,
        list_head(true)[0] == list_head(false)[0],
        list_head(true)[1] == list_head(false)[1],
{
}

/// The models that diverge are those of the cache that do, in their order.
pub proof fn models_that_diverge_in_their_order(
    names: Seq<Seq<char>>,
    models: Map<Seq<char>, ModelEntry>,
    chosen: Map<Seq<char>, usize>,
    n: int,
)
    ensures
        diverging(names, models, chosen, 0).len() == 0,
        0 <= n && diverges(models, chosen, names[n]) ==> diverging(names, models, chosen, n + 1)
            == diverging(names, models, chosen, n).push(names[n]),
        0 <= n && !diverges(models, chosen, names[n]) ==> diverging(names, models, chosen, n + 1)
            == diverging(names, models, chosen, n),
{
}

/// What the cache and the user do not agree on is found model by model.
pub proof fn divergences_are_found(
    cached: &ModelsCache,
    chosen: &TextMap<usize>,
    r: Vec<(String, u64, usize)>,
    i: int,
)
    requires
        call_ensures(divergences, (cached, chosen), r),
        0 <= i < r@.len(),
    ensures
        r@.len() == diverging(
            cached.models.names(),
            cached.models@,
            chosen@,
            cached.models.names().len() as int,
        ).len(),
        r@[i].0@ == diverging(
            cached.models.names(),
            cached.models@,
            chosen@,
            cached.models.names().len() as int,
        )[i],
        r@[i].1 == cached.models@[r@[i].0@].max_input_tokens,
        r@[i].2 == chosen@[r@[i].0@],
{
    assert(is_divergence(
        r@[i],
        cached.models@,
        chosen@,
        diverging(
            cached.models.names(),
            cached.models@,
            chosen@,
            cached.models.names().len() as int,
        )[i],
    ));
}

/// A group lists the names that belong to it, in their order; without a group all are.
pub proof fn groups_list_their_names(names: Seq<Seq<char>>, name: Seq<char>, g: VarGroup)
    ensures
        of_group(Seq::empty(), Some(g)).len() == 0,
        group(name) == g ==> of_group(names.push(name), Some(g)) == of_group(names, Some(g)).push(
            name,
        ),
        group(name) != g ==> of_group(names.push(name), Some(g)) == of_group(names, Some(g)),
        of_group(names.push(name), None) == of_group(names, None).push(name),
{
    assert(names.push(name).drop_last() =~= names);
}

/// The command of an account is the one that is set up for it; an account without one, or
/// that is not there, is a failure that names it.
pub proof fn accounts_have_their_commands(config: &AntConfig, account: &str, r: Result<Vec<String>>)
    requires
        call_ensures(account_command, (config, account), r),
    ensures
        setup_of(config.accounts@, account@) matches AccountSetup::Command(c) ==> (r matches Ok(v)
            && views(v@) == c),
        !(setup_of(config.accounts@, account@) is Command) ==> (r matches Err(e) && begins_with(
            e.text(),
            "ant account '"@ + account@ + "' "@,
        )),
        setup_of(config.accounts@, account@) is NoCommand ==> (r matches Err(e) && begins_with(
            e.text(),
            "ant account '"@ + account@ + "' has no admin_key_command configured"@,
        )),
        setup_of(config.accounts@, account@) is Absent ==> (r matches Err(e) && begins_with(
            e.text(),
            "ant account '"@ + account@ + "' is not configured"@,
        )),
{
    reveal_strlit("ant account '");
    reveal_strlit("' ");
    reveal_strlit("' has no admin_key_command configured");
    reveal_strlit("' has no admin_key_command configured (add [ant.accounts.");
    reveal_strlit("' is not configured");
    reveal_strlit("' is not configured (add an [ant.accounts.");
}

/// The list of variables has its head first, then those of git, of the statistics, of gsd
/// and others, then the core ones, and the template at the end.
pub proof fn groups_in_their_order(
    no_color: bool,
    provider: &TextMap<String>,
    core: &TextMap<String>,
    template: &str,
    path: Option<&str>,
    active: bool,
    r: Vec<String>,
)
    requires
        call_ensures(list_vars_lines, (no_color, provider, core, template, path, active), r),
    ensures
        ({
            let names = provider.names();
            let values = texts(provider@);
            let git = group_text("git"@, of_group(names, Some(VarGroup::Git)), values);
            let stats = group_text("stats"@, of_group(names, Some(VarGroup::Stats)), values);
            let gsd = group_text("gsd"@, of_group(names, Some(VarGroup::Gsd)), values);
            let other = group_text("other"@, of_group(names, Some(VarGroup::Other)), values);
            let own = group_text("core"@, of_group(core.names(), None), texts(core@));
            views(r@) == list_head(no_color) + git + stats + gsd + other + own + template_part(
                template@,
                opt_str(path),
                active,
            )
        }),
{
}

} // verus!
