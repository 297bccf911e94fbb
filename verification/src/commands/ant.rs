//! The `ant` commands: what to fetch, when to leave it, and what to report.
//!
//! Nothing here holds a key. Where a key comes from is told by a label.

use crate::ant::cache::{ModelEntry, ModelsCache};
use crate::ant::config::{AntAccount, AntConfig};
use crate::ant::duration::{
    age_text, humanize_age, is_fresh, is_stale, parse_max_age, past_threshold, read_max_age,
    skips_fetch, MaxAge,
};
use crate::ant::fetch::CredentialMode;
use crate::double::Double;
use crate::error::{failed_with, refused_with, Result, StatuslineError};
use crate::text::{
    concat2, concat3, concat4, concat5, dec, if_not_empty, in_order, join, joined, non_empty,
    opt_str, opt_view, trimmed, u64_text, usize_text, views,
};
use crate::text_map::TextMap;
use vstd::prelude::*;

verus! {

/// What the user is told of a credential that a command prints.
pub const COMMAND_LABEL: &'static str = "admin_key_command (credential command)";

// ---------------------------------------------------------------------------
// Syncing models
// ---------------------------------------------------------------------------

/// Whether a fetch goes ahead.
#[derive(Debug)]
pub enum SyncStart {
    Fetch,
    /// The cache is fresh enough; the message says so.
    Skip(String),
}

/// Whether a sync starts as it should: it fetches unless a largest age is given and the
/// cache is younger, says so where it does not, and refuses an age that cannot be read.
pub open spec fn starts_as(
    r: Result<SyncStart>,
    max_age: Option<Seq<char>>,
    cache_age: Option<i64>,
    subject: Seq<char>,
) -> bool {
    match max_age {
        None => r matches Ok(SyncStart::Fetch),
        Some(spec) => match read_max_age(spec) {
            MaxAge::Seconds(max) => if skips_fetch(Some(max), cache_age) {
                r matches Ok(SyncStart::Skip(m)) && m@ == subject + " is fresh (within "@ + spec
                    + "); skipping fetch."@
            } else {
                r matches Ok(SyncStart::Fetch)
            },
            MaxAge::NoUnit => refused_with(
                r,
                "invalid --max-age '"@ + trimmed(spec) + "' (need a unit: s/m/h/d)"@,
            ),
            MaxAge::BadNumber => refused_with(
                r,
                "invalid --max-age number in '"@ + trimmed(spec) + "'"@,
            ),
            MaxAge::BadUnit(u) => refused_with(
                r,
                "invalid --max-age unit '"@ + u + "' (use s/m/h/d)"@,
            ),
        },
    }
}

fn start(max_age: Option<&str>, cache_age: Option<i64>, subject: &str) -> (r: Result<SyncStart>)
    ensures
        starts_as(r, opt_str(max_age), cache_age, subject@),
{
    match max_age {
        None => Ok(SyncStart::Fetch),
        Some(spec) => match parse_max_age(spec) {
            Ok(max) => {
                if is_fresh(Some(max), cache_age) {
                    Ok(
                        SyncStart::Skip(
                            concat4(subject, " is fresh (within ", spec, "); skipping fetch."),
                        ),
                    )
                } else {
                    Ok(SyncStart::Fetch)
                }
            },
            Err(e) => Err(e),
        },
    }
}

/// Whether a sync of the models fetches. `cache_age` is the age of the models cache, if
/// there is one.
pub fn start_models_sync(max_age: Option<&str>, cache_age: Option<i64>) -> (r: Result<SyncStart>)
    ensures
        starts_as(r, opt_str(max_age), cache_age, "Models cache"@),
{
    start(max_age, cache_age, "Models cache")
}

/// Whether a model's cached window is known and differs from what the user has set.
pub open spec fn diverges(
    models: Map<Seq<char>, ModelEntry>,
    overrides: Map<Seq<char>, usize>,
    id: Seq<char>,
) -> bool {
    models.dom().contains(id) && overrides.dom().contains(id) && models[id].max_input_tokens > 0
        && models[id].max_input_tokens != overrides[id]
}

/// The models among the first `n` whose windows differ.
pub open spec fn diverging(
    names: Seq<Seq<char>>,
    models: Map<Seq<char>, ModelEntry>,
    overrides: Map<Seq<char>, usize>,
    n: int,
) -> Seq<Seq<char>>
    decreases n,
{
    if n <= 0 {
        Seq::empty()
    } else if diverges(models, overrides, names[n - 1]) {
        diverging(names, models, overrides, n - 1).push(names[n - 1])
    } else {
        diverging(names, models, overrides, n - 1)
    }
}

/// Whether a divergence is the one of a model.
pub open spec fn is_divergence(
    d: (String, u64, usize),
    models: Map<Seq<char>, ModelEntry>,
    overrides: Map<Seq<char>, usize>,
    id: Seq<char>,
) -> bool {
    d.0@ == id && d.1 == models[id].max_input_tokens && d.2 == overrides[id]
}

/// The models whose cached window differs from what the user has set, each with the cached
/// window and the one that was set. A cached window of zero is not known, and differs from
/// nothing.
pub fn divergences(cached: &ModelsCache, overrides: &TextMap<usize>) -> (r: Vec<
    (String, u64, usize),
>)
    ensures
        ({
            let ids = diverging(
                cached.models.names(),
                cached.models@,
                overrides@,
                cached.models.names().len() as int,
            );
            &&& r@.len() == ids.len()
            &&& forall|i: int|
                0 <= i < r@.len() ==> is_divergence(
                    #[trigger] r@[i],
                    cached.models@,
                    overrides@,
                    ids[i],
                )
        }),
{
    let n: usize = cached.models.len();
    let mut out: Vec<(String, u64, usize)> = Vec::new();
    let mut i: usize = 0;
    let ghost names = cached.models.names();
    let ghost models = cached.models@;
    let ghost chosen = overrides@;
    while i < n
        invariant
            n == names.len(),
            names == cached.models.names(),
            models == cached.models@,
            chosen == overrides@,
            i <= n,
            out@.len() == diverging(names, models, chosen, i as int).len(),
            forall|j: int|
                0 <= j < out@.len() ==> is_divergence(
                    #[trigger] out@[j],
                    models,
                    chosen,
                    diverging(names, models, chosen, i as int)[j],
                ),
        decreases n - i,
    {
        let id = cached.models.name_at(i);
        let entry = cached.models.value_at(i);
        let ghost out0 = out@;
        match overrides.get(id) {
            Some(o) => {
                if entry.max_input_tokens > 0 && entry.max_input_tokens != *o as u64 {
                    out.push((id.to_owned(), entry.max_input_tokens, *o));
                }
            },
            None => {},
        }
        proof {
            let before = diverging(names, models, chosen, i as int);
            let after = diverging(names, models, chosen, i + 1);
            assert forall|j: int| 0 <= j < out@.len() implies is_divergence(
                #[trigger] out@[j],
                models,
                chosen,
                after[j],
            ) by {
                if j < before.len() {
                    assert(out@[j] == out0[j]);
                    assert(after[j] == before[j]);
                }
            }
        }
        i += 1;
    }
    out
}

/// What the user is told of a model whose cached window differs from the one that was set.
pub fn divergence_note(model: &str, cached: u64, chosen: usize) -> (r: String)
    ensures
        r@ == "note: cached context window for "@ + model@ + " ("@ + dec(cached as nat)
            + (") differs from your [context.model_windows] override ("@ + dec(chosen as nat)
            + "); the override wins at render time"@),
{
    let tail = concat3(
        ") differs from your [context.model_windows] override (",
        usize_text(chosen).as_str(),
        "); the override wins at render time",
    );
    concat5(
        "note: cached context window for ",
        model,
        " (",
        u64_text(cached).as_str(),
        tail.as_str(),
    )
}

/// What the user is told after a sync of the models.
pub open spec fn models_summary_text(count: nat, path: Seq<char>, source: Seq<char>) -> Seq<
    Seq<char>,
> {
    seq![
        "Synced "@ + dec(count) + " model"@ + (if count == 1 {
            ""@
        } else {
            "s"@
        }) + " from the Models API."@,
        "Cache: "@ + path,
        "Credential source: "@ + source,
    ]
}

/// What the user is told after a sync of the models: how many, where they are kept, and
/// where the credential came from.
pub fn models_summary(count: usize, path: &str, source: &str) -> (r: Vec<String>)
    ensures
        views(r@) == models_summary_text(count as nat, path@, source@),
{
    let plural = if count == 1 {
        ""
    } else {
        "s"
    };
    let r = vec![
        concat5("Synced ", usize_text(count).as_str(), " model", plural, " from the Models API."),
        concat2("Cache: ", path),
        concat2("Credential source: ", source),
    ];
    proof {
        assert(views(r@) =~= models_summary_text(count as nat, path@, source@));
    }
    r
}

// ---------------------------------------------------------------------------
// Syncing usage
// ---------------------------------------------------------------------------

/// The account that is meant: the one that is named, else the one of the environment;
/// none where that is empty.
pub open spec fn account_meant(named: Option<Seq<char>>, in_env: Option<Seq<char>>) -> Option<
    Seq<char>,
> {
    let a = if named is Some {
        named
    } else {
        in_env
    };
    match a {
        Some(s) => non_empty(s),
        None => None,
    }
}

pub const NO_ACCOUNT: &'static str = "no active ant account: pass --account <name> or set STATUSLINE_ANT_ACCOUNT";

/// The account whose usage is synced.
pub fn account_to_sync(named: Option<&str>, in_env: Option<&str>) -> (r: Result<String>)
    ensures
        match account_meant(opt_str(named), opt_str(in_env)) {
            Some(a) => r matches Ok(s) && s@ == a,
            None => failed_with(r, NO_ACCOUNT@),
        },
{
    let found = match named {
        Some(s) => if_not_empty(s),
        None => match in_env {
            Some(s) => if_not_empty(s),
            None => None,
        },
    };
    match found {
        Some(a) => Ok(a),
        None => Err(StatuslineError::other(NO_ACCOUNT)),
    }
}

/// Whether a sync of an account's usage fetches. `cache_age` is the age of the account's
/// usage cache, if there is one.
pub fn start_usage_sync(account: &str, max_age: Option<&str>, cache_age: Option<i64>) -> (r: Result<
    SyncStart,
>)
    ensures
        starts_as(
            r,
            opt_str(max_age),
            cache_age,
            "Usage cache for ant account '"@ + account@ + "'"@,
        ),
{
    start(
        max_age,
        cache_age,
        concat3("Usage cache for ant account '", account, "'").as_str(),
    )
}

/// What is set up for an account.
pub enum AccountSetup {
    /// The command that prints its key.
    Command(Seq<Seq<char>>),
    /// It has no command.
    NoCommand,
    /// It is not there.
    Absent,
}

/// What is set up for an account.
pub open spec fn setup_of(accounts: Map<Seq<char>, AntAccount>, name: Seq<char>) -> AccountSetup {
    if !accounts.dom().contains(name) {
        AccountSetup::Absent
    } else if accounts[name].admin_key_command@.len() == 0 {
        AccountSetup::NoCommand
    } else {
        AccountSetup::Command(views(accounts[name].admin_key_command@))
    }
}

fn copy_words(v: &Vec<String>) -> (r: Vec<String>)
    ensures
        views(r@) == views(v@),
{
    let mut out: Vec<String> = Vec::new();
    let n: usize = v.len();
    let mut i: usize = 0;
    while i < n
        invariant
            n == v@.len(),
            i <= n,
            out@.len() == i,
            forall|j: int| 0 <= j < i ==> (#[trigger] out@[j])@ == v@[j]@,
        decreases n - i,
    {
        out.push(v[i].clone());
        i += 1;
    }
    proof {
        assert(views(out@) =~= views(v@));
    }
    out
}

/// The command that prints an account's key. An account without one is refused: usage is
/// never fetched in another way.
pub fn account_command(config: &AntConfig, account: &str) -> (r: Result<Vec<String>>)
    ensures
        match setup_of(config.accounts@, account@) {
            AccountSetup::Command(c) => r matches Ok(v) && views(v@) == c,
            AccountSetup::NoCommand => failed_with(
                r,
                "ant account '"@ + account@
                    + "' has no admin_key_command configured (add [ant.accounts."@ + account@
                    + "].admin_key_command to enable usage sync)"@,
            ),
            AccountSetup::Absent => failed_with(
                r,
                "ant account '"@ + account@ + "' is not configured (add an [ant.accounts."@
                    + account@ + "] table with admin_key_command)"@,
            ),
        },
{
    match config.accounts.get(account) {
        Some(a) => {
            if a.admin_key_command.len() == 0 {
                return Err(
                    StatuslineError::Other(
                        concat5(
                            "ant account '",
                            account,
                            "' has no admin_key_command configured (add [ant.accounts.",
                            account,
                            "].admin_key_command to enable usage sync)",
                        ),
                    ),
                );
            }
            Ok(copy_words(&a.admin_key_command))
        },
        None => Err(
            StatuslineError::Other(
                concat5(
                    "ant account '",
                    account,
                    "' is not configured (add an [ant.accounts.",
                    account,
                    "] table with admin_key_command)",
                ),
            ),
        ),
    }
}

/// What the user is told after a sync of an account's usage.
pub open spec fn usage_summary_text(
    account: Seq<char>,
    path: Seq<char>,
    today: Double,
    month: Double,
    tz: Seq<char>,
) -> Seq<Seq<char>> {
    seq![
        "Synced usage & cost for ant account '"@ + account + "'."@,
        "Cache: "@ + path,
        "Credential source: "@ + COMMAND_LABEL@,
        "Today: $"@ + today.digits(2) + " "@ + tz + ("   MTD: $"@ + month.digits(2) + " "@ + tz),
    ]
}

/// What the user is told after a sync of an account's usage: where it is kept, where the
/// credential came from, and what was spent today and this month.
pub fn usage_summary(account: &str, path: &str, today: Double, month: Double, tz: &str) -> (r: Vec<
    String,
>)
    ensures
        views(r@) == usage_summary_text(account@, path@, today, month, tz@),
{
    let spent = concat4("   MTD: $", month.text(2).as_str(), " ", tz);
    let r = vec![
        concat3("Synced usage & cost for ant account '", account, "'."),
        concat2("Cache: ", path),
        concat2("Credential source: ", COMMAND_LABEL),
        concat5("Today: $", today.text(2).as_str(), " ", tz, spent.as_str()),
    ];
    proof {
        assert(views(r@) =~= usage_summary_text(account@, path@, today, month, tz@));
    }
    r
}

// ---------------------------------------------------------------------------
// The doctor
// ---------------------------------------------------------------------------

/// What the doctor finds of a cache.
#[derive(Debug)]
pub struct CacheReport {
    pub present: bool,
    pub age: Option<String>,
    pub stale: bool,
    pub path: Option<String>,
}

/// Whether a report is the one of a cache of an age, if it is there.
pub open spec fn reports_cache(
    r: CacheReport,
    age: Option<i64>,
    threshold: Seq<char>,
    path: Option<Seq<char>>,
) -> bool {
    &&& r.present == (age is Some)
    &&& opt_view(r.age) == match age {
        Some(a) => Some(age_text(a as int)),
        None => None,
    }
    &&& r.stale == match age {
        Some(a) => past_threshold(a as int, threshold),
        None => false,
    }
    &&& opt_view(r.path) == path
}

fn cache_report(age: Option<i64>, threshold: &str, path: Option<String>) -> (r: CacheReport)
    ensures
        reports_cache(r, age, threshold@, opt_view(path)),
{
    match age {
        Some(a) => CacheReport {
            present: true,
            age: Some(humanize_age(a)),
            stale: is_stale(a, threshold),
            path,
        },
        None => CacheReport { present: false, age: None, stale: false, path },
    }
}

/// What the user is told of where an account's key comes from.
pub open spec fn usage_label(accounts: Map<Seq<char>, AntAccount>, account: Seq<char>) -> Seq<char> {
    match setup_of(accounts, account) {
        AccountSetup::Command(_) => COMMAND_LABEL@,
        AccountSetup::NoCommand => "not configured (account has no admin_key_command)"@,
        AccountSetup::Absent => "not configured (no [ant.accounts."@ + account + "] table)"@,
    }
}

/// What the user is told of where an account's key comes from. The command that prints the
/// key is not run.
pub fn usage_credential(config: &AntConfig, account: &str) -> (r: String)
    ensures
        r@ == usage_label(config.accounts@, account@),
{
    match config.accounts.get(account) {
        Some(a) => {
            if a.admin_key_command.len() == 0 {
                "not configured (account has no admin_key_command)".to_owned()
            } else {
                COMMAND_LABEL.to_owned()
            }
        },
        None => concat3("not configured (no [ant.accounts.", account, "] table)"),
    }
}

/// What a probe of an account does.
#[derive(Debug)]
pub enum UsageProbe {
    /// Run the command that prints the key, and try it.
    Run(Vec<String>),
    /// Do nothing; the label says why.
    Skip(String),
}

/// What a probe of the active account does: it runs a command only where there is one.
pub fn usage_probe(config: &AntConfig, account: Option<&str>) -> (r: UsageProbe)
    ensures
        match account {
            Some(a) => match setup_of(config.accounts@, a@) {
                AccountSetup::Command(c) => r matches UsageProbe::Run(v) && views(v@) == c,
                _ => r matches UsageProbe::Skip(m) && m@
                    == "skipped: no admin_key_command for the active account"@,
            },
            None => r matches UsageProbe::Skip(m) && m@ == "skipped: no active account"@,
        },
{
    match account {
        Some(a) => match config.accounts.get(a) {
            Some(x) => {
                if x.admin_key_command.len() == 0 {
                    UsageProbe::Skip(
                        "skipped: no admin_key_command for the active account".to_owned(),
                    )
                } else {
                    UsageProbe::Run(copy_words(&x.admin_key_command))
                }
            },
            None => UsageProbe::Skip(
                "skipped: no admin_key_command for the active account".to_owned(),
            ),
        },
        None => UsageProbe::Skip("skipped: no active account".to_owned()),
    }
}

/// What a probe came to: its label, or the failure after `error: `.
pub fn probe_label(outcome: Result<String>) -> (r: String)
    ensures
        r@ == match outcome {
            Ok(label) => label@,
            Err(e) => "error: "@ + e.text(),
        },
{
    match outcome {
        Ok(label) => label,
        Err(e) => concat2("error: ", e.message()),
    }
}

/// What the doctor looks at. Nothing of it is found by running a command.
#[derive(Debug)]
pub struct DoctorFacts {
    pub ant_on_path: bool,
    pub key_in_env: bool,
    pub active_account: Option<String>,
    /// Ages of the caches that are there.
    pub models_age: Option<i64>,
    pub usage_age: Option<i64>,
    pub models_path: Option<String>,
    pub usage_path: Option<String>,
    /// How many files were searched for keys, and whether none held one.
    pub scanned: usize,
    pub clean: bool,
    /// What the probes of models and usage came to, if they were run.
    pub probes: Option<(String, String)>,
}

/// What the doctor reports.
#[derive(Debug)]
pub struct DoctorReport {
    pub ant_on_path: bool,
    pub enabled: bool,
    pub profile: String,
    /// In order.
    pub accounts: Vec<String>,
    pub active_account: Option<String>,
    pub models: CacheReport,
    pub usage: CacheReport,
    pub models_credential: String,
    pub usage_credential: Option<String>,
    pub models_active: bool,
    pub usage_active: bool,
    pub clean: bool,
    pub scanned: usize,
    pub probes: Option<(String, String)>,
}

/// Where the credential for the models comes from.
pub open spec fn models_label(config: AntConfig, key_in_env: bool) -> Seq<char> {
    if config.profile@.len() > 0 {
        "ant profile '"@ + config.profile@ + "'"@
    } else if key_in_env {
        "ANTHROPIC_API_KEY (env)"@
    } else {
        "ant default auth"@
    }
}

pub open spec fn probe_views(p: Option<(String, String)>) -> Option<(Seq<char>, Seq<char>)> {
    match p {
        Some(q) => Some((q.0@, q.1@)),
        None => None,
    }
}

/// The doctor's report. An enrichment is active where it is turned on and its cache is
/// there.
pub fn doctor(config: &AntConfig, facts: DoctorFacts) -> (r: DoctorReport)
    ensures
        r.ant_on_path == facts.ant_on_path,
        r.enabled == config.enabled,
        r.profile@ == config.profile@,
        views(r.accounts@) == in_order(config.accounts.names()),
        opt_view(r.active_account) == opt_view(facts.active_account),
        reports_cache(
            r.models,
            facts.models_age,
            config.models_stale_after@,
            opt_view(facts.models_path),
        ),
        reports_cache(
            r.usage,
            facts.usage_age,
            config.usage_stale_after@,
            opt_view(facts.usage_path),
        ),
        r.models_credential@ == models_label(*config, facts.key_in_env),
        opt_view(r.usage_credential) == match facts.active_account {
            Some(a) => Some(usage_label(config.accounts@, a@)),
            None => None,
        },
        r.models_active == (config.enabled && facts.models_age is Some),
        r.usage_active == (config.enabled && facts.usage_age is Some),
        r.clean == facts.clean,
        r.scanned == facts.scanned,
        probe_views(r.probes) == probe_views(facts.probes),
{
    let usage_credential = match &facts.active_account {
        Some(a) => Some(usage_credential(config, a.as_str())),
        None => None,
    };
    DoctorReport {
        ant_on_path: facts.ant_on_path,
        enabled: config.enabled,
        profile: config.profile.clone(),
        accounts: config.accounts.ordered_names(),
        models: cache_report(
            facts.models_age,
            config.models_stale_after.as_str(),
            facts.models_path,
        ),
        usage: cache_report(facts.usage_age, config.usage_stale_after.as_str(), facts.usage_path),
        models_credential: CredentialMode::resolve(config, facts.key_in_env).label(),
        usage_credential,
        models_active: config.enabled && facts.models_age.is_some(),
        usage_active: config.enabled && facts.usage_age.is_some(),
        clean: facts.clean,
        scanned: facts.scanned,
        probes: facts.probes,
        active_account: facts.active_account,
    }
}

pub open spec fn yes_no(b: bool) -> Seq<char> {
    if b {
        "yes"@
    } else {
        "no"@
    }
}

fn yn(b: bool) -> (r: &'static str)
    ensures
        r@ == yes_no(b),
{
    if b {
        "yes"
    } else {
        "no"
    }
}

/// The configuration's part of the report.
pub open spec fn configuration_part(r: DoctorReport) -> Seq<Seq<char>> {
    seq![
        "ant Enrichment Doctor"@,
        "====================="@,
        Seq::empty(),
        "Configuration:"@,
        "  ant on PATH: "@ + yes_no(r.ant_on_path),
        "  Enabled: "@ + yes_no(r.enabled),
        "  Profile: "@ + (if r.profile@.len() == 0 {
            "(default)"@
        } else {
            r.profile@
        }),
        "  Accounts: "@ + (if r.accounts@.len() == 0 {
            "(none)"@
        } else {
            joined(views(r.accounts@), ", "@)
        }),
        "  Active account: "@ + (match r.active_account {
            Some(a) => a@,
            None => "(none)"@,
        }),
        Seq::empty(),
    ]
}

fn push_configuration(out: &mut Vec<String>, r: &DoctorReport)
    ensures
        views(final(out)@) == views(old(out)@) + configuration_part(*r),
{
    let ghost before = views(out@);
    out.push("ant Enrichment Doctor".to_owned());
    out.push("=====================".to_owned());
    out.push(String::new());
    out.push("Configuration:".to_owned());
    out.push(concat2("  ant on PATH: ", yn(r.ant_on_path)));
    out.push(concat2("  Enabled: ", yn(r.enabled)));
    let profile = if r.profile.as_str().is_empty() {
        "(default)".to_owned()
    } else {
        r.profile.clone()
    };
    out.push(concat2("  Profile: ", profile.as_str()));
    let accounts = if r.accounts.len() == 0 {
        "(none)".to_owned()
    } else {
        join(&r.accounts, ", ")
    };
    out.push(concat2("  Accounts: ", accounts.as_str()));
    let active = match &r.active_account {
        Some(a) => a.clone(),
        None => "(none)".to_owned(),
    };
    out.push(concat2("  Active account: ", active.as_str()));
    out.push(String::new());
    proof {
        let n = before.len() as int;
        assert(out@[n + 2]@ =~= Seq::<char>::empty());
        assert(out@[n + 9]@ =~= Seq::<char>::empty());
        assert(views(out@) =~= before + configuration_part(*r));
    }
}

/// The line of a cache.
pub open spec fn cache_line(label: Seq<char>, c: CacheReport) -> Seq<char> {
    match (c.age, c.path) {
        (Some(age), Some(path)) => label + "present, age "@ + age@ + (if c.stale {
            " (stale)"@
        } else {
            ""@
        }) + ("\n    "@ + path@),
        _ => label + "absent"@,
    }
}

fn cache_line_text(label: &str, c: &CacheReport) -> (r: String)
    ensures
        r@ == cache_line(label@, *c),
{
    match (&c.age, &c.path) {
        (Some(age), Some(path)) => {
            let mark = if c.stale {
                " (stale)"
            } else {
                ""
            };
            let tail = concat2("\n    ", path.as_str());
            concat5(label, "present, age ", age.as_str(), mark, tail.as_str())
        },
        _ => concat2(label, "absent"),
    }
}

/// The part on caches, credentials and what is active.
pub open spec fn state_part(r: DoctorReport) -> Seq<Seq<char>> {
    seq![
        "Caches:"@,
        cache_line("  Models: "@, r.models),
        cache_line("  Usage:  "@, r.usage),
        Seq::empty(),
        "Credentials (source labels only — never executed in passive mode):"@,
        "  Models: "@ + r.models_credential@,
        "  Usage:  "@ + (match r.usage_credential {
            Some(c) => c@,
            None => "(no active account)"@,
        }),
        Seq::empty(),
        "Active enrichment:"@,
        "  {api_*} models vars: "@ + yes_no(r.models_active),
        "  {api_*} usage vars:  "@ + yes_no(r.usage_active),
        Seq::empty(),
    ]
}

fn push_state(out: &mut Vec<String>, r: &DoctorReport)
    ensures
        views(final(out)@) == views(old(out)@) + state_part(*r),
{
    let ghost before = views(out@);
    out.push("Caches:".to_owned());
    out.push(cache_line_text("  Models: ", &r.models));
    out.push(cache_line_text("  Usage:  ", &r.usage));
    out.push(String::new());
    out.push("Credentials (source labels only — never executed in passive mode):".to_owned());
    out.push(concat2("  Models: ", r.models_credential.as_str()));
    let usage = match &r.usage_credential {
        Some(c) => c.clone(),
        None => "(no active account)".to_owned(),
    };
    out.push(concat2("  Usage:  ", usage.as_str()));
    out.push(String::new());
    out.push("Active enrichment:".to_owned());
    out.push(concat2("  {api_*} models vars: ", yn(r.models_active)));
    out.push(concat2("  {api_*} usage vars:  ", yn(r.usage_active)));
    out.push(String::new());
    proof {
        let n = before.len() as int;
        assert(out@[n + 3]@ =~= Seq::<char>::empty());
        assert(out@[n + 7]@ =~= Seq::<char>::empty());
        assert(out@[n + 11]@ =~= Seq::<char>::empty());
        assert(views(out@) =~= before + state_part(*r));
    }
}

/// The part on the search for keys and on the probes.
pub open spec fn audit_part(r: DoctorReport) -> Seq<Seq<char>> {
    seq![
        "Security self-audit (on-disk artifacts):"@,
        "  "@ + (if r.clean {
            "✅ no key-shaped strings found"@
        } else {
            "❌ key-shaped string found in an on-disk artifact"@
        }) + " ("@ + dec(r.scanned as nat) + (" artifact"@ + (if r.scanned == 1 {
            ""@
        } else {
            "s"@
        }) + " scanned)"@),
        Seq::empty(),
        "Probe (--probe to run; opt-in credential/network):"@,
    ] + (match r.probes {
        Some(p) => seq![
            "  Models reachability: "@ + p.0@,
            "  Usage reachability:  "@ + p.1@,
        ],
        None => seq!["  not run (passive)"@],
    })
}

fn push_audit(out: &mut Vec<String>, r: &DoctorReport)
    ensures
        views(final(out)@) == views(old(out)@) + audit_part(*r),
{
    let ghost before = views(out@);
    out.push("Security self-audit (on-disk artifacts):".to_owned());
    let verdict = if r.clean {
        "✅ no key-shaped strings found"
    } else {
        "❌ key-shaped string found in an on-disk artifact"
    };
    let plural = if r.scanned == 1 {
        ""
    } else {
        "s"
    };
    let tail = concat3(" artifact", plural, " scanned)");
    out.push(concat5("  ", verdict, " (", usize_text(r.scanned).as_str(), tail.as_str()));
    out.push(String::new());
    out.push("Probe (--probe to run; opt-in credential/network):".to_owned());
    match &r.probes {
        Some(p) => {
            out.push(concat2("  Models reachability: ", p.0.as_str()));
            out.push(concat2("  Usage reachability:  ", p.1.as_str()));
        },
        None => {
            out.push("  not run (passive)".to_owned());
        },
    }
    proof {
        let n = before.len() as int;
        assert(out@[n + 2]@ =~= Seq::<char>::empty());
        assert(views(out@) =~= before + audit_part(*r));
    }
}

/// The report, line by line.
pub fn doctor_lines(r: &DoctorReport) -> (o: Vec<String>)
    ensures
        views(o@) == configuration_part(*r) + state_part(*r) + audit_part(*r),
{
    let mut out: Vec<String> = Vec::new();
    proof {
        assert(views(out@) =~= Seq::<Seq<char>>::empty());
    }
    push_configuration(&mut out, r);
    push_state(&mut out, r);
    push_audit(&mut out, r);
    proof {
        assert(views(out@) =~= configuration_part(*r) + state_part(*r) + audit_part(*r));
    }
    out
}

// ---------------------------------------------------------------------------
// Laws
// ---------------------------------------------------------------------------

/// A sync fetches exactly when the cache has reached the largest age, which zero always
/// is; one without a largest age always fetches.
pub proof fn throttled_by_age(r: Result<SyncStart>, max: u64, spec: Seq<char>, age: i64, s: Seq<char>)
    requires
        read_max_age(spec) == MaxAge::Seconds(max),
        starts_as(r, Some(spec), Some(age), s),
    ensures
        r matches Ok(SyncStart::Fetch) <==> age >= max || max == 0,
        starts_as(Ok::<SyncStart, StatuslineError>(SyncStart::Fetch), None, Some(age), s),
{
}

/// A model is reported as diverging exactly when it does, and no more than once.
pub proof fn divergence_is_reported_once(
    names: Seq<Seq<char>>,
    models: Map<Seq<char>, ModelEntry>,
    overrides: Map<Seq<char>, usize>,
    id: Seq<char>,
)
    requires
        names.no_duplicates(),
        forall|k: Seq<char>| #[trigger] names.contains(k) <==> models.dom().contains(k),
    ensures
        diverging(names, models, overrides, names.len() as int).no_duplicates(),
        diverging(names, models, overrides, names.len() as int).contains(id) <==> diverges(
            models,
            overrides,
            id,
        ),
{
    lemma_diverging(names, models, overrides, names.len() as int);
    assert(names.take(names.len() as int) =~= names);
    if diverges(models, overrides, id) {
        assert(names.contains(id));
    }
}

proof fn lemma_diverging(
    names: Seq<Seq<char>>,
    models: Map<Seq<char>, ModelEntry>,
    overrides: Map<Seq<char>, usize>,
    n: int,
)
    requires
        names.no_duplicates(),
        0 <= n <= names.len(),
    ensures
        diverging(names, models, overrides, n).no_duplicates(),
        forall|k: Seq<char>| #[trigger]
            diverging(names, models, overrides, n).contains(k) <==> names.take(n).contains(k)
                && diverges(models, overrides, k),
    decreases n,
{
    let after = diverging(names, models, overrides, n);
    if n > 0 {
        lemma_diverging(names, models, overrides, n - 1);
        let before = diverging(names, models, overrides, n - 1);
        let name = names[n - 1];
        let head = names.take(n - 1);
        let all = names.take(n);
        assert(!head.contains(name)) by {
            if head.contains(name) {
                let j = choose|j: int| 0 <= j < head.len() && head[j] == name;
                assert(names[j] == names[n - 1]);
            }
        }
        assert forall|k: Seq<char>| #[trigger] all.contains(k) <==> head.contains(k) || k == name by {
            assert(all[n - 1] == name);
            if head.contains(k) {
                let j = choose|j: int| 0 <= j < head.len() && head[j] == k;
                assert(all[j] == k);
            }
            if all.contains(k) && k != name {
                let j = choose|j: int| 0 <= j < all.len() && all[j] == k;
                assert(head[j] == k);
            }
        }
        if diverges(models, overrides, name) {
            assert(!before.contains(name));
            assert forall|k: Seq<char>| after.contains(k) <==> before.contains(k) || k == name by {
                assert(after[before.len() as int] == name);
                if before.contains(k) {
                    let j = choose|j: int| 0 <= j < before.len() && before[j] == k;
                    assert(after[j] == k);
                }
                if after.contains(k) && k != name {
                    let j = choose|j: int| 0 <= j < after.len() && after[j] == k;
                    assert(before[j] == k);
                }
            }
            assert(after.no_duplicates()) by {
                assert forall|i: int, j: int|
                    0 <= i < after.len() && 0 <= j < after.len() && i != j implies after[i]
                    != after[j] by {
                    if i < before.len() && j < before.len() {
                        assert(before[i] != before[j]);
                    } else if i < before.len() {
                        assert(before.contains(before[i]));
                    } else {
                        assert(before.contains(before[j]));
                    }
                }
            }
        }
    }
}

} // verus!
