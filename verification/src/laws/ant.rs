//! What is fetched, how it is added up, and how old it may be.

use crate::ant::audit::{findings_of, holds_key, is_key_char, Artifact};
use crate::ant::cache::{
    ant_dir, is_safe_name, models_cache_path, models_path, name_refusal, usage_cache_path,
    usage_dir, usage_path, ModelEntry, ModelsCache, TokenBreakdown, UsageCache,
};
use crate::ant::config::AntConfig;
use crate::ant::diagnostics::{bounded_by_bytes, bounded_by_chars, lossy_text, mentions_key};
use crate::ant::duration::{
    age_text, digit_run, parse_max_age, past_threshold, read_max_age, skips_fetch, MaxAge,
};
use crate::ant::fetch::{
    another_page, ant_argument_list, ant_environment, choose_transport, curl_argument_list,
    curl_config_text, curl_failure_text, finish_fetch, models_address, profile_note, with_models,
    AntEnv, ApiModel, CredentialMode, FetchOutcome, ModelsPage, Transport,
};
use crate::ant::usage::{
    assemble_usage, body_and_status, cost_query, curl_get, key_command, key_failure_text,
    last_newline, lines_in, next_token, query_text, report_address, report_argument_list,
    report_failure_text, resolve_admin_key, token_refusal, tokens_of, usage_query, windows_from,
    with_line, Bucket, ReportEnvelope, UsageItem, UtcWindow, UtcWindows,
};
use crate::clock::{utc_text, Timestamp};
use crate::double::Double;
use crate::error::Result;
use crate::laws::places::texts_are_taken_apart_at_line_ends;
use crate::laws::words::{begins_with, ends_in, is_found, is_found_at, is_free_of};
use crate::text::{byte_count, dec, dec_int, has_part, lowered, stands_at, trimmed, views};
use crate::text_map::TextMap;
use vstd::prelude::*;

verus! {

// ---------------------------------------------------------------------------
// Usage
// ---------------------------------------------------------------------------

/// A line of usage adds each kind of token to the count of that kind of its own model.
pub proof fn usage_is_counted_by_kind(
    m: Map<Seq<char>, TokenBreakdown>,
    item: UsageItem,
    model: String,
)
    requires
        item.model == Some(model),
        model@.len() > 0,
        ({
            let t = tokens_of(m, model@);
            &&& t.uncached_input + item.uncached_input_tokens <= u64::MAX
            &&& t.cache_read_input + item.cache_read_input_tokens <= u64::MAX
            &&& t.cache_creation_1h + item.cache_creation.ephemeral_1h_input_tokens <= u64::MAX
            &&& t.cache_creation_5m + item.cache_creation.ephemeral_5m_input_tokens <= u64::MAX
            &&& t.output + item.output_tokens <= u64::MAX
        }),
    ensures
        ({
            let old = tokens_of(m, model@);
            let new = tokens_of(with_line(m, item), model@);
            &&& new.uncached_input - old.uncached_input == item.uncached_input_tokens
            &&& new.cache_read_input - old.cache_read_input == item.cache_read_input_tokens
            &&& new.cache_creation_1h - old.cache_creation_1h
                == item.cache_creation.ephemeral_1h_input_tokens
            &&& new.cache_creation_5m - old.cache_creation_5m
                == item.cache_creation.ephemeral_5m_input_tokens
            &&& new.output - old.output == item.output_tokens
        }),
{
}

/// A line of usage changes no other model, and a line without a model changes none.
pub proof fn usage_of_others_stays(
    m: Map<Seq<char>, TokenBreakdown>,
    item: UsageItem,
    other: Seq<char>,
)
    requires
        item.model matches Some(model) ==> model@ != other,
    ensures
        tokens_of(with_line(m, item), other) == tokens_of(m, other),
        item.model is None ==> with_line(m, item) == m,
        (item.model matches Some(model) && model@.len() == 0) ==> with_line(m, item) == m,
        !m.dom().contains(other) ==> tokens_of(m, other).uncached_input == 0 && tokens_of(
            m,
            other,
        ).cache_read_input == 0 && tokens_of(m, other).cache_creation_1h == 0 && tokens_of(
            m,
            other,
        ).cache_creation_5m == 0 && tokens_of(m, other).output == 0,
{
}

/// A count that is full stays full.
pub proof fn full_counts_stay_full(m: Map<Seq<char>, TokenBreakdown>, item: UsageItem, model: String)
    requires
        item.model == Some(model),
        model@.len() > 0,
        tokens_of(m, model@).output == u64::MAX,
    ensures
        tokens_of(with_line(m, item), model@).output == u64::MAX,
{
}

/// All tokens of a model are those of all kinds together, and as many as can be counted
/// where they are more.
pub proof fn all_kinds_are_counted(t: &TokenBreakdown, r: u64)
    requires
        call_ensures(TokenBreakdown::total, (t,), r),
    ensures
        ({
            let all = t.uncached_input + t.cache_read_input + t.cache_creation_1h
                + t.cache_creation_5m + t.output;
            &&& all <= u64::MAX ==> r == all
            &&& all > u64::MAX ==> r == u64::MAX
        }),
{
}

/// The lines of a report are those of its days, one day after the other.
pub proof fn days_follow_one_another(a: Seq<Bucket<UsageItem>>, day: Bucket<UsageItem>)
    ensures
        lines_in(a.push(day)) == lines_in(a) + day.results@,
        lines_in(Seq::empty()).len() == 0,
{
    assert(a.push(day).drop_last() =~= a);
}

/// An account's usage is put together from its own parts: today's cost is today's, the
/// month's is the month's.
pub proof fn usage_is_put_together(
    account: &str,
    today: Double,
    month: Double,
    tokens: TextMap<TokenBreakdown>,
    at: Timestamp,
    r: UsageCache,
)
    requires
        call_ensures(assemble_usage, (account, today, month, tokens, at), r),
    ensures
        r.account@ == account@,
        r.today_usd == today,
        r.mtd_usd == month,
        r.tokens_by_model@ == tokens@,
        r.fetched_at == at,
        r.tz@ == "UTC"@,
        r.schema_version == 1,
{
}

/// Today's span begins at the last midnight and the month's where the month began; both end
/// a day after the last midnight, so that now lies within either.
pub proof fn spans_end_at_the_next_midnight(now: i64, began: i64, midnight: int, r: UtcWindows)
    requires
        call_ensures(windows_from, (now, began), r),
        midnight % 86_400 == 0,
        midnight <= now < midnight + 86_400,
    ensures
        r.today.starting_at@ == utc_text(midnight),
        r.today.ending_at@ == utc_text(midnight + 86_400),
        r.mtd.starting_at@ == utc_text(began as int),
        r.mtd.ending_at@ == utc_text(midnight + 86_400),
{
}

/// A report is asked for by its span, a day wide each; usage is asked for by model besides.
pub proof fn reports_are_asked_for_by_span(
    w: &UtcWindow,
    cost: Vec<(String, String)>,
    usage: Vec<(String, String)>,
)
    requires
        call_ensures(cost_query, (w,), cost),
        call_ensures(usage_query, (w,), usage),
    ensures
        cost@.len() == 3,
        cost@[0].0@ == "starting_at"@ && cost@[0].1@ == w.starting_at@,
        cost@[1].0@ == "ending_at"@ && cost@[1].1@ == w.ending_at@,
        cost@[2].0@ == "bucket_width"@ && cost@[2].1@ == "1d"@,
        usage@.len() == 4,
        usage@[0].1@ == w.starting_at@,
        usage@[1].1@ == w.ending_at@,
        usage@[3].0@ == "group_by"@ && usage@[3].1@ == "model"@,
{
    let a = crate::ant::usage::pair_views(cost@);
    let b = crate::ant::usage::pair_views(usage@);
    assert(a.len() == 3 && b.len() == 4);
    assert(a[0] == (cost@[0].0@, cost@[0].1@));
    assert(a[1] == (cost@[1].0@, cost@[1].1@));
    assert(a[2] == (cost@[2].0@, cost@[2].1@));
    assert(b[0] == (usage@[0].0@, usage@[0].1@));
    assert(b[1] == (usage@[1].0@, usage@[1].1@));
    assert(b[3] == (usage@[3].0@, usage@[3].1@));
}

/// An address has its parameters behind a question mark, each with its value, and an
/// ampersand between any two; a page comes last.
pub proof fn addresses_have_their_parameters(
    base: Seq<char>,
    pairs: Seq<(String, String)>,
    more: (String, String),
    page: Seq<char>,
)
    ensures
        report_address(base, Seq::empty(), None) == base,
        report_address(base, seq![more], None) == base + "?"@ + more.0@ + "="@ + more.1@,
        pairs.len() > 0 ==> report_address(base, pairs.push(more), None) == report_address(
            base,
            pairs,
            None,
        ) + "&"@ + more.0@ + "="@ + more.1@,
        pairs.len() > 0 ==> report_address(base, pairs, Some(page)) == report_address(
            base,
            pairs,
            None,
        ) + "&page="@ + page,
        report_address(base, Seq::empty(), Some(page)) == base + "?page="@ + page,
{
    reveal_with_fuel(query_text, 2);
    reveal_strlit("&page=");
    reveal_strlit("?page=");
    reveal_strlit("page=");
    reveal_strlit("&");
    reveal_strlit("?");
    assert(seq![more].drop_last() =~= Seq::empty());
    assert(pairs.push(more).drop_last() =~= pairs);
    assert(report_address(base, Seq::empty(), None) =~= base);
    assert(report_address(base, seq![more], None) =~= base + "?"@ + more.0@ + "="@ + more.1@);
    if pairs.len() > 0 {
        assert(report_address(base, pairs.push(more), None) =~= report_address(base, pairs, None)
            + "&"@ + more.0@ + "="@ + more.1@);
        assert(report_address(base, pairs, Some(page)) =~= report_address(base, pairs, None)
            + "&page="@ + page);
    }
    assert(report_address(base, Seq::empty(), Some(page)) =~= base + "?page="@ + page);
}

/// Another page is fetched only where there is more and fewer pages than allowed were read;
/// it is the one that this page names.
pub proof fn pages_follow_their_tokens<T>(env: ReportEnvelope<T>, page: ModelsPage, read: nat)
    ensures
        !env.has_more ==> next_token(env, read) is None,
        read >= 1000 ==> next_token(env, read) is None,
        env.has_more && read < 1000 ==> next_token(env, read)
            == env.next_page,
        another_page(page, read) <==> page.has_more && page.last_id is Some && read
            < 1000,
{
}

/// A status of three digits behind the last line end is taken off the body, and read as the
/// number that it is.
pub proof fn the_status_is_taken_off(body: Seq<u8>, a: u8, b: u8, c: u8)
    requires
        48 <= a <= 57,
        48 <= b <= 57,
        48 <= c <= 57,
    ensures
        ({
            let out = body + seq![10u8, a, b, c];
            &&& body_and_status(out).0 == body
            &&& body_and_status(out).1 == 100 * (a - 48) + 10 * (b - 48) + (c - 48)
        }),
{
    let out = body + seq![10u8, a, b, c];
    reveal_with_fuel(last_newline, 5);
    let o1 = out.drop_last();
    let o2 = o1.drop_last();
    let o3 = o2.drop_last();
    assert(out.last() == c && o1.last() == b && o2.last() == a && o3.last() == 10);
    assert(last_newline(out) == body.len());
    let tail = out.skip(body.len() as int + 1);
    assert(tail =~= seq![a, b, c]);
    reveal_with_fuel(crate::ant::usage::bytes_value, 4);
    assert(tail.drop_last() =~= seq![a, b]);
    assert(tail.drop_last().drop_last() =~= seq![a]);
    assert(tail.drop_last().drop_last().drop_last() =~= Seq::empty());
    assert(out.take(body.len() as int) =~= body);
}

/// An output without a line end has no status: all of it is the body.
pub proof fn no_line_end_no_status(out: Seq<u8>)
    requires
        forall|i: int| 0 <= i < out.len() ==> out[i] != 10,
    ensures
        body_and_status(out) == (out, 0u16),
{
    lemma_no_newline(out);
}

proof fn lemma_no_newline(out: Seq<u8>)
    requires
        forall|i: int| 0 <= i < out.len() ==> out[i] != 10,
    ensures
        last_newline(out) == -1,
    decreases out.len(),
{
    if out.len() > 0 {
        assert(out.last() == out[out.len() - 1]);
        lemma_no_newline(out.drop_last());
    }
}

/// A failure says what went wrong by the exit code and the status, and shows the error
/// output of a broken connection but the body of a refused request.
pub proof fn failures_say_what_went_wrong(code: int, status: nat, stderr: Seq<char>, body: Seq<char>)
    ensures
        code == 6 || code == 7 || code == 28 ==> begins_with(
            report_failure_text(code, status, stderr, body),
            "network error "@,
        ) && ends_in(report_failure_text(code, status, stderr, body), "): "@ + stderr),
        code == 22 && status == 401 ==> begins_with(
            report_failure_text(code, status, stderr, body),
            "Admin key invalid"@,
        ),
        code == 22 && status == 403 ==> begins_with(
            report_failure_text(code, status, stderr, body),
            "this account lacks"@,
        ),
        code == 22 ==> ends_in(report_failure_text(code, status, stderr, body), ": "@ + body),
        code == 22 && status != 401 && status != 403 ==> begins_with(
            report_failure_text(code, status, stderr, body),
            "HTTP error "@ + dec(status),
        ),
        code != 6 && code != 7 && code != 28 && code != 22 ==> begins_with(
            report_failure_text(code, status, stderr, body),
            "curl failed (exit "@ + dec_int(code) + "): "@,
        ) && ends_in(report_failure_text(code, status, stderr, body), "): "@ + stderr),
        code == 6 || code == 7 || code == 28 ==> begins_with(
            curl_failure_text(code, stderr),
            "network error "@,
        ),
        code == 22 ==> begins_with(curl_failure_text(code, stderr), "HTTP error "@),
        ends_in(curl_failure_text(code, stderr), "): "@ + stderr),
{
    reveal_strlit("network error fetching the Admin API (curl exit ");
    reveal_strlit("network error fetching the Models API (curl exit ");
    reveal_strlit("network error ");
    reveal_strlit("Admin key invalid or expired (HTTP 401): ");
    reveal_strlit("Admin key invalid");
    reveal_strlit(
        "this account lacks Admin API access (individual account, non-admin role, or Bedrock/Vertex/Foundry) (HTTP 403): ",
    );
    reveal_strlit("this account lacks");
    reveal_strlit("HTTP error ");
    reveal_strlit(" from the Admin API: ");
    reveal_strlit("HTTP error from the Models API (curl exit 22): ");
    reveal_strlit("curl failed (exit ");
    reveal_strlit("): ");
    reveal_strlit(": ");
}

/// The key and the address go in their own lines of what `curl` reads, each in quotes.
pub proof fn keys_and_addresses_in_their_lines(key: Seq<char>, url: Seq<char>)
    ensures
        begins_with(curl_config_text(key, url), "header = \"x-api-key: "@ + key + "\"\n"@),
        ends_in(curl_config_text(key, url), "\nurl = \""@ + url + "\"\n"@),
{
    reveal_strlit("header = \"x-api-key: ");
    reveal_strlit("\"\nheader = \"anthropic-version: 2023-06-01\"\nurl = \"");
    reveal_strlit("\"\n");
    reveal_strlit("\nurl = \"");
}

/// A page of models is asked for by its size and by the model it comes after.
pub proof fn pages_are_asked_for_by_size(limit: u32, id: Seq<char>)
    ensures
        ends_in(models_address(limit, None), "?limit="@ + dec(limit as nat)),
        models_address(limit, Some(id)) == models_address(limit, None) + "&after_id="@ + id,
        ant_argument_list(limit, None).len() == 5,
        ant_argument_list(limit, None)[0] == "models"@,
        ant_argument_list(limit, None)[1] == "list"@,
        ant_argument_list(limit, None)[2] == "--raw-output"@,
        ant_argument_list(limit, None)[3] == "--limit"@,
        ant_argument_list(limit, None)[4] == dec(limit as nat),
        ant_argument_list(limit, Some(id)) == ant_argument_list(limit, None) + seq![
            "--after-id"@,
            id,
        ],
{
    reveal_strlit("https://api.anthropic.com/v1/models?limit=");
    reveal_strlit("?limit=");
}

// ---------------------------------------------------------------------------
// Models
// ---------------------------------------------------------------------------

/// Of two models with one id the later stays, with its own window.
pub proof fn the_later_model_stays(m: Map<Seq<char>, ModelEntry>, data: Seq<ApiModel>, x: ApiModel)
    ensures
        with_models(m, data.push(x)).dom().contains(x.id@),
        with_models(m, data.push(x))[x.id@].max_input_tokens == x.max_input_tokens,
        forall|k: Seq<char>|
            k != x.id@ && with_models(m, data).dom().contains(k) ==> #[trigger] with_models(
                m,
                data.push(x),
            )[k] == with_models(m, data)[k],
{
    assert(data.push(x).drop_last() =~= data);
}

/// What was fetched is cached under the time of the fetch, and told by its source.
pub proof fn fetches_are_told_by_their_source(
    mode: &CredentialMode,
    models: TextMap<ModelEntry>,
    at: Timestamp,
    r: FetchOutcome,
)
    requires
        call_ensures(finish_fetch, (mode, models, at), r),
    ensures
        r.cache.models@ == models@,
        r.cache.fetched_at == at,
        r.cache.schema_version == 1,
        *mode is EnvKey ==> r.credential_source@ == "ANTHROPIC_API_KEY (env)"@,
        *mode is DefaultAuth ==> r.credential_source@ == "ant default auth"@,
        *mode matches CredentialMode::Profile(name) ==> r.credential_source@ == "ant profile '"@
            + name@ + "'"@,
{
}

/// A profile that is configured goes before a key in the environment, and that before the
/// default.
pub proof fn credentials_in_their_order(config: &AntConfig, key: bool, r: CredentialMode)
    requires
        call_ensures(CredentialMode::resolve, (config, key), r),
    ensures
        config.profile@.len() > 0 ==> (r matches CredentialMode::Profile(p) && p@
            == config.profile@),
        r is EnvKey <==> config.profile@.len() == 0 && key,
        r is DefaultAuth <==> config.profile@.len() == 0 && !key,
{
}

/// Only a profile changes the environment: it is set, and the key is taken out; only of a
/// profile is the user told.
pub proof fn only_profiles_change_the_environment(
    mode: &CredentialMode,
    env: AntEnv,
    note: Option<String>,
)
    requires
        call_ensures(ant_environment, (mode,), env),
        call_ensures(profile_note, (mode,), note),
    ensures
        env.remove_key <==> *mode is Profile,
        env.profile is Some <==> *mode is Profile,
        note is Some <==> *mode is Profile,
        *mode matches CredentialMode::Profile(name) ==> env.profile == Some(name),
{
}

/// The tool goes before `curl`, and `curl` serves only a key in the environment.
pub proof fn the_tool_goes_first(
    mode: &CredentialMode,
    ant: bool,
    curl: bool,
    r: Result<Transport>,
)
    requires
        call_ensures(choose_transport, (mode, ant, curl), r),
    ensures
        r matches Ok(t) ==> (t == Transport::Ant <==> ant) && (t == Transport::Curl ==> curl
            && *mode is EnvKey),
        r is Ok <==> ant || (curl && *mode is EnvKey),
{
}

/// A cache of another format is not used; one of this format is used as it is.
pub proof fn other_formats_are_not_used(
    m: ModelsCache,
    u: UsageCache,
    r: Option<ModelsCache>,
    s: Option<UsageCache>,
)
    requires
        call_ensures(ModelsCache::accepted, (m,), r),
        call_ensures(UsageCache::accepted, (u,), s),
    ensures
        r is Some <==> m.schema_version == 1,
        r matches Some(x) ==> x == m,
        s is Some <==> u.schema_version == 1,
        s matches Some(x) ==> x == u,
{
}

/// The caches lie below the user's cache directory, each account's usage in a file of its
/// name.
pub proof fn caches_lie_in_their_places(dir: Seq<char>, account: Seq<char>)
    requires
        dir.len() > 0,
        dir.last() != '/',
        account.len() > 0,
        account[0] != '/',
    ensures
        models_path(dir) == dir + "/claudia-statusline/ant/models.json"@,
        usage_dir(dir) == dir + "/claudia-statusline/ant/usage"@,
        usage_path(dir, account) == dir + "/claudia-statusline/ant/usage/"@ + account + ".json"@,
{
    reveal_strlit("claudia-statusline");
    reveal_strlit("ant");
    reveal_strlit("models.json");
    reveal_strlit("usage");
    reveal_strlit(".json");
    reveal_strlit("/");
    reveal_strlit("/claudia-statusline/ant/models.json");
    reveal_strlit("/claudia-statusline/ant/usage");
    reveal_strlit("/claudia-statusline/ant/usage/");
    let a = dir + "/"@ + "claudia-statusline"@;
    assert(crate::paths::path_below(dir, "claudia-statusline"@) == a);
    assert(a.last() == 'e');
    let b = a + "/"@ + "ant"@;
    assert(ant_dir(dir) == b);
    assert(b.last() == 't');
    assert(models_path(dir) =~= dir + "/claudia-statusline/ant/models.json"@);
    let c = b + "/"@ + "usage"@;
    assert(usage_dir(dir) == c);
    assert(c =~= dir + "/claudia-statusline/ant/usage"@);
    assert(c.last() == 'e');
    assert((account + ".json"@)[0] == account[0]);
    assert(usage_path(dir, account) =~= dir + "/claudia-statusline/ant/usage/"@ + account
        + ".json"@);
}

/// A name is accepted exactly where it is not empty, is no dot or two, takes no more bytes
/// than allowed, and is made of letters, digits, dots, dashes and underscores.
pub proof fn names_that_are_accepted(name: Seq<char>)
    ensures
        name_refusal(name) is None <==> name.len() > 0 && byte_count(name) <= 128 && name != "."@
            && name != ".."@ && (forall|i: int|
            0 <= i < name.len() ==> ('0' <= (#[trigger] name[i]) <= '9' || 'A' <= name[i] <= 'Z'
                || 'a' <= name[i] <= 'z' || name[i] == '.' || name[i] == '-' || name[i] == '_')),
        is_safe_name(name) <==> name_refusal(name) is None,
{
}

/// A page token is accepted exactly where it is not empty, takes no more bytes than allowed,
/// does not begin with a dash, and is made of letters, digits, dashes, underscores, dots and
/// colons.
pub proof fn tokens_that_are_accepted(t: Seq<char>)
    ensures
        token_refusal(t) is None <==> t.len() > 0 && byte_count(t) <= 256 && t[0] != '-' && (forall|i: int|
            0 <= i < t.len() ==> ('0' <= (#[trigger] t[i]) <= '9' || 'A' <= t[i] <= 'Z' || 'a'
                <= t[i] <= 'z' || t[i] == '-' || t[i] == '_' || t[i] == '.' || t[i] == ':')),
{
}

/// A key command is its first word, with the rest as arguments.
pub proof fn the_first_word_is_the_program(
    words: &Vec<String>,
    r: Result<(String, Vec<String>)>,
    i: int,
)
    requires
        call_ensures(key_command, (words,), r),
    ensures
        r is Ok <==> words@.len() > 0,
        r matches Ok(c) ==> c.0@ == words@[0]@ && c.1@.len() == words@.len() - 1 && (0 <= i
            < c.1@.len() ==> c.1@[i]@ == words@[i + 1]@),
{
    match r {
        Ok(c) => {
            assert(views(c.1@).len() == views(words@).skip(1).len());
            if 0 <= i < c.1@.len() {
                assert(views(c.1@)[i] == views(words@).skip(1)[i]);
            }
        },
        Err(_) => {},
    }
}

// ---------------------------------------------------------------------------
// Ages
// ---------------------------------------------------------------------------

/// A number and a unit are read as so many seconds: a unit of seconds, minutes, hours or
/// days.
pub proof fn ages_are_read_in_their_units(n: u64)
    ensures
        read_max_age(dec(n as nat) + "s"@) == MaxAge::Seconds(n),
        n * 60 <= u64::MAX ==> read_max_age(dec(n as nat) + "m"@) == MaxAge::Seconds((n * 60) as u64),
        n * 3600 <= u64::MAX ==> read_max_age(dec(n as nat) + "h"@) == MaxAge::Seconds(
            (n * 3600) as u64,
        ),
        n * 86_400 <= u64::MAX ==> read_max_age(dec(n as nat) + "d"@) == MaxAge::Seconds(
            (n * 86_400) as u64,
        ),
        read_max_age(dec(n as nat)) == MaxAge::NoUnit,
{
    reveal_strlit("s");
    reveal_strlit("m");
    reveal_strlit("h");
    reveal_strlit("d");
    assert("s"@[0] == 's' && "m"@[0] == 'm' && "h"@[0] == 'h' && "d"@[0] == 'd');
    lemma_read_age(n, "s"@);
    lemma_read_age(n, "m"@);
    lemma_read_age(n, "h"@);
    lemma_read_age(n, "d"@);
    let d = dec(n as nat);
    crate::laws::numbers::numbers_are_written_in_decimal(n as nat);
    lemma_digits_run(d, Seq::empty());
    assert(d + Seq::<char>::empty() =~= d);
    lemma_not_trimmed(d);
}

proof fn lemma_not_trimmed(s: Seq<char>)
    requires
        s.len() > 0,
        !crate::text::is_space(s[0]),
        !crate::text::is_space(s.last()),
    ensures
        trimmed(s) == s,
{
}

proof fn lemma_digits_run(d: Seq<char>, rest: Seq<char>)
    requires
        forall|i: int| 0 <= i < d.len() ==> '0' <= #[trigger] d[i] <= '9',
        rest.len() > 0 ==> !('0' <= rest[0] <= '9'),
    ensures
        digit_run(d + rest) == d.len(),
    decreases d.len(),
{
    if d.len() > 0 {
        assert((d + rest).skip(1) =~= d.skip(1) + rest);
        assert((d + rest)[0] == d[0]);
        lemma_digits_run(d.skip(1), rest);
    } else {
        assert(d + rest =~= rest);
    }
}

proof fn lemma_read_age(n: u64, unit: Seq<char>)
    requires
        unit.len() == 1,
        !('0' <= unit[0] <= '9'),
        !crate::text::is_space(unit[0]),
    ensures
        read_max_age(dec(n as nat) + unit) == match crate::ant::duration::unit_seconds(unit) {
            Some(u) => if n * u <= u64::MAX {
                MaxAge::Seconds((n * u) as u64)
            } else {
                MaxAge::BadNumber
            },
            None => MaxAge::BadUnit(unit),
        },
{
    let d = dec(n as nat);
    let s = d + unit;
    crate::laws::numbers::numbers_are_written_in_decimal(n as nat);
    crate::text::decimal_reads_back(n);
    lemma_digits_run(d, unit);
    assert(s[0] == d[0]);
    assert(s.last() == unit[0]);
    lemma_not_trimmed(s);
    assert(s.take(d.len() as int) =~= d);
    assert(s.skip(d.len() as int) =~= unit);
}

/// An age is told in its largest unit, cut off: minutes, hours or days; below a minute it
/// says so.
pub proof fn ages_are_told_in_their_largest_unit(days: nat, hours: nat, minutes: nat, seconds: nat)
    requires
        hours < 24,
        minutes < 60,
        seconds < 60,
    ensures
        ({
            let text = age_text((days * 86_400 + hours * 3_600 + minutes * 60 + seconds) as int);
            &&& days > 0 ==> text == dec(days) + "d"@
            &&& days == 0 && hours > 0 ==> text == dec(hours) + "h"@
            &&& days == 0 && hours == 0 && minutes > 0 ==> text == dec(minutes) + "m"@
            &&& days == 0 && hours == 0 && minutes == 0 ==> text == "<1m"@
        }),
{
}

/// A cache is stale from its threshold on, and not before; one without a threshold that can
/// be read never is, nor one from ahead of now.
pub proof fn caches_are_stale_from_the_threshold_on(age: int, n: u64, other: Seq<char>)
    requires
        n * 60 <= u64::MAX,
        !(read_max_age(other) is Seconds),
    ensures
        age >= 0 ==> (past_threshold(age, dec(n as nat) + "m"@) <==> age >= n * 60),
        age < 0 ==> !past_threshold(age, dec(n as nat) + "m"@),
        !past_threshold(age, other),
{
    ages_are_read_in_their_units(n);
}

/// A fetch is left out only where there is a cache younger than asked for; one from ahead
/// of now counts as new.
pub proof fn fetches_are_left_out_for_young_caches(max: u64, age: i64)
    ensures
        age >= 0 ==> (skips_fetch(Some(max), Some(age)) <==> age < max),
        age < 0 ==> (skips_fetch(Some(max), Some(age)) <==> max > 0),
        !skips_fetch(None, Some(age)),
        !skips_fetch(Some(max), None),
{
}

// ---------------------------------------------------------------------------
// Keys
// ---------------------------------------------------------------------------

/// A text holds a key where the beginning of one is followed by a character that keys are
/// made of, wherever that stands.
pub proof fn keys_are_found_anywhere(before: Seq<char>, c: char, after: Seq<char>)
    requires
        '0' <= c <= '9' || 'A' <= c <= 'Z' || 'a' <= c <= 'z' || c == '_' || c == '-',
    ensures
        holds_key(before + "sk-ant-"@ + seq![c] + after),
{
    reveal_strlit("sk-ant-");
    let s = before + "sk-ant-"@ + seq![c] + after;
    assert(s.subrange(before.len() as int, before.len() as int + 7) =~= "sk-ant-"@);
    assert(crate::text::stands_at(s, "sk-ant-"@, before.len() as int));
    assert(s[before.len() as int + 7] == c);
}

/// A text in which the beginning of a key stands nowhere holds none.
pub proof fn texts_without_a_beginning_hold_no_key(s: Seq<char>)
    requires
        !is_found(s, "sk-ant-"@),
    ensures
        !holds_key(s),
{
    if holds_key(s) {
        reveal_strlit("sk-ant-");
        let i = choose|i: int|
            #[trigger] crate::text::stands_at(s, "sk-ant-"@, i) && i + 7 < s.len() && is_key_char(
                s[i + 7],
            );
        assert(is_found_at(s, "sk-ant-"@, i));
    }
}

/// Each file that could be read is reported once, under its path, in order; one that could
/// not be read is not.
pub proof fn each_file_is_reported(files: Seq<Artifact>, more: Artifact)
    ensures
        more.text is None ==> findings_of(files.push(more)) == findings_of(files),
        more.text matches Some(t) ==> findings_of(files.push(more)) == findings_of(files).push(
            (more.path@, holds_key(t@)),
        ),
{
    assert(files.push(more).drop_last() =~= files);
}

/// `curl` is told to read its settings from its input, how long to wait, and to say what
/// failed; for reports it is told to append the status. No argument depends on a key.
pub proof fn curl_is_told_what_to_do()
    ensures
        ({
            let a = curl_argument_list();
            &&& a.len() == 9
            &&& a[0] == "--config"@ && a[1] == "-"@
            &&& a[2] == "--connect-timeout"@ && a[3] == "10"@
            &&& a[4] == "--max-time"@ && a[5] == "30"@
            &&& a[6] == "--fail-with-body"@
            &&& a[7] == "--silent"@
            &&& a[8] == "--show-error"@
            &&& report_argument_list() == a + seq!["--write-out"@, "\n%{http_code}"@]
        }),
{
}

/// A diagnostic of one line that mentions no key is shown as it is, where it is not too
/// long, and cut at the bound where it is.
pub proof fn harmless_diagnostics_are_shown(s: Seq<char>)
    requires
        s.len() > 0,
        !mentions_key(s),
        is_free_of(s, '\n'),
        !crate::text::is_space(s[0]),
        !crate::text::is_space(s.last()),
    ensures
        s.len() <= 512 ==> bounded_by_chars(s) == s,
        s.len() > 512 ==> bounded_by_chars(s) == s.take(512) + "…"@,
        byte_count(s) <= 512 ==> bounded_by_bytes(s) == s,
{
    lemma_one_line(s, 0);
    assert(s.subrange(0, s.len() as int) =~= s);
    let lines = crate::text::lines_of(s);
    assert(lines =~= seq![s]);
    reveal_with_fuel(crate::ant::diagnostics::harmless, 2);
    assert(lines.drop_last() =~= Seq::empty());
    assert(crate::ant::diagnostics::harmless(lines) =~= seq![s]);
    assert(crate::text::joined(seq![s], " "@) == s);
    lemma_not_trimmed(s);
}

proof fn lemma_one_line(s: Seq<char>, i: int)
    requires
        is_free_of(s, '\n'),
        0 <= i <= s.len(),
    ensures
        crate::text::next_newline(s, i) == s.len(),
    decreases s.len() - i,
{
    if i < s.len() {
        lemma_one_line(s, i + 1);
    }
}

/// Each refusal of a name says why.
pub proof fn refusals_say_why(name: Seq<char>)
    ensures
        name.len() == 0 ==> name_refusal(name) == Some("ant account name must not be empty"@),
        name.len() > 0 && byte_count(name) > 128 ==> name_refusal(name) == Some(
            "ant account name exceeds 128 chars"@,
        ),
        name == "."@ || name == ".."@ ==> name_refusal(name) == Some(
            "ant account name must not be '.' or '..'"@,
        ),
{
    reveal_strlit(".");
    reveal_strlit("..");
    assert("."@.len() == 1 && ".."@.len() == 2);
    reveal_with_fuel(byte_count, 3);
}

/// Each refusal of a page token says why.
pub proof fn refused_tokens_say_why(t: Seq<char>)
    ensures
        t.len() == 0 || byte_count(t) > 256 ==> token_refusal(t) == Some(
            "Admin API returned an out-of-range pagination token; aborting fetch"@,
        ),
        0 < t.len() && byte_count(t) <= 256 && t[0] == '-' ==> token_refusal(t) == Some(
            "Admin API returned a flag-like pagination token; aborting fetch"@,
        ),
{
}

/// A key command that failed says with which code, and what it printed.
pub proof fn failed_key_commands_say_why(code: int, stderr: Seq<char>)
    ensures
        begins_with(key_failure_text(code, stderr), "admin_key_command failed (exit "@ + dec_int(code)),
        ends_in(key_failure_text(code, stderr), "): "@ + stderr),
{
}

/// The key is what its command prints, without the spaces around it; a command that failed,
/// or that printed none, is a failure.
pub proof fn keys_are_what_is_printed(
    success: bool,
    code: i32,
    stdout: &[u8],
    stderr: &[u8],
    r: Result<String>,
)
    requires
        call_ensures(resolve_admin_key, (success, code, stdout, stderr), r),
    ensures
        r is Ok <==> success && trimmed(lossy_text(stdout@)).len() > 0,
        r matches Ok(k) ==> k@ == trimmed(lossy_text(stdout@)),
        !success ==> (r matches Err(e) && e.text() == key_failure_text(
            code as int,
            bounded_by_chars(lossy_text(stderr@)),
        )),
        success && r is Err ==> (r matches Err(e) && e.text()
            == "admin_key_command produced no key on stdout"@),
{
}

/// What `curl` printed is the body and then the status; a failure names its code, the
/// status, what was printed as an error, and the body.
pub proof fn replies_are_body_and_status(
    success: bool,
    code: i32,
    stdout: &[u8],
    stderr: &[u8],
    r: Result<(Vec<u8>, u16)>,
)
    requires
        call_ensures(curl_get, (success, code, stdout, stderr), r),
    ensures
        success <==> r is Ok,
        r matches Ok(b) ==> (b.0@, b.1) == body_and_status(stdout@),
        r matches Err(e) ==> e.text() == report_failure_text(
            code as int,
            body_and_status(stdout@).1 as nat,
            bounded_by_chars(lossy_text(stderr@)),
            bounded_by_chars(lossy_text(body_and_status(stdout@).0)),
        ),
{
}

/// An age that cannot be read is refused, and the refusal shows what was given.
pub proof fn unreadable_ages_are_refused(s: &str, r: Result<u64>)
    requires
        call_ensures(parse_max_age, (s,), r),
    ensures
        read_max_age(s@) matches MaxAge::Seconds(n) ==> (r matches Ok(m) && m == n),
        !(read_max_age(s@) is Seconds) ==> r is Err,
        read_max_age(s@) is NoUnit ==> (r matches Err(e) && e.text() == "invalid --max-age '"@
            + trimmed(s@) + "' (need a unit: s/m/h/d)"@),
        read_max_age(s@) is BadNumber ==> (r matches Err(e) && e.text()
            == "invalid --max-age number in '"@ + trimmed(s@) + "'"@),
        read_max_age(s@) matches MaxAge::BadUnit(u) ==> (r matches Err(e) && e.text()
            == "invalid --max-age unit '"@ + u + "' (use s/m/h/d)"@),
{
}

/// Where a cache lies depends on the directory that is given; without one there is no place
/// for it, and none for an account whose name is refused.
pub proof fn caches_need_a_directory(
    dir: Option<&str>,
    account: &str,
    models: Result<String>,
    usage: Result<String>,
)
    requires
        call_ensures(models_cache_path, (dir,), models),
        call_ensures(usage_cache_path, (dir, account), usage),
    ensures
        models is Ok <==> dir is Some,
        models matches Ok(p) ==> p@ == models_path(dir->Some_0@),
        models matches Err(e) ==> e.text() == "Cannot determine cache directory"@,
        usage matches Ok(p) ==> dir is Some && p@ == usage_path(dir->Some_0@, account@),
        name_refusal(account@) matches Some(m) ==> (usage matches Err(e) && e.text() == m),
        dir is None ==> usage is Err,
{
}

/// A line mentions a key where it holds the beginning of one, or the name of the header that
/// carries it, in any case and wherever it stands; no other line does.
pub proof fn lines_that_mention_a_key(before: Seq<char>, after: Seq<char>, s: Seq<char>)
    ensures
        mentions_key(before + "sk-ant-"@ + after),
        mentions_key(before + "SK-ANT-"@ + after),
        mentions_key(before + "api-key"@ + after),
        mentions_key(before + "x-api-key"@ + after),
        !is_found(lowered(s), "sk-ant-"@) && !is_found(lowered(s), "api-key"@) && !is_found(
            lowered(s),
            "x-api-key"@,
        ) ==> !mentions_key(s),
{
    reveal_strlit("sk-ant-");
    reveal_strlit("SK-ANT-");
    reveal_strlit("api-key");
    reveal_strlit("x-api-key");
    lemma_found_in_lower(before, "sk-ant-"@, "sk-ant-"@, after);
    lemma_found_in_lower(before, "SK-ANT-"@, "sk-ant-"@, after);
    lemma_found_in_lower(before, "api-key"@, "api-key"@, after);
    lemma_found_in_lower(before, "x-api-key"@, "x-api-key"@, after);
    if mentions_key(s) {
        let l = lowered(s);
        let p = if has_part(l, "sk-ant-"@) {
            "sk-ant-"@
        } else if has_part(l, "x-api-key"@) {
            "x-api-key"@
        } else {
            "api-key"@
        };
        let i = choose|i: int| stands_at(l, p, i);
        assert(is_found_at(l, p, i));
    }
}

proof fn lemma_found_in_lower(before: Seq<char>, p: Seq<char>, low: Seq<char>, after: Seq<char>)
    requires
        low =~= lowered(p),
    ensures
        has_part(lowered(before + p + after), low),
{
    let l = lowered(before + p + after);
    let n = before.len() as int;
    assert(l.subrange(n, n + low.len()) =~= low);
    assert(stands_at(l, low, n));
}

/// A line that mentions a key is not shown.
pub proof fn lines_with_a_key_are_not_shown(s: Seq<char>)
    requires
        s.len() > 0,
        is_free_of(s, '\n'),
        mentions_key(s),
    ensures
        bounded_by_chars(s) == "(no diagnostic output)"@,
        bounded_by_bytes(s) == "(no diagnostic output)"@,
{
    lemma_one_line(s, 0);
    assert(s.subrange(0, s.len() as int) =~= s);
    let lines = crate::text::lines_of(s);
    assert(lines =~= seq![s]);
    reveal_with_fuel(crate::ant::diagnostics::harmless, 2);
    assert(lines.drop_last() =~= Seq::empty());
    assert(crate::ant::diagnostics::harmless(lines) =~= Seq::empty());
    assert(crate::text::joined(Seq::empty(), " "@).len() == 0);
    assert(crate::ant::diagnostics::one_line(s).len() == 0);
    assert(byte_count(crate::ant::diagnostics::one_line(s)) == 0);
}

/// Lines of a diagnostic that mention no key are shown in one, in their order with a space
/// between them; one that mentions a key is left out.
pub proof fn diagnostics_are_shown_in_one_line(a: Seq<char>, b: Seq<char>)
    requires
        a.len() > 0,
        b.len() > 0,
        is_free_of(a, '\n') && is_free_of(a, '\r'),
        is_free_of(b, '\n'),
        !crate::text::is_space(a[0]) && !crate::text::is_space(a.last()),
        !crate::text::is_space(b[0]) && !crate::text::is_space(b.last()),
        a.len() + b.len() < 512,
    ensures
        ({
            let s = a + seq!['\n'] + b;
            &&& !mentions_key(a) && !mentions_key(b) ==> bounded_by_chars(s) == a + " "@ + b
            &&& mentions_key(a) && !mentions_key(b) ==> bounded_by_chars(s) == b
            &&& !mentions_key(a) && mentions_key(b) ==> bounded_by_chars(s) == a
            &&& mentions_key(a) && mentions_key(b) ==> bounded_by_chars(s)
                == "(no diagnostic output)"@
        }),
{
    let s = a + seq!['\n'] + b;
    assert(a.last() != '\r') by {
        assert(a[a.len() - 1] != '\r');
    }
    texts_are_taken_apart_at_line_ends(a, b);
    texts_are_taken_apart_at_line_ends(b, Seq::empty());
    let lines = crate::text::lines_of(s);
    assert(lines =~= seq![a, b]);
    reveal_with_fuel(crate::ant::diagnostics::harmless, 3);
    assert(lines.drop_last() =~= seq![a]);
    assert(seq![a].drop_last() =~= Seq::empty());
    let kept = crate::ant::diagnostics::harmless(lines);
    reveal_strlit(" ");
    reveal_with_fuel(crate::text::joined, 3);
    if !mentions_key(a) && !mentions_key(b) {
        assert(kept =~= seq![a, b]);
        assert(kept.drop_last() =~= seq![a]);
        assert(crate::text::joined(kept, " "@) =~= a + " "@ + b);
        lemma_not_trimmed(a + " "@ + b);
    } else if !mentions_key(a) {
        assert(kept =~= seq![a]);
        assert(crate::text::joined(kept, " "@) =~= a);
        lemma_not_trimmed(a);
    } else if !mentions_key(b) {
        assert(kept =~= seq![b]);
        assert(crate::text::joined(kept, " "@) =~= b);
        lemma_not_trimmed(b);
    } else {
        assert(kept =~= Seq::empty());
    }
}

/// A last line that is not three digits is no status: all of the output is the body.
pub proof fn other_lines_are_no_status(body: Seq<u8>, tail: Seq<u8>, i: int)
    requires
        forall|k: int| 0 <= k < tail.len() ==> tail[k] != 10,
        tail.len() != 3 || (0 <= i < 3 && !(48 <= tail[i] <= 57)),
    ensures
        body_and_status(body + seq![10u8] + tail) == (body + seq![10u8] + tail, 0u16),
{
    let out = body + seq![10u8] + tail;
    lemma_last_line(body, tail);
    assert(out.skip(body.len() + 1int) =~= tail);
    if tail.len() == 3 {
        assert(!crate::ant::usage::is_digit_byte(tail[i]));
    }
}

proof fn lemma_last_line(body: Seq<u8>, tail: Seq<u8>)
    requires
        forall|k: int| 0 <= k < tail.len() ==> tail[k] != 10,
    ensures
        last_newline(body + seq![10u8] + tail) == body.len(),
    decreases tail.len(),
{
    let out = body + seq![10u8] + tail;
    if tail.len() > 0 {
        assert(out.last() == tail[tail.len() - 1]);
        assert(out.drop_last() =~= body + seq![10u8] + tail.drop_last());
        lemma_last_line(body, tail.drop_last());
    } else {
        assert(out.last() == 10);
    }
}

} // verus!
