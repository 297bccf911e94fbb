//! Fetching model metadata: what to run, what to hand it, what to make of the outcome.
//!
//! The key reaches a child process through its environment or its standard input,
//! never through its arguments.

use crate::ant::cache::{ModelEntry, ModelsCache, MODELS_CACHE_SCHEMA_VERSION};
use crate::ant::config::AntConfig;
use crate::ant::diagnostics::{
    bounded_by_bytes, from_utf8_lossy, lossy_text, sanitize_to_bytes,
};
use crate::clock::Timestamp;
use crate::error::{failed_with, Result, StatuslineError};
use crate::text::{
    concat2, concat3, concat4, concat5, dec, dec_int, i64_text, opt_str, u64_text, views,
};
use crate::text_map::TextMap;
use vstd::prelude::*;
use vstd::string::*;

verus! {

/// Most models that the API puts on a page.
pub const PAGE_LIMIT: u32 = 1000;

/// Most pages that one fetch reads.
pub const MAX_PAGES: usize = 1000;

/// How a fetch is authorised. Holds a label, never a key.
#[derive(Debug)]
pub enum CredentialMode {
    /// A named profile of the command line tool.
    Profile(String),
    /// The key in the environment.
    EnvKey,
    /// The tool's own default.
    DefaultAuth,
}

impl CredentialMode {
    /// The label's text.
    pub open spec fn label_text(self) -> Seq<char> {
        match self {
            CredentialMode::Profile(name) => "ant profile '"@ + name@ + "'"@,
            CredentialMode::EnvKey => "ANTHROPIC_API_KEY (env)"@,
            CredentialMode::DefaultAuth => "ant default auth"@,
        }
    }

    /// What the user is told of the credential's source.
    pub fn label(&self) -> (r: String)
        ensures
            r@ == self.label_text(),
    {
        match self {
            CredentialMode::Profile(name) => concat3("ant profile '", name.as_str(), "'"),
            CredentialMode::EnvKey => "ANTHROPIC_API_KEY (env)".to_owned(),
            CredentialMode::DefaultAuth => "ant default auth".to_owned(),
        }
    }

    /// A configured profile comes first, then a key in the environment, then the default.
    pub fn resolve(cfg: &AntConfig, key_in_env: bool) -> (r: CredentialMode)
        ensures
            cfg.profile@.len() > 0 ==> r == CredentialMode::Profile(cfg.profile),
            cfg.profile@.len() == 0 && key_in_env ==> r is EnvKey,
            cfg.profile@.len() == 0 && !key_in_env ==> r is DefaultAuth,
    {
        if !cfg.profile.as_str().is_empty() {
            CredentialMode::Profile(cfg.profile.clone())
        } else if key_in_env {
            CredentialMode::EnvKey
        } else {
            CredentialMode::DefaultAuth
        }
    }
}

/// What the user is told before a profile is used.
pub fn profile_note(mode: &CredentialMode) -> (r: Option<String>)
    ensures
        match *mode {
            CredentialMode::Profile(name) => r matches Some(s) && s@
                == "note: selecting ant profile '"@ + name@
                + "' is best-effort (ANT_PROFILE); verify your ant version honors it"@,
            _ => r is None,
        },
{
    match mode {
        CredentialMode::Profile(name) => Some(
            concat3(
                "note: selecting ant profile '",
                name.as_str(),
                "' is best-effort (ANT_PROFILE); verify your ant version honors it",
            ),
        ),
        _ => None,
    }
}

/// The program that fetches.
#[derive(Debug, Clone, Copy, PartialEq, Eq, Structural)]
pub enum Transport {
    Ant,
    Curl,
}

/// Choose the program once, before the first page. Only a key in the environment can be
/// handed to `curl`.
pub fn choose_transport(mode: &CredentialMode, ant_on_path: bool, curl_on_path: bool) -> (r: Result<
    Transport,
>)
    ensures
        ant_on_path ==> r == Ok::<Transport, StatuslineError>(Transport::Ant),
        !ant_on_path && !(mode is EnvKey) ==> failed_with(
            r,
            "no credential source available: `ant` is not installed and no ANTHROPIC_API_KEY is set (set [ant].profile with `ant` installed, export ANTHROPIC_API_KEY, or run `ant auth`)"@,
        ),
        !ant_on_path && mode is EnvKey && curl_on_path ==> r == Ok::<Transport, StatuslineError>(
            Transport::Curl,
        ),
        !ant_on_path && mode is EnvKey && !curl_on_path ==> failed_with(
            r,
            "no fetch tool available: neither `ant` nor `curl` is installed (install one to run `ant sync-models`)"@,
        ),
{
    if ant_on_path {
        return Ok(Transport::Ant);
    }
    match mode {
        CredentialMode::EnvKey => {
            if curl_on_path {
                Ok(Transport::Curl)
            } else {
                Err(
                    StatuslineError::other(
                        "no fetch tool available: neither `ant` nor `curl` is installed (install one to run `ant sync-models`)",
                    ),
                )
            }
        },
        _ => Err(
            StatuslineError::other(
                "no credential source available: `ant` is not installed and no ANTHROPIC_API_KEY is set (set [ant].profile with `ant` installed, export ANTHROPIC_API_KEY, or run `ant auth`)",
            ),
        ),
    }
}

/// One model as the API lists it.
#[derive(Debug)]
pub struct ApiModel {
    pub id: String,
    /// 0 where the API leaves it out.
    pub max_input_tokens: u64,
}

/// One page of the API's list.
#[derive(Debug)]
pub struct ModelsPage {
    pub data: Vec<ApiModel>,
    pub has_more: bool,
    pub last_id: Option<String>,
}

/// The models of a list added to a map; of two with one id, the later stays.
pub open spec fn with_models(m: Map<Seq<char>, ModelEntry>, data: Seq<ApiModel>) -> Map<
    Seq<char>,
    ModelEntry,
>
    decreases data.len(),
{
    if data.len() == 0 {
        m
    } else {
        with_models(m, data.drop_last()).insert(
            data.last().id@,
            ModelEntry { max_input_tokens: data.last().max_input_tokens },
        )
    }
}

/// A fetch in progress.
#[derive(Debug)]
pub struct ModelsFetch {
    pub models: TextMap<ModelEntry>,
    /// Where the next page begins.
    pub after_id: Option<String>,
    /// How many pages have been read.
    pub pages: usize,
}

/// Whether another page follows one.
pub open spec fn another_page(page: ModelsPage, pages_read: nat) -> bool {
    page.has_more && page.last_id is Some && pages_read < MAX_PAGES
}

impl ModelsFetch {
    pub fn start() -> (r: ModelsFetch)
        ensures
            r.models@ == Map::<Seq<char>, ModelEntry>::empty(),
            r.after_id is None,
            r.pages == 0,
    {
        ModelsFetch { models: TextMap::new(), after_id: None, pages: 0 }
    }

    /// Take in a page. Says whether another one is to be fetched.
    pub fn accept(&mut self, page: &ModelsPage) -> (r: bool)
        requires
            old(self).pages < MAX_PAGES,
        ensures
            final(self).models@ == with_models(old(self).models@, page.data@),
            final(self).pages == old(self).pages + 1,
            r == another_page(*page, final(self).pages as nat),
            final(self).after_id == (if page.has_more && page.last_id is Some {
                page.last_id
            } else {
                old(self).after_id
            }),
    {
        let ghost m0 = self.models@;
        let mut i: usize = 0;
        while i < page.data.len()
            invariant
                i <= page.data@.len(),
                self.models@ == with_models(m0, page.data@.take(i as int)),
                self.pages == old(self).pages,
                self.after_id == old(self).after_id,
            decreases page.data@.len() - i,
        {
            proof {
                assert(page.data@.take(i + 1).drop_last() =~= page.data@.take(i as int));
                assert(page.data@.take(i + 1).last() == page.data@[i as int]);
            }
            let m = &page.data[i];
            self.models.insert(m.id.clone(), ModelEntry { max_input_tokens: m.max_input_tokens });
            i += 1;
        }
        proof {
            assert(page.data@.take(page.data@.len() as int) =~= page.data@);
        }
        self.pages = self.pages + 1;
        if page.has_more {
            match &page.last_id {
                Some(id) => {
                    self.after_id = Some(id.clone());
                    self.pages < MAX_PAGES
                },
                None => false,
            }
        } else {
            false
        }
    }
}

/// Reading two pages is reading one page with both lists.
pub proof fn pages_accumulate(
    m: Map<Seq<char>, ModelEntry>,
    a: Seq<ApiModel>,
    b: Seq<ApiModel>,
)
    ensures
        with_models(with_models(m, a), b) == with_models(m, a + b),
    decreases b.len(),
{
    if b.len() == 0 {
        assert(a + b =~= a);
    } else {
        pages_accumulate(m, a, b.drop_last());
        assert((a + b).drop_last() =~= a + b.drop_last());
        assert((a + b).last() == b.last());
    }
}

/// Every model of every page is in the map; nothing that was there is lost.
pub proof fn no_model_is_lost(m: Map<Seq<char>, ModelEntry>, data: Seq<ApiModel>)
    ensures
        forall|k: Seq<char>| m.dom().contains(k) ==> #[trigger] with_models(m, data).dom().contains(k),
        forall|i: int|
            0 <= i < data.len() ==> with_models(m, data).dom().contains((#[trigger] data[i]).id@),
    decreases data.len(),
{
    if data.len() > 0 {
        no_model_is_lost(m, data.drop_last());
        assert forall|k: Seq<char>| m.dom().contains(k) implies #[trigger] with_models(
            m,
            data,
        ).dom().contains(k) by {
            assert(with_models(m, data.drop_last()).dom().contains(k));
        }
        assert forall|i: int| 0 <= i < data.len() implies with_models(m, data).dom().contains(
            (#[trigger] data[i]).id@,
        ) by {
            if i < data.len() - 1 {
                assert(data.drop_last()[i] == data[i]);
            }
        }
    }
}

// ---------------------------------------------------------------------------
// Running the tools
// ---------------------------------------------------------------------------

/// The arguments for the command line tool, for a page of at most `limit` models.
pub open spec fn ant_argument_list(limit: u32, after_id: Option<Seq<char>>) -> Seq<Seq<char>> {
    let fixed = seq!["models"@, "list"@, "--raw-output"@, "--limit"@, dec(limit as nat)];
    match after_id {
        Some(id) => fixed + seq!["--after-id"@, id],
        None => fixed,
    }
}

/// The arguments for the command line tool: none of them is a key.
pub fn ant_arguments(limit: u32, after_id: Option<&str>) -> (r: Vec<String>)
    ensures
        views(r@) == ant_argument_list(limit, opt_str(after_id)),
{
    let mut out: Vec<String> = Vec::new();
    out.push("models".to_owned());
    out.push("list".to_owned());
    out.push("--raw-output".to_owned());
    out.push("--limit".to_owned());
    out.push(u64_text(limit as u64));
    match after_id {
        Some(id) => {
            out.push("--after-id".to_owned());
            out.push(id.to_owned());
        },
        None => {},
    }
    proof {
        assert(views(out@) =~= ant_argument_list(limit, opt_str(after_id)));
    }
    out
}

/// How the tool's environment differs from the ambient one.
#[derive(Debug)]
pub struct AntEnv {
    /// Value for `ANT_PROFILE`, where it is to be set.
    pub profile: Option<String>,
    /// Whether `ANTHROPIC_API_KEY` is to be taken out.
    pub remove_key: bool,
}

/// A named profile is set, and the key that would shadow it is taken out; else the
/// environment stays as it is.
pub fn ant_environment(mode: &CredentialMode) -> (r: AntEnv)
    ensures
        match *mode {
            CredentialMode::Profile(name) => r.profile == Some(name) && r.remove_key,
            _ => r.profile is None && !r.remove_key,
        },
{
    match mode {
        CredentialMode::Profile(name) => AntEnv { profile: Some(name.clone()), remove_key: true },
        _ => AntEnv { profile: None, remove_key: false },
    }
}

/// The address of a page of at most `limit` models.
pub open spec fn models_address(limit: u32, after_id: Option<Seq<char>>) -> Seq<char> {
    let first = "https://api.anthropic.com/v1/models?limit="@ + dec(limit as nat);
    match after_id {
        Some(id) => first + "&after_id="@ + id,
        None => first,
    }
}

/// The address of a page of at most `limit` models.
pub fn models_url(limit: u32, after_id: Option<&str>) -> (r: String)
    ensures
        r@ == models_address(limit, opt_str(after_id)),
{
    let count = u64_text(limit as u64);
    let first = concat2("https://api.anthropic.com/v1/models?limit=", count.as_str());
    match after_id {
        Some(id) => concat3(first.as_str(), "&after_id=", id),
        None => first,
    }
}

/// The arguments for `curl`. They are the same whatever the key and the address.
pub open spec fn curl_argument_list() -> Seq<Seq<char>> {
    seq![
        "--config"@,
        "-"@,
        "--connect-timeout"@,
        "10"@,
        "--max-time"@,
        "30"@,
        "--fail-with-body"@,
        "--silent"@,
        "--show-error"@,
    ]
}

/// The arguments for `curl`. They are the same whatever the key and the address.
pub fn curl_arguments() -> (r: Vec<String>)
    ensures
        views(r@) == curl_argument_list(),
{
    let mut out: Vec<String> = Vec::new();
    out.push("--config".to_owned());
    out.push("-".to_owned());
    out.push("--connect-timeout".to_owned());
    out.push("10".to_owned());
    out.push("--max-time".to_owned());
    out.push("30".to_owned());
    out.push("--fail-with-body".to_owned());
    out.push("--silent".to_owned());
    out.push("--show-error".to_owned());
    proof {
        assert(views(out@) =~= curl_argument_list());
    }
    out
}

/// What `curl` reads from its standard input.
pub open spec fn curl_config_text(key: Seq<char>, url: Seq<char>) -> Seq<char> {
    "header = \"x-api-key: "@ + key + "\"\nheader = \"anthropic-version: 2023-06-01\"\nurl = \""@
        + url + "\"\n"@
}

/// What `curl` reads from its standard input: the headers, the key among them, and the
/// quoted address.
pub fn curl_config(key: &str, url: &str) -> (r: String)
    ensures
        r@ == curl_config_text(key@, url@),
{
    concat5(
        "header = \"x-api-key: ",
        key,
        "\"\nheader = \"anthropic-version: 2023-06-01\"\nurl = \"",
        url,
        "\"\n",
    )
}

/// What the user is told when `curl` fails with an exit code.
pub open spec fn curl_failure_text(code: int, stderr: Seq<char>) -> Seq<char> {
    if code == 6 || code == 7 || code == 28 {
        "network error fetching the Models API (curl exit "@ + dec_int(code) + "): "@ + stderr
    } else if code == 22 {
        "HTTP error from the Models API (curl exit 22): "@ + stderr
    } else {
        "curl failed (exit "@ + dec_int(code) + "): "@ + stderr
    }
}

/// What the user is told when `curl` fails, given what may be shown of its output.
pub fn curl_failure(code: i32, stderr: &str) -> (r: StatuslineError)
    ensures
        r is Other,
        r.text() == curl_failure_text(code as int, stderr@),
{
    if code == 6 || code == 7 || code == 28 {
        StatuslineError::Other(
            concat4(
                "network error fetching the Models API (curl exit ",
                i64_text(code as i64).as_str(),
                "): ",
                stderr,
            ),
        )
    } else if code == 22 {
        StatuslineError::Other(concat2("HTTP error from the Models API (curl exit 22): ", stderr))
    } else {
        StatuslineError::Other(
            concat4("curl failed (exit ", i64_text(code as i64).as_str(), "): ", stderr),
        )
    }
}

/// What the user is told when the command line tool fails.
pub fn ant_failure(stderr: &str) -> (r: StatuslineError)
    ensures
        r is Other,
        r.text() == "`ant models list` failed (auth or credential error): "@ + stderr@,
{
    StatuslineError::Other(
        concat2("`ant models list` failed (auth or credential error): ", stderr),
    )
}

/// What the user is told when a page cannot be parsed.
pub fn page_parse_failure(detail: &str) -> (r: StatuslineError)
    ensures
        r is Other,
        r.text() == "failed to parse Models API JSON: "@ + detail@,
{
    StatuslineError::Other(concat2("failed to parse Models API JSON: ", detail))
}

/// What may be shown of a child's standard error.
pub fn sanitize_stderr(stderr: &[u8]) -> (r: String)
    ensures
        r@ == bounded_by_bytes(lossy_text(stderr@)),
{
    let t = from_utf8_lossy(stderr);
    sanitize_to_bytes(t.as_str())
}

/// A finished fetch: the cache to write, and the label of the credential it was made
/// with.
#[derive(Debug)]
pub struct FetchOutcome {
    pub cache: ModelsCache,
    pub credential_source: String,
}

/// Put the outcome of a fetch together.
pub fn finish_fetch(
    mode: &CredentialMode,
    models: TextMap<ModelEntry>,
    fetched_at: Timestamp,
) -> (r: FetchOutcome)
    ensures
        r.cache.schema_version == MODELS_CACHE_SCHEMA_VERSION,
        r.cache.fetched_at == fetched_at,
        r.cache.models@ == models@,
        r.credential_source@ == mode.label_text(),
{
    FetchOutcome {
        cache: ModelsCache { schema_version: MODELS_CACHE_SCHEMA_VERSION, fetched_at, models },
        credential_source: mode.label(),
    }
}

} // verus!
