//! The caches that a sync writes and a render reads.
//!
//! Neither cache has a field for a key: what is on disk is numbers and labels.

use crate::clock::{elapsed, seconds_between, Timestamp};
use crate::double::Double;
use crate::error::{refused_with, Result, StatuslineError};
use crate::paths::{join_path, path_below};
use crate::text::{byte_count, chars_of, concat2, concat3, count_bytes, same};
use crate::text_map::TextMap;
use vstd::prelude::*;

verus! {

/// Format of the models cache that this library writes, and the only one it reads.
pub const MODELS_CACHE_SCHEMA_VERSION: u32 = 1;

/// Format of the usage cache that this library writes, and the only one it reads.
pub const USAGE_CACHE_SCHEMA_VERSION: u32 = 1;

/// Longest account name, in bytes.
pub const MAX_ACCOUNT_NAME_LEN: usize = 128;

/// What is cached of one model.
#[derive(Debug, Clone, Copy, PartialEq, Eq, Structural)]
pub struct ModelEntry {
    /// Size of the context window in tokens; 0 when unknown.
    pub max_input_tokens: u64,
}

/// The cached model metadata.
#[derive(Debug)]
pub struct ModelsCache {
    pub schema_version: u32,
    pub fetched_at: Timestamp,
    /// By canonical model id.
    pub models: TextMap<ModelEntry>,
}

impl ModelsCache {
    /// Seconds since the cache was fetched; negative when it claims a time ahead.
    pub fn age(&self, now: Timestamp) -> (r: i64)
        requires
            i64::MIN <= seconds_between(self.fetched_at, now) <= i64::MAX,
        ensures
            r == seconds_between(self.fetched_at, now),
    {
        elapsed(self.fetched_at, now)
    }

    /// The cache, unless it has another format.
    pub fn accepted(self) -> (r: Option<ModelsCache>)
        ensures
            self.schema_version == MODELS_CACHE_SCHEMA_VERSION ==> r == Some(self),
            self.schema_version != MODELS_CACHE_SCHEMA_VERSION ==> r is None,
    {
        if self.schema_version != MODELS_CACHE_SCHEMA_VERSION {
            None
        } else {
            Some(self)
        }
    }
}

/// Tokens that one model used, by the kinds that are billed apart.
#[derive(Debug, Clone, Copy, PartialEq, Eq, Structural)]
pub struct TokenBreakdown {
    pub uncached_input: u64,
    pub cache_read_input: u64,
    pub cache_creation_1h: u64,
    pub cache_creation_5m: u64,
    pub output: u64,
}

/// No tokens.
pub open spec fn no_tokens() -> TokenBreakdown {
    TokenBreakdown {
        uncached_input: 0,
        cache_read_input: 0,
        cache_creation_1h: 0,
        cache_creation_5m: 0,
        output: 0,
    }
}

impl Default for TokenBreakdown {
    fn default() -> (r: Self)
        ensures
            r == no_tokens(),
    {
        TokenBreakdown {
            uncached_input: 0,
            cache_read_input: 0,
            cache_creation_1h: 0,
            cache_creation_5m: 0,
            output: 0,
        }
    }
}

/// A count that stops at the largest `u64`.
pub open spec fn capped(n: nat) -> u64 {
    if n <= u64::MAX {
        n as u64
    } else {
        u64::MAX
    }
}

impl TokenBreakdown {
    /// All kinds together.
    pub fn total(&self) -> (r: u64)
        ensures
            r == capped(
                (self.uncached_input + self.cache_read_input + self.cache_creation_1h
                    + self.cache_creation_5m + self.output) as nat,
            ),
    {
        self.uncached_input.saturating_add(self.cache_read_input).saturating_add(
            self.cache_creation_1h,
        ).saturating_add(self.cache_creation_5m).saturating_add(self.output)
    }
}

/// The cached usage and cost of one account.
#[derive(Debug)]
pub struct UsageCache {
    pub schema_version: u32,
    pub fetched_at: Timestamp,
    pub account: String,
    /// Today's spend in dollars.
    pub today_usd: Double,
    /// Spend since the first of the month, in dollars.
    pub mtd_usd: Double,
    /// Name of the time zone whose days were summed.
    pub tz: String,
    /// By canonical model id.
    pub tokens_by_model: TextMap<TokenBreakdown>,
}

impl UsageCache {
    /// Seconds since the cache was fetched; negative when it claims a time ahead.
    pub fn age(&self, now: Timestamp) -> (r: i64)
        requires
            i64::MIN <= seconds_between(self.fetched_at, now) <= i64::MAX,
        ensures
            r == seconds_between(self.fetched_at, now),
    {
        elapsed(self.fetched_at, now)
    }

    /// The cache, unless it has another format.
    pub fn accepted(self) -> (r: Option<UsageCache>)
        ensures
            self.schema_version == USAGE_CACHE_SCHEMA_VERSION ==> r == Some(self),
            self.schema_version != USAGE_CACHE_SCHEMA_VERSION ==> r is None,
    {
        if self.schema_version != USAGE_CACHE_SCHEMA_VERSION {
            None
        } else {
            Some(self)
        }
    }
}

// ---------------------------------------------------------------------------
// Account names and paths
// ---------------------------------------------------------------------------

pub open spec fn is_alphanumeric(c: char) -> bool {
    '0' <= c <= '9' || 'A' <= c <= 'Z' || 'a' <= c <= 'z'
}

pub fn alphanumeric(c: char) -> (r: bool)
    ensures
        r == is_alphanumeric(c),
{
    (c >= '0' && c <= '9') || (c >= 'A' && c <= 'Z') || (c >= 'a' && c <= 'z')
}

/// The characters an account name is made of.
pub open spec fn is_name_char(c: char) -> bool {
    is_alphanumeric(c) || c == '.' || c == '-' || c == '_'
}

/// Whether a name can stand as one component of a path.
pub open spec fn is_safe_name(name: Seq<char>) -> bool {
    &&& name.len() > 0
    &&& byte_count(name) <= MAX_ACCOUNT_NAME_LEN
    &&& name != "."@
    &&& name != ".."@
    &&& forall|i: int| 0 <= i < name.len() ==> is_name_char(#[trigger] name[i])
}

/// Why a name is refused, if it is.
pub open spec fn name_refusal(name: Seq<char>) -> Option<Seq<char>> {
    if name.len() == 0 {
        Some("ant account name must not be empty"@)
    } else if byte_count(name) > MAX_ACCOUNT_NAME_LEN {
        Some("ant account name exceeds 128 chars"@)
    } else if name == "."@ || name == ".."@ {
        Some("ant account name must not be '.' or '..'"@)
    } else if !is_safe_name(name) {
        Some(
            "ant account name '"@ + name
                + "' contains disallowed characters (allowed: A-Za-z0-9._-)"@,
        )
    } else {
        None
    }
}

/// Check that an account name is safe to use in a path, and hand it back. Names are
/// refused, never rewritten.
pub fn sanitize_account_name(name: &str) -> (r: Result<String>)
    ensures
        r is Ok <==> is_safe_name(name@),
        match name_refusal(name@) {
            None => r matches Ok(s) && s@ == name@,
            Some(message) => refused_with(r, message),
        },
{
    let c = chars_of(name);
    if c.len() == 0 {
        return Err(StatuslineError::config("ant account name must not be empty"));
    }
    if count_bytes(name) > 128 {
        return Err(StatuslineError::config("ant account name exceeds 128 chars"));
    }
    if same(name, ".") || same(name, "..") {
        return Err(StatuslineError::config("ant account name must not be '.' or '..'"));
    }
    let mut i: usize = 0;
    while i < c.len()
        invariant
            i <= c@.len(),
            c@ == name@,
            name@.len() > 0,
            byte_count(name@) <= MAX_ACCOUNT_NAME_LEN,
            name@ != "."@,
            name@ != ".."@,
            forall|j: int| 0 <= j < i ==> is_name_char(#[trigger] name@[j]),
        decreases c@.len() - i,
    {
        let x = c[i];
        if !(alphanumeric(x) || x == '.' || x == '-' || x == '_') {
            proof {
                assert(!is_name_char(name@[i as int]));
            }
            return Err(
                StatuslineError::Config(
                    concat3(
                        "ant account name '",
                        name,
                        "' contains disallowed characters (allowed: A-Za-z0-9._-)",
                    ),
                ),
            );
        }
        i += 1;
    }
    Ok(name.to_owned())
}

/// The directory that holds the caches.
pub open spec fn ant_dir(cache_dir: Seq<char>) -> Seq<char> {
    path_below(path_below(cache_dir, "claudia-statusline"@), "ant"@)
}

/// Where the models cache lies.
pub open spec fn models_path(cache_dir: Seq<char>) -> Seq<char> {
    path_below(ant_dir(cache_dir), "models.json"@)
}

/// Where the usage caches lie.
pub open spec fn usage_dir(cache_dir: Seq<char>) -> Seq<char> {
    path_below(ant_dir(cache_dir), "usage"@)
}

/// Where the usage cache of an account lies.
pub open spec fn usage_path(cache_dir: Seq<char>, account: Seq<char>) -> Seq<char> {
    path_below(usage_dir(cache_dir), account + ".json"@)
}

fn no_cache_dir() -> (e: StatuslineError)
    ensures
        e is Config,
        e.text() == "Cannot determine cache directory"@,
{
    StatuslineError::config("Cannot determine cache directory")
}

fn ant_directory(cache_dir: &str) -> (r: String)
    ensures
        r@ == ant_dir(cache_dir@),
{
    join_path(join_path(cache_dir, "claudia-statusline").as_str(), "ant")
}

/// The directory to create before the models cache is written.
pub fn ensure_cache_dir(cache_dir: Option<&str>) -> (r: Result<String>)
    ensures
        cache_dir matches Some(d) ==> (r matches Ok(p) && p@ == ant_dir(d@)),
        cache_dir is None ==> refused_with(r, "Cannot determine cache directory"@),
{
    match cache_dir {
        Some(d) => Ok(ant_directory(d)),
        None => Err(no_cache_dir()),
    }
}

/// Where the models cache lies, given the user's cache directory.
pub fn models_cache_path(cache_dir: Option<&str>) -> (r: Result<String>)
    ensures
        cache_dir matches Some(d) ==> (r matches Ok(p) && p@ == models_path(d@)),
        cache_dir is None ==> refused_with(r, "Cannot determine cache directory"@),
{
    match cache_dir {
        Some(d) => Ok(join_path(ant_directory(d).as_str(), "models.json")),
        None => Err(no_cache_dir()),
    }
}

/// The directory to create before a usage cache is written.
pub fn ensure_usage_cache_dir(cache_dir: Option<&str>) -> (r: Result<String>)
    ensures
        cache_dir matches Some(d) ==> (r matches Ok(p) && p@ == usage_dir(d@)),
        cache_dir is None ==> refused_with(r, "Cannot determine cache directory"@),
{
    match cache_dir {
        Some(d) => Ok(join_path(ant_directory(d).as_str(), "usage")),
        None => Err(no_cache_dir()),
    }
}

/// Where the usage cache of an account lies. A name that is not safe has none.
pub fn usage_cache_path(cache_dir: Option<&str>, account: &str) -> (r: Result<String>)
    ensures
        r is Ok <==> is_safe_name(account@) && cache_dir is Some,
        r matches Ok(p) ==> p@ == usage_path(cache_dir->Some_0@, account@),
        match name_refusal(account@) {
            Some(message) => refused_with(r, message),
            None => cache_dir is None ==> refused_with(r, "Cannot determine cache directory"@),
        },
{
    let safe = match sanitize_account_name(account) {
        Ok(s) => s,
        Err(e) => {
            return Err(e);
        },
    };
    match cache_dir {
        Some(d) => {
            let dir = join_path(ant_directory(d).as_str(), "usage");
            let file = concat2(safe.as_str(), ".json");
            Ok(join_path(dir.as_str(), file.as_str()))
        },
        None => Err(no_cache_dir()),
    }
}

/// A safe name holds neither a path separator nor a NUL.
pub proof fn safe_names_hold_no_separator(name: Seq<char>)
    requires
        is_safe_name(name),
    ensures
        forall|i: int| 0 <= i < name.len() ==> name[i] != '/' && name[i] != '\\' && name[i] != '\0',
{
}

/// The file of an account lies directly in the usage directory: its path is the
/// directory, a slash where one is missing, and a file name without a slash.
pub proof fn usage_file_stays_in_directory(cache_dir: Seq<char>, account: Seq<char>)
    requires
        is_safe_name(account),
        cache_dir.len() > 0,
    ensures
        usage_path(cache_dir, account) == usage_dir(cache_dir) + "/"@ + account + ".json"@,
        forall|i: int|
            0 <= i < (account + ".json"@).len() ==> (account + ".json"@)[i] != '/',
{
    reveal_strlit(".json");
    reveal_strlit("usage");
    reveal_strlit("/");
    let d = usage_dir(cache_dir);
    let f = account + ".json"@;
    assert forall|i: int| 0 <= i < f.len() implies f[i] != '/' by {
        if i < account.len() {
            assert(is_name_char(account[i]));
        }
    }
    lemma_below_last(ant_dir(cache_dir), "usage"@);
    assert(f[0] != '/');
    assert(d.last() == 'e');
    assert(d + "/"@ + f =~= d + "/"@ + account + ".json"@);
}

proof fn lemma_below_last(a: Seq<char>, b: Seq<char>)
    requires
        b.len() > 0,
    ensures
        path_below(a, b).len() > 0,
        path_below(a, b).last() == b.last(),
{
}

/// Two accounts never share a file.
pub proof fn accounts_have_their_own_files(cache_dir: Seq<char>, a: Seq<char>, b: Seq<char>)
    requires
        is_safe_name(a),
        is_safe_name(b),
        cache_dir.len() > 0,
        usage_path(cache_dir, a) == usage_path(cache_dir, b),
    ensures
        a == b,
{
    usage_file_stays_in_directory(cache_dir, a);
    usage_file_stays_in_directory(cache_dir, b);
    let p = usage_dir(cache_dir) + "/"@;
    let x = p + a + ".json"@;
    let y = p + b + ".json"@;
    assert(x == y);
    assert(a.len() == b.len());
    assert forall|i: int| 0 <= i < a.len() implies a[i] == b[i] by {
        assert(x[p.len() + i] == a[i]);
        assert(y[p.len() + i] == b[i]);
    }
    assert(a =~= b);
}

} // verus!
