//! Fetching an account's usage and cost: what to run, what to hand it, what to make of
//! the outcome.

use crate::ant::cache::{
    alphanumeric, capped, is_alphanumeric, no_tokens, TokenBreakdown, UsageCache,
    USAGE_CACHE_SCHEMA_VERSION,
};
use crate::ant::diagnostics::{
    bounded_by_chars, from_utf8_lossy, lossy_text, sanitize_to_chars,
};
use crate::ant::fetch::{curl_argument_list, curl_arguments, MAX_PAGES};
use crate::clock::{utc_text, z_utc, Timestamp, DAY, FIRST_SECOND, LAST_SECOND};
use crate::double::Double;
use crate::error::{failed_with, Result, StatuslineError};
use crate::text::{
    byte_count, chars_of, concat2, concat4, count_bytes, dec, dec_int, i64_text, opt_str, trim,
    trimmed, u64_text, views,
};
use crate::text_map::TextMap;
use vstd::prelude::*;
use vstd::slice::slice_subrange;
use vstd::string::*;

verus! {

/// Longest page token, in bytes.
pub const MAX_PAGE_TOKEN_LEN: usize = 256;

/// One page of a report.
#[derive(Debug)]
pub struct ReportEnvelope<T> {
    pub data: Vec<Bucket<T>>,
    pub has_more: bool,
    pub next_page: Option<String>,
}

/// One day of a report.
#[derive(Debug)]
pub struct Bucket<T> {
    pub results: Vec<T>,
}

/// One cost line: an amount in cents, in decimal.
#[derive(Debug)]
pub struct CostItem {
    pub amount: String,
}

/// Tokens written to the cache, by how long they stay there.
#[derive(Debug, Clone, Copy, PartialEq, Eq, Structural)]
pub struct CacheCreation {
    pub ephemeral_1h_input_tokens: u64,
    pub ephemeral_5m_input_tokens: u64,
}

/// One usage line.
#[derive(Debug)]
pub struct UsageItem {
    pub model: Option<String>,
    pub uncached_input_tokens: u64,
    pub cache_read_input_tokens: u64,
    pub output_tokens: u64,
    pub cache_creation: CacheCreation,
}

// ---------------------------------------------------------------------------
// The account's key
// ---------------------------------------------------------------------------

/// The program of a key command and its arguments.
pub fn key_command(argv: &Vec<String>) -> (r: Result<(String, Vec<String>)>)
    ensures
        argv@.len() == 0 ==> failed_with(r, "admin_key_command is empty (no program to run)"@),
        argv@.len() > 0 ==> (r matches Ok(c) && c.0@ == argv@[0]@ && views(c.1@) == views(
            argv@,
        ).skip(1)),
{
    if argv.len() == 0 {
        return Err(StatuslineError::other("admin_key_command is empty (no program to run)"));
    }
    let mut args: Vec<String> = Vec::new();
    let mut i: usize = 1;
    while i < argv.len()
        invariant
            1 <= i <= argv@.len(),
            args@.len() == i - 1,
            forall|k: int| 0 <= k < i - 1 ==> (#[trigger] args@[k])@ == argv@[k + 1]@,
        decreases argv@.len() - i,
    {
        args.push(argv[i].clone());
        i += 1;
    }
    proof {
        assert(views(args@) =~= views(argv@).skip(1));
    }
    Ok((argv[0].clone(), args))
}

/// The key in the output of a key command that succeeded.
pub fn key_in_output(output: &str) -> (r: Result<String>)
    ensures
        trimmed(output@).len() == 0 ==> failed_with(
            r,
            "admin_key_command produced no key on stdout"@,
        ),
        trimmed(output@).len() > 0 ==> (r matches Ok(k) && k@ == trimmed(output@)),
{
    let key = trim(output);
    if key.as_str().is_empty() {
        Err(StatuslineError::other("admin_key_command produced no key on stdout"))
    } else {
        Ok(key)
    }
}

/// What the user is told when a key command fails.
pub open spec fn key_failure_text(code: int, stderr: Seq<char>) -> Seq<char> {
    "admin_key_command failed (exit "@ + dec_int(code) + "): "@ + stderr
}

/// The key that a finished key command gave. Anything but a key is a failure.
pub fn resolve_admin_key(success: bool, code: i32, stdout: &[u8], stderr: &[u8]) -> (r: Result<
    String,
>)
    ensures
        !success ==> failed_with(
            r,
            key_failure_text(code as int, bounded_by_chars(lossy_text(stderr@))),
        ),
        success && trimmed(lossy_text(stdout@)).len() == 0 ==> failed_with(
            r,
            "admin_key_command produced no key on stdout"@,
        ),
        success && trimmed(lossy_text(stdout@)).len() > 0 ==> (r matches Ok(k) && k@ == trimmed(
            lossy_text(stdout@),
        )),
{
    if !success {
        let shown = sanitize_stderr(stderr);
        return Err(
            StatuslineError::Other(
                concat4(
                    "admin_key_command failed (exit ",
                    i64_text(code as i64).as_str(),
                    "): ",
                    shown.as_str(),
                ),
            ),
        );
    }
    let text = from_utf8_lossy(stdout);
    key_in_output(text.as_str())
}

// ---------------------------------------------------------------------------
// Page tokens and addresses
// ---------------------------------------------------------------------------

/// The characters a page token is made of.
pub open spec fn is_token_char(c: char) -> bool {
    is_alphanumeric(c) || c == '-' || c == '_' || c == '.' || c == ':'
}

/// Why a page token is refused, if it is.
pub open spec fn token_refusal(tok: Seq<char>) -> Option<Seq<char>> {
    if tok.len() == 0 || byte_count(tok) > MAX_PAGE_TOKEN_LEN {
        Some("Admin API returned an out-of-range pagination token; aborting fetch"@)
    } else if tok[0] == '-' {
        Some("Admin API returned a flag-like pagination token; aborting fetch"@)
    } else if !(forall|i: int| 0 <= i < tok.len() ==> is_token_char(#[trigger] tok[i])) {
        Some("Admin API returned a malformed pagination token; aborting fetch"@)
    } else {
        None
    }
}

/// Check a page token before it goes into an address.
pub fn validate_page_token(tok: &str) -> (r: Result<()>)
    ensures
        match token_refusal(tok@) {
            None => r is Ok,
            Some(message) => failed_with(r, message),
        },
{
    let c = chars_of(tok);
    if c.len() == 0 || count_bytes(tok) > 256 {
        return Err(
            StatuslineError::other(
                "Admin API returned an out-of-range pagination token; aborting fetch",
            ),
        );
    }
    if c[0] == '-' {
        return Err(
            StatuslineError::other(
                "Admin API returned a flag-like pagination token; aborting fetch",
            ),
        );
    }
    let mut i: usize = 0;
    while i < c.len()
        invariant
            i <= c@.len(),
            c@ == tok@,
            tok@.len() > 0,
            byte_count(tok@) <= MAX_PAGE_TOKEN_LEN,
            tok@[0] != '-',
            forall|j: int| 0 <= j < i ==> is_token_char(#[trigger] tok@[j]),
        decreases c@.len() - i,
    {
        let x = c[i];
        if !(alphanumeric(x) || x == '-' || x == '_' || x == '.' || x == ':') {
            proof {
                assert(!is_token_char(tok@[i as int]));
            }
            return Err(
                StatuslineError::other(
                    "Admin API returned a malformed pagination token; aborting fetch",
                ),
            );
        }
        i += 1;
    }
    Ok(())
}

/// A page token that was accepted cannot end the quoted address it goes into, nor start
/// another parameter, nor be read as a flag.
pub proof fn accepted_token_is_inert(tok: Seq<char>)
    requires
        token_refusal(tok) is None,
    ensures
        tok.len() > 0,
        tok[0] != '-',
        forall|i: int|
            0 <= i < tok.len() ==> tok[i] != '"' && tok[i] != '\\' && tok[i] != '\n' && tok[i] != '&'
                && tok[i] != '#' && tok[i] != ' ',
{
    assert forall|i: int| 0 <= i < tok.len() implies tok[i] != '"' && tok[i] != '\\' && tok[i]
        != '\n' && tok[i] != '&' && tok[i] != '#' && tok[i] != ' ' by {
        assert(is_token_char(tok[i]));
    }
}

/// The parameters of an address, each after `?` or `&`.
pub open spec fn query_text(pairs: Seq<(String, String)>) -> Seq<char>
    decreases pairs.len(),
{
    if pairs.len() == 0 {
        Seq::empty()
    } else {
        query_text(pairs.drop_last()) + (if pairs.len() == 1 {
            "?"@
        } else {
            "&"@
        }) + pairs.last().0@ + "="@ + pairs.last().1@
    }
}

/// The address of one page of a report.
pub open spec fn report_address(
    base: Seq<char>,
    pairs: Seq<(String, String)>,
    page: Option<Seq<char>>,
) -> Seq<char> {
    let all = base + query_text(pairs);
    match page {
        Some(tok) => all + (if pairs.len() == 0 {
            "?"@
        } else {
            "&"@
        }) + "page="@ + tok,
        None => all,
    }
}

/// The address of one page of a report. A page token that is not acceptable is refused
/// before it goes anywhere.
pub fn report_url(base: &str, pairs: &Vec<(String, String)>, page: Option<&str>) -> (r: Result<
    String,
>)
    ensures
        match opt_str(page) {
            None => r matches Ok(u) && u@ == report_address(base@, pairs@, None),
            Some(tok) => match token_refusal(tok) {
                None => r matches Ok(u) && u@ == report_address(base@, pairs@, Some(tok)),
                Some(message) => failed_with(r, message),
            },
        },
{
    let mut url = base.to_owned();
    let mut i: usize = 0;
    proof {
        assert(base@ + query_text(pairs@.take(0)) =~= base@);
    }
    while i < pairs.len()
        invariant
            i <= pairs@.len(),
            url@ == base@ + query_text(pairs@.take(i as int)),
        decreases pairs@.len() - i,
    {
        proof {
            let q = query_text(pairs@.take(i as int));
            assert(pairs@.take(i + 1).drop_last() =~= pairs@.take(i as int));
            assert(pairs@.take(i + 1).last() == pairs@[i as int]);
            let sep = if i == 0 {
                "?"@
            } else {
                "&"@
            };
            let k = pairs@[i as int].0@;
            let v = pairs@[i as int].1@;
            assert(base@ + (q + sep + k + "="@ + v) =~= base@ + q + sep + k + "="@ + v);
        }
        if i == 0 {
            url.append("?");
        } else {
            url.append("&");
        }
        url.append(pairs[i].0.as_str());
        url.append("=");
        url.append(pairs[i].1.as_str());
        i += 1;
    }
    proof {
        assert(pairs@.take(pairs@.len() as int) =~= pairs@);
    }
    match page {
        Some(tok) => {
            match validate_page_token(tok) {
                Ok(_) => {},
                Err(e) => {
                    return Err(e);
                },
            }
            if pairs.len() == 0 {
                url.append("?");
            } else {
                url.append("&");
            }
            url.append("page=");
            url.append(tok);
        },
        None => {},
    }
    Ok(url)
}

/// The token of the page after this one, if another is to be fetched.
pub open spec fn next_token<T>(env: ReportEnvelope<T>, pages_read: nat) -> Option<String> {
    if env.has_more && pages_read < MAX_PAGES {
        env.next_page
    } else {
        None
    }
}

/// The token of the page after this one, if another is to be fetched. `pages_read`
/// counts this one.
pub fn next_page_token<T>(env: &ReportEnvelope<T>, pages_read: usize) -> (r: Option<String>)
    ensures
        r == next_token(*env, pages_read as nat),
{
    if env.has_more && pages_read < MAX_PAGES {
        match &env.next_page {
            Some(t) => Some(t.clone()),
            None => None,
        }
    } else {
        None
    }
}

// ---------------------------------------------------------------------------
// Reporting windows
// ---------------------------------------------------------------------------

/// The start of the month that a second lies in, as `chrono` has it.
pub uninterp spec fn month_start(seconds: int) -> int;

/// Reads `seconds` with `chrono::DateTime::from_timestamp`, takes its date back to the
/// first of the month with `with_day(1)` and gives that day's midnight. Claims that the
/// outcome depends on the argument alone and is a midnight at most thirty days before
/// the midnight of the day itself; the calendar is left to that crate.
#[verifier::external_body]
fn first_of_month(seconds: i64) -> (r: i64)
    requires
        FIRST_SECOND <= seconds <= LAST_SECOND,
    ensures
        r == month_start(seconds as int),
        r % DAY == 0,
        r <= seconds < r + 31 * DAY,
        FIRST_SECOND <= r,
{
    let day = chrono::DateTime::from_timestamp(seconds, 0).expect("within the calendar").date_naive();
    let first = chrono::Datelike::with_day(&day, 1).expect("every month has a first day");
    first.and_time(chrono::NaiveTime::MIN).and_utc().timestamp()
}

/// A span of time: from a second on, up to but without another.
#[derive(Debug)]
pub struct UtcWindow {
    pub starting_at: String,
    pub ending_at: String,
}

/// The spans that a usage fetch asks for.
#[derive(Debug)]
pub struct UtcWindows {
    pub today: UtcWindow,
    pub mtd: UtcWindow,
}

/// The midnight before a second.
pub open spec fn midnight(seconds: int) -> int {
    seconds - seconds % DAY as int
}

fn seconds_into_day(now: i64) -> (r: i64)
    requires
        FIRST_SECOND <= now <= LAST_SECOND,
    ensures
        r == now as int % DAY as int,
        0 <= r < DAY,
{
    if now >= 0 {
        now % DAY
    } else {
        let m: i64 = (-now) % DAY;
        if m == 0 {
            0
        } else {
            DAY - m
        }
    }
}

/// The spans that begin today and on the first of the month, given the second at which
/// the month began. Both end at the coming midnight.
pub fn windows_from(now: i64, month_began: i64) -> (r: UtcWindows)
    requires
        FIRST_SECOND <= month_began <= now,
        now <= LAST_SECOND - DAY,
    ensures
        r.today.starting_at@ == utc_text(midnight(now as int)),
        r.today.ending_at@ == utc_text(midnight(now as int) + DAY),
        r.mtd.starting_at@ == utc_text(month_began as int),
        r.mtd.ending_at@ == utc_text(midnight(now as int) + DAY),
{
    let into: i64 = seconds_into_day(now);
    let today: i64 = now - into;
    let tomorrow: i64 = today + DAY;
    UtcWindows {
        today: UtcWindow { starting_at: z_utc(today), ending_at: z_utc(tomorrow) },
        mtd: UtcWindow { starting_at: z_utc(month_began), ending_at: z_utc(tomorrow) },
    }
}

/// The spans to ask for at a moment, given in seconds.
pub fn utc_windows(now: i64) -> (r: UtcWindows)
    requires
        FIRST_SECOND <= now <= LAST_SECOND - DAY,
    ensures
        r.today.starting_at@ == utc_text(midnight(now as int)),
        r.today.ending_at@ == utc_text(midnight(now as int) + DAY),
        r.mtd.starting_at@ == utc_text(month_start(now as int)),
        r.mtd.ending_at@ == utc_text(midnight(now as int) + DAY),
        month_start(now as int) <= midnight(now as int) <= now < midnight(now as int) + DAY,
{
    let began: i64 = first_of_month(now);
    windows_from(now, began)
}

/// Both spans end at the same midnight, which is the one after now.
pub proof fn midnight_encloses(seconds: int)
    ensures
        midnight(seconds) <= seconds < midnight(seconds) + DAY,
        midnight(seconds) % DAY as int == 0,
        midnight(midnight(seconds)) == midnight(seconds),
{
}

// ---------------------------------------------------------------------------
// Tokens by model
// ---------------------------------------------------------------------------

/// The tokens of a breakdown with those of one more line.
pub open spec fn with_item(t: TokenBreakdown, item: UsageItem) -> TokenBreakdown {
    TokenBreakdown {
        uncached_input: capped((t.uncached_input + item.uncached_input_tokens) as nat),
        cache_read_input: capped((t.cache_read_input + item.cache_read_input_tokens) as nat),
        cache_creation_1h: capped(
            (t.cache_creation_1h + item.cache_creation.ephemeral_1h_input_tokens) as nat,
        ),
        cache_creation_5m: capped(
            (t.cache_creation_5m + item.cache_creation.ephemeral_5m_input_tokens) as nat,
        ),
        output: capped((t.output + item.output_tokens) as nat),
    }
}

/// What a map holds of a model.
pub open spec fn tokens_of(m: Map<Seq<char>, TokenBreakdown>, model: Seq<char>) -> TokenBreakdown {
    if m.dom().contains(model) {
        m[model]
    } else {
        no_tokens()
    }
}

/// A map with one more line; a line without a model changes nothing.
pub open spec fn with_line(m: Map<Seq<char>, TokenBreakdown>, item: UsageItem) -> Map<
    Seq<char>,
    TokenBreakdown,
> {
    match item.model {
        Some(model) => if model@.len() > 0 {
            m.insert(model@, with_item(tokens_of(m, model@), item))
        } else {
            m
        },
        None => m,
    }
}

/// A map with the lines of a list.
pub open spec fn with_lines(m: Map<Seq<char>, TokenBreakdown>, items: Seq<UsageItem>) -> Map<
    Seq<char>,
    TokenBreakdown,
>
    decreases items.len(),
{
    if items.len() == 0 {
        m
    } else {
        with_line(with_lines(m, items.drop_last()), items.last())
    }
}

/// All lines of a report's days, in order.
pub open spec fn lines_in(data: Seq<Bucket<UsageItem>>) -> Seq<UsageItem>
    decreases data.len(),
{
    if data.len() == 0 {
        Seq::empty()
    } else {
        lines_in(data.drop_last()) + data.last().results@
    }
}

fn add_line(item: &UsageItem, acc: &mut TextMap<TokenBreakdown>)
    ensures
        final(acc)@ == with_line(old(acc)@, *item),
{
    match &item.model {
        Some(model) => {
            if !model.as_str().is_empty() {
                let t = match acc.get(model.as_str()) {
                    Some(t) => *t,
                    None => TokenBreakdown::default(),
                };
                let u = TokenBreakdown {
                    uncached_input: t.uncached_input.saturating_add(item.uncached_input_tokens),
                    cache_read_input: t.cache_read_input.saturating_add(
                        item.cache_read_input_tokens,
                    ),
                    cache_creation_1h: t.cache_creation_1h.saturating_add(
                        item.cache_creation.ephemeral_1h_input_tokens,
                    ),
                    cache_creation_5m: t.cache_creation_5m.saturating_add(
                        item.cache_creation.ephemeral_5m_input_tokens,
                    ),
                    output: t.output.saturating_add(item.output_tokens),
                };
                acc.insert(model.clone(), u);
            }
        },
        None => {},
    }
}

/// Add the lines of one page to the tokens by model.
pub fn accumulate_tokens(env: &ReportEnvelope<UsageItem>, acc: &mut TextMap<TokenBreakdown>)
    ensures
        final(acc)@ == with_lines(old(acc)@, lines_in(env.data@)),
{
    let ghost m0 = acc@;
    let mut i: usize = 0;
    while i < env.data.len()
        invariant
            i <= env.data@.len(),
            acc@ == with_lines(m0, lines_in(env.data@.take(i as int))),
        decreases env.data@.len() - i,
    {
        let bucket = &env.data[i];
        let ghost done = lines_in(env.data@.take(i as int));
        let ghost here = bucket.results@;
        let mut j: usize = 0;
        proof {
            assert(done + here.take(0) =~= done);
        }
        while j < bucket.results.len()
            invariant
                j <= bucket.results@.len(),
                here == bucket.results@,
                acc@ == with_lines(m0, done + here.take(j as int)),
            decreases bucket.results@.len() - j,
        {
            proof {
                let next = done + here.take(j + 1);
                assert(next.drop_last() =~= done + here.take(j as int));
                assert(next.last() == here[j as int]);
            }
            add_line(&bucket.results[j], acc);
            j += 1;
        }
        proof {
            assert(here.take(here.len() as int) =~= here);
            assert(env.data@.take(i + 1).drop_last() =~= env.data@.take(i as int));
            assert(env.data@.take(i + 1).last() == env.data@[i as int]);
        }
        i += 1;
    }
    proof {
        assert(env.data@.take(env.data@.len() as int) =~= env.data@);
    }
}

/// Adding two lists one after the other is adding the list of both.
pub proof fn token_lines_accumulate(
    m: Map<Seq<char>, TokenBreakdown>,
    a: Seq<UsageItem>,
    b: Seq<UsageItem>,
)
    ensures
        with_lines(with_lines(m, a), b) == with_lines(m, a + b),
    decreases b.len(),
{
    if b.len() == 0 {
        assert(a + b =~= a);
    } else {
        token_lines_accumulate(m, a, b.drop_last());
        assert((a + b).drop_last() =~= a + b.drop_last());
        assert((a + b).last() == b.last());
    }
}

/// No count of a breakdown has fallen.
pub open spec fn none_fell(before: TokenBreakdown, after: TokenBreakdown) -> bool {
    &&& after.uncached_input >= before.uncached_input
    &&& after.cache_read_input >= before.cache_read_input
    &&& after.cache_creation_1h >= before.cache_creation_1h
    &&& after.cache_creation_5m >= before.cache_creation_5m
    &&& after.output >= before.output
}

/// Adding lines never lowers a count, of any model.
pub proof fn token_counts_never_fall(
    m: Map<Seq<char>, TokenBreakdown>,
    items: Seq<UsageItem>,
    model: Seq<char>,
)
    ensures
        none_fell(tokens_of(m, model), tokens_of(with_lines(m, items), model)),
    decreases items.len(),
{
    if items.len() > 0 {
        token_counts_never_fall(m, items.drop_last(), model);
    }
}

// ---------------------------------------------------------------------------
// Running curl
// ---------------------------------------------------------------------------

/// The arguments for `curl`. They are the same whatever the key and the address.
pub open spec fn report_argument_list() -> Seq<Seq<char>> {
    curl_argument_list() + seq!["--write-out"@, "\n%{http_code}"@]
}

/// The arguments for `curl`. They are the same whatever the key and the address.
pub fn report_arguments() -> (r: Vec<String>)
    ensures
        views(r@) == report_argument_list(),
{
    let mut out = curl_arguments();
    let ghost first = out@;
    out.push("--write-out".to_owned());
    out.push("\n%{http_code}".to_owned());
    proof {
        assert(views(out@) =~= views(first) + seq!["--write-out"@, "\n%{http_code}"@]);
    }
    out
}

/// The position of the last line feed, or -1.
pub open spec fn last_newline(b: Seq<u8>) -> int
    decreases b.len(),
{
    if b.len() == 0 {
        -1
    } else if b.last() == 10 {
        b.len() - 1
    } else {
        last_newline(b.drop_last())
    }
}

pub open spec fn is_digit_byte(b: u8) -> bool {
    48 <= b <= 57
}

/// The number that a sequence of digit bytes stands for.
pub open spec fn bytes_value(b: Seq<u8>) -> nat
    decreases b.len(),
{
    if b.len() == 0 {
        0
    } else {
        bytes_value(b.drop_last()) * 10 + (b.last() - 48) as nat
    }
}

/// Whether a line is a status: three digits.
pub open spec fn is_status(tail: Seq<u8>) -> bool {
    tail.len() == 3 && forall|i: int| 0 <= i < 3 ==> is_digit_byte(#[trigger] tail[i])
}

/// The status that ends an output, where the output's last line is one.
pub open spec fn status_line(out: Seq<u8>) -> Option<u16> {
    let p = last_newline(out);
    let tail = out.skip(p + 1);
    if p >= 0 && is_status(tail) {
        Some(bytes_value(tail) as u16)
    } else {
        None
    }
}

fn digit_byte(b: u8) -> (r: bool)
    ensures
        r == is_digit_byte(b),
{
    b >= 48 && b <= 57
}

fn read_status(tail: &[u8]) -> (r: Option<u16>)
    ensures
        r == (if is_status(tail@) {
            Some(bytes_value(tail@) as u16)
        } else {
            None
        }),
{
    if tail.len() != 3 {
        return None;
    }
    let a: u8 = tail[0];
    let b: u8 = tail[1];
    let c: u8 = tail[2];
    if !digit_byte(a) || !digit_byte(b) || !digit_byte(c) {
        proof {
            assert(!is_digit_byte(tail@[0]) || !is_digit_byte(tail@[1]) || !is_digit_byte(tail@[2]));
        }
        return None;
    }
    proof {
        let t = tail@;
        assert(t.drop_last().drop_last().drop_last() =~= Seq::<u8>::empty());
        reveal_with_fuel(bytes_value, 4);
        assert(bytes_value(t) == (a - 48) * 100 + (b - 48) * 10 + (c - 48));
    }
    Some((a - 48) as u16 * 100 + (b - 48) as u16 * 10 + (c - 48) as u16)
}

/// Split the status that `curl` was told to append, three digits, off its output. Without
/// one the status is 0 and the whole output is the body.
pub fn split_http_code(stdout: &[u8]) -> (r: (&[u8], u16))
    ensures
        match status_line(stdout@) {
            Some(code) => r.0@ == stdout@.take(last_newline(stdout@)) && r.1 == code,
            None => r.0@ == stdout@ && r.1 == 0,
        },
{
    let mut n: usize = stdout.len();
    proof {
        assert(stdout@.take(stdout@.len() as int) =~= stdout@);
    }
    while n > 0 && stdout[n - 1] != 10
        invariant
            n <= stdout@.len(),
            last_newline(stdout@) == last_newline(stdout@.take(n as int)),
        decreases n,
    {
        proof {
            assert(stdout@.take(n as int).drop_last() =~= stdout@.take(n - 1));
        }
        n -= 1;
    }
    if n == 0 {
        return (stdout, 0);
    }
    proof {
        assert(stdout@.take(n as int).last() == 10);
        assert(last_newline(stdout@) == n - 1);
        assert(stdout@.subrange(n as int, stdout@.len() as int) =~= stdout@.skip(n as int));
        assert(stdout@.subrange(0, n - 1) =~= stdout@.take(n - 1));
    }
    let tail = slice_subrange(stdout, n, stdout.len());
    match read_status(tail) {
        Some(code) => (slice_subrange(stdout, 0, n - 1), code),
        None => (stdout, 0),
    }
}

/// What the user is told when `curl` fails.
pub open spec fn report_failure_text(
    code: int,
    http_code: nat,
    stderr: Seq<char>,
    body: Seq<char>,
) -> Seq<char> {
    if code == 6 || code == 7 || code == 28 {
        "network error fetching the Admin API (curl exit "@ + dec_int(code) + "): "@ + stderr
    } else if code == 22 {
        if http_code == 401 {
            "Admin key invalid or expired (HTTP 401): "@ + body
        } else if http_code == 403 {
            "this account lacks Admin API access (individual account, non-admin role, or Bedrock/Vertex/Foundry) (HTTP 403): "@
                + body
        } else {
            "HTTP error "@ + dec(http_code) + " from the Admin API: "@ + body
        }
    } else {
        "curl failed (exit "@ + dec_int(code) + "): "@ + stderr
    }
}

/// What the user is told when `curl` fails, given what may be shown of its output.
pub fn report_failure(code: i32, http_code: u16, stderr: &str, body: &str) -> (r: StatuslineError)
    ensures
        r is Other,
        r.text() == report_failure_text(code as int, http_code as nat, stderr@, body@),
{
    if code == 6 || code == 7 || code == 28 {
        StatuslineError::Other(
            concat4(
                "network error fetching the Admin API (curl exit ",
                i64_text(code as i64).as_str(),
                "): ",
                stderr,
            ),
        )
    } else if code == 22 {
        if http_code == 401 {
            StatuslineError::Other(concat2("Admin key invalid or expired (HTTP 401): ", body))
        } else if http_code == 403 {
            StatuslineError::Other(
                concat2(
                    "this account lacks Admin API access (individual account, non-admin role, or Bedrock/Vertex/Foundry) (HTTP 403): ",
                    body,
                ),
            )
        } else {
            StatuslineError::Other(
                concat4(
                    "HTTP error ",
                    u64_text(http_code as u64).as_str(),
                    " from the Admin API: ",
                    body,
                ),
            )
        }
    } else {
        StatuslineError::Other(
            concat4("curl failed (exit ", i64_text(code as i64).as_str(), "): ", stderr),
        )
    }
}

/// The body and the status that an output of `curl` holds.
pub open spec fn body_and_status(out: Seq<u8>) -> (Seq<u8>, u16) {
    match status_line(out) {
        Some(code) => (out.take(last_newline(out)), code),
        None => (out, 0),
    }
}

/// What to make of a finished `curl`: the body and the status, or what to tell the user.
pub fn curl_get(success: bool, code: i32, stdout: &[u8], stderr: &[u8]) -> (r: Result<(Vec<u8>, u16)>)
    ensures
        success ==> (r matches Ok(b) && b.0@ == body_and_status(stdout@).0 && b.1
            == body_and_status(stdout@).1),
        !success ==> failed_with(
            r,
            report_failure_text(
                code as int,
                body_and_status(stdout@).1 as nat,
                bounded_by_chars(lossy_text(stderr@)),
                bounded_by_chars(lossy_text(body_and_status(stdout@).0)),
            ),
        ),
{
    let (body, http_code) = split_http_code(stdout);
    if !success {
        let shown = sanitize_stderr(stderr);
        let shown_body = sanitize_stderr(body);
        return Err(report_failure(code, http_code, shown.as_str(), shown_body.as_str()));
    }
    Ok((vstd::slice::slice_to_vec(body), http_code))
}

/// What the user is told when a page cannot be parsed.
pub fn report_parse_failure(http_code: u16, detail: &str) -> (r: StatuslineError)
    ensures
        r is Other,
        r.text() == "failed to parse Admin API JSON (http "@ + dec(http_code as nat) + "): "@
            + detail@,
{
    StatuslineError::Other(
        concat4(
            "failed to parse Admin API JSON (http ",
            u64_text(http_code as u64).as_str(),
            "): ",
            detail,
        ),
    )
}

/// What may be shown of a child's output.
pub fn sanitize_stderr(stderr: &[u8]) -> (r: String)
    ensures
        r@ == bounded_by_chars(lossy_text(stderr@)),
{
    let t = from_utf8_lossy(stderr);
    sanitize_to_chars(t.as_str())
}

// ---------------------------------------------------------------------------
// The account's slice
// ---------------------------------------------------------------------------

/// The parameters that name a span, a day wide each.
pub open spec fn window_pairs(w: UtcWindow) -> Seq<(Seq<char>, Seq<char>)> {
    seq![
        ("starting_at"@, w.starting_at@),
        ("ending_at"@, w.ending_at@),
        ("bucket_width"@, "1d"@),
    ]
}

/// The contents of a list of parameters.
pub open spec fn pair_views(v: Seq<(String, String)>) -> Seq<(Seq<char>, Seq<char>)> {
    Seq::new(v.len(), |i: int| (v[i].0@, v[i].1@))
}

/// The parameters of a cost report.
pub fn cost_query(w: &UtcWindow) -> (r: Vec<(String, String)>)
    ensures
        pair_views(r@) == window_pairs(*w),
{
    let mut out: Vec<(String, String)> = Vec::new();
    out.push(("starting_at".to_owned(), w.starting_at.clone()));
    out.push(("ending_at".to_owned(), w.ending_at.clone()));
    out.push(("bucket_width".to_owned(), "1d".to_owned()));
    proof {
        assert(pair_views(out@) =~= window_pairs(*w));
    }
    out
}

/// The parameters of a usage report, by model.
pub fn usage_query(w: &UtcWindow) -> (r: Vec<(String, String)>)
    ensures
        pair_views(r@) == window_pairs(*w).push(("group_by"@, "model"@)),
{
    let mut out = cost_query(w);
    let ghost first = out@;
    out.push(("group_by".to_owned(), "model".to_owned()));
    proof {
        assert(pair_views(out@) =~= pair_views(first).push(("group_by"@, "model"@)));
    }
    out
}

/// Put an account's slice together, once every report of it is there.
pub fn assemble_usage(
    account: &str,
    today_usd: Double,
    mtd_usd: Double,
    tokens_by_model: TextMap<TokenBreakdown>,
    fetched_at: Timestamp,
) -> (r: UsageCache)
    ensures
        r.schema_version == USAGE_CACHE_SCHEMA_VERSION,
        r.fetched_at == fetched_at,
        r.account@ == account@,
        r.today_usd == today_usd,
        r.mtd_usd == mtd_usd,
        r.tz@ == "UTC"@,
        r.tokens_by_model@ == tokens_by_model@,
{
    UsageCache {
        schema_version: USAGE_CACHE_SCHEMA_VERSION,
        fetched_at,
        account: account.to_owned(),
        today_usd,
        mtd_usd,
        tz: "UTC".to_owned(),
        tokens_by_model,
    }
}

} // verus!
