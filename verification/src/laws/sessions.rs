//! What the `sessions` and `stats` commands show.

use crate::commands::sessions::{
    agent_line, agent_lines, expanded, hits, hours_and_minutes, identity_lines, ids_at,
    index_and_filter, is_kept, is_under, kept, last_two_parts, list_line, listed, main_path,
    resolve, selected, share_digits, shown_list, shown_session, transcript_name, without_ending,
    Host, Selection, SessionRow, TranscriptRow, CANDIDATES, LIST_HEADER,
};
use crate::commands::stats::{
    spend_line, spend_table, version_line, version_table, SpendRow, VersionRow, SPEND_HEADER,
    VERSION_HEADER,
};
use crate::error::Result;
use crate::laws::places::{
    is_plain_name, is_plain_path, lemma_last_slash, names_alone, slashes_at_the_end_do_not_count,
    what_lies_in_a_directory,
};
use crate::laws::words::{
    beginnings_keep_within_their_bytes, begins_with, ends_in, is_found, is_found_at, is_free_of,
    joined_parts_stand_in_order, lemma_labelled, lemma_left_column, lemma_right_column,
    lemma_right_column_and, padding_is_spaces, place,
};
use crate::paths::{before_last_part, last_part, without_slashes};
use crate::ratio::{per_digits, per_thousand_digits};
use crate::text::{
    byte_head, dec, dec_int, head, joined, left, lowered, opt_str, opt_view, parsed_unsigned, right,
    trimmed, two_digits,
};
use vstd::prelude::*;

verus! {

/// A text, or a question mark in its place.
pub open spec fn or_mark(s: Option<String>) -> Seq<char> {
    match s {
        Some(t) => t@,
        None => "?"@,
    }
}

/// The row of lines has the lines added after the plus, and the lines removed after the
/// minus.
pub proof fn lines_are_shown_by_their_signs(
    r: SessionRow,
    transcripts: Seq<TranscriptRow>,
    on_disk: bool,
    host: Host,
)
    ensures
        ({
            let row = shown_session(r, transcripts, on_disk, host)[8];
            &&& begins_with(row, "lines "@)
            &&& is_found(row, " +"@ + dec_int(r.lines_added as int) + " /"@)
            &&& ends_in(row, " -"@ + dec_int(r.lines_removed as int))
        }),
        r.lines_removed == 0 ==> ends_in(shown_session(r, transcripts, on_disk, host)[8], " -0"@),
        r.lines_added == 0 ==> is_found(
            shown_session(r, transcripts, on_disk, host)[8],
            " +0 /"@,
        ),
{
    let row = shown_session(r, transcripts, on_disk, host)[8];
    reveal_strlit("lines             +");
    reveal_strlit("lines ");
    reveal_strlit(" / -");
    reveal_strlit(" +");
    reveal_strlit(" /");
    reveal_strlit(" -");
    reveal_strlit(" -0");
    reveal_strlit(" +0 /");
    let added = dec_int(r.lines_added as int);
    let removed = dec_int(r.lines_removed as int);
    assert(row == "lines             +"@ + added + " / -"@ + removed);
    assert(is_found_at(row, " +"@ + added + " /"@, 17));
    assert(dec_int(0) == seq!['0']);
    if r.lines_added == 0 {
        assert(is_found_at(row, " +0 /"@, 17));
    }
}

/// Each row of what is known of a session has its own label and its own field.
pub proof fn each_row_shows_its_own(
    r: SessionRow,
    transcripts: Seq<TranscriptRow>,
    on_disk: bool,
    host: Host,
)
    ensures
        ({
            let rows = shown_session(r, transcripts, on_disk, host);
            &&& begins_with(rows[0], "session_id "@) && ends_in(rows[0], " "@ + r.session_id@)
            &&& begins_with(rows[1], "claude_version "@) && ends_in(rows[1], " "@ + or_mark(r.version))
            &&& begins_with(rows[2], "model "@) && ends_in(rows[2], " "@ + or_mark(r.model_name))
            &&& begins_with(rows[3], "workspace "@) && ends_in(
                rows[3],
                " "@ + or_mark(r.workspace_dir),
            )
            &&& begins_with(rows[4], "start "@) && ends_in(rows[4], " "@ + r.start_time@)
            &&& begins_with(rows[5], "last_updated "@) && ends_in(rows[5], " "@ + r.last_updated@)
            &&& begins_with(rows[6], "active_time "@) && ends_in(
                rows[6],
                " ("@ + dec_int(r.active_time_seconds as int) + " s)"@,
            )
            &&& begins_with(rows[7], "cost* "@) && ends_in(rows[7], " $"@ + r.cost.digits(2))
            &&& begins_with(rows[9], "max_context_seen "@) && ends_in(
                rows[9],
                " "@ + dec_int(r.max_tokens_observed as int) + " tokens"@,
            )
        }),
{
    assert forall|i: int| 0 <= i < 11 implies #[trigger] shown_session(
        r,
        transcripts,
        on_disk,
        host,
    )[i] == identity_lines(r)[i] by {}
    lemma_identity(r, identity_lines(r));
}

proof fn lemma_identity(r: SessionRow, rows: Seq<Seq<char>>)
    requires
        rows == identity_lines(r),
    ensures
        begins_with(rows[0], "session_id "@) && ends_in(rows[0], " "@ + r.session_id@),
        begins_with(rows[1], "claude_version "@) && ends_in(rows[1], " "@ + or_mark(r.version)),
        begins_with(rows[2], "model "@) && ends_in(rows[2], " "@ + or_mark(r.model_name)),
        begins_with(rows[3], "workspace "@) && ends_in(rows[3], " "@ + or_mark(r.workspace_dir)),
        begins_with(rows[4], "start "@) && ends_in(rows[4], " "@ + r.start_time@),
        begins_with(rows[5], "last_updated "@) && ends_in(rows[5], " "@ + r.last_updated@),
        begins_with(rows[6], "active_time "@) && ends_in(
            rows[6],
            " ("@ + dec_int(r.active_time_seconds as int) + " s)"@,
        ),
        begins_with(rows[7], "cost* "@) && ends_in(rows[7], " $"@ + r.cost.digits(2)),
        begins_with(rows[9], "max_context_seen "@) && ends_in(
            rows[9],
            " "@ + dec_int(r.max_tokens_observed as int) + " tokens"@,
        ),
{
    assert(begins_with("session_id        "@, "session_id "@) && ends_in("session_id        "@, " "@)) by {
        reveal_strlit("session_id        ");
        reveal_strlit("session_id ");
        reveal_strlit(" ");
    }
    lemma_labelled(rows[0], "session_id        "@, r.session_id@, "session_id "@, " "@);
    assert(begins_with("claude_version    "@, "claude_version "@) && ends_in("claude_version    "@, " "@)) by {
        reveal_strlit("claude_version    ");
        reveal_strlit("claude_version ");
        reveal_strlit(" ");
    }
    lemma_labelled(rows[1], "claude_version    "@, or_mark(r.version), "claude_version "@, " "@);
    assert(begins_with("model             "@, "model "@) && ends_in("model             "@, " "@)) by {
        reveal_strlit("model             ");
        reveal_strlit("model ");
        reveal_strlit(" ");
    }
    lemma_labelled(rows[2], "model             "@, or_mark(r.model_name), "model "@, " "@);
    assert(begins_with("workspace         "@, "workspace "@) && ends_in("workspace         "@, " "@)) by {
        reveal_strlit("workspace         ");
        reveal_strlit("workspace ");
        reveal_strlit(" ");
    }
    lemma_labelled(rows[3], "workspace         "@, or_mark(r.workspace_dir), "workspace "@, " "@);
    assert(begins_with("start             "@, "start "@) && ends_in("start             "@, " "@)) by {
        reveal_strlit("start             ");
        reveal_strlit("start ");
        reveal_strlit(" ");
    }
    lemma_labelled(rows[4], "start             "@, r.start_time@, "start "@, " "@);
    assert(begins_with("last_updated      "@, "last_updated "@) && ends_in("last_updated      "@, " "@)) by {
        reveal_strlit("last_updated      ");
        reveal_strlit("last_updated ");
        reveal_strlit(" ");
    }
    lemma_labelled(rows[5], "last_updated      "@, r.last_updated@, "last_updated "@, " "@);
    assert(begins_with("cost*             $"@, "cost* "@) && ends_in("cost*             $"@, " $"@)) by {
        reveal_strlit("cost*             $");
        reveal_strlit("cost* ");
        reveal_strlit(" $");
    }
    lemma_labelled(rows[7], "cost*             $"@, r.cost.digits(2), "cost* "@, " $"@);
    let active = "active_time       "@ + hours_and_minutes(r.active_time_seconds as int) + " ("@;
    assert(begins_with(active, "active_time "@) && ends_in(active, " ("@)) by {
        reveal_strlit("active_time       ");
        reveal_strlit("active_time ");
        reveal_strlit(" (");
    }
    let seconds = dec_int(r.active_time_seconds as int) + " s)"@;
    assert(rows[6] =~= active + seconds);
    lemma_labelled(rows[6], active, seconds, "active_time "@, " ("@);
    assert(" ("@ + seconds =~= " ("@ + dec_int(r.active_time_seconds as int) + " s)"@);
    assert(begins_with("max_context_seen  "@, "max_context_seen "@) && ends_in(
        "max_context_seen  "@,
        " "@,
    )) by {
        reveal_strlit("max_context_seen  ");
        reveal_strlit("max_context_seen ");
        reveal_strlit(" ");
    }
    let most = dec_int(r.max_tokens_observed as int) + " tokens"@;
    assert(rows[9] =~= "max_context_seen  "@ + most);
    lemma_labelled(rows[9], "max_context_seen  "@, most, "max_context_seen "@, " "@);
    assert(" "@ + most =~= " "@ + dec_int(r.max_tokens_observed as int) + " tokens"@);
}

/// The row of tokens that the payload reported has each kind behind its own name.
pub proof fn each_kind_of_token_is_shown_by_its_name(
    r: SessionRow,
    transcripts: Seq<TranscriptRow>,
    on_disk: bool,
    host: Host,
)
    ensures
        ({
            let row = shown_session(r, transcripts, on_disk, host)[12];
            &&& begins_with(row, "  input "@ + dec_int(r.total_input_tokens as int) + " "@)
            &&& is_found(row, " output "@ + dec_int(r.total_output_tokens as int) + " "@)
            &&& is_found(row, " cache_read "@ + dec_int(r.total_cache_read_tokens as int) + " "@)
            &&& ends_in(row, " cache_write "@ + dec_int(r.total_cache_creation_tokens as int))
        }),
{
    let row = shown_session(r, transcripts, on_disk, host)[12];
    let a = dec_int(r.total_input_tokens as int);
    let b = dec_int(r.total_output_tokens as int);
    let c = dec_int(r.total_cache_read_tokens as int);
    let d = dec_int(r.total_cache_creation_tokens as int);
    reveal_strlit("  input ");
    reveal_strlit("  output ");
    reveal_strlit("  cache_read ");
    reveal_strlit("  cache_write ");
    reveal_strlit(" output ");
    reveal_strlit(" cache_read ");
    reveal_strlit(" cache_write ");
    reveal_strlit(" ");
    assert(is_found_at(row, " output "@ + b + " "@, 9int + a.len()));
    assert(is_found_at(row, " cache_read "@ + c + " "@, 18int + a.len() + b.len()));
}

/// The rows of attribution have the main conversation's counts under main and the agents'
/// under agents, each behind its own name.
pub proof fn work_is_shown_by_who_did_it(
    r: SessionRow,
    transcripts: Seq<TranscriptRow>,
    on_disk: bool,
    host: Host,
)
    ensures
        ({
            let rows = shown_session(r, transcripts, on_disk, host);
            let main = rows[15];
            let agents = rows[16];
            &&& begins_with(main, "  main "@)
            &&& is_found(main, "requests "@ + right(dec_int(r.main_requests as int), 6) + "  in "@)
            &&& is_found(main, " in "@ + right(dec_int(r.main_input_tokens as int), 12) + " "@)
            &&& is_found(main, " out "@ + right(dec_int(r.main_output_tokens as int), 10) + " "@)
            &&& is_found(
                main,
                " in_k/req "@ + right(
                    per_thousand_digits(r.main_input_tokens as int, r.main_requests as int),
                    7,
                ) + " "@,
            )
            &&& ends_in(
                main,
                " out/req "@ + right(
                    per_digits(r.main_output_tokens as int, r.main_requests as int, 0),
                    6,
                ),
            )
            &&& begins_with(agents, "  agents "@)
            &&& is_found(agents, "requests "@ + right(dec_int(r.agent_requests as int), 6) + "  in "@)
            &&& is_found(agents, " in "@ + right(dec_int(r.agent_input_tokens as int), 12) + " "@)
            &&& is_found(agents, " out "@ + right(dec_int(r.agent_output_tokens as int), 10) + " "@)
            &&& is_found(agents, " files "@ + right(dec_int(r.agent_count as int), 4) + " "@)
            &&& ends_in(
                agents,
                " share "@ + right(
                    share_digits(r.agent_input_tokens as int, r.main_input_tokens as int),
                    5,
                ) + "%"@,
            )
        }),
{
    let rows = shown_session(r, transcripts, on_disk, host);
    lemma_main_row(r, rows[15]);
    lemma_agents_row(r, rows[16]);
}

#[verifier::rlimit(40)]
proof fn lemma_main_row(r: SessionRow, row: Seq<char>)
    requires
        row == crate::commands::sessions::token_lines(r, Seq::empty())[4],
    ensures
        begins_with(row, "  main "@),
        is_found(row, "requests "@ + right(dec_int(r.main_requests as int), 6) + "  in "@),
        is_found(row, " in "@ + right(dec_int(r.main_input_tokens as int), 12) + " "@),
        is_found(row, " out "@ + right(dec_int(r.main_output_tokens as int), 10) + " "@),
        is_found(
            row,
            " in_k/req "@ + right(
                per_thousand_digits(r.main_input_tokens as int, r.main_requests as int),
                7,
            ) + " "@,
        ),
        ends_in(
            row,
            " out/req "@ + right(
                per_digits(r.main_output_tokens as int, r.main_requests as int, 0),
                6,
            ),
        ),
{
    let a = right(dec_int(r.main_requests as int), 6);
    let b = right(dec_int(r.main_input_tokens as int), 12);
    let c = right(dec_int(r.main_output_tokens as int), 10);
    let d = right(per_thousand_digits(r.main_input_tokens as int, r.main_requests as int), 7);
    let e = right(per_digits(r.main_output_tokens as int, r.main_requests as int, 0), 6);
    reveal_strlit("  main    requests ");
    reveal_strlit("  main ");
    reveal_strlit("requests ");
    reveal_strlit("  in ");
    reveal_strlit("  out ");
    reveal_strlit("  in_k/req ");
    reveal_strlit("  out/req ");
    reveal_strlit(" in ");
    reveal_strlit(" out ");
    reveal_strlit(" in_k/req ");
    reveal_strlit(" out/req ");
    reveal_strlit(" ");
    assert(row =~= "  main    requests "@ + a + "  in "@ + b + "  out "@ + c + "  in_k/req "@ + d
        + "  out/req "@ + e);
    assert(is_found_at(row, "requests "@ + a + "  in "@, 10));
    assert(is_found_at(row, " in "@ + b + " "@, 20int + a.len()));
    assert(is_found_at(row, " out "@ + c + " "@, 25int + a.len() + b.len()));
    assert(is_found_at(row, " in_k/req "@ + d + " "@, 31int + a.len() + b.len() + c.len()));
}

#[verifier::rlimit(40)]
proof fn lemma_agents_row(r: SessionRow, row: Seq<char>)
    requires
        row == crate::commands::sessions::token_lines(r, Seq::empty())[5],
    ensures
        begins_with(row, "  agents "@),
        is_found(row, "requests "@ + right(dec_int(r.agent_requests as int), 6) + "  in "@),
        is_found(row, " in "@ + right(dec_int(r.agent_input_tokens as int), 12) + " "@),
        is_found(row, " out "@ + right(dec_int(r.agent_output_tokens as int), 10) + " "@),
        is_found(row, " files "@ + right(dec_int(r.agent_count as int), 4) + " "@),
        ends_in(
            row,
            " share "@ + right(
                share_digits(r.agent_input_tokens as int, r.main_input_tokens as int),
                5,
            ) + "%"@,
        ),
{
    let a = right(dec_int(r.agent_requests as int), 6);
    let b = right(dec_int(r.agent_input_tokens as int), 12);
    let c = right(dec_int(r.agent_output_tokens as int), 10);
    let d = right(dec_int(r.agent_count as int), 4);
    let e = right(share_digits(r.agent_input_tokens as int, r.main_input_tokens as int), 5);
    reveal_strlit("  agents  requests ");
    reveal_strlit("  agents ");
    reveal_strlit("requests ");
    reveal_strlit("  in ");
    reveal_strlit("  out ");
    reveal_strlit("  files ");
    reveal_strlit("  share ");
    reveal_strlit(" in ");
    reveal_strlit(" out ");
    reveal_strlit(" files ");
    reveal_strlit(" share ");
    reveal_strlit(" ");
    reveal_strlit("%");
    assert(row =~= "  agents  requests "@ + a + "  in "@ + b + "  out "@ + c + "  files "@ + d
        + "  share "@ + e + "%"@);
    assert(is_found_at(row, "requests "@ + a + "  in "@, 10));
    assert(is_found_at(row, " in "@ + b + " "@, 20int + a.len()));
    assert(is_found_at(row, " out "@ + c + " "@, 25int + a.len() + b.len()));
    assert(is_found_at(row, " files "@ + d + " "@, 31int + a.len() + b.len() + c.len()));
}

/// The last row says how to go on with the session, and the row before it where the main
/// conversation's transcript is, and whether it is missing.
pub proof fn the_last_row_resumes(
    r: SessionRow,
    transcripts: Seq<TranscriptRow>,
    on_disk: bool,
    host: Host,
)
    ensures
        ({
            let rows = shown_session(r, transcripts, on_disk, host);
            let last = rows.last();
            let before = rows[rows.len() - 2];
            &&& begins_with(last, "resume "@)
            &&& ends_in(last, " "@ + host.command@ + " --resume "@ + r.session_id@)
            &&& begins_with(before, "transcript "@)
            &&& main_path(transcripts) matches Some(p) ==> is_found(before, p) && (on_disk
                ==> ends_in(before, " "@ + p)) && (!on_disk ==> ends_in(
                before,
                p + "  (missing on disk)"@,
            ))
        }),
{
    let rows = shown_session(r, transcripts, on_disk, host);
    let before = rows[rows.len() - 2];
    reveal_strlit("resume            ");
    reveal_strlit("resume ");
    reveal_strlit(" --resume ");
    reveal_strlit("transcript        ");
    reveal_strlit("transcript ");
    reveal_strlit("transcript        (not scanned yet: renders before attribution existed)");
    reveal_strlit("  (missing on disk)");
    reveal_strlit(" ");
    reveal_strlit("");
    match main_path(transcripts) {
        Some(p) => {
            assert(is_found_at(before, p, 18));
        },
        None => {},
    }
}

/// The main conversation's transcript is the first that is no agent's.
pub proof fn the_main_transcript_is_no_agents(transcripts: Seq<TranscriptRow>, i: int)
    requires
        0 <= i < transcripts.len(),
        !transcripts[i].is_agent,
        forall|j: int| 0 <= j < i ==> (#[trigger] transcripts[j]).is_agent,
    ensures
        main_path(transcripts) == Some(transcripts[i].path@),
    decreases i,
{
    if i > 0 {
        assert(transcripts[0].is_agent);
        assert forall|j: int| 0 <= j < i - 1 implies (#[trigger] transcripts.skip(1)[j]).is_agent by {
            assert(transcripts[j + 1].is_agent);
        }
        the_main_transcript_is_no_agents(transcripts.skip(1), i - 1);
    }
}

/// There is one row for each agent's transcript and none for others', in their order, and
/// their number stands above them.
pub proof fn each_agent_has_a_row(
    r: SessionRow,
    transcripts: Seq<TranscriptRow>,
    on_disk: bool,
    host: Host,
)
    ensures
        ({
            let agents = transcripts.filter(|t: TranscriptRow| t.is_agent);
            let rows = shown_session(r, transcripts, on_disk, host);
            &&& agents.len() == 0 ==> rows.len() == 20
            &&& agents.len() > 0 ==> rows.len() == 22 + agents.len() && begins_with(
                rows[18],
                "agent transcripts ("@ + dec(agents.len()) + ")"@,
            )
            &&& forall|i: int|
                0 <= i < agents.len() ==> #[trigger] rows[19 + i] == agent_line(agents[i])
        }),
{
    lemma_agent_rows(transcripts);
    reveal_strlit("agent transcripts (");
    reveal_strlit("):  type                  req         in   cache_rd       out  size_kB");
    reveal_strlit(")");
}

proof fn lemma_agent_rows(transcripts: Seq<TranscriptRow>)
    ensures
        ({
            let agents = transcripts.filter(|t: TranscriptRow| t.is_agent);
            &&& agent_lines(transcripts).len() == agents.len()
            &&& forall|i: int|
                0 <= i < agents.len() ==> #[trigger] agent_lines(transcripts)[i] == agent_line(
                    agents[i],
                )
        }),
    decreases transcripts.len(),
{
    reveal(Seq::filter);
    if transcripts.len() > 0 {
        lemma_agent_rows(transcripts.drop_last());
    }
}

/// A text, or none in its place.
pub open spec fn or_blank(s: Option<String>) -> Seq<char> {
    match s {
        Some(t) => t@,
        None => ""@,
    }
}

/// An agent's line is set in, and has its columns in this order: name and type, requests,
/// fresh input with what was written to the cache, what was read from the cache, output, and
/// size in kibibytes.
pub proof fn columns_of_an_agent(t: TranscriptRow)
    requires
        t.size >= 0,
        transcript_name(t.path@).len() <= 28,
        or_mark(t.agent_type).len() <= 18,
        dec_int(t.requests as int).len() <= 6,
        dec_int(t.input_tokens + t.cache_creation_tokens).len() <= 10,
        dec_int(t.cache_read_tokens as int).len() <= 10,
        dec_int(t.output_tokens as int).len() <= 9,
        dec_int(t.size as int / 1024).len() <= 8,
    ensures
        ({
            let row = agent_line(t).skip(2);
            &&& begins_with(agent_line(t), "  "@)
            &&& row.len() == 95
            &&& begins_with(row.skip(0), transcript_name(t.path@))
            &&& begins_with(row.skip(29), or_mark(t.agent_type))
            &&& ends_in(row.take(54), " "@ + dec_int(t.requests as int))
            &&& ends_in(row.take(65), " "@ + dec_int(t.input_tokens + t.cache_creation_tokens))
            &&& ends_in(row.take(76), " "@ + dec_int(t.cache_read_tokens as int))
            &&& ends_in(row.take(86), " "@ + dec_int(t.output_tokens as int))
            &&& ends_in(row.take(95), " "@ + dec_int(t.size as int / 1024))
        }),
{
    let parts = seq![
        left(transcript_name(t.path@), 28),
        left(or_mark(t.agent_type), 18),
        right(dec_int(t.requests as int), 6),
        right(dec_int(t.input_tokens + t.cache_creation_tokens), 10),
        right(dec_int(t.cache_read_tokens as int), 10),
        right(dec_int(t.output_tokens as int), 9),
        right(dec_int(t.size as int / 1024), 8),
    ];
    let line = joined(parts, " "@);
    reveal_strlit(" ");
    reveal_strlit("  ");
    assert(agent_line(t) == "  "@ + line);
    assert(agent_line(t).skip(2) =~= line);
    padding_is_spaces(transcript_name(t.path@), 28, 0);
    padding_is_spaces(or_mark(t.agent_type), 18, 0);
    padding_is_spaces(dec_int(t.requests as int), 6, 0);
    padding_is_spaces(dec_int(t.input_tokens + t.cache_creation_tokens), 10, 0);
    padding_is_spaces(dec_int(t.cache_read_tokens as int), 10, 0);
    padding_is_spaces(dec_int(t.output_tokens as int), 9, 0);
    padding_is_spaces(dec_int(t.size as int / 1024), 8, 0);
    reveal_with_fuel(place, 9);
    joined_parts_stand_in_order(parts, " "@, 6);
    lemma_left_column(parts, 0, transcript_name(t.path@), 28, 0);
    lemma_left_column(parts, 1, or_mark(t.agent_type), 18, 29);
    lemma_right_column(parts, 2, dec_int(t.requests as int), 6, 48);
    lemma_right_column(parts, 3, dec_int(t.input_tokens + t.cache_creation_tokens), 10, 55);
    lemma_right_column(parts, 4, dec_int(t.cache_read_tokens as int), 10, 66);
    lemma_right_column(parts, 5, dec_int(t.output_tokens as int), 9, 77);
    lemma_right_column(parts, 6, dec_int(t.size as int / 1024), 8, 87);
}

/// A session's line in the list has each column where its heading is: the number, the
/// beginnings of id and times, version, model and directory, and then, each ending where its
/// heading ends, requests, agents, the agents' share and the cost.
pub proof fn columns_of_the_list(n: nat, r: SessionRow)
    requires
        dec(n).len() <= 3,
        dec_int(r.main_requests as int).len() <= 8,
        dec_int(r.agent_count as int).len() <= 6,
        share_digits(r.agent_input_tokens as int, r.main_input_tokens as int).len() <= 5,
        r.cost.digits(2).len() <= 8,
    ensures
        ({
            let row = list_line(n, r);
            &&& row.len() == 131
            &&& ends_in(row.take(3), dec(n))
            &&& begins_with(row.skip(5), byte_head(r.session_id@, 8))
            &&& begins_with(row.skip(14), byte_head(r.start_time@, 16))
            &&& begins_with(row.skip(31), byte_head(r.last_updated@, 16))
            &&& begins_with(row.skip(48), head(or_blank(r.version), 9))
            &&& begins_with(row.skip(58), head(or_blank(r.model_name), 18))
            &&& begins_with(row.skip(77), head(last_two_parts(or_blank(r.workspace_dir)), 22))
            &&& ends_in(row.take(108), " "@ + dec_int(r.main_requests as int))
            &&& ends_in(row.take(115), " "@ + dec_int(r.agent_count as int))
            &&& ends_in(row.take(122), " "@ + share_digits(r.agent_input_tokens as int, r.main_input_tokens as int) + "%"@)
            &&& ends_in(row.take(131), " "@ + r.cost.digits(2))
        }),
{
    let parts = seq![
        right(dec(n), 3) + " "@,
        left(byte_head(r.session_id@, 8), 8),
        left(byte_head(r.start_time@, 16), 16),
        left(byte_head(r.last_updated@, 16), 16),
        left(head(or_blank(r.version), 9), 9),
        left(head(or_blank(r.model_name), 18), 18),
        left(head(last_two_parts(or_blank(r.workspace_dir)), 22), 22),
        right(dec_int(r.main_requests as int), 8),
        right(dec_int(r.agent_count as int), 6),
        right(share_digits(r.agent_input_tokens as int, r.main_input_tokens as int), 5) + "%"@,
        right(r.cost.digits(2), 8),
    ];
    let line = joined(parts, " "@);
    reveal_strlit(" ");
    reveal_strlit("%");
    assert(list_line(n, r) == line);
    beginnings_keep_within_their_bytes(r.session_id@, 8);
    beginnings_keep_within_their_bytes(r.start_time@, 16);
    beginnings_keep_within_their_bytes(r.last_updated@, 16);
    padding_is_spaces(dec(n), 3, 0);
    padding_is_spaces(byte_head(r.session_id@, 8), 8, 0);
    padding_is_spaces(byte_head(r.start_time@, 16), 16, 0);
    padding_is_spaces(byte_head(r.last_updated@, 16), 16, 0);
    padding_is_spaces(head(or_blank(r.version), 9), 9, 0);
    padding_is_spaces(head(or_blank(r.model_name), 18), 18, 0);
    padding_is_spaces(head(last_two_parts(or_blank(r.workspace_dir)), 22), 22, 0);
    padding_is_spaces(dec_int(r.main_requests as int), 8, 0);
    padding_is_spaces(dec_int(r.agent_count as int), 6, 0);
    padding_is_spaces(share_digits(r.agent_input_tokens as int, r.main_input_tokens as int), 5, 0);
    padding_is_spaces(r.cost.digits(2), 8, 0);
    reveal_with_fuel(place, 13);
    joined_parts_stand_in_order(parts, " "@, 10);
    joined_parts_stand_in_order(parts, " "@, 0);
    assert(line.subrange(0, 4) == parts[0]);
    assert(line.take(3) =~= line.subrange(0, 4).take(3));
    assert(parts[0].take(3) =~= right(dec(n), 3));
    lemma_left_column(parts, 1, byte_head(r.session_id@, 8), 8, 5);
    lemma_left_column(parts, 2, byte_head(r.start_time@, 16), 16, 14);
    lemma_left_column(parts, 3, byte_head(r.last_updated@, 16), 16, 31);
    lemma_left_column(parts, 4, head(or_blank(r.version), 9), 9, 48);
    lemma_left_column(parts, 5, head(or_blank(r.model_name), 18), 18, 58);
    lemma_left_column(parts, 6, head(last_two_parts(or_blank(r.workspace_dir)), 22), 22, 77);
    lemma_right_column(parts, 7, dec_int(r.main_requests as int), 8, 100);
    lemma_right_column(parts, 8, dec_int(r.agent_count as int), 6, 109);
    lemma_right_column_and(parts, 9, share_digits(r.agent_input_tokens as int, r.main_input_tokens as int), 5, "%"@, 116);
    lemma_right_column(parts, 10, r.cost.digits(2), 8, 123);
}

/// A version's line has each column where its heading is: version, sessions, first and last
/// day, the main conversations' requests, input and output by request, and then agents, their
/// requests, their output by request and their share.
pub proof fn columns_of_a_version(r: VersionRow)
    requires
        r.version@.len() <= 10,
        dec_int(r.sessions as int).len() <= 5,
        r.first@.len() <= 10,
        r.last@.len() <= 10,
        dec_int(r.main_requests as int).len() <= 8,
        per_thousand_digits(r.main_input_tokens as int, r.main_requests as int).len() <= 9,
        per_digits(r.main_output_tokens as int, r.main_requests as int, 0).len() <= 8,
        dec_int(r.agent_count as int).len() <= 7,
        dec_int(r.agent_requests as int).len() <= 9,
        per_digits(r.agent_output_tokens as int, r.agent_requests as int, 0).len() <= 9,
        share_digits(r.agent_input_tokens as int, r.main_input_tokens as int).len() <= 6,
    ensures
        ({
            let row = version_line(r);
            &&& row.len() == 103
            &&& begins_with(row.skip(0), r.version@)
            &&& ends_in(row.take(17), " "@ + dec_int(r.sessions as int) + " "@)
            &&& begins_with(row.skip(18), r.first@)
            &&& begins_with(row.skip(29), r.last@)
            &&& ends_in(row.take(48), " "@ + dec_int(r.main_requests as int))
            &&& ends_in(row.take(58), " "@ + per_thousand_digits(r.main_input_tokens as int, r.main_requests as int))
            &&& ends_in(row.take(67), " "@ + per_digits(r.main_output_tokens as int, r.main_requests as int, 0))
            &&& ends_in(row.take(75), " "@ + dec_int(r.agent_count as int))
            &&& ends_in(row.take(85), " "@ + dec_int(r.agent_requests as int))
            &&& ends_in(row.take(95), " "@ + per_digits(r.agent_output_tokens as int, r.agent_requests as int, 0))
            &&& ends_in(row.take(103), " "@ + share_digits(r.agent_input_tokens as int, r.main_input_tokens as int) + "%"@)
        }),
{
    let parts = seq![
        left(r.version@, 10),
        right(dec_int(r.sessions as int), 5) + " "@,
        left(r.first@, 10),
        left(r.last@, 10),
        right(dec_int(r.main_requests as int), 8),
        right(per_thousand_digits(r.main_input_tokens as int, r.main_requests as int), 9),
        right(per_digits(r.main_output_tokens as int, r.main_requests as int, 0), 8),
        right(dec_int(r.agent_count as int), 7),
        right(dec_int(r.agent_requests as int), 9),
        right(per_digits(r.agent_output_tokens as int, r.agent_requests as int, 0), 9),
        right(share_digits(r.agent_input_tokens as int, r.main_input_tokens as int), 6) + "%"@,
    ];
    let line = joined(parts, " "@);
    reveal_strlit(" ");
    reveal_strlit("%");
    assert(version_line(r) == line);
    padding_is_spaces(r.version@, 10, 0);
    padding_is_spaces(dec_int(r.sessions as int), 5, 0);
    padding_is_spaces(r.first@, 10, 0);
    padding_is_spaces(r.last@, 10, 0);
    padding_is_spaces(dec_int(r.main_requests as int), 8, 0);
    padding_is_spaces(per_thousand_digits(r.main_input_tokens as int, r.main_requests as int), 9, 0);
    padding_is_spaces(per_digits(r.main_output_tokens as int, r.main_requests as int, 0), 8, 0);
    padding_is_spaces(dec_int(r.agent_count as int), 7, 0);
    padding_is_spaces(dec_int(r.agent_requests as int), 9, 0);
    padding_is_spaces(per_digits(r.agent_output_tokens as int, r.agent_requests as int, 0), 9, 0);
    padding_is_spaces(share_digits(r.agent_input_tokens as int, r.main_input_tokens as int), 6, 0);
    reveal_with_fuel(place, 13);
    joined_parts_stand_in_order(parts, " "@, 10);
    lemma_left_column(parts, 0, r.version@, 10, 0);
    lemma_right_column_and(parts, 1, dec_int(r.sessions as int), 5, " "@, 11);
    lemma_left_column(parts, 2, r.first@, 10, 18);
    lemma_left_column(parts, 3, r.last@, 10, 29);
    lemma_right_column(parts, 4, dec_int(r.main_requests as int), 8, 40);
    lemma_right_column(parts, 5, per_thousand_digits(r.main_input_tokens as int, r.main_requests as int), 9, 49);
    lemma_right_column(parts, 6, per_digits(r.main_output_tokens as int, r.main_requests as int, 0), 8, 59);
    lemma_right_column(parts, 7, dec_int(r.agent_count as int), 7, 68);
    lemma_right_column(parts, 8, dec_int(r.agent_requests as int), 9, 76);
    lemma_right_column(parts, 9, per_digits(r.agent_output_tokens as int, r.agent_requests as int, 0), 9, 86);
    lemma_right_column_and(parts, 10, share_digits(r.agent_input_tokens as int, r.main_input_tokens as int), 6, "%"@, 96);
}

/// A session's line among those that spend has each column where its heading is: session,
/// version, start and model, the main conversation's requests, input and output by request,
/// and then agents, their share and the cost.
pub proof fn columns_of_a_spender(r: SpendRow)
    requires
        r.session@.len() <= 8,
        r.version@.len() <= 9,
        r.start@.len() <= 16,
        dec_int(r.main_requests as int).len() <= 8,
        per_thousand_digits(r.main_input_tokens as int, r.main_requests as int).len() <= 9,
        per_digits(r.main_output_tokens as int, r.main_requests as int, 0).len() <= 8,
        dec_int(r.agent_count as int).len() <= 6,
        share_digits(r.agent_input_tokens as int, r.main_input_tokens as int).len() <= 6,
        r.cost.digits(2).len() <= 9,
    ensures
        ({
            let row = spend_line(r);
            &&& row.len() == 107
            &&& begins_with(row.skip(0), r.session@)
            &&& begins_with(row.skip(9), r.version@)
            &&& begins_with(row.skip(19), r.start@)
            &&& begins_with(row.skip(36), head(r.model@, 18))
            &&& ends_in(row.take(63), " "@ + dec_int(r.main_requests as int))
            &&& ends_in(row.take(73), " "@ + per_thousand_digits(r.main_input_tokens as int, r.main_requests as int))
            &&& ends_in(row.take(82), " "@ + per_digits(r.main_output_tokens as int, r.main_requests as int, 0))
            &&& ends_in(row.take(89), " "@ + dec_int(r.agent_count as int))
            &&& ends_in(row.take(97), " "@ + share_digits(r.agent_input_tokens as int, r.main_input_tokens as int) + "%"@)
            &&& ends_in(row.take(107), " "@ + r.cost.digits(2))
        }),
{
    let parts = seq![
        left(r.session@, 8),
        left(r.version@, 9),
        left(r.start@, 16),
        left(head(r.model@, 18), 18),
        right(dec_int(r.main_requests as int), 8),
        right(per_thousand_digits(r.main_input_tokens as int, r.main_requests as int), 9),
        right(per_digits(r.main_output_tokens as int, r.main_requests as int, 0), 8),
        right(dec_int(r.agent_count as int), 6),
        right(share_digits(r.agent_input_tokens as int, r.main_input_tokens as int), 6) + "%"@,
        right(r.cost.digits(2), 9),
    ];
    let line = joined(parts, " "@);
    reveal_strlit(" ");
    reveal_strlit("%");
    assert(spend_line(r) == line);
    padding_is_spaces(r.session@, 8, 0);
    padding_is_spaces(r.version@, 9, 0);
    padding_is_spaces(r.start@, 16, 0);
    padding_is_spaces(head(r.model@, 18), 18, 0);
    padding_is_spaces(dec_int(r.main_requests as int), 8, 0);
    padding_is_spaces(per_thousand_digits(r.main_input_tokens as int, r.main_requests as int), 9, 0);
    padding_is_spaces(per_digits(r.main_output_tokens as int, r.main_requests as int, 0), 8, 0);
    padding_is_spaces(dec_int(r.agent_count as int), 6, 0);
    padding_is_spaces(share_digits(r.agent_input_tokens as int, r.main_input_tokens as int), 6, 0);
    padding_is_spaces(r.cost.digits(2), 9, 0);
    reveal_with_fuel(place, 12);
    joined_parts_stand_in_order(parts, " "@, 9);
    lemma_left_column(parts, 0, r.session@, 8, 0);
    lemma_left_column(parts, 1, r.version@, 9, 9);
    lemma_left_column(parts, 2, r.start@, 16, 19);
    lemma_left_column(parts, 3, head(r.model@, 18), 18, 36);
    lemma_right_column(parts, 4, dec_int(r.main_requests as int), 8, 55);
    lemma_right_column(parts, 5, per_thousand_digits(r.main_input_tokens as int, r.main_requests as int), 9, 64);
    lemma_right_column(parts, 6, per_digits(r.main_output_tokens as int, r.main_requests as int, 0), 8, 74);
    lemma_right_column(parts, 7, dec_int(r.agent_count as int), 6, 83);
    lemma_right_column_and(parts, 8, share_digits(r.agent_input_tokens as int, r.main_input_tokens as int), 6, "%"@, 90);
    lemma_right_column(parts, 9, r.cost.digits(2), 9, 98);
}

/// The headings of the list stand over their columns.
pub proof fn headings_of_the_list()
    ensures
        LIST_HEADER@.len() == 131,
        ends_in(LIST_HEADER@.take(3), "#"@),
        begins_with(LIST_HEADER@.skip(5), "session"@),
        begins_with(LIST_HEADER@.skip(14), "start"@),
        begins_with(LIST_HEADER@.skip(31), "last"@),
        begins_with(LIST_HEADER@.skip(48), "version"@),
        begins_with(LIST_HEADER@.skip(58), "model"@),
        begins_with(LIST_HEADER@.skip(77), "workspace"@),
        ends_in(LIST_HEADER@.take(108), "main_req"@),
        ends_in(LIST_HEADER@.take(115), "agents"@),
        ends_in(LIST_HEADER@.take(122), "share%"@),
        ends_in(LIST_HEADER@.take(131), "cost*"@),
{
    reveal_strlit("  #  session  start            last             version   model              workspace              main_req agents share%    cost*");
    reveal_strlit("#");
    reveal_strlit("agents");
    reveal_strlit("cost*");
    reveal_strlit("last");
    reveal_strlit("main_req");
    reveal_strlit("model");
    reveal_strlit("session");
    reveal_strlit("share%");
    reveal_strlit("start");
    reveal_strlit("version");
    reveal_strlit("workspace");
}

/// The headings of the versions stand over their columns.
pub proof fn headings_of_versions()
    ensures
        VERSION_HEADER@.len() == 103,
        begins_with(VERSION_HEADER@.skip(0), "version"@),
        ends_in(VERSION_HEADER@.take(16), "sess"@),
        begins_with(VERSION_HEADER@.skip(18), "first"@),
        begins_with(VERSION_HEADER@.skip(29), "last"@),
        ends_in(VERSION_HEADER@.take(48), "main_req"@),
        ends_in(VERSION_HEADER@.take(58), "in_k/req"@),
        ends_in(VERSION_HEADER@.take(67), "out/req"@),
        ends_in(VERSION_HEADER@.take(75), "agents"@),
        ends_in(VERSION_HEADER@.take(85), "agent_req"@),
        ends_in(VERSION_HEADER@.take(95), "ag_out/rq"@),
        ends_in(VERSION_HEADER@.take(103), "share%"@),
{
    reveal_strlit("version     sess  first      last       main_req  in_k/req  out/req  agents agent_req ag_out/rq  share%");
    reveal_strlit("ag_out/rq");
    reveal_strlit("agent_req");
    reveal_strlit("agents");
    reveal_strlit("first");
    reveal_strlit("in_k/req");
    reveal_strlit("last");
    reveal_strlit("main_req");
    reveal_strlit("out/req");
    reveal_strlit("sess");
    reveal_strlit("share%");
    reveal_strlit("version");
}

/// The headings of the sessions that spend stand over their columns.
pub proof fn headings_of_spenders()
    ensures
        SPEND_HEADER@.len() == 107,
        begins_with(SPEND_HEADER@.skip(0), "session"@),
        begins_with(SPEND_HEADER@.skip(9), "version"@),
        begins_with(SPEND_HEADER@.skip(19), "start"@),
        begins_with(SPEND_HEADER@.skip(36), "model"@),
        ends_in(SPEND_HEADER@.take(63), "main_req"@),
        ends_in(SPEND_HEADER@.take(73), "in_k/req"@),
        ends_in(SPEND_HEADER@.take(82), "out/req"@),
        ends_in(SPEND_HEADER@.take(89), "agents"@),
        ends_in(SPEND_HEADER@.take(97), "share%"@),
        ends_in(SPEND_HEADER@.take(107), "cost*"@),
{
    reveal_strlit("session  version   start            model              main_req  in_k/req  out/req agents  share%     cost*");
    reveal_strlit("agents");
    reveal_strlit("cost*");
    reveal_strlit("in_k/req");
    reveal_strlit("main_req");
    reveal_strlit("model");
    reveal_strlit("out/req");
    reveal_strlit("session");
    reveal_strlit("share%");
    reveal_strlit("start");
    reveal_strlit("version");
}

// ---------------------------------------------------------------------------
// Selecting and listing
// ---------------------------------------------------------------------------

/// The sessions whose id begins so are all of them, letters of either case, in the order of
/// the list.
pub proof fn beginnings_of_ids_are_found(rows: Seq<SessionRow>, prefix: Seq<char>, n: int, p: int)
    requires
        0 <= n <= rows.len(),
    ensures
        hits(rows, prefix, n).contains(p) <==> 0 <= p < n && begins_with(
            lowered(rows[p].session_id@),
            lowered(prefix),
        ),
        forall|i: int, j: int|
            0 <= i < j < hits(rows, prefix, n).len() ==> (#[trigger] hits(rows, prefix, n)[i])
                < (#[trigger] hits(rows, prefix, n)[j]),
        forall|i: int|
            0 <= i < hits(rows, prefix, n).len() ==> 0 <= (#[trigger] hits(rows, prefix, n)[i]) < n,
    decreases n,
{
    if n > 0 {
        beginnings_of_ids_are_found(rows, prefix, n - 1, p);
        let before = hits(rows, prefix, n - 1);
        assert(begins_with(lowered(rows[n - 1].session_id@), lowered(prefix))
            == crate::commands::sessions::id_begins(rows[n - 1], prefix));
        if crate::commands::sessions::id_begins(rows[n - 1], prefix) {
            let all = before.push(n - 1);
            assert(all[before.len() as int] == n - 1);
            if before.contains(p) {
                let k = choose|k: int| 0 <= k < before.len() && before[k] == p;
                assert(all[k] == p);
            }
            if all.contains(p) && p != n - 1 {
                let k = choose|k: int| 0 <= k < all.len() && all[k] == p;
                assert(before[k] == p);
            }
        }
    }
}

/// A selection that is no number is the beginning of an id: it selects the one session that
/// has it, none where none has, and is ambiguous between all that have.
pub proof fn ids_are_selected_by_their_beginnings(rows: Seq<SessionRow>, sel: Seq<char>, p: int, q: int)
    requires
        trimmed(sel).len() > 0,
        parsed_unsigned(trimmed(sel)) is None,
        0 <= p < rows.len(),
        0 <= q < rows.len(),
    ensures
        ({
            let fits = |i: int|
                begins_with(lowered(rows[i].session_id@), lowered(trimmed(sel)));
            &&& selected(rows, sel) == Selection::One(p) ==> fits(p)
            &&& selected(rows, sel) is NoMatch ==> !fits(p)
            &&& fits(p) && fits(q) && p != q ==> selected(rows, sel) is Several
            &&& selected(rows, sel) matches Selection::Several(found) ==> (found.contains(p) <==> fits(
                p,
            ))
            &&& !(selected(rows, sel) is Nothing)
        }),
{
    let n = rows.len() as int;
    let s = trimmed(sel);
    let found = hits(rows, s, n);
    beginnings_of_ids_are_found(rows, s, n, p);
    beginnings_of_ids_are_found(rows, s, n, q);
    if found.len() == 1 && found.contains(p) {
        assert(found[0] == p);
    }
    if found.len() == 1 {
        assert(found.contains(found[0]));
    }
    if found.contains(p) && found.contains(q) && p != q {
        let i = choose|i: int| 0 <= i < found.len() && found[i] == p;
        let j = choose|j: int| 0 <= j < found.len() && found[j] == q;
        assert(i != j);
    }
}

/// A number within the list selects the session at that place, counted from one, whatever
/// the ids are; nothing typed selects nothing.
pub proof fn numbers_select_places(rows: Seq<SessionRow>, sel: Seq<char>, n: u64)
    requires
        parsed_unsigned(trimmed(sel)) == Some(n),
        1 <= n <= rows.len(),
        trimmed(sel).len() > 0,
    ensures
        selected(rows, sel) == Selection::One(n - 1),
        selected(rows, Seq::empty()) is Nothing,
{
    assert(trimmed(Seq::<char>::empty()).len() == 0);
}

/// What is listed is what passes, in the order of the sessions, up to the limit; without a
/// limit it is all that passes.
pub proof fn lists_stop_at_their_limit(rows: Seq<SessionRow>, filter: Option<Seq<char>>, limit: nat)
    ensures
        ({
            let all = listed(rows, filter, 0);
            let some = listed(rows, filter, limit);
            &&& limit == 0 || all.len() <= limit ==> some == all
            &&& limit > 0 && all.len() > limit ==> some.len() == limit && some == all.take(
                limit as int,
            )
        }),
{
}

/// A list has its headings first and then a line for each session that is listed, with the
/// session's place in the list of all; where none is listed it says so, and in which
/// directory.
pub proof fn lists_have_a_line_for_each(
    rows: Seq<SessionRow>,
    filter: Option<Seq<char>>,
    limit: nat,
    note: bool,
    i: int,
)
    ensures
        ({
            let positions = listed(rows, filter, limit);
            let lines = shown_list(rows, filter, limit, note);
            &&& positions.len() > 0 ==> lines[0] == LIST_HEADER@
            &&& 0 <= i < positions.len() ==> lines[i + 1] == list_line(
                (positions[i] + 1) as nat,
                rows[positions[i]],
            )
            &&& positions.len() == 0 && filter is None ==> lines == seq!["(no sessions recorded)"@]
            &&& positions.len() == 0 ==> (filter matches Some(dir) ==> lines == seq![
                "(no sessions recorded under "@ + dir + ")"@,
            ])
            &&& positions.len() > 0 && !(note && filter is Some) ==> lines.len() == positions.len()
                + 5
            &&& positions.len() > 0 && note && filter is Some ==> lines.len() == positions.len() + 7
        }),
{
}

/// A tilde at the beginning of a path, alone or before a slash, stands for the home
/// directory, and nothing else does.
pub proof fn tildes_stand_for_home(home: Seq<char>, rest: Seq<char>, c: char)
    requires
        c != '/',
    ensures
        expanded(seq!['~'], Some(home)) == home,
        expanded(seq!['~', '/'] + rest, Some(home)) == home + seq!['/'] + rest,
        expanded(seq!['~', c] + rest, Some(home)) == seq!['~', c] + rest,
        rest.len() > 0 && rest[0] != '~' ==> expanded(rest, Some(home)) == rest,
        expanded(rest, None) == rest,
{
    assert(seq!['~'].skip(1) =~= Seq::empty());
    assert(home + Seq::<char>::empty() =~= home);
    assert((seq!['~', '/'] + rest).skip(1) =~= seq!['/'] + rest);
    assert(home + (seq!['/'] + rest) =~= home + seq!['/'] + rest);
}

/// A duration is shown in hours and in minutes of two digits; seconds are dropped.
pub proof fn durations_in_hours_and_minutes(hours: nat, minutes: nat, seconds: nat)
    requires
        minutes < 60,
        seconds < 60,
    ensures
        hours_and_minutes((hours * 3600 + minutes * 60 + seconds) as int) == dec(hours) + "h"@
            + two_digits(minutes) + "m"@,
{
    let n = (hours * 3600 + minutes * 60 + seconds) as int;
    assert(n / 3600 == hours);
    assert((n - hours * 3600) / 60 == minutes);
}

/// The parts of a directory that are shown are its last two, or its only one.
pub proof fn the_last_two_parts_show(dir: Seq<char>, a: Seq<char>, b: Seq<char>)
    requires
        is_plain_path(dir),
        is_plain_name(a),
        is_plain_name(b),
    ensures
        last_two_parts(dir + seq!['/'] + a + seq!['/'] + b) == a + seq!['/'] + b,
        last_two_parts(b) == b,
{
    let front = dir + seq!['/'] + a;
    assert(front.last() == a.last());
    assert(a.last() == a[a.len() - 1]);
    if a.len() == 1 {
        assert(front[front.len() - 2] == '/');
        if a.last() == '.' {
            assert(a =~= seq!['.']);
        }
    } else {
        assert(front[front.len() - 2] == a[a.len() - 2]);
    }
    what_lies_in_a_directory(front, b);
    what_lies_in_a_directory(dir, a);
    names_alone(b);
    reveal_strlit("/");
    assert("/"@ =~= seq!['/']);
    let p = front + seq!['/'] + b;
    slashes_at_the_end_do_not_count(front);
    lemma_before_last(front, b);
    assert(last_part(Seq::empty()) =~= Seq::empty());
}

proof fn lemma_before_last(front: Seq<char>, b: Seq<char>)
    requires
        is_plain_path(front),
        is_plain_name(b),
    ensures
        before_last_part(front + seq!['/'] + b) == front + seq!['/'],
        before_last_part(b) == Seq::<char>::empty(),
{
    let p = front + seq!['/'] + b;
    assert(p.last() == b.last());
    assert(b.last() == b[b.len() - 1]);
    assert(without_slashes(p) == p);
    lemma_last_slash(front, b);
    assert(p.take(front.len() as int + 1) =~= front + seq!['/']);
    names_alone(b);
    assert(before_last_part(b) =~= Seq::empty());
}

/// A table of versions has its headings first and then a line for each version; without
/// versions it says so.
pub proof fn tables_have_a_line_for_each(versions: Seq<VersionRow>, spenders: Seq<SpendRow>, i: int)
    ensures
        version_table(versions)[0] == VERSION_HEADER@,
        0 <= i < versions.len() ==> version_table(versions)[i + 1] == version_line(versions[i]),
        version_table(versions).len() == (if versions.len() == 0 {
            2
        } else {
            versions.len() + 4
        }),
        spend_table(spenders)[0] == SPEND_HEADER@,
        0 <= i < spenders.len() ==> spend_table(spenders)[i + 1] == spend_line(spenders[i]),
        spend_table(spenders).len() == spenders.len() + 3,
{
}

/// The session that is selected is the one at its place; where none is, or several are, the
/// answer is a failure, and nothing typed is one too.
pub proof fn selections_are_answered(rows: &[SessionRow], sel: &str, r: Result<&SessionRow>)
    requires
        call_ensures(resolve, (rows, sel), r),
    ensures
        selected(rows@, sel@) matches Selection::One(i) ==> (r matches Ok(row) && 0 <= i
            < rows@.len() && *row == rows@[i]),
        !(selected(rows@, sel@) is One) ==> r is Err,
        selected(rows@, sel@) is Nothing ==> (r matches Err(e) && e.text() == "empty selection"@),
        selected(rows@, sel@) is NoMatch ==> (r matches Err(e) && begins_with(
            e.text(),
            "no session matches '"@ + trimmed(sel@) + "'"@,
        )),
        selected(rows@, sel@) matches Selection::Several(found) ==> (r matches Err(e)
            && begins_with(
            e.text(),
            "'"@ + trimmed(sel@) + "' matches "@ + dec(found.len()) + " sessions"@,
        )),
{
    reveal_strlit("no session matches '");
    reveal_strlit("' (index 1..");
    reveal_strlit("'");
    reveal_strlit("' matches ");
    reveal_strlit(" sessions, lengthen the prefix:\n  ");
    reveal_strlit(" sessions");
}

/// Of the sessions between which a selection is ambiguous, the first eight are named, by
/// their ids.
pub proof fn some_candidates_are_named(rows: Seq<SessionRow>, found: Seq<int>, i: int)
    ensures
        ids_at(rows, found, 8).len() == (if found.len() <= 8 {
            found.len()
        } else {
            8
        }),
        0 <= i < ids_at(rows, found, 8).len() ==> ids_at(rows, found, 8)[i]
            == rows[found[i]].session_id@,
        CANDIDATES == 8,
{
}

/// Each session that is listed comes with its place among all, counted from one.
pub proof fn listed_sessions_come_with_their_places(
    rows: &[SessionRow],
    filter: Option<&str>,
    limit: usize,
    r: Vec<(usize, &SessionRow)>,
    i: int,
)
    requires
        call_ensures(index_and_filter, (rows, filter, limit), r),
        0 <= i < r@.len(),
    ensures
        1 <= r@[i].0 <= rows@.len(),
        *r@[i].1 == rows@[r@[i].0 - 1],
        r@.len() == listed(rows@, opt_str(filter), limit as nat).len(),
        r@[i].0 == listed(rows@, opt_str(filter), limit as nat)[i] + 1,
{
    let e = r@[i];
    assert(crate::commands::sessions::is_entry(
        e,
        rows@,
        listed(rows@, opt_str(filter), limit as nat)[i],
    ));
}

/// A transcript is called by its file's name without the ending.
pub proof fn transcripts_are_called_by_name(dir: Seq<char>, name: Seq<char>)
    requires
        is_plain_path(dir),
        is_plain_name(name),
        !ends_in(name, ".jsonl"@),
    ensures
        transcript_name(dir + seq!['/'] + (name + ".jsonl"@)) == name,
        transcript_name(name) == name,
{
    reveal_strlit(".jsonl");
    let file = name + ".jsonl"@;
    assert(is_free_of(file, '/')) by {
        assert forall|i: int| 0 <= i < file.len() implies #[trigger] file[i] != '/' by {
            if i < name.len() {
                assert(file[i] == name[i]);
            }
        }
    }
    assert(file != seq!['.'] && file != seq!['.', '.']) by {
        assert(file.len() > 6);
    }
    what_lies_in_a_directory(dir, file);
    names_alone(name);
    assert(file.skip(file.len() - 6) =~= ".jsonl"@);
    assert(file.take(file.len() - 6) =~= name);
    reveal_with_fuel(without_ending, 3);
    if name.len() >= 6 && name.skip(name.len() - 6) == ".jsonl"@ {
        assert(ends_in(name, ".jsonl"@));
    }
}

/// A directory lies under itself and under those above it, part by part, with slashes at
/// the end or without; one whose name only begins alike does not.
pub proof fn directories_lie_under_others(dir: Seq<char>, rest: Seq<char>)
    requires
        dir.len() > 0,
        dir.last() != '/',
        rest.len() > 0,
        rest.last() != '/',
    ensures
        is_under(Some(dir), dir),
        is_under(Some(dir + seq!['/']), dir),
        is_under(Some(dir), dir + seq!['/']),
        is_under(Some(dir + seq!['/'] + rest), dir),
        !is_under(Some(dir), dir + seq!['/'] + rest),
        rest[0] != '/' ==> !is_under(Some(dir + rest), dir),
        !is_under(None, dir),
{
    let below = dir + seq!['/'] + rest;
    assert((dir + seq!['/']).drop_last() =~= dir);
    assert(without_slashes(dir + seq!['/']) == dir) by {
        reveal_with_fuel(without_slashes, 2);
    }
    assert(below.last() == rest.last());
    assert(below.take(dir.len() as int) =~= dir);
    assert(below[dir.len() as int] == '/');
    assert((dir + rest).last() == rest.last());
    assert((dir + rest)[dir.len() as int] == rest[0]);
    assert((dir + rest).len() != dir.len());
    assert(below.len() > dir.len());
}

/// What is listed are the sessions under the directory that is asked for, or all where none
/// is, each once and in their order.
pub proof fn what_passes_is_listed(rows: Seq<SessionRow>, f: Seq<char>, filter: Option<Seq<char>>, p: int)
    ensures
        listed(rows, Some(f), 0).contains(p) <==> 0 <= p < rows.len() && is_under(
            opt_view(rows[p].workspace_dir),
            f,
        ),
        listed(rows, None, 0).contains(p) <==> 0 <= p < rows.len(),
        forall|i: int, j: int|
            0 <= i < j < listed(rows, filter, 0).len() ==> #[trigger] listed(rows, filter, 0)[i]
                < #[trigger] listed(rows, filter, 0)[j],
{
    lemma_kept(rows, Some(f), rows.len() as int, p);
    lemma_kept(rows, None, rows.len() as int, p);
    lemma_kept(rows, filter, rows.len() as int, p);
}

proof fn lemma_kept(rows: Seq<SessionRow>, filter: Option<Seq<char>>, n: int, p: int)
    requires
        0 <= n,
    ensures
        ({
            let all = kept(rows, filter, n);
            &&& all.contains(p) <==> 0 <= p < n && is_kept(rows[p], filter)
            &&& forall|i: int| 0 <= i < all.len() ==> 0 <= #[trigger] all[i] < n
            &&& forall|i: int, j: int|
                0 <= i < j < all.len() ==> #[trigger] all[i] < #[trigger] all[j]
        }),
    decreases n,
{
    if n > 0 {
        lemma_kept(rows, filter, n - 1, p);
        let before = kept(rows, filter, n - 1);
        let all = kept(rows, filter, n);
        if is_kept(rows[n - 1], filter) {
            assert(all == before.push(n - 1));
            if before.contains(p) {
                let i = choose|i: int| 0 <= i < before.len() && before[i] == p;
                assert(all[i] == p);
            }
            if p == n - 1 {
                assert(all[before.len() as int] == p);
            }
            if all.contains(p) && p != n - 1 {
                let i = choose|i: int| 0 <= i < all.len() && all[i] == p;
                assert(before[i] == p);
            }
        }
    }
}

} // verus!
