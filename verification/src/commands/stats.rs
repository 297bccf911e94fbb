//! The `stats` command: how tokens are spent, by version or by session.
//!
//! Versions are compared by ratios over whole sessions. Costs are not: a session's cost is
//! the counter of the last process that reported it.

use crate::commands::sessions::{share, share_digits, COST_NOTE};
use crate::double::Double;
use crate::ratio::{per_digits, per_text, per_thousand_digits, per_thousand_text};
use crate::text::{
    concat2, dec_int, head, i64_text, join, joined, left, pad_left, pad_right, right, take, views,
};
use vstd::prelude::*;

verus! {

/// What the sessions of a version come to.
#[derive(Debug)]
pub struct VersionRow {
    pub version: String,
    pub sessions: i64,
    /// Days of the first and of the last session.
    pub first: String,
    pub last: String,
    pub main_requests: i64,
    pub main_input_tokens: i64,
    pub main_output_tokens: i64,
    pub agent_count: i64,
    pub agent_requests: i64,
    pub agent_input_tokens: i64,
    pub agent_output_tokens: i64,
}

/// What a session comes to.
#[derive(Debug)]
pub struct SpendRow {
    pub session: String,
    pub version: String,
    pub start: String,
    pub model: String,
    pub main_requests: i64,
    pub main_input_tokens: i64,
    pub main_output_tokens: i64,
    pub agent_count: i64,
    pub agent_input_tokens: i64,
    pub cost: Double,
}

/// Which view is shown.
#[derive(Debug, Clone, Copy, PartialEq, Eq, Structural)]
pub enum StatsView {
    ByVersion,
    Sessions,
}

/// Which view is shown: sessions where only they are asked for, else versions.
pub fn choose_view(by_version: bool, sessions: bool) -> (r: StatsView)
    ensures
        r == (if sessions && !by_version {
            StatsView::Sessions
        } else {
            StatsView::ByVersion
        }),
{
    if sessions && !by_version {
        StatsView::Sessions
    } else {
        StatsView::ByVersion
    }
}

pub const VERSION_HEADER: &'static str = "version     sess  first      last       main_req  in_k/req  out/req  agents agent_req ag_out/rq  share%";

pub const NO_VERSIONS: &'static str = "(no sessions with attribution data yet; it accumulates as sessions render)";

pub const TRAFFIC_NOTE: &'static str = "in_k/req = main input traffic (fresh + cache read + cache write) per main request, thousands";

pub const SHARE_NOTE: &'static str = "share%   = agents' input traffic / (agents + main); a jump after an update is the signal";

/// The line of a version.
pub open spec fn version_line(r: VersionRow) -> Seq<char> {
    joined(
        seq![
            left(r.version@, 10),
            right(dec_int(r.sessions as int), 5) + " "@,
            left(r.first@, 10),
            left(r.last@, 10),
            right(dec_int(r.main_requests as int), 8),
            right(per_thousand_digits(r.main_input_tokens as int, r.main_requests as int), 9),
            right(per_digits(r.main_output_tokens as int, r.main_requests as int, 0), 8),
            right(dec_int(r.agent_count as int), 7),
            right(dec_int(r.agent_requests as int), 9),
            right(per_digits(r.agent_output_tokens as int, r.agent_requests as int, 0), 9),
            right(share_digits(r.agent_input_tokens as int, r.main_input_tokens as int), 6) + "%"@,
        ],
        " "@,
    )
}

fn version_line_text(r: &VersionRow) -> (t: String)
    ensures
        t@ == version_line(*r),
{
    let part = share(r.agent_input_tokens, r.main_input_tokens);
    let input = per_thousand_text(r.main_input_tokens as i128, r.main_requests as i128);
    let output = per_text(r.main_output_tokens as i128, r.main_requests as i128, 0);
    let agent_output = per_text(r.agent_output_tokens as i128, r.agent_requests as i128, 0);
    let columns = vec![
        pad_left(r.version.as_str(), 10),
        concat2(pad_right(i64_text(r.sessions).as_str(), 5).as_str(), " "),
        pad_left(r.first.as_str(), 10),
        pad_left(r.last.as_str(), 10),
        pad_right(i64_text(r.main_requests).as_str(), 8),
        pad_right(input.as_str(), 9),
        pad_right(output.as_str(), 8),
        pad_right(i64_text(r.agent_count).as_str(), 7),
        pad_right(i64_text(r.agent_requests).as_str(), 9),
        pad_right(agent_output.as_str(), 9),
        concat2(pad_right(part.as_str(), 6).as_str(), "%"),
    ];
    proof {
        assert(views(columns@) =~= seq![
            left(r.version@, 10),
            right(dec_int(r.sessions as int), 5) + " "@,
            left(r.first@, 10),
            left(r.last@, 10),
            right(dec_int(r.main_requests as int), 8),
            right(per_thousand_digits(r.main_input_tokens as int, r.main_requests as int), 9),
            right(per_digits(r.main_output_tokens as int, r.main_requests as int, 0), 8),
            right(dec_int(r.agent_count as int), 7),
            right(dec_int(r.agent_requests as int), 9),
            right(per_digits(r.agent_output_tokens as int, r.agent_requests as int, 0), 9),
            right(share_digits(r.agent_input_tokens as int, r.main_input_tokens as int), 6) + "%"@,
        ]);
    }
    join(&columns, " ")
}

/// The table of versions.
pub open spec fn version_table(rows: Seq<VersionRow>) -> Seq<Seq<char>> {
    seq![VERSION_HEADER@] + rows.map_values(|r: VersionRow| version_line(r)) + (if rows.len() == 0 {
        seq![NO_VERSIONS@]
    } else {
        seq![Seq::empty(), TRAFFIC_NOTE@, SHARE_NOTE@]
    })
}

/// The table of versions, line by line.
pub fn show_by_version(rows: &Vec<VersionRow>) -> (r: Vec<String>)
    ensures
        views(r@) == version_table(rows@),
{
    let n: usize = rows.len();
    let mut out: Vec<String> = Vec::new();
    out.push(VERSION_HEADER.to_owned());
    let ghost lines = rows@.map_values(|r: VersionRow| version_line(r));
    let mut i: usize = 0;
    proof {
        assert(views(out@) =~= seq![VERSION_HEADER@] + lines.take(0));
    }
    while i < n
        invariant
            n == rows@.len(),
            i <= n,
            lines == rows@.map_values(|r: VersionRow| version_line(r)),
            views(out@) == seq![VERSION_HEADER@] + lines.take(i as int),
        decreases n - i,
    {
        let ghost before = views(out@);
        out.push(version_line_text(&rows[i]));
        proof {
            assert(views(out@) =~= before.push(lines[i as int]));
            assert(views(out@) =~= seq![VERSION_HEADER@] + lines.take(i + 1));
        }
        i += 1;
    }
    proof {
        assert(lines.take(n as int) =~= lines);
    }
    let ghost top = views(out@);
    if n == 0 {
        out.push(NO_VERSIONS.to_owned());
        proof {
            assert(views(out@) =~= version_table(rows@));
        }
    } else {
        out.push(String::new());
        out.push(TRAFFIC_NOTE.to_owned());
        out.push(SHARE_NOTE.to_owned());
        proof {
            assert(out@[top.len() as int]@ =~= Seq::<char>::empty());
            assert(views(out@) =~= version_table(rows@));
        }
    }
    out
}

pub const SPEND_HEADER: &'static str = "session  version   start            model              main_req  in_k/req  out/req agents  share%     cost*";

/// The line of a session.
pub open spec fn spend_line(r: SpendRow) -> Seq<char> {
    joined(
        seq![
            left(r.session@, 8),
            left(r.version@, 9),
            left(r.start@, 16),
            left(head(r.model@, 18), 18),
            right(dec_int(r.main_requests as int), 8),
            right(per_thousand_digits(r.main_input_tokens as int, r.main_requests as int), 9),
            right(per_digits(r.main_output_tokens as int, r.main_requests as int, 0), 8),
            right(dec_int(r.agent_count as int), 6),
            right(share_digits(r.agent_input_tokens as int, r.main_input_tokens as int), 6) + "%"@,
            right(r.cost.digits(2), 9),
        ],
        " "@,
    )
}

fn spend_line_text(r: &SpendRow) -> (t: String)
    ensures
        t@ == spend_line(*r),
{
    let part = share(r.agent_input_tokens, r.main_input_tokens);
    let input = per_thousand_text(r.main_input_tokens as i128, r.main_requests as i128);
    let output = per_text(r.main_output_tokens as i128, r.main_requests as i128, 0);
    let columns = vec![
        pad_left(r.session.as_str(), 8),
        pad_left(r.version.as_str(), 9),
        pad_left(r.start.as_str(), 16),
        pad_left(take(r.model.as_str(), 18).as_str(), 18),
        pad_right(i64_text(r.main_requests).as_str(), 8),
        pad_right(input.as_str(), 9),
        pad_right(output.as_str(), 8),
        pad_right(i64_text(r.agent_count).as_str(), 6),
        concat2(pad_right(part.as_str(), 6).as_str(), "%"),
        pad_right(r.cost.text(2).as_str(), 9),
    ];
    proof {
        assert(views(columns@) =~= seq![
            left(r.session@, 8),
            left(r.version@, 9),
            left(r.start@, 16),
            left(head(r.model@, 18), 18),
            right(dec_int(r.main_requests as int), 8),
            right(per_thousand_digits(r.main_input_tokens as int, r.main_requests as int), 9),
            right(per_digits(r.main_output_tokens as int, r.main_requests as int, 0), 8),
            right(dec_int(r.agent_count as int), 6),
            right(share_digits(r.agent_input_tokens as int, r.main_input_tokens as int), 6) + "%"@,
            right(r.cost.digits(2), 9),
        ]);
    }
    join(&columns, " ")
}

/// The table of sessions.
pub open spec fn spend_table(rows: Seq<SpendRow>) -> Seq<Seq<char>> {
    seq![SPEND_HEADER@] + rows.map_values(|r: SpendRow| spend_line(r)) + seq![
        Seq::empty(),
        COST_NOTE@,
    ]
}

/// The table of sessions, line by line.
pub fn show_sessions(rows: &Vec<SpendRow>) -> (r: Vec<String>)
    ensures
        views(r@) == spend_table(rows@),
{
    let n: usize = rows.len();
    let mut out: Vec<String> = Vec::new();
    out.push(SPEND_HEADER.to_owned());
    let ghost lines = rows@.map_values(|r: SpendRow| spend_line(r));
    let mut i: usize = 0;
    proof {
        assert(views(out@) =~= seq![SPEND_HEADER@] + lines.take(0));
    }
    while i < n
        invariant
            n == rows@.len(),
            i <= n,
            lines == rows@.map_values(|r: SpendRow| spend_line(r)),
            views(out@) == seq![SPEND_HEADER@] + lines.take(i as int),
        decreases n - i,
    {
        let ghost before = views(out@);
        out.push(spend_line_text(&rows[i]));
        proof {
            assert(views(out@) =~= before.push(lines[i as int]));
            assert(views(out@) =~= seq![SPEND_HEADER@] + lines.take(i + 1));
        }
        i += 1;
    }
    proof {
        assert(lines.take(n as int) =~= lines);
    }
    let ghost top = views(out@);
    out.push(String::new());
    out.push(COST_NOTE.to_owned());
    proof {
        assert(out@[top.len() as int]@ =~= Seq::<char>::empty());
        assert(views(out@) =~= spend_table(rows@));
    }
    out
}

} // verus!
