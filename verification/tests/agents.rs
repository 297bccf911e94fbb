use statusline::agents::{
    absorb, consume_line, lines_to_parse, note_agent_type, read_agent_type, resume, short_tokens,
    subagents_dir, AgentsSummary, Progress, Step, TranscriptEntry, TranscriptTotals, Usage,
};

fn entry(role: &str, rid: &str, input: u32, cr: u32, cc: u32, out: u32) -> Option<TranscriptEntry> {
    Some(TranscriptEntry {
        request_id: Some(rid.to_string()),
        role: role.to_string(),
        usage: Some(Usage {
            input_tokens: Some(input),
            output_tokens: Some(out),
            cache_read_input_tokens: Some(cr),
            cache_creation_input_tokens: Some(cc),
        }),
    })
}

#[test]
fn short_tokens_formats() {
    assert_eq!(short_tokens(999), "999");
    assert_eq!(short_tokens(449_960), "449k");
    assert_eq!(short_tokens(1_234_567), "1.2M");
    assert_eq!(short_tokens(152_042_078), "152M");
}

#[test]
fn short_tokens_rounds_like_a_double() {
    let mut n = 1_000_000u64;
    while n < 10_000_000 {
        assert_eq!(short_tokens(n), format!("{:.1}M", n as f64 / 1_000_000.0), "{n}");
        n += 10_000;
    }
}

#[test]
fn responses_count_once_and_agents_are_attributed() {
    let mut main = Progress::default();
    let user = entry("user", "u", 1, 1, 1, 1);
    for e in [
        &user,
        &entry("assistant", "req-1", 10, 1000, 100, 50),
        &entry("assistant", "req-1", 10, 1000, 100, 50),
        &entry("assistant", "req-1", 10, 1000, 100, 50),
        &None,
        &entry("assistant", "req-2", 20, 2000, 200, 60),
    ] {
        consume_line(e, &mut main);
    }
    assert_eq!(main.totals.requests, 2);
    assert_eq!(main.totals.output_tokens, 110);
    assert_eq!(main.totals.input_traffic(), 10 + 1000 + 100 + 20 + 2000 + 200);

    let mut agent = Progress::default();
    consume_line(&entry("assistant", "areq-1", 5, 500, 50, 25), &mut agent);
    let mut s = AgentsSummary::of_main(main.totals);
    assert!(!s.has_agents());
    s.record_agent(&agent.totals, Some("Explore".to_string()));
    s.record_agent(&TranscriptTotals::default(), None);
    assert!(s.has_agents());
    assert_eq!(s.agent_files, 2);
    assert_eq!(s.agent_types.get("Explore"), Some(&1));
    assert_eq!(s.agent_types.get("unknown"), Some(&1));
    let share = 555.0 * 100.0 / (3330.0 + 555.0);
    assert_eq!(s.agent_share_percent(2).unwrap(), format!("{share:.2}"));
    assert_eq!(s.agent_share_percent(0).unwrap(), "14");
}

#[test]
fn no_traffic_has_no_share() {
    let s = AgentsSummary::of_main(TranscriptTotals::default());
    assert!(s.agent_share_percent(0).is_none());
    let main = TranscriptTotals { input_tokens: 1, ..TranscriptTotals::default() };
    assert_eq!(AgentsSummary::of_main(main).agent_share_percent(1).unwrap(), "0.0");
}

#[test]
fn reading_in_two_goes_agrees_with_reading_in_one() {
    let a = b"{\"role\":\"assistant\",\"n\":1}\n{\"role\":\"assis".to_vec();
    let b = b"tant\",\"n\":2}\n\nnoise\n".to_vec();
    let whole: Vec<u8> = a.iter().chain(b.iter()).copied().collect();
    let first = lines_to_parse(&a);
    assert_eq!(first.len(), 1);
    let cut = a.iter().rposition(|&x| x == b'\n').unwrap() + 1;
    let rest: Vec<u8> = a[cut..].iter().chain(b.iter()).copied().collect();
    let second = lines_to_parse(&rest);
    assert_eq!(second.len(), 1);
    let all = lines_to_parse(&whole);
    assert_eq!(all, [first[0].clone(), second[0].clone()]);

    let e1 = || entry("assistant", "r1", 1, 2, 3, 4);
    let e2 = || entry("assistant", "r2", 5, 6, 7, 8);
    let mut stepwise = Progress::default();
    absorb(&mut stepwise, &a, &vec![e1()], a.len() as u64, 1);
    assert_eq!(stepwise.offset, cut as u64);
    assert_eq!(stepwise.totals.requests, 1);
    absorb(&mut stepwise, &rest, &vec![e2()], whole.len() as u64, 2);
    let mut once = Progress::default();
    absorb(&mut once, &whole, &vec![e1(), e2()], whole.len() as u64, 2);
    assert_eq!(stepwise.totals, once.totals);
    assert_eq!(stepwise.offset, once.offset);
    assert_eq!(stepwise.last_request_id, once.last_request_id);
    assert_eq!((stepwise.size, stepwise.mtime), (once.size, once.mtime));
}

#[test]
fn an_unfinished_line_is_not_consumed() {
    let buf = b"{\"role\":\"assistant\"}".to_vec();
    assert!(lines_to_parse(&buf).is_empty());
    let mut p = Progress::default();
    absorb(&mut p, &buf, &Vec::new(), buf.len() as u64, 3);
    assert_eq!(p.offset, 0);
    assert_eq!(p.totals, TranscriptTotals::default());
}

#[test]
fn a_file_is_resumed_restarted_or_left_alone() {
    let stored = || {
        Some(Progress {
            size: 100,
            mtime: 7,
            offset: 90,
            last_request_id: None,
            totals: TranscriptTotals { requests: 3, ..TranscriptTotals::default() },
            agent_type: None,
        })
    };
    assert!(matches!(resume(stored(), 100, 7), Step::Unchanged(p) if p.totals.requests == 3));
    assert!(matches!(resume(stored(), 120, 8), Step::Read(p) if p.offset == 90));
    assert!(matches!(resume(stored(), 100, 8), Step::Read(p) if p.offset == 90));
    assert!(matches!(resume(stored(), 89, 8), Step::Read(p) if p.offset == 0 && p.totals.requests == 0));
    assert!(matches!(resume(None, 5, 5), Step::Read(p) if p.offset == 0));
}

#[test]
fn the_agent_type_comes_from_the_metadata() {
    let mut p = Progress::default();
    read_agent_type(&mut p, true, Some("{\"agentType\":\"Explore\",\"description\":\"x\"}"));
    assert_eq!(p.agent_type.as_deref(), Some("Explore"));
    read_agent_type(&mut p, true, Some("{\"agentType\":\"other\"}"));
    assert_eq!(p.agent_type.as_deref(), Some("Explore"));
    let mut q = Progress::default();
    read_agent_type(&mut q, false, Some("{\"agentType\":\"Explore\"}"));
    assert!(q.agent_type.is_none());
    read_agent_type(&mut q, true, Some("not json"));
    assert!(q.agent_type.is_none());
    read_agent_type(&mut q, true, Some("{\"agentType\":5}"));
    assert!(q.agent_type.is_none());
    read_agent_type(&mut q, true, None);
    assert!(q.agent_type.is_none());
    note_agent_type(&mut q, true, Some("Plan".to_string()));
    assert_eq!(q.agent_type.as_deref(), Some("Plan"));
}

#[test]
fn agent_transcripts_lie_beside_the_main_one() {
    assert_eq!(subagents_dir("/p/s.jsonl", "s").as_deref(), Some("/p/s/subagents"));
    assert_eq!(subagents_dir("s.jsonl", "s").as_deref(), Some("s/subagents"));
    assert_eq!(subagents_dir("/s.jsonl", "s").as_deref(), Some("/s/subagents"));
    assert_eq!(subagents_dir("/", "s"), None);
    assert_eq!(subagents_dir("", "s"), None);
    for p in ["/a/b.jsonl", "a/b", "a//b", "a/./b", "/a/b/", "/a/.", "x", "./x"] {
        let expected = std::path::Path::new(p)
            .parent()
            .map(|d| d.join("s").join("subagents").to_string_lossy().into_owned());
        assert_eq!(subagents_dir(p, "s"), expected, "{p}");
    }
}

/// A transcript line as it is written.
fn line(role: &str, rid: &str, input: u32, cr: u32, cc: u32, out: u32) -> String {
    format!(
        r#"{{"type":"{role}","requestId":"{rid}","timestamp":"2026-09-16T00:00:00.000Z","message":{{"role":"{role}","content":[{{"type":"text","text":"x"}}],"usage":{{"input_tokens":{input},"cache_read_input_tokens":{cr},"cache_creation_input_tokens":{cc},"output_tokens":{out}}}}}}}"#
    )
}

fn user_line() -> String {
    r#"{"type":"user","timestamp":"2026-09-16T00:00:00.000Z","message":{"role":"user","content":"an assistant question"}}"#.to_string()
}

fn parse(line: &[u8]) -> Option<TranscriptEntry> {
    let v: serde_json::Value = serde_json::from_slice(line).ok()?;
    let m = v.get("message")?;
    let count = |u: &serde_json::Value, k: &str| {
        u.get(k).and_then(|n| n.as_u64()).map(|n| n as u32)
    };
    Some(TranscriptEntry {
        request_id: v.get("requestId").and_then(|r| r.as_str()).map(str::to_string),
        role: m.get("role")?.as_str()?.to_string(),
        usage: m.get("usage").map(|u| Usage {
            input_tokens: count(u, "input_tokens"),
            output_tokens: count(u, "output_tokens"),
            cache_read_input_tokens: count(u, "cache_read_input_tokens"),
            cache_creation_input_tokens: count(u, "cache_creation_input_tokens"),
        }),
    })
}

/// Read on in a file with the given contents, from where the last reading ended.
fn advance(stored: Option<Progress>, file: &[u8], is_agent: bool) -> Progress {
    let size = file.len() as u64;
    let mut state = match resume(stored, size, 0) {
        Step::Unchanged(p) => return p,
        Step::Read(p) => p,
    };
    let meta = r#"{"agentType":"Explore","description":"x"}"#;
    read_agent_type(&mut state, is_agent, Some(meta));
    let buf = file[state.offset as usize..].to_vec();
    let entries: Vec<Option<TranscriptEntry>> =
        lines_to_parse(&buf).iter().map(|l| parse(l)).collect();
    absorb(&mut state, &buf, &entries, size, 0);
    state
}

/// One response written as three lines, then a second one, and a user's line that
/// mentions the assistant.
fn main_file() -> Vec<u8> {
    let mut f = format!("{}\n", user_line());
    for _ in 0..3 {
        f += &format!("{}\n", line("assistant", "req-1", 10, 1000, 100, 50));
    }
    f += &format!("{}\n", line("assistant", "req-2", 20, 2000, 200, 60));
    f.into_bytes()
}

fn agent_file() -> Vec<u8> {
    let l = line("assistant", "areq-1", 5, 500, 50, 25);
    format!("{l}\n{l}\n").into_bytes()
}

#[test]
fn dedupes_per_request_and_attributes_agents() {
    let main = advance(None, &main_file(), false);
    let agent = advance(None, &agent_file(), true);
    let mut s = AgentsSummary::of_main(main.totals);
    s.record_agent(&agent.totals, agent.agent_type);
    assert_eq!(s.main.requests, 2);
    assert_eq!(s.main.output_tokens, 110);
    assert_eq!(s.main.input_traffic(), 10 + 1000 + 100 + 20 + 2000 + 200);
    assert_eq!(s.agent_files, 1);
    assert_eq!(s.agents.requests, 1);
    assert_eq!(s.agents.output_tokens, 25);
    assert_eq!(s.agent_types.get("Explore"), Some(&1));
    let share: f64 = s.agent_share_percent(2).unwrap().parse().unwrap();
    assert!((share - 555.0 * 100.0 / (3330.0 + 555.0)).abs() < 0.01);
}

#[test]
fn second_scan_is_idempotent_and_appends_are_incremental() {
    let mut file = agent_file();
    let first = advance(None, &file, true);
    let totals = first.totals;
    let again = advance(Some(first), &file, true);
    assert_eq!(totals, again.totals);

    // A line without its end is not consumed yet.
    let l = line("assistant", "areq-2", 1, 1, 1, 7).into_bytes();
    file.extend_from_slice(&l[..l.len() / 2]);
    let partial = advance(Some(again), &file, true);
    assert_eq!(partial.totals.requests, 1);

    // Once it is complete it counts, and the lines of the same response that follow do not.
    file.extend_from_slice(&l[l.len() / 2..]);
    file.push(b'\n');
    file.extend_from_slice(&l);
    file.push(b'\n');
    let after = advance(Some(partial), &file, true);
    assert_eq!(after.totals.requests, 2);
    assert_eq!(after.totals.output_tokens, 32);
}

#[test]
fn truncated_file_resets_state() {
    let before = advance(None, &agent_file(), true);
    let file = format!("{}\n", line("assistant", "z", 1, 1, 1, 3)).into_bytes();
    let after = advance(Some(before), &file, true);
    assert_eq!(after.totals.requests, 1);
    assert_eq!(after.totals.output_tokens, 3);
}

#[test]
fn no_subagents_dir_means_no_agents() {
    let file = format!("{}\n", line("assistant", "r", 1, 2, 3, 4)).into_bytes();
    let s = AgentsSummary::of_main(advance(None, &file, false).totals);
    assert!(!s.has_agents());
    assert_eq!(s.main.requests, 1);
    assert_eq!(s.agent_share_percent(0), Some("0".to_string()));
}
