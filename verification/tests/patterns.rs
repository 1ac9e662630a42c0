//! The hand-written matchers checked against the regular expressions they
//! stand for, on many generated messages.
use regex::Regex;
use simplex_trace_tool::parser::extractors::{
    extract_actor, extract_from_actor, extract_leader, extract_payload, extract_peer, extract_to_actor,
    extract_view, try_extract_view,
};
use simplex_trace_tool::parser::log_parser::parse_line;

struct Gen(u64);

impl Gen {
    fn next(&mut self) -> u64 {
        self.0 = self.0.wrapping_mul(6364136223846793005).wrapping_add(1442695040888963407);
        self.0 >> 33
    }
    fn pick<'a>(&mut self, items: &[&'a str]) -> &'a str {
        items[(self.next() as usize) % items.len()]
    }
}

const HEX: &str = "a1B2c3D4e5F6a1b2c3d4e5f6a1b2c3d4e5f6a1b2c3d4e5f6a1b2c3d4e5f6a1b2";

fn message(g: &mut Gen) -> String {
    let pieces = [
        "view", "View", "VIEW", "vie", "=", ":", "(", ")", " ", "  ", "\t", "round=", "Round { ",
        "Round{", "view: View(", "epoch: Epoch(0), ", "}", "current", "current=", "0", "12", "345",
        "99999999999999999999", "payload=", "payload: ", HEX, "peer=", "leader=", "leader=7",
        "actor=", "from=", "to=", "abc", "_x", "é", "\u{661}\u{662}", "\u{3000}", "\u{85}", "x",
        "İ", "ẞ", "\u{212a}",
    ];
    let n = 1 + (g.next() % 10) as usize;
    let mut s = String::new();
    for _ in 0..n {
        s.push_str(g.pick(&pieces));
    }
    s
}

struct ViewPatterns {
    view: Regex,
    round: Regex,
    current: Regex,
}

fn view_patterns() -> ViewPatterns {
    ViewPatterns {
        view: Regex::new(r"(?i)view\s*[=:]\s*view?\s*\(?([0-9]+)\)?").unwrap(),
        round: Regex::new(r"round=\(?(?:Round\s*\{[^}]*view:\s*View\()?([0-9]+)").unwrap(),
        current: Regex::new(r"current[=:]?\s*([0-9]+)").unwrap(),
    }
}

/// The view by the patterns; `None` where cutting the message at the offset
/// found in its lower-case form is not possible.
fn view_by_regex(p: &ViewPatterns, msg: &str) -> Option<Option<u64>> {
    fn digits_after(slice: &str) -> Option<u64> {
        let mut digits = String::new();
        for ch in slice.chars() {
            if ch.is_ascii_digit() {
                digits.push(ch);
            } else if !digits.is_empty() {
                break;
            } else if ch.is_ascii_whitespace() || ch == '(' {
                continue;
            } else {
                break;
            }
        }
        if digits.is_empty() {
            None
        } else {
            digits.parse::<u64>().ok()
        }
    }
    let lower = msg.to_lowercase();
    for needle in ["view=", "view:", "view("] {
        if let Some(pos) = lower.find(needle) {
            let k = pos + needle.len();
            if !msg.is_char_boundary(k) {
                return None;
            }
            if let Some(v) = digits_after(&msg[k..]) {
                return Some(Some(v));
            }
        }
    }
    if let Some(c) = p.view.captures(msg).and_then(|c| c.get(1)) {
        if let Ok(v) = c.as_str().parse::<u64>() {
            return Some(Some(v));
        }
    }
    if let Some(c) = p.round.captures(msg).and_then(|c| c.get(1)) {
        if let Ok(v) = c.as_str().parse::<u64>() {
            return Some(Some(v));
        }
    }
    Some(p.current.captures(msg).and_then(|c| c.get(1)).and_then(|m| m.as_str().parse::<u64>().ok()))
}

fn group(re: &Regex, msg: &str) -> Option<String> {
    re.captures(msg).and_then(|c| c.get(1)).map(|m| m.as_str().to_string())
}

#[test]
fn view_agrees_with_the_patterns() {
    let p = view_patterns();
    let mut g = Gen(1);
    let mut cut = 0;
    for _ in 0..4000 {
        let m = message(&mut g);
        let expected = view_by_regex(&p, &m);
        assert_eq!(try_extract_view(&m), expected, "message {:?}", m);
        match expected {
            Some(v) => assert_eq!(extract_view(&m), v, "message {:?}", m),
            None => cut += 1,
        }
    }
    assert!(cut > 0);
}

#[test]
fn fields_agree_with_the_patterns() {
    let payload = Regex::new(r"payload[:=]\s*([0-9a-fA-F]{64})").unwrap();
    let peer = Regex::new(r"peer=([0-9a-fA-F]{64})").unwrap();
    let leader = Regex::new(r"leader=([0-9]+)").unwrap();
    let actor = Regex::new(r"actor=(\w+)").unwrap();
    let from = Regex::new(r"from=(\w+)").unwrap();
    let to = Regex::new(r"to=(\w+)").unwrap();
    let mut g = Gen(2);
    for _ in 0..4000 {
        let m = message(&mut g);
        assert_eq!(
            extract_payload(&m),
            group(&payload, &m).map(|s| s.to_lowercase()),
            "message {:?}",
            m
        );
        assert_eq!(
            extract_peer(&m),
            group(&peer, &m).map(|s| s.to_lowercase()),
            "message {:?}",
            m
        );
        assert_eq!(
            extract_leader(&m),
            group(&leader, &m).and_then(|s| s.parse::<u8>().ok()),
            "message {:?}",
            m
        );
        assert_eq!(extract_actor(&m), group(&actor, &m), "message {:?}", m);
        assert_eq!(extract_from_actor(&m), group(&from, &m), "message {:?}", m);
        assert_eq!(extract_to_actor(&m), group(&to, &m), "message {:?}", m);
    }
}

fn line(g: &mut Gen) -> String {
    let ts = g.pick(&["2024-01-15T10:00:00.123456789Z", "2024-01-15T10:00:00Z", "bad", "1970-01-01T00:00:00+02:00"]);
    let sp = [" ", "  ", "\t", " \u{3000}"];
    let level = g.pick(&["DEBUG", "INFO", "debug", "", "TRACE"]);
    let thread = g.pick(&["ThreadId(01)", "ThreadId()", "ThreadId(1))", "Thread(1)"]);
    let target = g.pick(&["a::b", "a: b", "voter", "x:", "p2p::y: z", ""]);
    let file = g.pick(&["f.rs:10", "f.rs", "a:1:2", "x.rs:1 :3", ":5"]);
    let msg = g.pick(&["", "hello", "a: b", "x.rs:9: y", " lead"]);
    let seps = [": ", ":  ", ":", ": \u{a0}"];
    format!(
        "{}{}{}{}{}{}{}{}{}{}{}",
        ts,
        g.pick(&sp),
        level,
        g.pick(&sp),
        thread,
        g.pick(&sp),
        target,
        g.pick(&seps),
        file,
        g.pick(&seps),
        msg
    )
}

#[test]
fn lines_agree_with_the_pattern() {
    let re = Regex::new(
        r"^(?P<ts>[^ ]+)\s+(?P<level>[A-Z]+)\s+ThreadId\([^)]+\)\s+(?P<target>.+?):\s+(?P<file>.+?:\d+):\s+(?P<msg>.*)$",
    )
    .unwrap();
    let mut g = Gen(3);
    for _ in 0..4000 {
        let l = line(&mut g);
        let expected = re.captures(&l).and_then(|c| {
            let ts = chrono::DateTime::parse_from_rfc3339(c.name("ts")?.as_str()).ok()?.timestamp_nanos_opt()?;
            Some((
                ts as i128,
                c.name("level")?.as_str().to_string(),
                c.name("target")?.as_str().to_string(),
                c.name("file")?.as_str().to_string(),
                c.name("msg")?.as_str().to_string(),
            ))
        });
        let got = parse_line(1, 2, &l).map(|r| (r.timestamp_ns, r.level, r.target, r.file, r.message));
        assert_eq!(got, expected, "line {:?}", l);
    }
}
