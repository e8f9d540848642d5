//! The agents section of a configuration file: `## <name>` headers, each
//! followed by `key: value` lines. Only `purpose`, `model` and `listen` are
//! read; other keys and text before the first header are ignored.

use vstd::prelude::*;
use vstd::string::StringSliceAdditionalSpecFns;

use crate::sequence_graph::{hex_encode, hex_lower, sha256_digest, sha256_spec};
use crate::strings::{chars_vec, find_char, first_index_of, lemma_first_index_of, owned, str_eq, string_of, trim, trim_spec};
use crate::ws_url::{has_prefix, has_suffix, str_ends_with, str_starts_with};

verus! {

/// One agent of a configuration.
#[derive(Debug, Clone, PartialEq, Eq)]
pub struct SimpleAgentConfig {
    pub name: String,
    pub purpose: String,
    pub model: String,
    pub listen: String,
}

/// An agent as four texts: name, purpose, model, listen.
pub type AgentView = (Seq<char>, Seq<char>, Seq<char>, Seq<char>);

impl View for SimpleAgentConfig {
    type V = AgentView;

    open spec fn view(&self) -> AgentView {
        (self.name@, self.purpose@, self.model@, self.listen@)
    }
}

pub open spec fn agent_views(agents: Seq<SimpleAgentConfig>) -> Seq<AgentView> {
    agents.map_values(|a: SimpleAgentConfig| a@)
}

/// The pieces of `s` between newlines (a text without newline is one piece).
pub open spec fn split_lines(s: Seq<char>) -> Seq<Seq<char>>
    decreases s.len(),
{
    if s.len() == 0 {
        seq![Seq::empty()]
    } else {
        let prev = split_lines(s.drop_last());
        if s.last() == '\n' {
            prev.push(Seq::empty())
        } else {
            prev.update(prev.len() - 1, prev.last().push(s.last()))
        }
    }
}

pub proof fn lemma_split_lines_nonempty(s: Seq<char>)
    ensures
        split_lines(s).len() >= 1,
    decreases s.len(),
{
    if s.len() > 0 {
        lemma_split_lines_nonempty(s.drop_last());
    }
}

pub open spec fn header_prefix() -> Seq<char> {
    "## "@
}

pub open spec fn is_header(t: Seq<char>) -> bool {
    t.len() >= 3 && t.subrange(0, 3) == header_prefix()
}

/// Parser state: the finished agents and the one being read.
pub type ParseState = (Seq<AgentView>, Option<AgentView>);

/// One trimmed line's effect on the parser state.
pub open spec fn parse_step(st: ParseState, line: Seq<char>) -> ParseState {
    let t = trim_spec(line);
    if is_header(t) {
        let done = match st.1 {
            Some(a) => st.0.push(a),
            None => st.0,
        };
        (done, Some((trim_spec(t.subrange(3, t.len() as int)), Seq::empty(), Seq::empty(), Seq::empty())))
    } else {
        match st.1 {
            None => st,
            Some(a) => {
                let k = first_index_of(t, ':');
                if k < 0 {
                    st
                } else {
                    let key = trim_spec(t.subrange(0, k));
                    let value = trim_spec(t.subrange(k + 1, t.len() as int));
                    if key == "purpose"@ {
                        (st.0, Some((a.0, value, a.2, a.3)))
                    } else if key == "model"@ {
                        (st.0, Some((a.0, a.1, value, a.3)))
                    } else if key == "listen"@ {
                        (st.0, Some((a.0, a.1, a.2, value)))
                    } else {
                        st
                    }
                }
            },
        }
    }
}

/// Parser state after a sequence of lines.
pub open spec fn parse_lines(lines: Seq<Seq<char>>) -> ParseState
    decreases lines.len(),
{
    if lines.len() == 0 {
        (Seq::empty(), None)
    } else {
        parse_step(parse_lines(lines.drop_last()), lines.last())
    }
}

/// The agents a configuration text declares, in order.
pub open spec fn parsed_agents(content: Seq<char>) -> Seq<AgentView> {
    let st = parse_lines(split_lines(content));
    match st.1 {
        Some(a) => st.0.push(a),
        None => st.0,
    }
}

/// The lines of a text, without their newlines.
fn lines_of(content: &str) -> (r: Vec<String>)
    ensures
        crate::string_set::string_views(r@) == split_lines(content@),
{
    let v = chars_vec(content);
    let mut lines: Vec<String> = Vec::new();
    let mut start: usize = 0;
    let mut i: usize = 0;
    assert(v@.take(0) =~= Seq::<char>::empty());
    assert(crate::string_set::string_views(lines@).push(v@.subrange(0, 0)) =~= seq![Seq::<char>::empty()]);
    while i < v.len()
        invariant
            i <= v.len(),
            start <= i,
            v@ == content@,
            split_lines(v@.take(i as int)) == crate::string_set::string_views(lines@).push(v@.subrange(start as int, i as int)),
        decreases v.len() - i,
    {
        let ghost before = crate::string_set::string_views(lines@);
        assert(v@.take(i + 1).drop_last() =~= v@.take(i as int));
        assert(v@.take(i + 1).last() == v@[i as int]);
        if v[i] == '\n' {
            let ghost seg = v@.subrange(start as int, i as int);
            let line = string_of(v.as_slice(), start, i);
            lines.push(line);
            assert(crate::string_set::string_views(lines@) =~= before.push(seg));
            start = i + 1;
            assert(v@.subrange(start as int, i + 1) =~= Seq::<char>::empty());
        } else {
            let ghost seg = v@.subrange(start as int, i as int);
            assert(v@.subrange(start as int, i + 1) =~= seg.push(v@[i as int]));
            assert(before.push(seg).update(before.len() as int, seg.push(v@[i as int])) =~= before.push(seg.push(v@[i as int])));
        }
        i = i + 1;
    }
    assert(v@.take(v.len() as int) =~= v@);
    let ghost before = crate::string_set::string_views(lines@);
    lines.push(string_of(v.as_slice(), start, v.len()));
    assert(crate::string_set::string_views(lines@) =~= before.push(v@.subrange(start as int, v.len() as int)));
    lines
}

/// A new agent named `name`, with nothing else set yet.
fn named_agent(name: String) -> (a: SimpleAgentConfig)
    ensures
        a@ == (name@, Seq::<char>::empty(), Seq::<char>::empty(), Seq::<char>::empty()),
{
    SimpleAgentConfig { name, purpose: String::new(), model: String::new(), listen: String::new() }
}

/// Parse the agents of a configuration text. Every text parses; an agent
/// may have empty fields.
pub fn parse_agents_config(content: &str) -> (r: Result<Vec<SimpleAgentConfig>, String>)
    ensures
        r matches Ok(agents) && agent_views(agents@) == parsed_agents(content@),
{
    let lines = lines_of(content);
    let ghost ls = crate::string_set::string_views(lines@);
    let mut agents: Vec<SimpleAgentConfig> = Vec::new();
    let mut current: Option<SimpleAgentConfig> = None;
    let mut i: usize = 0;
    proof {
        reveal_strlit("## ");
        assert(agent_views(agents@) =~= Seq::<AgentView>::empty());
    }
    while i < lines.len()
        invariant
            i <= lines.len(),
            ls == crate::string_set::string_views(lines@),
            ls == split_lines(content@),
            header_prefix() == seq!['#', '#', ' '],
            parse_lines(ls.take(i as int)) == (agent_views(agents@), match current {
                Some(a) => Some(a@),
                None => None,
            }),
        decreases lines.len() - i,
    {
        let ghost st = parse_lines(ls.take(i as int));
        proof {
            assert(ls.take(i + 1).drop_last() =~= ls.take(i as int));
            assert(ls.take(i + 1).last() == lines@[i as int]@);
        }
        let t = trim(lines[i].as_str());
        let tv = chars_vec(t.as_str());
        let n = tv.len();
        if n >= 3 && tv[0] == '#' && tv[1] == '#' && tv[2] == ' ' {
            proof {
                assert(tv@.subrange(0, 3) =~= header_prefix());
            }
            let ghost before = agent_views(agents@);
            match current {
                Some(a) => {
                    let ghost av = a@;
                    agents.push(a);
                    assert(agent_views(agents@) =~= before.push(av));
                },
                None => {},
            }
            let rest = string_of(tv.as_slice(), 3, n);
            let name = trim(rest.as_str());
            current = Some(named_agent(name));
        } else {
            proof {
                if tv@.len() >= 3 && tv@.subrange(0, 3) == header_prefix() {
                    assert(tv@.subrange(0, 3)[0] == '#');
                    assert(tv@.subrange(0, 3)[1] == '#');
                    assert(tv@.subrange(0, 3)[2] == ' ');
                }
            }
            match current {
                None => {},
                Some(mut a) => {
                    match find_char(tv.as_slice(), 0, n, ':') {
                        None => {
                            assert(tv@.subrange(0, n as int) =~= tv@);
                        },
                        Some(k) => {
                            assert(tv@.subrange(0, n as int) =~= tv@);
                            proof {
                                lemma_first_index_of(tv@, ':');
                            }
                            let key_raw = string_of(tv.as_slice(), 0, k);
                            let key = trim(key_raw.as_str());
                            let value_raw = string_of(tv.as_slice(), k + 1, n);
                            let value = trim(value_raw.as_str());
                            if crate::strings::str_eq(key.as_str(), "purpose") {
                                a.purpose = value;
                            } else if crate::strings::str_eq(key.as_str(), "model") {
                                a.model = value;
                            } else if crate::strings::str_eq(key.as_str(), "listen") {
                                a.listen = value;
                            }
                        },
                    }
                    current = Some(a);
                },
            }
        }
        i = i + 1;
    }
    proof {
        assert(ls.take(lines.len() as int) =~= ls);
    }
    match current {
        Some(a) => {
            let ghost before = agent_views(agents@);
            let ghost av = a@;
            agents.push(a);
            assert(agent_views(agents@) =~= before.push(av));
        },
        None => {},
    }
    Ok(agents)
}

/// A configuration is valid when it declares at least one agent.
pub fn validate_agent_config(content: &str) -> (r: Result<(), String>)
    ensures
        r is Ok <==> parsed_agents(content@).len() > 0,
        r is Err ==> r->Err_0@ == "No agent configurations found"@,
{
    match parse_agents_config(content) {
        Ok(agents) => {
            if agents.len() == 0 {
                Err(owned("No agent configurations found"))
            } else {
                Ok(())
            }
        },
        Err(e) => Err(crate::strings::concat2("Parse error: ", e.as_str())),
    }
}


/// The version of a configuration text: the hex SHA-256 of its UTF-8 bytes.
pub fn config_version(content: &str) -> (v: String)
    ensures
        v@ == hex_lower(sha256_spec(content.spec_bytes())),
{
    let digest = sha256_digest(content.as_bytes());
    hex_encode(digest.as_slice())
}

/// What an update request meets before anything is written.
#[derive(Debug, Clone, PartialEq, Eq)]
pub enum UpdateGate {
    /// The stored configuration changed since the caller read it; carries
    /// the stored version.
    Conflict(String),
    /// The new text does not validate; carries why.
    ValidationFailed(String),
    /// The update may go ahead.
    Proceed,
}

/// Optimistic locking, then validation: a caller that names the version it
/// read conflicts when the stored text (if it could be read) has another
/// version; otherwise a new text that fails validation is refused.
pub fn update_gate(expected: Option<&str>, current: Option<&str>, validation: &Result<(), String>) -> (g: UpdateGate)
    ensures
        match (expected, current) {
            (Some(e), Some(c)) if hex_lower(sha256_spec(c.spec_bytes())) != e@ => g matches UpdateGate::Conflict(v)
                && v@ == hex_lower(sha256_spec(c.spec_bytes())),
            _ => match validation {
                Err(d) => g matches UpdateGate::ValidationFailed(x) && x@ == d@,
                Ok(_) => g == UpdateGate::Proceed,
            },
        },
{
    match (expected, current) {
        (Some(e), Some(c)) => {
            let v = config_version(c);
            if !str_eq(v.as_str(), e) {
                return UpdateGate::Conflict(v);
            }
        },
        _ => {},
    }
    match validation {
        Err(d) => UpdateGate::ValidationFailed(d.clone()),
        Ok(_) => UpdateGate::Proceed,
    }
}

/// Whether a file name is that of a configuration backup.
pub open spec fn is_backup_name(name: Seq<char>) -> bool {
    has_prefix(name, "AGENTS.md."@) && has_suffix(name, ".backup"@)
}

/// Whether modification time `a` is newer than `b`; an unknown time is the
/// oldest.
pub open spec fn newer(a: Option<u128>, b: Option<u128>) -> bool {
    match (a, b) {
        (Some(x), Some(y)) => x > y,
        (Some(_), None) => true,
        _ => false,
    }
}

/// A backup entry as plain values: name and modification time.
pub open spec fn backup_view(e: (String, Option<u128>)) -> (Seq<char>, Option<u128>) {
    (e.0@, e.1)
}

/// Among the first `n` entries, how many backups come before entry `i`
/// when backups are listed newest first (ties keep their order).
pub open spec fn ahead_of(es: Seq<(Seq<char>, Option<u128>)>, n: int, i: int) -> nat
    decreases n,
{
    if n <= 0 {
        0
    } else {
        ahead_of(es, n - 1, i) + if is_backup_name(es[n - 1].0) && (newer(es[n - 1].1, es[i].1) || (n - 1 < i
            && es[n - 1].1 == es[i].1)) {
            1nat
        } else {
            0nat
        }
    }
}

/// The backups among the first `n` entries that fall outside the newest
/// `keep`, in the order given.
pub open spec fn stale_backups(es: Seq<(Seq<char>, Option<u128>)>, keep: nat, n: int) -> Seq<Seq<char>>
    decreases n,
{
    if n <= 0 {
        Seq::empty()
    } else {
        stale_backups(es, keep, n - 1) + if is_backup_name(es[n - 1].0) && ahead_of(es, es.len() as int, n - 1)
            >= keep {
            seq![es[n - 1].0]
        } else {
            Seq::empty()
        }
    }
}

/// Which configuration backups to delete so that the newest `keep` stay:
/// the entries named `AGENTS.md.*.backup` beyond the first `keep` when
/// listed newest first by modification time.
pub fn backups_to_remove(entries: &[(String, Option<u128>)], keep: usize) -> (r: Vec<String>)
    ensures
        r@.map_values(|s: String| s@) == stale_backups(
            entries@.map_values(|e: (String, Option<u128>)| backup_view(e)),
            keep as nat,
            entries@.len() as int,
        ),
{
    let ghost es = entries@.map_values(|e: (String, Option<u128>)| backup_view(e));
    let n = entries.len();
    let mut r: Vec<String> = Vec::new();
    let mut i: usize = 0;
    while i < n
        invariant
            i <= n,
            n == entries@.len(),
            es == entries@.map_values(|e: (String, Option<u128>)| backup_view(e)),
            r@.map_values(|s: String| s@) == stale_backups(es, keep as nat, i as int),
        decreases n - i,
    {
        let name = entries[i].0.as_str();
        if str_starts_with(name, "AGENTS.md.") && str_ends_with(name, ".backup") {
            let t = entries[i].1;
            let mut ahead: usize = 0;
            let mut j: usize = 0;
            while j < n
                invariant
                    j <= n,
                    i < n,
                    n == entries@.len(),
                    es == entries@.map_values(|e: (String, Option<u128>)| backup_view(e)),
                    t == es[i as int].1,
                    ahead == ahead_of(es, j as int, i as int),
                    ahead <= j,
                decreases n - j,
            {
                let other = entries[j].0.as_str();
                let u = entries[j].1;
                let is_newer = match (u, t) {
                    (Some(x), Some(y)) => x > y,
                    (Some(_), None) => true,
                    _ => false,
                };
                let tie = j < i && match (u, t) {
                    (Some(x), Some(y)) => x == y,
                    (None, None) => true,
                    _ => false,
                };
                if str_starts_with(other, "AGENTS.md.") && str_ends_with(other, ".backup") && (is_newer || tie) {
                    ahead = ahead + 1;
                }
                j = j + 1;
            }
            if ahead >= keep {
                let ghost before = r@;
                r.push(entries[i].0.clone());
                proof {
                    assert(r@.map_values(|s: String| s@) =~= before.map_values(|s: String| s@).push(es[i as int].0));
                }
            }
        }
        proof {
            let m = r@.map_values(|s: String| s@);
            assert(stale_backups(es, keep as nat, i + 1) == stale_backups(es, keep as nat, i as int) + if is_backup_name(
                es[i as int].0,
            ) && ahead_of(es, es.len() as int, i as int) >= keep {
                seq![es[i as int].0]
            } else {
                Seq::empty()
            });
        }
        i = i + 1;
    }
    r
}

} // verus!
