//! Decisions of the push-notification handler: which server notifications are
//! worth a model turn, when the one-time startup planning runs, and the prompt
//! a notification is answered with.

use vstd::prelude::*;

use crate::oauth2::{join_strings, joined};
use crate::string_set::string_views;
use crate::strings::{concat2, contains_spec, decimal, str_contains, usize_to_decimal};

verus! {

/// An event carries nothing to act on: an empty result, empty content, or an
/// error report.
pub open spec fn is_noise_spec(event: Seq<char>) -> bool {
    contains_spec(event, "\"result\":{}"@) || contains_spec(event, "\"content\":[]"@)
        || contains_spec(event, "\"isError\":true"@)
}

/// Whether a notification's serialised parameters are noise to be skipped.
pub fn notification_is_noise(event_json: &str) -> (r: bool)
    ensures
        r == is_noise_spec(event_json@),
{
    str_contains(event_json, "\"result\":{}") || str_contains(event_json, "\"content\":[]")
        || str_contains(event_json, "\"isError\":true")
}

/// Startup planning runs once, and only for an agent with a system prompt and
/// at least one tool.
pub fn should_plan(done: bool, system_prompt: &str, tools: usize) -> (r: bool)
    ensures
        r == (!done && system_prompt@.len() > 0 && tools > 0),
{
    !done && !system_prompt.is_empty() && tools > 0
}

/// Whether a notification starts planning: planning has not run, the agent
/// has a system prompt, and tools are available.
pub open spec fn plans_now(done: bool, has_prompt: bool, tools: nat) -> bool {
    !done && has_prompt && tools > 0
}

/// How many times planning runs over a run of notifications, each given as
/// whether the system prompt is non-empty and how many tools are listed,
/// starting with planning done or not.
pub open spec fn plans_over(done: bool, events: Seq<(bool, nat)>) -> nat
    decreases events.len(),
{
    if events.len() == 0 {
        0
    } else {
        let now = plans_now(done, events[0].0, events[0].1);
        (if now {
            1nat
        } else {
            0nat
        }) + plans_over(done || now, events.drop_first())
    }
}

/// The planning decision for one notification: whether to plan now, and
/// whether planning is done afterwards.
pub fn planning_step(done: bool, system_prompt: &str, tools: usize) -> (r: (bool, bool))
    ensures
        r.0 == plans_now(done, system_prompt@.len() > 0, tools as nat),
        r.1 == (done || r.0),
{
    let now = should_plan(done, system_prompt, tools);
    (now, done || now)
}

/// Startup planning runs at most once over any run of notifications, and
/// never once it has run.
pub proof fn lemma_planning_runs_at_most_once(done: bool, events: Seq<(bool, nat)>)
    ensures
        plans_over(done, events) <= 1,
        done ==> plans_over(done, events) == 0,
    decreases events.len(),
{
    if events.len() > 0 {
        let now = plans_now(done, events[0].0, events[0].1);
        lemma_planning_runs_at_most_once(done || now, events.drop_first());
    }
}

/// One goal as listed in the prompt: `<n>. <description> (<status>)`, counted from 1.
pub open spec fn goal_line_spec(i: int, description: Seq<char>, status: Seq<char>) -> Seq<char> {
    decimal((i + 1) as nat) + ". "@ + description + " ("@ + status + ")"@
}

/// The goal lines of a plan, in order.
pub open spec fn goal_lines_spec(goals: Seq<(Seq<char>, Seq<char>)>) -> Seq<Seq<char>> {
    Seq::new(goals.len(), |i: int| goal_line_spec(i, goals[i].0, goals[i].1))
}

/// The goals section: empty without goals, else a heading and one goal per line.
pub open spec fn goals_section_spec(goals: Seq<(Seq<char>, Seq<char>)>) -> Seq<char> {
    if goals.len() == 0 {
        Seq::empty()
    } else {
        "\n\n## Active Goals\n"@ + joined(goal_lines_spec(goals), "\n"@)
    }
}

/// The prompt a notification is answered with.
pub open spec fn notification_prompt_spec(
    system_prompt: Seq<char>,
    goals: Seq<(Seq<char>, Seq<char>)>,
    memory_section: Seq<char>,
    server: Seq<char>,
    event: Seq<char>,
) -> Seq<char> {
    system_prompt + goals_section_spec(goals) + memory_section + "\n\n## Event\nServer: "@ + server
        + "\nData: "@ + event
        + "\n\n## Instructions\nConsider your active goals and recent actions when responding. Use tools to take action."@
}

pub open spec fn goal_views(goals: Seq<(String, String)>) -> Seq<(Seq<char>, Seq<char>)> {
    goals.map_values(|g: (String, String)| (g.0@, g.1@))
}

/// The goals section of a prompt; each goal is its description and its status.
pub fn goals_section(goals: &[(String, String)]) -> (r: String)
    ensures
        r@ == goals_section_spec(goal_views(goals@)),
{
    if goals.len() == 0 {
        return String::new();
    }
    let mut lines: Vec<String> = Vec::new();
    let mut i: usize = 0;
    while i < goals.len()
        invariant
            i <= goals.len(),
            string_views(lines@) == goal_lines_spec(goal_views(goals@)).take(i as int),
        decreases goals.len() - i,
    {
        let n = usize_to_decimal(i + 1);
        let line = n.concat(". ");
        let line = line.concat(goals[i].0.as_str());
        let line = line.concat(" (");
        let line = line.concat(goals[i].1.as_str());
        let line = line.concat(")");
        let ghost before = lines@;
        lines.push(line);
        proof {
            assert(lines@ == before.push(line));
            assert(string_views(lines@) =~= string_views(before).push(line@));
            assert(goal_lines_spec(goal_views(goals@)).take(i + 1) =~= goal_lines_spec(goal_views(goals@)).take(
                i as int,
            ).push(goal_line_spec(i as int, goals@[i as int].0@, goals@[i as int].1@)));
        }
        i = i + 1;
    }
    assert(goal_lines_spec(goal_views(goals@)).take(goals.len() as int) =~= goal_lines_spec(goal_views(goals@)));
    let body = join_strings(&lines, "\n");
    concat2("\n\n## Active Goals\n", body.as_str())
}

/// The prompt for one notification: the system prompt, the active goals, the
/// memory section, then the event (its server and serialised data) and the
/// standing instructions.
pub fn notification_prompt(
    system_prompt: &str,
    goals: &[(String, String)],
    memory_section: &str,
    server: &str,
    event: &str,
) -> (r: String)
    ensures
        r@ == notification_prompt_spec(system_prompt@, goal_views(goals@), memory_section@, server@, event@),
{
    let g = goals_section(goals);
    let r = concat2(system_prompt, g.as_str());
    let r = r.concat(memory_section);
    let r = r.concat("\n\n## Event\nServer: ");
    let r = r.concat(server);
    let r = r.concat("\nData: ");
    let r = r.concat(event);
    r.concat(
        "\n\n## Instructions\nConsider your active goals and recent actions when responding. Use tools to take action.",
    )
}

} // verus!
