//! Task categories of tool observations, for episode synthesis.

use vstd::prelude::*;

use crate::capabilities::{lowercase, lowercase_spec};
use crate::keyed::{Keyed, Table};
use crate::strings::{contains_spec, owned, str_contains};

verus! {

/// The task category of a (lowercased) tool name.
pub open spec fn task_category_spec(lower: Seq<char>) -> Seq<char> {
    if contains_spec(lower, "sector"@) || contains_spec(lower, "navigate"@) || contains_spec(lower, "move"@) {
        "navigation"@
    } else if contains_spec(lower, "hazard"@) || contains_spec(lower, "danger"@) || contains_spec(lower, "crash"@) {
        "hazard_response"@
    } else if contains_spec(lower, "build"@) || contains_spec(lower, "craft"@) || contains_spec(lower, "create"@) {
        "construction"@
    } else {
        "general"@
    }
}

/// The categories by keyword, in priority order: a name naming a
/// navigation keyword (`sector`, `navigate`, `move`) is navigation; else one
/// naming a hazard keyword (`hazard`, `danger`, `crash`) is hazard response;
/// else one naming a construction keyword (`build`, `craft`, `create`) is
/// construction; a name with none of these is general.
pub proof fn lemma_category_by_keyword(lower: Seq<char>)
    ensures
        ({
            let nav = contains_spec(lower, "sector"@) || contains_spec(lower, "navigate"@) || contains_spec(
                lower,
                "move"@,
            );
            let hazard = contains_spec(lower, "hazard"@) || contains_spec(lower, "danger"@) || contains_spec(
                lower,
                "crash"@,
            );
            let build = contains_spec(lower, "build"@) || contains_spec(lower, "craft"@) || contains_spec(
                lower,
                "create"@,
            );
            &&& nav ==> task_category_spec(lower) == "navigation"@
            &&& !nav && hazard ==> task_category_spec(lower) == "hazard_response"@
            &&& !nav && !hazard && build ==> task_category_spec(lower) == "construction"@
            &&& !nav && !hazard && !build ==> task_category_spec(lower) == "general"@
        }),
        task_category_spec(lower) == "navigation"@ || task_category_spec(lower) == "hazard_response"@
            || task_category_spec(lower) == "construction"@ || task_category_spec(lower) == "general"@,
{
}

/// The task category of a lowercased tool name.
pub fn task_category(l: &str) -> (r: String)
    ensures
        r@ == task_category_spec(l@),
{
    if str_contains(l, "sector") || str_contains(l, "navigate") || str_contains(l, "move") {
        owned("navigation")
    } else if str_contains(l, "hazard") || str_contains(l, "danger") || str_contains(l, "crash") {
        owned("hazard_response")
    } else if str_contains(l, "build") || str_contains(l, "craft") || str_contains(l, "create") {
        owned("construction")
    } else {
        owned("general")
    }
}

/// Infer the task category of a tool from its name, by keyword, ignoring case.
pub fn infer_category(tool_name: &str) -> (r: String)
    ensures
        r@ == task_category_spec(lowercase_spec(tool_name@)),
{
    let lower = lowercase(tool_name);
    task_category(lower.as_str())
}


/// A single observation of a tool call.
#[derive(Debug, Clone)]
pub struct ToolObservation {
    /// Tool name that was called.
    pub tool_name: String,
    /// Arguments passed to the tool.
    pub args: serde_json::Value,
    /// Result from the tool.
    pub result: String,
    /// Whether the call succeeded.
    pub success: bool,
    /// Latency in milliseconds.
    pub latency_ms: u64,
    /// When the observation was recorded, in milliseconds since the Unix epoch.
    pub timestamp: i64,
}

/// The items gathered for one task category, oldest first.
pub struct CategoryBuffer<T> {
    pub category: String,
    pub items: Vec<T>,
}

impl<T> Keyed for CategoryBuffer<T> {
    open spec fn key_view(&self) -> Seq<char> {
        self.category@
    }

    fn key(&self) -> (k: &str) {
        self.category.as_str()
    }
}

/// The items of each category of a table of buffers.
pub open spec fn buffered<T>(t: Table<CategoryBuffer<T>>) -> Map<Seq<char>, Seq<T>> {
    t.map_view().map_values(|b: CategoryBuffer<T>| b.items@)
}

/// The items held for `category`; none when it has no buffer.
pub open spec fn held<T>(m: Map<Seq<char>, Seq<T>>, category: Seq<char>) -> Seq<T> {
    if m.contains_key(category) {
        m[category]
    } else {
        Seq::empty()
    }
}

fn push_into<T>(t: &mut Table<CategoryBuffer<T>>, category: String, item: T)
    requires
        old(t).wf(),
    ensures
        final(t).wf(),
        buffered(*final(t)) == buffered(*old(t)).insert(category@, held(buffered(*old(t)), category@).push(item)),
{
    let ghost before = buffered(*t);
    let entry = t.remove(category.as_str());
    let mut items = match entry {
        Some(b) => b.items,
        None => Vec::new(),
    };
    items.push(item);
    t.insert(CategoryBuffer { category, items });
    proof {
        assert(buffered(*t) =~= before.insert(category@, held(before, category@).push(item)));
    }
}

fn take_from<T>(t: &mut Table<CategoryBuffer<T>>, category: &str) -> (r: Vec<T>)
    requires
        old(t).wf(),
    ensures
        final(t).wf(),
        r@ == held(buffered(*old(t)), category@),
        buffered(*final(t)) == buffered(*old(t)).remove(category@),
{
    let ghost before = buffered(*t);
    let r = match t.remove(category) {
        Some(b) => b.items,
        None => Vec::new(),
    };
    proof {
        assert(buffered(*t) =~= before.remove(category@));
    }
    r
}

/// Whether a category's observations call for an episode: enough of them,
/// or the latest one failed.
pub open spec fn observations_ready(obs: Seq<ToolObservation>, threshold: usize) -> bool {
    obs.len() >= threshold || (obs.len() > 0 && !obs.last().success)
}

/// Observations and episodes gathered per task category until there are
/// enough to synthesize from. `E` is the episode type.
pub struct EpisodeBuffer<E> {
    observations: Table<CategoryBuffer<ToolObservation>>,
    episodes: Table<CategoryBuffer<E>>,
    observation_threshold: usize,
    episode_threshold: usize,
}

impl<E> EpisodeBuffer<E> {
    /// Observations by category.
    pub closed spec fn observation_map(&self) -> Map<Seq<char>, Seq<ToolObservation>> {
        buffered(self.observations)
    }

    /// Episodes by category.
    pub closed spec fn episode_map(&self) -> Map<Seq<char>, Seq<E>> {
        buffered(self.episodes)
    }

    /// Observations that make an episode.
    pub closed spec fn observation_limit(&self) -> usize {
        self.observation_threshold
    }

    /// Episodes that make a lesson.
    pub closed spec fn episode_limit(&self) -> usize {
        self.episode_threshold
    }

    pub closed spec fn wf(&self) -> bool {
        self.observations.wf() && self.episodes.wf()
    }

    /// Observations that make an episode.
    pub fn observation_threshold(&self) -> (n: usize)
        ensures
            n == self.observation_limit(),
    {
        self.observation_threshold
    }

    /// Episodes that make a lesson.
    pub fn episode_threshold(&self) -> (n: usize)
        ensures
            n == self.episode_limit(),
    {
        self.episode_threshold
    }

    /// An empty buffer that synthesizes after three observations and three
    /// episodes.
    pub fn new() -> (b: Self)
        ensures
            b.wf(),
            b.observation_map() == Map::<Seq<char>, Seq<ToolObservation>>::empty(),
            b.episode_map() == Map::<Seq<char>, Seq<E>>::empty(),
            b.observation_limit() == 3,
            b.episode_limit() == 3,
    {
        Self::with_thresholds(3, 3)
    }

    /// An empty buffer with the given thresholds.
    pub fn with_thresholds(observation_threshold: usize, episode_threshold: usize) -> (b: Self)
        ensures
            b.wf(),
            b.observation_map() == Map::<Seq<char>, Seq<ToolObservation>>::empty(),
            b.episode_map() == Map::<Seq<char>, Seq<E>>::empty(),
            b.observation_limit() == observation_threshold,
            b.episode_limit() == episode_threshold,
    {
        let b = EpisodeBuffer { observations: Table::new(), episodes: Table::new(), observation_threshold, episode_threshold };
        proof {
            assert(b.observation_map() =~= Map::<Seq<char>, Seq<ToolObservation>>::empty());
            assert(b.episode_map() =~= Map::<Seq<char>, Seq<E>>::empty());
        }
        b
    }

    /// File an observation under the category of its tool.
    pub fn add_observation(&mut self, obs: ToolObservation)
        requires
            old(self).wf(),
        ensures
            final(self).wf(),
            final(self).observation_map() == old(self).observation_map().insert(
                task_category_spec(lowercase_spec(obs.tool_name@)),
                held(old(self).observation_map(), task_category_spec(lowercase_spec(obs.tool_name@))).push(obs),
            ),
            final(self).episode_map() == old(self).episode_map(),
            final(self).observation_limit() == old(self).observation_limit(),
            final(self).episode_limit() == old(self).episode_limit(),
    {
        let category = infer_category(obs.tool_name.as_str());
        push_into(&mut self.observations, category, obs);
    }

    /// A category whose observations call for an episode, if any.
    pub fn ready_for_episode_synthesis(&self) -> (r: Option<String>)
        requires
            self.wf(),
        ensures
            match r {
                Some(c) => self.observation_map().contains_key(c@) && observations_ready(
                    self.observation_map()[c@],
                    self.observation_limit(),
                ),
                None => forall|c: Seq<char>|
                    #[trigger] self.observation_map().contains_key(c) ==> !observations_ready(
                        self.observation_map()[c],
                        self.observation_limit(),
                    ),
            },
    {
        let buffers = self.observations.as_slice();
        let mut i: usize = 0;
        while i < buffers.len()
            invariant
                i <= buffers.len(),
                buffers@ == self.observations.item_seq(),
                self.observations.wf(),
                forall|j: int| 0 <= j < i ==> !observations_ready((#[trigger] buffers@[j]).items@, self.observation_threshold),
            decreases buffers.len() - i,
        {
            let b = &buffers[i];
            proof {
                self.observations.lemma_items_in_map(i as int);
            }
            let n = b.items.len();
            if n >= self.observation_threshold || (n > 0 && !b.items[n - 1].success) {
                return Some(b.category.clone());
            }
            i = i + 1;
        }
        proof {
            assert forall|c: Seq<char>| #[trigger] self.observation_map().contains_key(c) implies !observations_ready(
                self.observation_map()[c],
                self.observation_threshold,
            ) by {
                self.observations.lemma_map_in_items(c);
            }
        }
        None
    }

    /// Take out the observations of a category, oldest first.
    pub fn take_observations(&mut self, category: &str) -> (r: Vec<ToolObservation>)
        requires
            old(self).wf(),
        ensures
            final(self).wf(),
            r@ == held(old(self).observation_map(), category@),
            final(self).observation_map() == old(self).observation_map().remove(category@),
            final(self).episode_map() == old(self).episode_map(),
            final(self).observation_limit() == old(self).observation_limit(),
            final(self).episode_limit() == old(self).episode_limit(),
    {
        take_from(&mut self.observations, category)
    }

    /// File an episode under its task category.
    pub fn add_episode(&mut self, task_category: String, episode: E)
        requires
            old(self).wf(),
        ensures
            final(self).wf(),
            final(self).episode_map() == old(self).episode_map().insert(
                task_category@,
                held(old(self).episode_map(), task_category@).push(episode),
            ),
            final(self).observation_map() == old(self).observation_map(),
            final(self).observation_limit() == old(self).observation_limit(),
            final(self).episode_limit() == old(self).episode_limit(),
    {
        push_into(&mut self.episodes, task_category, episode);
    }

    /// A category with enough episodes for a lesson, if any.
    pub fn ready_for_lesson_synthesis(&self) -> (r: Option<String>)
        requires
            self.wf(),
        ensures
            match r {
                Some(c) => self.episode_map().contains_key(c@) && self.episode_map()[c@].len() >= self.episode_limit(),
                None => forall|c: Seq<char>|
                    #[trigger] self.episode_map().contains_key(c) ==> self.episode_map()[c].len() < self.episode_limit(),
            },
    {
        let buffers = self.episodes.as_slice();
        let mut i: usize = 0;
        while i < buffers.len()
            invariant
                i <= buffers.len(),
                buffers@ == self.episodes.item_seq(),
                self.episodes.wf(),
                forall|j: int| 0 <= j < i ==> (#[trigger] buffers@[j]).items@.len() < self.episode_threshold,
            decreases buffers.len() - i,
        {
            let b = &buffers[i];
            proof {
                self.episodes.lemma_items_in_map(i as int);
            }
            if b.items.len() >= self.episode_threshold {
                return Some(b.category.clone());
            }
            i = i + 1;
        }
        proof {
            assert forall|c: Seq<char>| #[trigger] self.episode_map().contains_key(c) implies self.episode_map()[c].len()
                < self.episode_threshold by {
                self.episodes.lemma_map_in_items(c);
            }
        }
        None
    }

    /// Take out the episodes of a category, oldest first.
    pub fn take_episodes(&mut self, category: &str) -> (r: Vec<E>)
        requires
            old(self).wf(),
        ensures
            final(self).wf(),
            r@ == held(old(self).episode_map(), category@),
            final(self).episode_map() == old(self).episode_map().remove(category@),
            final(self).observation_map() == old(self).observation_map(),
            final(self).observation_limit() == old(self).observation_limit(),
            final(self).episode_limit() == old(self).episode_limit(),
    {
        take_from(&mut self.episodes, category)
    }
}

impl<E> Default for EpisodeBuffer<E> {
    fn default() -> (b: Self)
        ensures
            b.wf(),
            b.observation_map() == Map::<Seq<char>, Seq<ToolObservation>>::empty(),
            b.episode_map() == Map::<Seq<char>, Seq<E>>::empty(),
            b.observation_limit() == 3,
            b.episode_limit() == 3,
    {
        Self::new()
    }
}

} // verus!
