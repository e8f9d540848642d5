//! Peers of an agent and the transport each is reached by.

use vstd::prelude::*;

use crate::string_set::string_views;
use crate::strings::{contains_spec, owned, str_contains, str_eq};
use crate::transport::TransportConfig;
use crate::ws_url::{has_prefix, replace_all, replace_all_str, str_starts_with};

verus! {

/// Transport used to reach a peer.
#[derive(Debug, Clone, Copy, PartialEq, Eq, Structural)]
pub enum TransportType {
    /// Stateless, transactional requests.
    Http,
    /// Stateful, streaming requests.
    WebSocket,
    /// An externally provided transport.
    Custom,
}

/// The URL a peer is reached at over a transport: HTTP gets an `http://`
/// scheme unless it has an HTTP one; WebSocket keeps a `ws`/`wss` scheme,
/// swaps an HTTP scheme for the matching WebSocket one, or gets `ws://`; a
/// custom transport takes the URL as given.
pub open spec fn peer_url_spec(url: Seq<char>, transport: TransportType) -> Seq<char> {
    match transport {
        TransportType::Http => if has_prefix(url, "http://"@) || has_prefix(url, "https://"@) {
            url
        } else {
            "http://"@ + url
        },
        TransportType::WebSocket => if has_prefix(url, "ws://"@) || has_prefix(url, "wss://"@) {
            url
        } else if has_prefix(url, "http://"@) {
            replace_all(url, "http://"@, "ws://"@)
        } else if has_prefix(url, "https://"@) {
            replace_all(url, "https://"@, "wss://"@)
        } else {
            "ws://"@ + url
        },
        TransportType::Custom => url,
    }
}

/// Normalizing for HTTP keeps a URL that already has an HTTP scheme as it
/// is and gives any other URL the `http://` scheme; the result always has an
/// HTTP scheme, and normalizing it again changes nothing. A custom
/// transport keeps every URL.
pub proof fn lemma_http_peer_url(url: Seq<char>)
    ensures
        (has_prefix(url, "http://"@) || has_prefix(url, "https://"@)) ==> peer_url_spec(url, TransportType::Http)
            == url,
        !(has_prefix(url, "http://"@) || has_prefix(url, "https://"@)) ==> peer_url_spec(url, TransportType::Http)
            == "http://"@ + url,
        has_prefix(peer_url_spec(url, TransportType::Http), "http://"@) || has_prefix(
            peer_url_spec(url, TransportType::Http),
            "https://"@,
        ),
        peer_url_spec(peer_url_spec(url, TransportType::Http), TransportType::Http) == peer_url_spec(
            url,
            TransportType::Http,
        ),
        peer_url_spec(url, TransportType::Custom) == url,
{
    let r = peer_url_spec(url, TransportType::Http);
    if !(has_prefix(url, "http://"@) || has_prefix(url, "https://"@)) {
        assert(r.subrange(0, ("http://"@).len() as int) =~= "http://"@);
        assert(has_prefix(r, "http://"@));
    }
}

/// Normalize a peer URL for the transport it is reached over.
pub fn peer_url(url: &str, transport: TransportType) -> (r: String)
    ensures
        r@ == peer_url_spec(url@, transport),
{
    proof {
        reveal_strlit("http://");
        reveal_strlit("https://");
    }
    match transport {
        TransportType::Http => {
            if str_starts_with(url, "http://") || str_starts_with(url, "https://") {
                owned(url)
            } else {
                crate::strings::concat2("http://", url)
            }
        },
        TransportType::WebSocket => {
            if str_starts_with(url, "ws://") || str_starts_with(url, "wss://") {
                owned(url)
            } else if str_starts_with(url, "http://") {
                replace_all_str(url, "http://", "ws://")
            } else if str_starts_with(url, "https://") {
                replace_all_str(url, "https://", "wss://")
            } else {
                crate::strings::concat2("ws://", url)
            }
        },
        TransportType::Custom => owned(url),
    }
}

/// Configuration of a peer manager.
#[derive(Debug, Clone)]
pub struct PeerManagerConfig {
    /// Transport used when nothing else applies.
    pub default_transport: TransportType,
    /// Whether streaming methods are upgraded to WebSocket.
    pub auto_upgrade_streaming: bool,
    pub transport_config: TransportConfig,
}

impl Default for PeerManagerConfig {
    fn default() -> (c: Self)
        ensures
            c.default_transport == TransportType::Http,
            c.auto_upgrade_streaming,
            c.transport_config.timeout_ms == 30000,
            c.transport_config.max_retries == 3,
    {
        PeerManagerConfig {
            default_transport: TransportType::Http,
            auto_upgrade_streaming: true,
            transport_config: TransportConfig::default(),
        }
    }
}

/// Whether a method streams: its name ends in `_stream` or holds `/stream`.
pub open spec fn is_streaming_spec(method: Seq<char>) -> bool {
    (method.len() >= 7 && method.subrange(method.len() - 7, method.len() as int) == "_stream"@) || contains_spec(
        method,
        "/stream"@,
    )
}

/// Whether a method requires a streaming (WebSocket) transport.
pub fn is_streaming_method(method: &str) -> (r: bool)
    ensures
        r == is_streaming_spec(method@),
{
    proof {
        reveal_strlit("_stream");
    }
    let v = crate::strings::chars_vec(method);
    let suffix = crate::strings::chars_vec("_stream");
    let mut ends = v.len() >= 7;
    if ends {
        let start = v.len() - 7;
        let mut k: usize = 0;
        while k < 7
            invariant
                k <= 7,
                v@.len() >= 7,
                v@.len() <= usize::MAX,
                start == v@.len() - 7,
                suffix@ == "_stream"@,
                suffix@.len() == 7,
                ends ==> forall|j: int| 0 <= j < k ==> v@[start + j] == suffix@[j],
                !ends ==> v@.subrange(start as int, v@.len() as int) != suffix@,
            decreases 7 - k,
        {
            if v[start + k] != suffix[k] {
                if ends {
                    assert(v@.subrange(start as int, v@.len() as int)[k as int] != suffix@[k as int]);
                }
                ends = false;
            }
            k = k + 1;
        }
        if ends {
            assert(v@.subrange(start as int, v@.len() as int) =~= suffix@);
        }
    }
    ends || str_contains(method, "/stream")
}

/// The transport for a method under a configuration.
pub open spec fn transport_for(config: PeerManagerConfig, method: Seq<char>) -> TransportType {
    if config.auto_upgrade_streaming && is_streaming_spec(method) {
        TransportType::WebSocket
    } else {
        config.default_transport
    }
}

/// The peers an agent is connected to, by URL, each with its transport.
pub struct PeerManager {
    our_agent_id: String,
    config: PeerManagerConfig,
    peers: Vec<(String, TransportType)>,
}

pub open spec fn peer_urls(peers: Seq<(String, TransportType)>) -> Seq<Seq<char>> {
    peers.map_values(|p: (String, TransportType)| p.0@)
}

impl PeerManager {
    pub closed spec fn config_spec(&self) -> PeerManagerConfig {
        self.config
    }

    pub closed spec fn agent_id(&self) -> Seq<char> {
        self.our_agent_id@
    }

    /// Peers by URL, with their transports.
    pub closed spec fn peer_map(&self) -> Map<Seq<char>, TransportType> {
        Map::new(
            |u: Seq<char>| peer_urls(self.peers@).contains(u),
            |u: Seq<char>| self.peers@[peer_urls(self.peers@).index_of(u)].1,
        )
    }

    /// Each URL is recorded once.
    pub closed spec fn wf(&self) -> bool {
        peer_urls(self.peers@).no_duplicates()
    }

    pub fn new(agent_id: String) -> (m: PeerManager)
        ensures
            m.wf(),
            m.agent_id() == agent_id@,
            m.peer_map() == Map::<Seq<char>, TransportType>::empty(),
            m.config_spec().default_transport == TransportType::Http,
            m.config_spec().auto_upgrade_streaming,
    {
        PeerManager::with_config(agent_id, PeerManagerConfig::default())
    }

    pub fn with_config(agent_id: String, config: PeerManagerConfig) -> (m: PeerManager)
        ensures
            m.wf(),
            m.agent_id() == agent_id@,
            m.config_spec() == config,
            m.peer_map() == Map::<Seq<char>, TransportType>::empty(),
    {
        let m = PeerManager { our_agent_id: agent_id, config, peers: Vec::new() };
        assert(m.peer_map() =~= Map::<Seq<char>, TransportType>::empty());
        assert(peer_urls(m.peers@) =~= Seq::<Seq<char>>::empty());
        m
    }

    /// The transport for `method`: WebSocket for streaming methods when
    /// upgrades are on, otherwise the default.
    pub fn select_transport_for_method(&self, method: &str) -> (r: TransportType)
        ensures
            r == transport_for(self.config_spec(), method@),
    {
        if self.config.auto_upgrade_streaming && is_streaming_method(method) {
            TransportType::WebSocket
        } else {
            self.config.default_transport
        }
    }

    fn position(&self, peer_url: &str) -> (r: Option<usize>)
        requires
            self.wf(),
        ensures
            match r {
                Some(i) => i < self.peers@.len() && peer_urls(self.peers@)[i as int] == peer_url@
                    && peer_urls(self.peers@).index_of(peer_url@) == i,
                None => !peer_urls(self.peers@).contains(peer_url@),
            },
    {
        let mut i: usize = 0;
        while i < self.peers.len()
            invariant
                i <= self.peers.len(),
                self.wf(),
                forall|j: int| 0 <= j < i ==> peer_urls(self.peers@)[j] != peer_url@,
            decreases self.peers.len() - i,
        {
            if str_eq(self.peers[i].0.as_str(), peer_url) {
                proof {
                    let us = peer_urls(self.peers@);
                    assert(us[i as int] == peer_url@);
                    assert(us.contains(peer_url@));
                    let q = us.index_of(peer_url@);
                    assert(us[q] == peer_url@);
                }
                return Some(i);
            }
            i = i + 1;
        }
        None
    }

    /// Record that a peer is reached by `transport`; a peer recorded before
    /// keeps its place and takes the new transport.
    pub fn record_peer(&mut self, peer_url: &str, transport: TransportType)
        requires
            old(self).wf(),
        ensures
            final(self).wf(),
            final(self).peer_map() == old(self).peer_map().insert(peer_url@, transport),
            final(self).config_spec() == old(self).config_spec(),
            final(self).agent_id() == old(self).agent_id(),
    {
        let ghost before = self.peers@;
        match self.position(peer_url) {
            Some(i) => {
                self.peers.set(i, (owned(peer_url), transport));
                proof {
                    assert(peer_urls(self.peers@) =~= peer_urls(before));
                    assert(self.peer_map() =~= old(self).peer_map().insert(peer_url@, transport));
                }
            },
            None => {
                self.peers.push((owned(peer_url), transport));
                proof {
                    let us = peer_urls(self.peers@);
                    assert(us =~= peer_urls(before).push(peer_url@));
                    assert(us.index_of(peer_url@) == before.len()) by {
                        let q = us.index_of(peer_url@);
                        assert(us.contains(peer_url@)) by {
                            assert(us[before.len() as int] == peer_url@);
                        }
                        if q < before.len() {
                            assert(peer_urls(before)[q] == peer_url@);
                        }
                    }
                    assert forall|u: Seq<char>| #[trigger] us.contains(u) && u != peer_url@ implies us.index_of(u)
                        == peer_urls(before).index_of(u) by {
                        let q = us.index_of(u);
                        assert(us[q] == u);
                        assert(peer_urls(before).contains(u)) by {
                            assert(peer_urls(before)[q] == u);
                        }
                        let p = peer_urls(before).index_of(u);
                        assert(us[p] == u);
                    }
                    assert(self.peer_map() =~= old(self).peer_map().insert(peer_url@, transport)) by {
                        assert forall|u: Seq<char>| #[trigger] self.peer_map().contains_key(u) == old(self).peer_map().insert(peer_url@, transport).contains_key(u) by {
                            if us.contains(u) && u != peer_url@ {
                                let q = choose|q: int| 0 <= q < us.len() && us[q] == u;
                                assert(peer_urls(before)[q] == u);
                            }
                            if peer_urls(before).contains(u) {
                                let q = choose|q: int| 0 <= q < peer_urls(before).len() && peer_urls(before)[q] == u;
                                assert(us[q] == u);
                            }
                            if u == peer_url@ {
                                assert(us[before.len() as int] == u);
                            }
                        }
                    }
                }
            },
        }
    }

    /// URLs of the connected peers, in the order they were first recorded.
    pub fn connected_peers(&self) -> (r: Vec<String>)
        ensures
            string_views(r@) == peer_urls(self.peers_spec()),
    {
        let mut r: Vec<String> = Vec::new();
        let mut i: usize = 0;
        while i < self.peers.len()
            invariant
                i <= self.peers.len(),
                string_views(r@) == peer_urls(self.peers@.take(i as int)),
            decreases self.peers.len() - i,
        {
            let ghost before = string_views(r@);
            r.push(self.peers[i].0.clone());
            assert(string_views(r@) =~= before.push(self.peers@[i as int].0@));
            assert(self.peers@.take(i + 1) =~= self.peers@.take(i as int).push(self.peers@[i as int]));
            assert(peer_urls(self.peers@.take(i + 1)) =~= peer_urls(self.peers@.take(i as int)).push(self.peers@[i as int].0@));
            i = i + 1;
        }
        assert(self.peers@.take(self.peers.len() as int) =~= self.peers@);
        r
    }

    /// The recorded peers, in the order they were first recorded.
    pub closed spec fn peers_spec(&self) -> Seq<(String, TransportType)> {
        self.peers@
    }

    /// Connected peers with their transports, in the order they were first recorded.
    pub fn connected_peers_with_transport(&self) -> (r: Vec<(String, TransportType)>)
        ensures
            r@.len() == self.peers_spec().len(),
            forall|i: int| 0 <= i < r@.len() ==> (#[trigger] r@[i]).0@ == self.peers_spec()[i].0@ && r@[i].1 == self.peers_spec()[i].1,
    {
        let mut r: Vec<(String, TransportType)> = Vec::new();
        let mut i: usize = 0;
        while i < self.peers.len()
            invariant
                i <= self.peers.len(),
                r@.len() == i,
                forall|k: int| 0 <= k < i ==> (#[trigger] r@[k]).0@ == self.peers@[k].0@ && r@[k].1 == self.peers@[k].1,
            decreases self.peers.len() - i,
        {
            r.push((self.peers[i].0.clone(), self.peers[i].1));
            i = i + 1;
        }
        r
    }

    pub fn has_peers(&self) -> (r: bool)
        ensures
            r == (self.peers_spec().len() > 0),
    {
        self.peers.len() > 0
    }

    pub fn peer_count(&self) -> (n: usize)
        ensures
            n == self.peers_spec().len(),
    {
        self.peers.len()
    }

    /// The transport of a peer, if it is connected.
    pub fn get_peer_transport_type(&self, peer_url: &str) -> (r: Option<TransportType>)
        requires
            self.wf(),
        ensures
            match r {
                Some(t) => self.peer_map().contains_key(peer_url@) && self.peer_map()[peer_url@] == t,
                None => !self.peer_map().contains_key(peer_url@),
            },
    {
        match self.position(peer_url) {
            Some(i) => Some(self.peers[i].1),
            None => None,
        }
    }

    /// Whether a peer must be (re)connected before a request that needs
    /// `required`: one not connected must be; a custom transport, provided
    /// from outside, is never replaced; any other is replaced when it is not
    /// the one required.
    pub fn needs_transport(&self, peer_url: &str, required: TransportType) -> (r: bool)
        requires
            self.wf(),
        ensures
            r == (!self.peer_map().contains_key(peer_url@) || (self.peer_map()[peer_url@] != TransportType::Custom
                && self.peer_map()[peer_url@] != required)),
    {
        match self.get_peer_transport_type(peer_url) {
            None => true,
            Some(TransportType::Custom) => false,
            Some(t) => t != required,
        }
    }
}

/// Every peer recorded is one the map holds, and the count is the number of
/// distinct URLs.
pub proof fn lemma_peers_are_the_map(m: PeerManager)
    requires
        m.wf(),
    ensures
        m.peer_map().dom() == peer_urls(m.peers_spec()).to_set(),
        peer_urls(m.peers_spec()).to_set().len() == m.peers_spec().len(),
{
    assert(m.peer_map().dom() =~= peer_urls(m.peers_spec()).to_set());
    peer_urls(m.peers_spec()).unique_seq_to_set();
}

} // verus!
