use vstd::prelude::*;

use crate::config::{pair_texts, ConfigError, MCPServerConfig};
use crate::json::{copy_strings, joined, text_is, texts, JsonValue};

verus! {

broadcast use vstd::string::group_string_axioms;

/// Keeps the live connection of each started server, at most one per name.
/// `C` is the handle through which a connected server is reached.
pub struct MCPServerManager<C> {
    connections: Vec<(String, C)>,
    model: Ghost<Map<Seq<char>, C>>,
}

/// What to do to start a server.
pub enum StartAction {
    /// A connection under that name exists already; nothing is to be done.
    AlreadyConnected(String),
    /// The server is reached over the network and needs no process.
    Configured(String),
    /// A process is to be spawned and connected, then registered.
    Spawn(SpawnRequest),
}

/// The process that a `stdio` server runs.
pub struct SpawnRequest {
    pub name: String,
    pub command: String,
    pub args: Vec<String>,
    /// Variables added to the inherited environment.
    pub env: Vec<(String, String)>,
}

/// The decision taken by `start_server`, without its data.
pub enum StartKind {
    AlreadyConnected,
    Configured,
    Spawn,
    MissingCommand,
    UnsupportedTransport,
}

/// A failed operation of the manager.
pub enum McpError {
    Config(ConfigError),
    /// The server's process could not be created.
    Spawn(String),
    /// The server did not complete the protocol's opening exchange.
    Handshake(String),
    /// The server answered a request with a failure.
    Remote(String),
    /// No connection is registered under the name.
    NotFound(String),
}

/// One tool invocation to perform on a connected server.
pub struct ToolCallRequest {
    pub server_name: String,
    pub tool_name: String,
    pub arguments: Vec<(String, JsonValue)>,
}

/// The outcome of one tool invocation.
pub struct ToolCallResult {
    pub success: bool,
    pub result: Option<JsonValue>,
    pub error: Option<String>,
}

/// What `start_server` decides for `config`, given whether its name is connected.
pub open spec fn start_kind(connected: bool, config: MCPServerConfig) -> StartKind {
    if connected {
        StartKind::AlreadyConnected
    } else if config.transport@ == "stdio"@ {
        if config.command is Some {
            StartKind::Spawn
        } else {
            StartKind::MissingCommand
        }
    } else if config.transport@ == "http"@ || config.transport@ == "websocket"@ {
        StartKind::Configured
    } else {
        StartKind::UnsupportedTransport
    }
}

/// The message of a call to a server that is not connected.
pub open spec fn not_found_text(name: Seq<char>) -> Seq<char> {
    "Server '"@ + name + "' not found"@
}

/// The members passed to a tool: those of an object, else none.
pub open spec fn call_arguments(arguments: JsonValue) -> Seq<(String, JsonValue)> {
    match arguments {
        JsonValue::Object(m) => m@,
        _ => Seq::empty(),
    }
}

/// The number of entries named `name`.
pub open spec fn count_named<C>(s: Seq<(String, C)>, name: Seq<char>) -> nat
    decreases s.len(),
{
    if s.len() == 0 {
        0
    } else {
        count_named(s.drop_last(), name) + if s.last().0@ == name {
            1nat
        } else {
            0nat
        }
    }
}

/// No two entries share a name.
pub open spec fn unique_names<C>(s: Seq<(String, C)>) -> bool {
    forall|i: int, j: int|
        0 <= i < s.len() && 0 <= j < s.len() && i != j ==> (#[trigger] s[i]).0@ != (#[trigger] s[j]).0@
}

proof fn lemma_count_named<C>(s: Seq<(String, C)>, name: Seq<char>)
    requires
        unique_names(s),
    ensures
        count_named(s, name) == if exists|i: int| 0 <= i < s.len() && (#[trigger] s[i]).0@ == name {
            1nat
        } else {
            0nat
        },
    decreases s.len(),
{
    if s.len() > 0 {
        let d = s.drop_last();
        assert(unique_names(d));
        lemma_count_named(d, name);
        if s.last().0@ == name {
            assert(s[s.len() - 1].0@ == name);
            assert forall|i: int| 0 <= i < d.len() implies (#[trigger] d[i]).0@ != name by {
                assert(s[i] == d[i]);
            }
        } else {
            if exists|i: int| 0 <= i < s.len() && (#[trigger] s[i]).0@ == name {
                let i = choose|i: int| 0 <= i < s.len() && (#[trigger] s[i]).0@ == name;
                assert(d[i] == s[i]);
            }
            if exists|i: int| 0 <= i < d.len() && (#[trigger] d[i]).0@ == name {
                let i = choose|i: int| 0 <= i < d.len() && (#[trigger] d[i]).0@ == name;
                assert(d[i] == s[i]);
            }
        }
    }
}

impl<C> View for MCPServerManager<C> {
    type V = Map<Seq<char>, C>;

    /// The connection registered under each name.
    closed spec fn view(&self) -> Map<Seq<char>, C> {
        self.model@
    }
}

impl<C> MCPServerManager<C> {
    /// The entries agree with the model, and no name occurs twice.
    pub closed spec fn wf(&self) -> bool {
        &&& unique_names(self.connections@)
        &&& forall|i: int|
            0 <= i < self.connections@.len() ==> self.model@.contains_key(
                (#[trigger] self.connections@[i]).0@,
            ) && self.model@[self.connections@[i].0@] == self.connections@[i].1
        &&& forall|k: Seq<char>| #[trigger]
            self.model@.contains_key(k) ==> exists|i: int|
                0 <= i < self.connections@.len() && (#[trigger] self.connections@[i]).0@ == k
    }

    /// The number of registered connections named `name`.
    pub closed spec fn connection_count(&self, name: Seq<char>) -> nat {
        count_named(self.connections@, name)
    }

    /// The names of the registered connections, in registration order.
    pub closed spec fn names(&self) -> Seq<Seq<char>> {
        self.connections@.map_values(|e: (String, C)| e.0@)
    }

    proof fn lemma_names(&self)
        requires
            self.wf(),
        ensures
            self.names().to_set() == self@.dom(),
            self.names().no_duplicates(),
    {
        let n = self.names();
        assert forall|k: Seq<char>| n.to_set().contains(k) <==> self@.dom().contains(k) by {
            if n.to_set().contains(k) {
                let i = choose|i: int| 0 <= i < n.len() && n[i] == k;
                assert(self.connections@[i].0@ == k);
            }
            if self@.dom().contains(k) {
                let i = choose|i: int|
                    0 <= i < self.connections@.len() && (#[trigger] self.connections@[i]).0@ == k;
                assert(n[i] == k);
            }
        }
        assert(n.to_set() =~= self@.dom());
        assert forall|i: int, j: int| 0 <= i < n.len() && 0 <= j < n.len() && i != j implies n[i]
            != n[j] by {
            assert(self.connections@[i].0@ != self.connections@[j].0@);
        }
    }

    /// A manager with no connection.
    pub fn new() -> (r: Self)
        ensures
            r.wf(),
            r@ == Map::<Seq<char>, C>::empty(),
    {
        MCPServerManager { connections: Vec::new(), model: Ghost(Map::empty()) }
    }

    fn find(&self, name: &str) -> (r: Option<usize>)
        requires
            self.wf(),
        ensures
            match r {
                Some(i) => i < self.connections@.len() && self.connections@[i as int].0@ == name@,
                None => !self@.contains_key(name@),
            },
    {
        let mut j: usize = 0;
        while j < self.connections.len()
            invariant
                j <= self.connections@.len(),
                forall|k: int| 0 <= k < j ==> (#[trigger] self.connections@[k]).0@ != name@,
            decreases self.connections@.len() - j,
        {
            if text_is(&self.connections[j].0, name) {
                return Some(j);
            }
            j = j + 1;
        }
        None
    }

    /// Whether a connection is registered under `server_name`. Only the registry
    /// is consulted; the process behind it is not probed.
    pub fn is_server_alive(&self, server_name: &str) -> (r: bool)
        requires
            self.wf(),
        ensures
            r == self@.contains_key(server_name@),
    {
        self.find(server_name).is_some()
    }

    /// The connection through which the tools of `server_name` are listed.
    pub fn list_tools(&self, server_name: &str) -> (r: Result<&C, McpError>)
        requires
            self.wf(),
        ensures
            match r {
                Ok(c) => self@.contains_key(server_name@) && *c == self@[server_name@],
                Err(e) => !self@.contains_key(server_name@) && (e matches McpError::NotFound(n)
                    && n@ == server_name@),
            },
    {
        match self.find(server_name) {
            Some(i) => Ok(&self.connections[i].1),
            None => Err(McpError::NotFound(String::from_str(server_name))),
        }
    }

    /// Registers `connection` under `name`, handing back the one it replaces.
    pub fn register(&mut self, name: String, connection: C) -> (r: Option<C>)
        requires
            old(self).wf(),
        ensures
            final(self).wf(),
            final(self)@ == old(self)@.insert(name@, connection),
            match r {
                Some(c) => old(self)@.contains_key(name@) && c == old(self)@[name@],
                None => !old(self)@.contains_key(name@),
            },
    {
        let ghost c = connection;
        let ghost m0 = self.model@;
        let ghost key = name@;
        let prev = match self.find(name.as_str()) {
            Some(i) => {
                let (_, p) = self.connections.remove(i);
                Some(p)
            },
            None => None,
        };
        let ghost mid = self.connections@;
        self.connections.push((name, connection));
        self.model = Ghost(m0.insert(key, c));
        proof {
            let s = self.connections@;
            assert forall|i: int| 0 <= i < mid.len() implies (#[trigger] mid[i]).0@ != key by {
                if prev is None {
                    assert(m0.contains_key(mid[i].0@));
                }
            }
            assert(forall|i: int| 0 <= i < mid.len() ==> s[i] == mid[i]);
            assert forall|k: Seq<char>| #[trigger]
                self.model@.contains_key(k) implies exists|i: int|
                0 <= i < s.len() && (#[trigger] s[i]).0@ == k by {
                if k == key {
                    assert(s[s.len() - 1].0@ == k);
                } else {
                    let i0 = choose|i: int|
                        0 <= i < old(self).connections@.len() && (#[trigger] old(
                            self,
                        ).connections@[i]).0@ == k;
                    let j = if prev is Some && i0 > (choose|i: int|
                        0 <= i < old(self).connections@.len() && old(self).connections@[i].0@
                            == key) {
                        i0 - 1
                    } else {
                        i0
                    };
                    assert(s[j].0@ == k);
                }
            }
        }
        prev
    }

    /// Removes the connection of `server_name`, if any, and hands it back so that
    /// it can be shut down. Stopping a server that is not connected does nothing.
    pub fn stop_server(&mut self, server_name: &str) -> (r: Option<C>)
        requires
            old(self).wf(),
        ensures
            final(self).wf(),
            final(self)@ == old(self)@.remove(server_name@),
            match r {
                Some(c) => old(self)@.contains_key(server_name@) && c == old(self)@[server_name@],
                None => !old(self)@.contains_key(server_name@) && *final(self) == *old(self),
            },
    {
        match self.find(server_name) {
            Some(i) => {
                let ghost m0 = self.model@;
                let (_, c) = self.connections.remove(i);
                self.model = Ghost(m0.remove(server_name@));
                proof {
                    let o = old(self).connections@;
                    let s = self.connections@;
                    assert forall|k: Seq<char>| #[trigger]
                        self.model@.contains_key(k) implies exists|j: int|
                        0 <= j < s.len() && (#[trigger] s[j]).0@ == k by {
                        let i0 = choose|j: int| 0 <= j < o.len() && (#[trigger] o[j]).0@ == k;
                        if i0 < i {
                            assert(s[i0] == o[i0]);
                        } else {
                            assert(s[i0 - 1] == o[i0]);
                        }
                    }
                    assert forall|j: int| 0 <= j < s.len() implies self.model@.contains_key(
                        (#[trigger] s[j]).0@,
                    ) && self.model@[s[j].0@] == s[j].1 by {
                        if j < i {
                            assert(s[j] == o[j]);
                        } else {
                            assert(s[j] == o[j + 1]);
                        }
                    }
                    assert(self.model@ =~= old(self)@.remove(server_name@));
                }
                Some(c)
            },
            None => {
                proof {
                    assert(old(self)@.remove(server_name@) =~= old(self)@);
                }
                None
            },
        }
    }

    /// Decides how to start the server that `config` describes. A name that is
    /// connected already is left alone; otherwise the transport decides.
    pub fn start_server(&self, config: &MCPServerConfig) -> (r: Result<StartAction, ConfigError>)
        requires
            self.wf(),
        ensures
            match start_kind(self@.contains_key(config.name@), *config) {
                StartKind::AlreadyConnected => r matches Ok(StartAction::AlreadyConnected(m))
                    && m@ == "MCP server already connected: "@ + config.name@,
                StartKind::Configured => r matches Ok(StartAction::Configured(m)) && m@ == (if config.transport@
                    == "http"@ {
                    "HTTP server configured: "@
                } else {
                    "WebSocket server configured: "@
                }) + config.name@,
                StartKind::Spawn => r matches Ok(StartAction::Spawn(req)) && req.name@ == config.name@
                    && Some(req.command@) == crate::json::opt_text(config.command) && texts(req.args@)
                    == (match config.args_texts() {
                    Some(a) => a,
                    None => Seq::empty(),
                }) && pair_texts(req.env@) == (match config.env_texts() {
                    Some(e) => e,
                    None => Seq::empty(),
                }),
                StartKind::MissingCommand => r matches Err(ConfigError::MissingCommand),
                StartKind::UnsupportedTransport => r matches Err(ConfigError::UnsupportedTransport(t))
                    && t@ == config.transport@,
            },
    {
        if self.is_server_alive(config.name.as_str()) {
            return Ok(
                StartAction::AlreadyConnected(
                    joined("MCP server already connected: ", config.name.as_str()),
                ),
            );
        }
        if text_is(&config.transport, "stdio") {
            match &config.command {
                Some(command) => {
                    let args = match &config.args {
                        Some(a) => copy_strings(a),
                        None => Vec::new(),
                    };
                    let env = match &config.env {
                        Some(e) => copy_pairs(e),
                        None => Vec::new(),
                    };
                    Ok(
                        StartAction::Spawn(
                            SpawnRequest {
                                name: config.name.clone(),
                                command: command.clone(),
                                args,
                                env,
                            },
                        ),
                    )
                },
                None => Err(ConfigError::MissingCommand),
            }
        } else if text_is(&config.transport, "http") {
            Ok(StartAction::Configured(joined("HTTP server configured: ", config.name.as_str())))
        } else if text_is(&config.transport, "websocket") {
            Ok(
                StartAction::Configured(
                    joined("WebSocket server configured: ", config.name.as_str()),
                ),
            )
        } else {
            Err(ConfigError::UnsupportedTransport(config.transport.clone()))
        }
    }

    /// Prepares a call of `tool_name` on `server_name`. Arguments that are not an
    /// object are replaced by an empty object. A server that is not connected
    /// gives the failed result to report instead.
    pub fn call_tool(&self, server_name: &str, tool_name: &str, arguments: JsonValue) -> (r: Result<
        ToolCallRequest,
        ToolCallResult,
    >)
        requires
            self.wf(),
        ensures
            match r {
                Ok(req) => self@.contains_key(server_name@) && req.server_name@ == server_name@
                    && req.tool_name@ == tool_name@ && req.arguments@ == call_arguments(arguments),
                Err(res) => !self@.contains_key(server_name@) && !res.success && res.result is None
                    && (res.error matches Some(e) && e@ == not_found_text(server_name@)),
            },
    {
        if !self.is_server_alive(server_name) {
            return Err(ToolCallResult::not_found(server_name));
        }
        let arguments = match arguments {
            JsonValue::Object(m) => m,
            _ => Vec::new(),
        };
        Ok(
            ToolCallRequest {
                server_name: String::from_str(server_name),
                tool_name: String::from_str(tool_name),
                arguments,
            },
        )
    }

    /// The names of the connected servers, each once.
    pub fn get_connected_servers(&self) -> (r: Vec<String>)
        requires
            self.wf(),
        ensures
            texts(r@).to_set() == self@.dom(),
            texts(r@).no_duplicates(),
    {
        let mut out: Vec<String> = Vec::new();
        let mut j: usize = 0;
        while j < self.connections.len()
            invariant
                j <= self.connections@.len(),
                texts(out@) == self.names().subrange(0, j as int),
            decreases self.connections@.len() - j,
        {
            let ghost before = out@;
            out.push(self.connections[j].0.clone());
            assert(texts(out@) =~= texts(before).push(self.connections@[j as int].0@));
            assert(self.names().subrange(0, j + 1) =~= self.names().subrange(0, j as int).push(
                self.connections@[j as int].0@,
            ));
            j = j + 1;
        }
        proof {
            assert(self.names().subrange(0, j as int) =~= self.names());
            self.lemma_names();
        }
        out
    }

    /// Each connected server's name with its status, which is always up.
    pub fn check_all_servers(&self) -> (r: Vec<(String, bool)>)
        requires
            self.wf(),
        ensures
            r@.map_values(|p: (String, bool)| p.0@).to_set() == self@.dom(),
            r@.map_values(|p: (String, bool)| p.0@).no_duplicates(),
            forall|i: int| 0 <= i < r@.len() ==> (#[trigger] r@[i]).1,
    {
        let names = self.get_connected_servers();
        let mut out: Vec<(String, bool)> = Vec::new();
        let mut j: usize = 0;
        while j < names.len()
            invariant
                j <= names@.len(),
                out@.len() == j,
                forall|i: int| 0 <= i < j ==> (#[trigger] out@[i]).0@ == names@[i]@ && out@[i].1,
            decreases names@.len() - j,
        {
            out.push((names[j].clone(), true));
            j = j + 1;
        }
        assert(out@.map_values(|p: (String, bool)| p.0@) =~= texts(names@));
        out
    }
}

/// A copy of a list of name and value pairs.
fn copy_pairs(v: &Vec<(String, String)>) -> (r: Vec<(String, String)>)
    ensures
        pair_texts(r@) == pair_texts(v@),
{
    let mut out: Vec<(String, String)> = Vec::new();
    let mut j: usize = 0;
    while j < v.len()
        invariant
            j <= v@.len(),
            pair_texts(out@) == pair_texts(v@.subrange(0, j as int)),
        decreases v@.len() - j,
    {
        let ghost before = out@;
        out.push((v[j].0.clone(), v[j].1.clone()));
        assert(pair_texts(out@) =~= pair_texts(before).push((v@[j as int].0@, v@[j as int].1@)));
        assert(pair_texts(v@.subrange(0, j + 1)) =~= pair_texts(v@.subrange(0, j as int)).push(
            (v@[j as int].0@, v@[j as int].1@),
        ));
        j = j + 1;
    }
    assert(v@.subrange(0, j as int) =~= v@);
    out
}

impl ToolCallResult {
    /// Exactly one of a payload and an error is present, and `success` says which.
    pub open spec fn is_consistent(&self) -> bool {
        &&& self.success == self.result is Some
        &&& self.success == self.error is None
    }

    /// The result of a call to a server that is not connected.
    pub fn not_found(server_name: &str) -> (r: Self)
        ensures
            r.is_consistent(),
            !r.success,
            r.error matches Some(e) && e@ == not_found_text(server_name@),
    {
        let mut e = String::from_str("Server '");
        e.append(server_name);
        e.append("' not found");
        ToolCallResult { success: false, result: None, error: Some(e) }
    }

    /// The result of a call that the server answered: its payload, or its error text.
    pub fn from_outcome(outcome: Result<JsonValue, String>) -> (r: Self)
        ensures
            r.is_consistent(),
            match outcome {
                Ok(v) => r.success && r.result == Some(v),
                Err(e) => !r.success && r.error == Some(e),
            },
    {
        match outcome {
            Ok(v) => ToolCallResult { success: true, result: Some(v), error: None },
            Err(e) => ToolCallResult { success: false, result: None, error: Some(e) },
        }
    }
}

/// Starting a server whose name is registered spawns nothing, whatever the rest
/// of its configuration says, and the registry keeps exactly one connection
/// under that name; so starting the same server twice leaves one connection.
pub proof fn lemma_start_is_idempotent<C>(m: MCPServerManager<C>, config: MCPServerConfig)
    requires
        m.wf(),
        m@.contains_key(config.name@),
    ensures
        start_kind(m@.contains_key(config.name@), config) == StartKind::AlreadyConnected,
        m.connection_count(config.name@) == 1,
{
    lemma_count_named(m.connections@, config.name@);
    let i = choose|i: int|
        0 <= i < m.connections@.len() && (#[trigger] m.connections@[i]).0@ == config.name@;
    assert(0 <= i < m.connections@.len() && m.connections@[i].0@ == config.name@);
}

} // verus!
