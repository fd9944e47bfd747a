use vstd::prelude::*;

use crate::json::{lookup, member, opt_text, texts, JsonNumber, JsonValue};

verus! {

/// How to reach one tool-provider server.
pub struct MCPServerConfig {
    /// The server's unique name.
    pub name: String,
    /// The program to run, for the `stdio` transport.
    pub command: Option<String>,
    pub args: Option<Vec<String>>,
    /// Variables added to the program's environment, in order.
    pub env: Option<Vec<(String, String)>>,
    /// `"stdio"`, `"http"` or `"websocket"`.
    pub transport: String,
    pub url: Option<String>,
    pub port: Option<u16>,
}

/// A member of a server's settings.
pub enum ConfigField {
    Name,
    Command,
    Args,
    Env,
    Transport,
    Url,
    Port,
}

/// Why a configuration cannot be used.
pub enum ConfigError {
    /// The document has neither an `mcpServers` object nor a `servers` array.
    MissingServerList,
    /// A server's settings are not a JSON object.
    NotAnObject,
    /// A member that must be given is absent.
    MissingField(ConfigField),
    /// A member holds a value of the wrong kind.
    InvalidField(ConfigField),
    /// The transport is none of the supported ones.
    UnsupportedTransport(String),
    /// A `stdio` server names no program.
    MissingCommand,
}

/// The transport used when the settings name none.
pub fn default_transport() -> (r: String)
    ensures
        r@ == "stdio"@,
{
    String::from_str("stdio")
}

/// An optional string member: absent or null gives nothing, a string gives its text.
pub open spec fn read_opt_string(v: Option<JsonValue>) -> Result<Option<Seq<char>>, ()> {
    match v {
        None => Ok(None),
        Some(JsonValue::Null) => Ok(None),
        Some(JsonValue::String(s)) => Ok(Some(s@)),
        _ => Err(()),
    }
}

/// All of `items` are strings.
pub open spec fn all_strings(items: Seq<JsonValue>) -> bool {
    forall|i: int| 0 <= i < items.len() ==> (#[trigger] items[i]) is String
}

/// The texts of a sequence of strings.
pub open spec fn string_texts(items: Seq<JsonValue>) -> Seq<Seq<char>> {
    items.map_values(
        |v: JsonValue|
            match v {
                JsonValue::String(s) => s@,
                _ => Seq::empty(),
            },
    )
}

/// An optional list of strings.
pub open spec fn read_opt_strings(v: Option<JsonValue>) -> Result<Option<Seq<Seq<char>>>, ()> {
    match v {
        None => Ok(None),
        Some(JsonValue::Null) => Ok(None),
        Some(JsonValue::Array(items)) => if all_strings(items@) {
            Ok(Some(string_texts(items@)))
        } else {
            Err(())
        },
        _ => Err(()),
    }
}

/// The texts of a sequence of name and value pairs.
pub open spec fn pair_texts(v: Seq<(String, String)>) -> Seq<(Seq<char>, Seq<char>)> {
    v.map_values(|p: (String, String)| (p.0@, p.1@))
}

/// All members of `m` hold strings.
pub open spec fn all_string_members(m: Seq<(String, JsonValue)>) -> bool {
    forall|i: int| 0 <= i < m.len() ==> (#[trigger] m[i]).1 is String
}

/// The members of an object of strings, as texts.
pub open spec fn member_texts(m: Seq<(String, JsonValue)>) -> Seq<(Seq<char>, Seq<char>)> {
    m.map_values(
        |e: (String, JsonValue)|
            (
                e.0@,
                match e.1 {
                    JsonValue::String(s) => s@,
                    _ => Seq::empty(),
                },
            ),
    )
}

/// An optional object of strings.
pub open spec fn read_opt_string_map(v: Option<JsonValue>) -> Result<
    Option<Seq<(Seq<char>, Seq<char>)>>,
    (),
> {
    match v {
        None => Ok(None),
        Some(JsonValue::Null) => Ok(None),
        Some(JsonValue::Object(m)) => if all_string_members(m@) {
            Ok(Some(member_texts(m@)))
        } else {
            Err(())
        },
        _ => Err(()),
    }
}

/// The transport member: `"stdio"` when absent.
pub open spec fn read_transport(v: Option<JsonValue>) -> Result<Seq<char>, ()> {
    match v {
        None => Ok("stdio"@),
        Some(JsonValue::String(s)) => Ok(s@),
        _ => Err(()),
    }
}

/// The port member: a whole number from 0 to 65535, or nothing.
pub open spec fn read_port(v: Option<JsonValue>) -> Result<Option<u16>, ()> {
    match v {
        None => Ok(None),
        Some(JsonValue::Null) => Ok(None),
        Some(JsonValue::Number(JsonNumber::PosInt(n))) => if n <= 65535 {
            Ok(Some(n as u16))
        } else {
            Err(())
        },
        _ => Err(()),
    }
}

/// The first problem found in a server's settings, checking the members in the
/// order of the fields of `MCPServerConfig`. When `named` holds, the name comes
/// from outside the settings and is not read from them.
pub open spec fn settings_error(m: Seq<(String, JsonValue)>, named: bool) -> Option<ConfigError> {
    if !named && lookup(m, "name"@) is None {
        Some(ConfigError::MissingField(ConfigField::Name))
    } else if !named && !(lookup(m, "name"@) matches Some(JsonValue::String(_))) {
        Some(ConfigError::InvalidField(ConfigField::Name))
    } else if read_opt_string(lookup(m, "command"@)) is Err {
        Some(ConfigError::InvalidField(ConfigField::Command))
    } else if read_opt_strings(lookup(m, "args"@)) is Err {
        Some(ConfigError::InvalidField(ConfigField::Args))
    } else if read_opt_string_map(lookup(m, "env"@)) is Err {
        Some(ConfigError::InvalidField(ConfigField::Env))
    } else if read_transport(lookup(m, "transport"@)) is Err {
        Some(ConfigError::InvalidField(ConfigField::Transport))
    } else if read_opt_string(lookup(m, "url"@)) is Err {
        Some(ConfigError::InvalidField(ConfigField::Url))
    } else if read_port(lookup(m, "port"@)) is Err {
        Some(ConfigError::InvalidField(ConfigField::Port))
    } else {
        None
    }
}

/// The settings' own name.
pub open spec fn own_name(m: Seq<(String, JsonValue)>) -> Seq<char> {
    match lookup(m, "name"@) {
        Some(JsonValue::String(s)) => s@,
        _ => Seq::empty(),
    }
}

/// The servers of the mapping shape: the `mcpServers` object, by name.
pub open spec fn keyed_servers(config: JsonValue) -> Option<Seq<(String, JsonValue)>> {
    match config {
        JsonValue::Object(m) => match lookup(m@, "mcpServers"@) {
            Some(JsonValue::Object(s)) => Some(s@),
            _ => None,
        },
        _ => None,
    }
}

/// The servers of the list shape: the `servers` array.
pub open spec fn listed_servers(config: JsonValue) -> Option<Seq<JsonValue>> {
    match config {
        JsonValue::Object(m) => match lookup(m@, "servers"@) {
            Some(JsonValue::Array(a)) => Some(a@),
            _ => None,
        },
        _ => None,
    }
}

/// The first problem with one server's entry.
pub open spec fn entry_error(v: JsonValue, named: bool) -> Option<ConfigError> {
    match v {
        JsonValue::Object(m) => settings_error(m@, named),
        _ => Some(ConfigError::NotAnObject),
    }
}

/// `c` is what the entry `v` describes; `name` overrides the entry's own name.
pub open spec fn entry_reads(c: MCPServerConfig, v: JsonValue, name: Option<Seq<char>>) -> bool {
    match v {
        JsonValue::Object(m) => c.reads(
            m@,
            match name {
                Some(n) => n,
                None => own_name(m@),
            },
        ),
        _ => false,
    }
}

impl MCPServerConfig {
    /// The environment as texts.
    pub open spec fn env_texts(&self) -> Option<Seq<(Seq<char>, Seq<char>)>> {
        match self.env {
            Some(v) => Some(pair_texts(v@)),
            None => None,
        }
    }

    /// The arguments as texts.
    pub open spec fn args_texts(&self) -> Option<Seq<Seq<char>>> {
        match self.args {
            Some(v) => Some(texts(v@)),
            None => None,
        }
    }

    /// This configuration holds what the settings `m` say, with the name `name`.
    pub open spec fn reads(&self, m: Seq<(String, JsonValue)>, name: Seq<char>) -> bool {
        &&& self.name@ == name
        &&& read_opt_string(lookup(m, "command"@)) == Ok::<_, ()>(opt_text(self.command))
        &&& read_opt_strings(lookup(m, "args"@)) == Ok::<_, ()>(self.args_texts())
        &&& read_opt_string_map(lookup(m, "env"@)) == Ok::<_, ()>(self.env_texts())
        &&& read_transport(lookup(m, "transport"@)) == Ok::<_, ()>(self.transport@)
        &&& read_opt_string(lookup(m, "url"@)) == Ok::<_, ()>(opt_text(self.url))
        &&& read_port(lookup(m, "port"@)) == Ok::<_, ()>(self.port)
    }
}

fn read_string_member(m: &Vec<(String, JsonValue)>, key: &str) -> (r: Result<Option<String>, ()>)
    ensures
        match r {
            Ok(o) => read_opt_string(lookup(m@, key@)) == Ok::<_, ()>(opt_text(o)),
            Err(_) => read_opt_string(lookup(m@, key@)) is Err,
        },
{
    match member(m, key) {
        None => Ok(None),
        Some(JsonValue::Null) => Ok(None),
        Some(JsonValue::String(s)) => Ok(Some(s.clone())),
        Some(_) => Err(()),
    }
}

fn read_strings_member(m: &Vec<(String, JsonValue)>, key: &str) -> (r: Result<Option<Vec<String>>, ()>)
    ensures
        match r {
            Ok(Some(v)) => read_opt_strings(lookup(m@, key@)) == Ok::<_, ()>(Some(texts(v@))),
            Ok(None) => read_opt_strings(lookup(m@, key@)) == Ok::<_, ()>(None::<Seq<Seq<char>>>),
            Err(_) => read_opt_strings(lookup(m@, key@)) is Err,
        },
{
    match member(m, key) {
        None => Ok(None),
        Some(JsonValue::Null) => Ok(None),
        Some(JsonValue::Array(items)) => {
            let mut out: Vec<String> = Vec::new();
            let mut j: usize = 0;
            while j < items.len()
                invariant
                    j <= items@.len(),
                    lookup(m@, key@) == Some(JsonValue::Array(*items)),
                    all_strings(items@.subrange(0, j as int)),
                    texts(out@) == string_texts(items@.subrange(0, j as int)),
                decreases items@.len() - j,
            {
                match &items[j] {
                    JsonValue::String(s) => {
                        let ghost before = out@;
                        out.push(s.clone());
                        assert(items@.subrange(0, j + 1) =~= items@.subrange(0, j as int).push(
                            items@[j as int],
                        ));
                        assert(texts(out@) =~= texts(before).push(s@));
                        assert(string_texts(items@.subrange(0, j + 1)) =~= string_texts(
                            items@.subrange(0, j as int),
                        ).push(s@));
                    },
                    _ => {
                        assert(!(items@[j as int] is String));
                        assert(!all_strings(items@));
                        return Err(());
                    },
                }
                j = j + 1;
            }
            assert(items@.subrange(0, j as int) =~= items@);
            Ok(Some(out))
        },
        Some(_) => Err(()),
    }
}

fn read_string_map_member(m: &Vec<(String, JsonValue)>, key: &str) -> (r: Result<
    Option<Vec<(String, String)>>,
    (),
>)
    ensures
        match r {
            Ok(Some(v)) => read_opt_string_map(lookup(m@, key@)) == Ok::<_, ()>(Some(pair_texts(v@))),
            Ok(None) => read_opt_string_map(lookup(m@, key@)) == Ok::<_, ()>(
                None::<Seq<(Seq<char>, Seq<char>)>>,
            ),
            Err(_) => read_opt_string_map(lookup(m@, key@)) is Err,
        },
{
    match member(m, key) {
        None => Ok(None),
        Some(JsonValue::Null) => Ok(None),
        Some(JsonValue::Object(items)) => {
            let mut out: Vec<(String, String)> = Vec::new();
            let mut j: usize = 0;
            while j < items.len()
                invariant
                    j <= items@.len(),
                    lookup(m@, key@) == Some(JsonValue::Object(*items)),
                    all_string_members(items@.subrange(0, j as int)),
                    pair_texts(out@) == member_texts(items@.subrange(0, j as int)),
                decreases items@.len() - j,
            {
                match &items[j].1 {
                    JsonValue::String(s) => {
                        let ghost before = out@;
                        out.push((items[j].0.clone(), s.clone()));
                        assert(items@.subrange(0, j + 1) =~= items@.subrange(0, j as int).push(
                            items@[j as int],
                        ));
                        assert(pair_texts(out@) =~= pair_texts(before).push((items@[j as int].0@, s@)));
                        assert(member_texts(items@.subrange(0, j + 1)) =~= member_texts(
                            items@.subrange(0, j as int),
                        ).push((items@[j as int].0@, s@)));
                    },
                    _ => {
                        assert(!(items@[j as int].1 is String));
                        assert(!all_string_members(items@));
                        return Err(());
                    },
                }
                j = j + 1;
            }
            assert(items@.subrange(0, j as int) =~= items@);
            Ok(Some(out))
        },
        Some(_) => Err(()),
    }
}

fn read_transport_member(m: &Vec<(String, JsonValue)>) -> (r: Result<String, ()>)
    ensures
        match r {
            Ok(t) => read_transport(lookup(m@, "transport"@)) == Ok::<_, ()>(t@),
            Err(_) => read_transport(lookup(m@, "transport"@)) is Err,
        },
{
    match member(m, "transport") {
        None => Ok(default_transport()),
        Some(JsonValue::String(s)) => Ok(s.clone()),
        Some(_) => Err(()),
    }
}

fn read_port_member(m: &Vec<(String, JsonValue)>) -> (r: Result<Option<u16>, ()>)
    ensures
        match r {
            Ok(p) => read_port(lookup(m@, "port"@)) == Ok::<_, ()>(p),
            Err(_) => read_port(lookup(m@, "port"@)) is Err,
        },
{
    match member(m, "port") {
        None => Ok(None),
        Some(JsonValue::Null) => Ok(None),
        Some(JsonValue::Number(JsonNumber::PosInt(n))) => if *n <= 65535 {
            Ok(Some(*n as u16))
        } else {
            Err(())
        },
        Some(_) => Err(()),
    }
}

/// Reads one server's settings. The name is `name` when given, else the
/// settings' own `name` member.
pub fn parse_server_config(m: &Vec<(String, JsonValue)>, name: Option<String>) -> (r: Result<
    MCPServerConfig,
    ConfigError,
>)
    ensures
        match r {
            Ok(c) => settings_error(m@, name is Some) is None && c.reads(
                m@,
                match name {
                    Some(n) => n@,
                    None => own_name(m@),
                },
            ),
            Err(e) => settings_error(m@, name is Some) == Some(e),
        },
{
    let name = match name {
        Some(n) => n,
        None => match member(m, "name") {
            None => {
                return Err(ConfigError::MissingField(ConfigField::Name));
            },
            Some(JsonValue::String(s)) => s.clone(),
            Some(_) => {
                return Err(ConfigError::InvalidField(ConfigField::Name));
            },
        },
    };
    let command = match read_string_member(m, "command") {
        Ok(c) => c,
        Err(_) => {
            return Err(ConfigError::InvalidField(ConfigField::Command));
        },
    };
    let args = match read_strings_member(m, "args") {
        Ok(a) => a,
        Err(_) => {
            return Err(ConfigError::InvalidField(ConfigField::Args));
        },
    };
    let env = match read_string_map_member(m, "env") {
        Ok(e) => e,
        Err(_) => {
            return Err(ConfigError::InvalidField(ConfigField::Env));
        },
    };
    let transport = match read_transport_member(m) {
        Ok(t) => t,
        Err(_) => {
            return Err(ConfigError::InvalidField(ConfigField::Transport));
        },
    };
    let url = match read_string_member(m, "url") {
        Ok(u) => u,
        Err(_) => {
            return Err(ConfigError::InvalidField(ConfigField::Url));
        },
    };
    let port = match read_port_member(m) {
        Ok(p) => p,
        Err(_) => {
            return Err(ConfigError::InvalidField(ConfigField::Port));
        },
    };
    Ok(MCPServerConfig { name, command, args, env, transport, url, port })
}

/// Reads the servers that a configuration document describes: either an
/// `mcpServers` object from name to settings, where the key is the name, or a
/// `servers` array of settings that carry their own names. The first entry that
/// cannot be read decides the error.
pub fn servers_from_config(config: &JsonValue) -> (r: Result<Vec<MCPServerConfig>, ConfigError>)
    ensures
        match keyed_servers(*config) {
            Some(s) => match r {
                Ok(v) => v@.len() == s.len() && forall|i: int|
                    0 <= i < s.len() ==> entry_error(#[trigger] s[i].1, true) is None
                        && entry_reads(v@[i], s[i].1, Some(s[i].0@)),
                Err(e) => exists|i: int|
                    0 <= i < s.len() && entry_error(#[trigger] s[i].1, true) == Some(e)
                        && forall|j: int| 0 <= j < i ==> entry_error(#[trigger] s[j].1, true) is None,
            },
            None => match listed_servers(*config) {
                Some(a) => match r {
                    Ok(v) => v@.len() == a.len() && forall|i: int|
                        0 <= i < a.len() ==> entry_error(#[trigger] a[i], false) is None
                            && entry_reads(v@[i], a[i], None),
                    Err(e) => exists|i: int|
                        0 <= i < a.len() && entry_error(#[trigger] a[i], false) == Some(e)
                            && forall|j: int| 0 <= j < i ==> entry_error(#[trigger] a[j], false) is None,
                },
                None => r == Err::<Vec<MCPServerConfig>, _>(ConfigError::MissingServerList),
            },
        },
{
    let m = match config {
        JsonValue::Object(m) => m,
        _ => {
            return Err(ConfigError::MissingServerList);
        },
    };
    match member(m, "mcpServers") {
        Some(JsonValue::Object(servers)) => {
            let mut out: Vec<MCPServerConfig> = Vec::new();
            let mut j: usize = 0;
            while j < servers.len()
                invariant
                    keyed_servers(*config) == Some(servers@),
                    j <= servers@.len(),
                    out@.len() == j,
                    forall|i: int|
                        0 <= i < j ==> entry_error(#[trigger] servers@[i].1, true) is None
                            && entry_reads(out@[i], servers@[i].1, Some(servers@[i].0@)),
                decreases servers@.len() - j,
            {
                match &servers[j].1 {
                    JsonValue::Object(obj) => {
                        match parse_server_config(obj, Some(servers[j].0.clone())) {
                            Ok(c) => {
                                out.push(c);
                            },
                            Err(e) => {
                                return Err(e);
                            },
                        }
                    },
                    _ => {
                        return Err(ConfigError::NotAnObject);
                    },
                }
                j = j + 1;
            }
            Ok(out)
        },
        _ => match member(m, "servers") {
            Some(JsonValue::Array(items)) => {
                let mut out: Vec<MCPServerConfig> = Vec::new();
                let mut j: usize = 0;
                while j < items.len()
                    invariant
                        keyed_servers(*config) is None,
                        listed_servers(*config) == Some(items@),
                        j <= items@.len(),
                        out@.len() == j,
                        forall|i: int|
                            0 <= i < j ==> entry_error(#[trigger] items@[i], false) is None
                                && entry_reads(out@[i], items@[i], None),
                    decreases items@.len() - j,
                {
                    match &items[j] {
                        JsonValue::Object(obj) => {
                            match parse_server_config(obj, None) {
                                Ok(c) => {
                                    out.push(c);
                                },
                                Err(e) => {
                                    return Err(e);
                                },
                            }
                        },
                        _ => {
                            return Err(ConfigError::NotAnObject);
                        },
                    }
                    j = j + 1;
                }
                Ok(out)
            },
            _ => Err(ConfigError::MissingServerList),
        },
    }
}

} // verus!
