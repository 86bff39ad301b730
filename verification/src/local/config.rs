//! Backend configuration.

use vstd::prelude::*;

use crate::text::{
    chars_of, length_before, lemma_length_before, same_text, string_from, strip_prefix,
    text_from_utf8_lossy, utf8_lossy,
};

verus! {

/// A span of time.
#[derive(Clone, Copy, Debug, PartialEq, Eq, Structural)]
pub struct Timeout {
    pub seconds: u64,
    pub nanoseconds: u32,
}

/// The idle timeout without configuration: a quarter of an hour.
pub const DEFAULT_IDLE_TIMEOUT_SECONDS: u64 = 900;

/// Why the configuration was not loaded. Paths are the bytes of a Unix path.
#[derive(Debug)]
pub enum ConfigError {
    /// The configuration file could not be read.
    Read { path: Vec<u8>, source: String },
    /// The configuration is not valid.
    Parse {
        path: Vec<u8>,
        /// The field at fault, without its value.
        field: String,
        message: &'static str,
    },
    /// The idle timeout is not positive.
    ZeroIdleTimeout { path: Vec<u8> },
}

impl ConfigError {
    /// The description of an error.
    pub open spec fn description(self) -> Seq<char> {
        match self {
            ConfigError::Read { path, source } => "could not read configuration "@ + utf8_lossy(
                path@,
            ) + ": "@ + source@,
            ConfigError::Parse { path, field, message } => "could not parse configuration "@
                + utf8_lossy(path@) + " at "@ + field@ + ": "@ + message@,
            ConfigError::ZeroIdleTimeout { path } => "configuration "@ + utf8_lossy(path@)
                + " has an invalid server.idle_timeout; it must be greater than zero"@,
        }
    }

    /// Describes the error.
    pub fn message(&self) -> (text: String)
        ensures
            text@ == self.description(),
    {
        let mut text = String::new();
        match self {
            ConfigError::Read { path, source } => {
                let path = text_from_utf8_lossy(path.as_slice());
                text.push_str("could not read configuration ");
                text.push_str(&path);
                text.push_str(": ");
                text.push_str(source);
            },
            ConfigError::Parse { path, field, message } => {
                let path = text_from_utf8_lossy(path.as_slice());
                text.push_str("could not parse configuration ");
                text.push_str(&path);
                text.push_str(" at ");
                text.push_str(field);
                text.push_str(": ");
                text.push_str(message);
            },
            ConfigError::ZeroIdleTimeout { path } => {
                let path = text_from_utf8_lossy(path.as_slice());
                text.push_str("configuration ");
                text.push_str(&path);
                text.push_str(
                    " has an invalid server.idle_timeout; it must be greater than zero",
                );
            },
        }
        assert(text@ =~= self.description());
        text
    }
}

/// Settings of the backend server.
#[derive(Clone, Copy, Debug, PartialEq, Eq, Structural)]
pub struct ServerConfig {
    /// The time without clients or work after which the backend stops.
    pub idle_timeout: Timeout,
}

/// The configuration that the backend reads once.
#[derive(Clone, Copy, Debug, PartialEq, Eq, Structural)]
pub struct MohConfig {
    pub server: ServerConfig,
}

/// The server settings without configuration.
pub open spec fn default_server() -> ServerConfig {
    ServerConfig {
        idle_timeout: Timeout { seconds: DEFAULT_IDLE_TIMEOUT_SECONDS, nanoseconds: 0 },
    }
}

impl Default for ServerConfig {
    fn default() -> (config: Self)
        ensures
            config == default_server(),
    {
        ServerConfig {
            idle_timeout: Timeout { seconds: DEFAULT_IDLE_TIMEOUT_SECONDS, nanoseconds: 0 },
        }
    }
}

impl Default for MohConfig {
    fn default() -> (config: Self)
        ensures
            config.server == default_server(),
    {
        MohConfig { server: ServerConfig::default() }
    }
}

/// The words with which the parser of configuration texts reports a field it does not know.
pub open spec fn unknown_field_words() -> Seq<char> {
    "unknown field `"@
}

/// The field that a parser message reports as unknown.
pub open spec fn unknown_field(message: Seq<char>) -> Option<Seq<char>> {
    let words = unknown_field_words();
    if words.is_prefix_of(message) {
        let rest = message.skip(words.len() as int);
        let length = length_before(rest, '`');
        if length < rest.len() {
            Some(rest.take(length as int))
        } else {
            None
        }
    } else {
        None
    }
}

fn find_unknown_field(message: &str) -> (field: Option<String>)
    ensures
        match field {
            Some(field) => unknown_field(message@) == Some(field@),
            None => unknown_field(message@) is None,
        },
{
    match strip_prefix(message, "unknown field `") {
        Some(rest) => {
            let characters = chars_of(&rest);
            let mut end: usize = 0;
            while end < characters.len() && characters[end] != '`'
                invariant
                    end <= characters@.len(),
                    forall|i: int| 0 <= i < end ==> #[trigger] characters@[i] != '`',
                decreases characters@.len() - end,
            {
                end += 1;
            }
            proof {
                lemma_length_before(characters@, '`', end as int);
                assert(characters@.subrange(0, end as int) =~= characters@.take(end as int));
            }
            if end < characters.len() {
                Some(string_from(&characters, 0, end))
            } else {
                None
            }
        },
        None => None,
    }
}

/// The field that a parser message is reported under.
pub open spec fn reported_field(message: Seq<char>) -> Seq<char> {
    match unknown_field(message) {
        Some(field) => field,
        None => "configuration"@,
    }
}

/// What a parser message is reported as; it never holds a value of the configuration.
pub open spec fn reported_problem(message: Seq<char>) -> Seq<char> {
    if reported_field(message) == "configuration"@ {
        "invalid TOML configuration"@
    } else {
        "unknown field"@
    }
}

impl MohConfig {
    fn parse_error(path: Vec<u8>, message: &str) -> (error: ConfigError)
        ensures
            match error {
                ConfigError::Parse { path: at, field, message: problem } => at == path && field@
                    == reported_field(message@) && problem@ == reported_problem(message@),
                _ => false,
            },
    {
        let field = match find_unknown_field(message) {
            Some(field) => field,
            None => "configuration".to_owned(),
        };
        let problem = if same_text(&field, "configuration") {
            "invalid TOML configuration"
        } else {
            "unknown field"
        };
        ConfigError::Parse { path, field, message: problem }
    }

    /// Checks what the text at `path` was parsed as; a text that could not be parsed is given by
    /// the parser's message.
    pub fn parse(parsed: Result<MohConfig, String>, path: Vec<u8>) -> (result: Result<
        Self,
        ConfigError,
    >)
        ensures
            match parsed {
                Ok(config) => if config.server.idle_timeout == (Timeout {
                    seconds: 0,
                    nanoseconds: 0,
                }) {
                    result == Err::<MohConfig, ConfigError>(ConfigError::ZeroIdleTimeout { path })
                } else {
                    result == Ok::<MohConfig, ConfigError>(config)
                },
                Err(message) => match result {
                    Err(ConfigError::Parse { path: at, field, message: problem }) => at == path
                        && field@ == reported_field(message@) && problem@ == reported_problem(
                        message@,
                    ),
                    _ => false,
                },
            },
    {
        match parsed {
            Ok(config) => {
                let timeout = config.server.idle_timeout;
                if timeout.seconds == 0 && timeout.nanoseconds == 0 {
                    return Err(ConfigError::ZeroIdleTimeout { path });
                }
                Ok(config)
            },
            Err(message) => Err(Self::parse_error(path, &message)),
        }
    }

    /// The configuration of a file: an absent one gives the defaults. `read` is `None` for an
    /// absent file, the parsed text, or why it could not be read.
    pub fn load(read: Result<Option<Result<MohConfig, String>>, String>, path: Vec<u8>) -> (result:
        Result<Self, ConfigError>)
        ensures
            match read {
                Err(source) => result == Err::<MohConfig, ConfigError>(
                    ConfigError::Read { path, source },
                ),
                Ok(None) => match result {
                    Ok(config) => config.server == default_server(),
                    Err(_) => false,
                },
                Ok(Some(Ok(config))) => if config.server.idle_timeout == (Timeout {
                    seconds: 0,
                    nanoseconds: 0,
                }) {
                    result == Err::<MohConfig, ConfigError>(ConfigError::ZeroIdleTimeout { path })
                } else {
                    result == Ok::<MohConfig, ConfigError>(config)
                },
                Ok(Some(Err(message))) => match result {
                    Err(ConfigError::Parse { path: at, field, message: problem }) => at == path
                        && field@ == reported_field(message@) && problem@ == reported_problem(
                        message@,
                    ),
                    _ => false,
                },
            },
    {
        match read {
            Err(source) => Err(ConfigError::Read { path, source }),
            Ok(None) => Ok(MohConfig::default()),
            Ok(Some(parsed)) => Self::parse(parsed, path),
        }
    }
}

/// Without a configuration file the backend stops after 15 idle minutes. A file is taken as it is
/// but for an idle timeout of nothing, and one that cannot be read or understood is refused.
pub proof fn lemma_configurations_are_taken_as_they_are()
    ensures
        forall|
            read: Result<Option<Result<MohConfig, String>>, String>,
            path: Vec<u8>,
            result: Result<MohConfig, ConfigError>,
        | #[trigger]
            call_ensures(MohConfig::load, (read, path), result) ==> {
                &&& read is Ok && read->Ok_0 is None ==> result is Ok
                    && result->Ok_0.server.idle_timeout.seconds == 15 * 60
                    && result->Ok_0.server.idle_timeout.nanoseconds == 0
                &&& read is Ok && read->Ok_0 is Some && read->Ok_0->0 is Ok ==> {
                    let config = read->Ok_0->0->Ok_0;
                    let timeout = config.server.idle_timeout;
                    &&& result is Ok <==> timeout.seconds > 0 || timeout.nanoseconds > 0
                    &&& result is Ok ==> result->Ok_0 == config
                    &&& result is Err ==> result->Err_0 == (ConfigError::ZeroIdleTimeout { path })
                }
                &&& read is Err ==> result == Err::<MohConfig, ConfigError>(
                    ConfigError::Read { path, source: read->Err_0 },
                )
                &&& read is Ok && read->Ok_0 is Some && read->Ok_0->0 is Err ==> result is Err
                    && result->Err_0 is Parse && result->Err_0->Parse_path == path
            },
        forall|parsed: Result<MohConfig, String>, path: Vec<u8>, result: Result<MohConfig, ConfigError>|
         #[trigger]
            call_ensures(MohConfig::parse, (parsed, path), result) ==> {
                &&& result is Ok ==> parsed is Ok && result->Ok_0 == parsed->Ok_0
                &&& result is Ok <==> parsed is Ok && (parsed->Ok_0.server.idle_timeout.seconds > 0
                    || parsed->Ok_0.server.idle_timeout.nanoseconds > 0)
            },
{
}

/// A field that the configuration does not know is named, without what it was set to; any other
/// mistake is told of the whole configuration.
pub proof fn lemma_unknown_fields_are_named(name: Seq<char>, rest: Seq<char>, message: Seq<char>)
    requires
        forall|i: int| 0 <= i < name.len() ==> #[trigger] name[i] != '`',
    ensures
        reported_field("unknown field `"@ + name + seq!['`'] + rest) == name,
        name != "configuration"@ ==> reported_problem("unknown field `"@ + name + seq!['`'] + rest)
            == "unknown field"@,
        !"unknown field `"@.is_prefix_of(message) ==> reported_field(message) == "configuration"@
            && reported_problem(message) == "invalid TOML configuration"@,
{
    let words = "unknown field `"@;
    let text = words + name + seq!['`'] + rest;
    assert(text.take(words.len() as int) =~= words);
    let tail = text.skip(words.len() as int);
    assert(tail =~= name + seq!['`'] + rest);
    assert forall|i: int| 0 <= i < name.len() implies #[trigger] tail[i] != '`' by {
        assert(tail[i] == name[i]);
    }
    assert(tail[name.len() as int] == '`');
    lemma_length_before(tail, '`', name.len() as int);
    assert(tail.take(name.len() as int) =~= name);
}

} // verus!
