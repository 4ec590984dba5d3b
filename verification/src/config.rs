//! The resolved configuration the engine runs with, and the rules by which
//! command-line arguments, a configuration file and built-in defaults are
//! combined into it.

use std::collections::HashMap;
use vstd::prelude::*;

verus! {

/// Positional command-line arguments.
#[derive(Debug)]
pub struct Args {
    /// Command to run (for example `init`).
    pub command: Option<String>,
    /// Proxy server port.
    pub proxy_port: Option<u16>,
    /// Target server port.
    pub target_port: Option<u16>,
}

/// Everything the engine needs to know about its surroundings.
#[derive(Debug)]
pub struct Config {
    /// Command that starts the target development server.
    pub command: String,
    /// Port the proxy listens on.
    pub proxy_port: u16,
    /// Port on which the target server listens.
    pub target_port: u16,
    /// Environment variables handed to the target process.
    pub env: HashMap<String, String>,
}

/// Port the proxy listens on when none is configured.
pub fn default_proxy_port() -> (port: u16)
    ensures
        port == 4000,
{
    4000
}

/// Port on which the target server listens when none is configured.
pub fn default_target_port() -> (port: u16)
    ensures
        port == 3000,
{
    3000
}

/// `first` if given, else `second` if given, else `fallback`.
pub open spec fn first_of(first: Option<u16>, second: Option<u16>, fallback: u16) -> u16 {
    match first {
        Some(p) => p,
        None => match second {
            Some(p) => p,
            None => fallback,
        },
    }
}

/// `word` occurs in `text` as a contiguous run of characters.
pub open spec fn mentions(text: Seq<char>, word: Seq<char>) -> bool {
    exists|i: int|
        0 <= i <= text.len() - word.len() && #[trigger] text.subrange(i, i + word.len()) == word
}

/// `content` closed by a line break if it did not end in one, followed by the
/// line `.chopin`.
pub open spec fn with_ignore_entry(content: Seq<char>) -> Seq<char> {
    if content.len() > 0 && content.last() == '\n' {
        content + ".chopin\n"@
    } else {
        content.push('\n') + ".chopin\n"@
    }
}

/// `str::contains` with a string pattern: whether `word` matches a sub-slice
/// of `text`.
#[verifier::external_body]
fn text_contains(text: &str, word: &str) -> (found: bool)
    ensures
        found == mentions(text@, word@),
{
    text.contains(word)
}

impl Args {
    /// The arguments ask for a fresh project to be initialised.
    pub open spec fn is_init(&self) -> bool {
        self.command matches Some(c) && c@ == "init"@
    }

    /// Whether the first argument is the command `init`.
    pub fn wants_init(&self) -> (init: bool)
        ensures
            init == self.is_init(),
    {
        match &self.command {
            Some(c) => *c == String::from_str("init"),
            None => false,
        }
    }
}

impl Config {
    /// The built-in configuration: `npm run dev` behind ports 4000 and 3000
    /// with an empty environment.
    pub open spec fn is_default(&self) -> bool {
        &&& self.command@ == "npm run dev"@
        &&& self.proxy_port == 4000
        &&& self.target_port == 3000
        &&& self.env@ == Map::<String, String>::empty()
    }

    /// The configuration a fresh project starts with.
    pub fn init() -> (cfg: Config)
        ensures
            cfg.is_default(),
    {
        Config {
            command: String::from_str("npm run dev"),
            proxy_port: default_proxy_port(),
            target_port: default_target_port(),
            env: HashMap::new(),
        }
    }

    /// Resolves the configuration from the arguments and, where a
    /// configuration file was found, from what it holds. With the command
    /// `init` the result is the built-in configuration, whatever else is
    /// given. Otherwise a port given as an argument wins over the file, the
    /// file over the default, and command and environment come from the
    /// file, or from the defaults without one.
    pub fn new(args: &Args, file: Option<Config>) -> (cfg: Config)
        ensures
            args.is_init() ==> cfg.is_default(),
            !args.is_init() ==> {
                &&& cfg.proxy_port == first_of(
                    args.proxy_port,
                    match file {
                        Some(f) => Some(f.proxy_port),
                        None => None,
                    },
                    4000,
                )
                &&& cfg.target_port == first_of(
                    args.target_port,
                    match file {
                        Some(f) => Some(f.target_port),
                        None => None,
                    },
                    3000,
                )
                &&& match file {
                    Some(f) => cfg.command == f.command && cfg.env == f.env,
                    None => cfg.command@ == "npm run dev"@ && cfg.env@ == Map::<
                        String,
                        String,
                    >::empty(),
                }
            },
    {
        if args.wants_init() {
            return Config::init();
        }
        let mut cfg = match file {
            Some(f) => f,
            None => Config::init(),
        };
        if let Some(port) = args.proxy_port {
            cfg.proxy_port = port;
        }
        if let Some(port) = args.target_port {
            cfg.target_port = port;
        }
        cfg
    }
}

/// What `.gitignore` must hold after initialisation, given what it holds
/// now: `None` where it already mentions `.chopin` and stays as it is,
/// otherwise the old content with the entry added on a line of its own.
pub fn gitignore_update(content: &str) -> (updated: Option<String>)
    ensures
        match updated {
            None => mentions(content@, ".chopin"@),
            Some(text) => !mentions(content@, ".chopin"@) && text@ == with_ignore_entry(content@),
        },
{
    if text_contains(content, ".chopin") {
        return None;
    }
    let mut text = String::from_str(content);
    let n = content.unicode_len();
    if n == 0 || content.get_char(n - 1) != '\n' {
        text.push('\n');
    }
    text.append(".chopin\n");
    Some(text)
}

} // verus!
