//! The settings of a run, as the command line gives them.

use crate::text::{
    append_chars, decimal, from_chars, parse_unsigned, push_decimal, read_unsigned, to_chars,
};
use vstd::prelude::*;

verus! {

pub const DEFAULT_PORT: u16 = 8000;

/// The settings of a run.
#[derive(Clone, Debug, PartialEq, Eq)]
pub struct Config {
    pub verbose: bool,
    pub network: String,
    pub host: String,
    pub channel: String,
    pub port: u16,
    pub path: String,
    pub keyfile: Option<String>,
    pub stress: Option<u8>,
    pub batch: Option<String>,
}

pub struct ConfigView {
    pub verbose: bool,
    pub network: Seq<char>,
    pub host: Seq<char>,
    pub channel: Seq<char>,
    pub port: u16,
    pub path: Seq<char>,
    pub keyfile: Option<Seq<char>>,
    pub stress: Option<u8>,
    pub batch: Option<Seq<char>>,
}

/// The view of a text that may be absent.
pub open spec fn opt_text(o: Option<String>) -> Option<Seq<char>> {
    match o {
        Some(s) => Some(s@),
        None => None,
    }
}

impl View for Config {
    type V = ConfigView;

    open spec fn view(&self) -> ConfigView {
        ConfigView {
            verbose: self.verbose,
            network: self.network@,
            host: self.host@,
            channel: self.channel@,
            port: self.port,
            path: self.path@,
            keyfile: opt_text(self.keyfile),
            stress: self.stress,
            batch: opt_text(self.batch),
        }
    }
}

/// What the command line gave: a flag, and the value of each option that
/// was given, as it was written.
#[derive(Clone, Debug, PartialEq, Eq)]
pub struct Args {
    pub verbose: bool,
    pub batch: Option<String>,
    pub stress: Option<String>,
    pub network: Option<String>,
    pub channel: Option<String>,
    pub host: Option<String>,
    pub port: Option<String>,
    pub path: Option<String>,
    pub keyfile: Option<String>,
}

pub struct ArgsView {
    pub verbose: bool,
    pub batch: Option<Seq<char>>,
    pub stress: Option<Seq<char>>,
    pub network: Option<Seq<char>>,
    pub channel: Option<Seq<char>>,
    pub host: Option<Seq<char>>,
    pub port: Option<Seq<char>>,
    pub path: Option<Seq<char>>,
    pub keyfile: Option<Seq<char>>,
}

impl View for Args {
    type V = ArgsView;

    open spec fn view(&self) -> ArgsView {
        ArgsView {
            verbose: self.verbose,
            batch: opt_text(self.batch),
            stress: opt_text(self.stress),
            network: opt_text(self.network),
            channel: opt_text(self.channel),
            host: opt_text(self.host),
            port: opt_text(self.port),
            path: opt_text(self.path),
            keyfile: opt_text(self.keyfile),
        }
    }
}

/// The settings of a run that was given no option.
pub open spec fn default_config() -> ConfigView {
    ConfigView {
        verbose: false,
        network: "skynet"@,
        host: "localhost"@,
        channel: "http"@,
        port: 8000,
        path: "api/v1"@,
        keyfile: None,
        stress: None,
        batch: None,
    }
}

/// `given` if there is one, else `fallback`.
pub open spec fn or_text(given: Option<Seq<char>>, fallback: Seq<char>) -> Seq<char> {
    match given {
        Some(s) => s,
        None => fallback,
    }
}

/// The number that `s` is, or `fallback` if `s` is no number up to `max`.
pub open spec fn number_or(s: Seq<char>, max: nat, fallback: nat) -> nat {
    match parse_unsigned(s, max) {
        Some(n) => n,
        None => fallback,
    }
}

/// The settings that the command line `args` asks for: every option that
/// was given stands in place of its default. A number of threads that is no
/// number up to 255 counts as 1, and a port that is no number up to 65535
/// counts as the default port.
pub open spec fn config_of(args: ArgsView) -> ConfigView {
    ConfigView {
        verbose: args.verbose,
        network: or_text(args.network, "skynet"@),
        host: or_text(args.host, "localhost"@),
        channel: or_text(args.channel, "http"@),
        port: match args.port {
            Some(s) => number_or(s, 65535, 8000) as u16,
            None => 8000,
        },
        path: or_text(args.path, "api/v1"@),
        keyfile: args.keyfile,
        stress: match args.stress {
            Some(s) => Some(number_or(s, 255, 1) as u8),
            None => None,
        },
        batch: args.batch,
    }
}

fn text_or(given: Option<String>, fallback: &str) -> (s: String)
    ensures
        s@ == or_text(opt_text(given), fallback@),
{
    match given {
        Some(s) => s,
        None => fallback.to_owned(),
    }
}

fn read_number_or(s: &String, max: u64, fallback: u64) -> (n: u64)
    requires
        fallback <= max,
    ensures
        n == number_or(s@, max as nat, fallback as nat),
        n <= max,
{
    let chars = to_chars(s.as_str());
    match read_unsigned(&chars, max) {
        Some(n) => n,
        None => fallback,
    }
}

impl Default for Config {
    fn default() -> (c: Config)
        ensures
            c@ == default_config(),
    {
        Config {
            verbose: false,
            network: "skynet".to_owned(),
            channel: "http".to_owned(),
            host: "localhost".to_owned(),
            port: DEFAULT_PORT,
            path: "api/v1".to_owned(),
            keyfile: None,
            stress: None,
            batch: None,
        }
    }
}

/// How the remote service is reached.
#[derive(Clone, Debug, PartialEq, Eq)]
pub enum Transport {
    Stdio,
    File,
    Http { url: String },
    Bridge { host: String, port: u16 },
}

pub enum TransportView {
    Stdio,
    File,
    Http { url: Seq<char> },
    Bridge { host: Seq<char>, port: u16 },
}

impl View for Transport {
    type V = TransportView;

    open spec fn view(&self) -> TransportView {
        match *self {
            Transport::Stdio => TransportView::Stdio,
            Transport::File => TransportView::File,
            Transport::Http { url } => TransportView::Http { url: url@ },
            Transport::Bridge { host, port } => TransportView::Bridge { host: host@, port },
        }
    }
}

/// What a run does.
#[derive(Clone, Debug, PartialEq, Eq)]
pub enum Mode {
    /// Submit the transactions that the file lists.
    Batch(String),
    /// Submit random transactions from so many threads.
    Stress(u8),
    /// Take commands from the terminal.
    Console,
}

/// The address of the service over HTTP.
pub open spec fn url_of(c: ConfigView) -> Seq<char> {
    "http://"@ + c.host + ":"@ + decimal(c.port as nat) + "/"@ + c.path
}

/// The transport that the settings name, if they name one.
pub open spec fn transport_of(c: ConfigView) -> Option<TransportView> {
    if c.channel == "stdio"@ {
        Some(TransportView::Stdio)
    } else if c.channel == "file"@ {
        Some(TransportView::File)
    } else if c.channel == "http"@ {
        Some(TransportView::Http { url: url_of(c) })
    } else if c.channel == "bridge"@ {
        Some(TransportView::Bridge { host: c.host, port: c.port })
    } else {
        None
    }
}

impl Config {
    /// The settings that the command line `args` asks for.
    pub fn from_values(args: Args) -> (c: Config)
        ensures
            c@ == config_of(args@),
    {
        let port: u16 = match &args.port {
            Some(s) => read_number_or(s, 65535, 8000) as u16,
            None => DEFAULT_PORT,
        };
        let stress: Option<u8> = match &args.stress {
            Some(s) => Some(read_number_or(s, 255, 1) as u8),
            None => None,
        };
        Config {
            verbose: args.verbose,
            network: text_or(args.network, "skynet"),
            host: text_or(args.host, "localhost"),
            channel: text_or(args.channel, "http"),
            port,
            path: text_or(args.path, "api/v1"),
            keyfile: args.keyfile,
            stress,
            batch: args.batch,
        }
    }

    /// The address of the service over HTTP.
    pub fn url(&self) -> (u: String)
        ensures
            u@ == url_of(self@),
    {
        let mut text = to_chars("http://");
        let host = to_chars(self.host.as_str());
        append_chars(&mut text, &host);
        text.push(':');
        push_decimal(&mut text, self.port as u64);
        text.push('/');
        let path = to_chars(self.path.as_str());
        append_chars(&mut text, &path);
        proof {
            reveal_strlit(":");
            reveal_strlit("/");
            assert(":"@ =~= seq![':']);
            assert("/"@ =~= seq!['/']);
            assert(text@ =~= url_of(self@));
        }
        from_chars(&text)
    }

    /// The transport that the settings name. There is none if the name of
    /// the channel is not one of `stdio`, `file`, `http` and `bridge`.
    pub fn transport(&self) -> (t: Option<Transport>)
        ensures
            match transport_of(self@) {
                Some(v) => t matches Some(x) && x@ == v,
                None => t is None,
            },
    {
        let name = to_chars(self.channel.as_str());
        if crate::text::chars_are(&name, "stdio") {
            Some(Transport::Stdio)
        } else if crate::text::chars_are(&name, "file") {
            Some(Transport::File)
        } else if crate::text::chars_are(&name, "http") {
            Some(Transport::Http { url: self.url() })
        } else if crate::text::chars_are(&name, "bridge") {
            Some(Transport::Bridge { host: self.host.clone(), port: self.port })
        } else {
            None
        }
    }

    /// What the run does: a batch where a batch file is given, else a
    /// stress test where a number of threads is given, else the console.
    pub fn mode(&self) -> (m: Mode)
        ensures
            match (self.batch, self.stress) {
                (Some(file), _) => m matches Mode::Batch(f) && f@ == file@,
                (None, Some(threads)) => m == Mode::Stress(threads),
                (None, None) => m == Mode::Console,
            },
    {
        match &self.batch {
            Some(file) => Mode::Batch(file.clone()),
            None => match self.stress {
                Some(threads) => Mode::Stress(threads),
                None => Mode::Console,
            },
        }
    }
}

} // verus!
