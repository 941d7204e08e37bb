//! From the settings a probe is started with to the place where its table goes.

use vstd::prelude::*;
use crate::decimal::{decimal, decimal_bytes, is_digit, lemma_decimal_digits};

verus! {

/// The time between two samples, in milliseconds, where none is given.
pub const DEFAULT_INTERVAL_MS: u64 = 250;

/// Where the table goes.
#[derive(Debug, PartialEq, Eq)]
pub enum SinkTarget {
    /// To standard output.
    Stdout,
    /// To the file at this path, made anew.
    File(String),
}

/// What a [`SinkTarget`] stands for.
pub enum Sink {
    Stdout,
    File(Seq<char>),
}

impl View for SinkTarget {
    type V = Sink;

    open spec fn view(&self) -> Sink {
        match self {
            SinkTarget::Stdout => Sink::Stdout,
            SinkTarget::File(path) => Sink::File(path@),
        }
    }
}

impl Clone for SinkTarget {
    fn clone(&self) -> (out: SinkTarget)
        ensures
            out == *self,
    {
        match self {
            SinkTarget::Stdout => SinkTarget::Stdout,
            SinkTarget::File(path) => SinkTarget::File(path.clone()),
        }
    }
}

/// Why a set of settings is refused.
#[derive(Clone, Copy, Debug, PartialEq, Eq)]
pub enum ConfigError {
    /// Standard output was chosen and a file was named, and the table has
    /// one destination.
    ConflictingSinks,
}

impl ConfigError {
    /// The error in words.
    pub fn message(&self) -> (text: String)
        ensures
            text@ == "the table goes either to standard output or to a file, not to both"@,
    {
        String::from_str("the table goes either to standard output or to a file, not to both")
    }
}

/// The settings of one run, fixed when it starts.
#[derive(Debug, PartialEq, Eq)]
pub struct Config {
    /// The process to watch.
    pub pid: u32,
    /// The time between two samples, in milliseconds.
    pub interval_ms: u64,
    /// Where the table goes.
    pub sink: SinkTarget,
}

/// What a [`Config`] stands for.
pub struct ConfigView {
    pub pid: u32,
    pub interval_ms: u64,
    pub sink: Sink,
}

impl View for Config {
    type V = ConfigView;

    open spec fn view(&self) -> ConfigView {
        ConfigView { pid: self.pid, interval_ms: self.interval_ms, sink: self.sink@ }
    }
}

impl Clone for Config {
    fn clone(&self) -> (out: Config)
        ensures
            out == *self,
    {
        Config { pid: self.pid, interval_ms: self.interval_ms, sink: self.sink.clone() }
    }
}

/// ASCII bytes as characters.
pub open spec fn ascii_text(bytes: Seq<u8>) -> Seq<char> {
    bytes.map_values(|b: u8| b as char)
}

/// The name of the file that a probe of `pid` writes where none is given:
/// `memprobe-`, the process id in decimal, `.csv`.
pub open spec fn default_name(pid: u32) -> Seq<char> {
    "memprobe-"@ + ascii_text(decimal(pid as nat)) + ".csv"@
}

/// The destination that the settings resolve to, or the reason why they are
/// refused: standard output and a file cannot both be asked for; standard
/// output where it is asked for; else the file that is named, or the default
/// one.
pub open spec fn resolved_sink(pid: u32, stdout: bool, output_file: Option<Seq<char>>) -> Result<
    Sink,
    ConfigError,
> {
    match output_file {
        Some(path) => if stdout {
            Err(ConfigError::ConflictingSinks)
        } else {
            Ok(Sink::File(path))
        },
        None => if stdout {
            Ok(Sink::Stdout)
        } else {
            Ok(Sink::File(default_name(pid)))
        },
    }
}

/// The settings that the arguments resolve to, or the reason why they are
/// refused. Any interval is accepted; none given means the default.
pub open spec fn resolved_config(
    pid: u32,
    interval_ms: Option<u64>,
    stdout: bool,
    output_file: Option<Seq<char>>,
) -> Result<ConfigView, ConfigError> {
    match resolved_sink(pid, stdout, output_file) {
        Ok(sink) => Ok(
            ConfigView {
                pid,
                interval_ms: match interval_ms {
                    Some(ms) => ms,
                    None => DEFAULT_INTERVAL_MS,
                },
                sink,
            },
        ),
        Err(error) => Err(error),
    }
}

/// One decimal digit as text.
fn digit_str(digit: u8) -> (text: &'static str)
    requires
        is_digit(digit),
    ensures
        text@ == seq![digit as char],
{
    proof {
        reveal_strlit("0");
        reveal_strlit("1");
        reveal_strlit("2");
        reveal_strlit("3");
        reveal_strlit("4");
        reveal_strlit("5");
        reveal_strlit("6");
        reveal_strlit("7");
        reveal_strlit("8");
        reveal_strlit("9");
    }
    let text = match digit {
        48 => "0",
        49 => "1",
        50 => "2",
        51 => "3",
        52 => "4",
        53 => "5",
        54 => "6",
        55 => "7",
        56 => "8",
        _ => "9",
    };
    assert(text@ =~= seq![digit as char]);
    text
}

/// The name of the file that a probe of `pid` writes where none is given.
pub fn default_file_name(pid: u32) -> (name: String)
    ensures
        name@ == default_name(pid),
{
    let digits = decimal_bytes(pid as u64);
    let mut name = String::from_str("memprobe-");
    let mut i: usize = 0;
    proof {
        lemma_decimal_digits(pid as nat);
        assert(ascii_text(digits@.take(0)) =~= Seq::<char>::empty());
    }
    while i < digits.len()
        invariant
            i <= digits.len(),
            digits@ == decimal(pid as nat),
            forall|k: int| 0 <= k < digits.len() ==> is_digit(#[trigger] digits@[k]),
            name@ == "memprobe-"@ + ascii_text(digits@.take(i as int)),
        decreases digits.len() - i,
    {
        name.append(digit_str(digits[i]));
        proof {
            assert(ascii_text(digits@.take(i + 1)) =~= ascii_text(digits@.take(i as int)).push(
                digits@[i as int] as char,
            ));
        }
        i += 1;
    }
    proof {
        assert(digits@.take(i as int) =~= digits@);
    }
    name.append(".csv");
    name
}

/// Resolves the destination of the table, and refuses settings that ask for
/// two.
pub fn resolve_sink(pid: u32, stdout: bool, output_file: Option<String>) -> (out: Result<
    SinkTarget,
    ConfigError,
>)
    ensures
        out is Err <==> stdout && output_file is Some,
        match resolved_sink(pid, stdout, output_file.deep_view()) {
            Ok(sink) => out is Ok && out->Ok_0@ == sink,
            Err(error) => out == Err::<SinkTarget, ConfigError>(error),
        },
{
    match output_file {
        Some(path) => if stdout {
            Err(ConfigError::ConflictingSinks)
        } else {
            Ok(SinkTarget::File(path))
        },
        None => if stdout {
            Ok(SinkTarget::Stdout)
        } else {
            Ok(SinkTarget::File(default_file_name(pid)))
        },
    }
}

impl Config {
    /// Resolves the settings of a run from its arguments.
    pub fn resolve(
        pid: u32,
        interval_ms: Option<u64>,
        stdout: bool,
        output_file: Option<String>,
    ) -> (out: Result<Config, ConfigError>)
        ensures
            out is Err <==> stdout && output_file is Some,
            match resolved_config(pid, interval_ms, stdout, output_file.deep_view()) {
                Ok(config) => out is Ok && out->Ok_0@ == config,
                Err(error) => out == Err::<Config, ConfigError>(error),
            },
    {
        let interval_ms = match interval_ms {
            Some(ms) => ms,
            None => DEFAULT_INTERVAL_MS,
        };
        match resolve_sink(pid, stdout, output_file) {
            Ok(sink) => Ok(Config { pid, interval_ms, sink }),
            Err(error) => Err(error),
        }
    }
}

} // verus!
