//! Formatted console logging: a colored, emoji-tagged level, the module target aligned to
//! the widest target seen so far, then the message.

use vstd::prelude::*;
use vstd::string::StrSliceExecFns;
use vstd::string::StringExecFns;
use std::sync::atomic::AtomicUsize;
use env_logger::fmt::Formatter;
use env_logger::Builder;
use log::Record;
use log::SetLoggerError;
use std::io::Write;
use std::fmt::Write as FmtWrite;
use vstd::utf8::encode_utf8;

verus! {

#[verifier::external_type_specification]
#[verifier::external_body]
pub struct ExBuilder(Builder);

#[verifier::external_type_specification]
#[verifier::external_body]
pub struct ExFormatter(Formatter);

#[verifier::external_type_specification]
#[verifier::external_body]
pub struct ExRecord<'a>(Record<'a>);

#[verifier::external_type_specification]
#[verifier::external_body]
pub struct ExSetLoggerError(SetLoggerError);

#[verifier::external_type_specification]
#[verifier::external_body]
pub struct ExIoError(std::io::Error);

/// The severity of a log record.
#[derive(Debug, Clone, Copy, PartialEq, Eq, Structural)]
pub enum LogLevel {
    Trace,
    Debug,
    Info,
    Warn,
    Error,
}

/// The colored, emoji-tagged label of each level.
pub open spec fn level_label(level: LogLevel) -> Seq<char> {
    match level {
        LogLevel::Trace => "\x1b[35m\u{1f338} TRACE\x1b[0m"@,
        LogLevel::Debug => "\x1b[36m\u{1f98b} DEBUG\x1b[0m"@,
        LogLevel::Info => "\x1b[32m\u{1f331} INFO \x1b[0m"@,
        LogLevel::Warn => "\x1b[33m\u{2728} WARN \x1b[0m"@,
        LogLevel::Error => "\x1b[31m\u{1f353} ERROR\x1b[0m"@,
    }
}

/// The colored, emoji-tagged label of a level.
pub fn colored_level(level: LogLevel) -> (r: &'static str)
    ensures
        r@ == level_label(level),
{
    match level {
        LogLevel::Trace => "\x1b[35m\u{1f338} TRACE\x1b[0m",
        LogLevel::Debug => "\x1b[36m\u{1f98b} DEBUG\x1b[0m",
        LogLevel::Info => "\x1b[32m\u{1f331} INFO \x1b[0m",
        LogLevel::Warn => "\x1b[33m\u{2728} WARN \x1b[0m",
        LogLevel::Error => "\x1b[31m\u{1f353} ERROR\x1b[0m",
    }
}

/// The alignment width for a target `target_len` bytes long, given the widest target
/// recorded so far: the larger of the two; and whether the target is wider than the
/// recorded width, so that its length is to be recorded.
pub fn next_target_width(recorded: usize, target_len: usize) -> (r: (usize, bool))
    ensures
        r.0 == if recorded < target_len {
            target_len
        } else {
            recorded
        },
        r.1 == (recorded < target_len),
{
    if recorded < target_len {
        (target_len, true)
    } else {
        (recorded, false)
    }
}

/// The width to align `target` to, given the widest target recorded in `max_width`: the
/// larger of the two, in bytes, as `next_target_width` decides from the width read; a wider
/// target is recorded. Other threads may record widths at the same time, so nothing is
/// claimed of the recorded value that is read.
pub fn max_target_width(max_width: &AtomicUsize, target: &str) -> (r: usize)
    ensures
        r >= target.len(),
{
    let recorded = max_width.load(std::sync::atomic::Ordering::Relaxed);
    let (width, wider) = next_target_width(recorded, target.len());
    if wider {
        max_width.store(width, std::sync::atomic::Ordering::Relaxed);
    }
    width
}

/// `n` spaces.
pub open spec fn spaces(n: nat) -> Seq<char> {
    Seq::new(n, |i: int| ' ')
}

/// `s` followed by spaces up to `width` characters.
pub open spec fn padded(s: Seq<char>, width: nat) -> Seq<char> {
    if s.len() < width {
        s + spaces((width - s.len()) as nat)
    } else {
        s
    }
}

/// A formatted log line (without the line break): an optional timestamp, the level label,
/// the target in magenta padded to `width`, then the message.
pub open spec fn log_line(
    stamp: Option<Seq<char>>,
    level: LogLevel,
    target: Seq<char>,
    width: nat,
    message: Seq<char>,
) -> Seq<char> {
    " "@ + match stamp {
        Some(t) => t + " "@,
        None => Seq::<char>::empty(),
    } + level_label(level) + " \u{2502} "@ + "\x1b[35m"@ + padded(target, width) + "\x1b[0m"@
        + " \u{276f} "@ + message
}

/// Appends `s` to `out`.
fn push_text(out: &mut String, s: &str)
    ensures
        final(out)@ == old(out)@ + s@,
{
    out.append(s);
}

/// Formats a log line as `log_line` describes.
pub fn format_record(
    stamp: Option<&str>,
    level: LogLevel,
    target: &str,
    width: usize,
    message: &str,
) -> (r: String)
    ensures
        r@ == log_line(
            match stamp {
                Some(t) => Some(t@),
                None => None,
            },
            level,
            target@,
            width as nat,
            message@,
        ),
{
    let mut line = String::from_str(" ");
    match stamp {
        Some(t) => {
            push_text(&mut line, t);
            push_text(&mut line, " ");
        },
        None => {},
    }
    push_text(&mut line, colored_level(level));
    push_text(&mut line, " \u{2502} ");
    push_text(&mut line, "\x1b[35m");
    let ghost before_target = line@;
    push_text(&mut line, target);
    let len: usize = target.unicode_len();
    let mut n: usize = len;
    assert(line@ =~= before_target + target@ + spaces(0));
    while n < width
        invariant
            len == target@.len(),
            len <= n,
            n <= width || n == len,
            line@ == before_target + target@ + spaces((n - len) as nat),
        decreases width - n,
    {
        let ghost before = line@;
        push_text(&mut line, " ");
        proof {
            reveal_strlit(" ");
            assert(spaces((n + 1 - len) as nat) =~= spaces((n - len) as nat).push(' '));
        }
        n = n + 1;
        assert(line@ =~= before_target + target@ + spaces((n - len) as nat));
    }
    assert(line@ =~= before_target + padded(target@, width as nat));
    push_text(&mut line, "\x1b[0m");
    push_text(&mut line, " \u{276f} ");
    push_text(&mut line, message);
    line
}

/// The level that a log record carries, as a `LogLevel`: `Record::level` returns the level
/// stored in the record's metadata, so it depends on the record alone.
pub uninterp spec fn record_level_of(record: Record) -> LogLevel;

/// The target (module path) that a log record carries: `Record::target` returns the target
/// stored in the record's metadata, so it depends on the record alone.
pub uninterp spec fn record_target_of(record: Record) -> Seq<char>;

/// `log::Record::level`, told apart by variant: the record's level.
#[verifier::external_body]
fn record_level(record: &Record) -> (r: LogLevel)
    ensures
        r == record_level_of(*record),
{
    match record.level() {
        log::Level::Trace => LogLevel::Trace,
        log::Level::Debug => LogLevel::Debug,
        log::Level::Info => LogLevel::Info,
        log::Level::Warn => LogLevel::Warn,
        log::Level::Error => LogLevel::Error,
    }
}

/// `log::Record::target`: the module path the record comes from.
#[verifier::external_body]
fn record_target<'a>(record: &'a Record<'_>) -> (r: &'a str)
    ensures
        r@ == record_target_of(*record),
{
    record.target()
}

/// `log::Record::args`, written into a `String` by `std::fmt::write`. When a `Display`
/// implementation among the arguments fails, its `fmt::Error` comes back as an I/O error of
/// kind `Other` (`std::io::Error::other`). Nothing is claimed of the text, nor of when an
/// error comes: both depend on the record's arguments.
#[verifier::external_body]
fn record_message(record: &Record) -> std::io::Result<String> {
    let mut text = String::new();
    match std::fmt::write(&mut text, *record.args()) {
        Ok(()) => Ok(text),
        Err(e) => Err(std::io::Error::other(e)),
    }
}

/// `env_logger::fmt::Formatter::timestamp_millis`, written into a `String` with `write!`:
/// the current time in RFC 3339 form. Its `Display` fails for a clock reading that `jiff`
/// cannot represent; that `fmt::Error` comes back as an I/O error of kind `Other`. The
/// value comes from the clock: nothing is claimed of it.
#[verifier::external_body]
fn timestamp_millis(f: &Formatter) -> std::io::Result<String> {
    let stamp = f.timestamp_millis();
    let mut text = String::new();
    match write!(text, "{}", stamp) {
        Ok(()) => Ok(text),
        Err(e) => Err(std::io::Error::other(e)),
    }
}

/// The bytes that a formatter holds: env_logger's `Formatter` writes into an in-memory
/// `Buffer` (a `Vec<u8>`), which the logger prints once the record is formatted.
pub uninterp spec fn formatter_bytes(f: Formatter) -> Seq<u8>;

/// `writeln!(f, "{}", line)`. The formatter's `io::Write::write` extends its in-memory
/// buffer by the bytes it is given and returns `Ok` (`Buffer::write` in env_logger), so the
/// write succeeds and the buffer grows by the UTF-8 encoding of `line` and a line feed.
#[verifier::external_body]
fn write_line(f: &mut Formatter, line: &str) -> (r: std::io::Result<()>)
    ensures
        r is Ok,
        formatter_bytes(*final(f)) == formatter_bytes(*old(f)) + encode_utf8(line@) + seq![10u8],
{
    writeln!(f, "{}", line)
}

/// The text of a rendered message, or nothing when rendering it failed.
pub open spec fn message_text(message: std::io::Result<String>) -> Seq<char> {
    match message {
        Ok(m) => m@,
        Err(_) => Seq::empty(),
    }
}

/// The text of a rendered timestamp, when there is one and it was rendered.
pub open spec fn stamp_text(stamp: Option<std::io::Result<String>>) -> Option<Seq<char>> {
    match stamp {
        Some(Ok(t)) => Some(t@),
        _ => None,
    }
}

/// Whether a record with this rendered message and (optional) timestamp can be written:
/// both rendered without error.
pub open spec fn renders(message: std::io::Result<String>, stamp: Option<std::io::Result<String>>) -> bool {
    &&& message is Ok
    &&& (stamp matches Some(t) ==> t is Ok)
}

/// Writes one log entry, followed by a line feed, as `format_record` lays it out: the
/// timestamp when one is given, the level label, `target` aligned to the widest target
/// recorded in `max_width` (a wider one is recorded), and the message. When the timestamp
/// or the message failed to render, that error is returned and nothing is written.
pub fn write_record(
    f: &mut Formatter,
    level: LogLevel,
    target: &str,
    message: std::io::Result<String>,
    max_width: &AtomicUsize,
    stamp: Option<std::io::Result<String>>,
) -> (r: std::io::Result<()>)
    ensures
        r is Ok <==> renders(message, stamp),
        r is Ok ==> exists|width: nat|
            {
                &&& width >= encode_utf8(target@).len() as usize
                &&& formatter_bytes(*final(f)) == formatter_bytes(*old(f)) + encode_utf8(
                    #[trigger] log_line(stamp_text(stamp), level, target@, width, message_text(message)),
                ) + seq![10u8]
            },
        r is Err ==> formatter_bytes(*final(f)) == formatter_bytes(*old(f)),
{
    let width = max_target_width(max_width, target);
    let stamp_line: Option<String> = match stamp {
        Some(Ok(t)) => Some(t),
        Some(Err(e)) => return Err(e),
        None => None,
    };
    let text = match message {
        Ok(m) => m,
        Err(e) => return Err(e),
    };
    let line = match &stamp_line {
        Some(t) => format_record(Some(t.as_str()), level, target, width, text.as_str()),
        None => format_record(None, level, target, width, text.as_str()),
    };
    let r = write_line(f, line.as_str());
    assert(formatter_bytes(*f) == formatter_bytes(*old(f)) + encode_utf8(
        log_line(stamp_text(stamp), level, target@, width as nat, message_text(message)),
    ) + seq![10u8]);
    r
}

/// Reads a log record (its level, target and rendered message) and, when `timed`, the
/// current time from the formatter, then writes the entry with `write_record`: the record's
/// own level and target, aligned, then the message. What the message renders to (the
/// arguments' `Display` implementations) and the time are outside the library, and so is
/// the width read from `max_width`; the contract says how the entry is laid out from them.
pub fn log_record(f: &mut Formatter, record: &Record, max_width: &AtomicUsize, timed: bool) -> (r:
    std::io::Result<()>)
    ensures
        r is Ok ==> exists|stamp: Option<Seq<char>>, width: nat, message: Seq<char>|
            {
                &&& (stamp is Some <==> timed)
                &&& width >= encode_utf8(record_target_of(*record)).len() as usize
                &&& formatter_bytes(*final(f)) == formatter_bytes(*old(f)) + encode_utf8(
                    #[trigger] log_line(
                        stamp,
                        record_level_of(*record),
                        record_target_of(*record),
                        width,
                        message,
                    ),
                ) + seq![10u8]
            },
        r is Err ==> formatter_bytes(*final(f)) == formatter_bytes(*old(f)),
{
    let level = record_level(record);
    let target = record_target(record);
    let message = record_message(record);
    let stamp = if timed {
        Some(timestamp_millis(f))
    } else {
        None
    };
    let ghost stamp_v = stamp;
    let ghost message_v = message;
    let r = write_record(f, level, target, message, max_width, stamp);
    proof {
        if r is Ok {
            let width = choose|width: nat|
                {
                    &&& width >= encode_utf8(target@).len() as usize
                    &&& formatter_bytes(*f) == formatter_bytes(*old(f)) + encode_utf8(
                        #[trigger] log_line(stamp_text(stamp_v), level, target@, width, message_text(message_v)),
                    ) + seq![10u8]
                };
            assert(stamp_text(stamp_v) is Some <==> timed);
            assert(formatter_bytes(*f) == formatter_bytes(*old(f)) + encode_utf8(
                log_line(stamp_text(stamp_v), level, target@, width, message_text(message_v)),
            ) + seq![10u8]);
        }
    }
    r
}

/// `env_logger::Builder::new`, then `Builder::format` with a format function that writes
/// each record through `log_record`, without timestamps; the widest target is tracked
/// per builder. Nothing is claimed of the builder.
#[verifier::external_body]
pub fn formatted_builder() -> Builder {
    let max_width = AtomicUsize::new(0);
    let mut builder = Builder::new();
    builder.format(move |f, record| log_record(f, record, &max_width, false));
    builder
}

/// `env_logger::Builder::new`, then `Builder::format` with a format function that writes
/// each record through `log_record`, with millisecond timestamps; the widest target is
/// tracked per builder. Nothing is claimed of the builder.
#[verifier::external_body]
pub fn formatted_timed_builder() -> Builder {
    let max_width = AtomicUsize::new(0);
    let mut builder = Builder::new();
    builder.format(move |f, record| log_record(f, record, &max_width, true));
    builder
}

/// `env_logger::Builder::parse_env` with the filter read from the environment variable
/// `name` (and, for the write style, an empty variable name, which no environment
/// holds): when `name` is set, its value is parsed as filter directives. What the
/// environment holds is outside the library: nothing is claimed of the builder.
#[verifier::external_body]
fn parse_env_filters(builder: &mut Builder, name: &str) {
    builder.parse_env(env_logger::Env::new().filter(name).write_style(""));
}

/// `env_logger::Builder::try_init` on a builder taken by value, so that each builder is
/// built (and installed) at most once, as `Builder::build` asserts: installs the built
/// logger as the global logger, or fails when a global logger is already installed. That
/// depends on the process's state: nothing is claimed of the outcome.
#[verifier::external_body]
fn builder_try_init(builder: Builder) -> Result<(), SetLoggerError> {
    let mut builder = builder;
    builder.try_init()
}

/// Installs the logger, without timestamps, with filter directives from the environment
/// variable `environment_variable_name`; fails when a global logger is already installed.
pub fn try_init_custom_env(environment_variable_name: &str) -> Result<(), SetLoggerError> {
    let mut builder = formatted_builder();
    parse_env_filters(&mut builder, environment_variable_name);
    builder_try_init(builder)
}

/// Installs the logger, with timestamps, with filter directives from the environment
/// variable `environment_variable_name`; fails when a global logger is already installed.
pub fn try_init_timed_custom_env(environment_variable_name: &str) -> Result<(), SetLoggerError> {
    let mut builder = formatted_timed_builder();
    parse_env_filters(&mut builder, environment_variable_name);
    builder_try_init(builder)
}

/// Installs the logger, without timestamps, filtered by `RUST_LOG`.
pub fn try_init() -> Result<(), SetLoggerError> {
    try_init_custom_env("RUST_LOG")
}

/// Installs the logger, with timestamps, filtered by `RUST_LOG`.
pub fn try_init_timed() -> Result<(), SetLoggerError> {
    try_init_timed_custom_env("RUST_LOG")
}

/// Installs the logger, without timestamps, filtered by `RUST_LOG`. A global logger that is
/// already installed is returned as the error rather than raised as a panic; a program that
/// treats a second installation as a bug unwraps the result.
pub fn init() -> Result<(), SetLoggerError> {
    try_init_custom_env("RUST_LOG")
}

/// Installs the logger, with millisecond timestamps, filtered by `RUST_LOG`. A global logger
/// that is already installed is returned as the error rather than raised as a panic.
pub fn init_timed() -> Result<(), SetLoggerError> {
    try_init_timed_custom_env("RUST_LOG")
}

/// Installs the logger, without timestamps, with filter directives from the environment
/// variable `environment_variable_name`. A global logger that is already installed is
/// returned as the error rather than raised as a panic.
pub fn init_custom_env(environment_variable_name: &str) -> Result<(), SetLoggerError> {
    try_init_custom_env(environment_variable_name)
}

} // verus!
