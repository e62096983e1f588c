//! Reading the command line.
//!
//! The arguments are read left to right. A flag that takes a value uses up
//! the argument after it, whatever that argument says; a flag that stands
//! last, with nothing after it, is passed over, as is anything unknown.

use vstd::prelude::*;
use crate::error::ScanError;
use crate::request::{request_error, ScanRequest, ScanRequestView, TargetAddr};
use crate::text::{bounded_decimal, parse_decimal};

verus! {

/// The first port scanned when none is given.
pub const DEFAULT_START_PORT: u16 = 1;

/// The last port scanned when none is given.
pub const DEFAULT_END_PORT: u16 = 1024;

/// The number of probes that may run at once when none is given.
pub const DEFAULT_CONCURRENCY: usize = 200;

/// The most probes that the command line lets run at once.
pub const MAX_CONCURRENCY: usize = 1000;

/// The per-probe timeout in milliseconds when none is given.
pub const DEFAULT_TIMEOUT_MS: u64 = 1000;

/// What the command line asks for, as plain values.
pub struct CliOptionsView {
    pub target: Seq<char>,
    pub start_port: u16,
    pub end_port: u16,
    pub concurrency: usize,
    pub timeout_ms: u64,
    pub quiet: bool,
}

/// What the command line asks for. The target is still text: it is parsed
/// where addresses are known.
#[derive(Clone, Debug, PartialEq, Eq)]
pub struct CliOptions {
    pub target: String,
    pub start_port: u16,
    pub end_port: u16,
    pub concurrency: usize,
    pub timeout_ms: u64,
    pub quiet: bool,
}

impl View for CliOptions {
    type V = CliOptionsView;

    open spec fn view(&self) -> CliOptionsView {
        CliOptionsView {
            target: self.target@,
            start_port: self.start_port,
            end_port: self.end_port,
            concurrency: self.concurrency,
            timeout_ms: self.timeout_ms,
            quiet: self.quiet,
        }
    }
}

/// What the program was asked to do.
#[derive(Clone, Debug, PartialEq, Eq)]
pub enum Invocation {
    /// Print the usage and stop.
    Help,
    /// Scan with these options.
    Scan(CliOptions),
}

/// The arguments as plain text, in the same order.
pub open spec fn arg_views(args: Seq<String>) -> Seq<Seq<char>> {
    args.map_values(|arg: String| arg@)
}

/// The argument is the flag in its short or its long form.
pub open spec fn is_flag(arg: Seq<char>, short: Seq<char>, long: Seq<char>) -> bool {
    arg == short || arg == long
}

/// Help is asked for anywhere on the command line.
pub open spec fn wants_help(args: Seq<Seq<char>>) -> bool {
    exists|i: int| 0 <= i < args.len() && is_flag(#[trigger] args[i], "-h"@, "--help"@)
}

/// The options of a command line without arguments.
pub open spec fn default_options() -> CliOptionsView {
    CliOptionsView {
        target: "127.0.0.1"@,
        start_port: DEFAULT_START_PORT,
        end_port: DEFAULT_END_PORT,
        concurrency: DEFAULT_CONCURRENCY,
        timeout_ms: DEFAULT_TIMEOUT_MS,
        quiet: false,
    }
}

/// The number that `text` writes if it is one of at most `max`, and
/// `fallback` otherwise.
pub open spec fn number_or(text: Seq<char>, max: nat, fallback: nat) -> nat {
    match bounded_decimal(text, max) {
        Some(value) => value,
        None => fallback,
    }
}

/// The options after `flag` was given `value`, if `flag` is a flag that
/// takes a value. A value that is no number of the flag's type gives the
/// flag's default; a concurrency above the cap gives the cap.
pub open spec fn with_value(options: CliOptionsView, flag: Seq<char>, value: Seq<char>) -> Option<
    CliOptionsView,
> {
    if is_flag(flag, "-t"@, "--target"@) {
        Some(CliOptionsView { target: value, ..options })
    } else if is_flag(flag, "-s"@, "--start"@) {
        Some(
            CliOptionsView {
                start_port: number_or(value, u16::MAX as nat, DEFAULT_START_PORT as nat) as u16,
                ..options
            },
        )
    } else if is_flag(flag, "-e"@, "--end"@) {
        Some(
            CliOptionsView {
                end_port: number_or(value, u16::MAX as nat, DEFAULT_END_PORT as nat) as u16,
                ..options
            },
        )
    } else if is_flag(flag, "-c"@, "--concurrency"@) {
        let asked = number_or(value, usize::MAX as nat, DEFAULT_CONCURRENCY as nat);
        Some(
            CliOptionsView {
                concurrency: if asked > MAX_CONCURRENCY {
                    MAX_CONCURRENCY
                } else {
                    asked as usize
                },
                ..options
            },
        )
    } else if is_flag(flag, "-T"@, "--timeout"@) {
        Some(
            CliOptionsView {
                timeout_ms: number_or(value, u64::MAX as nat, DEFAULT_TIMEOUT_MS as nat) as u64,
                ..options
            },
        )
    } else {
        None
    }
}

/// The options after the arguments from index `i` on were read.
pub open spec fn read_from(args: Seq<Seq<char>>, i: int, options: CliOptionsView) -> CliOptionsView
    decreases args.len() - i,
{
    if i < 0 || i >= args.len() {
        options
    } else if i + 1 < args.len() && with_value(options, args[i], args[i + 1]) is Some {
        read_from(args, i + 2, with_value(options, args[i], args[i + 1])->0)
    } else if is_flag(args[i], "-q"@, "--quiet"@) {
        read_from(args, i + 1, CliOptionsView { quiet: true, ..options })
    } else {
        read_from(args, i + 1, options)
    }
}

/// The options that a command line gives. Its first argument is the name
/// of the program and is not read.
pub open spec fn read_options(args: Seq<Seq<char>>) -> CliOptionsView {
    read_from(args, 1, default_options())
}

proof fn lemma_read_keeps_cap(args: Seq<Seq<char>>, i: int, options: CliOptionsView)
    requires
        options.concurrency <= MAX_CONCURRENCY,
    ensures
        read_from(args, i, options).concurrency <= MAX_CONCURRENCY,
    decreases args.len() - i,
{
    if i < 0 || i >= args.len() {
    } else if i + 1 < args.len() && with_value(options, args[i], args[i + 1]) is Some {
        lemma_read_keeps_cap(args, i + 2, with_value(options, args[i], args[i + 1])->0);
    } else if is_flag(args[i], "-q"@, "--quiet"@) {
        lemma_read_keeps_cap(args, i + 1, CliOptionsView { quiet: true, ..options });
    } else {
        lemma_read_keeps_cap(args, i + 1, options);
    }
}

/// Whatever the command line says, the concurrency that is read from it is
/// within the cap.
pub proof fn lemma_concurrency_is_capped(args: Seq<Seq<char>>)
    ensures
        read_options(args).concurrency <= MAX_CONCURRENCY,
{
    lemma_read_keeps_cap(args, 1, default_options());
}

fn matches_flag(arg: &String, short: &str, long: &str) -> (found: bool)
    ensures
        found == is_flag(arg@, short@, long@),
{
    let short_form = short.to_owned();
    let long_form = long.to_owned();
    *arg == short_form || *arg == long_form
}

fn number_from(text: &String, max: u64, fallback: u64) -> (value: u64)
    requires
        fallback <= max,
    ensures
        value == number_or(text@, max as nat, fallback as nat),
        value <= max,
{
    match parse_decimal(text.as_str(), max) {
        Some(value) => value,
        None => fallback,
    }
}

fn apply_value(options: &mut CliOptions, flag: &String, value: &String) -> (taken: bool)
    ensures
        taken == with_value(old(options)@, flag@, value@) is Some,
        taken ==> final(options)@ == with_value(old(options)@, flag@, value@)->0,
        !taken ==> final(options)@ == old(options)@,
{
    if matches_flag(flag, "-t", "--target") {
        options.target = value.clone();
        true
    } else if matches_flag(flag, "-s", "--start") {
        options.start_port = number_from(value, u16::MAX as u64, DEFAULT_START_PORT as u64) as u16;
        true
    } else if matches_flag(flag, "-e", "--end") {
        options.end_port = number_from(value, u16::MAX as u64, DEFAULT_END_PORT as u64) as u16;
        true
    } else if matches_flag(flag, "-c", "--concurrency") {
        let asked = number_from(value, usize::MAX as u64, DEFAULT_CONCURRENCY as u64);
        options.concurrency = if asked > MAX_CONCURRENCY as u64 {
            MAX_CONCURRENCY
        } else {
            asked as usize
        };
        true
    } else if matches_flag(flag, "-T", "--timeout") {
        options.timeout_ms = number_from(value, u64::MAX, DEFAULT_TIMEOUT_MS);
        true
    } else {
        false
    }
}

fn asks_for_help(args: &Vec<String>) -> (help: bool)
    ensures
        help == wants_help(arg_views(args@)),
{
    let mut i: usize = 0;
    while i < args.len()
        invariant
            0 <= i <= args@.len(),
            forall|k: int| 0 <= k < i ==> !is_flag(#[trigger] arg_views(args@)[k], "-h"@, "--help"@),
        decreases args@.len() - i,
    {
        if matches_flag(&args[i], "-h", "--help") {
            assert(arg_views(args@)[i as int] == args@[i as int]@);
            return true;
        }
        i = i + 1;
    }
    false
}

/// Reads the command line. Help wins over everything else; otherwise the
/// options are the defaults, changed by the flags from left to right.
pub fn parse_args(args: &Vec<String>) -> (invocation: Invocation)
    ensures
        match invocation {
            Invocation::Help => wants_help(arg_views(args@)),
            Invocation::Scan(options) => {
                &&& !wants_help(arg_views(args@))
                &&& options@ == read_options(arg_views(args@))
                &&& options.concurrency <= MAX_CONCURRENCY
            },
        },
{
    proof {
        lemma_concurrency_is_capped(arg_views(args@));
    }
    if asks_for_help(args) {
        return Invocation::Help;
    }
    let ghost texts = arg_views(args@);
    let mut options = CliOptions {
        target: "127.0.0.1".to_owned(),
        start_port: DEFAULT_START_PORT,
        end_port: DEFAULT_END_PORT,
        concurrency: DEFAULT_CONCURRENCY,
        timeout_ms: DEFAULT_TIMEOUT_MS,
        quiet: false,
    };
    let mut i: usize = 1;
    while i < args.len()
        invariant
            1 <= i,
            texts == arg_views(args@),
            read_from(texts, i as int, options@) == read_options(texts),
        decreases args@.len() - i,
    {
        if i + 1 < args.len() && apply_value(&mut options, &args[i], &args[i + 1]) {
            i = i + 2;
        } else {
            if matches_flag(&args[i], "-q", "--quiet") {
                options.quiet = true;
            }
            i = i + 1;
        }
    }
    Invocation::Scan(options)
}

impl CliOptions {
    /// Turns the options into a request, given the address that the target
    /// text parsed to, or `None` where it did not parse. A target that did
    /// not parse is refused first; then the values are validated as
    /// `ScanRequest::new` validates them.
    pub fn to_request(&self, target: Option<TargetAddr>) -> (outcome: Result<
        ScanRequest,
        ScanError,
    >)
        ensures
            match outcome {
                Ok(request) => {
                    &&& target is Some
                    &&& request_error(
                        self.start_port,
                        self.end_port,
                        self.concurrency,
                        self.timeout_ms,
                    ) is None
                    &&& request@ == (ScanRequestView {
                        target: target->0,
                        start: self.start_port,
                        end: self.end_port,
                        concurrency: self.concurrency,
                        timeout_ms: self.timeout_ms,
                    })
                    &&& request@.valid()
                },
                Err(error) => if target is None {
                    error == ScanError::InvalidTarget
                } else {
                    request_error(
                        self.start_port,
                        self.end_port,
                        self.concurrency,
                        self.timeout_ms,
                    ) == Some(error)
                },
            },
    {
        match target {
            None => Err(ScanError::InvalidTarget),
            Some(address) => ScanRequest::new(
                address,
                self.start_port,
                self.end_port,
                self.concurrency,
                self.timeout_ms,
            ),
        }
    }
}

} // verus!
