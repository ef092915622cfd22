//! The rules of the launcher: where the local server listens, how long it is
//! waited for, and which arguments the command line interface is started with.

use crate::text::{decimal, decimal_text, same_text, starts_with};
use vstd::prelude::*;
use vstd::string::*;

verus! {

/// The model that is used where the user names none.
pub const DEFAULT_OSS_MODEL: &'static str = "gpt-oss:20b";

/// The name under which the command line is parsed.
pub const PROGRAM_NAME: &'static str = "codex-oss";

/// How often the server is asked whether it is ready.
pub const HEALTH_ATTEMPTS: u32 = 30;

/// How many seconds lie between two such questions.
pub const HEALTH_RETRY_SECONDS: u64 = 1;

/// What is said when the server did not become ready.
pub const HEALTH_FAILURE: &'static str = "Ollama server failed to start after 30 seconds";

/// The texts of the strings, in order.
pub open spec fn texts_of(items: Seq<String>) -> Seq<Seq<char>> {
    Seq::new(items.len(), |i: int| items[i]@)
}

/// The address on which the server listens: the loopback address and the port.
pub open spec fn host_of(port: u16) -> Seq<char> {
    "127.0.0.1:"@ + decimal(port as nat)
}

/// The URL at which the server is asked whether it is ready.
pub open spec fn health_url_of(port: u16) -> Seq<char> {
    "http://"@ + host_of(port)
}

/// The base URL of the server's API.
pub open spec fn base_url_of(port: u16) -> Seq<char> {
    health_url_of(port) + "/v1"@
}

/// What follows one question to the server.
#[derive(Clone, Copy, Debug, PartialEq, Eq, Structural)]
pub enum HealthStep {
    /// The server answered: go on.
    Ready,
    /// Wait, then ask again.
    Retry,
    /// The last attempt failed: give up.
    GiveUp,
}

/// Whether an HTTP status code stands for success: 200 to 299.
pub open spec fn is_success(status: u16) -> bool {
    200 <= status <= 299
}

/// Whether the server is ready, where `status` is the status code of its
/// answer, or `None` where it gave none.
pub open spec fn is_healthy(status: Option<u16>) -> bool {
    status matches Some(code) && is_success(code)
}

/// What follows the attempt with this number, counted from one.
pub open spec fn health_step_of(attempt: u32, status: Option<u16>) -> HealthStep {
    if is_healthy(status) {
        HealthStep::Ready
    } else if attempt >= HEALTH_ATTEMPTS {
        HealthStep::GiveUp
    } else {
        HealthStep::Retry
    }
}

/// Whether the argument names a model: `-m`, `--model`, or `--model=` and a value.
pub open spec fn is_model_flag(arg: Seq<char>) -> bool {
    arg == "-m"@ || arg == "--model"@ || "--model="@.is_prefix_of(arg)
}

/// Whether one of the arguments names a model.
pub open spec fn names_model(args: Seq<Seq<char>>) -> bool {
    exists|i: int| 0 <= i < args.len() && is_model_flag(#[trigger] args[i])
}

/// The arguments of the command line interface: the switch to the local
/// provider, the default model unless the user names one, then the user's own.
pub open spec fn oss_arguments_of(args: Seq<Seq<char>>) -> Seq<Seq<char>> {
    if names_model(args) {
        seq!["--oss"@] + args
    } else {
        seq!["--oss"@, "--model"@, DEFAULT_OSS_MODEL@] + args
    }
}

/// The command line that is parsed: the program's name, then the arguments.
pub open spec fn command_line_of(args: Seq<Seq<char>>) -> Seq<Seq<char>> {
    seq![PROGRAM_NAME@] + args
}

/// The address on which the server listens.
pub fn ollama_host(port: u16) -> (r: String)
    ensures
        r@ == host_of(port),
{
    let digits = decimal_text(port);
    String::from_str("127.0.0.1:").concat(digits.as_str())
}

/// The URL at which the server is asked whether it is ready.
pub fn health_url(port: u16) -> (r: String)
    ensures
        r@ == health_url_of(port),
{
    let host = ollama_host(port);
    String::from_str("http://").concat(host.as_str())
}

/// The base URL of the server's API.
pub fn oss_base_url(port: u16) -> (r: String)
    ensures
        r@ == base_url_of(port),
{
    health_url(port).concat("/v1")
}

/// Decides what follows one question to the server: go on where it answered
/// with success, give up after the last attempt, wait and ask again otherwise.
pub fn health_step(attempt: u32, status: Option<u16>) -> (r: HealthStep)
    ensures
        r == health_step_of(attempt, status),
{
    let healthy = match status {
        Some(code) => 200 <= code && code <= 299,
        None => false,
    };
    if healthy {
        HealthStep::Ready
    } else if attempt >= HEALTH_ATTEMPTS {
        HealthStep::GiveUp
    } else {
        HealthStep::Retry
    }
}

/// Whether one of the arguments names a model.
pub fn user_specified_model(args: &Vec<String>) -> (r: bool)
    ensures
        r == names_model(texts_of(args@)),
{
    let mut i: usize = 0;
    while i < args.len()
        invariant
            i <= args.len(),
            forall|k: int| 0 <= k < i ==> !is_model_flag(#[trigger] texts_of(args@)[k]),
        decreases args.len() - i,
    {
        let arg = args[i].as_str();
        if same_text(arg, "-m") || same_text(arg, "--model") || starts_with(arg, "--model=") {
            assert(is_model_flag(texts_of(args@)[i as int]));
            return true;
        }
        i += 1;
    }
    false
}

/// The arguments that the command line interface is started with.
pub fn oss_arguments(args: Vec<String>) -> (r: Vec<String>)
    ensures
        texts_of(r@) == oss_arguments_of(texts_of(args@)),
{
    let mut args = args;
    let mut r: Vec<String> = Vec::new();
    r.push(String::from_str("--oss"));
    if !user_specified_model(&args) {
        r.push(String::from_str("--model"));
        r.push(String::from_str(DEFAULT_OSS_MODEL));
    }
    let ghost given = args@;
    r.append(&mut args);
    assert(texts_of(r@) =~= oss_arguments_of(texts_of(given)));
    r
}

/// The command line that is parsed: the program's name, then the arguments.
pub fn full_command_line(args: Vec<String>) -> (r: Vec<String>)
    ensures
        texts_of(r@) == command_line_of(texts_of(args@)),
{
    let mut args = args;
    let mut r: Vec<String> = Vec::new();
    r.push(String::from_str(PROGRAM_NAME));
    let ghost given = args@;
    r.append(&mut args);
    assert(texts_of(r@) =~= command_line_of(texts_of(given)));
    r
}

} // verus!
