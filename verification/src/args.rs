//! The command line: `[--host HOST] [--port PORT] [--token TOKEN]`, or `--help`.
use vstd::prelude::*;
use crate::numbers::{parse_u16_text, u16_text_value};
use crate::strings::str_eq;

verus! {

/// Where to connect, and the token to authenticate with.
#[derive(Debug)]
pub struct Config {
    pub host: String,
    pub port: u16,
    pub token: String,
}

/// What the command line asks for.
#[derive(Debug)]
pub enum ArgsOutcome {
    /// Connect with these settings.
    Run(Config),
    /// Show the usage text and stop.
    Help,
}

/// The views of the arguments.
pub open spec fn args_view(v: Seq<String>) -> Seq<Seq<char>> {
    v.map_values(|a: String| a@)
}

/// The outcome of reading the arguments from `i` on, with the settings read
/// so far: the settings, `None` for help, or the message of the first error.
pub open spec fn args_from(
    args: Seq<Seq<char>>,
    i: int,
    host: Seq<char>,
    port: u16,
    token: Seq<char>,
) -> Result<Option<(Seq<char>, u16, Seq<char>)>, Seq<char>>
    decreases args.len() - i,
{
    if i < 0 || i >= args.len() {
        Ok(Some((host, port, token)))
    } else {
        let a = args[i];
        if a == "--host"@ {
            if i + 1 >= args.len() {
                Err("Missing value for --host"@)
            } else {
                args_from(args, i + 2, args[i + 1], port, token)
            }
        } else if a == "--port"@ {
            if i + 1 >= args.len() {
                Err("Missing value for --port"@)
            } else {
                match u16_text_value(args[i + 1]) {
                    None => Err("Invalid --port"@),
                    Some(p) => args_from(args, i + 2, host, p, token),
                }
            }
        } else if a == "--token"@ {
            if i + 1 >= args.len() {
                Err("Missing value for --token"@)
            } else {
                args_from(args, i + 2, host, port, args[i + 1])
            }
        } else if a == "--help"@ || a == "-h"@ {
            Ok(None)
        } else {
            Err("Unknown argument: "@ + a)
        }
    }
}

/// The outcome of the whole command line, starting from host `127.0.0.1`,
/// port 5877 and no token.
pub open spec fn args_outcome(args: Seq<Seq<char>>) -> Result<Option<(Seq<char>, u16, Seq<char>)>, Seq<char>> {
    args_from(args, 0, "127.0.0.1"@, 5877, Seq::empty())
}

/// Reads the command-line arguments (without the program name).
pub fn parse_args(args: &Vec<String>) -> (r: Result<ArgsOutcome, String>)
    ensures
        match args_outcome(args_view(args@)) {
            Ok(Some((h, p, t))) => r matches Ok(ArgsOutcome::Run(c)) && c.host@ == h && c.port == p
                && c.token@ == t,
            Ok(None) => r matches Ok(ArgsOutcome::Help),
            Err(m) => r matches Err(e) && e@ == m,
        },
{
    let ghost av = args_view(args@);
    let mut host = String::from_str("127.0.0.1");
    let mut port: u16 = 5877;
    let mut token = String::new();
    let n = args.len();
    let mut i: usize = 0;
    while i < n
        invariant
            n == args@.len(),
            av == args_view(args@),
            i <= n,
            args_outcome(av) == args_from(av, i as int, host@, port, token@),
        decreases n - i,
    {
        let arg = args[i].as_str();
        assert(av[i as int] == arg@);
        if str_eq(arg, "--host") {
            if i + 1 >= n {
                return Err(String::from_str("Missing value for --host"));
            }
            assert(av[i + 1] == args@[i + 1]@);
            host = args[i + 1].clone();
            i = i + 2;
        } else if str_eq(arg, "--port") {
            if i + 1 >= n {
                return Err(String::from_str("Missing value for --port"));
            }
            assert(av[i + 1] == args@[i + 1]@);
            match parse_u16_text(args[i + 1].as_str()) {
                None => {
                    return Err(String::from_str("Invalid --port"));
                },
                Some(p) => {
                    port = p;
                },
            }
            i = i + 2;
        } else if str_eq(arg, "--token") {
            if i + 1 >= n {
                return Err(String::from_str("Missing value for --token"));
            }
            assert(av[i + 1] == args@[i + 1]@);
            token = args[i + 1].clone();
            i = i + 2;
        } else if str_eq(arg, "--help") || str_eq(arg, "-h") {
            return Ok(ArgsOutcome::Help);
        } else {
            let mut msg = String::from_str("Unknown argument: ");
            msg.append(arg);
            return Err(msg);
        }
    }
    Ok(ArgsOutcome::Run(Config { host, port, token }))
}

/// The usage text.
pub fn usage() -> (r: String)
    ensures
        r@ == "Usage: bluetodo-tui [--host HOST] [--port PORT] [--token TOKEN]"@,
{
    String::from_str("Usage: bluetodo-tui [--host HOST] [--port PORT] [--token TOKEN]")
}

} // verus!
