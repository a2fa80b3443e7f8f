//! The command line.
use crate::interface::bytes_equal;
use vstd::prelude::*;
use vstd::utf8::encode_utf8;

verus! {

/// Options given at process start.
#[derive(Debug, Default)]
pub struct GlobalArgs {
    /// Where the log goes.
    pub log_file: Option<String>,
    /// The script configuration to load.
    pub config: Option<String>,
    /// The path of the protocol socket.
    pub socket_path: Option<String>,
}

/// What the command line asks for.
#[derive(Debug)]
pub enum ParseOutcome {
    /// Run with these options.
    Run(GlobalArgs),
    /// Print the usage and exit.
    Help,
    /// The first argument, the program name, is missing.
    NoProgramName,
    /// An argument that is no option; print it and the usage, and exit.
    Unknown(String),
}

/// The options of a command line, as character strings.
pub struct ArgsModel {
    pub log_file: Option<Seq<char>>,
    pub config: Option<Seq<char>>,
    pub socket_path: Option<Seq<char>>,
}

/// What a command line asks for, as character strings.
pub enum Parsed {
    Run(ArgsModel),
    Help,
    NoProgramName,
    Unknown(Seq<char>),
}

/// Two spellings of one option.
pub open spec fn is_flag(a: Seq<char>, long: Seq<char>, short: Seq<char>) -> bool {
    encode_utf8(a) == encode_utf8(long) || encode_utf8(a) == encode_utf8(short)
}

/// The options from argument `i` on, given those before. An option whose
/// value is missing is ignored.
pub open spec fn parse_from(args: Seq<Seq<char>>, i: int, acc: ArgsModel) -> Parsed
    decreases args.len() - i,
{
    if i >= args.len() || i < 0 {
        Parsed::Run(acc)
    } else {
        let a = args[i];
        let has_value = i + 1 < args.len();
        let next = if has_value { i + 2 } else { i + 1 };
        if is_flag(a, "--log-file"@, "-l"@) {
            parse_from(args, next, if has_value { ArgsModel { log_file: Some(args[i + 1]), ..acc } } else { acc })
        } else if is_flag(a, "-h"@, "--help"@) {
            Parsed::Help
        } else if is_flag(a, "--config"@, "-c"@) {
            parse_from(args, next, if has_value { ArgsModel { config: Some(args[i + 1]), ..acc } } else { acc })
        } else if is_flag(a, "--socket-path"@, "-s"@) {
            parse_from(args, next, if has_value { ArgsModel { socket_path: Some(args[i + 1]), ..acc } } else { acc })
        } else {
            Parsed::Unknown(a)
        }
    }
}

/// What a whole command line asks for; its first argument is the program name.
pub open spec fn parse_spec(args: Seq<Seq<char>>) -> Parsed {
    if args.len() == 0 {
        Parsed::NoProgramName
    } else {
        parse_from(args, 1, ArgsModel { log_file: None, config: None, socket_path: None })
    }
}

pub open spec fn opt_view(o: Option<String>) -> Option<Seq<char>> {
    match o {
        Some(s) => Some(s@),
        None => None,
    }
}

impl GlobalArgs {
    pub open spec fn model(&self) -> ArgsModel {
        ArgsModel {
            log_file: opt_view(self.log_file),
            config: opt_view(self.config),
            socket_path: opt_view(self.socket_path),
        }
    }
}

/// The meaning of a parse outcome, as character strings.
pub open spec fn outcome_view(o: ParseOutcome) -> Parsed {
    match o {
        ParseOutcome::Run(g) => Parsed::Run(g.model()),
        ParseOutcome::Help => Parsed::Help,
        ParseOutcome::NoProgramName => Parsed::NoProgramName,
        ParseOutcome::Unknown(s) => Parsed::Unknown(s@),
    }
}

fn same_str(a: &String, b: &str) -> (r: bool)
    ensures
        r == (encode_utf8(a@) == encode_utf8(b@)),
{
    bytes_equal(a.as_str().as_bytes(), b.as_bytes())
}

fn clone_opt(s: &String) -> (r: Option<String>)
    ensures
        r is Some && r->Some_0@ == s@,
{
    Some(s.clone())
}

impl GlobalArgs {
    /// Reads the command line.
    pub fn parse(args: &Vec<String>) -> (r: ParseOutcome)
        ensures
            outcome_view(r) == parse_spec(Seq::new(args@.len(), |k: int| args@[k]@)),
    {
        let ghost sargs = Seq::new(args@.len(), |k: int| args@[k]@);
        if args.len() == 0 {
            return ParseOutcome::NoProgramName;
        }
        let mut g = GlobalArgs { log_file: None, config: None, socket_path: None };
        let mut i: usize = 1;
        while i < args.len()
            invariant
                1 <= i,
                sargs == Seq::new(args@.len(), |k: int| args@[k]@),
                parse_spec(sargs) == parse_from(sargs, i as int, g.model()),
            decreases args@.len() - i,
        {
            let a = &args[i];
            let has_value = i + 1 < args.len();
            let next = if has_value { i + 2 } else { i + 1 };
            assert(sargs[i as int] == a@);
            if same_str(a, "--log-file") || same_str(a, "-l") {
                if has_value {
                    g.log_file = clone_opt(&args[i + 1]);
                }
            } else if same_str(a, "-h") || same_str(a, "--help") {
                return ParseOutcome::Help;
            } else if same_str(a, "--config") || same_str(a, "-c") {
                if has_value {
                    g.config = clone_opt(&args[i + 1]);
                }
            } else if same_str(a, "--socket-path") || same_str(a, "-s") {
                if has_value {
                    g.socket_path = clone_opt(&args[i + 1]);
                }
            } else {
                return ParseOutcome::Unknown(a.clone());
            }
            proof {
                if next as int >= args@.len() {
                    assert(parse_from(sargs, next as int, g.model()) == Parsed::Run(g.model()));
                }
            }
            if next >= args.len() {
                return ParseOutcome::Run(g);
            }
            i = next;
        }
        ParseOutcome::Run(g)
    }
}

} // verus!
