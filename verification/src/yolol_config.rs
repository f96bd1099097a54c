//! Argument flags of the interpreter command.
//!
//! The interpreter command accepts a run of leading option flags choosing
//! the input representation and the desired output, followed by the code
//! itself.  Parsing consumes flags until the first argument that is not a
//! flag; running out of arguments before that point is an error, since
//! then there is no input left to interpret.

use vstd::prelude::*;

verus! {

/// How the supplied input is to be read.
#[derive(Clone, Copy, Debug, PartialEq, Eq, Structural)]
pub enum InputFlag {
    /// The input is source code.
    Yolol,
    /// The input is a serialized syntax tree.
    CylonAst,
}

/// What the command is to produce.
#[derive(Clone, Copy, Debug, PartialEq, Eq, Structural)]
pub enum OutputFlag {
    /// Execute the program and show the resulting environment.
    Execution,
    /// Reconstruct and show the source code.
    Yolol,
    /// Show the serialized syntax tree.
    CylonAst,
    /// Show the parsed program.
    Ast,
    /// Show the token stream.
    Tokens,
}

/// The parsed flag configuration of one interpreter command invocation.
#[derive(Clone, Copy, Debug, PartialEq, Eq, Structural)]
pub struct YololConfig {
    /// How to read the input.
    pub input: InputFlag,
    /// What to produce.
    pub output: OutputFlag,
}

/// True if `s` is one of the recognised option flags.
pub open spec fn is_flag(s: Seq<char>) -> bool {
    ||| s == "--input=cylon_ast"@
    ||| s == "-ic"@
    ||| s == "--output=yolol"@
    ||| s == "--output=code"@
    ||| s == "-oy"@
    ||| s == "--output=cylon_ast"@
    ||| s == "-oc"@
    ||| s == "--output=ast"@
    ||| s == "--output=parsed"@
    ||| s == "-oa"@
    ||| s == "--output=tokens"@
    ||| s == "-ot"@
}

/// The configuration after the flag `s` is applied to `c`; a non-flag
/// leaves `c` unchanged.
pub open spec fn apply_flag(c: YololConfig, s: Seq<char>) -> YololConfig {
    if s == "--input=cylon_ast"@ || s == "-ic"@ {
        YololConfig { input: InputFlag::CylonAst, ..c }
    } else if s == "--output=yolol"@ || s == "--output=code"@ || s == "-oy"@ {
        YololConfig { output: OutputFlag::Yolol, ..c }
    } else if s == "--output=cylon_ast"@ || s == "-oc"@ {
        YololConfig { output: OutputFlag::CylonAst, ..c }
    } else if s == "--output=ast"@ || s == "--output=parsed"@ || s == "-oa"@ {
        YololConfig { output: OutputFlag::Ast, ..c }
    } else if s == "--output=tokens"@ || s == "-ot"@ {
        YololConfig { output: OutputFlag::Tokens, ..c }
    } else {
        c
    }
}

/// The result of folding flags over `args` from position `i` on, starting
/// from configuration `c`: the final configuration and the position of the
/// first non-flag argument, or nothing if the arguments run out first.
pub open spec fn parse_from(c: YololConfig, args: Seq<Seq<char>>, i: int) -> Option<
    (YololConfig, int),
>
    decreases args.len() - i,
{
    if !(0 <= i < args.len()) {
        None
    } else if !is_flag(args[i]) {
        Some((c, i))
    } else {
        parse_from(apply_flag(c, args[i]), args, i + 1)
    }
}

/// True if `a` equals the literal `lit`.
fn arg_is(a: &String, lit: &str) -> (r: bool)
    ensures
        r == (a@ == lit@),
{
    let s = lit.to_owned();
    a.eq(&s)
}

impl YololConfig {
    /// The default configuration: source-code input, execution output.
    pub fn new() -> (r: Self)
        ensures
            r == (YololConfig { input: InputFlag::Yolol, output: OutputFlag::Execution }),
    {
        YololConfig { input: InputFlag::Yolol, output: OutputFlag::Execution }
    }

    /// Parses the leading option flags of `args`, beginning at `start`.
    /// Returns the configuration together with the position of the first
    /// non-flag argument — the input — or an error if every remaining
    /// argument was a flag, so no input was supplied.
    pub fn parse_args(args: &Vec<String>, start: usize) -> (r: Result<(YololConfig, usize), String>)
        ensures
            match r {
                Ok((c, next)) => {
                    &&& parse_from(
                        YololConfig { input: InputFlag::Yolol, output: OutputFlag::Execution },
                        args.deep_view(),
                        start as int,
                    ) == Some((c, next as int))
                    &&& start <= next < args.len()
                },
                Err(_) => parse_from(
                    YololConfig { input: InputFlag::Yolol, output: OutputFlag::Execution },
                    args.deep_view(),
                    start as int,
                ) is None,
            },
    {
        let ghost av = args.deep_view();
        let ghost c0 = YololConfig { input: InputFlag::Yolol, output: OutputFlag::Execution };
        let mut c = YololConfig::new();
        let mut i: usize = start;
        while i < args.len()
            invariant
                start <= i,
                av == args.deep_view(),
                c0 == (YololConfig { input: InputFlag::Yolol, output: OutputFlag::Execution }),
                parse_from(c0, av, start as int) == parse_from(c, av, i as int),
            decreases args.len() - i,
        {
            let a = &args[i];
            proof {
                assert(av[i as int] == a@);
            }
            if arg_is(a, "--input=cylon_ast") || arg_is(a, "-ic") {
                c = YololConfig { input: InputFlag::CylonAst, ..c };
            } else if arg_is(a, "--output=yolol") || arg_is(a, "--output=code") || arg_is(
                a,
                "-oy",
            ) {
                c = YololConfig { output: OutputFlag::Yolol, ..c };
            } else if arg_is(a, "--output=cylon_ast") || arg_is(a, "-oc") {
                c = YololConfig { output: OutputFlag::CylonAst, ..c };
            } else if arg_is(a, "--output=ast") || arg_is(a, "--output=parsed") || arg_is(
                a,
                "-oa",
            ) {
                c = YololConfig { output: OutputFlag::Ast, ..c };
            } else if arg_is(a, "--output=tokens") || arg_is(a, "-ot") {
                c = YololConfig { output: OutputFlag::Tokens, ..c };
            } else {
                proof {
                    assert(av.len() == args.len() as int);
                    assert(!is_flag(av[i as int]));
                    assert(parse_from(c, av, i as int) == Some((c, i as int)));
                }
                return Ok((c, i));
            }
            i += 1;
        }
        Err("Unable to get an argument! Might not have supplied any args...".to_owned())
    }
}

impl Default for YololConfig {
    /// The same configuration that [`YololConfig::new`] yields.
    fn default() -> (r: Self)
        ensures
            r == (YololConfig { input: InputFlag::Yolol, output: OutputFlag::Execution }),
    {
        YololConfig::new()
    }
}

} // verus!
