//! `nix-shell` argument parsing.
//!
//! Most arguments are passed on to `nix-shell` as they are, without a look at
//! what they mean.  A few of them are taken out and acted upon here, and to
//! find those the whole command line has to be parsed, quirks included.

use crate::expand::{
    get_next_arg, lemma_next_arg_decreases, lemma_weight_skip, next_arg, queue_weight, tokens,
};
use crate::token::{literal, token_from, token_is, DASH};
use std::collections::VecDeque;
use ufcs::Pipe;
use vstd::prelude::*;

verus! {

/// How the shell is to be run.
#[derive(Debug, Clone, PartialEq, Eq)]
pub enum RunMode {
    /// No `--run`, `--command` or `--exec` was given.
    InteractiveShell,
    /// `--run CMD` or `--command CMD`.
    Shell(Vec<u8>),
    /// `--exec CMD ARGS...`.
    Exec(Vec<u8>, Vec<Vec<u8>>),
}

/// A parsed command line.
#[derive(Debug, Clone, PartialEq, Eq)]
pub struct Args {
    /// `-p` or `--packages` was given.
    pub packages: bool,
    /// The last of `--pure` and `--impure` was `--pure`.
    pub pure: bool,
    /// The value of `-i`; `bash` without one.
    pub interpreter: Vec<u8>,
    /// What `--run`, `--command` or `--exec` asked for.
    pub run: RunMode,
    /// The positional arguments, in the order in which they were given.
    pub rest: Vec<Vec<u8>>,
    /// The options that are passed on, each followed by its values.
    pub other_kw: Vec<Vec<u8>>,
}

/// Why a command line was rejected.
#[derive(Debug, Clone, PartialEq, Eq)]
pub enum ParseError {
    /// The token starts with a dash and is no option that is known here.
    UnexpectedArg(Vec<u8>),
    /// The option needs more values than there are tokens left.
    MissingValue(Vec<u8>),
}

/// A `RunMode` with its tokens as byte sequences.
pub enum RunModeView {
    InteractiveShell,
    Shell(Seq<u8>),
    Exec(Seq<u8>, Seq<Seq<u8>>),
}

/// An `Args` with its tokens as byte sequences.
pub struct ArgsView {
    pub packages: bool,
    pub pure: bool,
    pub interpreter: Seq<u8>,
    pub run: RunModeView,
    pub rest: Seq<Seq<u8>>,
    pub other_kw: Seq<Seq<u8>>,
}

/// A `ParseError` with its token as a byte sequence.
pub enum ParseErrorView {
    UnexpectedArg(Seq<u8>),
    MissingValue(Seq<u8>),
}

impl View for RunMode {
    type V = RunModeView;

    open spec fn view(&self) -> RunModeView {
        match *self {
            RunMode::InteractiveShell => RunModeView::InteractiveShell,
            RunMode::Shell(command) => RunModeView::Shell(command@),
            RunMode::Exec(program, arguments) => RunModeView::Exec(program@, tokens(arguments@)),
        }
    }
}

impl View for Args {
    type V = ArgsView;

    open spec fn view(&self) -> ArgsView {
        ArgsView {
            packages: self.packages,
            pure: self.pure,
            interpreter: self.interpreter@,
            run: self.run@,
            rest: tokens(self.rest@),
            other_kw: tokens(self.other_kw@),
        }
    }
}

impl View for ParseError {
    type V = ParseErrorView;

    open spec fn view(&self) -> ParseErrorView {
        match *self {
            ParseError::UnexpectedArg(token) => ParseErrorView::UnexpectedArg(token@),
            ParseError::MissingValue(flag) => ParseErrorView::MissingValue(flag@),
        }
    }
}

/// What a token means to the parser.
#[derive(Debug, Clone, Copy, PartialEq, Eq)]
pub enum TokenKind {
    /// `--attr` or `-A`: passed on as `-A` with one value.
    Attr,
    /// `-I`: passed on with one value.
    Include,
    /// `--arg`: passed on with two values.
    Arg,
    /// `--argstr`: passed on with two values.
    ArgStr,
    /// `--option`: passed on with two values.
    Setting,
    /// `-j` or `--max-jobs`: passed on as `--max-jobs` with one value.
    MaxJobs,
    /// `--pure`.
    Pure,
    /// `--impure`.
    Impure,
    /// `--packages` or `-p`.
    Packages,
    /// `-i` in a shebang line: one value, the interpreter.
    Interpreter,
    /// `--run` or `--command` outside a shebang line: one value, the command.
    Shell,
    /// `--exec` outside a shebang line: the program and all that follows.
    Exec,
    /// Any other token that starts with a dash.
    Unexpected,
    /// A token that does not start with a dash.
    Positional,
}

/// The kind of a token.  The options are told apart by their exact spelling;
/// `-i` is an option only in a shebang line, and `--run`, `--command` and
/// `--exec` only outside of one.
pub open spec fn kind_of(t: Seq<u8>, in_shebang: bool) -> TokenKind {
    if t == literal("--attr") || t == literal("-A") {
        TokenKind::Attr
    } else if t == literal("-I") {
        TokenKind::Include
    } else if t == literal("--arg") {
        TokenKind::Arg
    } else if t == literal("--argstr") {
        TokenKind::ArgStr
    } else if t == literal("--option") {
        TokenKind::Setting
    } else if t == literal("-j") || t == literal("--max-jobs") {
        TokenKind::MaxJobs
    } else if t == literal("--pure") {
        TokenKind::Pure
    } else if t == literal("--impure") {
        TokenKind::Impure
    } else if t == literal("--packages") || t == literal("-p") {
        TokenKind::Packages
    } else if t == literal("-i") && in_shebang {
        TokenKind::Interpreter
    } else if (t == literal("--run") || t == literal("--command")) && !in_shebang {
        TokenKind::Shell
    } else if t == literal("--exec") && !in_shebang {
        TokenKind::Exec
    } else if t.len() > 0 && t[0] == DASH {
        TokenKind::Unexpected
    } else {
        TokenKind::Positional
    }
}

/// The number of tokens that an option takes from the queue as its values.
pub open spec fn value_count(kind: TokenKind) -> nat {
    match kind {
        TokenKind::Attr => 1,
        TokenKind::Include => 1,
        TokenKind::Arg => 2,
        TokenKind::ArgStr => 2,
        TokenKind::Setting => 2,
        TokenKind::MaxJobs => 1,
        TokenKind::Interpreter => 1,
        TokenKind::Shell => 1,
        TokenKind::Exec => 1,
        _ => 0,
    }
}

/// The spelling under which an option is passed on; empty for the kinds
/// that are not passed on.
pub open spec fn forwarded_name(kind: TokenKind) -> Seq<u8> {
    match kind {
        TokenKind::Attr => literal("-A"),
        TokenKind::Include => literal("-I"),
        TokenKind::Arg => literal("--arg"),
        TokenKind::ArgStr => literal("--argstr"),
        TokenKind::Setting => literal("--option"),
        TokenKind::MaxJobs => literal("--max-jobs"),
        _ => Seq::empty(),
    }
}

/// Finds the kind of a token.
pub fn classify(arg: &Vec<u8>, in_shebang: bool) -> (kind: TokenKind)
    ensures
        kind == kind_of(arg@, in_shebang),
{
    if token_is(arg, "--attr") || token_is(arg, "-A") {
        TokenKind::Attr
    } else if token_is(arg, "-I") {
        TokenKind::Include
    } else if token_is(arg, "--arg") {
        TokenKind::Arg
    } else if token_is(arg, "--argstr") {
        TokenKind::ArgStr
    } else if token_is(arg, "--option") {
        TokenKind::Setting
    } else if token_is(arg, "-j") || token_is(arg, "--max-jobs") {
        TokenKind::MaxJobs
    } else if token_is(arg, "--pure") {
        TokenKind::Pure
    } else if token_is(arg, "--impure") {
        TokenKind::Impure
    } else if token_is(arg, "--packages") || token_is(arg, "-p") {
        TokenKind::Packages
    } else if token_is(arg, "-i") && in_shebang {
        TokenKind::Interpreter
    } else if (token_is(arg, "--run") || token_is(arg, "--command")) && !in_shebang {
        TokenKind::Shell
    } else if token_is(arg, "--exec") && !in_shebang {
        TokenKind::Exec
    } else if arg.len() > 0 && arg[0] == DASH {
        TokenKind::Unexpected
    } else {
        TokenKind::Positional
    }
}

/// The result of parsing no tokens at all.
pub open spec fn initial_args() -> ArgsView {
    ArgsView {
        packages: false,
        pure: false,
        interpreter: literal("bash"),
        run: RunModeView::InteractiveShell,
        rest: Seq::empty(),
        other_kw: Seq::empty(),
    }
}

/// The effect of one option or positional argument on what was parsed so
/// far.  `arg` is the token, `kind` its kind, `values` the tokens that it
/// took as its values, and `after` the queue behind them.
pub open spec fn with_arg(
    acc: ArgsView,
    kind: TokenKind,
    arg: Seq<u8>,
    values: Seq<Seq<u8>>,
    after: Seq<Seq<u8>>,
) -> ArgsView {
    match kind {
        TokenKind::Pure => ArgsView { pure: true, ..acc },
        TokenKind::Impure => ArgsView { pure: false, ..acc },
        TokenKind::Packages => ArgsView { packages: true, ..acc },
        TokenKind::Interpreter => ArgsView { interpreter: values[0], ..acc },
        TokenKind::Shell => ArgsView { run: RunModeView::Shell(values[0]), ..acc },
        TokenKind::Exec => ArgsView { run: RunModeView::Exec(values[0], after), ..acc },
        TokenKind::Positional => ArgsView { rest: acc.rest.push(arg), ..acc },
        TokenKind::Unexpected => acc,
        TokenKind::Attr
        | TokenKind::Include
        | TokenKind::Arg
        | TokenKind::ArgStr
        | TokenKind::Setting
        | TokenKind::MaxJobs => ArgsView {
            other_kw: acc.other_kw.push(forwarded_name(kind)) + values,
            ..acc
        },
    }
}

/// Parsing of the tokens in `queue`, on top of what was parsed so far.
///
/// Tokens come out of the queue through the expander.  An option takes its
/// values from the queue as they stand there, without expanding them.  An
/// option with too few tokens behind it, and a token that starts with a dash
/// and is no known option, end the parsing with an error; `--exec` ends it
/// with all that is left in the queue as the arguments of the program.
pub open spec fn parse_from(queue: Seq<Seq<u8>>, acc: ArgsView, in_shebang: bool) -> Result<
    ArgsView,
    ParseErrorView,
>
    decreases queue_weight(queue),
    via parse_from_decreases
{
    match next_arg(queue) {
        None => Ok(acc),
        Some((arg, rest)) => {
            let kind = kind_of(arg, in_shebang);
            let count = value_count(kind) as int;
            if kind == TokenKind::Unexpected {
                Err(ParseErrorView::UnexpectedArg(arg))
            } else if rest.len() < count {
                Err(ParseErrorView::MissingValue(arg))
            } else {
                let values = rest.take(count);
                let after = rest.skip(count);
                let acc = with_arg(acc, kind, arg, values, after);
                if kind == TokenKind::Exec {
                    Ok(acc)
                } else {
                    parse_from(after, acc, in_shebang)
                }
            }
        },
    }
}

#[via_fn]
proof fn parse_from_decreases(queue: Seq<Seq<u8>>, acc: ArgsView, in_shebang: bool) {
    if queue.len() > 0 {
        lemma_next_arg_decreases(queue);
        let (arg, rest) = next_arg(queue).unwrap();
        let count = value_count(kind_of(arg, in_shebang)) as int;
        if rest.len() >= count {
            lemma_weight_skip(rest, count);
        }
    }
}

/// What parsing the command line `args` gives.
pub open spec fn parse_spec(args: Seq<Seq<u8>>, in_shebang: bool) -> Result<
    ArgsView,
    ParseErrorView,
> {
    parse_from(args, initial_args(), in_shebang)
}

/// `ufcs::Pipe::pipe` with `Ok` as the function.  `pipe` applies the
/// function to the receiver and returns what it gives, so the value comes
/// back wrapped in `Ok`.
#[verifier::external_body]
fn pipe_ok(value: Vec<u8>) -> (wrapped: Result<Vec<u8>, ParseError>)
    ensures
        wrapped is Ok,
        wrapped->Ok_0 == value,
{
    value.pipe(Ok)
}

/// Takes the value of the option `flag` from the front of the queue, as it
/// stands there.  Fails if the queue is empty.
pub fn next_value(it: &mut VecDeque<Vec<u8>>, flag: &Vec<u8>) -> (r: Result<Vec<u8>, ParseError>)
    ensures
        match r {
            Ok(value) => {
                &&& old(it)@.len() > 0
                &&& value == old(it)@[0]
                &&& final(it)@ == old(it)@.skip(1)
                &&& tokens(final(it)@) == tokens(old(it)@).skip(1)
            },
            Err(e) => {
                &&& old(it)@.len() == 0
                &&& final(it)@ == old(it)@
                &&& e@ == ParseErrorView::MissingValue(flag@)
            },
        },
{
    match it.pop_front() {
        Some(value) => {
            assert(it@ == old(it)@.skip(1));
            assert(tokens(it@) == tokens(old(it)@).skip(1));
            pipe_ok(value)
        },
        None => Err(ParseError::MissingValue(flag.clone())),
    }
}

/// Moves the tokens of a command line into a queue, in their order.
fn queue_of(args: Vec<Vec<u8>>) -> (it: VecDeque<Vec<u8>>)
    ensures
        it@ == args@,
{
    let mut args = args;
    let mut it: VecDeque<Vec<u8>> = VecDeque::new();
    let ghost all = args@;
    while args.len() > 0
        invariant
            args@ + it@ == all,
        decreases args.len(),
    {
        let ghost before = args@;
        let ghost queued = it@;
        match args.pop() {
            Some(token) => {
                it.push_front(token);
                assert(args@ + it@ == before + queued);
            },
            None => {},
        }
    }
    assert(args@ + it@ == it@);
    it
}

/// Moves what is left in the queue into a vector, in its order.
fn drain(it: &mut VecDeque<Vec<u8>>) -> (left: Vec<Vec<u8>>)
    ensures
        left@ == old(it)@,
        final(it)@.len() == 0,
{
    let mut left: Vec<Vec<u8>> = Vec::new();
    while it.len() > 0
        invariant
            left@ + it@ == old(it)@,
        decreases it.len(),
    {
        let ghost taken = left@;
        let ghost queued = it@;
        match it.pop_front() {
            Some(token) => {
                left.push(token);
                assert(left@ + it@ == taken + queued);
            },
            None => {},
        }
    }
    assert(left@ + it@ == left@);
    left
}

/// Takes the value of a passed-on option from the queue and appends the
/// option, under the spelling `name`, and the value to `other_kw`.
fn forward_one(
    other_kw: &mut Vec<Vec<u8>>,
    it: &mut VecDeque<Vec<u8>>,
    flag: &Vec<u8>,
    name: &str,
) -> (r: Result<(), ParseError>)
    ensures
        match r {
            Ok(_) => {
                &&& tokens(old(it)@).len() >= 1
                &&& tokens(final(it)@) == tokens(old(it)@).skip(1)
                &&& tokens(final(other_kw)@) == tokens(old(other_kw)@).push(literal(name))
                    + tokens(old(it)@).take(1)
            },
            Err(e) => {
                &&& tokens(old(it)@).len() < 1
                &&& e@ == ParseErrorView::MissingValue(flag@)
            },
        },
{
    let value = next_value(it, flag)?;
    other_kw.push(token_from(name));
    other_kw.push(value);
    assert(tokens(other_kw@) == tokens(old(other_kw)@).push(literal(name)) + tokens(
        old(it)@,
    ).take(1));
    Ok(())
}

/// Takes the two values of a passed-on option from the queue and appends the
/// option, under the spelling `name`, and the values to `other_kw`.
fn forward_two(
    other_kw: &mut Vec<Vec<u8>>,
    it: &mut VecDeque<Vec<u8>>,
    flag: &Vec<u8>,
    name: &str,
) -> (r: Result<(), ParseError>)
    ensures
        match r {
            Ok(_) => {
                &&& tokens(old(it)@).len() >= 2
                &&& tokens(final(it)@) == tokens(old(it)@).skip(2)
                &&& tokens(final(other_kw)@) == tokens(old(other_kw)@).push(literal(name))
                    + tokens(old(it)@).take(2)
            },
            Err(e) => {
                &&& tokens(old(it)@).len() < 2
                &&& e@ == ParseErrorView::MissingValue(flag@)
            },
        },
{
    let first = next_value(it, flag)?;
    let second = next_value(it, flag)?;
    other_kw.push(token_from(name));
    other_kw.push(first);
    other_kw.push(second);
    assert(tokens(it@) == tokens(old(it)@).skip(2));
    assert(tokens(other_kw@) == tokens(old(other_kw)@).push(literal(name)) + tokens(
        old(it)@,
    ).take(2));
    Ok(())
}

impl Args {
    /// Parses a command line.
    ///
    /// `in_shebang` tells whether the command line comes from the shebang
    /// line of a script; it decides which of `-i`, `--run`, `--command` and
    /// `--exec` are options.
    pub fn parse(args: Vec<Vec<u8>>, in_shebang: bool) -> (r: Result<Args, ParseError>)
        ensures
            match r {
                Ok(parsed) => parse_spec(tokens(args@), in_shebang) == Ok::<
                    ArgsView,
                    ParseErrorView,
                >(parsed@),
                Err(e) => parse_spec(tokens(args@), in_shebang) == Err::<ArgsView, ParseErrorView>(
                    e@,
                ),
            },
    {
        let mut res = Args {
            packages: false,
            pure: false,
            interpreter: token_from("bash"),
            run: RunMode::InteractiveShell,
            rest: Vec::new(),
            other_kw: Vec::new(),
        };
        let mut it = queue_of(args);
        assert(tokens(res.rest@) == Seq::<Seq<u8>>::empty());
        assert(tokens(res.other_kw@) == Seq::<Seq<u8>>::empty());
        loop
            invariant
                parse_from(tokens(it@), res@, in_shebang) == parse_spec(tokens(args@), in_shebang),
            decreases queue_weight(tokens(it@)),
        {
            let ghost queue = tokens(it@);
            let ghost acc = res@;
            let arg = match get_next_arg(&mut it) {
                Some(arg) => arg,
                None => {
                    return Ok(res);
                },
            };
            let ghost rest = tokens(it@);
            let kind = classify(&arg, in_shebang);
            proof {
                lemma_next_arg_decreases(queue);
                if rest.len() >= value_count(kind) {
                    lemma_weight_skip(rest, value_count(kind) as int);
                }
                assert(rest.take(0) == Seq::<Seq<u8>>::empty());
                assert(rest.skip(0) == rest);
            }
            match kind {
                TokenKind::Attr => {
                    forward_one(&mut res.other_kw, &mut it, &arg, "-A")?;
                },
                TokenKind::Include => {
                    forward_one(&mut res.other_kw, &mut it, &arg, "-I")?;
                },
                TokenKind::Arg => {
                    forward_two(&mut res.other_kw, &mut it, &arg, "--arg")?;
                },
                TokenKind::ArgStr => {
                    forward_two(&mut res.other_kw, &mut it, &arg, "--argstr")?;
                },
                TokenKind::Setting => {
                    forward_two(&mut res.other_kw, &mut it, &arg, "--option")?;
                },
                TokenKind::MaxJobs => {
                    forward_one(&mut res.other_kw, &mut it, &arg, "--max-jobs")?;
                },
                TokenKind::Pure => {
                    res.pure = true;
                },
                TokenKind::Impure => {
                    res.pure = false;
                },
                TokenKind::Packages => {
                    res.packages = true;
                },
                TokenKind::Interpreter => {
                    res.interpreter = next_value(&mut it, &arg)?;
                },
                TokenKind::Shell => {
                    res.run = RunMode::Shell(next_value(&mut it, &arg)?);
                },
                TokenKind::Exec => {
                    let program = next_value(&mut it, &arg)?;
                    res.run = RunMode::Exec(program, drain(&mut it));
                    return Ok(res);
                },
                TokenKind::Unexpected => {
                    return Err(ParseError::UnexpectedArg(arg));
                },
                TokenKind::Positional => {
                    res.rest.push(arg);
                    assert(tokens(res.rest@) == acc.rest.push(arg@));
                },
            }
            assert(res@ == with_arg(
                acc,
                kind,
                arg@,
                rest.take(value_count(kind) as int),
                rest.skip(value_count(kind) as int),
            ));
        }
    }
}

} // verus!
