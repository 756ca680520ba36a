//! Properties of the parser that hold of every command line.

use crate::args::{
    initial_args, kind_of, parse_from, parse_spec, value_count, with_arg, ArgsView, ParseErrorView,
    RunModeView, TokenKind,
};
use crate::expand::{is_cluster, lemma_plain_token_unchanged};
use crate::token::{literal, DASH};
use vstd::prelude::*;
use vstd::string::{is_ascii, is_ascii_spec_bytes};

verus! {

/// The option names, and the default interpreter, byte by byte.
pub proof fn lemma_spellings()
    ensures
        literal("--attr") == seq![45u8, 45, 97, 116, 116, 114],
        literal("-A") == seq![45u8, 65],
        literal("-I") == seq![45u8, 73],
        literal("--arg") == seq![45u8, 45, 97, 114, 103],
        literal("--argstr") == seq![45u8, 45, 97, 114, 103, 115, 116, 114],
        literal("--option") == seq![45u8, 45, 111, 112, 116, 105, 111, 110],
        literal("-j") == seq![45u8, 106],
        literal("--max-jobs") == seq![45u8, 45, 109, 97, 120, 45, 106, 111, 98, 115],
        literal("--pure") == seq![45u8, 45, 112, 117, 114, 101],
        literal("--impure") == seq![45u8, 45, 105, 109, 112, 117, 114, 101],
        literal("--packages") == seq![45u8, 45, 112, 97, 99, 107, 97, 103, 101, 115],
        literal("-p") == seq![45u8, 112],
        literal("-i") == seq![45u8, 105],
        literal("--run") == seq![45u8, 45, 114, 117, 110],
        literal("--command") == seq![45u8, 45, 99, 111, 109, 109, 97, 110, 100],
        literal("--exec") == seq![45u8, 45, 101, 120, 101, 99],
        literal("bash") == seq![98u8, 97, 115, 104],
{
    broadcast use is_ascii_spec_bytes;

    reveal_strlit("--attr");
    assert(is_ascii("--attr"));
    assert(literal("--attr") =~= seq![45u8, 45, 97, 116, 116, 114]);
    reveal_strlit("-A");
    assert(is_ascii("-A"));
    assert(literal("-A") =~= seq![45u8, 65]);
    reveal_strlit("-I");
    assert(is_ascii("-I"));
    assert(literal("-I") =~= seq![45u8, 73]);
    reveal_strlit("--arg");
    assert(is_ascii("--arg"));
    assert(literal("--arg") =~= seq![45u8, 45, 97, 114, 103]);
    reveal_strlit("--argstr");
    assert(is_ascii("--argstr"));
    assert(literal("--argstr") =~= seq![45u8, 45, 97, 114, 103, 115, 116, 114]);
    reveal_strlit("--option");
    assert(is_ascii("--option"));
    assert(literal("--option") =~= seq![45u8, 45, 111, 112, 116, 105, 111, 110]);
    reveal_strlit("-j");
    assert(is_ascii("-j"));
    assert(literal("-j") =~= seq![45u8, 106]);
    reveal_strlit("--max-jobs");
    assert(is_ascii("--max-jobs"));
    assert(literal("--max-jobs") =~= seq![45u8, 45, 109, 97, 120, 45, 106, 111, 98, 115]);
    reveal_strlit("--pure");
    assert(is_ascii("--pure"));
    assert(literal("--pure") =~= seq![45u8, 45, 112, 117, 114, 101]);
    reveal_strlit("--impure");
    assert(is_ascii("--impure"));
    assert(literal("--impure") =~= seq![45u8, 45, 105, 109, 112, 117, 114, 101]);
    reveal_strlit("--packages");
    assert(is_ascii("--packages"));
    assert(literal("--packages") =~= seq![45u8, 45, 112, 97, 99, 107, 97, 103, 101, 115]);
    reveal_strlit("-p");
    assert(is_ascii("-p"));
    assert(literal("-p") =~= seq![45u8, 112]);
    reveal_strlit("-i");
    assert(is_ascii("-i"));
    assert(literal("-i") =~= seq![45u8, 105]);
    reveal_strlit("--run");
    assert(is_ascii("--run"));
    assert(literal("--run") =~= seq![45u8, 45, 114, 117, 110]);
    reveal_strlit("--command");
    assert(is_ascii("--command"));
    assert(literal("--command") =~= seq![45u8, 45, 99, 111, 109, 109, 97, 110, 100]);
    reveal_strlit("--exec");
    assert(is_ascii("--exec"));
    assert(literal("--exec") =~= seq![45u8, 45, 101, 120, 101, 99]);
    reveal_strlit("bash");
    assert(is_ascii("bash"));
    assert(literal("bash") =~= seq![98u8, 97, 115, 104]);
}

/// The table of options: the kind of each name.  `-i` is an option only in
/// a shebang line, `--run`, `--command` and `--exec` only outside of one;
/// where they are no options, they are unexpected.
pub proof fn lemma_option_kinds(in_shebang: bool)
    ensures
        kind_of(literal("--attr"), in_shebang) == TokenKind::Attr,
        kind_of(literal("-A"), in_shebang) == TokenKind::Attr,
        kind_of(literal("-I"), in_shebang) == TokenKind::Include,
        kind_of(literal("--arg"), in_shebang) == TokenKind::Arg,
        kind_of(literal("--argstr"), in_shebang) == TokenKind::ArgStr,
        kind_of(literal("--option"), in_shebang) == TokenKind::Setting,
        kind_of(literal("-j"), in_shebang) == TokenKind::MaxJobs,
        kind_of(literal("--max-jobs"), in_shebang) == TokenKind::MaxJobs,
        kind_of(literal("--pure"), in_shebang) == TokenKind::Pure,
        kind_of(literal("--impure"), in_shebang) == TokenKind::Impure,
        kind_of(literal("--packages"), in_shebang) == TokenKind::Packages,
        kind_of(literal("-p"), in_shebang) == TokenKind::Packages,
        kind_of(literal("-i"), true) == TokenKind::Interpreter,
        kind_of(literal("-i"), false) == TokenKind::Unexpected,
        kind_of(literal("--run"), false) == TokenKind::Shell,
        kind_of(literal("--run"), true) == TokenKind::Unexpected,
        kind_of(literal("--command"), false) == TokenKind::Shell,
        kind_of(literal("--command"), true) == TokenKind::Unexpected,
        kind_of(literal("--exec"), false) == TokenKind::Exec,
        kind_of(literal("--exec"), true) == TokenKind::Unexpected,
{
    lemma_spellings();
    assert(literal("--attr").len() == 6 && literal("--attr")[2] == 97u8);
    assert(literal("-A").len() == 2 && literal("-A")[1] == 65u8);
    assert(literal("-I").len() == 2 && literal("-I")[1] == 73u8);
    assert(literal("--arg").len() == 5 && literal("--arg")[2] == 97u8);
    assert(literal("--argstr").len() == 8 && literal("--argstr")[2] == 97u8);
    assert(literal("--option").len() == 8 && literal("--option")[2] == 111u8);
    assert(literal("-j").len() == 2 && literal("-j")[1] == 106u8);
    assert(literal("--max-jobs").len() == 10 && literal("--max-jobs")[2] == 109u8);
    assert(literal("--pure").len() == 6 && literal("--pure")[2] == 112u8);
    assert(literal("--impure").len() == 8 && literal("--impure")[2] == 105u8);
    assert(literal("--packages").len() == 10 && literal("--packages")[2] == 112u8);
    assert(literal("-p").len() == 2 && literal("-p")[1] == 112u8);
    assert(literal("-i").len() == 2 && literal("-i")[1] == 105u8);
    assert(literal("--run").len() == 5 && literal("--run")[2] == 114u8);
    assert(literal("--command").len() == 9 && literal("--command")[2] == 99u8);
    assert(literal("--exec").len() == 6 && literal("--exec")[2] == 101u8);
}

/// No option name is a cluster: the expander hands every option out as it
/// is written.
pub proof fn lemma_options_are_not_expanded()
    ensures
        !is_cluster(literal("--attr")),
        !is_cluster(literal("-A")),
        !is_cluster(literal("-I")),
        !is_cluster(literal("--arg")),
        !is_cluster(literal("--argstr")),
        !is_cluster(literal("--option")),
        !is_cluster(literal("-j")),
        !is_cluster(literal("--max-jobs")),
        !is_cluster(literal("--pure")),
        !is_cluster(literal("--impure")),
        !is_cluster(literal("--packages")),
        !is_cluster(literal("-p")),
        !is_cluster(literal("-i")),
        !is_cluster(literal("--run")),
        !is_cluster(literal("--command")),
        !is_cluster(literal("--exec")),
{
    lemma_spellings();
}

/// What the parser does with a queue whose front token is no cluster: the
/// token is classified as it stands, and its values are the tokens behind it.
pub proof fn lemma_parse_step(arg: Seq<u8>, rest: Seq<Seq<u8>>, acc: ArgsView, in_shebang: bool)
    requires
        !is_cluster(arg),
    ensures
        parse_from(seq![arg] + rest, acc, in_shebang) == ({
            let kind = kind_of(arg, in_shebang);
            let count = value_count(kind) as int;
            let after = rest.skip(count);
            let next = with_arg(acc, kind, arg, rest.take(count), after);
            if kind == TokenKind::Unexpected {
                Err(ParseErrorView::UnexpectedArg(arg))
            } else if rest.len() < count {
                Err(ParseErrorView::MissingValue(arg))
            } else if kind == TokenKind::Exec {
                Ok(next)
            } else {
                parse_from(after, next, in_shebang)
            }
        }),
{
    lemma_plain_token_unchanged(arg, rest);
}

/// Parsing no tokens gives the defaults.
pub proof fn lemma_parse_of_nothing(in_shebang: bool)
    ensures
        parse_spec(Seq::empty(), in_shebang) == Ok::<ArgsView, ParseErrorView>(initial_args()),
{
}

/// `--pure` and `--impure` set the purity whatever it was before, so the
/// last of them on a command line decides.
pub proof fn lemma_purity_is_overwritten(rest: Seq<Seq<u8>>, acc: ArgsView, in_shebang: bool)
    ensures
        parse_from(seq![literal("--pure")] + rest, acc, in_shebang) == parse_from(
            rest,
            ArgsView { pure: true, ..acc },
            in_shebang,
        ),
        parse_from(seq![literal("--impure")] + rest, acc, in_shebang) == parse_from(
            rest,
            ArgsView { pure: false, ..acc },
            in_shebang,
        ),
{
    lemma_option_kinds(in_shebang);
    lemma_options_are_not_expanded();
    lemma_parse_step(literal("--pure"), rest, acc, in_shebang);
    lemma_parse_step(literal("--impure"), rest, acc, in_shebang);
    assert(rest.skip(0) == rest);
}

/// `-p` and `--packages` ask for packages.
pub proof fn lemma_packages(rest: Seq<Seq<u8>>, acc: ArgsView, in_shebang: bool)
    ensures
        parse_from(seq![literal("-p")] + rest, acc, in_shebang) == parse_from(
            rest,
            ArgsView { packages: true, ..acc },
            in_shebang,
        ),
        parse_from(seq![literal("--packages")] + rest, acc, in_shebang) == parse_from(
            rest,
            ArgsView { packages: true, ..acc },
            in_shebang,
        ),
{
    lemma_option_kinds(in_shebang);
    lemma_options_are_not_expanded();
    lemma_parse_step(literal("-p"), rest, acc, in_shebang);
    lemma_parse_step(literal("--packages"), rest, acc, in_shebang);
    assert(rest.skip(0) == rest);
}

/// In a shebang line `-i` sets the interpreter to the token behind it;
/// elsewhere `-i` is rejected.
pub proof fn lemma_interpreter(value: Seq<u8>, rest: Seq<Seq<u8>>, acc: ArgsView)
    ensures
        parse_from(seq![literal("-i"), value] + rest, acc, true) == parse_from(
            rest,
            ArgsView { interpreter: value, ..acc },
            true,
        ),
        parse_from(seq![literal("-i"), value] + rest, acc, false) == Err::<
            ArgsView,
            ParseErrorView,
        >(ParseErrorView::UnexpectedArg(literal("-i"))),
{
    let behind = seq![value] + rest;
    lemma_option_kinds(true);
    lemma_options_are_not_expanded();
    assert(seq![literal("-i"), value] + rest == seq![literal("-i")] + behind);
    lemma_parse_step(literal("-i"), behind, acc, true);
    lemma_parse_step(literal("-i"), behind, acc, false);
    assert(behind.skip(1) == rest);
}

/// Outside a shebang line `--run` and `--command` set the command to the
/// token behind them; in a shebang line they are rejected.
pub proof fn lemma_shell_command(command: Seq<u8>, rest: Seq<Seq<u8>>, acc: ArgsView)
    ensures
        parse_from(seq![literal("--run"), command] + rest, acc, false) == parse_from(
            rest,
            ArgsView { run: RunModeView::Shell(command), ..acc },
            false,
        ),
        parse_from(seq![literal("--command"), command] + rest, acc, false) == parse_from(
            rest,
            ArgsView { run: RunModeView::Shell(command), ..acc },
            false,
        ),
        parse_from(seq![literal("--run"), command] + rest, acc, true) == Err::<
            ArgsView,
            ParseErrorView,
        >(ParseErrorView::UnexpectedArg(literal("--run"))),
        parse_from(seq![literal("--command"), command] + rest, acc, true) == Err::<
            ArgsView,
            ParseErrorView,
        >(ParseErrorView::UnexpectedArg(literal("--command"))),
{
    let behind = seq![command] + rest;
    lemma_option_kinds(true);
    lemma_options_are_not_expanded();
    assert(seq![literal("--run"), command] + rest == seq![literal("--run")] + behind);
    assert(seq![literal("--command"), command] + rest == seq![literal("--command")] + behind);
    lemma_parse_step(literal("--run"), behind, acc, false);
    lemma_parse_step(literal("--command"), behind, acc, false);
    lemma_parse_step(literal("--run"), behind, acc, true);
    lemma_parse_step(literal("--command"), behind, acc, true);
    assert(behind.skip(1) == rest);
}

/// Outside a shebang line `--exec` ends the parsing: the token behind it is
/// the program, and all that follows, whatever it looks like, its
/// arguments.  In a shebang line `--exec` is rejected.
pub proof fn lemma_exec_ends_parsing(program: Seq<u8>, rest: Seq<Seq<u8>>, acc: ArgsView)
    ensures
        parse_from(seq![literal("--exec"), program] + rest, acc, false) == Ok::<
            ArgsView,
            ParseErrorView,
        >(ArgsView { run: RunModeView::Exec(program, rest), ..acc }),
        parse_from(seq![literal("--exec"), program] + rest, acc, true) == Err::<
            ArgsView,
            ParseErrorView,
        >(ParseErrorView::UnexpectedArg(literal("--exec"))),
{
    let behind = seq![program] + rest;
    lemma_option_kinds(true);
    lemma_options_are_not_expanded();
    assert(seq![literal("--exec"), program] + rest == seq![literal("--exec")] + behind);
    lemma_parse_step(literal("--exec"), behind, acc, false);
    lemma_parse_step(literal("--exec"), behind, acc, true);
    assert(behind.skip(1) == rest);
}

/// An option with fewer tokens behind it than it takes values is rejected
/// under its own name, whatever was parsed before.
pub proof fn lemma_missing_value(
    arg: Seq<u8>,
    rest: Seq<Seq<u8>>,
    acc: ArgsView,
    in_shebang: bool,
)
    requires
        !is_cluster(arg),
        kind_of(arg, in_shebang) != TokenKind::Unexpected,
        rest.len() < value_count(kind_of(arg, in_shebang)),
    ensures
        parse_from(seq![arg] + rest, acc, in_shebang) == Err::<ArgsView, ParseErrorView>(
            ParseErrorView::MissingValue(arg),
        ),
{
    lemma_parse_step(arg, rest, acc, in_shebang);
}

/// A token that starts with a dash and is no option is rejected, whatever
/// was parsed before and whatever follows.
pub proof fn lemma_unexpected_arg(
    arg: Seq<u8>,
    rest: Seq<Seq<u8>>,
    acc: ArgsView,
    in_shebang: bool,
)
    requires
        !is_cluster(arg),
        kind_of(arg, in_shebang) == TokenKind::Unexpected,
    ensures
        arg.len() > 0 && arg[0] == DASH,
        parse_from(seq![arg] + rest, acc, in_shebang) == Err::<ArgsView, ParseErrorView>(
            ParseErrorView::UnexpectedArg(arg),
        ),
{
    lemma_parse_step(arg, rest, acc, in_shebang);
}

/// A token that does not start with a dash is a positional argument: it is
/// appended to `rest`, and nothing else changes.
pub proof fn lemma_positional(arg: Seq<u8>, rest: Seq<Seq<u8>>, acc: ArgsView, in_shebang: bool)
    requires
        arg.len() == 0 || arg[0] != DASH,
    ensures
        parse_from(seq![arg] + rest, acc, in_shebang) == parse_from(
            rest,
            ArgsView { rest: acc.rest.push(arg), ..acc },
            in_shebang,
        ),
{
    lemma_spellings();
    assert(kind_of(arg, in_shebang) == TokenKind::Positional);
    lemma_parse_step(arg, rest, acc, in_shebang);
    assert(rest.skip(0) == rest);
}

/// `-A` and `--attr` are passed on as `-A`, followed by the token behind
/// them; positional arguments and other options keep their own order.
pub proof fn lemma_attr_is_passed_on(
    value: Seq<u8>,
    rest: Seq<Seq<u8>>,
    acc: ArgsView,
    in_shebang: bool,
)
    ensures
        parse_from(seq![literal("-A"), value] + rest, acc, in_shebang) == parse_from(
            rest,
            ArgsView { other_kw: acc.other_kw + seq![literal("-A"), value], ..acc },
            in_shebang,
        ),
        parse_from(seq![literal("--attr"), value] + rest, acc, in_shebang) == parse_from(
            rest,
            ArgsView { other_kw: acc.other_kw + seq![literal("-A"), value], ..acc },
            in_shebang,
        ),
{
    let behind = seq![value] + rest;
    lemma_option_kinds(in_shebang);
    lemma_options_are_not_expanded();
    assert(seq![literal("-A"), value] + rest == seq![literal("-A")] + behind);
    assert(seq![literal("--attr"), value] + rest == seq![literal("--attr")] + behind);
    lemma_parse_step(literal("-A"), behind, acc, in_shebang);
    lemma_parse_step(literal("--attr"), behind, acc, in_shebang);
    assert(behind.skip(1) == rest);
    assert(acc.other_kw.push(literal("-A")) + behind.take(1) == acc.other_kw + seq![
        literal("-A"),
        value,
    ]);
}

} // verus!
