use nix_shell_args::args::{classify, next_value, Args, ParseError, RunMode, TokenKind};
use std::collections::VecDeque;

fn toks(tokens: &[&str]) -> Vec<Vec<u8>> {
    tokens.iter().map(|t| t.as_bytes().to_vec()).collect()
}

fn parse(tokens: &[&str], in_shebang: bool) -> Result<Args, ParseError> {
    Args::parse(toks(tokens), in_shebang)
}

fn tok(token: &str) -> Vec<u8> {
    token.as_bytes().to_vec()
}

#[test]
fn no_arguments_give_the_defaults() {
    for in_shebang in [false, true] {
        let args = parse(&[], in_shebang).unwrap();
        assert!(!args.packages);
        assert!(!args.pure);
        assert_eq!(args.interpreter, tok("bash"));
        assert_eq!(args.run, RunMode::InteractiveShell);
        assert_eq!(args.rest, Vec::<Vec<u8>>::new());
        assert_eq!(args.other_kw, Vec::<Vec<u8>>::new());
    }
}

#[test]
fn last_of_pure_and_impure_wins() {
    assert_eq!(parse(&["--pure", "--impure"], false).unwrap().pure, false);
    assert_eq!(parse(&["--impure", "--pure"], false).unwrap().pure, true);
    assert_eq!(parse(&["--pure"], false).unwrap().pure, true);
    assert_eq!(parse(&["--impure"], false).unwrap().pure, false);
    assert_eq!(parse(&["--pure", "--impure", "--pure"], true).unwrap().pure, true);
}

#[test]
fn interpreter_only_in_shebang() {
    assert_eq!(parse(&["-i", "zsh"], true).unwrap().interpreter, tok("zsh"));
    assert_eq!(
        parse(&["-i", "zsh"], false),
        Err(ParseError::UnexpectedArg(tok("-i")))
    );
    assert_eq!(
        parse(&["-i", "zsh", "-i", "fish"], true).unwrap().interpreter,
        tok("fish")
    );
    assert_eq!(parse(&["-i"], true), Err(ParseError::MissingValue(tok("-i"))));
}

#[test]
fn exec_takes_all_that_follows() {
    let args = parse(&["--exec", "foo", "--pure", "bar"], false).unwrap();
    assert_eq!(args.run, RunMode::Exec(tok("foo"), toks(&["--pure", "bar"])));
    assert!(!args.pure);
    assert_eq!(args.rest, Vec::<Vec<u8>>::new());
    assert_eq!(args.other_kw, Vec::<Vec<u8>>::new());

    let args = parse(&["--pure", "x", "--exec", "foo"], false).unwrap();
    assert_eq!(args.run, RunMode::Exec(tok("foo"), Vec::new()));
    assert!(args.pure);
    assert_eq!(args.rest, toks(&["x"]));

    let args = parse(&["--exec", "foo", "-pj16", "--bogus", "--exec"], false).unwrap();
    assert_eq!(
        args.run,
        RunMode::Exec(tok("foo"), toks(&["-pj16", "--bogus", "--exec"]))
    );
    assert!(!args.packages);
}

#[test]
fn exec_after_a_cluster_takes_what_the_cluster_left() {
    let args = parse(&["-pA", "--exec", "foo", "bar"], false).unwrap();
    assert!(args.packages);
    assert_eq!(args.other_kw, toks(&["-A", "--exec"]));
    assert_eq!(args.rest, toks(&["foo", "bar"]));
    assert_eq!(args.run, RunMode::InteractiveShell);
}

#[test]
fn run_modes_outside_shebang() {
    assert_eq!(
        parse(&["--run", "make"], false).unwrap().run,
        RunMode::Shell(tok("make"))
    );
    assert_eq!(
        parse(&["--command", "make -j4"], false).unwrap().run,
        RunMode::Shell(tok("make -j4"))
    );
    assert_eq!(
        parse(&["--run", "a", "--command", "b"], false).unwrap().run,
        RunMode::Shell(tok("b"))
    );
    assert_eq!(
        parse(&["--run", "make"], true),
        Err(ParseError::UnexpectedArg(tok("--run")))
    );
    assert_eq!(
        parse(&["--command", "make"], true),
        Err(ParseError::UnexpectedArg(tok("--command")))
    );
    assert_eq!(
        parse(&["--exec", "make"], true),
        Err(ParseError::UnexpectedArg(tok("--exec")))
    );
}

#[test]
fn missing_values_are_reported_with_the_flag() {
    assert_eq!(
        parse(&["--attr"], false),
        Err(ParseError::MissingValue(tok("--attr")))
    );
    assert_eq!(parse(&["-A"], false), Err(ParseError::MissingValue(tok("-A"))));
    assert_eq!(parse(&["-I"], true), Err(ParseError::MissingValue(tok("-I"))));
    assert_eq!(parse(&["-j"], false), Err(ParseError::MissingValue(tok("-j"))));
    assert_eq!(
        parse(&["--max-jobs"], false),
        Err(ParseError::MissingValue(tok("--max-jobs")))
    );
    assert_eq!(
        parse(&["--arg"], false),
        Err(ParseError::MissingValue(tok("--arg")))
    );
    assert_eq!(
        parse(&["--arg", "name"], false),
        Err(ParseError::MissingValue(tok("--arg")))
    );
    assert_eq!(
        parse(&["--argstr", "name"], false),
        Err(ParseError::MissingValue(tok("--argstr")))
    );
    assert_eq!(
        parse(&["--option", "name"], false),
        Err(ParseError::MissingValue(tok("--option")))
    );
    assert_eq!(
        parse(&["--run"], false),
        Err(ParseError::MissingValue(tok("--run")))
    );
    assert_eq!(
        parse(&["--exec"], false),
        Err(ParseError::MissingValue(tok("--exec")))
    );
    assert_eq!(
        parse(&["--pure", "x", "-pA"], false),
        Err(ParseError::MissingValue(tok("-A")))
    );
}

#[test]
fn unknown_options_are_rejected() {
    assert_eq!(
        parse(&["--bogus"], false),
        Err(ParseError::UnexpectedArg(tok("--bogus")))
    );
    assert_eq!(parse(&["--"], false), Err(ParseError::UnexpectedArg(tok("--"))));
    assert_eq!(parse(&["-"], false), Err(ParseError::UnexpectedArg(tok("-"))));
    assert_eq!(parse(&["-x"], false), Err(ParseError::UnexpectedArg(tok("-x"))));
    assert_eq!(parse(&["-16"], false), Err(ParseError::UnexpectedArg(tok("-16"))));
    assert_eq!(
        parse(&["-px"], false),
        Err(ParseError::UnexpectedArg(tok("-x")))
    );
    assert_eq!(
        parse(&["a", "--pure", "--Pure", "b"], false),
        Err(ParseError::UnexpectedArg(tok("--Pure")))
    );
    assert_eq!(
        parse(&["--attr", "x", "--attrs"], true),
        Err(ParseError::UnexpectedArg(tok("--attrs")))
    );
}

#[test]
fn first_failure_stops_the_scan() {
    assert_eq!(
        parse(&["--bogus", "--attr"], false),
        Err(ParseError::UnexpectedArg(tok("--bogus")))
    );
    assert_eq!(
        parse(&["-x", "--other"], false),
        Err(ParseError::UnexpectedArg(tok("-x")))
    );
}

#[test]
fn forwarded_options_keep_their_order() {
    let args = parse(&["-A", "x", "pkg.nix"], false).unwrap();
    assert_eq!(args.other_kw, toks(&["-A", "x"]));
    assert_eq!(args.rest, toks(&["pkg.nix"]));

    let args = parse(
        &[
            "a.nix", "--attr", "x", "-I", "p=q", "b.nix", "--arg", "n", "v", "--argstr", "s",
            "t", "--option", "k", "w", "-j", "4", "--max-jobs", "8", "c.nix",
        ],
        true,
    )
    .unwrap();
    assert_eq!(
        args.other_kw,
        toks(&[
            "-A", "x", "-I", "p=q", "--arg", "n", "v", "--argstr", "s", "t", "--option", "k",
            "w", "--max-jobs", "4", "--max-jobs", "8",
        ])
    );
    assert_eq!(args.rest, toks(&["a.nix", "b.nix", "c.nix"]));
    assert!(!args.packages);
    assert!(!args.pure);
    assert_eq!(args.run, RunMode::InteractiveShell);
}

#[test]
fn values_are_taken_as_they_stand() {
    let args = parse(&["--attr", "--pure", "-I", "-pj16", "--arg", "--exec", "-i"], false).unwrap();
    assert_eq!(
        args.other_kw,
        toks(&["-A", "--pure", "-I", "-pj16", "--arg", "--exec", "-i"])
    );
    assert!(!args.pure);
    assert!(!args.packages);
    assert_eq!(args.rest, Vec::<Vec<u8>>::new());

    let args = parse(&["-jA", "x"], false).unwrap();
    assert_eq!(args.other_kw, toks(&["--max-jobs", "-A"]));
    assert_eq!(args.rest, toks(&["x"]));
}

#[test]
fn clusters_are_parsed_letter_by_letter() {
    let args = parse(&["-pj16", "hello"], false).unwrap();
    assert!(args.packages);
    assert_eq!(args.other_kw, toks(&["--max-jobs", "16"]));
    assert_eq!(args.rest, toks(&["hello"]));

    let args = parse(&["-pi", "zsh"], true).unwrap();
    assert!(args.packages);
    assert_eq!(args.interpreter, tok("zsh"));

    let args = parse(&["-Ip", "x"], false).unwrap();
    assert_eq!(args.other_kw, toks(&["-I", "-p"]));
    assert_eq!(args.rest, toks(&["x"]));
    assert!(!args.packages);
    assert_eq!(
        parse(&["-Ipath", "x"], false),
        Err(ParseError::UnexpectedArg(tok("-a")))
    );
}

#[test]
fn packages_flag() {
    assert!(parse(&["-p"], false).unwrap().packages);
    assert!(parse(&["--packages"], true).unwrap().packages);
    let args = parse(&["-p", "hello", "cowsay"], false).unwrap();
    assert!(args.packages);
    assert_eq!(args.rest, toks(&["hello", "cowsay"]));
}

#[test]
fn positional_tokens() {
    let args = parse(&["", "a", "b-c", "1"], false).unwrap();
    assert_eq!(args.rest, toks(&["", "a", "b-c", "1"]));
    let args = Args::parse(vec![vec![0xff, b'-'], vec![b'x', 0x80]], true).unwrap();
    assert_eq!(args.rest, vec![vec![0xff, b'-'], vec![b'x', 0x80]]);
}

#[test]
fn kinds_of_tokens() {
    for in_shebang in [false, true] {
        assert_eq!(classify(&tok("--attr"), in_shebang), TokenKind::Attr);
        assert_eq!(classify(&tok("-A"), in_shebang), TokenKind::Attr);
        assert_eq!(classify(&tok("-I"), in_shebang), TokenKind::Include);
        assert_eq!(classify(&tok("--arg"), in_shebang), TokenKind::Arg);
        assert_eq!(classify(&tok("--argstr"), in_shebang), TokenKind::ArgStr);
        assert_eq!(classify(&tok("--option"), in_shebang), TokenKind::Setting);
        assert_eq!(classify(&tok("-j"), in_shebang), TokenKind::MaxJobs);
        assert_eq!(classify(&tok("--max-jobs"), in_shebang), TokenKind::MaxJobs);
        assert_eq!(classify(&tok("--pure"), in_shebang), TokenKind::Pure);
        assert_eq!(classify(&tok("--impure"), in_shebang), TokenKind::Impure);
        assert_eq!(classify(&tok("--packages"), in_shebang), TokenKind::Packages);
        assert_eq!(classify(&tok("-p"), in_shebang), TokenKind::Packages);
        assert_eq!(classify(&tok("-a"), in_shebang), TokenKind::Unexpected);
        assert_eq!(classify(&tok("--"), in_shebang), TokenKind::Unexpected);
        assert_eq!(classify(&tok("-"), in_shebang), TokenKind::Unexpected);
        assert_eq!(classify(&tok(""), in_shebang), TokenKind::Positional);
        assert_eq!(classify(&tok("pkg.nix"), in_shebang), TokenKind::Positional);
    }
    assert_eq!(classify(&tok("-i"), true), TokenKind::Interpreter);
    assert_eq!(classify(&tok("-i"), false), TokenKind::Unexpected);
    assert_eq!(classify(&tok("--run"), false), TokenKind::Shell);
    assert_eq!(classify(&tok("--command"), false), TokenKind::Shell);
    assert_eq!(classify(&tok("--exec"), false), TokenKind::Exec);
    assert_eq!(classify(&tok("--run"), true), TokenKind::Unexpected);
    assert_eq!(classify(&tok("--command"), true), TokenKind::Unexpected);
    assert_eq!(classify(&tok("--exec"), true), TokenKind::Unexpected);
}

#[test]
fn next_value_pops_the_front_unexpanded() {
    let mut it: VecDeque<Vec<u8>> = VecDeque::from(toks(&["-pj16", "x"]));
    assert_eq!(next_value(&mut it, &tok("-A")), Ok(tok("-pj16")));
    assert_eq!(it, VecDeque::from(toks(&["x"])));
    assert_eq!(next_value(&mut it, &tok("-A")), Ok(tok("x")));
    assert!(it.is_empty());
    assert_eq!(
        next_value(&mut it, &tok("-A")),
        Err(ParseError::MissingValue(tok("-A")))
    );
    assert!(it.is_empty());
}
