//! The minimal command-line shape: `--input`/`-i` and `--output`/`-o` with
//! a value each, and `--recursive`. Arguments are byte strings, as the
//! operating system hands them over. Recursion is on by default; the flag
//! restates it. An unknown argument, or a flag missing its value, ends the
//! run before any work with a diagnostic — reported, not a crash.

use vstd::prelude::*;

verus! {

/// The run's configuration once the arguments are read.
#[derive(Debug)]
pub struct RunConfig {
    pub input: Vec<u8>,
    pub output: Vec<u8>,
    pub recursive: bool,
}

/// Why the arguments were rejected.
#[derive(Debug)]
pub enum CliError {
    MissingInputValue,
    MissingOutputValue,
    UnknownArgument(Vec<u8>),
}

/// Ghost image of a configuration.
pub ghost struct ConfigView {
    pub input: Seq<u8>,
    pub output: Seq<u8>,
    pub recursive: bool,
}

/// Ghost image of a rejection.
pub ghost enum CliErrorView {
    MissingInputValue,
    MissingOutputValue,
    UnknownArgument(Seq<u8>),
}

/// The bytes of `-i`.
pub open spec fn flag_input_short() -> Seq<u8> {
    seq![45u8, 105u8]
}

/// The bytes of `--input`.
pub open spec fn flag_input_long() -> Seq<u8> {
    seq![45u8, 45u8, 105u8, 110u8, 112u8, 117u8, 116u8]
}

/// The bytes of `-o`.
pub open spec fn flag_output_short() -> Seq<u8> {
    seq![45u8, 111u8]
}

/// The bytes of `--output`.
pub open spec fn flag_output_long() -> Seq<u8> {
    seq![45u8, 45u8, 111u8, 117u8, 116u8, 112u8, 117u8, 116u8]
}

/// The bytes of `--recursive`.
pub open spec fn flag_recursive() -> Seq<u8> {
    seq![45u8, 45u8, 114u8, 101u8, 99u8, 117u8, 114u8, 115u8, 105u8, 118u8, 101u8]
}

/// The conventional input root `INPUT`, used when `--input` is absent.
pub open spec fn default_input() -> Seq<u8> {
    seq![73u8, 78u8, 80u8, 85u8, 84u8]
}

/// The conventional output root `OUTPUT`, used when `--output` is absent.
pub open spec fn default_output() -> Seq<u8> {
    seq![79u8, 85u8, 84u8, 80u8, 85u8, 84u8]
}

/// Where every run starts: the conventional roots, recursion on.
pub open spec fn default_config() -> ConfigView {
    ConfigView { input: default_input(), output: default_output(), recursive: true }
}

/// The whole meaning of the argument list, read left to right from `i`
/// with `cur` accumulated so far: a flag with a value overwrites its field
/// (the last occurrence wins), `--recursive` sets its switch, the first
/// unknown argument or dangling flag rejects the whole list.
pub open spec fn parse_from(args: Seq<Seq<u8>>, i: int, cur: ConfigView) -> Result<
    ConfigView,
    CliErrorView,
>
    decreases args.len() - i,
{
    if i < 0 || i >= args.len() {
        Ok(cur)
    } else if args[i] == flag_input_short() || args[i] == flag_input_long() {
        if i + 1 < args.len() {
            parse_from(args, i + 2, ConfigView { input: args[i + 1], ..cur })
        } else {
            Err(CliErrorView::MissingInputValue)
        }
    } else if args[i] == flag_output_short() || args[i] == flag_output_long() {
        if i + 1 < args.len() {
            parse_from(args, i + 2, ConfigView { output: args[i + 1], ..cur })
        } else {
            Err(CliErrorView::MissingOutputValue)
        }
    } else if args[i] == flag_recursive() {
        parse_from(args, i + 1, ConfigView { recursive: true, ..cur })
    } else {
        Err(CliErrorView::UnknownArgument(args[i]))
    }
}

/// The meaning of the whole argument list, from the defaults.
pub open spec fn parse_meaning(args: Seq<Seq<u8>>) -> Result<ConfigView, CliErrorView> {
    parse_from(args, 0, default_config())
}

/// The configuration shows the ghost image.
pub open spec fn config_matches(c: RunConfig, v: ConfigView) -> bool {
    c.input@ == v.input && c.output@ == v.output && c.recursive == v.recursive
}

/// The rejection shows the ghost image.
pub open spec fn error_matches(e: CliError, v: CliErrorView) -> bool {
    match e {
        CliError::MissingInputValue => v is MissingInputValue,
        CliError::MissingOutputValue => v is MissingOutputValue,
        CliError::UnknownArgument(a) => v matches CliErrorView::UnknownArgument(b) && a@ == b,
    }
}

/// The byte view of the argument list.
pub open spec fn args_view(args: Vec<Vec<u8>>) -> Seq<Seq<u8>> {
    Seq::new(args@.len() as nat, |i: int| args@[i]@)
}

/// The five flags, each as its bytes, in order:
/// `-i`, `--input`, `-o`, `--output`, `--recursive`.
fn flag_table() -> (r: (Vec<u8>, Vec<u8>, Vec<u8>, Vec<u8>, Vec<u8>))
    ensures
        r.0@ == flag_input_short(),
        r.1@ == flag_input_long(),
        r.2@ == flag_output_short(),
        r.3@ == flag_output_long(),
        r.4@ == flag_recursive(),
{
    let mut i_short: Vec<u8> = Vec::new();
    i_short.push(45);
    i_short.push(105);
    let mut i_long: Vec<u8> = Vec::new();
    i_long.push(45);
    i_long.push(45);
    i_long.push(105);
    i_long.push(110);
    i_long.push(112);
    i_long.push(117);
    i_long.push(116);
    let mut o_short: Vec<u8> = Vec::new();
    o_short.push(45);
    o_short.push(111);
    let mut o_long: Vec<u8> = Vec::new();
    o_long.push(45);
    o_long.push(45);
    o_long.push(111);
    o_long.push(117);
    o_long.push(116);
    o_long.push(112);
    o_long.push(117);
    o_long.push(116);
    let mut rec: Vec<u8> = Vec::new();
    rec.push(45);
    rec.push(45);
    rec.push(114);
    rec.push(101);
    rec.push(99);
    rec.push(117);
    rec.push(114);
    rec.push(115);
    rec.push(105);
    rec.push(118);
    rec.push(101);
    proof {
        assert(i_short@ =~= flag_input_short());
        assert(i_long@ =~= flag_input_long());
        assert(o_short@ =~= flag_output_short());
        assert(o_long@ =~= flag_output_long());
        assert(rec@ =~= flag_recursive());
    }
    (i_short, i_long, o_short, o_long, rec)
}

fn bytes_eq(a: &Vec<u8>, b: &Vec<u8>) -> (r: bool)
    ensures
        r == (a@ == b@),
{
    if a.len() != b.len() {
        proof {
            assert(a@.len() != b@.len());
        }
        return false;
    }
    let mut i: usize = 0;
    while i < a.len()
        invariant
            i <= a@.len(),
            a@.len() == b@.len(),
            forall|j: int| 0 <= j < i ==> a@[j] == b@[j],
        decreases a@.len() - i,
    {
        if a[i] != b[i] {
            return false;
        }
        i = i + 1;
    }
    proof {
        assert(a@ =~= b@);
    }
    true
}

fn take_bytes(b: &Vec<u8>) -> (r: Vec<u8>)
    ensures
        r@ == b@,
{
    let mut r: Vec<u8> = Vec::new();
    let mut i: usize = 0;
    while i < b.len()
        invariant
            i <= b@.len(),
            r@ == b@.subrange(0, i as int),
        decreases b@.len() - i,
    {
        r.push(b[i]);
        proof {
            assert(r@ =~= b@.subrange(0, i + 1 as int));
        }
        i = i + 1;
    }
    proof {
        assert(b@.subrange(0, b@.len() as int) =~= b@);
    }
    r
}

/// Reads the argument list (the program name already stripped) into a run
/// configuration, or rejects it, exactly as `parse_meaning` says.
pub fn parse_args(args: &Vec<Vec<u8>>) -> (r: Result<RunConfig, CliError>)
    ensures
        match parse_meaning(args_view(*args)) {
            Ok(v) => r matches Ok(c) && config_matches(c, v),
            Err(ev) => r matches Err(e) && error_matches(e, ev),
        },
{
    let ghost av = args_view(*args);
    let mut input: Vec<u8> = Vec::new();
    input.push(73);
    input.push(78);
    input.push(80);
    input.push(85);
    input.push(84);
    let mut output: Vec<u8> = Vec::new();
    output.push(79);
    output.push(85);
    output.push(84);
    output.push(80);
    output.push(85);
    output.push(84);
    let mut recursive: bool = true;
    proof {
        assert(input@ =~= default_input());
        assert(output@ =~= default_output());
    }
    let flags = flag_table();
    let mut i: usize = 0;
    while i < args.len()
        invariant
            i <= args@.len(),
            av == args_view(*args),
            flags.0@ == flag_input_short(),
            flags.1@ == flag_input_long(),
            flags.2@ == flag_output_short(),
            flags.3@ == flag_output_long(),
            flags.4@ == flag_recursive(),
            parse_from(av, i as int, ConfigView { input: input@, output: output@, recursive })
                == parse_meaning(av),
        decreases args@.len() - i,
    {
        let ghost cur = ConfigView { input: input@, output: output@, recursive };
        proof {
            assert(av[i as int] == args@[i as int]@);
        }
        if bytes_eq(&args[i], &flags.0) || bytes_eq(&args[i], &flags.1) {
            if i + 1 < args.len() {
                input = take_bytes(&args[i + 1]);
                proof {
                    assert(av[i + 1 as int] == args@[i + 1 as int]@);
                    assert(ConfigView { input: input@, output: output@, recursive }
                        == ConfigView { input: av[i + 1 as int], ..cur });
                }
                i = i + 2;
            } else {
                return Err(CliError::MissingInputValue);
            }
        } else if bytes_eq(&args[i], &flags.2) || bytes_eq(&args[i], &flags.3) {
            if i + 1 < args.len() {
                output = take_bytes(&args[i + 1]);
                proof {
                    assert(av[i + 1 as int] == args@[i + 1 as int]@);
                    assert(ConfigView { input: input@, output: output@, recursive }
                        == ConfigView { output: av[i + 1 as int], ..cur });
                }
                i = i + 2;
            } else {
                return Err(CliError::MissingOutputValue);
            }
        } else if bytes_eq(&args[i], &flags.4) {
            recursive = true;
            i = i + 1;
        } else {
            let unknown = take_bytes(&args[i]);
            return Err(CliError::UnknownArgument(unknown));
        }
    }
    Ok(RunConfig { input, output, recursive })
}

} // verus!
