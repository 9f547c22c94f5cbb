//! Command-line argument handling for the `ohpdf-cli` program: picking the
//! subcommand and reading each subcommand's options.
use vstd::prelude::*;
use crate::text::{same_text, parse_u32, parse_u32_spec};

verus! {

/// The texts of a list of strings.
pub open spec fn texts(v: Seq<String>) -> Seq<Seq<char>> {
    v.map_values(|s: String| s@)
}

/// The texts of a list of string slices.
pub open spec fn str_texts(v: Seq<&str>) -> Seq<Seq<char>> {
    v.map_values(|s: &str| s@)
}

/// The text of an optional string.
pub open spec fn opt_text(o: Option<String>) -> Option<Seq<char>> {
    match o {
        Some(s) => Some(s@),
        None => None,
    }
}

/// Joins what was read from a prefix of the arguments with what is read
/// from the rest: a value found later replaces an earlier one.
pub open spec fn join_scan(
    front: (Option<Seq<char>>, Seq<Seq<char>>),
    back: (Option<Seq<char>>, Seq<Seq<char>>),
) -> (Option<Seq<char>>, Seq<Seq<char>>) {
    (if back.0 is Some { back.0 } else { front.0 }, front.1 + back.1)
}

/// Reading a flag with a value out of `args`: wherever one of `names` is
/// followed by another argument, the two are taken out and that argument is
/// the value (the last such occurrence wins); every other argument is kept,
/// in order.
pub open spec fn flag_value_spec(args: Seq<Seq<char>>, names: Seq<Seq<char>>) -> (
    Option<Seq<char>>,
    Seq<Seq<char>>,
)
    decreases args.len(),
{
    if args.len() == 0 {
        (None, Seq::empty())
    } else if names.contains(args[0]) && args.len() >= 2 {
        join_scan((Some(args[1]), Seq::empty()), flag_value_spec(args.skip(2), names))
    } else {
        join_scan((None, seq![args[0]]), flag_value_spec(args.drop_first(), names))
    }
}

proof fn lemma_join_scan_assoc(
    a: (Option<Seq<char>>, Seq<Seq<char>>),
    b: (Option<Seq<char>>, Seq<Seq<char>>),
    c: (Option<Seq<char>>, Seq<Seq<char>>),
)
    ensures
        join_scan(join_scan(a, b), c) == join_scan(a, join_scan(b, c)),
{
    assert(a.1 + b.1 + c.1 =~= a.1 + (b.1 + c.1));
}

fn is_one_of(arg: &str, names: &[&str]) -> (r: bool)
    ensures
        r == str_texts(names@).contains(arg@),
{
    let mut k: usize = 0;
    while k < names.len()
        invariant
            k <= names@.len(),
            forall|j: int| 0 <= j < k ==> names@[j]@ != arg@,
        decreases names@.len() - k,
    {
        if same_text(names[k], arg) {
            assert(str_texts(names@)[k as int] == arg@);
            return true;
        }
        k = k + 1;
    }
    proof {
        if str_texts(names@).contains(arg@) {
            let j = choose|j: int| 0 <= j < names@.len() && str_texts(names@)[j] == arg@;
            assert(names@[j]@ == arg@);
        }
    }
    false
}

/// Takes the value of a flag such as `-o`/`--output` out of `args`, giving
/// the value (if any) and the remaining arguments in order; a flag at the
/// very end, with nothing after it, stays among the remaining arguments.
pub fn take_flag_value(args: &[String], names: &[&str]) -> (r: (Option<String>, Vec<String>))
    ensures
        opt_text(r.0) == flag_value_spec(texts(args@), str_texts(names@)).0,
        texts(r.1@) == flag_value_spec(texts(args@), str_texts(names@)).1,
{
    let ghost all = texts(args@);
    let ghost ns = str_texts(names@);
    let mut value: Option<String> = None;
    let mut rest: Vec<String> = Vec::new();
    let mut i: usize = 0;
    assert(all.skip(0) =~= all);
    while i < args.len()
        invariant
            all == texts(args@),
            ns == str_texts(names@),
            i <= args@.len(),
            flag_value_spec(all, ns) == join_scan(
                (
                    opt_text(value),
                    texts(rest@),
                ),
                flag_value_spec(all.skip(i as int), ns),
            ),
        decreases args@.len() - i,
    {
        let ghost cur = (opt_text(value), texts(rest@));
        let ghost tail = all.skip(i as int);
        assert(tail[0] == args@[i as int]@);
        if is_one_of(args[i].as_str(), names) && i + 1 < args.len() {
            let v = args[i + 1].clone();
            assert(tail[1] == args@[i + 1]@);
            assert(tail.skip(2) =~= all.skip(i + 2));
            proof {
                lemma_join_scan_assoc(
                    cur,
                    (Some(tail[1]), Seq::empty()),
                    flag_value_spec(tail.skip(2), ns),
                );
            }
            value = Some(v);
            assert(texts(rest@) + Seq::empty() =~= texts(rest@));
            i = i + 2;
            continue;
        }
        let a = args[i].clone();
        assert(tail.drop_first() =~= all.skip(i + 1));
        proof {
            lemma_join_scan_assoc(cur, (None, seq![tail[0]]), flag_value_spec(tail.drop_first(), ns));
        }
        rest.push(a);
        assert(texts(rest@) =~= cur.1 + seq![tail[0]]);
        i = i + 1;
    }
    assert(all.skip(i as int) =~= Seq::<Seq<char>>::empty());
    assert(texts(rest@) + Seq::empty() =~= texts(rest@));
    (value, rest)
}

/// Law of flag reading: arguments that name no flag are all kept, in
/// order, and no value is read.
pub proof fn law_no_flag_keeps_all(args: Seq<Seq<char>>, names: Seq<Seq<char>>)
    requires
        forall|i: int| 0 <= i < args.len() ==> !names.contains(#[trigger] args[i]),
    ensures
        flag_value_spec(args, names) == (None::<Seq<char>>, args),
    decreases args.len(),
{
    if args.len() > 0 {
        assert(!names.contains(args[0]));
        let t = args.drop_first();
        assert forall|i: int| 0 <= i < t.len() implies !names.contains(#[trigger] t[i]) by {
            assert(t[i] == args[i + 1]);
        }
        law_no_flag_keeps_all(t, names);
        assert(seq![args[0]] + t =~= args);
    }
}

/// Law of flag reading: a flag followed by its value, then arguments that
/// name no flag, reads that value and keeps exactly those arguments.
pub proof fn law_flag_then_plain(
    flag: Seq<char>,
    value: Seq<char>,
    rest: Seq<Seq<char>>,
    names: Seq<Seq<char>>,
)
    requires
        names.contains(flag),
        forall|i: int| 0 <= i < rest.len() ==> !names.contains(#[trigger] rest[i]),
    ensures
        flag_value_spec(seq![flag, value] + rest, names) == (Some(value), rest),
{
    let args = seq![flag, value] + rest;
    assert(args[0] == flag);
    assert(args[1] == value);
    assert(args.skip(2) =~= rest);
    law_no_flag_keeps_all(rest, names);
    assert(Seq::<Seq<char>>::empty() + rest =~= rest);
}

/// Law of flag reading: no value is read exactly when every argument is
/// kept; when a value is read, fewer arguments remain.
pub proof fn law_no_value_iff_all_kept(args: Seq<Seq<char>>, names: Seq<Seq<char>>)
    ensures
        flag_value_spec(args, names).0 is None ==> flag_value_spec(args, names).1 == args,
        flag_value_spec(args, names).0 is Some ==> flag_value_spec(args, names).1.len()
            < args.len(),
        flag_value_spec(args, names).0 is None <==> flag_value_spec(args, names).1 == args,
    decreases args.len(),
{
    if args.len() == 0 {
    } else if names.contains(args[0]) && args.len() >= 2 {
        law_no_value_iff_all_kept(args.skip(2), names);
        lemma_scan_len(args.skip(2), names);
    } else {
        law_no_value_iff_all_kept(args.drop_first(), names);
        assert(seq![args[0]] + args.drop_first() =~= args);
    }
}

proof fn lemma_scan_len(args: Seq<Seq<char>>, names: Seq<Seq<char>>)
    ensures
        flag_value_spec(args, names).1.len() <= args.len(),
    decreases args.len(),
{
    if args.len() == 0 {
    } else if names.contains(args[0]) && args.len() >= 2 {
        lemma_scan_len(args.skip(2), names);
    } else {
        lemma_scan_len(args.drop_first(), names);
    }
}

/// The subcommands of the command-line program.
#[derive(Debug, Clone, Copy, PartialEq, Eq, Structural)]
pub enum Command {
    Merge,
    Split,
    Compress,
    Encrypt,
    Decrypt,
    Watermark,
    ToImages,
    Info,
}

/// What the program was asked to do.
#[derive(Debug, PartialEq, Eq)]
pub enum Dispatch {
    /// Print the help text.
    Help,
    /// Print the program's version.
    Version,
    /// Run a subcommand on the arguments after its name.
    Run(Command),
    /// An unknown subcommand: report it, print the help text and fail.
    Unknown(String),
}

/// Why a subcommand's arguments were refused.
#[derive(Debug, PartialEq, Eq)]
pub enum CliError {
    /// The input file is missing: the subcommand's usage line is shown.
    Usage(Command),
    MissingOutput,
    MissingPassword,
    MissingStart,
    MissingEnd,
    /// `merge` was given an output but no input files.
    NoInputs,
    /// An argument starting with `-` that the subcommand does not know.
    UnknownOption(String),
}

/// The spec-level view of a dispatch decision.
pub open spec fn dispatch_view(d: Dispatch) -> (int, Option<Command>, Seq<char>) {
    match d {
        Dispatch::Help => (0, None, Seq::empty()),
        Dispatch::Version => (1, None, Seq::empty()),
        Dispatch::Run(c) => (2, Some(c), Seq::empty()),
        Dispatch::Unknown(s) => (3, None, s@),
    }
}

/// The subcommand named `name`, if any.
pub open spec fn command_named(name: Seq<char>) -> Option<Command> {
    if name == "merge"@ {
        Some(Command::Merge)
    } else if name == "split"@ {
        Some(Command::Split)
    } else if name == "compress"@ {
        Some(Command::Compress)
    } else if name == "encrypt"@ {
        Some(Command::Encrypt)
    } else if name == "decrypt"@ {
        Some(Command::Decrypt)
    } else if name == "watermark"@ {
        Some(Command::Watermark)
    } else if name == "to-images"@ {
        Some(Command::ToImages)
    } else if name == "info"@ {
        Some(Command::Info)
    } else {
        None
    }
}

/// What the program does with its whole argument list (`args[0]` being
/// the program name): help when no subcommand is given or on `-h`/`--help`,
/// the version on `-v`/`--version`, otherwise the named subcommand.
pub open spec fn dispatch_spec(args: Seq<Seq<char>>) -> (int, Option<Command>, Seq<char>) {
    if args.len() < 2 {
        (0, None, Seq::empty())
    } else if command_named(args[1]) is Some {
        (2, command_named(args[1]), Seq::empty())
    } else if args[1] == "-h"@ || args[1] == "--help"@ {
        (0, None, Seq::empty())
    } else if args[1] == "-v"@ || args[1] == "--version"@ {
        (1, None, Seq::empty())
    } else {
        (3, None, args[1])
    }
}

/// Decides what the program does with its argument list.
pub fn dispatch(args: &[String]) -> (d: Dispatch)
    ensures
        dispatch_view(d) == dispatch_spec(texts(args@)),
{
    if args.len() < 2 {
        return Dispatch::Help;
    }
    let a = args[1].as_str();
    assert(texts(args@)[1] == a@);
    let c = if same_text(a, "merge") {
        Some(Command::Merge)
    } else if same_text(a, "split") {
        Some(Command::Split)
    } else if same_text(a, "compress") {
        Some(Command::Compress)
    } else if same_text(a, "encrypt") {
        Some(Command::Encrypt)
    } else if same_text(a, "decrypt") {
        Some(Command::Decrypt)
    } else if same_text(a, "watermark") {
        Some(Command::Watermark)
    } else if same_text(a, "to-images") {
        Some(Command::ToImages)
    } else if same_text(a, "info") {
        Some(Command::Info)
    } else {
        None
    };
    match c {
        Some(cmd) => Dispatch::Run(cmd),
        None => {
            if same_text(a, "-h") || same_text(a, "--help") {
                Dispatch::Help
            } else if same_text(a, "-v") || same_text(a, "--version") {
                Dispatch::Version
            } else {
                Dispatch::Unknown(args[1].clone())
            }
        },
    }
}

/// The name a subcommand is called by.
pub open spec fn subcommand_name(c: Command) -> Seq<char> {
    match c {
        Command::Merge => "merge"@,
        Command::Split => "split"@,
        Command::Compress => "compress"@,
        Command::Encrypt => "encrypt"@,
        Command::Decrypt => "decrypt"@,
        Command::Watermark => "watermark"@,
        Command::ToImages => "to-images"@,
        Command::Info => "info"@,
    }
}

/// Law of subcommands: the second argument runs the subcommand of exactly
/// that name (`merge`, `split`, `compress`, `encrypt`, `decrypt`,
/// `watermark`, `to-images`, `info`), and a subcommand runs only when named;
/// no subcommand gives the help text, as do `-h` and `--help`, while `-v`
/// and `--version` give the version.
pub proof fn law_subcommand_names(args: Seq<Seq<char>>, c: Command)
    ensures
        args.len() >= 2 && args[1] == subcommand_name(c) ==> dispatch_spec(args) == (
            2int,
            Some(c),
            Seq::<char>::empty(),
        ),
        dispatch_spec(args).1 == Some(c) ==> args.len() >= 2 && args[1] == subcommand_name(c),
        dispatch_spec(args).0 == 2 <==> dispatch_spec(args).1 is Some,
        args.len() < 2 ==> dispatch_spec(args).0 == 0,
        args.len() >= 2 && (args[1] == "-h"@ || args[1] == "--help"@) ==> dispatch_spec(args).0 == 0,
        args.len() >= 2 && (args[1] == "-v"@ || args[1] == "--version"@) ==> dispatch_spec(args).0 == 1,
{
    reveal_strlit("merge");
    reveal_strlit("split");
    reveal_strlit("compress");
    reveal_strlit("encrypt");
    reveal_strlit("decrypt");
    reveal_strlit("watermark");
    reveal_strlit("to-images");
    reveal_strlit("info");
    reveal_strlit("-h");
    reveal_strlit("--help");
    reveal_strlit("-v");
    reveal_strlit("--version");
    if args.len() >= 2 {
        let a = args[1];
        if a.len() == 2 || a.len() == 6 {
            assert(command_named(a) is None);
        }
        if a == "-v"@ {
            assert(a[1] == 'v' && "-h"@[1] == 'h');
        }
        if a == "--version"@ {
            assert(a.len() == 9 && "--help"@.len() == 6);
            assert(a[2] == 'v');
            assert("watermark"@[2] == 't' && "to-images"@[2] == '-');
            assert(command_named(a) is None);
        }
        if a == subcommand_name(c) {
            match c {
                Command::Merge => {},
                Command::Split => {
                    assert(a[0] == 's');
                },
                Command::Compress => {},
                Command::Encrypt => {},
                Command::Decrypt => {
                    assert(a[0] == 'd');
                },
                Command::Watermark => {
                    assert(a[0] == 'w');
                },
                Command::ToImages => {
                    assert(a[0] == 't');
                },
                Command::Info => {},
            }
        }
    }
}

/// The index of the first option (a list of alternative names) that
/// `arg` names; the number of options when it names none.
pub open spec fn option_index(arg: Seq<char>, options: Seq<Seq<Seq<char>>>) -> nat
    decreases options.len(),
{
    if options.len() == 0 {
        0
    } else if options[0].contains(arg) {
        0
    } else {
        1 + option_index(arg, options.drop_first())
    }
}

/// `arg` begins with `-`.
pub open spec fn starts_with_dash(arg: Seq<char>) -> bool {
    arg.len() > 0 && arg[0] == '-'
}

/// What has been read so far: the last input seen and, for each option,
/// the argument after its last occurrence (`None` when it was never given
/// or stood last with nothing after it).
pub type ScanState = (Option<Seq<char>>, Seq<Option<Seq<char>>>);

/// Reading a subcommand's arguments from left to right: an argument naming
/// an option takes the next argument (if any) as that option's value; any
/// other argument not starting with `-` is the input; anything else is an
/// unknown option and stops the reading.
pub open spec fn scan_spec(args: Seq<Seq<char>>, options: Seq<Seq<Seq<char>>>, st: ScanState) -> Result<
    ScanState,
    Seq<char>,
>
    decreases args.len(),
{
    if args.len() == 0 {
        Ok(st)
    } else {
        let k = option_index(args[0], options);
        if k < options.len() {
            if args.len() >= 2 {
                scan_spec(args.skip(2), options, (st.0, st.1.update(k as int, Some(args[1]))))
            } else {
                Ok((st.0, st.1.update(k as int, None)))
            }
        } else if !starts_with_dash(args[0]) {
            scan_spec(args.drop_first(), options, (Some(args[0]), st.1))
        } else {
            Err(args[0])
        }
    }
}

/// Nothing read yet, for `n` options.
pub open spec fn empty_scan(n: nat) -> ScanState {
    (None, Seq::new(n, |i: int| None::<Seq<char>>))
}

/// The texts of a list of optional strings.
pub open spec fn opt_texts(v: Seq<Option<String>>) -> Seq<Option<Seq<char>>> {
    v.map_values(|o: Option<String>| opt_text(o))
}

/// The alternative names of each option.
pub open spec fn option_names(options: Seq<&[&str]>) -> Seq<Seq<Seq<char>>> {
    options.map_values(|names: &[&str]| str_texts(names@))
}

fn find_option(arg: &str, options: &[&[&str]]) -> (k: usize)
    ensures
        k == option_index(arg@, option_names(options@)),
{
    let mut k: usize = 0;
    assert(option_names(options@).skip(0) =~= option_names(options@));
    while k < options.len()
        invariant
            k <= options@.len(),
            option_index(arg@, option_names(options@)) == k + option_index(
                arg@,
                option_names(options@).skip(k as int),
            ),
        decreases options@.len() - k,
    {
        let ghost rest = option_names(options@).skip(k as int);
        assert(rest[0] == str_texts(options@[k as int]@));
        if is_one_of(arg, options[k]) {
            return k;
        }
        assert(rest.drop_first() =~= option_names(options@).skip(k + 1));
        k = k + 1;
    }
    assert(option_names(options@).skip(k as int) =~= Seq::<Seq<Seq<char>>>::empty());
    k
}

/// Reads a subcommand's arguments (see `scan_spec`): gives the last input
/// and each option's last value, or the first unknown option.
pub fn scan_options(args: &[String], options: &[&[&str]]) -> (r: Result<
    (Option<String>, Vec<Option<String>>),
    String,
>)
    ensures
        (match r {
            Ok((input, values)) => Ok((opt_text(input), opt_texts(values@))),
            Err(e) => Err(e@),
        }) == scan_spec(texts(args@), option_names(options@), empty_scan(options@.len())),
{
    let ghost all = texts(args@);
    let ghost opts = option_names(options@);
    let mut input: Option<String> = None;
    let mut values: Vec<Option<String>> = Vec::new();
    let mut j: usize = 0;
    while j < options.len()
        invariant
            j <= options@.len(),
            values@.len() == j,
            forall|m: int| 0 <= m < j ==> #[trigger] values@[m] is None,
        decreases options@.len() - j,
    {
        values.push(None);
        j = j + 1;
    }
    assert(opt_texts(values@) =~= empty_scan(options@.len()).1);
    assert(all.skip(0) =~= all);
    let mut i: usize = 0;
    while i < args.len()
        invariant
            all == texts(args@),
            opts == option_names(options@),
            i <= args@.len(),
            values@.len() == options@.len(),
            scan_spec(all, opts, empty_scan(options@.len())) == scan_spec(
                all.skip(i as int),
                opts,
                (opt_text(input), opt_texts(values@)),
            ),
        decreases args@.len() - i,
    {
        let ghost tail = all.skip(i as int);
        assert(tail[0] == args@[i as int]@);
        let arg = args[i].as_str();
        let k = find_option(arg, options);
        if k < options.len() {
            if i + 1 < args.len() {
                assert(tail[1] == args@[i + 1]@);
                assert(tail.skip(2) =~= all.skip(i + 2));
                let ghost before = opt_texts(values@);
                values.set(k, Some(args[i + 1].clone()));
                assert(opt_texts(values@) =~= before.update(k as int, Some(tail[1])));
                i = i + 2;
            } else {
                let ghost before = opt_texts(values@);
                values.set(k, None);
                assert(opt_texts(values@) =~= before.update(k as int, None));
                assert(all.skip(args@.len() as int) =~= Seq::<Seq<char>>::empty());
                return Ok((input, values));
            }
        } else {
            let dash = arg.unicode_len() > 0 && arg.get_char(0) == '-';
            if !dash {
                input = Some(args[i].clone());
                assert(tail.drop_first() =~= all.skip(i + 1));
                i = i + 1;
            } else {
                return Err(args[i].clone());
            }
        }
    }
    assert(all.skip(i as int) =~= Seq::<Seq<char>>::empty());
    Ok((input, values))
}

/// The text of an error a subcommand's argument reading ends with: an
/// unknown option's text, otherwise nothing.
pub open spec fn unknown_option_text(e: CliError) -> Option<Seq<char>> {
    match e {
        CliError::UnknownOption(s) => Some(s@),
        _ => None,
    }
}

/// Arguments of `encrypt`: `<in.pdf> -o <out.pdf> --password <pw>`.
pub struct EncryptArgs {
    pub input: String,
    pub output: String,
    pub password: String,
}

/// The options of `encrypt` and `decrypt`.
pub open spec fn password_options() -> Seq<Seq<Seq<char>>> {
    seq![seq!["-o"@, "--output"@], seq!["--password"@]]
}

/// What reading `encrypt`/`decrypt` arguments gives: the first unknown
/// option, else the first missing piece (input, output, password), else
/// the last value of each.
pub open spec fn password_args_spec(args: Seq<Seq<char>>, cmd: Command, r: Result<EncryptArgs, CliError>) -> bool {
    match scan_spec(args, password_options(), empty_scan(2)) {
        Err(u) => r is Err && unknown_option_text(r->Err_0) == Some(u),
        Ok(st) => if st.0 is None {
            r == Err::<EncryptArgs, CliError>(CliError::Usage(cmd))
        } else if st.1[0] is None {
            r == Err::<EncryptArgs, CliError>(CliError::MissingOutput)
        } else if st.1[1] is None {
            r == Err::<EncryptArgs, CliError>(CliError::MissingPassword)
        } else {
            &&& r is Ok
            &&& r->Ok_0.input@ == st.0->Some_0
            &&& r->Ok_0.output@ == st.1[0]->Some_0
            &&& r->Ok_0.password@ == st.1[1]->Some_0
        },
    }
}

fn scan_with(args: &[String], options: Vec<Vec<&str>>) -> (r: Result<
    (Option<String>, Vec<Option<String>>),
    CliError,
>)
    ensures
        match scan_spec(texts(args@), options@.map_values(|o: Vec<&str>| str_texts(o@)), empty_scan(options@.len())) {
            Err(u) => r is Err && unknown_option_text(r->Err_0) == Some(u),
            Ok(st) => r is Ok && opt_text(r->Ok_0.0) == st.0 && opt_texts(r->Ok_0.1@) == st.1,
        },
{
    let mut slices: Vec<&[&str]> = Vec::new();
    let mut k: usize = 0;
    while k < options.len()
        invariant
            k <= options@.len(),
            slices@.len() == k,
            forall|m: int| 0 <= m < k ==> #[trigger] slices@[m]@ == options@[m]@,
        decreases options@.len() - k,
    {
        slices.push(options[k].as_slice());
        k = k + 1;
    }
    assert(option_names(slices@) =~= options@.map_values(|o: Vec<&str>| str_texts(o@)));
    match scan_options(args, slices.as_slice()) {
        Ok(v) => Ok(v),
        Err(u) => Err(CliError::UnknownOption(u)),
    }
}

/// Reading arguments keeps one value per option.
proof fn lemma_scan_keeps_slots(args: Seq<Seq<char>>, options: Seq<Seq<Seq<char>>>, st: ScanState)
    requires
        st.1.len() == options.len(),
    ensures
        scan_spec(args, options, st) is Ok ==> scan_spec(args, options, st)->Ok_0.1.len()
            == st.1.len(),
    decreases args.len(),
{
    if args.len() > 0 {
        let k = option_index(args[0], options);
        if k < options.len() {
            if args.len() >= 2 {
                lemma_scan_keeps_slots(args.skip(2), options, (st.0, st.1.update(k as int, Some(args[1]))));
            }
        } else if !starts_with_dash(args[0]) {
            lemma_scan_keeps_slots(args.drop_first(), options, (Some(args[0]), st.1));
        }
    }
}

fn password_args(args: &[String], cmd: Command) -> (r: Result<EncryptArgs, CliError>)
    ensures
        password_args_spec(texts(args@), cmd, r),
{
    proof {
        lemma_scan_keeps_slots(texts(args@), password_options(), empty_scan(2));
    }
    let options = vec![vec!["-o", "--output"], vec!["--password"]];
    assert(options@.map_values(|o: Vec<&str>| str_texts(o@)) =~= password_options()) by {
        assert(str_texts(options@[0]@) =~= seq!["-o"@, "--output"@]);
        assert(str_texts(options@[1]@) =~= seq!["--password"@]);
    }
    let (input, mut values) = match scan_with(args, options) {
        Ok(v) => v,
        Err(e) => {
            return Err(e);
        },
    };
    let password = values.pop().unwrap();
    let output = values.pop().unwrap();
    let input = match input {
        Some(i) => i,
        None => {
            return Err(CliError::Usage(cmd));
        },
    };
    let output = match output {
        Some(o) => o,
        None => {
            return Err(CliError::MissingOutput);
        },
    };
    let password = match password {
        Some(p) => p,
        None => {
            return Err(CliError::MissingPassword);
        },
    };
    Ok(EncryptArgs { input, output, password })
}

/// Reads the arguments of `encrypt`.
pub fn parse_encrypt_args(args: &[String]) -> (r: Result<EncryptArgs, CliError>)
    ensures
        password_args_spec(texts(args@), Command::Encrypt, r),
{
    password_args(args, Command::Encrypt)
}

/// Reads the arguments of `decrypt` (the same shape as `encrypt`'s).
pub fn parse_decrypt_args(args: &[String]) -> (r: Result<EncryptArgs, CliError>)
    ensures
        password_args_spec(texts(args@), Command::Decrypt, r),
{
    password_args(args, Command::Decrypt)
}

/// A page number read from an option's value, if the value is one.
pub open spec fn opt_number(o: Option<Seq<char>>) -> Option<u32> {
    match o {
        Some(t) => parse_u32_spec(t),
        None => None,
    }
}

fn read_number(o: Option<String>) -> (r: Option<u32>)
    ensures
        r == opt_number(opt_text(o)),
{
    match o {
        Some(t) => parse_u32(t.as_str()),
        None => None,
    }
}

/// Arguments of `split`: `<in.pdf> --start N --end M -o <out.pdf>`.
pub struct SplitArgs {
    pub input: String,
    pub output: String,
    pub start: u32,
    pub end: u32,
}

/// The options of `split`.
pub open spec fn split_options() -> Seq<Seq<Seq<char>>> {
    seq![seq!["-o"@, "--output"@], seq!["--start"@], seq!["--end"@]]
}

/// What reading `split` arguments gives; a page number that is not a
/// number counts as missing.
pub open spec fn split_args_spec(args: Seq<Seq<char>>, r: Result<SplitArgs, CliError>) -> bool {
    match scan_spec(args, split_options(), empty_scan(3)) {
        Err(u) => r is Err && unknown_option_text(r->Err_0) == Some(u),
        Ok(st) => if st.0 is None {
            r == Err::<SplitArgs, CliError>(CliError::Usage(Command::Split))
        } else if st.1[0] is None {
            r == Err::<SplitArgs, CliError>(CliError::MissingOutput)
        } else if opt_number(st.1[1]) is None {
            r == Err::<SplitArgs, CliError>(CliError::MissingStart)
        } else if opt_number(st.1[2]) is None {
            r == Err::<SplitArgs, CliError>(CliError::MissingEnd)
        } else {
            &&& r is Ok
            &&& r->Ok_0.input@ == st.0->Some_0
            &&& r->Ok_0.output@ == st.1[0]->Some_0
            &&& Some(r->Ok_0.start) == opt_number(st.1[1])
            &&& Some(r->Ok_0.end) == opt_number(st.1[2])
        },
    }
}

/// Reads the arguments of `split`.
pub fn parse_split_args(args: &[String]) -> (r: Result<SplitArgs, CliError>)
    ensures
        split_args_spec(texts(args@), r),
{
    proof {
        lemma_scan_keeps_slots(texts(args@), split_options(), empty_scan(3));
    }
    let options = vec![vec!["-o", "--output"], vec!["--start"], vec!["--end"]];
    assert(options@.map_values(|o: Vec<&str>| str_texts(o@)) =~= split_options()) by {
        assert(str_texts(options@[0]@) =~= seq!["-o"@, "--output"@]);
        assert(str_texts(options@[1]@) =~= seq!["--start"@]);
        assert(str_texts(options@[2]@) =~= seq!["--end"@]);
    }
    let (input, mut values) = match scan_with(args, options) {
        Ok(v) => v,
        Err(e) => {
            return Err(e);
        },
    };
    let end = read_number(values.pop().unwrap());
    let start = read_number(values.pop().unwrap());
    let output = values.pop().unwrap();
    let input = match input {
        Some(i) => i,
        None => {
            return Err(CliError::Usage(Command::Split));
        },
    };
    let output = match output {
        Some(o) => o,
        None => {
            return Err(CliError::MissingOutput);
        },
    };
    let start = match start {
        Some(p) => p,
        None => {
            return Err(CliError::MissingStart);
        },
    };
    let end = match end {
        Some(p) => p,
        None => {
            return Err(CliError::MissingEnd);
        },
    };
    Ok(SplitArgs { input, output, start, end })
}

/// Arguments of `to-images`: `<in.pdf> [-o <dir>] [--dpi N]`.
pub struct ToImagesArgs {
    pub input: String,
    pub output_dir: Option<String>,
    pub dpi: u32,
}

/// The options of `to-images`.
pub open spec fn to_images_options() -> Seq<Seq<Seq<char>>> {
    seq![seq!["-o"@, "--output"@], seq!["--dpi"@]]
}

/// The resolution `to-images` uses when none (or no number) is given.
pub const DEFAULT_DPI: u32 = 150;

/// What reading `to-images` arguments gives; the resolution falls back to
/// 150 dpi.
pub open spec fn to_images_args_spec(args: Seq<Seq<char>>, r: Result<ToImagesArgs, CliError>) -> bool {
    match scan_spec(args, to_images_options(), empty_scan(2)) {
        Err(u) => r is Err && unknown_option_text(r->Err_0) == Some(u),
        Ok(st) => if st.0 is None {
            r == Err::<ToImagesArgs, CliError>(CliError::Usage(Command::ToImages))
        } else {
            &&& r is Ok
            &&& r->Ok_0.input@ == st.0->Some_0
            &&& opt_text(r->Ok_0.output_dir) == st.1[0]
            &&& r->Ok_0.dpi == (match opt_number(st.1[1]) {
                Some(d) => d,
                None => DEFAULT_DPI,
            })
        },
    }
}

/// Reads the arguments of `to-images`.
pub fn parse_to_images_args(args: &[String]) -> (r: Result<ToImagesArgs, CliError>)
    ensures
        to_images_args_spec(texts(args@), r),
{
    proof {
        lemma_scan_keeps_slots(texts(args@), to_images_options(), empty_scan(2));
    }
    let options = vec![vec!["-o", "--output"], vec!["--dpi"]];
    assert(options@.map_values(|o: Vec<&str>| str_texts(o@)) =~= to_images_options()) by {
        assert(str_texts(options@[0]@) =~= seq!["-o"@, "--output"@]);
        assert(str_texts(options@[1]@) =~= seq!["--dpi"@]);
    }
    let (input, mut values) = match scan_with(args, options) {
        Ok(v) => v,
        Err(e) => {
            return Err(e);
        },
    };
    let dpi = match read_number(values.pop().unwrap()) {
        Some(d) => d,
        None => DEFAULT_DPI,
    };
    let output_dir = values.pop().unwrap();
    match input {
        Some(input) => Ok(ToImagesArgs { input, output_dir, dpi }),
        None => Err(CliError::Usage(Command::ToImages)),
    }
}

/// Arguments of `watermark`: `<in.pdf> -o <out.pdf> [--text T]
/// [--font-size S] [--opacity O]`. Font size and opacity are kept as
/// given; reading them as numbers is left to the caller.
pub struct WatermarkArgs {
    pub input: String,
    pub output: String,
    pub text: String,
    pub font_size: Option<String>,
    pub opacity: Option<String>,
}

/// The options of `watermark`.
pub open spec fn watermark_options() -> Seq<Seq<Seq<char>>> {
    seq![seq!["-o"@, "--output"@], seq!["--text"@], seq!["--font-size"@], seq!["--opacity"@]]
}

/// What reading `watermark` arguments gives; the text falls back to
/// `WATERMARK`.
pub open spec fn watermark_args_spec(args: Seq<Seq<char>>, r: Result<WatermarkArgs, CliError>) -> bool {
    match scan_spec(args, watermark_options(), empty_scan(4)) {
        Err(u) => r is Err && unknown_option_text(r->Err_0) == Some(u),
        Ok(st) => if st.0 is None {
            r == Err::<WatermarkArgs, CliError>(CliError::Usage(Command::Watermark))
        } else if st.1[0] is None {
            r == Err::<WatermarkArgs, CliError>(CliError::MissingOutput)
        } else {
            &&& r is Ok
            &&& r->Ok_0.input@ == st.0->Some_0
            &&& r->Ok_0.output@ == st.1[0]->Some_0
            &&& r->Ok_0.text@ == (match st.1[1] {
                Some(t) => t,
                None => "WATERMARK"@,
            })
            &&& opt_text(r->Ok_0.font_size) == st.1[2]
            &&& opt_text(r->Ok_0.opacity) == st.1[3]
        },
    }
}

/// Reads the arguments of `watermark`.
pub fn parse_watermark_args(args: &[String]) -> (r: Result<WatermarkArgs, CliError>)
    ensures
        watermark_args_spec(texts(args@), r),
{
    proof {
        lemma_scan_keeps_slots(texts(args@), watermark_options(), empty_scan(4));
    }
    let options = vec![vec!["-o", "--output"], vec!["--text"], vec!["--font-size"], vec!["--opacity"]];
    assert(options@.map_values(|o: Vec<&str>| str_texts(o@)) =~= watermark_options()) by {
        assert(str_texts(options@[0]@) =~= seq!["-o"@, "--output"@]);
        assert(str_texts(options@[1]@) =~= seq!["--text"@]);
        assert(str_texts(options@[2]@) =~= seq!["--font-size"@]);
        assert(str_texts(options@[3]@) =~= seq!["--opacity"@]);
    }
    let (input, mut values) = match scan_with(args, options) {
        Ok(v) => v,
        Err(e) => {
            return Err(e);
        },
    };
    let opacity = values.pop().unwrap();
    let font_size = values.pop().unwrap();
    let text = values.pop().unwrap();
    let output = values.pop().unwrap();
    let input = match input {
        Some(i) => i,
        None => {
            return Err(CliError::Usage(Command::Watermark));
        },
    };
    let output = match output {
        Some(o) => o,
        None => {
            return Err(CliError::MissingOutput);
        },
    };
    let text = match text {
        Some(t) => t,
        None => String::from_str("WATERMARK"),
    };
    Ok(WatermarkArgs { input, output, text, font_size, opacity })
}

/// Arguments of `compress`: `<in.pdf> -o <out.pdf>`.
pub struct CompressArgs {
    pub input: String,
    pub output: String,
}

/// The options of `compress`.
pub open spec fn compress_options() -> Seq<Seq<Seq<char>>> {
    seq![seq!["-o"@, "--output"@]]
}

/// What reading `compress` arguments gives.
pub open spec fn compress_args_spec(args: Seq<Seq<char>>, r: Result<CompressArgs, CliError>) -> bool {
    match scan_spec(args, compress_options(), empty_scan(1)) {
        Err(u) => r is Err && unknown_option_text(r->Err_0) == Some(u),
        Ok(st) => if st.0 is None {
            r == Err::<CompressArgs, CliError>(CliError::Usage(Command::Compress))
        } else if st.1[0] is None {
            r == Err::<CompressArgs, CliError>(CliError::MissingOutput)
        } else {
            &&& r is Ok
            &&& r->Ok_0.input@ == st.0->Some_0
            &&& r->Ok_0.output@ == st.1[0]->Some_0
        },
    }
}

/// Reads the arguments of `compress`.
pub fn parse_compress_args(args: &[String]) -> (r: Result<CompressArgs, CliError>)
    ensures
        compress_args_spec(texts(args@), r),
{
    proof {
        lemma_scan_keeps_slots(texts(args@), compress_options(), empty_scan(1));
    }
    let options = vec![vec!["-o", "--output"]];
    assert(options@.map_values(|o: Vec<&str>| str_texts(o@)) =~= compress_options()) by {
        assert(str_texts(options@[0]@) =~= seq!["-o"@, "--output"@]);
    }
    let (input, mut values) = match scan_with(args, options) {
        Ok(v) => v,
        Err(e) => {
            return Err(e);
        },
    };
    let output = values.pop().unwrap();
    let input = match input {
        Some(i) => i,
        None => {
            return Err(CliError::Usage(Command::Compress));
        },
    };
    match output {
        Some(output) => Ok(CompressArgs { input, output }),
        None => Err(CliError::MissingOutput),
    }
}

/// Reads the argument of `info`: its first argument is the input file.
pub fn parse_info_args(args: &[String]) -> (r: Result<String, CliError>)
    ensures
        args@.len() == 0 ==> r == Err::<String, CliError>(CliError::Usage(Command::Info)),
        args@.len() > 0 ==> (r is Ok && r->Ok_0@ == args@[0]@),
{
    if args.len() == 0 {
        return Err(CliError::Usage(Command::Info));
    }
    Ok(args[0].clone())
}

/// Arguments of `merge`: `<in1.pdf> <in2.pdf> ... -o <out.pdf>`.
pub struct MergeArgs {
    pub inputs: Vec<String>,
    pub output: String,
}

/// The output flag names.
pub open spec fn output_flags() -> Seq<Seq<char>> {
    seq!["-o"@, "--output"@]
}

/// What reading `merge` arguments gives: the output is taken out as in
/// `take_flag_value`, every other argument is an input, in order.
pub open spec fn merge_args_spec(args: Seq<Seq<char>>, r: Result<MergeArgs, CliError>) -> bool {
    let (v, rest) = flag_value_spec(args, output_flags());
    if args.len() == 0 {
        r == Err::<MergeArgs, CliError>(CliError::Usage(Command::Merge))
    } else if v is None {
        r == Err::<MergeArgs, CliError>(CliError::MissingOutput)
    } else if rest.len() == 0 {
        r == Err::<MergeArgs, CliError>(CliError::NoInputs)
    } else {
        &&& r is Ok
        &&& r->Ok_0.output@ == v->Some_0
        &&& texts(r->Ok_0.inputs@) == rest
    }
}

/// Reads the arguments of `merge`.
pub fn parse_merge_args(args: &[String]) -> (r: Result<MergeArgs, CliError>)
    ensures
        merge_args_spec(texts(args@), r),
{
    if args.len() == 0 {
        return Err(CliError::Usage(Command::Merge));
    }
    let names = vec!["-o", "--output"];
    assert(str_texts(names@) =~= output_flags());
    let (output, inputs) = take_flag_value(args, names.as_slice());
    let output = match output {
        Some(o) => o,
        None => {
            return Err(CliError::MissingOutput);
        },
    };
    if inputs.len() == 0 {
        return Err(CliError::NoInputs);
    }
    Ok(MergeArgs { inputs, output })
}

/// Every name of every option begins with `-`.
pub open spec fn dashed_options(options: Seq<Seq<Seq<char>>>) -> bool {
    forall|k: int, j: int|
        0 <= k < options.len() && 0 <= j < options[k].len() ==> starts_with_dash(
            #[trigger] options[k][j],
        )
}

proof fn lemma_plain_is_no_option(x: Seq<char>, options: Seq<Seq<Seq<char>>>)
    requires
        !starts_with_dash(x),
        dashed_options(options),
    ensures
        option_index(x, options) == options.len(),
    decreases options.len(),
{
    if options.len() > 0 {
        if options[0].contains(x) {
            let j = choose|j: int| 0 <= j < options[0].len() && options[0][j] == x;
            assert(starts_with_dash(options[0][j]));
        }
        let rest = options.drop_first();
        assert forall|k: int, j: int| 0 <= k < rest.len() && 0 <= j < rest[k].len() implies starts_with_dash(
            #[trigger] rest[k][j],
        ) by {
            assert(rest[k] == options[k + 1]);
        }
        lemma_plain_is_no_option(x, rest);
    }
}

proof fn lemma_scan_input(x: Seq<char>, rest: Seq<Seq<char>>, options: Seq<Seq<Seq<char>>>, st: ScanState)
    requires
        !starts_with_dash(x),
        dashed_options(options),
    ensures
        scan_spec(seq![x] + rest, options, st) == scan_spec(rest, options, (Some(x), st.1)),
{
    lemma_plain_is_no_option(x, options);
    assert((seq![x] + rest).drop_first() =~= rest);
}

proof fn lemma_scan_option(
    f: Seq<char>,
    v: Seq<char>,
    rest: Seq<Seq<char>>,
    options: Seq<Seq<Seq<char>>>,
    st: ScanState,
    k: int,
)
    requires
        0 <= k < options.len(),
        option_index(f, options) == k,
    ensures
        scan_spec(seq![f, v] + rest, options, st) == scan_spec(
            rest,
            options,
            (st.0, st.1.update(k, Some(v))),
        ),
{
    assert((seq![f, v] + rest).skip(2) =~= rest);
}

proof fn lemma_index_of_first(f: Seq<char>, options: Seq<Seq<Seq<char>>>)
    requires
        options.len() > 0,
        options[0].contains(f),
    ensures
        option_index(f, options) == 0,
{
}

proof fn lemma_index_of_later(f: Seq<char>, options: Seq<Seq<Seq<char>>>, k: int)
    requires
        0 < k < options.len(),
        !options[0].contains(f),
        option_index(f, options.drop_first()) == k - 1,
    ensures
        option_index(f, options) == k,
{
}

/// Law of `compress` arguments: `<in> -o <out>` and `<in> --output <out>`
/// both read as input `<in>` and output `<out>`.
pub proof fn law_compress_arguments(
    x: Seq<char>,
    flag: Seq<char>,
    y: Seq<char>,
    r: Result<CompressArgs, CliError>,
)
    requires
        !starts_with_dash(x),
        flag == "-o"@ || flag == "--output"@,
        compress_args_spec(seq![x, flag, y], r),
    ensures
        r is Ok,
        r->Ok_0.input@ == x,
        r->Ok_0.output@ == y,
{
    reveal_strlit("-o");
    reveal_strlit("--output");
    let opts = compress_options();
    assert(dashed_options(opts)) by {
        assert(starts_with_dash(opts[0][0]) && starts_with_dash(opts[0][1]));
    }
    if flag == "-o"@ {
        assert(opts[0][0] == flag);
    } else {
        assert(opts[0][1] == flag);
    }
    lemma_index_of_first(flag, opts);
    let st0 = empty_scan(1);
    lemma_scan_input(x, seq![flag, y], opts, st0);
    assert(seq![x] + seq![flag, y] =~= seq![x, flag, y]);
    lemma_scan_option(flag, y, Seq::empty(), opts, (Some(x), st0.1), 0);
    assert(seq![flag, y] + Seq::<Seq<char>>::empty() =~= seq![flag, y]);
}

/// Law of `encrypt` and `decrypt` arguments:
/// `<in> -o <out> --password <pw>` (or with `--output`) reads as input
/// `<in>`, output `<out>` and password `<pw>`.
pub proof fn law_password_arguments(
    x: Seq<char>,
    flag: Seq<char>,
    y: Seq<char>,
    pw: Seq<char>,
    cmd: Command,
    r: Result<EncryptArgs, CliError>,
)
    requires
        !starts_with_dash(x),
        flag == "-o"@ || flag == "--output"@,
        password_args_spec(seq![x, flag, y, "--password"@, pw], cmd, r),
    ensures
        r is Ok,
        r->Ok_0.input@ == x,
        r->Ok_0.output@ == y,
        r->Ok_0.password@ == pw,
{
    reveal_strlit("-o");
    reveal_strlit("--output");
    reveal_strlit("--password");
    let opts = password_options();
    assert(dashed_options(opts)) by {
        assert(starts_with_dash(opts[0][0]) && starts_with_dash(opts[0][1]));
        assert(starts_with_dash(opts[1][0]));
    }
    if flag == "-o"@ {
        assert(opts[0][0] == flag);
    } else {
        assert(opts[0][1] == flag);
    }
    lemma_index_of_first(flag, opts);
    let p = "--password"@;
    assert(!opts[0].contains(p)) by {
        if opts[0].contains(p) {
            let j = choose|j: int| 0 <= j < opts[0].len() && opts[0][j] == p;
            assert(opts[0][j].len() != p.len());
        }
    }
    assert(opts.drop_first()[0][0] == p);
    lemma_index_of_first(p, opts.drop_first());
    lemma_index_of_later(p, opts, 1);
    let st0 = empty_scan(2);
    let tail = seq![flag, y, p, pw];
    lemma_scan_input(x, tail, opts, st0);
    assert(seq![x] + tail =~= seq![x, flag, y, p, pw]);
    let st1 = (Some(x), st0.1);
    lemma_scan_option(flag, y, seq![p, pw], opts, st1, 0);
    assert(seq![flag, y] + seq![p, pw] =~= tail);
    let st2 = (Some(x), st1.1.update(0, Some(y)));
    lemma_scan_option(p, pw, Seq::empty(), opts, st2, 1);
    assert(seq![p, pw] + Seq::<Seq<char>>::empty() =~= seq![p, pw]);
}

/// Law of `split` arguments: `<in> --start <a> --end <b> -o <out>` (or
/// with `--output`), where `<a>` and `<b>` are numbers, reads as input
/// `<in>`, output `<out>` and the pages `<a>` to `<b>`.
pub proof fn law_split_arguments(
    x: Seq<char>,
    a: Seq<char>,
    b: Seq<char>,
    flag: Seq<char>,
    y: Seq<char>,
    r: Result<SplitArgs, CliError>,
)
    requires
        !starts_with_dash(x),
        flag == "-o"@ || flag == "--output"@,
        parse_u32_spec(a) is Some,
        parse_u32_spec(b) is Some,
        split_args_spec(seq![x, "--start"@, a, "--end"@, b, flag, y], r),
    ensures
        r is Ok,
        r->Ok_0.input@ == x,
        r->Ok_0.output@ == y,
        Some(r->Ok_0.start) == parse_u32_spec(a),
        Some(r->Ok_0.end) == parse_u32_spec(b),
{
    reveal_strlit("-o");
    reveal_strlit("--output");
    reveal_strlit("--start");
    reveal_strlit("--end");
    let opts = split_options();
    let s = "--start"@;
    let e = "--end"@;
    assert(dashed_options(opts)) by {
        assert(starts_with_dash(opts[0][0]) && starts_with_dash(opts[0][1]));
        assert(starts_with_dash(opts[1][0]) && starts_with_dash(opts[2][0]));
    }
    if flag == "-o"@ {
        assert(opts[0][0] == flag);
    } else {
        assert(opts[0][1] == flag);
    }
    lemma_index_of_first(flag, opts);
    assert(!opts[0].contains(s)) by {
        if opts[0].contains(s) {
            let j = choose|j: int| 0 <= j < opts[0].len() && opts[0][j] == s;
            assert(opts[0][j].len() != s.len() || opts[0][j][2] != s[2]);
        }
    }
    assert(opts.drop_first()[0][0] == s);
    lemma_index_of_first(s, opts.drop_first());
    lemma_index_of_later(s, opts, 1);
    assert(!opts[0].contains(e)) by {
        if opts[0].contains(e) {
            let j = choose|j: int| 0 <= j < opts[0].len() && opts[0][j] == e;
            assert(opts[0][j].len() != e.len());
        }
    }
    assert(!opts.drop_first()[0].contains(e)) by {
        if opts.drop_first()[0].contains(e) {
            let j = choose|j: int| 0 <= j < opts.drop_first()[0].len() && opts.drop_first()[0][j] == e;
            assert(opts.drop_first()[0][j].len() != e.len());
        }
    }
    assert(opts.drop_first().drop_first()[0][0] == e);
    lemma_index_of_first(e, opts.drop_first().drop_first());
    lemma_index_of_later(e, opts.drop_first(), 1);
    lemma_index_of_later(e, opts, 2);
    let st0 = empty_scan(3);
    let t1 = seq![s, a, e, b, flag, y];
    lemma_scan_input(x, t1, opts, st0);
    assert(seq![x] + t1 =~= seq![x, s, a, e, b, flag, y]);
    let st1 = (Some(x), st0.1);
    let t2 = seq![e, b, flag, y];
    lemma_scan_option(s, a, t2, opts, st1, 1);
    assert(seq![s, a] + t2 =~= t1);
    let st2 = (Some(x), st1.1.update(1, Some(a)));
    let t3 = seq![flag, y];
    lemma_scan_option(e, b, t3, opts, st2, 2);
    assert(seq![e, b] + t3 =~= t2);
    let st3 = (Some(x), st2.1.update(2, Some(b)));
    lemma_scan_option(flag, y, Seq::empty(), opts, st3, 0);
    assert(seq![flag, y] + Seq::<Seq<char>>::empty() =~= t3);
}

/// Law of `to-images` arguments: `<in>` alone reads as input `<in>`, no
/// output directory and 150 dpi; `<in> -o <dir>` (or with `--output`)
/// names the output directory `<dir>`.
pub proof fn law_to_images_arguments(
    x: Seq<char>,
    flag: Seq<char>,
    d: Seq<char>,
    r1: Result<ToImagesArgs, CliError>,
    r2: Result<ToImagesArgs, CliError>,
)
    requires
        !starts_with_dash(x),
        flag == "-o"@ || flag == "--output"@,
        to_images_args_spec(seq![x], r1),
        to_images_args_spec(seq![x, flag, d], r2),
    ensures
        r1 is Ok,
        r1->Ok_0.input@ == x,
        r1->Ok_0.output_dir is None,
        r1->Ok_0.dpi == 150,
        r2 is Ok,
        r2->Ok_0.input@ == x,
        opt_text(r2->Ok_0.output_dir) == Some(d),
        r2->Ok_0.dpi == 150,
{
    reveal_strlit("-o");
    reveal_strlit("--output");
    reveal_strlit("--dpi");
    let opts = to_images_options();
    assert(dashed_options(opts)) by {
        assert(starts_with_dash(opts[0][0]) && starts_with_dash(opts[0][1]));
        assert(starts_with_dash(opts[1][0]));
    }
    if flag == "-o"@ {
        assert(opts[0][0] == flag);
    } else {
        assert(opts[0][1] == flag);
    }
    lemma_index_of_first(flag, opts);
    let st0 = empty_scan(2);
    lemma_scan_input(x, Seq::empty(), opts, st0);
    assert(seq![x] + Seq::<Seq<char>>::empty() =~= seq![x]);
    assert(st0.1[0] is None && st0.1[1] is None);
    lemma_scan_input(x, seq![flag, d], opts, st0);
    assert(seq![x] + seq![flag, d] =~= seq![x, flag, d]);
    lemma_scan_option(flag, d, Seq::empty(), opts, (Some(x), st0.1), 0);
    assert(seq![flag, d] + Seq::<Seq<char>>::empty() =~= seq![flag, d]);
}

/// Law of `watermark` arguments: `<in> -o <out>` (or with `--output`)
/// reads as input `<in>`, output `<out>`, the text `WATERMARK` and no font
/// size or opacity; adding `--text <t>` sets the text to `<t>`.
pub proof fn law_watermark_arguments(
    x: Seq<char>,
    flag: Seq<char>,
    y: Seq<char>,
    t: Seq<char>,
    r1: Result<WatermarkArgs, CliError>,
    r2: Result<WatermarkArgs, CliError>,
)
    requires
        !starts_with_dash(x),
        flag == "-o"@ || flag == "--output"@,
        watermark_args_spec(seq![x, flag, y], r1),
        watermark_args_spec(seq![x, flag, y, "--text"@, t], r2),
    ensures
        r1 is Ok,
        r1->Ok_0.input@ == x,
        r1->Ok_0.output@ == y,
        r1->Ok_0.text@ == "WATERMARK"@,
        r1->Ok_0.font_size is None,
        r1->Ok_0.opacity is None,
        r2 is Ok,
        r2->Ok_0.input@ == x,
        r2->Ok_0.output@ == y,
        r2->Ok_0.text@ == t,
{
    reveal_strlit("-o");
    reveal_strlit("--output");
    reveal_strlit("--text");
    reveal_strlit("--font-size");
    reveal_strlit("--opacity");
    let opts = watermark_options();
    let tx = "--text"@;
    assert(dashed_options(opts)) by {
        assert(starts_with_dash(opts[0][0]) && starts_with_dash(opts[0][1]));
        assert(starts_with_dash(opts[1][0]) && starts_with_dash(opts[2][0]) && starts_with_dash(
            opts[3][0],
        ));
    }
    if flag == "-o"@ {
        assert(opts[0][0] == flag);
    } else {
        assert(opts[0][1] == flag);
    }
    lemma_index_of_first(flag, opts);
    assert(!opts[0].contains(tx)) by {
        if opts[0].contains(tx) {
            let j = choose|j: int| 0 <= j < opts[0].len() && opts[0][j] == tx;
            assert(opts[0][j].len() != tx.len() || opts[0][j][2] != tx[2]);
        }
    }
    assert(opts.drop_first()[0][0] == tx);
    lemma_index_of_first(tx, opts.drop_first());
    lemma_index_of_later(tx, opts, 1);
    let st0 = empty_scan(4);
    lemma_scan_input(x, seq![flag, y], opts, st0);
    assert(seq![x] + seq![flag, y] =~= seq![x, flag, y]);
    lemma_scan_option(flag, y, Seq::empty(), opts, (Some(x), st0.1), 0);
    assert(seq![flag, y] + Seq::<Seq<char>>::empty() =~= seq![flag, y]);
    let tail = seq![flag, y, tx, t];
    lemma_scan_input(x, tail, opts, st0);
    assert(seq![x] + tail =~= seq![x, flag, y, tx, t]);
    lemma_scan_option(flag, y, seq![tx, t], opts, (Some(x), st0.1), 0);
    assert(seq![flag, y] + seq![tx, t] =~= tail);
    let st2 = (Some(x), st0.1.update(0, Some(y)));
    lemma_scan_option(tx, t, Seq::empty(), opts, st2, 1);
    assert(seq![tx, t] + Seq::<Seq<char>>::empty() =~= seq![tx, t]);
}

proof fn lemma_flag_after_inputs(xs: Seq<Seq<char>>, flag: Seq<char>, m: Seq<char>, names: Seq<Seq<char>>)
    requires
        names.contains(flag),
        forall|i: int| 0 <= i < xs.len() ==> !names.contains(#[trigger] xs[i]),
    ensures
        flag_value_spec(xs + seq![flag, m], names) == (Some(m), xs),
    decreases xs.len(),
{
    let all = xs + seq![flag, m];
    if xs.len() == 0 {
        assert(all =~= seq![flag, m]);
        assert(all[0] == flag && all[1] == m);
        assert(all.skip(2) =~= Seq::<Seq<char>>::empty());
        assert(flag_value_spec(all.skip(2), names) == (None::<Seq<char>>, Seq::<Seq<char>>::empty()));
        assert(Seq::<Seq<char>>::empty() + Seq::<Seq<char>>::empty() =~= xs);
    } else {
        let rest = xs.drop_first();
        assert forall|i: int| 0 <= i < rest.len() implies !names.contains(#[trigger] rest[i]) by {
            assert(rest[i] == xs[i + 1]);
        }
        lemma_flag_after_inputs(rest, flag, m, names);
        assert(all[0] == xs[0]);
        assert(!names.contains(all[0]));
        assert(all.drop_first() =~= rest + seq![flag, m]);
        assert(flag_value_spec(all.drop_first(), names) == (Some(m), rest));
        assert(seq![xs[0]] + rest =~= xs);
    }
}

/// Law of `merge` arguments: input files followed by `-o <out>` (or
/// `--output <out>`) read as those inputs, in order, and the output
/// `<out>`.
pub proof fn law_merge_arguments(
    xs: Seq<Seq<char>>,
    flag: Seq<char>,
    m: Seq<char>,
    r: Result<MergeArgs, CliError>,
)
    requires
        xs.len() > 0,
        forall|i: int| 0 <= i < xs.len() ==> !starts_with_dash(#[trigger] xs[i]),
        flag == "-o"@ || flag == "--output"@,
        merge_args_spec(xs + seq![flag, m], r),
    ensures
        r is Ok,
        texts(r->Ok_0.inputs@) == xs,
        r->Ok_0.output@ == m,
{
    reveal_strlit("-o");
    reveal_strlit("--output");
    let names = output_flags();
    if flag == "-o"@ {
        assert(names[0] == flag);
    } else {
        assert(names[1] == flag);
    }
    assert forall|i: int| 0 <= i < xs.len() implies !names.contains(#[trigger] xs[i]) by {
        if names.contains(xs[i]) {
            let j = choose|j: int| 0 <= j < names.len() && names[j] == xs[i];
            assert(starts_with_dash(names[j]));
        }
    }
    lemma_flag_after_inputs(xs, flag, m, names);
    assert((xs + seq![flag, m]).len() > 0);
}

/// The usage line shown when a subcommand is given no input file.
pub open spec fn usage_text(c: Command) -> Seq<char> {
    match c {
        Command::Merge => "Usage: ohpdf-cli merge <in1.pdf> <in2.pdf> ... -o <out.pdf>"@,
        Command::Split => "Usage: ohpdf-cli split <in.pdf> --start N --end M -o <out.pdf>"@,
        Command::Compress => "Usage: ohpdf-cli compress <in.pdf> -o <out.pdf>"@,
        Command::Encrypt => "Usage: ohpdf-cli encrypt <in.pdf> -o <out.pdf> --password <pw>"@,
        Command::Decrypt => "Usage: ohpdf-cli decrypt <in.pdf> -o <out.pdf> --password <pw>"@,
        Command::Watermark => "Usage: ohpdf-cli watermark <in.pdf> -o <out.pdf> --text \"DRAFT\""@,
        Command::ToImages => "Usage: ohpdf-cli to-images <in.pdf> [-o <dir>] [--dpi N]"@,
        Command::Info => "Usage: ohpdf-cli info <in.pdf>"@,
    }
}

/// The message shown for an argument error.
pub open spec fn cli_error_text(e: CliError) -> Seq<char> {
    match e {
        CliError::Usage(c) => usage_text(c),
        CliError::MissingOutput => "Missing -o/--output <path>"@,
        CliError::MissingPassword => "Missing --password <pw>"@,
        CliError::MissingStart => "Missing --start <page>"@,
        CliError::MissingEnd => "Missing --end <page>"@,
        CliError::NoInputs => "No input PDFs given."@,
        CliError::UnknownOption(a) => "Unknown option: "@ + a@,
    }
}

fn usage_line(c: Command) -> (r: &'static str)
    ensures
        r@ == usage_text(c),
{
    match c {
        Command::Merge => "Usage: ohpdf-cli merge <in1.pdf> <in2.pdf> ... -o <out.pdf>",
        Command::Split => "Usage: ohpdf-cli split <in.pdf> --start N --end M -o <out.pdf>",
        Command::Compress => "Usage: ohpdf-cli compress <in.pdf> -o <out.pdf>",
        Command::Encrypt => "Usage: ohpdf-cli encrypt <in.pdf> -o <out.pdf> --password <pw>",
        Command::Decrypt => "Usage: ohpdf-cli decrypt <in.pdf> -o <out.pdf> --password <pw>",
        Command::Watermark => "Usage: ohpdf-cli watermark <in.pdf> -o <out.pdf> --text \"DRAFT\"",
        Command::ToImages => "Usage: ohpdf-cli to-images <in.pdf> [-o <dir>] [--dpi N]",
        Command::Info => "Usage: ohpdf-cli info <in.pdf>",
    }
}

impl CliError {
    /// The message shown for this error.
    pub fn message(&self) -> (r: String)
        ensures
            r@ == cli_error_text(*self),
    {
        match self {
            CliError::Usage(c) => String::from_str(usage_line(*c)),
            CliError::MissingOutput => String::from_str("Missing -o/--output <path>"),
            CliError::MissingPassword => String::from_str("Missing --password <pw>"),
            CliError::MissingStart => String::from_str("Missing --start <page>"),
            CliError::MissingEnd => String::from_str("Missing --end <page>"),
            CliError::NoInputs => String::from_str("No input PDFs given."),
            CliError::UnknownOption(a) => {
                let mut m = String::from_str("Unknown option: ");
                m.append(a.as_str());
                m
            },
        }
    }
}

} // verus!
