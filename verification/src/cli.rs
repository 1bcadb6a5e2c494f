//! The command line: which mode the program runs in, and the tool name and
//! `--key value` arguments of a direct run.
use vstd::prelude::*;
use crate::number::{parse_i64, parse_i64_spec, parse_u16, parse_u16_spec, is_digit, decimal_digits,
    lemma_decimal_roundtrip, lemma_decimal_digits};
use crate::text::{chars_of, eq_str, range_eq, starts_with, string_of};

verus! {

/// The value of a `--key value` argument.
#[derive(Debug)]
pub enum CliValue {
    /// `true` or `false`, or a flag given without a value.
    Bool(bool),
    /// A value that reads as an `i64`.
    Int(i64),
    /// Any other value.
    Text(String),
}

/// The value of an argument as plain data.
pub enum CliArg {
    Bool(bool),
    Int(i64),
    Text(Seq<char>),
}

impl View for CliValue {
    type V = CliArg;

    open spec fn view(&self) -> CliArg {
        match self {
            CliValue::Bool(b) => CliArg::Bool(*b),
            CliValue::Int(n) => CliArg::Int(*n),
            CliValue::Text(s) => CliArg::Text(s@),
        }
    }
}

/// The value that the text `v` stands for: a boolean for `true` and `false`,
/// an integer where it reads as an `i64`, else the text itself.
pub open spec fn classify(v: Seq<char>) -> CliArg {
    if v == "true"@ {
        CliArg::Bool(true)
    } else if v == "false"@ {
        CliArg::Bool(false)
    } else {
        match parse_i64_spec(v) {
            Some(n) => CliArg::Int(n as i64),
            None => CliArg::Text(v),
        }
    }
}

/// How a value is read: a text that reads as an `i64` is that integer, only
/// the texts `true` and `false` are booleans, and any other text stays text.
pub proof fn lemma_classify_values(v: Seq<char>)
    ensures
        parse_i64_spec(v) matches Some(n) ==> classify(v) == CliArg::Int(n as i64),
        classify(v) matches CliArg::Bool(b) ==> (b && v == "true"@) || (!b && v == "false"@),
        v == "true"@ ==> classify(v) == CliArg::Bool(true),
        v == "false"@ ==> classify(v) == CliArg::Bool(false),
        parse_i64_spec(v) is None && v != "true"@ && v != "false"@ ==> classify(v) == CliArg::Text(v),
{
    reveal_strlit("true");
    reveal_strlit("false");
    if v == "true"@ || v == "false"@ {
        assert(!is_digit(v[0]));
        assert(v[0] != '+' && v[0] != '-');
        assert(parse_i64_spec(v) is None);
    }
}

/// A number written in decimal, with or without a leading `-`, is read as
/// that integer over the whole range of an `i64`.
pub proof fn lemma_classify_numbers(n: nat)
    ensures
        n <= i64::MAX ==> classify(decimal_digits(n)) == CliArg::Int(n as i64),
        n <= 0x8000_0000_0000_0000 ==> classify("-"@ + decimal_digits(n)) == CliArg::Int(-n as i64),
{
    reveal_strlit("true");
    reveal_strlit("false");
    reveal_strlit("-");
    lemma_decimal_roundtrip(n);
    lemma_decimal_digits(n);
    let d = decimal_digits(n);
    assert(is_digit(d[0]));
    let m = "-"@ + d;
    assert(m[0] == '-');
    assert(m.drop_first() =~= d);
    assert(d != "true"@ && d != "false"@);
    assert(m != "true"@ && m != "false"@);
}

/// The `--key value` pairs of `args` from position `i` on, in order: a
/// `--key` followed by another argument takes it as its value, a final
/// `--key` is the flag `true`, and arguments that are not keys are passed over.
pub open spec fn cli_entries(args: Seq<Seq<char>>, i: int) -> Seq<(Seq<char>, CliArg)>
    decreases args.len() - i,
{
    if 0 <= i < args.len() {
        let a = args[i];
        if starts_with(a, "--"@) {
            let key = a.subrange(2, a.len() as int);
            if i + 1 < args.len() {
                seq![(key, classify(args[i + 1]))] + cli_entries(args, i + 2)
            } else {
                seq![(key, CliArg::Bool(true))] + cli_entries(args, i + 1)
            }
        } else {
            cli_entries(args, i + 1)
        }
    } else {
        seq![]
    }
}

/// The views of a sequence of strings.
pub open spec fn arg_views(args: Seq<String>) -> Seq<Seq<char>> {
    args.map_values(|s: String| s@)
}

/// The views of parsed pairs.
pub open spec fn entry_views(v: Seq<(String, CliValue)>) -> Seq<(Seq<char>, CliArg)> {
    v.map_values(|e: (String, CliValue)| (e.0@, e.1@))
}

/// The value that the argument `v` stands for (see `classify`).
pub fn classify_value(v: &str) -> (r: CliValue)
    ensures
        r@ == classify(v@),
{
    let c = chars_of(v);
    if eq_str(c.as_slice(), "true") {
        CliValue::Bool(true)
    } else if eq_str(c.as_slice(), "false") {
        CliValue::Bool(false)
    } else {
        match parse_i64(c.as_slice()) {
            Some(n) => CliValue::Int(n),
            None => CliValue::Text(String::from_str(v)),
        }
    }
}

/// The tool name (the first argument, empty when there is none) and the
/// `--key value` pairs of a direct run, in the order given; a key given twice
/// appears twice, and the later one takes effect when they are put in a map.
pub fn parse_cli(args: &Vec<String>) -> (r: (String, Vec<(String, CliValue)>))
    ensures
        r.0@ == (if args@.len() > 0 {
            args@[0]@
        } else {
            Seq::<char>::empty()
        }),
        entry_views(r.1@) == cli_entries(arg_views(args@), 1),
{
    let ghost av = arg_views(args@);
    let name = if args.len() > 0 {
        args[0].clone()
    } else {
        String::new()
    };
    let n = args.len();
    let mut out: Vec<(String, CliValue)> = Vec::new();
    let mut i: usize = 1;
    if n == 0 {
        assert(cli_entries(av, 1) =~= Seq::<(Seq<char>, CliArg)>::empty());
        assert(entry_views(out@) =~= Seq::<(Seq<char>, CliArg)>::empty());
        return (name, out);
    }
    while i < n
        invariant
            1 <= i <= n,
            n == args@.len(),
            av == arg_views(args@),
            cli_entries(av, 1) == entry_views(out@) + cli_entries(av, i as int),
        decreases n - i,
    {
        let a = chars_of(args[i].as_str());
        let dash = chars_of("--");
        proof {
            reveal_strlit("--");
        }
        let ghost old_out = entry_views(out@);
        assert(av[i as int] == args@[i as int]@);
        let is_key = a.len() >= 2 && range_eq(a.as_slice(), 0, 2, dash.as_slice());
        assert(is_key == starts_with(av[i as int], "--"@));
        if is_key {
            let key = string_of(a.as_slice(), 2, a.len());
            if i + 1 < n {
                assert(av[i + 1] == args@[i + 1]@);
                let v = classify_value(args[i + 1].as_str());
                out.push((key, v));
                let ghost item = seq![(a@.subrange(2, a@.len() as int), classify(av[i + 1]))];
                assert(entry_views(out@) =~= old_out + item);
                assert(cli_entries(av, i as int) == item + cli_entries(av, i + 2));
                assert(old_out + (item + cli_entries(av, i + 2)) =~= (old_out + item) + cli_entries(av, i + 2));
                i = i + 2;
            } else {
                out.push((key, CliValue::Bool(true)));
                let ghost item = seq![(a@.subrange(2, a@.len() as int), CliArg::Bool(true))];
                assert(entry_views(out@) =~= old_out + item);
                assert(cli_entries(av, i as int) == item + cli_entries(av, i + 1));
                assert(old_out + (item + cli_entries(av, i + 1)) =~= (old_out + item) + cli_entries(av, i + 1));
                i = i + 1;
            }
        } else {
            assert(cli_entries(av, i as int) == cli_entries(av, i + 1));
            i = i + 1;
        }
    }
    assert(cli_entries(av, i as int) =~= Seq::<(Seq<char>, CliArg)>::empty());
    assert(entry_views(out@) + cli_entries(av, i as int) =~= entry_views(out@));
    (name, out)
}

/// How the program runs.
#[derive(Debug, PartialEq, Eq, Structural)]
pub enum Mode {
    /// Serve the tools over MCP.
    Mcp,
    /// Print the tool schemas.
    List,
    /// Serve the tools over HTTP on this port.
    Serve(u16),
    /// Run one tool with the remaining arguments.
    Run,
}

/// The position of the first argument equal to `x`, or -1.
pub open spec fn first_index(args: Seq<Seq<char>>, x: Seq<char>) -> int
    decreases args.len(),
{
    if args.len() == 0 {
        -1
    } else if first_index(args.drop_last(), x) >= 0 {
        first_index(args.drop_last(), x)
    } else if args.last() == x {
        args.len() - 1
    } else {
        -1
    }
}

/// The mode that `args` selects: `--mcp` wins over `--list`, which wins over
/// `--serve`; the port is the argument after the first `--serve` when it reads
/// as a `u16`, else 9901; with none of these, one tool is run.
pub open spec fn mode_of(args: Seq<Seq<char>>) -> Mode {
    if first_index(args, "--mcp"@) >= 0 {
        Mode::Mcp
    } else if first_index(args, "--list"@) >= 0 {
        Mode::List
    } else {
        let pos = first_index(args, "--serve"@);
        if pos >= 0 {
            if pos + 1 < args.len() && parse_u16_spec(args[pos + 1]) is Some {
                Mode::Serve(parse_u16_spec(args[pos + 1]).unwrap() as u16)
            } else {
                Mode::Serve(9901)
            }
        } else {
            Mode::Run
        }
    }
}

/// The position of the first argument equal to `x`.
fn find_arg(args: &Vec<String>, x: &str) -> (r: Option<usize>)
    ensures
        match r {
            Some(k) => k < args@.len() && first_index(arg_views(args@), x@) == k,
            None => first_index(arg_views(args@), x@) == -1,
        },
{
    let ghost av = arg_views(args@);
    let mut i: usize = 0;
    while i < args.len()
        invariant
            i <= args@.len(),
            av == arg_views(args@),
            first_index(av.take(i as int), x@) == -1,
        decreases args@.len() - i,
    {
        let a = chars_of(args[i].as_str());
        assert(av.take(i + 1).drop_last() =~= av.take(i as int));
        assert(av.take(i + 1).last() == args@[i as int]@);
        if eq_str(a.as_slice(), x) {
            proof {
                lemma_first_index_prefix(av, x@, i as int + 1);
            }
            return Some(i);
        }
        i = i + 1;
    }
    assert(av.take(args@.len() as int) =~= av);
    None
}

/// The first position found in a prefix is the first position in the whole.
proof fn lemma_first_index_prefix(s: Seq<Seq<char>>, x: Seq<char>, n: int)
    requires
        0 <= n <= s.len(),
        first_index(s.take(n), x) >= 0,
    ensures
        first_index(s, x) == first_index(s.take(n), x),
    decreases s.len() - n,
{
    if n < s.len() {
        assert(s.take(n + 1).drop_last() =~= s.take(n));
        lemma_first_index_prefix(s, x, n + 1);
    } else {
        assert(s.take(n) =~= s);
    }
}

/// The mode that the program arguments `args` select (see `mode_of`).
pub fn select_mode(args: &Vec<String>) -> (r: Mode)
    ensures
        r == mode_of(arg_views(args@)),
{
    if find_arg(args, "--mcp").is_some() {
        return Mode::Mcp;
    }
    if find_arg(args, "--list").is_some() {
        return Mode::List;
    }
    match find_arg(args, "--serve") {
        Some(pos) => {
            if pos < args.len() - 1 {
                let p = chars_of(args[pos + 1].as_str());
                assert(arg_views(args@)[pos + 1] == args@[pos + 1]@);
                match parse_u16(p.as_slice()) {
                    Some(port) => Mode::Serve(port),
                    None => Mode::Serve(9901),
                }
            } else {
                Mode::Serve(9901)
            }
        },
        None => Mode::Run,
    }
}

} // verus!
