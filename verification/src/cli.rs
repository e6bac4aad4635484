//! Command-line plumbing that decides without doing I/O: how the arguments
//! are routed to a subcommand, the hint shown after a parse error, dates
//! given on the command line and `~` in paths.

use vstd::prelude::*;

use crate::dates::{parse_ymd, parsed_ymd, valid_date, Date};
use crate::git::{split_char, split_spec};
use crate::strings::{seq_join, str_eq, string_of, trim, trim_spec, views};

verus! {

// ---------------------------------------------------------------------------
// Routing the arguments
// ---------------------------------------------------------------------------

/// Which usage a parse error points to.
#[derive(Debug, Clone, Copy, PartialEq, Eq, Structural)]
pub enum HelpTopic {
    Root,
    Render,
    Authors,
    Doctor,
    Config,
}

/// The arguments handed to the parser, and the usage a parse error points to.
pub struct ParsePlan {
    pub normalized_args: Vec<String>,
    pub help_topic_on_error: HelpTopic,
}

/// Flags that the top-level command handles itself.
pub open spec fn is_root_passthrough(a: Seq<char>) -> bool {
    a == "-h"@ || a == "--help"@ || a == "-V"@ || a == "--version"@ || a == "--"@
}

/// The usage a first argument points to.
pub open spec fn topic_for(first: Seq<char>) -> HelpTopic {
    if first == "render"@ {
        HelpTopic::Render
    } else if first == "authors"@ {
        HelpTopic::Authors
    } else if first == "doctor"@ {
        HelpTopic::Doctor
    } else if first == "config"@ {
        HelpTopic::Config
    } else if first == "help"@ || first == "hitmap"@ {
        HelpTopic::Root
    } else {
        HelpTopic::Render
    }
}

/// Whether a first argument names a subcommand (or help, or the program).
pub open spec fn is_known_command(first: Seq<char>) -> bool {
    first == "render"@ || first == "authors"@ || first == "doctor"@ || first == "config"@ || first
        == "help"@ || first == "hitmap"@
}

/// The plan for an argument list: with no arguments, `render`; a
/// top-level flag goes through as it is; a subcommand goes through as it
/// is; anything else is read as arguments of `render`.
pub open spec fn parse_plan_spec(args: Seq<Seq<char>>) -> (Seq<Seq<char>>, HelpTopic) {
    if args.len() <= 1 {
        (seq!["hitmap"@, "render"@], HelpTopic::Render)
    } else if is_root_passthrough(args[1]) {
        (args, HelpTopic::Root)
    } else if is_known_command(args[1]) {
        (args, topic_for(args[1]))
    } else {
        (seq!["hitmap"@, "render"@] + args.skip(1), topic_for(args[1]))
    }
}

/// `hitmap ARGS...` routes as `hitmap render ARGS...` whenever the first
/// argument is neither a top-level flag nor a subcommand: a bare repository
/// path renders that repository.
pub proof fn law_bare_arguments_render(args: Seq<Seq<char>>)
    requires
        args.len() >= 2,
        !is_root_passthrough(args[1]),
        !is_known_command(args[1]),
    ensures
        parse_plan_spec(args) == parse_plan_spec(seq!["hitmap"@, "render"@] + args.skip(1)),
{
    let spelled = seq!["hitmap"@, "render"@] + args.skip(1);
    assert(spelled[1] == "render"@);
    reveal_strlit("render");
    reveal_strlit("-h");
    reveal_strlit("--help");
    reveal_strlit("-V");
    reveal_strlit("--version");
    reveal_strlit("--");
    assert("render"@[0] == 'r' && "--help"@[0] == '-' && "--version"@[0] == '-');
    assert("render"@.len() == 6 && "-h"@.len() == 2 && "-V"@.len() == 2 && "--"@.len() == 2);
    assert(!is_root_passthrough(spelled[1]));
    assert(topic_for(args[1]) == HelpTopic::Render);
}

/// Each subcommand named first goes to that subcommand: the arguments pass
/// through unchanged and a parse error points to that subcommand's usage.
pub proof fn law_subcommands_pass_through(args: Seq<Seq<char>>)
    requires
        args.len() >= 2,
    ensures
        args[1] == "render"@ ==> parse_plan_spec(args) == (args, HelpTopic::Render),
        args[1] == "authors"@ ==> parse_plan_spec(args) == (args, HelpTopic::Authors),
        args[1] == "doctor"@ ==> parse_plan_spec(args) == (args, HelpTopic::Doctor),
        args[1] == "config"@ ==> parse_plan_spec(args) == (args, HelpTopic::Config),
{
    reveal_strlit("render");
    reveal_strlit("authors");
    reveal_strlit("doctor");
    reveal_strlit("config");
    reveal_strlit("-h");
    reveal_strlit("--help");
    reveal_strlit("-V");
    reveal_strlit("--version");
    reveal_strlit("--");
    let a = args[1];
    if a == "render"@ || a == "authors"@ || a == "doctor"@ || a == "config"@ {
        assert(a[0] != '-');
        assert(!is_root_passthrough(a));
        assert(is_known_command(a));
    }
    if a == "authors"@ {
        assert(a[0] != "render"@[0]);
    }
    if a == "doctor"@ {
        assert(a[0] != "render"@[0] && a[0] != "authors"@[0]);
    }
    if a == "config"@ {
        assert(a[0] != "render"@[0] && a[0] != "authors"@[0] && a[0] != "doctor"@[0]);
    }
}

fn is_root_passthrough_exec(a: &str) -> (r: bool)
    ensures
        r == is_root_passthrough(a@),
{
    str_eq(a, "-h") || str_eq(a, "--help") || str_eq(a, "-V") || str_eq(a, "--version") || str_eq(
        a,
        "--",
    )
}

fn topic_for_exec(first: &str) -> (r: HelpTopic)
    ensures
        r == topic_for(first@),
{
    if str_eq(first, "render") {
        HelpTopic::Render
    } else if str_eq(first, "authors") {
        HelpTopic::Authors
    } else if str_eq(first, "doctor") {
        HelpTopic::Doctor
    } else if str_eq(first, "config") {
        HelpTopic::Config
    } else if str_eq(first, "help") || str_eq(first, "hitmap") {
        HelpTopic::Root
    } else {
        HelpTopic::Render
    }
}

fn is_known_command_exec(first: &str) -> (r: bool)
    ensures
        r == is_known_command(first@),
{
    str_eq(first, "render") || str_eq(first, "authors") || str_eq(first, "doctor") || str_eq(
        first,
        "config",
    ) || str_eq(first, "help") || str_eq(first, "hitmap")
}

/// Route the command line: the arguments to parse and the usage a parse
/// error points to.
pub fn build_parse_plan(args: Vec<String>) -> (r: ParsePlan)
    ensures
        (views(r.normalized_args@), r.help_topic_on_error) == parse_plan_spec(views(args@)),
{
    if args.len() <= 1 {
        let mut normalized: Vec<String> = Vec::new();
        normalized.push(string_of("hitmap"));
        normalized.push(string_of("render"));
        assert(views(normalized@) =~= seq!["hitmap"@, "render"@]);
        return ParsePlan { normalized_args: normalized, help_topic_on_error: HelpTopic::Render };
    }
    let ghost av = views(args@);
    assert(av[1] == args@[1]@);
    let first = args[1].as_str();
    if is_root_passthrough_exec(first) {
        return ParsePlan { normalized_args: args, help_topic_on_error: HelpTopic::Root };
    }
    let topic = topic_for_exec(first);
    if is_known_command_exec(first) {
        return ParsePlan { normalized_args: args, help_topic_on_error: topic };
    }
    let mut normalized: Vec<String> = Vec::new();
    normalized.push(string_of("hitmap"));
    normalized.push(string_of("render"));
    let mut i: usize = 1;
    while i < args.len()
        invariant
            av == views(args@),
            1 <= i <= args@.len(),
            views(normalized@) == seq!["hitmap"@, "render"@] + av.subrange(1, i as int),
        decreases args@.len() - i,
    {
        let ghost before = views(normalized@);
        normalized.push(args[i].clone());
        assert(av[i as int] == args@[i as int]@);
        assert(views(normalized@) =~= before.push(av[i as int]));
        assert(views(normalized@) =~= seq!["hitmap"@, "render"@] + av.subrange(1, i + 1));
        i += 1;
    }
    assert(av.subrange(1, args@.len() as int) =~= av.skip(1));
    ParsePlan { normalized_args: normalized, help_topic_on_error: topic }
}

// ---------------------------------------------------------------------------
// Parse errors
// ---------------------------------------------------------------------------

/// The hint shown after a parse error for each usage.
pub open spec fn help_hint_spec(topic: HelpTopic) -> Seq<char> {
    match topic {
        HelpTopic::Root => "Run `hitmap --help` for full usage."@,
        HelpTopic::Render => "Run `hitmap render --help` for full render usage."@,
        HelpTopic::Authors => "Run `hitmap authors --help` for full authors usage."@,
        HelpTopic::Doctor => "Run `hitmap doctor --help` for full doctor usage."@,
        HelpTopic::Config => "Run `hitmap config --help` for full config usage."@,
    }
}

/// The hint shown after a parse error.
pub fn help_hint_for(topic: HelpTopic) -> (r: &'static str)
    ensures
        r@ == help_hint_spec(topic),
{
    match topic {
        HelpTopic::Root => "Run `hitmap --help` for full usage.",
        HelpTopic::Render => "Run `hitmap render --help` for full render usage.",
        HelpTopic::Authors => "Run `hitmap authors --help` for full authors usage.",
        HelpTopic::Doctor => "Run `hitmap doctor --help` for full doctor usage.",
        HelpTopic::Config => "Run `hitmap config --help` for full config usage.",
    }
}

/// `s` without one trailing carriage return.
pub open spec fn strip_cr(s: Seq<char>) -> Seq<char> {
    if s.len() > 0 && s.last() == '\r' {
        s.drop_last()
    } else {
        s
    }
}

/// The lines of a text, as `str::lines` gives them: split at line feeds,
/// a carriage return before a line feed dropped, and no empty last line
/// after a final line feed.
pub open spec fn lines_spec(s: Seq<char>) -> Seq<Seq<char>> {
    let p = split_spec(s, '\n');
    let body = p.take(p.len() - 1).map_values(|l: Seq<char>| strip_cr(l));
    if p.last().len() == 0 {
        body
    } else {
        body.push(p.last())
    }
}

/// The lines without the blank ones at the end.
pub open spec fn drop_blank_tail(lines: Seq<Seq<char>>) -> Seq<Seq<char>>
    decreases lines.len(),
{
    if lines.len() > 0 && trim_spec(lines.last()).len() == 0 {
        drop_blank_tail(lines.drop_last())
    } else {
        lines
    }
}

/// The generic hints that the argument parser appends to its errors.
pub open spec fn is_generic_hint(line: Seq<char>) -> bool {
    line == "For more information, try '--help'."@ || line == "For more information try '--help'."@
}

/// A rendered parse error without its generic help hint and the blank
/// lines around it.
pub open spec fn strip_hint_spec(rendered: Seq<char>) -> Seq<char> {
    let a = drop_blank_tail(lines_spec(rendered));
    let b = if a.len() > 0 && is_generic_hint(trim_spec(a.last())) {
        drop_blank_tail(a.drop_last())
    } else {
        a
    };
    seq_join(b, "\n"@)
}

/// The lines of a text.
fn lines_of(s: &str) -> (r: Vec<String>)
    ensures
        views(r@) == lines_spec(s@),
{
    let parts = split_char(s, '\n');
    proof {
        crate::git::lemma_split_nonempty(s@, '\n');
    }
    let ghost p = views(parts@);
    let n = parts.len();
    let mut out: Vec<String> = Vec::new();
    let mut i: usize = 0;
    while i + 1 < n
        invariant
            p == views(parts@),
            n == parts@.len(),
            n >= 1,
            0 <= i <= n - 1,
            views(out@) == p.take(i as int).map_values(|l: Seq<char>| strip_cr(l)),
        decreases n - i,
    {
        let chars = crate::strings::chars_of(parts[i].as_str());
        let line = if chars.len() > 0 && chars[chars.len() - 1] == '\r' {
            let t = parts[i].as_str().substring_char(0, chars.len() - 1);
            string_of(t)
        } else {
            parts[i].clone()
        };
        proof {
            assert(p[i as int] == parts@[i as int]@);
            if chars@.len() > 0 && chars@.last() == '\r' {
                assert(line@ =~= p[i as int].drop_last());
            }
        }
        let ghost before = views(out@);
        out.push(line);
        assert(views(out@) =~= before.push(strip_cr(p[i as int])));
        assert(p.take(i + 1).map_values(|l: Seq<char>| strip_cr(l)) =~= p.take(i as int).map_values(
            |l: Seq<char>| strip_cr(l),
        ).push(strip_cr(p[i as int])));
        i += 1;
    }
    assert(p.last() == parts@[n - 1]@);
    if parts[n - 1].unicode_len() > 0 {
        let ghost before = views(out@);
        out.push(parts[n - 1].clone());
        assert(views(out@) =~= before.push(p.last()));
    }
    out
}

/// Drop the blank lines at the end of a list.
fn pop_blank_tail(lines: &mut Vec<String>)
    ensures
        views(final(lines)@) == drop_blank_tail(views(old(lines)@)),
{
    while lines.len() > 0 && trim(lines[lines.len() - 1].as_str()).unicode_len() == 0
        invariant
            drop_blank_tail(views(lines@)) == drop_blank_tail(views(old(lines)@)),
        decreases lines@.len(),
    {
        let ghost before = views(lines@);
        assert(before.last() == lines@[lines@.len() - 1]@);
        lines.pop();
        assert(views(lines@) =~= before.drop_last());
    }
    proof {
        if lines@.len() > 0 {
            assert(views(lines@).last() == lines@[lines@.len() - 1]@);
        }
    }
}

/// Remove the argument parser's generic help hint from a rendered error.
pub fn strip_clap_help_hint(rendered: &str) -> (r: String)
    ensures
        r@ == strip_hint_spec(rendered@),
{
    let mut lines = lines_of(rendered);
    pop_blank_tail(&mut lines);
    let ghost a = views(lines@);
    if lines.len() > 0 {
        let last = trim(lines[lines.len() - 1].as_str());
        assert(a.last() == lines@[lines@.len() - 1]@);
        if str_eq(last, "For more information, try '--help'.") || str_eq(
            last,
            "For more information try '--help'.",
        ) {
            lines.pop();
            assert(views(lines@) =~= a.drop_last());
            pop_blank_tail(&mut lines);
        }
    }
    crate::strings::join(lines.as_slice(), "\n")
}

// ---------------------------------------------------------------------------
// Dates and paths
// ---------------------------------------------------------------------------

/// The message for a date that does not parse.
pub open spec fn invalid_date_message(s: Seq<char>, error: Seq<char>) -> Seq<char> {
    "Invalid date '"@ + s + "': "@ + error
}

/// Parse a date string (YYYY-MM-DD); the date stands for its midnight.
pub fn parse_date(s: &str) -> (r: Result<Date, String>)
    ensures
        match parsed_ymd(s@) {
            Ok(d) => r == Ok::<Date, String>(d),
            Err(e) => r is Err && r->Err_0@ == invalid_date_message(s@, e),
        },
        r matches Ok(d) ==> valid_date(d),
{
    match parse_ymd(s) {
        Ok(d) => Ok(d),
        Err(e) => {
            let mut msg = string_of("Invalid date '");
            msg.append(s);
            msg.append("': ");
            msg.append(e.as_str());
            Err(msg)
        },
    }
}

/// A path with a leading `~/`, or a lone `~`, resolved against the home
/// directory; any other path as it is.
pub open spec fn expand_tilde_spec(path: Seq<char>, home: Option<Seq<char>>) -> Seq<char> {
    match home {
        Some(h) => if path.len() >= 2 && path[0] == '~' && path[1] == '/' {
            h + seq!['/'] + path.skip(2)
        } else if path == seq!['~'] {
            h
        } else {
            path
        },
        None => path,
    }
}

/// Expand a leading `~` or `~/` to the home directory, when one is known.
pub fn expand_tilde(path: &str, home: Option<&str>) -> (r: String)
    ensures
        r@ == expand_tilde_spec(
            path@,
            match home {
                Some(h) => Some(h@),
                None => None,
            },
        ),
{
    let n = path.unicode_len();
    if let Some(h) = home {
        if n >= 2 && path.get_char(0) == '~' && path.get_char(1) == '/' {
            let mut out = string_of(h);
            out.append("/");
            out.append(path.substring_char(2, n));
            proof {
                reveal_strlit("/");
            }
            assert(out@ =~= h@ + seq!['/'] + path@.skip(2));
            return out;
        }
        if n == 1 && path.get_char(0) == '~' {
            assert(path@ =~= seq!['~']);
            return string_of(h);
        }
        proof {
            if path@ == seq!['~'] {
                assert(path@[0] == '~');
            }
        }
    }
    string_of(path)
}

} // verus!
