//! What a line of the shell asks for.
use crate::json::{json_at, json_fault, json_view, object, parse, Json};
use crate::shell::tokens::{tokenize, words};
use crate::text::{
    chars_of, find_from, first_of, folded, is_empty_text, join_from, joined, lower_case, numeral,
    parse_u32, parse_u64, string_of, texts, trim, trimmed,
};
use vstd::prelude::*;

verus! {

/// What a line asks for.
#[derive(Debug)]
pub enum Cmd {
    Transition {
        entity_id: String,
        machine: String,
        event: String,
        actor: String,
        ctx: serde_json::Value,
        expect_version: Option<u64>,
    },
    Current { entity_id: String, machine: String },
    History { entity_id: String, machine: String, limit: Option<u32> },
    Define { source: String },
    ListMachines,
    DescribeMachine { name: String },
    DescribeEntity { entity_id: String },
    Help,
    Quit,
    Empty,
}

/// The contents of a `Cmd`.
#[verifier::ext_equal]
pub enum CmdView {
    Transition {
        entity_id: Seq<char>,
        machine: Seq<char>,
        event: Seq<char>,
        actor: Seq<char>,
        ctx: Json,
        expect_version: Option<u64>,
    },
    Current { entity_id: Seq<char>, machine: Seq<char> },
    History { entity_id: Seq<char>, machine: Seq<char>, limit: Option<u32> },
    Define { source: Seq<char> },
    ListMachines,
    DescribeMachine { name: Seq<char> },
    DescribeEntity { entity_id: Seq<char> },
    Help,
    Quit,
    Empty,
}

impl View for Cmd {
    type V = CmdView;

    open spec fn view(&self) -> CmdView {
        match *self {
            Cmd::Transition { entity_id, machine, event, actor, ctx, expect_version } =>
            CmdView::Transition {
                entity_id: entity_id@,
                machine: machine@,
                event: event@,
                actor: actor@,
                ctx: json_view(ctx),
                expect_version,
            },
            Cmd::Current { entity_id, machine } => CmdView::Current {
                entity_id: entity_id@,
                machine: machine@,
            },
            Cmd::History { entity_id, machine, limit } => CmdView::History {
                entity_id: entity_id@,
                machine: machine@,
                limit,
            },
            Cmd::Define { source } => CmdView::Define { source: source@ },
            Cmd::ListMachines => CmdView::ListMachines,
            Cmd::DescribeMachine { name } => CmdView::DescribeMachine { name: name@ },
            Cmd::DescribeEntity { entity_id } => CmdView::DescribeEntity { entity_id: entity_id@ },
            Cmd::Help => CmdView::Help,
            Cmd::Quit => CmdView::Quit,
            Cmd::Empty => CmdView::Empty,
        }
    }
}

/// What a line comes to.
pub enum Reading<T> {
    /// It asks for this.
    Asks(T),
    /// It is refused with this complaint.
    Complains(Seq<char>),
}

/// What a line was read as: what it asks for, or the complaint.
pub open spec fn told(r: Result<Cmd, String>) -> Result<CmdView, Seq<char>> {
    match r {
        Ok(cmd) => Ok(cmd@),
        Err(e) => Err(e@),
    }
}

/// Whether a line was read.
pub open spec fn reads_as(want: Reading<CmdView>, r: Result<Cmd, String>) -> bool {
    match (want, r) {
        (Reading::Asks(c), Ok(cmd)) => cmd@ == c,
        (Reading::Complains(m), Err(e)) => e@ == m,
        _ => false,
    }
}

// ---------------------------------------------------------------------------
// Transitions
// ---------------------------------------------------------------------------

/// Options of a transition.
#[verifier::ext_equal]
pub struct TransitionOptions {
    pub actor: Seq<char>,
    pub ctx: Json,
    pub expect_version: Option<u64>,
}

/// What options come to, on top of others.
pub open spec fn options_in(ts: Seq<Seq<char>>, o: TransitionOptions) -> Reading<TransitionOptions>
    decreases ts.len(),
{
    if ts.len() == 0 {
        Reading::Asks(o)
    } else if ts[0] == "--actor"@ {
        if ts.len() < 2 {
            Reading::Complains("--actor requires a value"@)
        } else {
            options_in(ts.skip(2), TransitionOptions { actor: ts[1], ..o })
        }
    } else if ts[0] == "--ctx"@ {
        if ts.len() < 2 {
            Reading::Complains("--ctx requires a JSON value"@)
        } else {
            match json_at(ts[1]) {
                Some(j) => options_in(ts.skip(2), TransitionOptions { ctx: j, ..o }),
                None => Reading::Complains("invalid JSON for --ctx: "@ + json_fault(ts[1])),
            }
        }
    } else if ts[0] == "--expect-version"@ || ts[0] == "--expected-version"@ {
        if ts.len() < 2 {
            Reading::Complains("--expect-version requires a number"@)
        } else {
            match numeral(ts[1]) {
                Some(n) if n <= u64::MAX => options_in(
                    ts.skip(2),
                    TransitionOptions { expect_version: Some(n as u64), ..o },
                ),
                _ => Reading::Complains("'"@ + ts[1] + "' is not a valid version number"@),
            }
        }
    } else {
        Reading::Complains("unexpected argument: '"@ + ts[0] + "'"@)
    }
}

/// What the words of a transition come to.
pub open spec fn transition_in(ts: Seq<Seq<char>>) -> Reading<CmdView> {
    if ts.len() < 4 {
        Reading::Complains(
            "usage: transition <entity_id> <machine> <event> [--actor NAME] [--ctx '{}'] [--expect-version N]"@,
        )
    } else {
        let none = TransitionOptions {
            actor: "smash"@,
            ctx: Json::Object(Map::empty()),
            expect_version: None,
        };
        match options_in(ts.skip(4), none) {
            Reading::Asks(o) => Reading::Asks(
                CmdView::Transition {
                    entity_id: ts[1],
                    machine: ts[2],
                    event: ts[3],
                    actor: o.actor,
                    ctx: o.ctx,
                    expect_version: o.expect_version,
                },
            ),
            Reading::Complains(m) => Reading::Complains(m),
        }
    }
}

/// Reads the words of a transition.
pub fn parse_transition(tokens: &Vec<String>) -> (r: Result<Cmd, String>)
    ensures
        reads_as(transition_in(texts(tokens@)), r),
{
    let ghost ts = texts(tokens@);
    if tokens.len() < 4 {
        return Err(
            "usage: transition <entity_id> <machine> <event> [--actor NAME] [--ctx '{}'] [--expect-version N]".to_owned(),
        );
    }
    let mut actor: String = "smash".to_owned();
    let mut ctx = object();
    let mut expect_version: Option<u64> = None;
    let ghost none = TransitionOptions {
        actor: "smash"@,
        ctx: Json::Object(Map::empty()),
        expect_version: None,
    };
    let ghost want = options_in(ts.skip(4), none);
    let mut i: usize = 4;
    while i < tokens.len()
        invariant
            4 <= i <= tokens@.len(),
            ts == texts(tokens@),
            want == options_in(ts.skip(4), none),
            none == (TransitionOptions {
                actor: "smash"@,
                ctx: Json::Object(Map::empty()),
                expect_version: None,
            }),
            options_in(
                ts.skip(i as int),
                TransitionOptions { actor: actor@, ctx: json_view(ctx), expect_version },
            ) == want,
        decreases tokens@.len() - i,
    {
        let ghost rest = ts.skip(i as int);
        let flag = tokens[i].as_str();
        proof {
            assert(rest[0] == flag@);
            if i + 1 < tokens@.len() {
                assert(rest[1] == tokens@[i + 1]@);
                assert(rest.skip(2) =~= ts.skip(i + 2));
            }
        }
        if *flag == *"--actor" {
            if i + 1 >= tokens.len() {
                return Err("--actor requires a value".to_owned());
            }
            actor = tokens[i + 1].clone();
        } else if *flag == *"--ctx" {
            if i + 1 >= tokens.len() {
                return Err("--ctx requires a JSON value".to_owned());
            }
            match parse(tokens[i + 1].as_str()) {
                Ok(v) => {
                    ctx = v;
                },
                Err(e) => {
                    return Err("invalid JSON for --ctx: ".to_owned().concat(e.as_str()));
                },
            }
        } else if *flag == *"--expect-version" || *flag == *"--expected-version" {
            if i + 1 >= tokens.len() {
                return Err("--expect-version requires a number".to_owned());
            }
            match parse_u64(tokens[i + 1].as_str()) {
                Some(n) => {
                    expect_version = Some(n);
                },
                None => {
                    return Err(
                        "'".to_owned().concat(tokens[i + 1].as_str()).concat(
                            "' is not a valid version number",
                        ),
                    );
                },
            }
        } else {
            return Err("unexpected argument: '".to_owned().concat(flag).concat("'"));
        }
        i = i + 2;
    }
    assert(ts.skip(i as int) =~= Seq::<Seq<char>>::empty());
    assert(ts[1] == tokens@[1]@ && ts[2] == tokens@[2]@ && ts[3] == tokens@[3]@);
    Ok(
        Cmd::Transition {
            entity_id: tokens[1].clone(),
            machine: tokens[2].clone(),
            event: tokens[3].clone(),
            actor,
            ctx,
            expect_version,
        },
    )
}

// ---------------------------------------------------------------------------
// States and histories
// ---------------------------------------------------------------------------

/// What the words of a question about an entity come to.
pub open spec fn current_in(ts: Seq<Seq<char>>) -> Reading<CmdView> {
    if ts.len() < 3 {
        Reading::Complains("usage: current <entity_id> <machine>"@)
    } else {
        Reading::Asks(CmdView::Current { entity_id: ts[1], machine: ts[2] })
    }
}

/// Reads the words of a question about an entity.
pub fn parse_current(tokens: &Vec<String>) -> (r: Result<Cmd, String>)
    ensures
        reads_as(current_in(texts(tokens@)), r),
{
    if tokens.len() < 3 {
        return Err("usage: current <entity_id> <machine>".to_owned());
    }
    Ok(Cmd::Current { entity_id: tokens[1].clone(), machine: tokens[2].clone() })
}

/// What options of a history come to, on top of a limit.
pub open spec fn limit_in(ts: Seq<Seq<char>>, limit: Option<u32>) -> Reading<Option<u32>>
    decreases ts.len(),
{
    if ts.len() == 0 {
        Reading::Asks(limit)
    } else if ts[0] == "--limit"@ || ts[0] == "-l"@ || ts[0] == "-n"@ {
        if ts.len() < 2 {
            Reading::Complains("--limit requires a number"@)
        } else {
            match numeral(ts[1]) {
                Some(n) if n <= u32::MAX => limit_in(ts.skip(2), Some(n as u32)),
                _ => Reading::Complains("'"@ + ts[1] + "' is not a valid limit"@),
            }
        }
    } else {
        Reading::Complains("unexpected argument: '"@ + ts[0] + "'"@)
    }
}

/// What the words of a question about a history come to.
pub open spec fn history_in(ts: Seq<Seq<char>>) -> Reading<CmdView> {
    if ts.len() < 3 {
        Reading::Complains("usage: history <entity_id> <machine> [--limit N]"@)
    } else {
        match limit_in(ts.skip(3), None) {
            Reading::Asks(limit) => Reading::Asks(
                CmdView::History { entity_id: ts[1], machine: ts[2], limit },
            ),
            Reading::Complains(m) => Reading::Complains(m),
        }
    }
}

/// Reads the words of a question about a history.
pub fn parse_history(tokens: &Vec<String>) -> (r: Result<Cmd, String>)
    ensures
        reads_as(history_in(texts(tokens@)), r),
{
    let ghost ts = texts(tokens@);
    if tokens.len() < 3 {
        return Err("usage: history <entity_id> <machine> [--limit N]".to_owned());
    }
    let mut limit: Option<u32> = None;
    let mut i: usize = 3;
    while i < tokens.len()
        invariant
            3 <= i <= tokens@.len(),
            ts == texts(tokens@),
            limit_in(ts.skip(i as int), limit) == limit_in(ts.skip(3), None),
        decreases tokens@.len() - i,
    {
        let ghost rest = ts.skip(i as int);
        let flag = tokens[i].as_str();
        proof {
            assert(rest[0] == flag@);
            if i + 1 < tokens@.len() {
                assert(rest[1] == tokens@[i + 1]@);
                assert(rest.skip(2) =~= ts.skip(i + 2));
            }
        }
        if *flag == *"--limit" || *flag == *"-l" || *flag == *"-n" {
            if i + 1 >= tokens.len() {
                return Err("--limit requires a number".to_owned());
            }
            match parse_u32(tokens[i + 1].as_str()) {
                Some(n) => {
                    limit = Some(n);
                },
                None => {
                    return Err(
                        "'".to_owned().concat(tokens[i + 1].as_str()).concat(
                            "' is not a valid limit",
                        ),
                    );
                },
            }
        } else {
            return Err("unexpected argument: '".to_owned().concat(flag).concat("'"));
        }
        i = i + 2;
    }
    assert(ts.skip(i as int) =~= Seq::<Seq<char>>::empty());
    assert(ts[1] == tokens@[1]@ && ts[2] == tokens@[2]@);
    Ok(Cmd::History { entity_id: tokens[1].clone(), machine: tokens[2].clone(), limit })
}

// ---------------------------------------------------------------------------
// Definitions
// ---------------------------------------------------------------------------

/// What the words of a definition come to.
pub open spec fn define_in(ts: Seq<Seq<char>>) -> Reading<CmdView> {
    if ts.len() < 2 {
        Reading::Complains("usage: define <json_string_or_@file>"@)
    } else {
        Reading::Asks(CmdView::Define { source: joined(ts.skip(1), " "@) })
    }
}

/// Reads the words of a definition.
pub fn parse_define(tokens: &Vec<String>) -> (r: Result<Cmd, String>)
    ensures
        reads_as(define_in(texts(tokens@)), r),
{
    if tokens.len() < 2 {
        return Err("usage: define <json_string_or_@file>".to_owned());
    }
    Ok(Cmd::Define { source: join_from(tokens, 1, " ") })
}

// ---------------------------------------------------------------------------
// Lines
// ---------------------------------------------------------------------------

/// What a line comes to that begins with a backslash; `s` is what follows it.
pub open spec fn meta_in(s: Seq<char>) -> Reading<CmdView> {
    let n = first_of(s, ' ') as int;
    let name = s.take(n);
    let argument = if n < s.len() {
        trimmed(s.skip(n + 1))
    } else {
        Seq::empty()
    };
    if name == "machines"@ {
        Reading::Asks(CmdView::ListMachines)
    } else if name == "machine"@ {
        if argument.len() == 0 {
            Reading::Complains("usage: \\machine <name>"@)
        } else {
            Reading::Asks(CmdView::DescribeMachine { name: argument })
        }
    } else if name == "entity"@ {
        if argument.len() == 0 {
            Reading::Complains("usage: \\entity <entity_id>"@)
        } else {
            Reading::Asks(CmdView::DescribeEntity { entity_id: argument })
        }
    } else if name == "help"@ || name == "h"@ || name == "?"@ {
        Reading::Asks(CmdView::Help)
    } else if name == "quit"@ || name == "q"@ || name == "exit"@ {
        Reading::Asks(CmdView::Quit)
    } else {
        Reading::Complains("unknown meta-command: \\"@ + name)
    }
}

/// Reads what follows a backslash.
fn parse_meta(rest: &str) -> (r: Result<Cmd, String>)
    ensures
        reads_as(meta_in(rest@), r),
{
    let chars = chars_of(rest);
    assert(rest@.skip(0) =~= rest@);
    let n = find_from(&chars, 0, ' ');
    let name = string_of(&chars, 0, n);
    assert(rest@.subrange(0, n as int) =~= rest@.take(n as int));
    let argument = if n < chars.len() {
        let tail = string_of(&chars, n + 1, chars.len());
        assert(rest@.subrange(n + 1, rest@.len() as int) =~= rest@.skip(n + 1));
        trim(tail.as_str())
    } else {
        String::new()
    };
    assert(n >= chars@.len() ==> argument@ =~= Seq::<char>::empty());
    let name = name.as_str();
    if *name == *"machines" {
        Ok(Cmd::ListMachines)
    } else if *name == *"machine" {
        if is_empty_text(argument.as_str()) {
            Err("usage: \\machine <name>".to_owned())
        } else {
            Ok(Cmd::DescribeMachine { name: argument })
        }
    } else if *name == *"entity" {
        if is_empty_text(argument.as_str()) {
            Err("usage: \\entity <entity_id>".to_owned())
        } else {
            Ok(Cmd::DescribeEntity { entity_id: argument })
        }
    } else if *name == *"help" || *name == *"h" || *name == *"?" {
        Ok(Cmd::Help)
    } else if *name == *"quit" || *name == *"q" || *name == *"exit" {
        Ok(Cmd::Quit)
    } else {
        Err("unknown meta-command: \\".to_owned().concat(name))
    }
}

/// What the words of a line come to, given its first word in lower case.
pub open spec fn verb_in(verb: Seq<char>, ts: Seq<Seq<char>>) -> Reading<CmdView> {
    if verb == "transition"@ || verb == "tr"@ {
        transition_in(ts)
    } else if verb == "current"@ || verb == "cur"@ {
        current_in(ts)
    } else if verb == "history"@ || verb == "hist"@ {
        history_in(ts)
    } else if verb == "define"@ || verb == "def"@ {
        define_in(ts)
    } else if verb == "quit"@ || verb == "exit"@ || verb == "q"@ {
        Reading::Asks(CmdView::Quit)
    } else if verb == "help"@ || verb == "h"@ || verb == "?"@ {
        Reading::Asks(CmdView::Help)
    } else {
        Reading::Complains("unknown command: '"@ + verb + "'. Type \\help for commands."@)
    }
}

/// Reads the words of a line, given its first word in lower case.
pub fn parse_verb(verb: &str, tokens: &Vec<String>) -> (r: Result<Cmd, String>)
    ensures
        reads_as(verb_in(verb@, texts(tokens@)), r),
{
    if *verb == *"transition" || *verb == *"tr" {
        parse_transition(tokens)
    } else if *verb == *"current" || *verb == *"cur" {
        parse_current(tokens)
    } else if *verb == *"history" || *verb == *"hist" {
        parse_history(tokens)
    } else if *verb == *"define" || *verb == *"def" {
        parse_define(tokens)
    } else if *verb == *"quit" || *verb == *"exit" || *verb == *"q" {
        Ok(Cmd::Quit)
    } else if *verb == *"help" || *verb == *"h" || *verb == *"?" {
        Ok(Cmd::Help)
    } else {
        Err("unknown command: '".to_owned().concat(verb).concat("'. Type \\help for commands."))
    }
}

/// What a line comes to.
pub open spec fn line_in(s: Seq<char>) -> Reading<CmdView> {
    let t = trimmed(s);
    if t.len() == 0 || t[0] == '#' {
        Reading::Asks(CmdView::Empty)
    } else if t[0] == '\\' {
        meta_in(t.skip(1))
    } else if words(t).len() == 0 {
        Reading::Asks(CmdView::Empty)
    } else {
        verb_in(folded(words(t)[0]), words(t))
    }
}

/// Reads a line.
pub fn parse_command(input: &str) -> (r: Result<Cmd, String>)
    ensures
        reads_as(line_in(input@), r),
{
    let line = trim(input);
    let chars = chars_of(line.as_str());
    if chars.len() == 0 || chars[0] == '#' {
        return Ok(Cmd::Empty);
    }
    if chars[0] == '\\' {
        let rest = string_of(&chars, 1, chars.len());
        assert(line@.subrange(1, line@.len() as int) =~= line@.skip(1));
        return parse_meta(rest.as_str());
    }
    let tokens = tokenize(line.as_str());
    if tokens.len() == 0 {
        return Ok(Cmd::Empty);
    }
    assert(texts(tokens@)[0] == tokens@[0]@);
    let verb = lower_case(tokens[0].as_str());
    parse_verb(verb.as_str(), &tokens)
}

/// The last of several options of the same kind counts: options are read in
/// order, each on top of those before it.
pub proof fn law_later_options_win(a: Seq<Seq<char>>, b: Seq<Seq<char>>, o: TransitionOptions)
    requires
        options_in(a, o) is Asks,
    ensures
        options_in(a + b, o) == options_in(b, options_in(a, o)->Asks_0),
    decreases a.len(),
{
    if a.len() == 0 {
        assert(a + b =~= b);
    } else {
        assert((a + b)[0] == a[0]);
        assert(a.len() >= 2);
        assert((a + b)[1] == a[1]);
        assert((a + b).skip(2) =~= a.skip(2) + b);
        let next = if a[0] == "--actor"@ {
            TransitionOptions { actor: a[1], ..o }
        } else if a[0] == "--ctx"@ {
            TransitionOptions { ctx: json_at(a[1])->0, ..o }
        } else {
            TransitionOptions { expect_version: Some(numeral(a[1])->0 as u64), ..o }
        };
        law_later_options_win(a.skip(2), b, next);
    }
}

} // verus!
