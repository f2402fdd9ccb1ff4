//! What the words of a line come to, word by word.
use crate::json::{json_at, Json};
use crate::shell::command::{
    law_later_options_win, limit_in, options_in, parse_command, parse_current, parse_define,
    parse_history, parse_transition, parse_verb, told, Cmd, CmdView, TransitionOptions,
};
use crate::shell::tokens::tokenize;
use crate::text::{
    decimal, first_of, folded, joined, law_numbers_read_back, lemma_first_of, numeral, texts, trim,
    trimmed,
};
use vstd::prelude::*;

verus! {

/// The options of a line differ.
proof fn lemma_options_differ()
    ensures
        "--actor"@ != "--ctx"@,
        "--actor"@ != "--expect-version"@,
        "--actor"@ != "--expected-version"@,
        "--ctx"@ != "--expect-version"@,
        "--ctx"@ != "--expected-version"@,
{
    reveal_strlit("--actor");
    reveal_strlit("--ctx");
    reveal_strlit("--expect-version");
    reveal_strlit("--expected-version");
    assert("--actor"@.len() == 7 && "--ctx"@.len() == 5 && "--expect-version"@.len() == 16
        && "--expected-version"@.len() == 18);
}

/// A transition without options is of the three words that follow the verb. The
/// shell is its actor, its context is an empty object, and any version will do. With
/// fewer words there is no command.
pub proof fn law_plain_transitions(tokens: Vec<String>, r: Result<Cmd, String>)
    requires
        call_ensures(parse_transition, (&tokens,), r),
    ensures
        tokens@.len() < 4 ==> r is Err,
        tokens@.len() == 4 ==> (r matches Ok(cmd) && cmd@ == CmdView::Transition {
            entity_id: tokens@[1]@,
            machine: tokens@[2]@,
            event: tokens@[3]@,
            actor: "smash"@,
            ctx: Json::Object(Map::empty()),
            expect_version: None,
        }),
{
    let ts = texts(tokens@);
    assert(ts.len() == tokens@.len());
    if tokens@.len() == 4 {
        assert(ts[1] == tokens@[1]@ && ts[2] == tokens@[2]@ && ts[3] == tokens@[3]@);
        assert(ts.skip(4).len() == 0);
    }
}

/// An option at the end of a transition changes the one thing that it names, and
/// leaves the rest as the line without it has it: the actor, the context or the
/// version that is expected. Any other word there is refused.
pub proof fn law_options_set_what_they_name(
    a: Vec<String>,
    b: Vec<String>,
    r: Result<Cmd, String>,
    s: Result<Cmd, String>,
    option: Seq<char>,
    value: Seq<char>,
    n: u64,
)
    requires
        call_ensures(parse_transition, (&a,), r),
        call_ensures(parse_transition, (&b,), s),
        a@.len() >= 4,
        texts(b@) == texts(a@) + seq![option, value],
        r is Ok,
    ensures
        r->Ok_0@ matches CmdView::Transition {
            entity_id,
            machine,
            event,
            actor,
            ctx,
            expect_version,
        } && {
            &&& entity_id == a@[1]@ && machine == a@[2]@ && event == a@[3]@
            &&& option == "--actor"@ ==> (s matches Ok(cmd) && cmd@ == CmdView::Transition {
                entity_id,
                machine,
                event,
                actor: value,
                ctx,
                expect_version,
            })
            &&& option == "--ctx"@ ==> match json_at(value) {
                Some(j) => s matches Ok(cmd) && cmd@ == CmdView::Transition {
                    entity_id,
                    machine,
                    event,
                    actor,
                    ctx: j,
                    expect_version,
                },
                None => s is Err,
            }
            &&& (option == "--expect-version"@ || option == "--expected-version"@) && value
                == decimal(n as nat) ==> (s matches Ok(cmd) && cmd@ == CmdView::Transition {
                entity_id,
                machine,
                event,
                actor,
                ctx,
                expect_version: Some(n),
            })
            &&& option != "--actor"@ && option != "--ctx"@ && option != "--expect-version"@
                && option != "--expected-version"@ ==> s is Err
        },
{
    lemma_options_differ();
    reveal_with_fuel(options_in, 2);
    let ts = texts(a@);
    let us = texts(b@);
    let none = TransitionOptions {
        actor: "smash"@,
        ctx: Json::Object(Map::empty()),
        expect_version: None,
    };
    let more = seq![option, value];
    assert(ts[1] == a@[1]@ && ts[2] == a@[2]@ && ts[3] == a@[3]@);
    assert(us[1] == ts[1] && us[2] == ts[2] && us[3] == ts[3]);
    assert(us.skip(4) =~= ts.skip(4) + more);
    law_later_options_win(ts.skip(4), more, none);
    let o = options_in(ts.skip(4), none)->Asks_0;
    assert(more.skip(2).len() == 0);
    law_numbers_read_back(n as nat);
    assert(more[0] == option && more[1] == value && more.len() == 2);
    assert(options_in(us.skip(4), none) == options_in(more, o));
}

/// The limits that are named later count.
proof fn lemma_later_limits_win(a: Seq<Seq<char>>, b: Seq<Seq<char>>, limit: Option<u32>)
    requires
        limit_in(a, limit) is Asks,
    ensures
        limit_in(a + b, limit) == limit_in(b, limit_in(a, limit)->Asks_0),
    decreases a.len(),
{
    if a.len() == 0 {
        assert(a + b =~= b);
    } else {
        assert((a + b)[0] == a[0]);
        assert(a.len() >= 2);
        assert((a + b)[1] == a[1]);
        assert((a + b).skip(2) =~= a.skip(2) + b);
        lemma_later_limits_win(
            a.skip(2),
            b,
            Some(numeral(a[1])->0 as u32),
        );
    }
}

/// A history is of the two words that follow the verb, without a limit where none is
/// named.
pub proof fn law_plain_histories(tokens: Vec<String>, r: Result<Cmd, String>)
    requires
        call_ensures(parse_history, (&tokens,), r),
    ensures
        tokens@.len() < 3 ==> r is Err,
        tokens@.len() == 3 ==> (r matches Ok(cmd) && cmd@ == CmdView::History {
            entity_id: tokens@[1]@,
            machine: tokens@[2]@,
            limit: None,
        }),
{
    let ts = texts(tokens@);
    assert(ts.len() == tokens@.len());
    if tokens@.len() == 3 {
        assert(ts[1] == tokens@[1]@ && ts[2] == tokens@[2]@);
        assert(ts.skip(3).len() == 0);
    }
}

/// A limit at the end of a history is the limit; any other word there is refused.
pub proof fn law_limits_are_taken(
    a: Vec<String>,
    b: Vec<String>,
    r: Result<Cmd, String>,
    s: Result<Cmd, String>,
    option: Seq<char>,
    value: Seq<char>,
    n: u32,
)
    requires
        call_ensures(parse_history, (&a,), r),
        call_ensures(parse_history, (&b,), s),
        a@.len() >= 3,
        texts(b@) == texts(a@) + seq![option, value],
        r is Ok,
    ensures
        r->Ok_0@ matches CmdView::History { entity_id, machine, limit } && {
            &&& entity_id == a@[1]@ && machine == a@[2]@
            &&& (option == "--limit"@ || option == "-l"@ || option == "-n"@) && value == decimal(
                n as nat,
            ) ==> (s matches Ok(cmd) && cmd@ == CmdView::History {
                entity_id,
                machine,
                limit: Some(n),
            })
            &&& option != "--limit"@ && option != "-l"@ && option != "-n"@ ==> s is Err
        },
{
    let ts = texts(a@);
    let us = texts(b@);
    let more = seq![option, value];
    assert(ts[1] == a@[1]@ && ts[2] == a@[2]@);
    assert(us[1] == ts[1] && us[2] == ts[2]);
    assert(us.skip(3) =~= ts.skip(3) + more);
    lemma_later_limits_win(ts.skip(3), more, None);
    assert(more.skip(2).len() == 0);
    law_numbers_read_back(n as nat);
    reveal_with_fuel(limit_in, 2);
    assert(more[0] == option && more[1] == value && more.len() == 2);
    assert(limit_in(us.skip(3), None) == limit_in(more, limit_in(ts.skip(3), None)->Asks_0));
}

/// A question about an entity is of the two words that follow the verb; a definition
/// is all that follows it.
pub proof fn law_questions_and_definitions(
    tokens: Vec<String>,
    r: Result<Cmd, String>,
    s: Result<Cmd, String>,
)
    requires
        call_ensures(parse_current, (&tokens,), r),
        call_ensures(parse_define, (&tokens,), s),
    ensures
        tokens@.len() < 3 <==> r is Err,
        tokens@.len() >= 3 ==> (r matches Ok(cmd) && cmd@ == CmdView::Current {
            entity_id: tokens@[1]@,
            machine: tokens@[2]@,
        }),
        tokens@.len() < 2 <==> s is Err,
        tokens@.len() == 2 ==> (s matches Ok(cmd) && cmd@ == CmdView::Define {
            source: tokens@[1]@,
        }),
        tokens@.len() == 3 ==> (s matches Ok(cmd) && cmd@ == CmdView::Define {
            source: tokens@[1]@ + " "@ + tokens@[2]@,
        }),
{
    let ts = texts(tokens@);
    assert(ts.len() == tokens@.len());
    assert(tokens@.len() >= 2 ==> ts[1] == tokens@[1]@);
    assert(tokens@.len() >= 3 ==> ts[2] == tokens@[2]@);
    reveal_with_fuel(joined, 3);
    if ts.len() == 3 {
        assert(ts.skip(1).len() == 2 && ts.skip(1)[0] == ts[1] && ts.skip(1)[1] == ts[2]);
        assert(ts.skip(1).drop_last().len() == 1 && ts.skip(1).drop_last()[0] == ts[1]);
    }
    if ts.len() == 2 {
        assert(ts.skip(1).len() == 1 && ts.skip(1)[0] == ts[1]);
    }
}

/// The verb, or its short form, chooses how the words of a line are read.
pub proof fn law_verbs_choose_the_command(
    verb: &str,
    tokens: Vec<String>,
    r: Result<Cmd, String>,
    transition: Result<Cmd, String>,
    current: Result<Cmd, String>,
    history: Result<Cmd, String>,
    define: Result<Cmd, String>,
)
    requires
        call_ensures(parse_verb, (verb, &tokens), r),
        call_ensures(parse_transition, (&tokens,), transition),
        call_ensures(parse_current, (&tokens,), current),
        call_ensures(parse_history, (&tokens,), history),
        call_ensures(parse_define, (&tokens,), define),
    ensures
        verb@ == "transition"@ || verb@ == "tr"@ ==> told(r) == told(transition),
        verb@ == "current"@ || verb@ == "cur"@ ==> told(r) == told(current),
        verb@ == "history"@ || verb@ == "hist"@ ==> told(r) == told(history),
        verb@ == "define"@ || verb@ == "def"@ ==> told(r) == told(define),
        verb@ == "quit"@ || verb@ == "exit"@ || verb@ == "q"@ ==> (r matches Ok(c) && c is Quit),
        verb@ == "help"@ || verb@ == "h"@ || verb@ == "?"@ ==> (r matches Ok(c) && c is Help),
        r matches Ok(c) ==> {
            &&& c is Quit ==> verb@ == "quit"@ || verb@ == "exit"@ || verb@ == "q"@
            &&& c is Help ==> verb@ == "help"@ || verb@ == "h"@ || verb@ == "?"@
            &&& c is Transition ==> verb@ == "transition"@ || verb@ == "tr"@
            &&& c is Define ==> verb@ == "define"@ || verb@ == "def"@
        },
{
    reveal_strlit("transition");
    reveal_strlit("tr");
    reveal_strlit("current");
    reveal_strlit("cur");
    reveal_strlit("history");
    reveal_strlit("hist");
    reveal_strlit("define");
    reveal_strlit("def");
    reveal_strlit("quit");
    reveal_strlit("exit");
    reveal_strlit("q");
    reveal_strlit("help");
    reveal_strlit("h");
    reveal_strlit("?");
    assert("transition"@.len() == 10 && "tr"@.len() == 2 && "current"@.len() == 7 && "cur"@.len()
        == 3 && "history"@.len() == 7 && "hist"@.len() == 4 && "define"@.len() == 6 && "def"@.len()
        == 3 && "quit"@.len() == 4 && "exit"@.len() == 4 && "q"@.len() == 1 && "help"@.len() == 4
        && "h"@.len() == 1 && "?"@.len() == 1);
    assert("current"@[0] == 'c' && "cur"@[0] == 'c' && "history"@[0] == 'h' && "hist"@[0] == 'h'
        && "hist"@[1] == 'i' && "help"@[1] == 'e' && "def"@[0] == 'd' && "quit"@[0] == 'q'
        && "exit"@[0] == 'e' && "help"@[0] == 'h' && "q"@[0] == 'q' && "h"@[0] == 'h' && "?"@[0]
        == '?');
}

/// A line that is blank, or that begins with a number sign, asks for nothing. Of any
/// other that does not begin with a backslash, the first word in lower case is the
/// verb.
pub proof fn law_lines_are_read_by_their_verb(
    input: &str,
    line: String,
    given: &str,
    tokens: Vec<String>,
    verb: &str,
    r: Result<Cmd, String>,
    s: Result<Cmd, String>,
)
    requires
        call_ensures(parse_command, (input,), r),
        call_ensures(trim, (input,), line),
        given@ == line@,
        call_ensures(tokenize, (given,), tokens),
        call_ensures(parse_verb, (verb, &tokens), s),
    ensures
        line@.len() == 0 || line@[0] == '#' ==> (r matches Ok(c) && c is Empty),
        line@.len() > 0 && line@[0] != '#' && line@[0] != '\\' && tokens@.len() > 0 && verb@
            == folded(tokens@[0]@) ==> told(r) == told(s),
        line@.len() > 0 && line@[0] != '#' && line@[0] != '\\' && tokens@.len() == 0 ==> (
        r matches Ok(c) && c is Empty),
{
    let ts = texts(tokens@);
    assert(ts.len() == tokens@.len());
    if tokens@.len() > 0 {
        assert(ts[0] == tokens@[0]@);
    }
}

/// A line that begins with a backslash asks for what its name says: for the machines,
/// for one machine or one entity by what follows the blank, for help, or to leave.
pub proof fn law_names_behind_a_backslash(
    input: &str,
    line: String,
    name: Seq<char>,
    rest: Seq<char>,
    r: Result<Cmd, String>,
)
    requires
        call_ensures(parse_command, (input,), r),
        call_ensures(trim, (input,), line),
        !name.contains(' '),
        line@ == seq!['\\'] + name || line@ == seq!['\\'] + name + seq![' '] + rest,
    ensures
        name == "machines"@ ==> (r matches Ok(c) && c is ListMachines),
        name == "help"@ || name == "h"@ || name == "?"@ ==> (r matches Ok(c) && c is Help),
        name == "quit"@ || name == "q"@ || name == "exit"@ ==> (r matches Ok(c) && c is Quit),
        line@ == seq!['\\'] + name && (name == "machine"@ || name == "entity"@) ==> r is Err,
        line@ == seq!['\\'] + name + seq![' '] + rest && trimmed(rest).len() > 0 ==> {
            &&& name == "machine"@ ==> (r matches Ok(c) && c@ == CmdView::DescribeMachine {
                name: trimmed(rest),
            })
            &&& name == "entity"@ ==> (r matches Ok(c) && c@ == CmdView::DescribeEntity {
                entity_id: trimmed(rest),
            })
        },
        name != "machines"@ && name != "machine"@ && name != "entity"@ && name != "help"@ && name
            != "h"@ && name != "?"@ && name != "quit"@ && name != "q"@ && name != "exit"@ ==> r is
            Err,
{
    let t = line@;
    let s = t.skip(1);
    reveal_strlit("machines");
    reveal_strlit("machine");
    reveal_strlit("entity");
    reveal_strlit("help");
    reveal_strlit("h");
    reveal_strlit("?");
    reveal_strlit("quit");
    reveal_strlit("q");
    reveal_strlit("exit");
    assert("machines"@.len() == 8 && "machine"@.len() == 7 && "entity"@.len() == 6 && "help"@.len()
        == 4 && "h"@.len() == 1 && "?"@.len() == 1 && "quit"@.len() == 4 && "q"@.len() == 1
        && "exit"@.len() == 4);
    assert("help"@[0] == 'h' && "quit"@[0] == 'q' && "exit"@[0] == 'e' && "h"@[0] == 'h' && "?"@[0]
        == '?' && "q"@[0] == 'q');
    lemma_first_of(s, ' ');
    let n = first_of(s, ' ') as int;
    if t == seq!['\\'] + name {
        assert(s =~= name);
        if n < s.len() {
            assert(name[n] == ' ');
        }
        assert(s.take(n) =~= name);
    } else {
        assert(s =~= name + seq![' '] + rest);
        assert(s[name.len() as int] == ' ');
        if n < name.len() {
            assert(name[n] == s[n]);
        }
        assert(n == name.len());
        assert(s.take(n) =~= name);
        assert(s.skip(n + 1) =~= rest);
    }
}

} // verus!
