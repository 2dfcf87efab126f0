//! What each keyword stands for.

use vstd::prelude::*;
use vstd::string::*;
use crate::poker::DeckMode;
use crate::text::{begins_with, stripped, trimmed, trimmed_start, words};
use super::commands::{addressed, command_in, Command, Namespace};

verus! {

/// The keywords that stand for a command of poker, in both languages.
pub open spec fn means(w: Seq<char>, command: Command) -> bool {
    match command {
        Command::Join => w == "join"@ || w == "加入"@,
        Command::Leave => w == "leave"@ || w == "离开"@,
        Command::Start(_) => w == "start"@ || w == "begin"@ || w == "go"@ || w == "开始"@,
        Command::State => w == "state"@ || w == "status"@ || w == "状态"@,
        Command::Chips => w == "chips"@ || w == "stack"@ || w == "筹码"@,
        Command::Reset => w == "reset"@ || w == "重置"@,
        Command::Help => w == "help"@ || w == "帮助"@ || w == "?"@,
        Command::WolfStart => false,
        Command::WolfHelp => false,
    }
}

/// The keywords that stand for a command of the werewolf game.
pub open spec fn means_among_wolves(w: Seq<char>, command: Command) -> bool {
    match command {
        Command::Join => w == "join"@ || w == "加入"@,
        Command::Leave => w == "leave"@ || w == "离开"@,
        Command::WolfStart => w == "start"@ || w == "开始"@,
        Command::Reset => w == "reset"@ || w == "重置"@,
        Command::WolfHelp => w == "help"@ || w == "帮助"@,
        _ => false,
    }
}

/// No keyword is another one.
proof fn keywords_differ()
    ensures
        ({
            let all = seq![
                "join"@, "leave"@, "start"@, "begin"@, "go"@, "state"@, "status"@, "chips"@, "stack"@, "reset"@, "help"@, "?"@,
                "加入"@, "离开"@, "开始"@, "状态"@, "筹码"@, "重置"@, "帮助"@, "wolf"@, "狼"@,
            ];
            forall|i: int, j: int| 0 <= i < j < all.len() ==> #[trigger] all[i] != #[trigger] all[j]
        }),
{
    reveal_strlit("join");
    reveal_strlit("leave");
    reveal_strlit("start");
    reveal_strlit("begin");
    reveal_strlit("go");
    reveal_strlit("state");
    reveal_strlit("status");
    reveal_strlit("chips");
    reveal_strlit("stack");
    reveal_strlit("reset");
    reveal_strlit("help");
    reveal_strlit("?");
    reveal_strlit("加入");
    reveal_strlit("离开");
    reveal_strlit("开始");
    reveal_strlit("状态");
    reveal_strlit("筹码");
    reveal_strlit("重置");
    reveal_strlit("帮助");
    reveal_strlit("wolf");
    reveal_strlit("狼");
    let all = seq![
        "join"@, "leave"@, "start"@, "begin"@, "go"@, "state"@, "status"@, "chips"@, "stack"@, "reset"@, "help"@, "?"@,
        "加入"@, "离开"@, "开始"@, "状态"@, "筹码"@, "重置"@, "帮助"@, "wolf"@, "狼"@,
    ];
    assert("join"@[0] == 'j' && "leave"@[0] == 'l' && "begin"@[0] == 'b' && "go"@[0] == 'g' && "chips"@[0] == 'c');
    assert("reset"@[0] == 'r' && "help"@[0] == 'h' && "?"@[0] == '?' && "wolf"@[0] == 'w' && "狼"@[0] == '狼');
    assert("start"@[0] == 's' && "state"@[0] == 's' && "status"@[0] == 's' && "stack"@[0] == 's');
    assert("start"@[3] == 'r' && "state"@[3] == 't' && "stack"@[3] == 'c' && "status"@.len() == 6);
    assert("start"@.len() == 5 && "state"@.len() == 5 && "stack"@.len() == 5);
    assert("加入"@[0] == '加' && "离开"@[0] == '离' && "开始"@[0] == '开' && "状态"@[0] == '状');
    assert("筹码"@[0] == '筹' && "重置"@[0] == '重' && "帮助"@[0] == '帮');
}

/// A text behind `/poker` whose first word is one of a command's keywords is that
/// command, and no other text is: each keyword stands for its own command.
pub proof fn each_keyword_has_its_command(body: Seq<char>, command: Command)
    requires
        !(command is Start),
    ensures
        command_in(Namespace::Poker, body) == Some(command) <==> words(body).len() > 0 && means(words(body)[0], command),
{
    keyword_of(words(body)[0]);
}

/// A hand is started by `start`, with the short deck where the next word is `short`.
pub proof fn a_start_names_the_deck(body: Seq<char>, mode: DeckMode)
    ensures
        command_in(Namespace::Poker, body) == Some(Command::Start(mode)) <==> words(body).len() > 0 && means(
            words(body)[0],
            Command::Start(mode),
        ) && (mode == DeckMode::ShortDeck <==> words(body).len() > 1 && words(body)[1] == "short"@),
{
    keyword_of(words(body)[0]);
}

/// And behind `/wolf` each keyword of the werewolf game stands for its own command.
pub proof fn each_keyword_has_its_command_among_wolves(body: Seq<char>, command: Command)
    ensures
        command_in(Namespace::Wolf, body) == Some(command) <==> words(body).len() > 0 && means_among_wolves(words(body)[0], command),
{
    keyword_of(words(body)[0]);
}

/// Behind a mention `wolf` leads to the werewolf game, where the next word is the
/// keyword; anything else is poker's.
pub proof fn a_mention_reaches_both_games(body: Seq<char>, command: Command)
    requires
        !(command is Start),
    ensures
        ({
            let ws = words(body);
            let wolf = ws.len() > 0 && (ws[0] == "wolf"@ || ws[0] == "狼"@);
            &&& wolf ==> (command_in(Namespace::Mention, body) == Some(command) <==> ws.len() > 1 && means_among_wolves(ws[1], command))
            &&& !wolf ==> (command_in(Namespace::Mention, body) == Some(command) <==> ws.len() > 0 && means(ws[0], command))
        }),
{
    keyword_of(words(body)[0]);
    keyword_of(words(body)[1]);
}

/// A hand is started behind a mention as behind `/poker`.
pub proof fn a_mention_starts_a_hand(body: Seq<char>, mode: DeckMode)
    ensures
        ({
            let ws = words(body);
            command_in(Namespace::Mention, body) == Some(Command::Start(mode)) <==> ws.len() > 0 && means(ws[0], Command::Start(mode)) && (
            mode == DeckMode::ShortDeck <==> ws.len() > 1 && ws[1] == "short"@)
        }),
{
    keyword_of(words(body)[0]);
    keyword_of(words(body)[1]);
}

/// A word is at most one of the keywords.
proof fn tell_apart(w: Seq<char>)
    ensures
        forall|a: Command, b: Command| #![trigger means(w, a), means(w, b)] means(w, a) && means(w, b) ==> a == b || (a is Start && b is Start),
        forall|a: Command, b: Command| #![trigger means_among_wolves(w, a), means_among_wolves(w, b)] means_among_wolves(w, a)
            && means_among_wolves(w, b) ==> a == b,
        w == "wolf"@ || w == "狼"@ ==> forall|a: Command| !#[trigger] means(w, a),
{
    keywords_differ();
    let all = seq![
        "join"@, "leave"@, "start"@, "begin"@, "go"@, "state"@, "status"@, "chips"@, "stack"@, "reset"@, "help"@, "?"@,
        "加入"@, "离开"@, "开始"@, "状态"@, "筹码"@, "重置"@, "帮助"@, "wolf"@, "狼"@,
    ];
    assert(all[0] == "join"@ && all[1] == "leave"@ && all[2] == "start"@ && all[3] == "begin"@ && all[4] == "go"@ && all[5] == "state"@);
    assert(all[6] == "status"@ && all[7] == "chips"@ && all[8] == "stack"@ && all[9] == "reset"@ && all[10] == "help"@ && all[11] == "?"@);
    assert(all[12] == "加入"@ && all[13] == "离开"@ && all[14] == "开始"@ && all[15] == "状态"@ && all[16] == "筹码"@);
    assert(all[17] == "重置"@ && all[18] == "帮助"@ && all[19] == "wolf"@ && all[20] == "狼"@);
}

/// What a word stands for, one way or the other.
proof fn keyword_of(w: Seq<char>)
    ensures
        forall|a: Command, b: Command| #![trigger means(w, a), means(w, b)] means(w, a) && means(w, b) ==> a == b || (a is Start && b is Start),
        forall|a: Command, b: Command| #![trigger means_among_wolves(w, a), means_among_wolves(w, b)] means_among_wolves(w, a)
            && means_among_wolves(w, b) ==> a == b,
        w == "wolf"@ || w == "狼"@ ==> forall|a: Command| !#[trigger] means(w, a),
        means(w, Command::Join) == (w == "join"@ || w == "加入"@),
        means(w, Command::Leave) == (w == "leave"@ || w == "离开"@),
        means(w, Command::Start(DeckMode::Standard)) == (w == "start"@ || w == "begin"@ || w == "go"@ || w == "开始"@),
        means(w, Command::State) == (w == "state"@ || w == "status"@ || w == "状态"@),
        means(w, Command::Chips) == (w == "chips"@ || w == "stack"@ || w == "筹码"@),
        means(w, Command::Reset) == (w == "reset"@ || w == "重置"@),
        means(w, Command::Help) == (w == "help"@ || w == "帮助"@ || w == "?"@),
        means_among_wolves(w, Command::Join) == (w == "join"@ || w == "加入"@),
        means_among_wolves(w, Command::Leave) == (w == "leave"@ || w == "离开"@),
        means_among_wolves(w, Command::WolfStart) == (w == "start"@ || w == "开始"@),
        means_among_wolves(w, Command::Reset) == (w == "reset"@ || w == "重置"@),
        means_among_wolves(w, Command::WolfHelp) == (w == "help"@ || w == "帮助"@),
{
    tell_apart(w);
}

/// Whether one text begins with another, letter by letter.
pub open spec fn opens_with(text: Seq<char>, mark: Seq<char>) -> bool {
    mark.len() <= text.len() && forall|i: int| 0 <= i < mark.len() ==> #[trigger] text[i] == mark[i]
}

/// A text is for poker where it begins with `/poker`, for the werewolf game where it
/// begins with `/wolf`, and otherwise for the bot only where it is meant.
pub proof fn whom_a_text_is_for(text: Seq<char>, for_bot: bool)
    ensures
        ({
            let t = trimmed_start(text);
            let r = addressed(text, for_bot);
            &&& opens_with(t, "/poker"@) ==> (r matches Some((n, _)) && n == Namespace::Poker)
            &&& opens_with(t, "/wolf"@) ==> (r matches Some((n, _)) && n == Namespace::Wolf)
            &&& !opens_with(t, "/poker"@) && !opens_with(t, "/wolf"@) ==> r == (if for_bot {
                Some((Namespace::Mention, trimmed(text)))
            } else {
                None
            })
        }),
{
    slashes(trimmed_start(text));
}

/// What stands behind the mark is the command's text.
pub proof fn the_mark_is_taken_off(text: Seq<char>, rest: Seq<char>, for_bot: bool)
    ensures
        trimmed_start(text) == "/poker"@ + rest && !opens_with(rest, "/poker"@) ==> addressed(text, for_bot) == Some(
            (Namespace::Poker, trimmed(rest)),
        ),
        trimmed_start(text) == "/wolf"@ + rest && !opens_with(rest, "/wolf"@) ==> addressed(text, for_bot) == Some(
            (Namespace::Wolf, trimmed(rest)),
        ),
{
    let t = trimmed_start(text);
    slashes(t);
    slashes(rest);
    if t == "/poker"@ + rest {
        assert(opens_with(t, "/poker"@));
        assert(t.skip("/poker"@.len() as int) =~= rest);
        if !opens_with(rest, "/poker"@) {
            assert(stripped(rest, "/poker"@) == rest);
        }
    }
    if t == "/wolf"@ + rest {
        assert(opens_with(t, "/wolf"@));
        assert(t.skip("/wolf"@.len() as int) =~= rest);
        if !opens_with(rest, "/wolf"@) {
            assert(stripped(rest, "/wolf"@) == rest);
        }
    }
}

proof fn slashes(t: Seq<char>)
    ensures
        begins_with(t, "/poker"@) <==> opens_with(t, "/poker"@),
        begins_with(t, "/wolf"@) <==> opens_with(t, "/wolf"@),
        !(opens_with(t, "/poker"@) && opens_with(t, "/wolf"@)),
        "/poker"@.len() == 6,
        "/wolf"@.len() == 5,
{
    reveal_strlit("/poker");
    reveal_strlit("/wolf");
    assert("/poker"@[1] == 'p' && "/wolf"@[1] == 'w');
    if opens_with(t, "/poker"@) {
        assert(t.take(6) =~= "/poker"@);
        assert(t[1] == 'p');
    }
    if opens_with(t, "/wolf"@) {
        assert(t.take(5) =~= "/wolf"@);
    }
    if begins_with(t, "/poker"@) {
        assert forall|i: int| 0 <= i < 6 implies #[trigger] t[i] == "/poker"@[i] by {
            assert(t.take(6)[i] == t[i]);
        }
    }
    if begins_with(t, "/wolf"@) {
        assert forall|i: int| 0 <= i < 5 implies #[trigger] t[i] == "/wolf"@[i] by {
            assert(t.take(5)[i] == t[i]);
        }
    }
}

} // verus!
