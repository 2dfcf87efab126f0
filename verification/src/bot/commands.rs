//! Text commands: `/poker <keyword>`, `/wolf <keyword>`, or a mention of the
//! bot followed by a keyword.

use vstd::prelude::*;
use vstd::string::*;
use crate::feishu::events::{mentions_view, Mention, MentionView};
use crate::poker::DeckMode;
use crate::text::{
    begins_with, first_words, lowercase, lowered, remove_all, removed, same_text, starts_with,
    strip_all, stripped, trim, trim_start, trimmed, trimmed_start, words,
};

verus! {

#[derive(Debug, Clone, Copy, PartialEq, Eq, Structural)]
pub enum Command {
    Join,
    Leave,
    Start(DeckMode),
    State,
    Chips,
    Reset,
    Help,
    WolfStart,
    WolfHelp,
}

/// Which game's keywords a text is read by.
#[derive(Debug, Clone, Copy, PartialEq, Eq, Structural)]
pub enum Namespace {
    /// Behind `/poker`.
    Poker,
    /// Behind `/wolf`.
    Wolf,
    /// Behind a mention of the bot: poker's keywords, or `wolf` and then the
    /// werewolf game's.
    Mention,
}

/// The command that one of poker's keywords stands for; `start short` starts
/// with the short deck.
pub open spec fn poker_command(words: Seq<Seq<char>>) -> Option<Command> {
    if words.len() == 0 {
        None
    } else {
        let w = words[0];
        if w == "join"@ || w == "加入"@ {
            Some(Command::Join)
        } else if w == "leave"@ || w == "离开"@ {
            Some(Command::Leave)
        } else if w == "start"@ || w == "begin"@ || w == "go"@ || w == "开始"@ {
            Some(
                Command::Start(
                    if words.len() > 1 && words[1] == "short"@ { DeckMode::ShortDeck } else { DeckMode::Standard },
                ),
            )
        } else if w == "state"@ || w == "status"@ || w == "状态"@ {
            Some(Command::State)
        } else if w == "chips"@ || w == "stack"@ || w == "筹码"@ {
            Some(Command::Chips)
        } else if w == "reset"@ || w == "重置"@ {
            Some(Command::Reset)
        } else if w == "help"@ || w == "帮助"@ || w == "?"@ {
            Some(Command::Help)
        } else {
            None
        }
    }
}

/// The command that a keyword of the werewolf game stands for. The roster is
/// shared, so joining, leaving and resetting are those of poker.
pub open spec fn wolf_command(w: Seq<char>) -> Option<Command> {
    if w == "join"@ || w == "加入"@ {
        Some(Command::Join)
    } else if w == "leave"@ || w == "离开"@ {
        Some(Command::Leave)
    } else if w == "start"@ || w == "开始"@ {
        Some(Command::WolfStart)
    } else if w == "reset"@ || w == "重置"@ {
        Some(Command::Reset)
    } else if w == "help"@ || w == "帮助"@ {
        Some(Command::WolfHelp)
    } else {
        None
    }
}

/// The command in a text that is in lower case.
pub open spec fn command_in(namespace: Namespace, body: Seq<char>) -> Option<Command> {
    let ws = words(body);
    match namespace {
        Namespace::Poker => poker_command(ws),
        Namespace::Wolf => if ws.len() > 0 { wolf_command(ws[0]) } else { None },
        Namespace::Mention => if ws.len() > 0 && (ws[0] == "wolf"@ || ws[0] == "狼"@) {
            if ws.len() > 1 { wolf_command(ws[1]) } else { None }
        } else {
            poker_command(ws)
        },
    }
}

/// The text without the marks of the first `n` mentions.
pub open spec fn cleaned(text: Seq<char>, mentions: Seq<MentionView>, n: nat) -> Seq<char>
    decreases n,
{
    if n == 0 {
        text
    } else {
        removed(cleaned(text, mentions, (n - 1) as nat), mentions[n - 1].key)
    }
}

/// Whether the bot is mentioned.
pub open spec fn mentioned(mentions: Seq<MentionView>, bot_open_id: Seq<char>) -> bool {
    bot_open_id.len() > 0 && exists|i: int| 0 <= i < mentions.len() && (#[trigger] mentions[i]).open_id == bot_open_id
}

/// What is said to the bot, if the text is for it.
pub open spec fn addressed(text: Seq<char>, for_bot: bool) -> Option<(Namespace, Seq<char>)> {
    let t = trimmed_start(text);
    if begins_with(t, "/poker"@) {
        Some((Namespace::Poker, trimmed(stripped(t, "/poker"@))))
    } else if begins_with(t, "/wolf"@) {
        Some((Namespace::Wolf, trimmed(stripped(t, "/wolf"@))))
    } else if for_bot {
        Some((Namespace::Mention, trimmed(text)))
    } else {
        None
    }
}

fn is_one_of(w: &str, a: &str, b: &str) -> (r: bool)
    ensures
        r == (w@ == a@ || w@ == b@),
{
    same_text(w, a) || same_text(w, b)
}

fn read_poker_command(w: &str, second: Option<&str>) -> (r: Option<Command>)
    ensures
        forall|words: Seq<Seq<char>>|
            words.len() > 0 && words[0] == w@ && (match second {
                Some(s) => words.len() > 1 && words[1] == s@,
                None => words.len() <= 1,
            }) ==> r == #[trigger] poker_command(words),
{
    if is_one_of(w, "join", "加入") {
        Some(Command::Join)
    } else if is_one_of(w, "leave", "离开") {
        Some(Command::Leave)
    } else if is_one_of(w, "start", "begin") || is_one_of(w, "go", "开始") {
        let short = match second {
            Some(s) => same_text(s, "short"),
            None => false,
        };
        Some(Command::Start(if short { DeckMode::ShortDeck } else { DeckMode::Standard }))
    } else if is_one_of(w, "state", "status") || same_text(w, "状态") {
        Some(Command::State)
    } else if is_one_of(w, "chips", "stack") || same_text(w, "筹码") {
        Some(Command::Chips)
    } else if is_one_of(w, "reset", "重置") {
        Some(Command::Reset)
    } else if is_one_of(w, "help", "帮助") || same_text(w, "?") {
        Some(Command::Help)
    } else {
        None
    }
}

fn read_wolf_command(w: &str) -> (r: Option<Command>)
    ensures
        r == wolf_command(w@),
{
    if is_one_of(w, "join", "加入") {
        Some(Command::Join)
    } else if is_one_of(w, "leave", "离开") {
        Some(Command::Leave)
    } else if is_one_of(w, "start", "开始") {
        Some(Command::WolfStart)
    } else if is_one_of(w, "reset", "重置") {
        Some(Command::Reset)
    } else if is_one_of(w, "help", "帮助") {
        Some(Command::WolfHelp)
    } else {
        None
    }
}

/// Read the command in a text that is in lower case.
pub fn read_command(namespace: Namespace, body: &str) -> (r: Option<Command>)
    ensures
        r == command_in(namespace, body@),
{
    let (first, second) = first_words(body);
    let w = match first {
        Some(w) => w,
        None => {
            return None;
        },
    };
    match namespace {
        Namespace::Poker => read_poker_command(w, second),
        Namespace::Wolf => read_wolf_command(w),
        Namespace::Mention => if is_one_of(w, "wolf", "狼") {
            match second {
                Some(s) => read_wolf_command(s),
                None => None,
            }
        } else {
            read_poker_command(w, second)
        },
    }
}

/// What is said to the bot, if the text is for it.
fn find_addressed(text: &str, for_bot: bool) -> (r: Option<(Namespace, &str)>)
    ensures
        match r {
            Some((n, s)) => addressed(text@, for_bot) == Some((n, s@)),
            None => addressed(text@, for_bot) is None,
        },
{
    let t = trim_start(text);
    if starts_with(t, "/poker") {
        Some((Namespace::Poker, trim(strip_all(t, "/poker"))))
    } else if starts_with(t, "/wolf") {
        Some((Namespace::Wolf, trim(strip_all(t, "/wolf"))))
    } else if for_bot {
        Some((Namespace::Mention, trim(text)))
    } else {
        None
    }
}

/// The command in a message. In a group the bot has to be mentioned or the
/// command spelt with a slash; in a private chat every text is for the bot.
pub fn parse_command(text: &str, mentions: &[Mention], bot_open_id: &str, is_p2p: bool) -> (r: Option<Command>)
    ensures
        ({
            let ms = mentions_view(mentions@);
            match addressed(cleaned(text@, ms, ms.len()), is_p2p || mentioned(ms, bot_open_id@)) {
                Some((namespace, body)) => r == command_in(namespace, lowered(body)),
                None => r is None,
            }
        }),
{
    let ghost ms = mentions_view(mentions@);
    let mut clean = text.to_owned();
    let mut for_bot = is_p2p;
    let has_id = bot_open_id.unicode_len() > 0;
    let mut i: usize = 0;
    while i < mentions.len()
        invariant
            i <= mentions@.len(),
            ms == mentions_view(mentions@),
            has_id == (bot_open_id@.len() > 0),
            clean@ == cleaned(text@, ms, i as nat),
            for_bot == (is_p2p || has_id && exists|k: int| 0 <= k < i && (#[trigger] ms[k]).open_id == bot_open_id@),
        decreases mentions@.len() - i,
    {
        let m = &mentions[i];
        assert(ms[i as int] == m@);
        if has_id && same_text(m.open_id.as_str(), bot_open_id) {
            for_bot = true;
        }
        clean = remove_all(clean.as_str(), m.key.as_str());
        i = i + 1;
    }
    match find_addressed(clean.as_str(), for_bot) {
        Some((namespace, body)) => {
            let lower = lowercase(body);
            read_command(namespace, lower.as_str())
        },
        None => None,
    }
}

/// Joining, leaving and resetting are the same in both namespaces: what such a
/// keyword does behind `/wolf` it does behind `/poker`, and the other way round.
pub proof fn the_roster_is_shared(body: Seq<char>, command: Command)
    requires
        command == Command::Join || command == Command::Leave || command == Command::Reset,
    ensures
        command_in(Namespace::Wolf, body) == Some(command) <==> command_in(Namespace::Poker, body) == Some(command),
{
    let ws = words(body);
    let w = ws[0];
    reveal_strlit("join");
    reveal_strlit("加入");
    reveal_strlit("leave");
    reveal_strlit("离开");
    reveal_strlit("start");
    reveal_strlit("begin");
    reveal_strlit("go");
    reveal_strlit("开始");
    reveal_strlit("state");
    reveal_strlit("status");
    reveal_strlit("状态");
    reveal_strlit("chips");
    reveal_strlit("stack");
    reveal_strlit("筹码");
    reveal_strlit("reset");
    reveal_strlit("重置");
    assert("leave"@[0] == 'l' && "reset"@[0] == 'r' && "start"@[0] == 's' && "begin"@[0] == 'b');
    assert("state"@[0] == 's' && "chips"@[0] == 'c' && "stack"@[0] == 's');
    assert("加入"@[0] == '加' && "离开"@[0] == '离' && "开始"@[0] == '开' && "状态"@[0] == '状');
    assert("筹码"@[0] == '筹' && "重置"@[0] == '重');
}

} // verus!
