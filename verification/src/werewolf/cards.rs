//! The cards of the werewolf game.

use vstd::prelude::*;
use vstd::string::*;
use crate::feishu::cards::{
    button, button_json, button_row, button_row_json, card, card_json, form, form_json, header, header_json,
    markdown, markdown_json, note_json, note_md, plain_text, plain_text_json, submit_button_json, submit_button_named,
};
use crate::feishu::json::{append_item, list_view, no_items, one_item, two_items, Json, JsonView};
use crate::text::{append_text, decimal, join, joined, no_texts, plus, plus_number, texts};
use super::model::{living, living_wolves, seats_in, winner, SpeechesView, WolfGameView, WolfPlayerView};
use super::rules::apart;
use super::steps::Task;
use super::{Speeches, Winner, WolfGame, WolfStage};

verus! {

pub const WOLF_HELP: &'static str = "**操作方式**：先在统一大厅 [加入] 进房，然后点 [开始狼人杀] 按钮，\
     或 `/wolf start`。\n\n\
     • `wolf join` 加入房间（等同于 `join`）\n\
     • `wolf leave` 离开（等同于 `leave`）\n\
     • `wolf start` 开狼人杀（9-12 名玩家）\n\
     • `wolf reset` 重置房间（等同于 `reset`）\n\n\
     **板娘配比**：\n\
     • 9 人：3 狼 / 预 / 女 / 猎 / 3 民（不上警）\n\
     • 10 人：2 狼 + **狼王** / 预 / 女 / 猎 / **守** / 3 民\n\
     • 11 人：2 狼 + 狼王 / 预 / 女 / 猎 / 守 / 4 民\n\
     • 12 人：3 狼 + 狼王 / 预 / 女 / 猎 / 守 / 4 民\n\n\
     **关键规则**：\n\
     • 狼王（10+ 板）被投票 / 反向送葬时可开枪，被毒不能\n\
     • 守卫每晚守一人（含自己），不可连守同一人；同守同救会死\n\
     • 10+ 板第 1 天有上警阶段，警长 1.5 倍票权，死亡可移交 / 撕毁警徽\n\
     • 猎人被狼刀 / 放逐可开枪，被毒不能\n\n\
     胜负：屠城——全部狼死（含狼王） = 好人胜；存活狼数 ≥ 存活好人数 = 狼胜";

pub open spec fn wolf_help_card_json() -> JsonView {
    card_json(
        header_json("🐺 狼人杀 帮助"@, "purple"@),
        seq![
            markdown_json(WOLF_HELP@),
            note_json("身份卡 / 夜间技能 / 投票 全部以**仅本人可见**的群消息发出"@),
        ],
    )
}

/// How the game is played.
pub fn build_wolf_help_card() -> (r: Json)
    ensures
        r@ == wolf_help_card_json(),
{
    let elements = two_items(
        markdown(WOLF_HELP),
        note_md("身份卡 / 夜间技能 / 投票 全部以**仅本人可见**的群消息发出"),
    );
    card(header("🐺 狼人杀 帮助", "purple"), elements)
}

pub open spec fn notice_json(title: Seq<char>, template: Seq<char>, text: Seq<char>) -> JsonView {
    card_json(header_json(title, template), seq![markdown_json(text)])
}

/// A card that says something.
pub fn build_notice_card(title: &str, template: &str, text: &str) -> (r: Json)
    ensures
        r@ == notice_json(title@, template@, text@),
{
    card(header(title, template), one_item(markdown(text)))
}

/// The vote begins.
pub fn build_vote_start_card() -> (r: Json)
    ensures
        r@ == notice_json("🗳️ 投票开始"@, "blue"@, "发言结束。每位存活玩家请通过私密卡投票。"@),
{
    build_notice_card("🗳️ 投票开始", "blue", "发言结束。每位存活玩家请通过私密卡投票。")
}

// ---- speeches ----

/// The title, colour and hint of a card on which somebody speaks, and what its
/// buttons ask for.
#[derive(Debug, Clone, Copy)]
pub struct SpeechForm {
    pub title: &'static str,
    pub template: &'static str,
    pub submit: &'static str,
    pub skip: &'static str,
    pub hint: &'static str,
}

#[verifier::ext_equal]
pub struct SpeechFormView {
    pub title: Seq<char>,
    pub template: Seq<char>,
    pub submit: Seq<char>,
    pub skip: Seq<char>,
    pub hint: Seq<char>,
}

impl View for SpeechForm {
    type V = SpeechFormView;

    open spec fn view(&self) -> SpeechFormView {
        SpeechFormView {
            title: self.title@,
            template: self.template@,
            submit: self.submit@,
            skip: self.skip@,
            hint: self.hint@,
        }
    }
}

/// The three kinds of speeches that go round, and last words.
#[derive(Debug, Clone, Copy, PartialEq, Eq, Structural)]
pub enum SpeechKind {
    SheriffMain,
    SheriffSide,
    Day,
    LastWords,
}

impl SpeechKind {
    pub open spec fn form_view(self) -> SpeechFormView {
        match self {
            SpeechKind::SheriffMain => SpeechFormView {
                title: "🎤 你的竞选发言"@,
                template: "yellow"@,
                submit: "wolf_sheriff_speech_submit"@,
                skip: "wolf_sheriff_speech_skip"@,
                hint: "拉票 / 自报身份 / 攻击对手…"@,
            },
            SpeechKind::SheriffSide => SpeechFormView {
                title: "🎤 警下发言"@,
                template: "yellow"@,
                submit: "wolf_sheriff_side_submit"@,
                skip: "wolf_sheriff_side_skip"@,
                hint: "对警上候选人的看法…"@,
            },
            SpeechKind::Day => SpeechFormView {
                title: "🎤 你的白天发言"@,
                template: "wathet"@,
                submit: "wolf_day_speech_submit"@,
                skip: "wolf_day_speech_skip"@,
                hint: "分析 / 报查验 / 表态…"@,
            },
            SpeechKind::LastWords => SpeechFormView {
                title: "🕯️ 你的遗言"@,
                template: "grey"@,
                submit: "wolf_last_words_submit"@,
                skip: "wolf_last_words_skip"@,
                hint: "留给场上的话…"@,
            },
        }
    }

    /// The card on which the speaker types.
    pub fn form(self) -> (r: SpeechForm)
        ensures
            r@ == self.form_view(),
    {
        match self {
            SpeechKind::SheriffMain => SpeechForm {
                title: "🎤 你的竞选发言",
                template: "yellow",
                submit: "wolf_sheriff_speech_submit",
                skip: "wolf_sheriff_speech_skip",
                hint: "拉票 / 自报身份 / 攻击对手…",
            },
            SpeechKind::SheriffSide => SpeechForm {
                title: "🎤 警下发言",
                template: "yellow",
                submit: "wolf_sheriff_side_submit",
                skip: "wolf_sheriff_side_skip",
                hint: "对警上候选人的看法…",
            },
            SpeechKind::Day => SpeechForm {
                title: "🎤 你的白天发言",
                template: "wathet",
                submit: "wolf_day_speech_submit",
                skip: "wolf_day_speech_skip",
                hint: "分析 / 报查验 / 表态…",
            },
            SpeechKind::LastWords => SpeechForm {
                title: "🕯️ 你的遗言",
                template: "grey",
                submit: "wolf_last_words_submit",
                skip: "wolf_last_words_skip",
                hint: "留给场上的话…",
            },
        }
    }

    pub open spec fn board_title(self) -> (Seq<char>, Seq<char>) {
        match self {
            SpeechKind::SheriffMain => ("🎙️ 上警·竞选发言"@, "yellow"@),
            SpeechKind::SheriffSide => ("🎙️ 警下·非候选人发言"@, "yellow"@),
            SpeechKind::Day => ("🎙️ 白天·轮流发言"@, "wathet"@),
            SpeechKind::LastWords => ("🕯️ 遗言"@, "grey"@),
        }
    }

    /// Title and colour of the card that shows everybody who has said what.
    pub fn board(self) -> (r: (&'static str, &'static str))
        ensures
            (r.0@, r.1@) == self.board_title(),
    {
        match self {
            SpeechKind::SheriffMain => ("🎙️ 上警·竞选发言", "yellow"),
            SpeechKind::SheriffSide => ("🎙️ 警下·非候选人发言", "yellow"),
            SpeechKind::Day => ("🎙️ 白天·轮流发言", "wathet"),
            SpeechKind::LastWords => ("🕯️ 遗言", "grey"),
        }
    }

    pub open spec fn speeches_view(self, g: WolfGameView) -> SpeechesView {
        match self {
            SpeechKind::SheriffMain => g.sheriff_speech,
            SpeechKind::SheriffSide => g.side_speech,
            SpeechKind::Day => g.day_speech,
            SpeechKind::LastWords => g.last_words,
        }
    }

    /// The speeches themselves.
    pub fn speeches<'a>(self, game: &'a WolfGame) -> (r: &'a Speeches)
        ensures
            r@ == self.speeches_view(game@),
    {
        match self {
            SpeechKind::SheriffMain => &game.sheriff_speech,
            SpeechKind::SheriffSide => &game.side_speech,
            SpeechKind::Day => &game.day_speech,
            SpeechKind::LastWords => &game.last_words,
        }
    }
}

// ---- what a button asks for ----

/// What a button on the card of the player at `seat` asks for.
pub open spec fn press_json(g: WolfGameView, seat: usize, action: Seq<char>) -> JsonView {
    JsonView::object()
        .with_text("action"@, action)
        .with_text("chat_id"@, g.chat_id)
        .with_text("actor"@, g.players[seat as int].open_id)
        .with("game"@, JsonView::Int(g.game_count as int))
}

fn press(game: &WolfGame, seat: usize, action: &str) -> (r: Json)
    requires
        seat < game@.players.len(),
    ensures
        r@ == press_json(game@, seat, action@),
{
    assert(game@.players[seat as int] == game.players@[seat as int]@);
    Json::object()
        .with_text("action", action)
        .with_text("chat_id", game.chat_id.as_str())
        .with_text("actor", game.players[seat].open_id.as_str())
        .with("game", Json::number(game.game_count as u64))
}

pub open spec fn text_input_json(name: Seq<char>, hint: Seq<char>) -> JsonView {
    JsonView::object()
        .with_text("tag"@, "input"@)
        .with_text("name"@, name)
        .with("placeholder"@, plain_text_json(hint))
        .with("max_length"@, JsonView::Int(500))
        .with_text("input_type"@, "multiline_text"@)
        .with_text("width"@, "fill"@)
}

fn text_input(name: &str, hint: &str) -> (r: Json)
    ensures
        r@ == text_input_json(name@, hint@),
{
    Json::object()
        .with_text("tag", "input")
        .with_text("name", name)
        .with("placeholder", plain_text(hint))
        .with("max_length", Json::number(500))
        .with_text("input_type", "multiline_text")
        .with_text("width", "fill")
}

pub open spec fn speech_card_json(g: WolfGameView, seat: usize, f: SpeechFormView) -> JsonView {
    card_json(
        header_json(f.title, f.template),
        seq![
            form_json(
                "speech_form"@,
                seq![
                    text_input_json("speech"@, f.hint),
                    submit_button_json(f.submit, "✅ 说完了"@, press_json(g, seat, f.submit), "primary"@),
                ],
            ),
            button_row_json(seq![button_json("⏭ 沉默"@, press_json(g, seat, f.skip), "default"@)]),
        ],
    )
}

/// The card on which the player at `seat` speaks, or keeps silent.
pub fn build_speech_private_card(game: &WolfGame, seat: usize, kind: SpeechKind) -> (r: Json)
    requires
        seat < game@.players.len(),
    ensures
        r@ == speech_card_json(game@, seat, kind.form_view()),
{
    let f = kind.form();
    let fields = two_items(
        text_input("speech", f.hint),
        submit_button_named(f.submit, "✅ 说完了", press(game, seat, f.submit), "primary"),
    );
    let skip = one_item(button("⏭ 沉默", press(game, seat, f.skip), "default"));
    card(header(f.title, f.template), two_items(form("speech_form", fields), button_row(skip)))
}

pub open spec fn said_line(g: WolfGameView, s: (usize, Seq<char>)) -> Seq<char> {
    "**"@ + g.players[s.0 as int].name + "**："@ + (if s.1.len() == 0 { "（沉默）"@ } else { s.1 })
}

/// Who has said what, and who speaks now.
pub open spec fn board_text(g: WolfGameView, s: SpeechesView) -> Seq<char> {
    let said = s.said.map_values(|x: (usize, Seq<char>)| said_line(g, x));
    joined(
        match s.speaker() {
            Some(i) => said.push("🎤 正在发言：**"@ + g.players[i as int].name + "**"@),
            None => said.push("✅ 发言结束"@),
        },
        "\n"@,
    )
}

fn board_lines(game: &WolfGame, s: &Speeches) -> (r: String)
    requires
        s@.wf(game@.players.len()),
    ensures
        r@ == board_text(game@, s@),
{
    let ghost want = s@.said.map_values(|x: (usize, Seq<char>)| said_line(game@, x));
    let mut out = no_texts();
    let mut i: usize = 0;
    while i < s.said.len()
        invariant
            s@.wf(game@.players.len()),
            want == s@.said.map_values(|x: (usize, Seq<char>)| said_line(game@, x)),
            i <= s.said@.len() == want.len() == s@.said.len(),
            texts(out@) =~= want.take(i as int),
        decreases want.len() - i,
    {
        assert(s@.said[i as int].0 < game@.players.len());
        let x = &s.said[i];
        assert(game@.players[x.0 as int] == game.players@[x.0 as int]@);
        let line = plus(plus("**".to_owned(), game.players[x.0].name.as_str()), "**：");
        let line = if x.1.as_str().unicode_len() == 0 {
            plus(line, "（沉默）")
        } else {
            plus(line, x.1.as_str())
        };
        assert(line@ =~= said_line(game@, s@.said[i as int]));
        assert(want.take(i + 1) =~= want.take(i as int).push(want[i as int]));
        append_text(&mut out, line);
        i = i + 1;
    }
    assert(want.take(i as int) =~= want);
    match s.speaker() {
        Some(k) => {
            assert(s@.order[s@.next] < game@.players.len());
            assert(game@.players[k as int] == game.players@[k as int]@);
            let line = plus("🎤 正在发言：**".to_owned(), game.players[k].name.as_str());
            append_text(&mut out, plus(line, "**"));
        },
        None => {
            append_text(&mut out, "✅ 发言结束".to_owned());
        },
    }
    join(&out, "\n")
}

/// The card that shows everybody who has said what.
pub fn build_speech_public_card(game: &WolfGame, kind: SpeechKind) -> (r: Json)
    requires
        game@.wf(),
    ensures
        r@ == notice_json(
            kind.board_title().0,
            kind.board_title().1,
            board_text(game@, kind.speeches_view(game@)),
        ),
{
    let (title, template) = kind.board();
    let text = board_lines(game, kind.speeches(game));
    build_notice_card(title, template, text.as_str())
}

// ---- choices ----

pub open spec fn target_button_json(g: WolfGameView, seat: usize, action: Seq<char>, target: usize) -> JsonView {
    button_json(
        decimal(target as nat) + " 号 "@ + g.players[target as int].name,
        press_json(g, seat, action).with_text("target"@, g.players[target as int].open_id),
        "default"@,
    )
}

/// A button for each of the seats.
pub open spec fn target_buttons_json(g: WolfGameView, seat: usize, action: Seq<char>, targets: Seq<usize>) -> Seq<JsonView> {
    targets.map_values(|t: usize| target_button_json(g, seat, action, t))
}

fn target_buttons(game: &WolfGame, seat: usize, action: &str, targets: &Vec<usize>) -> (r: Vec<Json>)
    requires
        seat < game@.players.len(),
        seats_in(targets@, game@.players.len()),
    ensures
        list_view(r@) == target_buttons_json(game@, seat, action@, targets@),
{
    let ghost want = target_buttons_json(game@, seat, action@, targets@);
    let mut out = no_items();
    let mut i: usize = 0;
    while i < targets.len()
        invariant
            seat < game@.players.len(),
            seats_in(targets@, game@.players.len()),
            want == target_buttons_json(game@, seat, action@, targets@),
            i <= targets@.len() == want.len(),
            list_view(out@) =~= want.take(i as int),
        decreases want.len() - i,
    {
        let t = targets[i];
        assert(targets@[i as int] < game@.players.len());
        assert(game@.players[t as int] == game.players@[t as int]@);
        let label = plus(plus(plus_number(String::new(), t as u64), " 号 "), game.players[t].name.as_str());
        assert(label@ =~= decimal(t as nat) + " 号 "@ + game@.players[t as int].name);
        let value = press(game, seat, action).with_text("target", game.players[t].open_id.as_str());
        assert(want.take(i + 1) =~= want.take(i as int).push(want[i as int]));
        append_item(&mut out, button(label.as_str(), value, "default"));
        i = i + 1;
    }
    assert(want.take(i as int) =~= want);
    out
}

/// A button for each who can be named, and one for nobody.
pub open spec fn choice_buttons_json(
    g: WolfGameView,
    seat: usize,
    action: Seq<char>,
    targets: Seq<usize>,
    other: Option<(Seq<char>, Seq<char>)>,
) -> Seq<JsonView> {
    let buttons = target_buttons_json(g, seat, action, targets);
    match other {
        Some((label, id)) => buttons.push(button_json(label, press_json(g, seat, id), "default"@)),
        None => buttons,
    }
}

/// A question with its buttons.
pub open spec fn choice_card_json(
    g: WolfGameView,
    seat: usize,
    title: Seq<char>,
    text: Seq<char>,
    action: Seq<char>,
    targets: Seq<usize>,
    other: Option<(Seq<char>, Seq<char>)>,
) -> JsonView {
    card_json(
        header_json(title, "purple"@),
        seq![markdown_json(text), button_row_json(choice_buttons_json(g, seat, action, targets, other))],
    )
}

fn choice_card(
    game: &WolfGame,
    seat: usize,
    title: &str,
    text: &str,
    action: &str,
    targets: &Vec<usize>,
    other: Option<(&'static str, &'static str)>,
) -> (r: Json)
    requires
        seat < game@.players.len(),
        seats_in(targets@, game@.players.len()),
    ensures
        r@ == choice_card_json(
            game@,
            seat,
            title@,
            text@,
            action@,
            targets@,
            match other {
                Some((label, id)) => Some((label@, id@)),
                None => None,
            },
        ),
{
    let mut buttons = target_buttons(game, seat, action, targets);
    match other {
        Some((label, id)) => {
            append_item(&mut buttons, button(label, press(game, seat, id), "default"));
        },
        None => {},
    }
    let ghost shown: Option<(Seq<char>, Seq<char>)> = match other {
        Some((label, id)) => Some((label@, id@)),
        None => None,
    };
    assert(list_view(buttons@) == choice_buttons_json(game@, seat, action@, targets@, shown));
    card(header(title, "purple"), two_items(markdown(text), button_row(buttons)))
}

/// Two buttons without a target.
pub open spec fn either_card_json(g: WolfGameView, seat: usize, title: Seq<char>, text: Seq<char>, a: (Seq<char>, Seq<char>), b: (Seq<char>, Seq<char>)) -> JsonView {
    card_json(
        header_json(title, "purple"@),
        seq![
            markdown_json(text),
            button_row_json(
                seq![
                    button_json(a.0, press_json(g, seat, a.1), "primary"@),
                    button_json(b.0, press_json(g, seat, b.1), "default"@),
                ],
            ),
        ],
    )
}

fn either_card(
    game: &WolfGame,
    seat: usize,
    title: &str,
    text: &str,
    a: (&'static str, &'static str),
    b: (&'static str, &'static str),
) -> (r: Json)
    requires
        seat < game@.players.len(),
    ensures
        r@ == either_card_json(game@, seat, title@, text@, (a.0@, a.1@), (b.0@, b.1@)),
{
    let buttons = two_items(
        button(a.0, press(game, seat, a.1), "primary"),
        button(b.0, press(game, seat, b.1), "default"),
    );
    card(header(title, "purple"), two_items(markdown(text), button_row(buttons)))
}

/// The living but for the one at `seat`.
pub open spec fn living_others(g: WolfGameView, seat: usize) -> Seq<usize> {
    apart(living(g.players), seq![seat])
}

fn list_others(game: &WolfGame, seat: usize) -> (r: Vec<usize>)
    requires
        game@.wf(),
    ensures
        r@ == living_others(game@, seat),
        seats_in(r@, game@.players.len()),
{
    let alive = game.alive_indices();
    let me: Vec<usize> = vec![seat];
    assert(me@ =~= seq![seat]);
    let n = game.players.len();
    assert(n == game@.players.len());
    super::day::list_apart(&alive, &me, n)
}

/// The living who are no wolves.
pub open spec fn living_prey(g: WolfGameView) -> Seq<usize> {
    apart(living(g.players), living_wolves(g.players))
}

fn list_prey(game: &WolfGame) -> (r: Vec<usize>)
    requires
        game@.wf(),
    ensures
        r@ == living_prey(game@),
        seats_in(r@, game@.players.len()),
{
    let alive = game.alive_indices();
    let pack = game.alive_wolves();
    let n = game.players.len();
    assert(n == game@.players.len());
    super::day::list_apart(&alive, &pack, n)
}

// ---- the wolves' card ----

pub open spec fn pick_line(g: WolfGameView, v: (usize, usize)) -> Seq<char> {
    "🎯 "@ + g.players[v.0 as int].name + " → "@ + g.players[v.1 as int].name
}

pub open spec fn chat_line(g: WolfGameView, c: (usize, Seq<char>)) -> Seq<char> {
    "💬 "@ + g.players[c.0 as int].name + "："@ + c.1
}

/// How things stand among the wolves.
pub open spec fn pack_text(g: WolfGameView) -> Seq<char> {
    joined(
        seq!["和队友商量今晚的目标"@] + g.wolf_kill_votes.map_values(|v: (usize, usize)| pick_line(g, v))
            + g.wolf_chat.map_values(|c: (usize, Seq<char>)| chat_line(g, c)),
        "\n"@,
    )
}

fn pack_lines(game: &WolfGame) -> (r: String)
    requires
        game@.wf(),
    ensures
        r@ == pack_text(game@),
{
    let ghost head = seq!["和队友商量今晚的目标"@];
    let ghost picks = game@.wolf_kill_votes.map_values(|v: (usize, usize)| pick_line(game@, v));
    let ghost chat = game@.wolf_chat.map_values(|c: (usize, Seq<char>)| chat_line(game@, c));
    let mut out = no_texts();
    append_text(&mut out, "和队友商量今晚的目标".to_owned());
    assert(texts(out@) =~= head + picks.take(0));
    let mut i: usize = 0;
    while i < game.wolf_kill_votes.len()
        invariant
            game@.wf(),
            picks == game@.wolf_kill_votes.map_values(|v: (usize, usize)| pick_line(game@, v)),
            i <= game.wolf_kill_votes@.len() == picks.len(),
            texts(out@) =~= head + picks.take(i as int),
        decreases picks.len() - i,
    {
        let (w, t) = game.wolf_kill_votes[i];
        assert(game@.wolf_kill_votes[i as int].0 < game@.players.len() && game@.wolf_kill_votes[i as int].1 < game@.players.len());
        assert(game@.players[w as int] == game.players@[w as int]@);
        assert(game@.players[t as int] == game.players@[t as int]@);
        let line = plus(plus("🎯 ".to_owned(), game.players[w].name.as_str()), " → ");
        assert(picks.take(i + 1) =~= picks.take(i as int).push(picks[i as int]));
        append_text(&mut out, plus(line, game.players[t].name.as_str()));
        i = i + 1;
    }
    assert(picks.take(i as int) =~= picks);
    let ghost so_far = head + picks;
    assert(so_far + chat.take(0) =~= so_far);
    let mut i: usize = 0;
    while i < game.wolf_chat.len()
        invariant
            game@.wf(),
            chat == game@.wolf_chat.map_values(|c: (usize, Seq<char>)| chat_line(game@, c)),
            i <= game.wolf_chat@.len() == chat.len() == game@.wolf_chat.len(),
            texts(out@) =~= so_far + chat.take(i as int),
        decreases chat.len() - i,
    {
        assert(game@.wolf_chat[i as int].0 < game@.players.len());
        let c = &game.wolf_chat[i];
        assert(game@.players[c.0 as int] == game.players@[c.0 as int]@);
        let line = plus(plus("💬 ".to_owned(), game.players[c.0].name.as_str()), "：");
        assert(chat.take(i + 1) =~= chat.take(i as int).push(chat[i as int]));
        append_text(&mut out, plus(line, c.1.as_str()));
        i = i + 1;
    }
    assert(chat.take(i as int) =~= chat);
    join(&out, "\n")
}

pub open spec fn wolf_card_json(g: WolfGameView, seat: usize) -> JsonView {
    card_json(
        header_json("🐺 狼人行动"@, "carmine"@),
        seq![
            markdown_json(pack_text(g)),
            button_row_json(target_buttons_json(g, seat, "wolf_kill"@, living_prey(g))),
            form_json(
                "wolf_chat"@,
                seq![
                    text_input_json("message"@, "对队友说…"@),
                    submit_button_json("wolf_chat_send"@, "发送"@, press_json(g, seat, "wolf_chat_send"@), "default"@),
                ],
            ),
            button_row_json(seq![button_json("我决定了"@, press_json(g, seat, "wolf_ready"@), "primary"@)]),
        ],
    )
}

/// The card on which a wolf chooses, talks to the pack and says that their
/// choice stands.
pub fn build_wolf_night_card(game: &WolfGame, seat: usize) -> (r: Json)
    requires
        game@.wf(),
        seat < game@.players.len(),
    ensures
        r@ == wolf_card_json(game@, seat),
{
    let prey = list_prey(game);
    let mut elements = no_items();
    append_item(&mut elements, markdown(pack_lines(game).as_str()));
    append_item(&mut elements, button_row(target_buttons(game, seat, "wolf_kill", &prey)));
    let fields = two_items(
        text_input("message", "对队友说…"),
        submit_button_named("wolf_chat_send", "发送", press(game, seat, "wolf_chat_send"), "default"),
    );
    append_item(&mut elements, form("wolf_chat", fields));
    append_item(&mut elements, button_row(one_item(button("我决定了", press(game, seat, "wolf_ready"), "primary"))));
    assert(list_view(elements@) =~= seq![
        markdown_json(pack_text(game@)),
        button_row_json(target_buttons_json(game@, seat, "wolf_kill"@, living_prey(game@))),
        form_json(
            "wolf_chat"@,
            seq![
                text_input_json("message"@, "对队友说…"@),
                submit_button_json("wolf_chat_send"@, "发送"@, press_json(game@, seat, "wolf_chat_send"@), "default"@),
            ],
        ),
        button_row_json(seq![button_json("我决定了"@, press_json(game@, seat, "wolf_ready"@), "primary"@)]),
    ]);
    card(header("🐺 狼人行动", "carmine"), elements)
}

// ---- the witch's card ----

pub open spec fn witch_text(g: WolfGameView) -> Seq<char> {
    (match g.night_victim {
        Some(i) => "今晚狼刀目标：**"@ + g.players[i as int].name + "**"@,
        None => "今晚狼人空刀"@,
    }) + "\n救药 "@ + (if g.witch_save_used { "✗ 已用"@ } else { "✓ 可用"@ }) + " · 毒药 "@ + (if g.witch_poison_used {
        "✗ 已用"@
    } else {
        "✓ 可用"@
    })
}

pub open spec fn witch_card_json(g: WolfGameView, seat: usize) -> JsonView {
    card_json(
        header_json("🧪 女巫行动"@, "purple"@),
        seq![
            markdown_json(witch_text(g)),
            button_row_json(
                seq![
                    button_json("💊 用救药"@, press_json(g, seat, "wolf_witch_save"@), "primary"@),
                    button_json("跳过"@, press_json(g, seat, "wolf_witch_skip"@), "default"@),
                ],
            ),
            markdown_json("☠️ 用毒药："@),
            button_row_json(target_buttons_json(g, seat, "wolf_witch_poison"@, living_others(g, seat))),
        ],
    )
}

/// The card on which the witch saves, poisons or waits.
pub fn build_witch_night_card(game: &WolfGame, seat: usize) -> (r: Json)
    requires
        game@.wf(),
        seat < game@.players.len(),
    ensures
        r@ == witch_card_json(game@, seat),
{
    let victim = match game.night_victim {
        Some(i) => {
            assert(game@.players[i as int] == game.players@[i as int]@);
            plus(plus("今晚狼刀目标：**".to_owned(), game.players[i].name.as_str()), "**")
        },
        None => "今晚狼人空刀".to_owned(),
    };
    let s = plus(plus(victim, "\n救药 "), if game.witch_save_used { "✗ 已用" } else { "✓ 可用" });
    let s = plus(plus(s, " · 毒药 "), if game.witch_poison_used { "✗ 已用" } else { "✓ 可用" });
    assert(s@ =~= witch_text(game@));
    let others = list_others(game, seat);
    let buttons = two_items(
        button("💊 用救药", press(game, seat, "wolf_witch_save"), "primary"),
        button("跳过", press(game, seat, "wolf_witch_skip"), "default"),
    );
    let mut elements = no_items();
    append_item(&mut elements, markdown(s.as_str()));
    append_item(&mut elements, button_row(buttons));
    append_item(&mut elements, markdown("☠️ 用毒药："));
    append_item(&mut elements, button_row(target_buttons(game, seat, "wolf_witch_poison", &others)));
    assert(list_view(elements@) =~= seq![
        markdown_json(witch_text(game@)),
        button_row_json(
            seq![
                button_json("💊 用救药"@, press_json(game@, seat, "wolf_witch_save"@), "primary"@),
                button_json("跳过"@, press_json(game@, seat, "wolf_witch_skip"@), "default"@),
            ],
        ),
        markdown_json("☠️ 用毒药："@),
        button_row_json(target_buttons_json(game@, seat, "wolf_witch_poison"@, living_others(game@, seat))),
    ]);
    card(header("🧪 女巫行动", "purple"), elements)
}

// ---- the card for a task ----

/// The living but for the one whom the guard protected last night.
pub open spec fn guard_choices(g: WolfGameView) -> Seq<usize> {
    match g.last_guard_target {
        Some(l) => apart(living(g.players), seq![l]),
        None => living(g.players),
    }
}

fn list_guard_choices(game: &WolfGame) -> (r: Vec<usize>)
    requires
        game@.wf(),
    ensures
        r@ == guard_choices(game@),
        seats_in(r@, game@.players.len()),
{
    match game.last_guard_target {
        Some(l) => list_others(game, l),
        None => game.alive_indices(),
    }
}

/// The card that a person is sent for a task.
pub open spec fn task_card_json(g: WolfGameView, seat: usize, task: Task) -> JsonView {
    match task {
        Task::Guard => choice_card_json(
            g,
            seat,
            "🛡️ 守卫行动"@,
            "今晚守护谁？"@,
            "wolf_guard_pick"@,
            guard_choices(g),
            None,
        ),
        Task::Wolf => wolf_card_json(g, seat),
        Task::Seer => choice_card_json(
            g,
            seat,
            "🔮 预言家行动"@,
            "今晚查验谁？"@,
            "wolf_seer_check"@,
            living_others(g, seat),
            None,
        ),
        Task::Witch => witch_card_json(g, seat),
        Task::LastWords => speech_card_json(g, seat, SpeechKind::LastWords.form_view()),
        Task::Shot => choice_card_json(
            g,
            seat,
            "🔫 开枪"@,
            "临死前带走谁？"@,
            "wolf_hunter_shoot"@,
            living_others(g, seat),
            Some(("不开枪"@, "wolf_hunter_skip"@)),
        ),
        Task::Badge => choice_card_json(
            g,
            seat,
            "🎖️ 警徽流转"@,
            "警徽移交给谁？"@,
            "wolf_badge_pass"@,
            living_others(g, seat),
            Some(("撕毁警徽"@, "wolf_badge_destroy"@)),
        ),
        Task::Run => either_card_json(
            g,
            seat,
            "🎖️ 上警"@,
            "是否参选警长？"@,
            ("上警"@, "wolf_sheriff_run"@),
            ("不上警"@, "wolf_sheriff_skip"@),
        ),
        Task::SheriffSpeech => speech_card_json(g, seat, SpeechKind::SheriffMain.form_view()),
        Task::SideSpeech => speech_card_json(g, seat, SpeechKind::SheriffSide.form_view()),
        Task::SheriffVote => choice_card_json(
            g,
            seat,
            "🗳️ 警长投票"@,
            "选谁当警长？"@,
            "wolf_sheriff_vote"@,
            g.candidates(),
            Some(("弃权"@, "wolf_sheriff_vote_abstain"@)),
        ),
        Task::Direction => either_card_json(
            g,
            seat,
            "🎖️ 发言方向"@,
            "你本人末位归票"@,
            ("警上（顺时针）"@, "wolf_sheriff_dir_up"@),
            ("警下（逆时针）"@, "wolf_sheriff_dir_down"@),
        ),
        Task::DaySpeech => speech_card_json(g, seat, SpeechKind::Day.form_view()),
        Task::Vote => choice_card_json(
            g,
            seat,
            "🗳️ 放逐投票"@,
            "投票放逐谁？"@,
            "wolf_vote"@,
            living_others(g, seat),
            Some(("弃权"@, "wolf_vote_abstain"@)),
        ),
    }
}

/// The card that a person is sent for a task.
pub fn build_task_card(game: &WolfGame, seat: usize, task: Task) -> (r: Json)
    requires
        game@.wf(),
        seat < game@.players.len(),
    ensures
        r@ == task_card_json(game@, seat, task),
{
    match task {
        Task::Guard => {
            let targets = list_guard_choices(game);
            choice_card(game, seat, "🛡️ 守卫行动", "今晚守护谁？", "wolf_guard_pick", &targets, None)
        },
        Task::Wolf => build_wolf_night_card(game, seat),
        Task::Seer => {
            let targets = list_others(game, seat);
            choice_card(game, seat, "🔮 预言家行动", "今晚查验谁？", "wolf_seer_check", &targets, None)
        },
        Task::Witch => build_witch_night_card(game, seat),
        Task::LastWords => build_speech_private_card(game, seat, SpeechKind::LastWords),
        Task::Shot => {
            let targets = list_others(game, seat);
            choice_card(
                game,
                seat,
                "🔫 开枪",
                "临死前带走谁？",
                "wolf_hunter_shoot",
                &targets,
                Some(("不开枪", "wolf_hunter_skip")),
            )
        },
        Task::Badge => {
            let targets = list_others(game, seat);
            choice_card(
                game,
                seat,
                "🎖️ 警徽流转",
                "警徽移交给谁？",
                "wolf_badge_pass",
                &targets,
                Some(("撕毁警徽", "wolf_badge_destroy")),
            )
        },
        Task::Run => either_card(
            game,
            seat,
            "🎖️ 上警",
            "是否参选警长？",
            ("上警", "wolf_sheriff_run"),
            ("不上警", "wolf_sheriff_skip"),
        ),
        Task::SheriffSpeech => build_speech_private_card(game, seat, SpeechKind::SheriffMain),
        Task::SideSpeech => build_speech_private_card(game, seat, SpeechKind::SheriffSide),
        Task::SheriffVote => {
            let targets = game.sheriff_candidates();
            choice_card(
                game,
                seat,
                "🗳️ 警长投票",
                "选谁当警长？",
                "wolf_sheriff_vote",
                &targets,
                Some(("弃权", "wolf_sheriff_vote_abstain")),
            )
        },
        Task::Direction => either_card(
            game,
            seat,
            "🎖️ 发言方向",
            "你本人末位归票",
            ("警上（顺时针）", "wolf_sheriff_dir_up"),
            ("警下（逆时针）", "wolf_sheriff_dir_down"),
        ),
        Task::DaySpeech => build_speech_private_card(game, seat, SpeechKind::Day),
        Task::Vote => {
            let targets = list_others(game, seat);
            choice_card(
                game,
                seat,
                "🗳️ 放逐投票",
                "投票放逐谁？",
                "wolf_vote",
                &targets,
                Some(("弃权", "wolf_vote_abstain")),
            )
        },
    }
}

// ---- what everybody is shown ----

pub open spec fn winner_text(w: Winner) -> Seq<char> {
    match w {
        Winner::Good => "🎉 好人阵营胜利"@,
        Winner::Wolves => "🐺 狼人阵营胜利"@,
    }
}

pub open spec fn role_line(p: WolfPlayerView) -> Seq<char> {
    p.name + "："@ + (match p.role {
        Some(r) => r.title(),
        None => "?"@,
    }) + (if p.alive { ""@ } else { "（出局）"@ })
}

pub open spec fn wolf_summary_json(g: WolfGameView, w: Winner) -> JsonView {
    notice_json(
        "🏁 狼人杀结束"@,
        "turquoise"@,
        winner_text(w) + "\n"@ + joined(g.players.map_values(|p: WolfPlayerView| role_line(p)), "\n"@),
    )
}

/// Who has won, and what everybody was.
pub fn build_wolf_summary_card(game: &WolfGame, w: Winner) -> (r: Json)
    ensures
        r@ == wolf_summary_json(game@, w),
{
    let ghost want = game@.players.map_values(|p: WolfPlayerView| role_line(p));
    let mut out = no_texts();
    let mut i: usize = 0;
    while i < game.players.len()
        invariant
            want == game@.players.map_values(|p: WolfPlayerView| role_line(p)),
            i <= game.players@.len() == want.len() == game@.players.len(),
            texts(out@) =~= want.take(i as int),
        decreases want.len() - i,
    {
        let p = &game.players[i];
        assert(game@.players[i as int] == p@);
        let role = match p.role {
            Some(r) => r.label(),
            None => "?",
        };
        let line = plus(plus(p.name.clone(), "："), role);
        let line = plus(line, if p.alive { "" } else { "（出局）" });
        assert(want.take(i + 1) =~= want.take(i as int).push(want[i as int]));
        append_text(&mut out, line);
        i = i + 1;
    }
    assert(want.take(i as int) =~= want);
    let head = match w {
        Winner::Good => "🎉 好人阵营胜利",
        Winner::Wolves => "🐺 狼人阵营胜利",
    };
    let text = plus(plus(head.to_owned(), "\n"), join(&out, "\n").as_str());
    build_notice_card("🏁 狼人杀结束", "turquoise", text.as_str())
}

pub open spec fn vote_line(g: WolfGameView, v: (usize, Option<usize>)) -> Seq<char> {
    g.players[v.0 as int].name + " → "@ + (match v.1 {
        Some(t) => g.players[t as int].name,
        None => "弃权"@,
    })
}

/// Who voted for whom, and who goes.
pub open spec fn tally_text(g: WolfGameView) -> Seq<char> {
    joined(g.day_votes.map_values(|v: (usize, Option<usize>)| vote_line(g, v)), "\n"@) + "\n"@ + (match g.lynched {
        Some(t) => "**"@ + g.players[t as int].name + "** 被放逐"@,
        None => "无人被放逐"@,
    })
}

/// Who voted for whom, and who goes.
pub fn build_vote_tally_card(game: &WolfGame) -> (r: Json)
    requires
        game@.wf(),
    ensures
        r@ == notice_json("🗳️ 投票结果"@, "blue"@, tally_text(game@)),
{
    let ghost want = game@.day_votes.map_values(|v: (usize, Option<usize>)| vote_line(game@, v));
    let mut out = no_texts();
    let mut i: usize = 0;
    while i < game.day_votes.len()
        invariant
            game@.wf(),
            want == game@.day_votes.map_values(|v: (usize, Option<usize>)| vote_line(game@, v)),
            i <= game.day_votes@.len() == want.len(),
            texts(out@) =~= want.take(i as int),
        decreases want.len() - i,
    {
        let (voter, target) = game.day_votes[i];
        assert(game@.day_votes[i as int].0 < game@.players.len());
        assert(game@.players[voter as int] == game.players@[voter as int]@);
        let line = plus(game.players[voter].name.clone(), " → ");
        let line = match target {
            Some(t) => {
                assert(game@.players[t as int] == game.players@[t as int]@);
                plus(line, game.players[t].name.as_str())
            },
            None => plus(line, "弃权"),
        };
        assert(want.take(i + 1) =~= want.take(i as int).push(want[i as int]));
        append_text(&mut out, line);
        i = i + 1;
    }
    assert(want.take(i as int) =~= want);
    let s = plus(join(&out, "\n"), "\n");
    let end = match game.lynched {
        Some(t) => {
            assert(game@.players[t as int] == game.players@[t as int]@);
            plus(plus("**".to_owned(), game.players[t].name.as_str()), "** 被放逐")
        },
        None => "无人被放逐".to_owned(),
    };
    let text = plus(s, end.as_str());
    build_notice_card("🗳️ 投票结果", "blue", text.as_str())
}

pub open spec fn identity_text(p: WolfPlayerView) -> Seq<char> {
    "你的身份：**"@ + (match p.role {
        Some(r) => r.title(),
        None => "?"@,
    }) + "**"@
}

/// What the player at `seat` is, for their eyes only.
pub fn build_identity_card(game: &WolfGame, seat: usize) -> (r: Json)
    requires
        seat < game@.players.len(),
    ensures
        r@ == notice_json("🎭 身份"@, "purple"@, identity_text(game@.players[seat as int])),
{
    assert(game@.players[seat as int] == game.players@[seat as int]@);
    let role = match game.players[seat].role {
        Some(r) => r.label(),
        None => "?",
    };
    let text = plus(plus("你的身份：**".to_owned(), role), "**");
    build_notice_card("🎭 身份", "purple", text.as_str())
}

// ---- what everybody is told ----

/// What has been told since the log had `from` lines, or nothing.
pub fn build_news_card(game: &WolfGame, from: usize) -> (r: Option<Json>)
    ensures
        match r {
            Some(c) => from < game@.event_log.len() && c@ == notice_json(
                "📢 公告"@,
                "blue"@,
                joined(game@.event_log.skip(from as int), "\n"@),
            ),
            None => from >= game@.event_log.len(),
        },
{
    if from >= game.event_log.len() {
        return None;
    }
    let ghost want = game@.event_log.skip(from as int);
    let mut out = no_texts();
    let mut i: usize = from;
    while i < game.event_log.len()
        invariant
            want == game@.event_log.skip(from as int),
            from <= i <= game.event_log@.len() == game@.event_log.len(),
            texts(out@) =~= want.take(i - from),
        decreases game.event_log@.len() - i,
    {
        assert(want.take(i - from + 1) =~= want.take(i - from).push(want[i - from]));
        assert(want[i - from] == game.event_log@[i as int]@);
        append_text(&mut out, game.event_log[i].clone());
        i = i + 1;
    }
    assert(want.take(i - from) =~= want);
    Some(build_notice_card("📢 公告", "blue", join(&out, "\n").as_str()))
}

/// The cards that follow a change of the game, in order: the count of a vote that
/// is over, what has been told, that a vote begins, and the end. Before the
/// change the game was in the stage `before`, and the log had `told` lines.
pub open spec fn follow_up_json(before: WolfStage, told: int, g: WolfGameView) -> Seq<JsonView> {
    let none = Seq::<JsonView>::empty();
    let tally = if before == WolfStage::DayVote && g.stage != WolfStage::DayVote {
        none.push(notice_json("🗳️ 投票结果"@, "blue"@, tally_text(g)))
    } else {
        none
    };
    let news = if told < g.event_log.len() {
        tally.push(notice_json("📢 公告"@, "blue"@, joined(g.event_log.skip(told), "\n"@)))
    } else {
        tally
    };
    let vote = if before != WolfStage::DayVote && g.stage == WolfStage::DayVote {
        news.push(notice_json("🗳️ 投票开始"@, "blue"@, "发言结束。每位存活玩家请通过私密卡投票。"@))
    } else {
        news
    };
    match winner(g.players) {
        Some(w) => if g.stage == WolfStage::Ended { vote.push(wolf_summary_json(g, w)) } else { vote },
        None => vote,
    }
}

/// The cards that follow a change of the game.
pub fn build_follow_up(before: WolfStage, told: usize, game: &WolfGame) -> (r: Vec<Json>)
    requires
        game@.wf(),
    ensures
        list_view(r@) == follow_up_json(before, told as int, game@),
{
    let mut out = no_items();
    if before == WolfStage::DayVote && game.stage != WolfStage::DayVote {
        append_item(&mut out, build_vote_tally_card(game));
    }
    if let Some(c) = build_news_card(game, told) {
        append_item(&mut out, c);
    }
    if before != WolfStage::DayVote && game.stage == WolfStage::DayVote {
        append_item(&mut out, build_vote_start_card());
    }
    if game.stage == WolfStage::Ended {
        if let Some(w) = game.victory() {
            append_item(&mut out, build_wolf_summary_card(game, w));
        }
    }
    assert(list_view(out@) =~= follow_up_json(before, told as int, game@));
    out
}

impl SpeechKind {
    /// Which speeches are held in a stage.
    pub fn of_stage(stage: WolfStage) -> (r: Option<SpeechKind>)
        ensures
            r == (match stage {
                WolfStage::SheriffSpeech => Some(SpeechKind::SheriffMain),
                WolfStage::SheriffSideSpeech => Some(SpeechKind::SheriffSide),
                WolfStage::DaySpeech => Some(SpeechKind::Day),
                WolfStage::LastWords => Some(SpeechKind::LastWords),
                _ => None,
            }),
    {
        match stage {
            WolfStage::SheriffSpeech => Some(SpeechKind::SheriffMain),
            WolfStage::SheriffSideSpeech => Some(SpeechKind::SheriffSide),
            WolfStage::DaySpeech => Some(SpeechKind::Day),
            WolfStage::LastWords => Some(SpeechKind::LastWords),
            _ => None,
        }
    }
}

/// What the seer is told of the player with this name.
pub fn build_seer_result_card(name: &str, is_wolf: bool) -> (r: Json)
    ensures
        r@ == notice_json(
            "🔮 查验结果"@,
            "purple"@,
            "**"@ + name@ + "** 是 **"@ + (if is_wolf { "狼人"@ } else { "好人"@ }) + "**"@,
        ),
{
    let s = plus(plus("**".to_owned(), name), "** 是 **");
    let s = plus(plus(s, if is_wolf { "狼人" } else { "好人" }), "**");
    build_notice_card("🔮 查验结果", "purple", s.as_str())
}

} // verus!
