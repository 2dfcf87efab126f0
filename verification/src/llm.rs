//! Decisions of an LLM-driven seat at the poker table: what the model is asked,
//! and what is made of its answer.

use vstd::prelude::*;
use vstd::string::*;
use crate::bot::cards::{card_labels, card_names};
use crate::game::view::GameView;
use crate::game::{Persona, PlayerAction};
use crate::poker::{Card, DeckMode};
use crate::text::{
    decimal, join, joined, lowercase, lowered, plus, plus_number, same_text, texts, trim, trimmed,
};

verus! {

/// Everything that the AI needs to make a decision.
#[derive(Debug, Clone)]
pub struct DecisionContext {
    pub mode: DeckMode,
    pub stage: String,
    pub hand_count: u32,
    pub pot: u64,
    pub current_bet: u64,
    pub big_blind: u64,
    pub my_name: String,
    pub my_stack: u64,
    pub my_bet_in_round: u64,
    pub to_call: u64,
    /// Largest legal raise_to (= chips + bet_in_round).
    pub my_max_to: u64,
    /// Smallest legal raise_to.
    pub min_raise_to: u64,
    pub hole: Vec<Card>,
    pub community: Vec<Card>,
    /// The win rate in percent, if it has been computed.
    pub equity: Option<u64>,
    /// Persona archetype shaping decision style.
    pub persona: Option<Persona>,
    /// One line per other player: name / stack / status / bet this round.
    pub others: Vec<String>,
    /// Recent action log lines for this hand.
    pub history: Vec<String>,
}

/// What the model answers.
#[derive(Debug, Clone)]
pub struct RawDecision {
    pub action: String,
    pub raise_to: Option<u64>,
    pub quip: Option<String>,
}

/// Final decision — the legal action plus an optional in-character one-liner
/// that the AI wants to drop in the chat.
#[derive(Debug, Clone)]
pub struct AiDecision {
    pub action: PlayerAction,
    pub quip: Option<String>,
}

pub const INTRO: &'static str = "你是飞书群里和朋友打德州扑克的玩家，不是职业选手。这是娱乐局，不是 EPT。";

pub const REST: &'static str = r#"## 怎么打

**人设决定打法，不是数学决定打法。** 提供给你的胜率、底池赔率、位置只是背景信息，帮你看清局面，但最终怎么出牌看你的人设：
- 「头铁」就该比胜率告诉你的更激进，「老抠」就该比 GTO 建议的更紧
- 「跟注站」该跟就跟，哪怕赔率不够；「老炮」拿到坚果牌就该价值最大化
- 不要每手都按 EV 最优来 —— 那是机器人，不是真人
- 偶尔做次优选择、偶尔上头、偶尔忍不住跟一手烂牌 —— 这才像群里那个朋友
- 同样的局面，不同人设应该出不同的牌；如果你的决策跟职业选手一样，那是失败

## 返回 JSON 结构

{
  "action": "fold" | "check" | "call" | "raise" | "allin",
  "raise_to": <整数, 仅当 action="raise" 时填，表示加注后你这一轮的总下注金额>,
  "thinking": "<一句话内部决策理由，可选, 群里看不到>",
  "quip": "<可选的群聊俏皮话, 不想说就 null>"
}

## 关于 quip

这是你想随口说的一句话，会以 "💬 你: <quip>" 发到群里给其他玩家看。
- 像真人在群聊打字一样，别像扑克节目解说。可以短、可以口语、可以带语气词
- ≤ 30 字、一句话、中文（带 emoji 也行但别堆）
- **大部分时候应该是 null** —— 一直说话很烦。平均每 4 个动作冒一句的节奏
- 弃牌 / 普通 check / 普通 call 通常 null
- 加注 / 全押 / 局面有意思的关键决策可以偶尔来一句
- 按你的人设语气来，不用解释自己是什么风格

## quip 示例

{"action": "raise", "raise_to": 80, "thinking": "AK 强牌", "quip": "我加点"}
{"action": "raise", "raise_to": 200, "thinking": "他在偷池", "quip": "你这牌不像有戏"}
{"action": "allin", "thinking": "短码值得搏", "quip": "行 我跟你拼了"}
{"action": "call", "thinking": "底池赔率合适", "quip": "嗯 跟"}
{"action": "call", "thinking": "看下一张", "quip": null}
{"action": "fold", "thinking": "牌太烂", "quip": "这把先撤"}
{"action": "fold", "thinking": "明显被打到了", "quip": null}
{"action": "check", "thinking": "免费看牌", "quip": null}
{"action": "check", "thinking": "陷阱一下", "quip": "过"}

## 硬性规则（违反会被拒）

- 当前 to_call=0 时只能 check / raise / allin (不能 fold/call)
- 当前 to_call>0 时只能 fold / call / raise / allin (不能 check)
- raise_to 必须 ≥ min_raise_to 且 ≤ my_max_to
- 仅返回单个有效 JSON 对象，不要任何其他文字、不要 markdown、不要代码块包装"#;

/// Who the seat is.
pub open spec fn persona_section(persona: Option<Persona>) -> Seq<char> {
    match persona {
        Some(p) => "## 你是谁\n\n**"@ + p.title() + "** —— "@ + p.portrait()
            + "\n\n这是你的人设。打牌按这个风格来，不是按教科书。其他玩家应该能从你的打法 \"读\" 出来你是谁。"@,
        None => "## 你是谁\n\n群里普通玩家，按一般直觉打。"@,
    }
}

pub open spec fn system_prompt_text(persona: Option<Persona>) -> Seq<char> {
    INTRO@ + "\n\n"@ + persona_section(persona) + "\n\n"@ + REST@
}

/// Build the system prompt with the persona slotted in at the top — the model
/// should anchor on character first and treat the math as background rather
/// than as the primary driver.
pub fn system_prompt(persona: Option<Persona>) -> (r: String)
    ensures
        r@ == system_prompt_text(persona),
{
    let section = match persona {
        Some(p) => {
            let s = plus("## 你是谁\n\n**".to_owned(), p.label());
            let s = plus(plus(s, "** —— "), p.description());
            plus(
                s,
                "\n\n这是你的人设。打牌按这个风格来，不是按教科书。其他玩家应该能从你的打法 \"读\" 出来你是谁。",
            )
        },
        None => "## 你是谁\n\n群里普通玩家，按一般直觉打。".to_owned(),
    };
    let s = plus(plus(INTRO.to_owned(), "\n\n"), section.as_str());
    plus(plus(s, "\n\n"), REST)
}

pub open spec fn mode_text(mode: DeckMode) -> Seq<char> {
    match mode {
        DeckMode::Standard => "标准 (52 张)"@,
        DeckMode::ShortDeck => "短牌 / 6+ Hold'em (36 张, 同花>葫芦, 三条>顺子, A-6-7-8-9 是顺子)"@,
    }
}

pub open spec fn equity_text(equity: Option<u64>) -> Seq<char> {
    match equity {
        Some(e) => decimal(e as nat) + "%"@,
        None => "未计算"@,
    }
}

/// The lines, or another text where there are none.
pub open spec fn lines_or(lines: Seq<Seq<char>>, none: Seq<char>) -> Seq<char> {
    if lines.len() == 0 { none } else { joined(lines, "\n  "@) }
}

fn join_or(lines: &Vec<String>, none: &str) -> (r: String)
    ensures
        r@ == lines_or(texts(lines@), none@),
{
    assert(texts(lines@).len() == lines@.len());
    if lines.len() == 0 {
        none.to_owned()
    } else {
        join(lines, "\n  ")
    }
}

/// What the model is told of the table.
pub open spec fn prompt_table(c: DecisionContext) -> Seq<char> {
    let community = if c.community@.len() == 0 { "（暂无）"@ } else { joined(card_names(c.community@), " "@) };
    "## 牌局\n模式: "@ + mode_text(c.mode) + "\n阶段: "@ + c.stage@ + " (第 "@ + decimal(c.hand_count as nat)
        + " 局)\n底池: "@ + decimal(c.pot as nat) + " | 当前下注: "@ + decimal(c.current_bet as nat) + " | 大盲: "@
        + decimal(c.big_blind as nat) + "\n公共牌: "@ + community
}

/// What the model is told of its own seat.
pub open spec fn prompt_self(c: DecisionContext) -> Seq<char> {
    "\n\n## 你 ("@ + c.my_name@ + ")\n筹码: "@ + decimal(c.my_stack as nat) + " | 本轮已下: "@
        + decimal(c.my_bet_in_round as nat) + " | 需要跟注: "@ + decimal(c.to_call as nat) + "\n手牌: "@
        + joined(card_names(c.hole@), " "@) + "\n胜率 (Monte Carlo, vs 随机对手): "@ + equity_text(c.equity)
        + "\n合法加注金额范围: "@ + decimal(c.min_raise_to as nat) + " ≤ raise_to ≤ "@ + decimal(c.my_max_to as nat)
}

pub open spec fn prompt_text(c: DecisionContext) -> Seq<char> {
    prompt_table(c) + prompt_self(c) + "\n\n## 其他玩家\n  "@ + lines_or(texts(c.others@), "（无）"@)
        + "\n\n## 本手行动历史\n  "@ + lines_or(texts(c.history@), "（本手尚无行动）"@)
}

fn build_prompt_table(c: &DecisionContext) -> (r: String)
    ensures
        r@ == prompt_table(*c),
{
    let mode = match c.mode {
        DeckMode::Standard => "标准 (52 张)",
        DeckMode::ShortDeck => "短牌 / 6+ Hold'em (36 张, 同花>葫芦, 三条>顺子, A-6-7-8-9 是顺子)",
    };
    let community = if c.community.len() == 0 {
        "（暂无）".to_owned()
    } else {
        card_labels(c.community.as_slice())
    };
    let s = plus("## 牌局\n模式: ".to_owned(), mode);
    let s = plus(plus(s, "\n阶段: "), c.stage.as_str());
    let s = plus_number(plus(s, " (第 "), c.hand_count as u64);
    let s = plus_number(plus(s, " 局)\n底池: "), c.pot);
    let s = plus_number(plus(s, " | 当前下注: "), c.current_bet);
    let s = plus_number(plus(s, " | 大盲: "), c.big_blind);
    plus(plus(s, "\n公共牌: "), community.as_str())
}

fn build_prompt_self(c: &DecisionContext) -> (r: String)
    ensures
        r@ == prompt_self(*c),
{
    let equity = match c.equity {
        Some(e) => plus_number(String::new(), e),
        None => "未计算".to_owned(),
    };
    let equity = match c.equity {
        Some(_) => plus(equity, "%"),
        None => equity,
    };
    assert(equity@ =~= equity_text(c.equity));
    let s = plus("\n\n## 你 (".to_owned(), c.my_name.as_str());
    let s = plus_number(plus(s, ")\n筹码: "), c.my_stack);
    let s = plus_number(plus(s, " | 本轮已下: "), c.my_bet_in_round);
    let s = plus_number(plus(s, " | 需要跟注: "), c.to_call);
    let s = plus(plus(s, "\n手牌: "), card_labels(c.hole.as_slice()).as_str());
    let s = plus(plus(s, "\n胜率 (Monte Carlo, vs 随机对手): "), equity.as_str());
    let s = plus_number(plus(s, "\n合法加注金额范围: "), c.min_raise_to);
    plus_number(plus(s, " ≤ raise_to ≤ "), c.my_max_to)
}

/// What the model is asked.
pub fn build_prompt(c: &DecisionContext) -> (r: String)
    ensures
        r@ == prompt_text(*c),
{
    let s = plus(build_prompt_table(c), build_prompt_self(c).as_str());
    let s = plus(plus(s, "\n\n## 其他玩家\n  "), join_or(&c.others, "（无）").as_str());
    plus(plus(s, "\n\n## 本手行动历史\n  "), join_or(&c.history, "（本手尚无行动）").as_str())
}

/// Check if it is free, otherwise fold.
pub open spec fn safe_action(c: DecisionContext) -> PlayerAction {
    if c.to_call == 0 { PlayerAction::Check } else { PlayerAction::Fold }
}

/// Default safe action when the LLM fails or returns garbage: check if it's
/// free, otherwise fold.
pub fn fallback_action(c: &DecisionContext) -> (r: PlayerAction)
    ensures
        r == safe_action(*c),
{
    if c.to_call == 0 {
        PlayerAction::Check
    } else {
        PlayerAction::Fold
    }
}

/// The amount that the model wants to raise to, brought into the legal range.
pub open spec fn wanted_raise(raise_to: Option<u64>, c: DecisionContext) -> u64 {
    let want = match raise_to {
        Some(n) => if n >= c.min_raise_to { n } else { c.min_raise_to },
        None => c.min_raise_to,
    };
    if want <= c.my_max_to { want } else { c.my_max_to }
}

/// The legal action closest to what the model says, with its word in lower
/// case.
pub open spec fn legal_action(action: Seq<char>, raise_to: Option<u64>, c: DecisionContext) -> PlayerAction {
    if action == "fold"@ {
        safe_action(c)
    } else if action == "check"@ {
        safe_action(c)
    } else if action == "call"@ {
        if c.to_call == 0 {
            PlayerAction::Check
        } else if c.my_stack <= c.to_call {
            PlayerAction::AllIn
        } else {
            PlayerAction::Call
        }
    } else if action == "allin"@ || action == "all_in"@ || action == "all-in"@ {
        PlayerAction::AllIn
    } else if action == "raise"@ || action == "bet"@ {
        let want = wanted_raise(raise_to, c);
        if want >= c.my_max_to || c.my_stack <= c.to_call {
            PlayerAction::AllIn
        } else {
            PlayerAction::RaiseTo(want)
        }
    } else {
        safe_action(c)
    }
}

/// The legal action closest to what the model says, with its word in lower
/// case.
pub fn clamp_action(action: &str, raise_to: Option<u64>, c: &DecisionContext) -> (r: PlayerAction)
    ensures
        r == legal_action(action@, raise_to, *c),
{
    if same_text(action, "fold") || same_text(action, "check") {
        fallback_action(c)
    } else if same_text(action, "call") {
        if c.to_call == 0 {
            PlayerAction::Check
        } else if c.my_stack <= c.to_call {
            PlayerAction::AllIn
        } else {
            PlayerAction::Call
        }
    } else if same_text(action, "allin") || same_text(action, "all_in") || same_text(action, "all-in") {
        PlayerAction::AllIn
    } else if same_text(action, "raise") || same_text(action, "bet") {
        let asked: u64 = match raise_to {
            Some(n) => if n >= c.min_raise_to { n } else { c.min_raise_to },
            None => c.min_raise_to,
        };
        let want: u64 = if asked <= c.my_max_to { asked } else { c.my_max_to };
        if want >= c.my_max_to {
            PlayerAction::AllIn
        } else if c.my_stack <= c.to_call {
            PlayerAction::AllIn
        } else {
            PlayerAction::RaiseTo(want)
        }
    } else {
        fallback_action(c)
    }
}

/// Coerce the model's raw output into a legal action. Anything that is not
/// recognised (or that violates the betting rules for the current state) is
/// downgraded toward fold or check rather than crashing the hand.
pub fn clamp_to_legal(raw: &RawDecision, c: &DecisionContext) -> (r: PlayerAction)
    ensures
        r == legal_action(lowered(raw.action@), raw.raise_to, *c),
{
    let word = lowercase(raw.action.as_str());
    clamp_action(word.as_str(), raw.raise_to, c)
}

/// The one-liner to post: without white space around it, and none if nothing
/// is left.
pub open spec fn quip_of(quip: Option<Seq<char>>) -> Option<Seq<char>> {
    match quip {
        Some(q) => if trimmed(q).len() == 0 { None } else { Some(trimmed(q)) },
        None => None,
    }
}

pub open spec fn option_view(t: Option<String>) -> Option<Seq<char>> {
    match t {
        Some(s) => Some(s@),
        None => None,
    }
}

/// What is made of the model's answer, or of its silence.
pub fn decide(answer: Option<&RawDecision>, c: &DecisionContext) -> (r: AiDecision)
    ensures
        match answer {
            Some(raw) => r.action == legal_action(lowered(raw.action@), raw.raise_to, *c) && option_view(r.quip) == quip_of(
                option_view(raw.quip),
            ),
            None => r.action == safe_action(*c) && r.quip is None,
        },
{
    match answer {
        Some(raw) => {
            let quip = match &raw.quip {
                Some(q) => {
                    let t = trim(q.as_str());
                    if t.unicode_len() == 0 {
                        None
                    } else {
                        Some(t.to_owned())
                    }
                },
                None => None,
            };
            AiDecision { action: clamp_to_legal(raw, c), quip }
        },
        None => AiDecision { action: fallback_action(c), quip: None },
    }
}

/// Whether the context tells the table as it is for seat `idx`.
pub open spec fn describes(c: DecisionContext, g: GameView, idx: int) -> bool {
    let p = g.players[idx];
    &&& c.to_call == g.to_call(idx)
    &&& c.my_stack == p.chips
    &&& c.my_max_to == p.chips + p.bet_in_round
    &&& c.min_raise_to == if g.current_bet + g.min_raise > g.big_blind { g.current_bet + g.min_raise } else { g.big_blind }
}

/// Whatever the model says, the table does not refuse what is made of it.
pub proof fn clamped_actions_are_legal(g: GameView, idx: int, c: DecisionContext, action: Seq<char>, raise_to: Option<u64>)
    requires
        g.wf(),
        g.stage.betting(),
        0 <= idx < g.players.len(),
        g.players[idx].can_bet(),
        describes(c, g, idx),
    ensures
        g.applied(idx, legal_action(action, raise_to, c)) is Ok,
        g.applied(idx, safe_action(c)) is Ok,
{
    assert(g.player_wf(g.players[idx]));
}

} // verus!
