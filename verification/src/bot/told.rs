//! What the chat is told after an action, and what an AI at the table is told.

use vstd::prelude::*;
use vstd::string::*;
use crate::feishu::cards::markdown_json;
use crate::feishu::events::MentionView;
use crate::game::view::{GameView, OutcomeView, PayoutView, PlayerView, ShowdownView, SummaryView};
use crate::game::{ActionKind, ActionLogEntry, Stage};
use crate::llm::quip_of;
use crate::poker::hand::category_title;
use crate::poker::DeckMode;
use crate::spelling::{how_texts_are_joined, numbers_are_told_apart};
use crate::text::{decimal, removed, trimmed};
use super::cards::{
    action_text, announcement_text, cards_row_json, mention, mention_id, payout_line, showdown_part, showdown_parts,
    summary_elements,
};
use super::commands::{cleaned, mentioned};
use super::context::opponents;
use super::mocks::{announcement_json, stage_json};
use super::outcome::{after_outcome, outcome_cards_json, summary_card_json, AfterAction};
use super::snapshot::SnapshotView;

verus! {

/// The chat is told first who did what, then of each street that was dealt, in order, and
/// at last of the end of the hand, if it has ended. It is told of nothing else.
pub proof fn what_the_chat_is_told(snap: SnapshotView, o: OutcomeView, mode: DeckMode, k: int)
    requires
        0 <= k < o.extra_stages.len(),
    ensures
        ({
            let cards = outcome_cards_json(snap, o, mode);
            let s: int = if o.stage_cards is Some { 1 } else { 0 };
            let e: int = if o.summary is Some { 1 } else { 0 };
            &&& cards.len() == 1 + s + o.extra_stages.len() + e
            &&& cards[0] == announcement_json(snap, o.log)
            &&& o.stage_cards matches Some((street, dealt)) ==> cards[1] == stage_json(street, dealt, snap)
            &&& cards[1 + s + k] == stage_json(o.extra_stages[k].0, o.extra_stages[k].1, snap)
            &&& o.summary matches Some(end) ==> cards.last() == summary_card_json(snap, end, mode)
        }),
{
}

/// Where no street follows another, the chat is told who did what, of the street if one
/// was dealt, and of the end if there is one.
pub proof fn what_the_chat_is_told_of_one_street(snap: SnapshotView, o: OutcomeView, mode: DeckMode)
    requires
        o.extra_stages.len() == 0,
    ensures
        ({
            let cards = outcome_cards_json(snap, o, mode);
            let first = announcement_json(snap, o.log);
            &&& o.stage_cards is None && o.summary is None ==> cards == seq![first]
            &&& o.stage_cards matches Some((street, dealt)) ==> o.summary is None ==> cards == seq![
                first,
                stage_json(street, dealt, snap),
            ]
            &&& o.stage_cards is None ==> (o.summary matches Some(end) ==> cards == seq![first, summary_card_json(snap, end, mode)])
        }),
{
    assert(o.extra_stages =~= Seq::empty());
}

/// The lobby comes up again exactly when the hand has ended; otherwise, while the hand is
/// bet, the next player is turned to.
pub proof fn what_comes_after_the_cards(g: GameView, o: OutcomeView)
    requires
        g.wf(),
    ensures
        after_outcome(g, o) == AfterAction::NewLobby <==> o.summary is Some,
        o.summary is None && (g.stage == Stage::PreFlop || g.stage == Stage::Flop || g.stage == Stage::Turn || g.stage
            == Stage::River) ==> after_outcome(g, o) == AfterAction::PromptActor,
        g.stage == Stage::Lobby && o.summary is None ==> after_outcome(g, o) == AfterAction::Nothing,
{
}

/// A text is for the bot when one of those mentioned in it is the bot, and only then; it
/// is for no bot that is not known.
pub proof fn who_is_mentioned(mentions: Seq<MentionView>, bot: Seq<char>, k: int)
    ensures
        bot.len() > 0 && 0 <= k < mentions.len() && mentions[k].open_id == bot ==> mentioned(mentions, bot),
        mentioned(mentions, bot) ==> mentions.map_values(|m: MentionView| m.open_id).contains(bot),
        !mentioned(mentions, Seq::empty()),
{
    if mentioned(mentions, bot) {
        let i = choose|i: int| 0 <= i < mentions.len() && (#[trigger] mentions[i]).open_id == bot;
        assert(mentions.map_values(|m: MentionView| m.open_id)[i] == bot);
    }
}

/// The marks of the mentions go, one after the other, and nothing else does.
pub proof fn marks_are_taken_out(text: Seq<char>, mentions: Seq<MentionView>, n: nat)
    requires
        n < mentions.len(),
    ensures
        cleaned(text, mentions, 0) == text,
        cleaned(text, mentions, n + 1) == removed(cleaned(text, mentions, n), mentions[n as int].key),
{
}

/// The last player counts as an opponent exactly when they are another and in the hand,
/// neither folded nor sitting out.
pub proof fn who_is_an_opponent(players: Seq<PlayerView>, seat: int, n: nat)
    requires
        0 < n <= players.len(),
    ensures
        ({
            let p = players[n - 1];
            opponents(players, seat, n) - opponents(players, seat, (n - 1) as nat) == if n - 1 != seat && !p.folded && !p.sat_out {
                1int
            } else {
                0int
            }
        }),
        opponents(players, seat, 0) == 0,
{
}

/// A remark is posted without the white space around it; an empty one is not.
pub proof fn which_remark_is_posted(q: Seq<char>)
    ensures
        trimmed(q).len() > 0 ==> quip_of(Some(q)) == Some(trimmed(q)),
        trimmed(q).len() == 0 ==> quip_of(Some(q)) is None,
        quip_of(None) is None,
{
}

// ---- what the cards say ----

/// Two actions that are told in the same words are of one kind, and of one amount where
/// the amount is told.
pub proof fn actions_are_told_apart(a: ActionKind, x: nat, b: ActionKind, y: nat)
    requires
        action_text(a, x as int) == action_text(b, y as int),
    ensures
        a == b,
        a != ActionKind::Fold && a != ActionKind::Check ==> x == y,
{
    reveal_strlit("弃牌");
    reveal_strlit("过牌");
    reveal_strlit("跟注到 ");
    reveal_strlit("下注 ");
    reveal_strlit("加注到 ");
    reveal_strlit("全押 ");
    let s = action_text(a, x as int);
    let t = action_text(b, y as int);
    assert(s[0] == t[0]);
    if a != ActionKind::Fold && a != ActionKind::Check {
        let n: int = if a == ActionKind::Call || a == ActionKind::Raise { 4 } else { 3 };
        assert(s.skip(n) =~= decimal(x));
        assert(t.skip(n) =~= decimal(y));
        numbers_are_told_apart(x, y);
    }
}

/// Who did what is told with the next player's name at the end, while the hand is bet and
/// it is another's turn; otherwise nobody else is named.
pub proof fn the_next_player_is_named(snap: SnapshotView, log: ActionLogEntry, id: Seq<char>)
    requires
        log.player_idx < snap.players.len(),
        snap.current_open_id == Some(id),
    ensures
        ({
            let alone = announcement_text(SnapshotView { current_open_id: None, ..snap }, log);
            let text = announcement_text(snap, log);
            let next = mention_id(snap.players, id);
            if snap.stage.betting() && id != snap.players[log.player_idx as int].open_id {
                &&& text.len() > alone.len() + next.len()
                &&& text.take(alone.len() as int) == alone
                &&& text.skip(text.len() - next.len()) == next
            } else {
                text == alone
            }
        }),
{
    reveal_strlit("\n↓ 下一位 ");
    let alone = announcement_text(SnapshotView { current_open_id: None, ..snap }, log);
    let text = announcement_text(snap, log);
    let next = mention_id(snap.players, id);
    if snap.stage.betting() && id != snap.players[log.player_idx as int].open_id {
        assert(text.take(alone.len() as int) =~= alone);
        assert(text.skip(text.len() - next.len()) =~= next);
    }
}

/// The end of a hand is told with the board, then each hand that was shown, in order, with
/// its player, its name, its cards and its best five, then each pot.
pub proof fn what_the_end_is_told_with(snap: SnapshotView, summary: SummaryView, mode: DeckMode, k: int, j: int)
    requires
        0 <= k < summary.showdowns.len(),
        0 <= j < summary.payouts.len(),
    ensures
        ({
            let e = summary_elements(snap, summary, mode);
            let n = summary.showdowns.len();
            let s = summary.showdowns[k];
            &&& e.len() == 3 + 6 * n + summary.payouts.len() + 1
            &&& e[1] == cards_row_json(snap.community)
            &&& e[3 + 6 * k] == markdown_json(mention(snap.players[s.player_idx]) + " · "@ + category_title(s.rank.category, mode))
            &&& e[3 + 6 * k + 2] == cards_row_json(s.hole)
            &&& e[3 + 6 * k + 4] == cards_row_json(s.best_five)
            &&& e[3 + 6 * n + j] == markdown_json(payout_line(snap, j, summary.payouts[j]))
        }),
{
    let n = summary.showdowns.len();
    let parts = showdown_parts(snap, summary.showdowns, mode, n);
    let e = summary_elements(snap, summary, mode);
    hands_come_in_order(snap, summary.showdowns, mode, n, k);
    assert(forall|m: int| 0 <= m < parts.len() ==> e[m] == #[trigger] parts[m]);
    assert(parts[3 + 6 * k + 0] == showdown_part(snap, summary.showdowns[k], mode)[0]);
    assert(parts[3 + 6 * k + 2] == showdown_part(snap, summary.showdowns[k], mode)[2]);
    assert(parts[3 + 6 * k + 4] == showdown_part(snap, summary.showdowns[k], mode)[4]);
    assert(e[1] == parts[1]);
}

proof fn hands_come_in_order(snap: SnapshotView, shows: Seq<ShowdownView>, mode: DeckMode, n: nat, k: int)
    requires
        n <= shows.len(),
    ensures
        showdown_parts(snap, shows, mode, n).len() == 3 + 6 * n,
        showdown_parts(snap, shows, mode, n)[1] == cards_row_json(snap.community),
        0 <= k < n ==> forall|m: int|
            0 <= m < 6 ==> #[trigger] showdown_parts(snap, shows, mode, n)[3 + 6 * k + m] == showdown_part(snap, shows[k], mode)[m],
    decreases n,
{
    if n > 0 {
        hands_come_in_order(snap, shows, mode, (n - 1) as nat, k);
    }
}

/// Without a showdown the end is told with the pots alone.
pub proof fn what_is_told_without_a_showdown(snap: SnapshotView, summary: SummaryView, mode: DeckMode, j: int)
    requires
        summary.showdowns.len() == 0,
        0 <= j < summary.payouts.len(),
    ensures
        summary_elements(snap, summary, mode).len() == summary.payouts.len() + 1,
        summary_elements(snap, summary, mode)[j] == markdown_json(payout_line(snap, j, summary.payouts[j])),
{
}

/// A pot that is told of is told with its amount and with whoever takes it: with one
/// winner their name, with two both.
pub proof fn who_takes_a_pot_is_told(snap: SnapshotView, k: int, p: PayoutView)
    ensures
        ({
            let label = if k == 0 { "💰 主池"@ } else { "💰 边池 #"@ + decimal(k as nat) };
            let head = label + " **"@ + decimal(p.amount as nat) + "** 筹码 → "@;
            let name = |i: int| mention(snap.players[p.winners[i]]);
            let tail = " ("@ + p.note + ")"@;
            &&& p.winners.len() == 1 ==> payout_line(snap, k, p) == head + name(0) + tail
            &&& p.winners.len() == 2 ==> payout_line(snap, k, p) == head + (name(0) + "、"@ + name(1)) + tail
        }),
{
    let label = if k == 0 { "💰 主池"@ } else { "💰 边池 #"@ + decimal(k as nat) };
    let head = label + " **"@ + decimal(p.amount as nat) + "** 筹码 → "@;
    let names = Seq::new(p.winners.len(), |i: int| mention(snap.players[p.winners[i]]));
    let tail = " ("@ + p.note + ")"@;
    if p.winners.len() == 1 {
        assert(names =~= seq![names[0]]);
        how_texts_are_joined(Seq::empty(), names[0], "、"@);
        assert(payout_line(snap, k, p) =~= head + names[0] + tail);
    } else if p.winners.len() == 2 {
        assert(names =~= seq![names[0]].push(names[1]));
        how_texts_are_joined(Seq::empty(), names[0], "、"@);
        how_texts_are_joined(seq![names[0]], names[1], "、"@);
        assert(payout_line(snap, k, p) =~= head + (names[0] + "、"@ + names[1]) + tail);
    }
}

} // verus!
