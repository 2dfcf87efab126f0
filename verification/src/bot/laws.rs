//! What holds of raises that are offered, of what the model answers, of repeated
//! requests and of what a snapshot shows.

use vstd::prelude::*;
use vstd::string::*;
use crate::feishu::json::JsonView;
use crate::game::view::GameView;
use crate::game::{PlayerAction, Stage};
use crate::llm::{legal_action, safe_action, DecisionContext};
use super::dedup::{fresh_clicks, fresh_events, has_click, has_event, CLICK_WINDOW_MS, EVENT_WINDOW_MS};
use super::outcome::{actor_step, ActorStep};
use super::raises::{lists_presets, presets_of};
use super::snapshot::snapshot_of;

verus! {

// ---- raises ----

/// Every raise offered is one that the player can make. The least and the greatest are
/// always among them where there is any, and so are half the pot and the whole pot on
/// top of the bet where they lie between.
pub proof fn which_raises_are_offered(s: Seq<u64>, current_bet: u64, min_raise_to: u64, pot: u64, max_to: u64)
    requires
        lists_presets(s, current_bet as int, min_raise_to as int, pot as int, max_to as int),
    ensures
        s == presets_of(current_bet as int, min_raise_to as int, pot as int, max_to as int),
        min_raise_to > max_to ==> s.len() == 0,
        min_raise_to <= max_to ==> s.contains(min_raise_to) && s.contains(max_to) && s[0] == min_raise_to && s.last() == max_to,
        forall|x: u64| #[trigger] s.contains(x) ==> min_raise_to <= x <= max_to,
        forall|x: u64| x == current_bet + pot / 2 && pot >= 2 && min_raise_to <= x < max_to ==> #[trigger] s.contains(x),
        forall|x: u64| x == current_bet + pot && pot >= 1 && min_raise_to <= x < max_to ==> #[trigger] s.contains(x),
        forall|x: u64| #[trigger] s.contains(x) && x != min_raise_to && x != max_to && pot >= 2 ==> x == current_bet + pot / 2 || x
            == current_bet + pot,
{
    super::raises::presets_are(s, current_bet as int, min_raise_to as int, pot as int, max_to as int);
    if min_raise_to > max_to {
        if s.len() > 0 {
            assert(s.contains(s[0]));
        }
    } else {
        assert(s.contains(min_raise_to) && s.contains(max_to));
        let a = choose|a: int| 0 <= a < s.len() && s[a] == min_raise_to;
        let b = choose|b: int| 0 <= b < s.len() && s[b] == max_to;
        assert(s.contains(s[0]) && s.contains(s.last()));
        if a > 0 {
            assert(s[0] < s[a]);
        }
        if b < s.len() - 1 {
            assert(s[b] < s[s.len() - 1]);
        }
    }
}

// ---- what the model answers ----

proof fn words_differ()
    ensures
        "fold"@ != "call"@,
        "check"@ != "call"@,
        "fold"@ != "raise"@,
        "check"@ != "raise"@,
        "call"@ != "raise"@,
        "fold"@ != "bet"@,
        "check"@ != "bet"@,
        "call"@ != "bet"@,
        "fold"@ != "allin"@,
        "check"@ != "allin"@,
        "call"@ != "allin"@,
        "raise"@ != "allin"@,
        "bet"@ != "allin"@,
        "raise"@ != "all_in"@,
        "bet"@ != "all_in"@,
        "raise"@ != "all-in"@,
        "bet"@ != "all-in"@,
        "call"@ != "all_in"@,
        "call"@ != "all-in"@,
        "fold"@ != "all_in"@,
        "fold"@ != "all-in"@,
        "check"@ != "all_in"@,
        "check"@ != "all-in"@,
{
    reveal_strlit("fold");
    reveal_strlit("check");
    reveal_strlit("call");
    reveal_strlit("raise");
    reveal_strlit("bet");
    reveal_strlit("allin");
    reveal_strlit("all_in");
    reveal_strlit("all-in");
    assert("fold"@[0] == 'f' && "check"@[0] == 'c' && "call"@[0] == 'c' && "raise"@[0] == 'r' && "bet"@[0] == 'b');
    assert("check"@[1] == 'h' && "call"@[1] == 'a' && "allin"@[0] == 'a' && "all_in"@[0] == 'a' && "all-in"@[0] == 'a');
}

/// Whoever is not answered, or answers anything that is no action, puts no chip in: they
/// check where that is free, and else fold.
pub proof fn nothing_is_risked_on_a_bad_answer(c: DecisionContext, action: Seq<char>, raise_to: Option<u64>)
    ensures
        safe_action(c) == (if c.to_call == 0 { PlayerAction::Check } else { PlayerAction::Fold }),
        action != "call"@ && action != "allin"@ && action != "all_in"@ && action != "all-in"@ && action != "raise"@ && action != "bet"@
            ==> legal_action(action, raise_to, c) == safe_action(c),
{
    words_differ();
}

/// A call is a call while the player has more than that, all-in where they have not, and
/// a check where nothing is to be called.
pub proof fn a_call_is_a_call(c: DecisionContext, raise_to: Option<u64>)
    ensures
        legal_action("call"@, raise_to, c) == (if c.to_call == 0 {
            PlayerAction::Check
        } else if c.my_stack > c.to_call {
            PlayerAction::Call
        } else {
            PlayerAction::AllIn
        }),
        legal_action("allin"@, raise_to, c) == PlayerAction::AllIn,
        legal_action("all_in"@, raise_to, c) == PlayerAction::AllIn,
        legal_action("all-in"@, raise_to, c) == PlayerAction::AllIn,
{
    words_differ();
}

/// A raise within the limits is made as it was wanted. A smaller one is brought up to the
/// least, a greater one is all-in; and so is one by a player who cannot do more than call.
pub proof fn a_raise_is_kept_within_limits(c: DecisionContext, want: Option<u64>, word: Seq<char>)
    requires
        word == "raise"@ || word == "bet"@,
        c.my_stack > c.to_call,
    ensures
        want matches Some(n) && c.min_raise_to <= n < c.my_max_to ==> legal_action(word, want, c) == PlayerAction::RaiseTo(want->0),
        want matches Some(n) && n >= c.my_max_to ==> legal_action(word, want, c) == PlayerAction::AllIn,
        (want is None || want->0 < c.min_raise_to) && c.min_raise_to < c.my_max_to ==> legal_action(word, want, c) == PlayerAction::RaiseTo(
            c.min_raise_to,
        ),
        c.min_raise_to >= c.my_max_to ==> legal_action(word, want, c) == PlayerAction::AllIn,
{
    words_differ();
}

/// Who has no more than the call, raises by going all-in.
pub proof fn no_raise_without_chips(c: DecisionContext, want: Option<u64>, word: Seq<char>)
    requires
        word == "raise"@ || word == "bet"@,
        c.my_stack <= c.to_call,
    ensures
        legal_action(word, want, c) == PlayerAction::AllIn,
{
    words_differ();
}

// ---- repeated requests ----

/// An event is taken for a repetition only where one with the same id came within the
/// window before.
pub proof fn only_a_repeated_event_is_dropped(entries: Seq<(Seq<char>, int)>, id: Seq<char>, now: int)
    ensures
        has_event(fresh_events(entries, now), id) <==> exists|k: int|
            0 <= k < entries.len() && (#[trigger] entries[k]).0 == id && now - entries[k].1 < EVENT_WINDOW_MS,
    decreases entries.len(),
{
    if entries.len() > 0 {
        let rest = entries.drop_last();
        only_a_repeated_event_is_dropped(rest, id, now);
        let a = fresh_events(rest, now);
        let b = fresh_events(entries, now);
        assert(entries[entries.len() - 1] == entries.last());
        if has_event(b, id) {
            let i = choose|i: int| 0 <= i < b.len() && (#[trigger] b[i]).0 == id;
            if i < a.len() {
                assert(a[i].0 == id);
                let k = choose|k: int| 0 <= k < rest.len() && (#[trigger] rest[k]).0 == id && now - rest[k].1 < EVENT_WINDOW_MS;
                assert(entries[k].0 == id);
            } else {
                assert(entries[entries.len() - 1].0 == id);
            }
        }
        if exists|k: int| 0 <= k < entries.len() && (#[trigger] entries[k]).0 == id && now - entries[k].1 < EVENT_WINDOW_MS {
            let k = choose|k: int| 0 <= k < entries.len() && (#[trigger] entries[k]).0 == id && now - entries[k].1 < EVENT_WINDOW_MS;
            if k < rest.len() {
                assert(rest[k].0 == id);
                assert(has_event(a, id));
                let i = choose|i: int| 0 <= i < a.len() && (#[trigger] a[i]).0 == id;
                assert(b[i].0 == id);
            } else {
                assert(b[b.len() - 1].0 == id);
            }
        }
    }
}

/// A click is taken for a repetition only where the same person sent the same thing
/// within the window before: nobody is kept from clicking by another, or by another
/// button.
pub proof fn only_a_repeated_click_is_dropped(entries: Seq<(Seq<char>, JsonView, int)>, open_id: Seq<char>, value: JsonView, now: int)
    ensures
        has_click(fresh_clicks(entries, now), open_id, value) <==> exists|k: int|
            0 <= k < entries.len() && (#[trigger] entries[k]).0 == open_id && entries[k].1 == value && now - entries[k].2 < CLICK_WINDOW_MS,
    decreases entries.len(),
{
    if entries.len() > 0 {
        let rest = entries.drop_last();
        only_a_repeated_click_is_dropped(rest, open_id, value, now);
        let a = fresh_clicks(rest, now);
        let b = fresh_clicks(entries, now);
        assert(entries[entries.len() - 1] == entries.last());
        if has_click(b, open_id, value) {
            let i = choose|i: int| 0 <= i < b.len() && (#[trigger] b[i]).0 == open_id && b[i].1 == value;
            if i < a.len() {
                assert(a[i].0 == open_id && a[i].1 == value);
                let k = choose|k: int|
                    0 <= k < rest.len() && (#[trigger] rest[k]).0 == open_id && rest[k].1 == value && now - rest[k].2 < CLICK_WINDOW_MS;
                assert(entries[k].0 == open_id);
            } else {
                assert(entries[entries.len() - 1].0 == open_id);
            }
        }
        if exists|k: int|
            0 <= k < entries.len() && (#[trigger] entries[k]).0 == open_id && entries[k].1 == value && now - entries[k].2 < CLICK_WINDOW_MS {
            let k = choose|k: int|
                0 <= k < entries.len() && (#[trigger] entries[k]).0 == open_id && entries[k].1 == value && now - entries[k].2
                    < CLICK_WINDOW_MS;
            if k < rest.len() {
                assert(rest[k].0 == open_id);
                assert(has_click(a, open_id, value));
                let i = choose|i: int| 0 <= i < a.len() && (#[trigger] a[i]).0 == open_id && a[i].1 == value;
                assert(b[i].0 == open_id);
            } else {
                assert(b[b.len() - 1].0 == open_id);
            }
        }
    }
}

// ---- snapshots ----

/// A snapshot tells of the table as it is: the stage, the board, the bets, whose turn it
/// is, and of each player what everybody may see. Hole cards it holds only of whoever
/// looks, and only their own.
pub proof fn a_snapshot_tells_the_table(g: GameView, viewer: Option<Seq<char>>, i: int)
    requires
        g.wf(),
        0 <= i < g.players.len(),
    ensures
        ({
            let s = snapshot_of(g, viewer);
            let p = g.players[i];
            let q = s.players[i];
            &&& s.chat_id == g.chat_id && s.stage == g.stage && s.hand_count == g.hand_count && s.community == g.community
            &&& s.current_bet == g.current_bet && s.min_raise == g.min_raise && s.big_blind == g.big_blind && s.dealer_idx == g.dealer_idx
            &&& s.players.len() == g.players.len()
            &&& q.open_id == p.open_id && q.name == p.name && q.chips == p.chips && q.bet_in_round == p.bet_in_round
            &&& q.folded == p.folded && q.all_in == p.all_in && q.sat_out == p.sat_out && q.is_ai == p.is_ai
            &&& viewer == Some(p.open_id) ==> s.viewer_hole == p.hole
            &&& viewer is None ==> s.viewer_hole.len() == 0
            &&& i == g.current_idx ==> s.current_open_id == Some(p.open_id)
        }),
{
    crate::game::seats::a_seat_is_found_by_its_id(g, g.players[i].open_id, i);
}

/// Whoever has no seat sees no hole cards.
pub proof fn strangers_see_no_hand(g: GameView, id: Seq<char>)
    requires
        g.wf(),
        forall|i: int| 0 <= i < g.players.len() ==> (#[trigger] g.players[i]).open_id != id,
    ensures
        snapshot_of(g, Some(id)).viewer_hole.len() == 0,
{
    crate::game::table::seat_of_facts(g.players, id, 0);
}

/// The table waits for the player whose turn it is while the hand is bet: an AI is asked,
/// a person gets the action card. Otherwise it waits for nobody.
pub proof fn whom_the_table_waits_for(g: GameView)
    requires
        g.wf(),
    ensures
        ({
            let betting = g.stage == Stage::PreFlop || g.stage == Stage::Flop || g.stage == Stage::Turn || g.stage == Stage::River;
            &&& !betting ==> actor_step(g) == ActorStep::Nobody
            &&& betting ==> actor_step(g) == (if g.players[g.current_idx].is_ai {
                ActorStep::Ask(g.current_idx as usize)
            } else {
                ActorStep::Prompt(g.current_idx as usize)
            })
        }),
{
}

} // verus!
