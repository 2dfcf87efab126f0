//! What the cards of the werewolf game offer, and to whom.

use vstd::prelude::*;
use vstd::string::*;
use crate::bot::buttons::{a_button_sends_its_value, sends};
use crate::feishu::cards::{
    button_cell_json, button_json, button_row_json, card_json, form_json, header_json, markdown_json, submit_button_json,
};
use crate::feishu::json::{key_at, JsonView};
use super::asked::{the_living_come_in_order, the_pack_comes_in_order};
use super::cards::{
    choice_buttons_json, choice_card_json, either_card_json, guard_choices, living_others, living_prey, pack_text,
    press_json, speech_card_json, target_button_json, target_buttons_json, task_card_json, text_input_json,
    witch_card_json, witch_text, wolf_card_json, SpeechKind,
};
use super::days::apart_facts;
use super::model::{living, living_wolves, WolfGameView};
use super::nights::of_the_pack;
use super::steps::Task;

verus! {

// ---- reading a card ----

/// What stands on a card, from top to bottom.
pub open spec fn elements_of(card: JsonView) -> Seq<JsonView> {
    card.get("body"@)->0.get("elements"@)->0->List_0
}

/// The buttons of a row; a single button stands alone.
pub open spec fn buttons_in(row: JsonView) -> Seq<JsonView> {
    match row.get("columns"@) {
        Some(JsonView::List(cells)) => Seq::new(cells.len(), |k: int| cells[k].get("elements"@)->0->List_0[0]),
        _ => seq![row],
    }
}

/// Whether a button does this for the player at `seat` in this game.
pub open spec fn presses(g: WolfGameView, seat: usize, button: JsonView, action: Seq<char>) -> bool {
    let sent = sends(button);
    &&& sent.get_text("action"@) == Some(action)
    &&& sent.get_text("chat_id"@) == Some(g.chat_id)
    &&& sent.get_text("actor"@) == Some(g.players[seat as int].open_id)
    &&& sent.get("game"@) == Some(JsonView::Int(g.game_count as int))
}

/// Whether a row has a button for each of the seats, which names the player there, and
/// besides these one for each of the other actions.
pub open spec fn has_buttons(
    g: WolfGameView,
    seat: usize,
    row: JsonView,
    action: Seq<char>,
    targets: Seq<usize>,
    others: Seq<Seq<char>>,
) -> bool {
    let buttons = buttons_in(row);
    &&& buttons.len() == targets.len() + others.len()
    &&& forall|k: int| 0 <= k < targets.len() ==> presses(g, seat, #[trigger] buttons[k], action) && sends(buttons[k]).get_text(
        "target"@,
    ) == Some(g.players[targets[k] as int].open_id)
    &&& forall|k: int| targets.len() <= k < buttons.len() ==> presses(g, seat, #[trigger] buttons[k], others[k - targets.len()])
}

#[verifier::rlimit(40)]
proof fn keys_differ()
    ensures
        "schema"@ != "body"@,
        "config"@ != "body"@,
        "header"@ != "body"@,
        "direction"@ != "elements"@,
        "padding"@ != "elements"@,
        "vertical_spacing"@ != "elements"@,
        "tag"@ != "elements"@,
        "width"@ != "elements"@,
        "vertical_align"@ != "elements"@,
        "name"@ != "elements"@,
        "tag"@ != "columns"@,
        "flex_mode"@ != "columns"@,
        "horizontal_spacing"@ != "columns"@,
        "vertical_spacing"@ != "columns"@,
        "horizontal_align"@ != "columns"@,
        "text"@ != "columns"@,
        "type"@ != "columns"@,
        "size"@ != "columns"@,
        "width"@ != "columns"@,
        "behaviors"@ != "columns"@,
        "tag"@ != "behaviors"@,
        "text"@ != "behaviors"@,
        "type"@ != "behaviors"@,
        "size"@ != "behaviors"@,
        "width"@ != "behaviors"@,
        "form_action_type"@ != "behaviors"@,
        "name"@ != "behaviors"@,
        "type"@ != "value"@,
        "action"@ != "chat_id"@,
        "action"@ != "actor"@,
        "action"@ != "game"@,
        "action"@ != "target"@,
        "chat_id"@ != "actor"@,
        "chat_id"@ != "game"@,
        "chat_id"@ != "target"@,
        "actor"@ != "game"@,
        "actor"@ != "target"@,
        "game"@ != "target"@,
{
    reveal_strlit("schema");
    reveal_strlit("config");
    reveal_strlit("header");
    reveal_strlit("body");
    reveal_strlit("direction");
    reveal_strlit("padding");
    reveal_strlit("vertical_spacing");
    reveal_strlit("elements");
    reveal_strlit("tag");
    reveal_strlit("flex_mode");
    reveal_strlit("horizontal_spacing");
    reveal_strlit("horizontal_align");
    reveal_strlit("columns");
    reveal_strlit("width");
    reveal_strlit("vertical_align");
    reveal_strlit("text");
    reveal_strlit("type");
    reveal_strlit("size");
    reveal_strlit("behaviors");
    reveal_strlit("value");
    reveal_strlit("action");
    reveal_strlit("chat_id");
    reveal_strlit("actor");
    reveal_strlit("game");
    reveal_strlit("target");
    reveal_strlit("form_action_type");
    reveal_strlit("name");
    assert("schema"@.len() == 6 && "config"@.len() == 6 && "header"@.len() == 6 && "body"@.len() == 4 && "direction"@.len() == 9 && "padding"@.len() == 7 && "vertical_spacing"@.len() == 16 && "elements"@.len() == 8 && "tag"@.len() == 3 && "flex_mode"@.len() == 9 && "horizontal_spacing"@.len() == 18 && "horizontal_align"@.len() == 16 && "columns"@.len() == 7 && "width"@.len() == 5 && "vertical_align"@.len() == 14 && "text"@.len() == 4 && "type"@.len() == 4 && "size"@.len() == 4 && "behaviors"@.len() == 9 && "value"@.len() == 5 && "action"@.len() == 6 && "chat_id"@.len() == 7 && "actor"@.len() == 5 && "game"@.len() == 4 && "target"@.len() == 6 && "form_action_type"@.len() == 16 && "name"@.len() == 4);
    assert("action"@[0] == 'a' && "target"@[0] == 't');
}

proof fn a_card_has_its_elements(header: JsonView, elements: Seq<JsonView>)
    ensures
        elements_of(card_json(header, elements)) == elements,
{
    keys_differ();
    reveal_with_fuel(key_at, 6);
}

proof fn a_cell_has_its_button(button: JsonView)
    ensures
        button_cell_json(button).get("elements"@) == Some(JsonView::List(seq![button])),
{
    keys_differ();
    reveal_with_fuel(key_at, 6);
}

proof fn a_row_has_its_buttons(buttons: Seq<JsonView>)
    requires
        buttons.len() == 1 ==> buttons[0].get("columns"@) is None,
    ensures
        buttons_in(button_row_json(buttons)) == buttons,
{
    let row = button_row_json(buttons);
    if buttons.len() == 1 {
        assert(buttons_in(row) =~= buttons);
    } else {
        let cells = Seq::new(buttons.len(), |i: int| button_cell_json(buttons[i]));
        assert(row.get("columns"@) == Some(JsonView::List(cells))) by {
            keys_differ();
            reveal_with_fuel(key_at, 8);
        }
        assert forall|k: int| 0 <= k < buttons.len() implies cells[k].get("elements"@)->0->List_0[0] == buttons[k] by {
            a_cell_has_its_button(buttons[k]);
        }
        assert(buttons_in(row) =~= buttons);
    }
}

proof fn a_button_is_no_row(text: Seq<char>, value: JsonView, style: Seq<char>)
    ensures
        button_json(text, value, style).get("columns"@) is None,
{
    keys_differ();
    reveal_with_fuel(key_at, 8);
}

proof fn a_press_sends(g: WolfGameView, seat: usize, text: Seq<char>, action: Seq<char>, style: Seq<char>)
    ensures
        presses(g, seat, button_json(text, press_json(g, seat, action), style), action),
{
    a_button_sends_its_value(text, press_json(g, seat, action), style);
    keys_differ();
    reveal_with_fuel(key_at, 6);
}

proof fn a_target_is_sent(g: WolfGameView, seat: usize, action: Seq<char>, target: usize)
    ensures
        presses(g, seat, target_button_json(g, seat, action, target), action),
        sends(target_button_json(g, seat, action, target)).get_text("target"@) == Some(g.players[target as int].open_id),
        target_button_json(g, seat, action, target).get("columns"@) is None,
{
    let text = crate::text::decimal(target as nat) + " 号 "@ + g.players[target as int].name;
    let value = press_json(g, seat, action).with_text("target"@, g.players[target as int].open_id);
    a_button_sends_its_value(text, value, "default"@);
    a_button_is_no_row(text, value, "default"@);
    keys_differ();
    reveal_with_fuel(key_at, 7);
}

proof fn choices_are_buttons(
    g: WolfGameView,
    seat: usize,
    action: Seq<char>,
    targets: Seq<usize>,
    other: Option<(Seq<char>, Seq<char>)>,
)
    ensures
        has_buttons(
            g,
            seat,
            button_row_json(choice_buttons_json(g, seat, action, targets, other)),
            action,
            targets,
            match other {
                Some((_, id)) => seq![id],
                None => Seq::empty(),
            },
        ),
{
    let buttons = choice_buttons_json(g, seat, action, targets, other);
    assert forall|k: int| 0 <= k < targets.len() implies presses(g, seat, #[trigger] buttons[k], action) && sends(
        buttons[k],
    ).get_text("target"@) == Some(g.players[targets[k] as int].open_id) && buttons[k].get("columns"@) is None by {
        assert(buttons[k] == target_button_json(g, seat, action, targets[k]));
        a_target_is_sent(g, seat, action, targets[k]);
    }
    if other is Some {
        a_press_sends(g, seat, (other->0).0, (other->0).1, "default"@);
        a_button_is_no_row((other->0).0, press_json(g, seat, (other->0).1), "default"@);
    }
    a_row_has_its_buttons(buttons);
}

proof fn a_choice_card_has_its_buttons(
    g: WolfGameView,
    seat: usize,
    title: Seq<char>,
    text: Seq<char>,
    action: Seq<char>,
    targets: Seq<usize>,
    other: Option<(Seq<char>, Seq<char>)>,
)
    ensures
        has_buttons(
            g,
            seat,
            elements_of(choice_card_json(g, seat, title, text, action, targets, other))[1],
            action,
            targets,
            match other {
                Some((_, id)) => seq![id],
                None => Seq::empty(),
            },
        ),
{
    choices_are_buttons(g, seat, action, targets, other);
    a_card_has_its_elements(
        header_json(title, "purple"@),
        seq![markdown_json(text), button_row_json(choice_buttons_json(g, seat, action, targets, other))],
    );
}

proof fn an_either_card_has_two_buttons(
    g: WolfGameView,
    seat: usize,
    title: Seq<char>,
    text: Seq<char>,
    a: (Seq<char>, Seq<char>),
    b: (Seq<char>, Seq<char>),
)
    ensures
        has_buttons(
            g,
            seat,
            elements_of(either_card_json(g, seat, title, text, a, b))[1],
            ""@,
            Seq::empty(),
            seq![a.1, b.1],
        ),
{
    two_buttons_are_two(g, seat, a, b);
    a_card_has_its_elements(
        header_json(title, "purple"@),
        seq![
            markdown_json(text),
            button_row_json(
                seq![
                    button_json(a.0, press_json(g, seat, a.1), "primary"@),
                    button_json(b.0, press_json(g, seat, b.1), "default"@),
                ],
            ),
        ],
    );
}

proof fn two_buttons_are_two(g: WolfGameView, seat: usize, a: (Seq<char>, Seq<char>), b: (Seq<char>, Seq<char>))
    ensures
        has_buttons(
            g,
            seat,
            button_row_json(
                seq![
                    button_json(a.0, press_json(g, seat, a.1), "primary"@),
                    button_json(b.0, press_json(g, seat, b.1), "default"@),
                ],
            ),
            ""@,
            Seq::empty(),
            seq![a.1, b.1],
        ),
{
    a_press_sends(g, seat, a.0, a.1, "primary"@);
    a_press_sends(g, seat, b.0, b.1, "default"@);
    a_row_has_its_buttons(
        seq![
            button_json(a.0, press_json(g, seat, a.1), "primary"@),
            button_json(b.0, press_json(g, seat, b.1), "default"@),
        ],
    );
}

// ---- whom a card names ----

/// The guard's card names the living but for whoever was protected last night, the
/// wolves' card the living who are no wolves, and the others the living but for the
/// player whose card it is.
pub proof fn whom_a_card_names(g: WolfGameView, seat: usize, i: usize)
    requires
        g.wf(),
    ensures
        ({
            let there = i < g.players.len() && g.players[i as int].alive;
            &&& guard_choices(g).contains(i) <==> there && g.last_guard_target != Some(i)
            &&& living_prey(g).contains(i) <==> there && !of_the_pack(g.players[i as int])
            &&& living_others(g, seat).contains(i) <==> there && i != seat
        }),
{
    the_living_come_in_order(g.players);
    the_pack_comes_in_order(g.players);
    let all = living(g.players);
    apart_facts(all, seq![seat]);
    apart_facts(all, living_wolves(g.players));
    assert(seq![seat].contains(i) <==> i == seat) by {
        assert(seq![seat][0] == seat);
    }
    if let Some(l) = g.last_guard_target {
        apart_facts(all, seq![l]);
        assert(seq![l].contains(i) <==> i == l) by {
            assert(seq![l][0] == l);
        }
    }
    assert(all.contains(i) <==> i < g.players.len() && g.players[i as int].alive);
    assert(living_wolves(g.players).contains(i) <==> i < g.players.len() && g.players[i as int].alive && of_the_pack(
        g.players[i as int],
    ));
}

// ---- what a card offers ----

/// The cards of the night: the guard protects, the seer looks and a wolf strikes one of
/// those named; the witch saves, waits or poisons.
pub proof fn what_the_cards_of_the_night_offer(g: WolfGameView, seat: usize)
    ensures
        ({
            let row = |t: Task, k: int| elements_of(task_card_json(g, seat, t))[k];
            let none = Seq::<Seq<char>>::empty();
            &&& has_buttons(g, seat, row(Task::Guard, 1), "wolf_guard_pick"@, guard_choices(g), none)
            &&& has_buttons(g, seat, row(Task::Seer, 1), "wolf_seer_check"@, living_others(g, seat), none)
            &&& has_buttons(g, seat, row(Task::Wolf, 1), "wolf_kill"@, living_prey(g), none)
            &&& has_buttons(g, seat, row(Task::Wolf, 3), ""@, Seq::empty(), seq!["wolf_ready"@])
            &&& has_buttons(g, seat, row(Task::Witch, 1), ""@, Seq::empty(), seq!["wolf_witch_save"@, "wolf_witch_skip"@])
            &&& has_buttons(g, seat, row(Task::Witch, 3), "wolf_witch_poison"@, living_others(g, seat), none)
        }),
{
    a_choice_card_has_its_buttons(g, seat, "🛡️ 守卫行动"@, "今晚守护谁？"@, "wolf_guard_pick"@, guard_choices(g), None);
    a_choice_card_has_its_buttons(
        g,
        seat,
        "🔮 预言家行动"@,
        "今晚查验谁？"@,
        "wolf_seer_check"@,
        living_others(g, seat),
        None,
    );
    the_wolves_card_has_its_buttons(g, seat);
    the_witchs_card_has_its_buttons(g, seat);
}

proof fn the_wolves_card_has_its_buttons(g: WolfGameView, seat: usize)
    ensures
        ({
            let e = elements_of(wolf_card_json(g, seat));
            &&& has_buttons(g, seat, e[1], "wolf_kill"@, living_prey(g), Seq::empty())
            &&& has_buttons(g, seat, e[3], ""@, Seq::empty(), seq!["wolf_ready"@])
        }),
{
    choices_are_buttons(g, seat, "wolf_kill"@, living_prey(g), None);
    a_press_sends(g, seat, "我决定了"@, "wolf_ready"@, "primary"@);
    a_button_is_no_row("我决定了"@, press_json(g, seat, "wolf_ready"@), "primary"@);
    a_row_has_its_buttons(seq![button_json("我决定了"@, press_json(g, seat, "wolf_ready"@), "primary"@)]);
    a_card_has_its_elements(
        header_json("🐺 狼人行动"@, "carmine"@),
        seq![
            markdown_json(pack_text(g)),
            button_row_json(target_buttons_json(g, seat, "wolf_kill"@, living_prey(g))),
            form_json(
                "wolf_chat"@,
                seq![
                    text_input_json("message"@, "对队友说…"@),
                    submit_button_json("wolf_chat_send"@, "发送"@, press_json(g, seat, "wolf_chat_send"@), "default"@),
                ],
            ),
            button_row_json(seq![button_json("我决定了"@, press_json(g, seat, "wolf_ready"@), "primary"@)]),
        ],
    );
}

proof fn the_witchs_card_has_its_buttons(g: WolfGameView, seat: usize)
    ensures
        ({
            let e = elements_of(witch_card_json(g, seat));
            &&& has_buttons(g, seat, e[1], ""@, Seq::empty(), seq!["wolf_witch_save"@, "wolf_witch_skip"@])
            &&& has_buttons(g, seat, e[3], "wolf_witch_poison"@, living_others(g, seat), Seq::empty())
        }),
{
    choices_are_buttons(g, seat, "wolf_witch_poison"@, living_others(g, seat), None);
    two_buttons_are_two(g, seat, ("💊 用救药"@, "wolf_witch_save"@), ("跳过"@, "wolf_witch_skip"@));
    a_card_has_its_elements(
        header_json("🧪 女巫行动"@, "purple"@),
        seq![
            markdown_json(witch_text(g)),
            button_row_json(
                seq![
                    button_json("💊 用救药"@, press_json(g, seat, "wolf_witch_save"@), "primary"@),
                    button_json("跳过"@, press_json(g, seat, "wolf_witch_skip"@), "default"@),
                ],
            ),
            markdown_json("☠️ 用毒药："@),
            button_row_json(target_buttons_json(g, seat, "wolf_witch_poison"@, living_others(g, seat))),
        ],
    );
}

/// The cards of the day on which somebody is chosen: the shot, the badge and the votes go
/// to one of those named, or to nobody. Running and the order of speaking are one thing
/// or the other.
pub proof fn what_the_cards_of_the_day_offer(g: WolfGameView, seat: usize)
    ensures
        ({
            let row = |t: Task| elements_of(task_card_json(g, seat, t))[1];
            let all = living_others(g, seat);
            &&& has_buttons(g, seat, row(Task::Shot), "wolf_hunter_shoot"@, all, seq!["wolf_hunter_skip"@])
            &&& has_buttons(g, seat, row(Task::Badge), "wolf_badge_pass"@, all, seq!["wolf_badge_destroy"@])
            &&& has_buttons(g, seat, row(Task::Vote), "wolf_vote"@, all, seq!["wolf_vote_abstain"@])
            &&& has_buttons(
                g,
                seat,
                row(Task::SheriffVote),
                "wolf_sheriff_vote"@,
                g.candidates(),
                seq!["wolf_sheriff_vote_abstain"@],
            )
            &&& has_buttons(g, seat, row(Task::Run), ""@, Seq::empty(), seq!["wolf_sheriff_run"@, "wolf_sheriff_skip"@])
            &&& has_buttons(
                g,
                seat,
                row(Task::Direction),
                ""@,
                Seq::empty(),
                seq!["wolf_sheriff_dir_up"@, "wolf_sheriff_dir_down"@],
            )
        }),
{
    let all = living_others(g, seat);
    a_choice_card_has_its_buttons(
        g,
        seat,
        "🔫 开枪"@,
        "临死前带走谁？"@,
        "wolf_hunter_shoot"@,
        all,
        Some(("不开枪"@, "wolf_hunter_skip"@)),
    );
    a_choice_card_has_its_buttons(
        g,
        seat,
        "🎖️ 警徽流转"@,
        "警徽移交给谁？"@,
        "wolf_badge_pass"@,
        all,
        Some(("撕毁警徽"@, "wolf_badge_destroy"@)),
    );
    a_choice_card_has_its_buttons(
        g,
        seat,
        "🗳️ 放逐投票"@,
        "投票放逐谁？"@,
        "wolf_vote"@,
        all,
        Some(("弃权"@, "wolf_vote_abstain"@)),
    );
    a_choice_card_has_its_buttons(
        g,
        seat,
        "🗳️ 警长投票"@,
        "选谁当警长？"@,
        "wolf_sheriff_vote"@,
        g.candidates(),
        Some(("弃权"@, "wolf_sheriff_vote_abstain"@)),
    );
    an_either_card_has_two_buttons(
        g,
        seat,
        "🎖️ 上警"@,
        "是否参选警长？"@,
        ("上警"@, "wolf_sheriff_run"@),
        ("不上警"@, "wolf_sheriff_skip"@),
    );
    an_either_card_has_two_buttons(
        g,
        seat,
        "🎖️ 发言方向"@,
        "你本人末位归票"@,
        ("警上（顺时针）"@, "wolf_sheriff_dir_up"@),
        ("警下（逆时针）"@, "wolf_sheriff_dir_down"@),
    );
}

/// What pressing the send button of a form sends back.
pub open spec fn form_sends(form: JsonView) -> JsonView {
    sends(form.get("elements"@)->0->List_0[1])
}

/// Each card for a speech has a form that sends that speech, and a button to keep silent
/// in its place.
pub proof fn what_the_cards_for_speeches_offer(g: WolfGameView, seat: usize)
    ensures
        ({
            let e = |t: Task| elements_of(task_card_json(g, seat, t));
            &&& is_for_speech(g, seat, e(Task::LastWords), "wolf_last_words_submit"@, "wolf_last_words_skip"@)
            &&& is_for_speech(g, seat, e(Task::SheriffSpeech), "wolf_sheriff_speech_submit"@, "wolf_sheriff_speech_skip"@)
            &&& is_for_speech(g, seat, e(Task::SideSpeech), "wolf_sheriff_side_submit"@, "wolf_sheriff_side_skip"@)
            &&& is_for_speech(g, seat, e(Task::DaySpeech), "wolf_day_speech_submit"@, "wolf_day_speech_skip"@)
        }),
{
    a_speech_card_has_its_buttons(g, seat, SpeechKind::LastWords);
    a_speech_card_has_its_buttons(g, seat, SpeechKind::SheriffMain);
    a_speech_card_has_its_buttons(g, seat, SpeechKind::SheriffSide);
    a_speech_card_has_its_buttons(g, seat, SpeechKind::Day);
}

pub open spec fn is_for_speech(g: WolfGameView, seat: usize, e: Seq<JsonView>, submit: Seq<char>, skip: Seq<char>) -> bool {
    let sent = form_sends(e[0]);
    &&& e.len() == 2
    &&& sent.get_text("action"@) == Some(submit)
    &&& sent.get_text("actor"@) == Some(g.players[seat as int].open_id)
    &&& sent.get_text("chat_id"@) == Some(g.chat_id)
    &&& sent.get("game"@) == Some(JsonView::Int(g.game_count as int))
    &&& has_buttons(g, seat, e[1], ""@, Seq::empty(), seq![skip])
}

proof fn a_speech_card_has_its_buttons(g: WolfGameView, seat: usize, kind: SpeechKind)
    ensures
        ({
            let f = kind.form_view();
            is_for_speech(g, seat, elements_of(speech_card_json(g, seat, f)), f.submit, f.skip)
        }),
{
    let f = kind.form_view();
    let value = press_json(g, seat, f.submit);
    let submit = submit_button_json(f.submit, "✅ 说完了"@, value, "primary"@);
    let fields = seq![text_input_json("speech"@, f.hint), submit];
    let form = form_json("speech_form"@, fields);
    let skip = button_json("⏭ 沉默"@, press_json(g, seat, f.skip), "default"@);
    assert(form.get("elements"@) == Some(JsonView::List(fields))) by {
        keys_differ();
        reveal_with_fuel(key_at, 4);
    }
    assert(sends(submit) == value) by {
        keys_differ();
        reveal_with_fuel(key_at, 10);
    }
    assert(value.get_text("action"@) == Some(f.submit) && value.get_text("chat_id"@) == Some(g.chat_id) && value.get_text("actor"@)
        == Some(g.players[seat as int].open_id) && value.get("game"@) == Some(JsonView::Int(g.game_count as int))) by {
        keys_differ();
        reveal_with_fuel(key_at, 6);
    }
    a_press_sends(g, seat, "⏭ 沉默"@, f.skip, "default"@);
    a_button_is_no_row("⏭ 沉默"@, press_json(g, seat, f.skip), "default"@);
    a_row_has_its_buttons(seq![skip]);
    a_card_has_its_elements(header_json(f.title, f.template), seq![form, button_row_json(seq![skip])]);
}

} // verus!
