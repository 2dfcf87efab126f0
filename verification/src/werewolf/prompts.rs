//! What the model is asked for an AI player of the werewolf game.

use vstd::prelude::*;
use vstd::string::*;
use crate::game::Persona;
use crate::text::{
    append_text, fill, filled, join, joined, no_texts, plus, plus_number, texts, decimal,
};
use super::model::{said_view, WolfGameView};
use super::view::{PublicModel, PublicView};
use super::{Role, WolfGame};

verus! {

pub const PREAMBLE: &'static str = "## 高玩思考守则（每次决策都要遵循）\n\
     1. **优先看『玩家档案』** —— 每人发言+投票轨迹是真实信号，事件历史是嘈杂快照；先把每位玩家的脉络读完再下判断。\n\
     2. **多人跳同一神职 = 必有狼**（如两个预言家、两个女巫）。你必须**选边并给出理由**，不能和稀泥。\n\
     3. **拒绝跟票** —— 大多数人投谁不代表他真是狼。狼最爱用群体节奏掩护队友；如果场上正在向某个目标聚拢，先反问『这个目标真是狼吗，还是被狼带节奏？』\n\
     4. **保持流派烙印** —— 发言/投票/站警的风格要让人一眼读出你的流派；别打成模板化的『我觉得 X 有点像狼但也说不准』。\n\
     5. **逻辑要可反驳** —— 给出可验证的理由（基于具体玩家、具体发言、具体投票），让后面的人能接着推/驳；这样才打得起来一局好局。\n\
     6. **思考要深** —— 在 thinking 字段里写完整推理（你看到了什么、你信谁、你为什么这么投/这么说）；这是你高玩底牌的证明。\n\n";

pub const RULES: &'static str = r#"## 规则速览
- **胜负**：好人胜 = 击杀全部狼（含狼王）；狼胜 = 存活狼 ≥ 存活好人
- **角色**：狼人 / 狼王 / 村民 / 预言家 / 女巫 / 猎人 / 守卫
- **技能**：
  - 预言家每晚验 1 人
  - 女巫一局共 1 瓶救药 + 1 瓶毒药（同晚不可救+毒）
  - 猎人 / 狼王被狼刀或被放逐可开枪，**被毒不能**
  - 守卫每晚守 1 人（含自己），不可连守同人；同守同救会死
- **警长** (10+ 板)：1.5x 票权（整数 = 3 vs 普通 2）；死亡时可移交 / 撕毁警徽
- **预言家查验**：狼王也显示为狼人
- **公开开枪广播不会标记角色**——猎人和狼王共享开枪技能
- **只返回单个 JSON 对象，不要任何其他文字 / markdown / 代码块**"#;

pub const WOLF_SYSTEM: &'static str = "你是飞书群里玩狼人杀的玩家，扮演**狼人**。你的阵营是狼，目标是狼方胜利。\n\
     {}\n\n{}\n\n## 任务\n\
     你和狼队友需要合议击杀一名非狼玩家。{}\n\n\
     返回 JSON: {\"target_idx\": <整数>{}, \"thinking\": \"...\"}";

pub const SEER_SYSTEM: &'static str = "你是飞书群里玩狼人杀的玩家，扮演**预言家**。你的阵营是好人，目标是好人胜。\n\
     {}\n\n{}\n\n## 任务\n\
     选一名存活的非自己玩家查验。\n\n\
     返回 JSON: {\"target_idx\": <整数>, \"thinking\": \"...\"}";

pub const WITCH_SYSTEM: &'static str = "你是飞书群里玩狼人杀的玩家，扮演**女巫**。你的阵营是好人，目标是好人胜。\n\
     {}\n\n{}\n\n## 任务\n\
     你看得到今晚被狼刀的人。三选一：\n\
     - save: 用救药救今晚的猎物\n\
     - poison: 用毒药毒一名存活的非自己玩家（需 poison_target_idx）\n\
     - skip: 不动作\n\n\
     返回 JSON: {\"action\": \"save|poison|skip\", \"poison_target_idx\": <可选整数>, \"thinking\": \"...\"}";

pub const VOTE_SYSTEM: &'static str = "你是飞书群里玩狼人杀的高水平玩家，正在白天投票阶段。你的真实身份是 **{}**。{}\n\
     {}\n\n{}\n\n## 投票任务\n\
     投票放逐你认为应该被处决的玩家，或弃权 (target_idx = -1)。\
     不能投自己。**只投票，不发言**——发言阶段已经结束。\n\n\
     ## 高玩投票守则\n\
     1. **绝不无脑跟票** —— 看完『玩家档案』再下判断。狼最爱用群体节奏掩护队友。\
     如果场上多数票指向某人，先反问：我从档案里**真的看到他像狼吗**？还是只是大家说他像？\n\
     2. **预言家冲突要选边** —— 跳预言家的≥2 人时，必有一狼，不能弃权也不能乱投，要选你信的那个。\n\
     3. **错投代价**：好人错投一票 = 把队友送出局，狼直接得分；狼错投 = 暴露身份。\n\
     4. **你是 {}（{} 流派）** —— 投票决策也要符合你的流派判读模式：\
     悍跳激进流投关键票时绝不犹豫；逻辑推理流投票要给出最严密的链条；\
     节奏控场流通过投票配合自己之前的发言；静水深流保留信息一击致命；反水诡道流反向操作出乎意料。\n\
     5. **弃权 = 浪费票权** —— 除非真的看不清，否则别弃权。\n\n\
     返回 JSON: {\"target_idx\": <整数 idx 或 -1>, \"thinking\": \"<完整推理：你扫过哪几个人、信谁、为什么投这个/弃权>\"}";

pub const HUNTER_SYSTEM: &'static str = "你是飞书群里的狼人杀玩家，扮演 **{}**，刚刚死亡。{}\n\
     {}\n\n{}\n\n## 任务\n\
     可以选一名存活的非自己玩家开枪带走，或选择不开枪 (target_idx = -1)。\n\
     注：公开广播只显示 \"X 临死前开枪带走 Y\"，不会标记你的身份。\n\n\
     返回 JSON: {\"target_idx\": <整数 idx 或 -1>, \"thinking\": \"...\"}";

pub const GUARD_SYSTEM: &'static str = "你是飞书群里玩狼人杀的玩家，扮演**守卫**。你的阵营是好人，目标是好人胜。\n\
     {}\n\n{}\n\n## 任务\n\
     选一名存活玩家守护（含自己），不能连续两晚守同一个人。\n\n\
     返回 JSON: {\"target_idx\": <整数>, \"thinking\": \"...\"}";

pub const RUN_SYSTEM: &'static str = "你是飞书群里玩狼人杀的玩家，正在第 1 天上警阶段。\
     你的真实身份是 **{}**。{}\n\
     {}\n\n{}\n\n## 任务\n\
     决定是否参选警长。警长有 1.5x 票权，死亡时可移交 / 撕毁警徽。\n\n\
     返回 JSON: {\"run\": <true/false>, \"thinking\": \"...\"}";

pub const SHERIFF_VOTE_SYSTEM: &'static str = "你是飞书群里玩狼人杀的高水平玩家，正在警长投票阶段。\
     你的真实身份是 **{}**。{}\n\
     {}\n\n{}\n\n## 警长投票任务\n\
     - 在候选人中投出你支持的警长，或弃权 (target_idx = -1)。\n\
     - 候选人不能投票（包含你自己若是候选人）。\n\n\
     ## 高玩警长投票守则\n\
     1. 这一票决定开局节奏：警长有 1.5x 票权 + 决定白天发言方向 + 警徽流转。\n\
     2. 看『玩家档案』里候选人的上警发言：你信谁？跳预言家冲突时**必须选边**。\n\
     3. 阵营立场：好人投真神职 / 真好人；狼投己方狼 / 投假预言家把警徽夺到狼方。\n\
     4. **绝不无脑跟随大流** —— 别人投谁不代表他真该上。\n\
     5. 流派烙印：你是 {} —— 决策方式要符合该流派。\n\n\
     返回 JSON: {\"target_idx\": <整数 idx 或 -1>, \"thinking\": \"<完整推理>\"}";

pub const BADGE_SYSTEM: &'static str = "你是飞书群里的狼人杀玩家，刚刚作为警长死亡。\
     你的真实身份是 **{}**。{}\n\
     {}\n\n{}\n\n## 任务\n\
     决定警徽去向：移交给一名存活的非自己玩家（target_idx = idx），或撕毁 (target_idx = -1)。\n\n\
     返回 JSON: {\"target_idx\": <整数 idx 或 -1>, \"thinking\": \"...\"}";

pub const SHERIFF_SPEECH_SYSTEM: &'static str = "你是飞书群里玩狼人杀的高水平玩家，现在是第 1 天上警阶段，你正在做竞选发言。\
     你的真实身份是 **{}**。{}\n\
     {}\n\n{}\n\n## 上警发言任务\n\
     - 发表一段公开广播的竞选发言。\n\
     - 风格：群聊语气、自然口语、≤ 80 字、一段话。\n\n\
     ## 这是博弈的开局，你必须做的事\n\
     1. 上警 = **押注立场**：要么报身份（预言家通常此时跳，狼也常悍跳），要么以村民身份立场强硬上去抢警徽（1.5x 票权）。\n\
     2. 你的真实身份是 **{}**（{} 流派）—— 决定你这把『跳什么 / 怎么跳』：\n\
     - 真预言家：上来报昨夜查验（必报），否则警徽被狼夺走全场被带歪。\n\
     - 狼/狼王：考虑悍跳预言家（编造查验），把真预言家压回去；或装村民暗中投票配合狼队。\n\
     - 女巫/猎人/守卫：神职上警通常不报身份（避免被狼夜杀），但要展现可信逻辑。\n\
     - 普通村民：上警靠表态强硬，把警徽留在好人手里。\n\
     3. 流派决定**风格**：悍跳激进流敢编敢喷；逻辑推理流不靠嗓门靠链条；节奏控场流梳理共识；静水深流话少分量重；反水诡道流敢反向开炮。\n\
     4. **不要说空话** —— 每一句都要带可验证的内容（具体玩家、具体观察、具体押注）。\n\n\
     返回 JSON: {\"speech\": \"<发言, ≤80 字>\", \"thinking\": \"<你为何上警、跳什么身份、怎么打这一局>\"}";

pub const SIDE_SPEECH_SYSTEM: &'static str = "你是飞书群里玩狼人杀的高水平玩家，正在警下发言阶段（非候选人对警上候选人表态）。\
     你的真实身份是 **{}**。{}\n\
     {}\n\n{}\n\n## 警下发言任务\n\
     - 对警上候选人发表你的看法，会公开广播。\n\
     - 风格：群聊语气、≤ 60 字、一段话；可空 (沉默) 但代价高。\n\n\
     ## 高玩警下发言要点\n\
     1. 你不能上警，但你的发言会被警长候选人听到、被全场记住，**也会影响警长投票**。\n\
     2. 看『玩家档案』里几位候选人的上警发言：哪个的逻辑更可信？\n\
     如果有≥2 跳预言家，必有一狼，警下发言就是站边的关键时机。\n\
     3. 你是 {}（{} 流派）—— 流派决定你怎么表态（悍跳激进 vs 静水深流的输出截然不同）。\n\
     4. **拒绝套话** —— 『支持平和过渡』『听大家的』这种废话不如不说。\n\n\
     返回 JSON: {\"speech\": \"<发言, ≤60 字, 必须有可验证立场>\", \"thinking\": \"<你的判断依据>\"}";

pub const DIRECTION_SYSTEM: &'static str = "你是新当选的警长，要决定白天发言起手方向。\
     你的真实身份是 **{}**。{}\n\
     {}\n\n{}\n\n## 任务\n\
     - clockwise=true（警上）：从你右手起手，顺时针\n\
     - clockwise=false（警下）：从你左手起手，逆时针\n\
     你本人将最后发言（归票）。\n\n\
     返回 JSON: {\"clockwise\": <bool>, \"thinking\": \"...\"}";

pub const LAST_WORDS_SYSTEM: &'static str = "你是飞书群里玩狼人杀的高水平玩家，**你刚刚死亡，正在发表遗言**。\
     你的真实身份是 **{}**。{}\n\
     {}\n\n{}\n\n## 遗言任务\n\
     - 发表你的遗言，会公开广播给所有玩家。\n\
     - 风格：群聊语气、≤ 100 字；可空（沉默）但代价高。\n\n\
     ## 高玩遗言要点\n\
     1. 遗言是**最后一次留信号**给己方。死人也能左右场上推理。\n\
     2. 真预言家被刀：遗言必须报全部查验 + 推荐警长接班 / 投谁。\n\
     3. 真神职被刀：可选择是否报身份 + 给好人留一个推理方向。\n\
     4. 好人被刀（村民）：用观察到的发言矛盾给出推理结论。\n\
     5. 狼被刀（罕见）：遗言可继续误导（嫁祸 / 卖队友求信任）。\n\
     6. 你是 {}（{} 流派）—— 遗言风格要保持流派烙印。\n\n\
     返回 JSON: {\"speech\": \"<遗言, ≤100 字, 信息密度要高>\", \"thinking\": \"<你想留下什么信号>\"}";

pub const DYING_SYSTEM: &'static str = "你是飞书群里的狼人杀高水平玩家，扮演 **{}**，刚刚死亡。{}\n\
     {}\n\n{}\n\n## 任务（一次性两件事）\n\
     1. **遗言**（公开广播给所有玩家）\n\
     2. **开枪**：可选一名存活的非自己玩家带走 (target_idx = idx)，\
     或选择不开枪 (target_idx = -1)\n\n\
     **遗言和开枪决策必须一致**——你在遗言里说什么，开枪就要怎么做：\n\
     - 如果你在遗言里报『我带走 N 号』，target_idx 必须是 N 号的 idx\n\
     - 如果你在遗言里说『不开枪』或没提目标，target_idx 应该是 -1\n\
     - 如果遗言里嫁祸 / 留给场上推理，开枪选择应当配合那个叙事\n\n\
     注：公开广播只显示『X 临死前开枪带走 Y』或『X 选择不开枪』，**不会标记你的身份**\
     （猎人和狼王共享开枪技能，狼王惯例伪装成猎人）。\n\n\
     ## 高玩开枪决策\n\
     - 看『玩家档案』：你最确定是狼的人是谁？开枪带走他/她。\n\
     - 如果你毫无把握，**带走最像狼的人比不开枪好**（不开枪 = 浪费技能）。\n\
     - 你是 {}（{} 流派）—— 开枪选择也要符合流派烙印（悍跳激进流敢决断、逻辑推理流给出严密链条、反水诡道流可反手带走己方狼伪装好人，等等）。\n\n\
     返回 JSON: {\"speech\": \"<遗言, ≤100 字>\", \"target_idx\": <整数 idx 或 -1>, \"thinking\": \"<完整推理：为何带走这个/不开枪>\"}";

pub const DAY_SPEECH_SYSTEM: &'static str = "你是飞书群里玩狼人杀的高水平玩家，现在是白天，轮到你发言（一次性单次发言，提交后回合结束）。\
     你的真实身份是 **{}**。{}\n\
     {}\n\n{}\n\n## 你的发言任务\n\
     - 发表一段公开广播给全场的看法。\n\
     - 风格：群聊语气、自然口语、≤ 80 字、一段话；可空 (沉默) 但代价高。\n\n\
     ## 这一刻你必须做的事（按顺序在 thinking 里走一遍）\n\
     1. 把『玩家档案』里的每个存活玩家过一遍：他们都说过什么、投过谁？\n\
     2. 是否存在跳神职冲突？谁的逻辑链更可信？\n\
     3. 有没有人这一天还没发过言？没说话的玩家是更难分析（信息少），但也是潜在突破点。\n\
     4. 我作为 **{}**（{} 流派），说出哪种话**最大化我方利益**？——\n\
     - 如果你是预言家：你的查验信息是最强武器，是否报、何时报、报哪个？\n\
     - 如果你是女巫/猎人/守卫：神职身份要不要暴露？藏起来更好还是亮出来逼狼？\n\
     - 如果你是村民：你没确定信息，靠**指出别人逻辑的漏洞**找狼。\n\
     - 如果你是狼/狼王：你的敌人是好人神职。装好人 / 带节奏 / 反咬狼队友 / 悍跳预言家——按你的流派选。\n\
     5. 我说出的话能否被其他玩家**反驳或验证**？空话（『我感觉 X 像狼』）等于没说。\n\
     6. **拒绝跟风**：如果场上正在向某人聚拢攻击，是不是被狼带节奏了？\n\n\
     返回 JSON: {\"speech\": \"<发言, ≤80 字, 必须有可验证逻辑>\", \"thinking\": \"<你完整的推理：扫了哪几个人、信谁、为什么这么说>\"}";

pub const WOLF_CHAT_SECTION: &'static str = "\n\n## 狼频道发言（仅狼可见）\n\
     队伍里有人类狼，你可以在 \"chat\" 字段说一句协调队友的话（≤ 30 字，可选 / 可为 null）。";

pub const WOLF_CHAT_FIELD: &'static str = ", \"chat\": \"<≤30 字发言, 不想说就 null>\"";

pub open spec fn persona_text(persona: Option<Persona>) -> Seq<char> {
    match persona {
        Some(p) => PREAMBLE@ + "## 你的高玩档案：**"@ + p.title() + "**\n"@ + p.portrait()
            + "\n\n这是你的流派烙印——你的发言、投票、站警、跳身份的所有决策都要让其他玩家从行为里**读得出你是这个流派的高玩**。不是娱乐玩家，是有套路、能算几层的人。"@,
        None => PREAMBLE@ + "你没有特定流派，按一般直觉决策。"@,
    }
}

/// How the player is to think, and whose style they have.
pub fn persona_line(persona: Option<Persona>) -> (r: String)
    ensures
        r@ == persona_text(persona),
{
    match persona {
        Some(p) => {
            let s = plus(plus(PREAMBLE.to_owned(), "## 你的高玩档案：**"), p.label());
            let s = plus(plus(s, "**\n"), p.description());
            plus(
                s,
                "\n\n这是你的流派烙印——你的发言、投票、站警、跳身份的所有决策都要让其他玩家从行为里**读得出你是这个流派的高玩**。不是娱乐玩家，是有套路、能算几层的人。",
            )
        },
        None => plus(PREAMBLE.to_owned(), "你没有特定流派，按一般直觉决策。"),
    }
}

pub open spec fn team_text(role: Role) -> Seq<char> {
    if role.wolf() { "你的阵营是狼。"@ } else { "你的阵营是好人。"@ }
}

fn team_line(role: Role) -> (r: &'static str)
    ensures
        r@ == team_text(role),
{
    if role.is_wolf() {
        "你的阵营是狼。"
    } else {
        "你的阵营是好人。"
    }
}

pub open spec fn style_text(persona: Option<Persona>) -> Seq<char> {
    match persona {
        Some(p) => p.title(),
        None => "通用"@,
    }
}

fn style_line(persona: Option<Persona>) -> (r: &'static str)
    ensures
        r@ == style_text(persona),
{
    match persona {
        Some(p) => p.label(),
        None => "通用",
    }
}

/// A task of one role: the template's gaps take the style and the rules.
pub open spec fn task_text(template: Seq<char>, v: PublicModel) -> Seq<char> {
    filled(template, seq![persona_text(v.persona), RULES@])
}

fn task(template: &str, v: &PublicView) -> (r: String)
    ensures
        r@ == task_text(template@, v@),
{
    let mut args = no_texts();
    append_text(&mut args, persona_line(v.persona));
    append_text(&mut args, RULES.to_owned());
    assert(texts(args@) =~= seq![persona_text(v.persona), RULES@]);
    fill(template, &args)
}

/// A task of any role: the role and the side come first.
pub open spec fn role_task_text(template: Seq<char>, v: PublicModel) -> Seq<char> {
    filled(template, seq![v.me_role.title(), team_text(v.me_role), persona_text(v.persona), RULES@])
}

fn role_task(template: &str, v: &PublicView) -> (r: String)
    ensures
        r@ == role_task_text(template@, v@),
{
    let mut args = no_texts();
    append_text(&mut args, v.me_role.label().to_owned());
    append_text(&mut args, team_line(v.me_role).to_owned());
    append_text(&mut args, persona_line(v.persona));
    append_text(&mut args, RULES.to_owned());
    assert(texts(args@) =~= seq![v.me_role.title(), team_text(v.me_role), persona_text(v.persona), RULES@]);
    fill(template, &args)
}

/// A task that reminds of the role and the style once more.
pub open spec fn voice_task_text(template: Seq<char>, v: PublicModel) -> Seq<char> {
    filled(
        template,
        seq![
            v.me_role.title(),
            team_text(v.me_role),
            persona_text(v.persona),
            RULES@,
            v.me_role.title(),
            style_text(v.persona),
        ],
    )
}

fn voice_task(template: &str, v: &PublicView) -> (r: String)
    ensures
        r@ == voice_task_text(template@, v@),
{
    let mut args = no_texts();
    append_text(&mut args, v.me_role.label().to_owned());
    append_text(&mut args, team_line(v.me_role).to_owned());
    append_text(&mut args, persona_line(v.persona));
    append_text(&mut args, RULES.to_owned());
    append_text(&mut args, v.me_role.label().to_owned());
    append_text(&mut args, style_line(v.persona).to_owned());
    assert(texts(args@) =~= seq![
        v.me_role.title(),
        team_text(v.me_role),
        persona_text(v.persona),
        RULES@,
        v.me_role.title(),
        style_text(v.persona),
    ]);
    fill(template, &args)
}

// ---- candidates ----

/// The living but for the player themselves.
pub open spec fn others(players: Seq<(usize, Seq<char>, bool)>, me: usize) -> Seq<(usize, Seq<char>)>
    decreases players.len(),
{
    if players.len() == 0 {
        Seq::empty()
    } else {
        let rest = others(players.drop_last(), me);
        let p = players.last();
        if p.2 && p.0 != me { rest.push((p.0, p.1)) } else { rest }
    }
}

/// Whether the seat is a wolf's.
pub open spec fn wolf_at(g: WolfGameView, seat: usize) -> bool {
    seat < g.players.len() && g.players[seat as int].wolf()
}

/// The living who are no wolves.
pub open spec fn prey(players: Seq<(usize, Seq<char>, bool)>, g: WolfGameView) -> Seq<(usize, Seq<char>)>
    decreases players.len(),
{
    if players.len() == 0 {
        Seq::empty()
    } else {
        let rest = prey(players.drop_last(), g);
        let p = players.last();
        if p.2 && !wolf_at(g, p.0) { rest.push((p.0, p.1)) } else { rest }
    }
}

/// The living whom the guard did not protect last night.
pub open spec fn guardable(players: Seq<(usize, Seq<char>, bool)>, last: Option<usize>) -> Seq<(usize, Seq<char>)>
    decreases players.len(),
{
    if players.len() == 0 {
        Seq::empty()
    } else {
        let rest = guardable(players.drop_last(), last);
        let p = players.last();
        if p.2 && last != Some(p.0) { rest.push((p.0, p.1)) } else { rest }
    }
}

/// Put a candidate behind the others.
fn append_candidate(list: &mut Vec<(usize, String)>, seat: usize, name: &String)
    ensures
        said_view(final(list)@) == said_view(old(list)@).push((seat, name@)),
{
    list.push((seat, name.clone()));
    assert(said_view(list@) =~= said_view(old(list)@).push((seat, name@)));
}

pub fn other_players(v: &PublicView) -> (r: Vec<(usize, String)>)
    ensures
        said_view(r@) == others(v@.players, v@.me_idx),
{
    let ghost all = v@.players;
    let mut out: Vec<(usize, String)> = Vec::new();
    let mut i: usize = 0;
    assert(said_view(out@) =~= others(all.take(0), v@.me_idx));
    while i < v.players.len()
        invariant
            all == v@.players,
            i <= v.players@.len() == all.len(),
            said_view(out@) == others(all.take(i as int), v@.me_idx),
        decreases v.players@.len() - i,
    {
        assert(all.take(i + 1).drop_last() =~= all.take(i as int));
        assert(all.take(i + 1).last() == all[i as int]);
        if v.players[i].2 && v.players[i].0 != v.me_idx {
            append_candidate(&mut out, v.players[i].0, &v.players[i].1);
        }
        i = i + 1;
    }
    assert(all.take(i as int) =~= all);
    out
}

pub fn wolf_targets(v: &PublicView, game: &WolfGame) -> (r: Vec<(usize, String)>)
    ensures
        said_view(r@) == prey(v@.players, game@),
{
    let ghost all = v@.players;
    let mut out: Vec<(usize, String)> = Vec::new();
    let mut i: usize = 0;
    assert(said_view(out@) =~= prey(all.take(0), game@));
    while i < v.players.len()
        invariant
            all == v@.players,
            i <= v.players@.len() == all.len(),
            said_view(out@) == prey(all.take(i as int), game@),
        decreases v.players@.len() - i,
    {
        assert(all.take(i + 1).drop_last() =~= all.take(i as int));
        assert(all.take(i + 1).last() == all[i as int]);
        if v.players[i].2 && !game.is_wolf(v.players[i].0) {
            append_candidate(&mut out, v.players[i].0, &v.players[i].1);
        }
        i = i + 1;
    }
    assert(all.take(i as int) =~= all);
    out
}

pub fn guard_targets(v: &PublicView, last: Option<usize>) -> (r: Vec<(usize, String)>)
    ensures
        said_view(r@) == guardable(v@.players, last),
{
    let ghost all = v@.players;
    let mut out: Vec<(usize, String)> = Vec::new();
    let mut i: usize = 0;
    assert(said_view(out@) =~= guardable(all.take(0), last));
    while i < v.players.len()
        invariant
            all == v@.players,
            i <= v.players@.len() == all.len(),
            said_view(out@) == guardable(all.take(i as int), last),
        decreases v.players@.len() - i,
    {
        assert(all.take(i + 1).drop_last() =~= all.take(i as int));
        assert(all.take(i + 1).last() == all[i as int]);
        let again = match last {
            Some(l) => l == v.players[i].0,
            None => false,
        };
        if v.players[i].2 && !again {
            append_candidate(&mut out, v.players[i].0, &v.players[i].1);
        }
        i = i + 1;
    }
    assert(all.take(i as int) =~= all);
    out
}

/// `3 = Alice`.
pub open spec fn candidate_text(c: (usize, Seq<char>)) -> Seq<char> {
    decimal(c.0 as nat) + " = "@ + c.1
}

/// The candidates, one to a line.
pub open spec fn candidates_text(list: Seq<(usize, Seq<char>)>) -> Seq<char> {
    joined(list.map_values(|c: (usize, Seq<char>)| candidate_text(c)), "\n"@)
}

fn candidate_lines(list: &Vec<(usize, String)>) -> (r: String)
    ensures
        r@ == candidates_text(said_view(list@)),
{
    let ghost want = said_view(list@).map_values(|c: (usize, Seq<char>)| candidate_text(c));
    let mut out = no_texts();
    let mut i: usize = 0;
    while i < list.len()
        invariant
            want == said_view(list@).map_values(|c: (usize, Seq<char>)| candidate_text(c)),
            i <= list@.len() == want.len(),
            texts(out@) =~= want.take(i as int),
        decreases list@.len() - i,
    {
        let s = plus(plus(plus_number(String::new(), list[i].0 as u64), " = "), list[i].1.as_str());
        assert(want.take(i + 1) =~= want.take(i as int).push(want[i as int]));
        append_text(&mut out, s);
        i = i + 1;
    }
    assert(want.take(i as int) =~= want);
    join(&out, "\n")
}

/// What the player is told and, behind a heading, whom they can name.
pub open spec fn choice_text(v: PublicModel, heading: Seq<char>, list: Seq<(usize, Seq<char>)>, end: Seq<char>) -> Seq<char> {
    v.text() + heading + candidates_text(list) + end
}

fn choice(v: &PublicView, heading: &str, list: &Vec<(usize, String)>, end: &str) -> (r: String)
    ensures
        r@ == choice_text(v@, heading@, said_view(list@), end@),
{
    plus(plus(plus(v.render(), heading), candidate_lines(list).as_str()), end)
}

// ---- messages ----

/// Attempts that were refused: the answer, and why.
pub type AttemptHistory = Vec<(String, String)>;

pub open spec fn pairs_view(s: Seq<(String, String)>) -> Seq<(Seq<char>, Seq<char>)> {
    s.map_values(|p: (String, String)| (p.0@, p.1@))
}

/// The conversation: the system's part, the question, and then each refused
/// attempt with the reason, so that the next answer can do better.
pub open spec fn conversation(
    system: Seq<char>,
    user: Seq<char>,
    history: Seq<(Seq<char>, Seq<char>)>,
) -> Seq<(Seq<char>, Seq<char>)>
    decreases history.len(),
{
    if history.len() == 0 {
        seq![("system"@, system), ("user"@, user)]
    } else {
        conversation(system, user, history.drop_last()).push(("assistant"@, history.last().0)).push(
            ("user"@, feedback_text(history.last().1)),
        )
    }
}

pub open spec fn feedback_text(reason: Seq<char>) -> Seq<char> {
    "⚠️ 上面的答案不合法："@ + reason + "\n请基于这个反馈**重新选择一个合法的答案**，仅返回新的 JSON 对象。"@
}

/// Put a message behind the others.
fn append_message(list: &mut Vec<(String, String)>, who: &str, what: String)
    ensures
        pairs_view(final(list)@) == pairs_view(old(list)@).push((who@, what@)),
{
    list.push((who.to_owned(), what));
    assert(pairs_view(list@) =~= pairs_view(old(list)@).push((who@, what@)));
}

/// The conversation that the model is sent.
pub fn chat_with_history(system: String, user: String, history: &AttemptHistory) -> (r: Vec<(String, String)>)
    ensures
        pairs_view(r@) == conversation(system@, user@, pairs_view(history@)),
{
    let ghost (sys, usr) = (system@, user@);
    let ghost all = pairs_view(history@);
    let mut out: Vec<(String, String)> = Vec::new();
    assert(pairs_view(out@) =~= Seq::empty());
    append_message(&mut out, "system", system);
    append_message(&mut out, "user", user);
    assert(pairs_view(out@) =~= seq![("system"@, sys), ("user"@, usr)]);
    let mut i: usize = 0;
    assert(all.take(0) =~= Seq::empty());
    while i < history.len()
        invariant
            all == pairs_view(history@),
            i <= history@.len() == all.len(),
            pairs_view(out@) == conversation(sys, usr, all.take(i as int)),
        decreases history@.len() - i,
    {
        assert(all.take(i + 1).drop_last() =~= all.take(i as int));
        assert(all.take(i + 1).last() == all[i as int]);
        append_message(&mut out, "assistant", history[i].0.clone());
        let s = plus("⚠️ 上面的答案不合法：".to_owned(), history[i].1.as_str());
        let s = plus(s, "\n请基于这个反馈**重新选择一个合法的答案**，仅返回新的 JSON 对象。");
        append_message(&mut out, "user", s);
        i = i + 1;
    }
    assert(all.take(i as int) =~= all);
    out
}

// ---- the questions ----

/// What the wolves have chosen but for the one at `me`.
pub open spec fn mates_picks(g: WolfGameView, votes: Seq<(usize, usize)>, me: usize) -> Seq<Seq<char>>
    decreases votes.len(),
{
    if votes.len() == 0 {
        Seq::empty()
    } else {
        let rest = mates_picks(g, votes.drop_last(), me);
        let (w, t) = votes.last();
        if w != me {
            rest.push(g.players[w as int].name + " 选择杀 "@ + g.players[t as int].name)
        } else {
            rest
        }
    }
}

fn list_picks(game: &WolfGame, me: usize) -> (r: Vec<String>)
    requires
        game@.wf(),
    ensures
        texts(r@) == mates_picks(game@, game@.wolf_kill_votes, me),
{
    let ghost all = game@.wolf_kill_votes;
    let mut out = no_texts();
    let mut i: usize = 0;
    assert(all.take(0) =~= Seq::empty());
    while i < game.wolf_kill_votes.len()
        invariant
            game@.wf(),
            all == game@.wolf_kill_votes,
            all == game.wolf_kill_votes@,
            i <= all.len(),
            texts(out@) == mates_picks(game@, all.take(i as int), me),
        decreases all.len() - i,
    {
        assert(all.take(i + 1).drop_last() =~= all.take(i as int));
        assert(all.take(i + 1).last() == all[i as int]);
        let (w, t) = game.wolf_kill_votes[i];
        assert(all[i as int].0 < game@.players.len() && all[i as int].1 < game@.players.len());
        if w != me {
            let s = plus(game.players[w].name.clone(), " 选择杀 ");
            append_text(&mut out, plus(s, game.players[t].name.as_str()));
        }
        i = i + 1;
    }
    assert(all.take(i as int) =~= all);
    out
}

/// What the wolves have said to each other.
pub open spec fn chat_lines(g: WolfGameView) -> Seq<Seq<char>> {
    g.wolf_chat.map_values(|c: (usize, Seq<char>)| g.players[c.0 as int].name + ": "@ + c.1)
}

fn list_chat(game: &WolfGame) -> (r: Vec<String>)
    requires
        game@.wf(),
    ensures
        texts(r@) == chat_lines(game@),
{
    let ghost want = chat_lines(game@);
    let mut out = no_texts();
    let mut i: usize = 0;
    while i < game.wolf_chat.len()
        invariant
            game@.wf(),
            want == chat_lines(game@),
            i <= game.wolf_chat@.len() == want.len() == game@.wolf_chat.len(),
            texts(out@) =~= want.take(i as int),
        decreases want.len() - i,
    {
        assert(game@.wolf_chat[i as int].0 < game@.players.len());
        let c = &game.wolf_chat[i];
        let s = plus(plus(game.players[c.0].name.clone(), ": "), c.1.as_str());
        assert(want.take(i + 1) =~= want.take(i as int).push(want[i as int]));
        append_text(&mut out, s);
        i = i + 1;
    }
    assert(want.take(i as int) =~= want);
    out
}

pub open spec fn wolf_system_text(v: PublicModel, speak: bool) -> Seq<char> {
    filled(
        WOLF_SYSTEM@,
        seq![
            persona_text(v.persona),
            RULES@,
            if speak { WOLF_CHAT_SECTION@ } else { ""@ },
            if speak { WOLF_CHAT_FIELD@ } else { ""@ },
        ],
    )
}

fn wolf_system(v: &PublicView, speak: bool) -> (r: String)
    ensures
        r@ == wolf_system_text(v@, speak),
{
    let mut args = no_texts();
    append_text(&mut args, persona_line(v.persona));
    append_text(&mut args, RULES.to_owned());
    append_text(&mut args, if speak { WOLF_CHAT_SECTION.to_owned() } else { "".to_owned() });
    append_text(&mut args, if speak { WOLF_CHAT_FIELD.to_owned() } else { "".to_owned() });
    assert(texts(args@) =~= seq![
        persona_text(v.persona),
        RULES@,
        if speak { WOLF_CHAT_SECTION@ } else { ""@ },
        if speak { WOLF_CHAT_FIELD@ } else { ""@ },
    ]);
    fill(WOLF_SYSTEM, &args)
}

pub open spec fn wolf_user_text(v: PublicModel, g: WolfGameView) -> Seq<char> {
    let picks = mates_picks(g, g.wolf_kill_votes, v.me_idx);
    choice_text(v, "\n\n## 候选目标（仅这些 idx 是合法的）\n"@, prey(v.players, g), "\n\n"@) + (if picks.len() == 0 {
        "队友尚未提交选择"@
    } else {
        "队友进度：\n"@ + joined(picks, "\n"@)
    }) + "\n\n"@ + (if g.wolf_chat.len() == 0 {
        "狼频道暂无发言"@
    } else {
        "狼频道历史：\n"@ + joined(chat_lines(g), "\n"@)
    })
}

fn wolf_user(v: &PublicView, game: &WolfGame) -> (r: String)
    requires
        game@.wf(),
    ensures
        r@ == wolf_user_text(v@, game@),
{
    let list = wolf_targets(v, game);
    let picks = list_picks(game, v.me_idx);
    let chat = list_chat(game);
    assert(texts(picks@).len() == picks@.len());
    assert(texts(chat@).len() == chat@.len());
    let progress = if picks.len() == 0 {
        "队友尚未提交选择".to_owned()
    } else {
        plus("队友进度：\n".to_owned(), join(&picks, "\n").as_str())
    };
    let said = if chat.len() == 0 {
        "狼频道暂无发言".to_owned()
    } else {
        plus("狼频道历史：\n".to_owned(), join(&chat, "\n").as_str())
    };
    let s = choice(v, "\n\n## 候选目标（仅这些 idx 是合法的）\n", &list, "\n\n");
    plus(plus(plus(s, progress.as_str()), "\n\n"), said.as_str())
}

/// A wolf is asked whom to kill, unless there is nobody. Where there are people
/// among the wolves they may say a word to the pack.
pub fn wolf_question(v: &PublicView, game: &WolfGame, speak_enabled: bool, history: &AttemptHistory) -> (r: Option<
    Vec<(String, String)>,
>)
    requires
        game@.wf(),
    ensures
        r is None <==> prey(v@.players, game@).len() == 0,
        r is Some ==> pairs_view(r->0@) == conversation(
            wolf_system_text(v@, speak_enabled),
            wolf_user_text(v@, game@),
            pairs_view(history@),
        ),
{
    let list = wolf_targets(v, game);
    assert(said_view(list@).len() == list@.len());
    if list.len() == 0 {
        return None;
    }
    Some(chat_with_history(wolf_system(v, speak_enabled), wolf_user(v, game), history))
}

pub open spec fn seer_user_text(v: PublicModel) -> Seq<char> {
    choice_text(v, "\n\n## 候选目标（仅这些 idx 合法）\n"@, others(v.players, v.me_idx), ""@)
}

/// The seer is asked whom to check, unless there is nobody.
pub fn seer_question(v: &PublicView, history: &AttemptHistory) -> (r: Option<Vec<(String, String)>>)
    ensures
        r is None <==> others(v@.players, v@.me_idx).len() == 0,
        r is Some ==> pairs_view(r->0@) == conversation(
            task_text(SEER_SYSTEM@, v@),
            seer_user_text(v@),
            pairs_view(history@),
        ),
{
    let list = other_players(v);
    assert(said_view(list@).len() == list@.len());
    if list.len() == 0 {
        return None;
    }
    let user = choice(v, "\n\n## 候选目标（仅这些 idx 合法）\n", &list, "");
    Some(chat_with_history(task(SEER_SYSTEM, v), user, history))
}

pub open spec fn potion_text(used: bool) -> Seq<char> {
    if used { "✗ 已用"@ } else { "✓ 可用"@ }
}

pub open spec fn victim_text(g: WolfGameView) -> Seq<char> {
    match g.night_victim {
        Some(i) => "今晚狼刀目标："@ + g.players[i as int].name,
        None => "今晚狼人空刀，没人需要救"@,
    }
}

pub open spec fn witch_user_text(v: PublicModel, g: WolfGameView) -> Seq<char> {
    v.text() + "\n\n"@ + victim_text(g) + "\n\n药剂状态：救药 "@ + potion_text(g.witch_save_used) + " · 毒药 "@
        + potion_text(g.witch_poison_used) + "\n\n## 毒药候选目标（仅这些 idx 合法）\n"@
        + candidates_text(others(v.players, v.me_idx))
}

/// The witch is asked to save, poison or wait.
pub fn witch_question(v: &PublicView, game: &WolfGame, history: &AttemptHistory) -> (r: Vec<(String, String)>)
    requires
        game@.wf(),
    ensures
        pairs_view(r@) == conversation(
            task_text(WITCH_SYSTEM@, v@),
            witch_user_text(v@, game@),
            pairs_view(history@),
        ),
{
    let list = other_players(v);
    let victim = match game.night_victim {
        Some(i) => plus("今晚狼刀目标：".to_owned(), game.players[i].name.as_str()),
        None => "今晚狼人空刀，没人需要救".to_owned(),
    };
    let s = plus(plus(v.render(), "\n\n"), victim.as_str());
    let s = plus(plus(s, "\n\n药剂状态：救药 "), if game.witch_save_used { "✗ 已用" } else { "✓ 可用" });
    let s = plus(plus(s, " · 毒药 "), if game.witch_poison_used { "✗ 已用" } else { "✓ 可用" });
    let s = plus(plus(s, "\n\n## 毒药候选目标（仅这些 idx 合法）\n"), candidate_lines(&list).as_str());
    chat_with_history(task(WITCH_SYSTEM, v), s, history)
}

pub open spec fn vote_user_text(v: PublicModel) -> Seq<char> {
    choice_text(v, "\n\n## 候选目标（idx 合法值）\n"@, others(v.players, v.me_idx), "\n-1 = 弃权"@)
}

/// A player is asked whom to vote out.
pub fn vote_question(v: &PublicView, history: &AttemptHistory) -> (r: Vec<(String, String)>)
    ensures
        pairs_view(r@) == conversation(
            voice_task_text(VOTE_SYSTEM@, v@),
            vote_user_text(v@),
            pairs_view(history@),
        ),
{
    let list = other_players(v);
    let user = choice(v, "\n\n## 候选目标（idx 合法值）\n", &list, "\n-1 = 弃权");
    chat_with_history(voice_task(VOTE_SYSTEM, v), user, history)
}

pub open spec fn hunter_user_text(v: PublicModel) -> Seq<char> {
    choice_text(v, "\n\n## 候选目标\n"@, others(v.players, v.me_idx), "\n-1 = 不开枪"@)
}

/// A dying hunter or wolf king is asked whom to shoot, unless there is nobody.
pub fn hunter_question(v: &PublicView, history: &AttemptHistory) -> (r: Option<Vec<(String, String)>>)
    ensures
        r is None <==> others(v@.players, v@.me_idx).len() == 0,
        r is Some ==> pairs_view(r->0@) == conversation(
            role_task_text(HUNTER_SYSTEM@, v@),
            hunter_user_text(v@),
            pairs_view(history@),
        ),
{
    let list = other_players(v);
    assert(said_view(list@).len() == list@.len());
    if list.len() == 0 {
        return None;
    }
    let user = choice(v, "\n\n## 候选目标\n", &list, "\n-1 = 不开枪");
    Some(chat_with_history(role_task(HUNTER_SYSTEM, v), user, history))
}

pub open spec fn guard_user_text(v: PublicModel, g: WolfGameView) -> Seq<char> {
    v.text() + "\n\n"@ + (match g.last_guard_target {
        Some(i) => "（昨夜守过："@ + g.players[i as int].name + "，本夜不可再守）"@,
        None => "（首夜，无限制）"@,
    }) + "\n\n## 候选目标\n"@ + candidates_text(guardable(v.players, g.last_guard_target))
}

/// The guard is asked whom to protect, unless there is nobody.
pub fn guard_question(v: &PublicView, game: &WolfGame, history: &AttemptHistory) -> (r: Option<Vec<(String, String)>>)
    requires
        game@.wf(),
    ensures
        r is None <==> guardable(v@.players, game@.last_guard_target).len() == 0,
        r is Some ==> pairs_view(r->0@) == conversation(
            task_text(GUARD_SYSTEM@, v@),
            guard_user_text(v@, game@),
            pairs_view(history@),
        ),
{
    let list = guard_targets(v, game.last_guard_target);
    assert(said_view(list@).len() == list@.len());
    if list.len() == 0 {
        return None;
    }
    let last = match game.last_guard_target {
        Some(i) => plus(plus("（昨夜守过：".to_owned(), game.players[i].name.as_str()), "，本夜不可再守）"),
        None => "（首夜，无限制）".to_owned(),
    };
    let s = plus(plus(v.render(), "\n\n"), last.as_str());
    let s = plus(plus(s, "\n\n## 候选目标\n"), candidate_lines(&list).as_str());
    Some(chat_with_history(task(GUARD_SYSTEM, v), s, history))
}

/// The question without attempts before it.
fn ask(system: String, v: &PublicView) -> (r: Vec<(String, String)>)
    ensures
        pairs_view(r@) == conversation(system@, v@.text(), Seq::empty()),
{
    let none: AttemptHistory = Vec::new();
    assert(pairs_view(none@) =~= Seq::empty());
    chat_with_history(system, v.render(), &none)
}

/// A player is asked whether to run for sheriff.
pub fn run_question(v: &PublicView) -> (r: Vec<(String, String)>)
    ensures
        pairs_view(r@) == conversation(role_task_text(RUN_SYSTEM@, v@), v@.text(), Seq::empty()),
{
    ask(role_task(RUN_SYSTEM, v), v)
}

pub open spec fn sheriff_vote_system_text(v: PublicModel) -> Seq<char> {
    filled(
        SHERIFF_VOTE_SYSTEM@,
        seq![
            v.me_role.title(),
            team_text(v.me_role),
            persona_text(v.persona),
            RULES@,
            style_text(v.persona),
        ],
    )
}

fn sheriff_vote_system(v: &PublicView) -> (r: String)
    ensures
        r@ == sheriff_vote_system_text(v@),
{
    let mut args = no_texts();
    append_text(&mut args, v.me_role.label().to_owned());
    append_text(&mut args, team_line(v.me_role).to_owned());
    append_text(&mut args, persona_line(v.persona));
    append_text(&mut args, RULES.to_owned());
    append_text(&mut args, style_line(v.persona).to_owned());
    assert(texts(args@) =~= seq![
        v.me_role.title(),
        team_text(v.me_role),
        persona_text(v.persona),
        RULES@,
        style_text(v.persona),
    ]);
    fill(SHERIFF_VOTE_SYSTEM, &args)
}

pub open spec fn sheriff_vote_user_text(v: PublicModel, candidates: Seq<(usize, Seq<char>)>) -> Seq<char> {
    choice_text(v, "\n\n## 警长候选人（仅这些 idx 合法）\n"@, candidates, ""@)
}

/// A player is asked which candidate to make sheriff, unless there is none.
pub fn sheriff_vote_question(v: &PublicView, candidates: &Vec<(usize, String)>, history: &AttemptHistory) -> (r: Option<
    Vec<(String, String)>,
>)
    ensures
        r is None <==> candidates@.len() == 0,
        r is Some ==> pairs_view(r->0@) == conversation(
            sheriff_vote_system_text(v@),
            sheriff_vote_user_text(v@, said_view(candidates@)),
            pairs_view(history@),
        ),
{
    if candidates.len() == 0 {
        return None;
    }
    let user = choice(v, "\n\n## 警长候选人（仅这些 idx 合法）\n", candidates, "");
    Some(chat_with_history(sheriff_vote_system(v), user, history))
}

pub open spec fn badge_user_text(v: PublicModel) -> Seq<char> {
    choice_text(v, "\n\n## 候选接警人\n"@, others(v.players, v.me_idx), "\n-1 = 撕毁警徽"@)
}

/// A dying sheriff is asked who takes the badge, unless there is nobody.
pub fn badge_question(v: &PublicView, history: &AttemptHistory) -> (r: Option<Vec<(String, String)>>)
    ensures
        r is None <==> others(v@.players, v@.me_idx).len() == 0,
        r is Some ==> pairs_view(r->0@) == conversation(
            role_task_text(BADGE_SYSTEM@, v@),
            badge_user_text(v@),
            pairs_view(history@),
        ),
{
    let list = other_players(v);
    assert(said_view(list@).len() == list@.len());
    if list.len() == 0 {
        return None;
    }
    let user = choice(v, "\n\n## 候选接警人\n", &list, "\n-1 = 撕毁警徽");
    Some(chat_with_history(role_task(BADGE_SYSTEM, v), user, history))
}

/// A candidate is asked for a speech.
pub fn sheriff_speech_question(v: &PublicView) -> (r: Vec<(String, String)>)
    ensures
        pairs_view(r@) == conversation(voice_task_text(SHERIFF_SPEECH_SYSTEM@, v@), v@.text(), Seq::empty()),
{
    ask(voice_task(SHERIFF_SPEECH_SYSTEM, v), v)
}

/// A player who does not run is asked what they think of those who do.
pub fn side_speech_question(v: &PublicView) -> (r: Vec<(String, String)>)
    ensures
        pairs_view(r@) == conversation(voice_task_text(SIDE_SPEECH_SYSTEM@, v@), v@.text(), Seq::empty()),
{
    ask(voice_task(SIDE_SPEECH_SYSTEM, v), v)
}

/// The sheriff is asked which way round the table speaks.
pub fn direction_question(v: &PublicView) -> (r: Vec<(String, String)>)
    ensures
        pairs_view(r@) == conversation(role_task_text(DIRECTION_SYSTEM@, v@), v@.text(), Seq::empty()),
{
    ask(role_task(DIRECTION_SYSTEM, v), v)
}

/// A dead player is asked for their last words.
pub fn last_words_question(v: &PublicView) -> (r: Vec<(String, String)>)
    ensures
        pairs_view(r@) == conversation(voice_task_text(LAST_WORDS_SYSTEM@, v@), v@.text(), Seq::empty()),
{
    ask(voice_task(LAST_WORDS_SYSTEM, v), v)
}

/// A dying hunter or wolf king is asked for their last words and their shot at
/// once, so that the two agree.
pub fn dying_question(v: &PublicView, history: &AttemptHistory) -> (r: Vec<(String, String)>)
    ensures
        pairs_view(r@) == conversation(
            voice_task_text(DYING_SYSTEM@, v@),
            choice_text(v@, "\n\n## 候选开枪目标（仅这些 idx 合法，或 -1 不开枪）\n"@, others(v@.players, v@.me_idx), ""@),
            pairs_view(history@),
        ),
{
    let list = other_players(v);
    let user = choice(v, "\n\n## 候选开枪目标（仅这些 idx 合法，或 -1 不开枪）\n", &list, "");
    chat_with_history(voice_task(DYING_SYSTEM, v), user, history)
}

/// A player is asked for their speech of the day.
pub fn day_speech_question(v: &PublicView) -> (r: Vec<(String, String)>)
    ensures
        pairs_view(r@) == conversation(voice_task_text(DAY_SPEECH_SYSTEM@, v@), v@.text(), Seq::empty()),
{
    ask(voice_task(DAY_SPEECH_SYSTEM, v), v)
}

} // verus!
