//! The rules of the ban and kick commands: who may be removed by whom, and
//! what the commands answer. Each command is a step function from what the
//! server last answered to what the command does next; the laws at the end
//! state what a whole run of each does.
use vstd::prelude::*;
use crate::text::{append, append_str, from_chars, to_chars};
use crate::num::{decimal, decimal_exec};

verus! {

/// The highest of some role positions, 0 when there are none.
pub open spec fn highest_position(ps: Seq<i16>) -> int
    decreases ps.len(),
{
    if ps.len() == 0 {
        0
    } else if ps.len() == 1 {
        ps[0] as int
    } else {
        let rest = highest_position(ps.drop_last());
        if ps.last() > rest {
            ps.last() as int
        } else {
            rest
        }
    }
}

/// The highest role position of a member, as the ban command reads it: the
/// largest position, or 0 for a member without roles.
pub fn highest_role(positions: &[i16]) -> (r: i16)
    ensures
        r as int == highest_position(positions@),
{
    if positions.len() == 0 {
        return 0;
    }
    let mut best: i16 = positions[0];
    let mut i: usize = 1;
    assert(positions@.take(1).drop_last() =~= Seq::<i16>::empty());
    while i < positions.len()
        invariant
            1 <= i <= positions@.len(),
            best as int == highest_position(positions@.take(i as int)),
        decreases positions@.len() - i,
    {
        assert(positions@.take(i + 1).drop_last() =~= positions@.take(i as int));
        if positions[i] > best {
            best = positions[i];
        }
        i += 1;
    }
    assert(positions@.take(positions@.len() as int) =~= positions@);
    best
}

/// The highest role position of a member, as the kick command reads it:
/// the largest of 0 and the positions.
pub open spec fn kick_position(ps: Seq<i16>) -> int
    decreases ps.len(),
{
    if ps.len() == 0 {
        0
    } else {
        let rest = kick_position(ps.drop_last());
        if ps.last() > rest {
            ps.last() as int
        } else {
            rest
        }
    }
}

pub fn kick_role(positions: &[i16]) -> (r: i16)
    ensures
        r as int == kick_position(positions@),
{
    let mut best: i16 = 0;
    let mut i: usize = 0;
    while i < positions.len()
        invariant
            i <= positions@.len(),
            best as int == kick_position(positions@.take(i as int)),
        decreases positions@.len() - i,
    {
        assert(positions@.take(i + 1).drop_last() =~= positions@.take(i as int));
        if positions[i] > best {
            best = positions[i];
        }
        i += 1;
    }
    assert(positions@.take(positions@.len() as int) =~= positions@);
    best
}

/// Why a ban is refused before the member is looked up: banning oneself or
/// the bot.
pub fn ban_target_refusal(target_is_author: bool, target_is_bot: bool) -> (r: Option<&'static str>)
    ensures
        target_is_author ==> (r matches Some(m) && m@ == "You cannot ban yourself."@),
        !target_is_author && target_is_bot ==> (r matches Some(m) && m@ == "You cannot ban me."@),
        !target_is_author && !target_is_bot ==> r is None,
{
    if target_is_author {
        Some("You cannot ban yourself.")
    } else if target_is_bot {
        Some("You cannot ban me.")
    } else {
        None
    }
}

/// Why banning a member of the server is refused: the owner cannot be
/// banned, nor a member whose highest role is not below both the author's
/// and the bot's.
pub open spec fn ban_member_refusal_spec(target_is_owner: bool, target: int, author: int, bot: int) -> Option<Seq<char>> {
    if target_is_owner {
        Some("You cannot ban the server owner."@)
    } else if target >= author {
        Some("You cannot ban this user. They have an equal or higher role than you."@)
    } else if target >= bot {
        Some("I cannot ban this user. They have an equal or higher role than me."@)
    } else {
        None
    }
}

pub fn ban_member_refusal(target_is_owner: bool, target: i16, author: i16, bot: i16) -> (r: Option<&'static str>)
    ensures
        match r {
            Some(m) => ban_member_refusal_spec(target_is_owner, target as int, author as int, bot as int) == Some(m@),
            None => ban_member_refusal_spec(target_is_owner, target as int, author as int, bot as int) is None,
        },
{
    if target_is_owner {
        Some("You cannot ban the server owner.")
    } else if target >= author {
        Some("You cannot ban this user. They have an equal or higher role than you.")
    } else if target >= bot {
        Some("I cannot ban this user. They have an equal or higher role than me.")
    } else {
        None
    }
}

/// How many days of messages a ban deletes (0 when not given), or the
/// refusal of a count past seven.
pub fn ban_delete_days(delete_days: Option<u8>) -> (r: Result<u8, &'static str>)
    ensures
        match r {
            Ok(d) => d <= 7 && d == match delete_days {
                Some(x) => x,
                None => 0u8,
            },
            Err(m) => m@ == "Delete days must be between 0 and 7."@ && (delete_days matches Some(x) && x > 7),
        },
{
    let d = match delete_days {
        Some(x) => x,
        None => 0,
    };
    if d > 7 {
        Err("Delete days must be between 0 and 7.")
    } else {
        Ok(d)
    }
}

/// The reason recorded with a ban or kick.
pub fn mod_reason(reason: Option<&str>) -> (r: String)
    ensures
        r@ == match reason {
            Some(t) => t@,
            None => "No reason provided"@,
        },
{
    match reason {
        Some(t) => from_chars(to_chars(t).as_slice()),
        None => "No reason provided".to_string(),
    }
}

/// The answer when the user is already banned.
pub fn already_banned_message(softban: bool) -> (r: &'static str)
    ensures
        r@ == if softban {
            "That user is already banned. Softban cannot be performed."@
        } else {
            "That user is already banned."@
        },
{
    if softban {
        "That user is already banned. Softban cannot be performed."
    } else {
        "That user is already banned."
    }
}

/// The answer to a ban that went through: a softban whose unban step
/// failed says so; otherwise the reason and the days of messages deleted.
pub open spec fn ban_done_spec(
    tag: Seq<char>,
    id: u64,
    reason: Seq<char>,
    delete_days: u8,
    softban: bool,
    unban_ok: bool,
) -> Seq<char> {
    let who = "**"@ + tag + "** ("@ + decimal(id as nat) + ")"@;
    let days = decimal(delete_days as nat) + if delete_days == 1 { " day"@ } else { " days"@ };
    if softban && !unban_ok {
        "**Banned** "@ + who + ", but the unban step of softban failed.\n**Reason:** "@ + reason
    } else {
        (if softban { "**Softbanned** "@ } else { "**Banned** "@ }) + who + ".\n**Reason:** "@ + reason
            + "\n**Messages deleted:** "@ + days
    }
}

pub fn ban_done_message(tag: &str, id: u64, reason: &str, delete_days: u8, softban: bool, unban_ok: bool) -> (r:
    String)
    ensures
        r@ == ban_done_spec(tag@, id, reason@, delete_days, softban, unban_ok),
{
    let mut who = to_chars("**");
    append_str(&mut who, tag);
    append_str(&mut who, "** (");
    append(&mut who, decimal_exec(id).as_slice());
    append_str(&mut who, ")");
    let mut out: Vec<char>;
    if softban && !unban_ok {
        out = to_chars("**Banned** ");
        append(&mut out, who.as_slice());
        append_str(&mut out, ", but the unban step of softban failed.\n**Reason:** ");
        append_str(&mut out, reason);
    } else {
        out = if softban { to_chars("**Softbanned** ") } else { to_chars("**Banned** ") };
        append(&mut out, who.as_slice());
        append_str(&mut out, ".\n**Reason:** ");
        append_str(&mut out, reason);
        append_str(&mut out, "\n**Messages deleted:** ");
        append(&mut out, decimal_exec(delete_days as u64).as_slice());
        if delete_days == 1 {
            append_str(&mut out, " day");
        } else {
            append_str(&mut out, " days");
        }
    }
    from_chars(out.as_slice())
}

/// The answer to a ban the server refused.
pub fn ban_failed_message(tag: &str) -> (r: String)
    ensures
        r@ == "Failed to ban **"@ + tag@ + "**."@,
{
    let mut out = to_chars("Failed to ban **");
    append_str(&mut out, tag);
    append_str(&mut out, "**.");
    from_chars(out.as_slice())
}

/// What the kick command does with its target before looking at roles.
pub enum KickTarget {
    /// Refuse with this answer.
    Refuse(&'static str),
    /// The bot was asked to kick itself: it answers and leaves the server.
    Leave(&'static str),
    /// Go on with the member checks.
    Check,
}

pub fn kick_target(target_is_author: bool, target_is_bot: bool) -> (r: KickTarget)
    ensures
        target_is_author ==> (r matches KickTarget::Refuse(m) && m@ == "You cannot kick yourself"@),
        !target_is_author && target_is_bot ==> (r matches KickTarget::Leave(m) && m@ == "Fine, I'll leave..."@),
        !target_is_author && !target_is_bot ==> r is Check,
{
    if target_is_author {
        KickTarget::Refuse("You cannot kick yourself")
    } else if target_is_bot {
        KickTarget::Leave("Fine, I'll leave...")
    } else {
        KickTarget::Check
    }
}

/// Why kicking is refused: the user must be a member, not the owner, and
/// have a highest role below both the author's and the bot's.
pub open spec fn kick_refusal_spec(in_server: bool, target_is_owner: bool, target: int, author: int, bot: int) -> Option<
    Seq<char>,
> {
    if !in_server {
        Some("User is not in this server"@)
    } else if target_is_owner {
        Some("Cannot kick the server owner"@)
    } else if target >= author {
        Some("Cannot kick this user - they have equal or higher role than you"@)
    } else if target >= bot {
        Some("Cannot kick this user - they have equal or higher role than me"@)
    } else {
        None
    }
}

pub fn kick_refusal(in_server: bool, target_is_owner: bool, target: i16, author: i16, bot: i16) -> (r: Option<
    &'static str,
>)
    ensures
        match r {
            Some(m) => kick_refusal_spec(in_server, target_is_owner, target as int, author as int, bot as int) == Some(
                m@,
            ),
            None => kick_refusal_spec(in_server, target_is_owner, target as int, author as int, bot as int) is None,
        },
{
    if !in_server {
        Some("User is not in this server")
    } else if target_is_owner {
        Some("Cannot kick the server owner")
    } else if target >= author {
        Some("Cannot kick this user - they have equal or higher role than you")
    } else if target >= bot {
        Some("Cannot kick this user - they have equal or higher role than me")
    } else {
        None
    }
}

/// The answer to a kick that went through.
pub fn kick_done_message(name: &str, id: u64, reason: &str) -> (r: String)
    ensures
        r@ == "**Kicked** "@ + name@ + " ("@ + decimal(id as nat) + ")\n**Reason:** "@ + reason@,
{
    let mut out = to_chars("**Kicked** ");
    append_str(&mut out, name);
    append_str(&mut out, " (");
    append(&mut out, decimal_exec(id).as_slice());
    append_str(&mut out, ")\n**Reason:** ");
    append_str(&mut out, reason);
    from_chars(out.as_slice())
}

// ------------------------------------------------------- the ban command

/// What the ban and kick commands read about a target who is a member of
/// the server: whether the target owns it, and the highest role positions
/// of the target, the invoker and the bot.
#[derive(Clone, Copy)]
pub struct MemberRoles {
    pub is_owner: bool,
    pub target: i16,
    pub author: i16,
    pub bot: i16,
}

/// A ban as it was asked for: whom (as seen from the invoker and the bot),
/// how many days of messages to delete, whether it is a softban, the
/// reason, and the target's tag and id for the answer.
pub struct BanRequest {
    pub target_is_author: bool,
    pub target_is_bot: bool,
    pub delete_days: Option<u8>,
    pub softban: Option<bool>,
    pub reason: Option<String>,
    pub tag: String,
    pub id: u64,
}

/// What came back from the ban command's last action (`Start` before the
/// first one).
#[derive(Clone, Copy)]
pub enum BanEvent {
    Start,
    /// The target as a member of the server, or `None` when it is not one.
    Member(Option<MemberRoles>),
    /// Whether the server already holds a ban of the target.
    BanRecord(bool),
    /// Whether the ban went through.
    Banned(bool),
    /// Whether the unban of a softban went through.
    Unbanned(bool),
}

/// The next thing the ban command does.
pub enum BanAction {
    /// Answer, and stop.
    Reply(String),
    /// Look the target up as a member of the server.
    LookUpMember,
    /// Ask whether the target is already banned.
    LookUpBan,
    /// Ban the target, deleting `days` days of its messages.
    Ban { days: u8, reason: String },
    /// Lift the ban again.
    Unban { reason: String },
}

pub enum BanActionView {
    Reply(Seq<char>),
    LookUpMember,
    LookUpBan,
    Ban { days: u8, reason: Seq<char> },
    Unban { reason: Seq<char> },
}

impl BanAction {
    pub open spec fn view(&self) -> BanActionView {
        match self {
            BanAction::Reply(m) => BanActionView::Reply(m@),
            BanAction::LookUpMember => BanActionView::LookUpMember,
            BanAction::LookUpBan => BanActionView::LookUpBan,
            BanAction::Ban { days, reason } => BanActionView::Ban { days: *days, reason: reason@ },
            BanAction::Unban { reason } => BanActionView::Unban { reason: reason@ },
        }
    }
}

pub open spec fn ban_days(req: BanRequest) -> u8 {
    match req.delete_days {
        Some(d) => d,
        None => 0u8,
    }
}

pub open spec fn ban_is_soft(req: BanRequest) -> bool {
    req.softban == Some(true)
}

pub open spec fn ban_reason(req: BanRequest) -> Seq<char> {
    match req.reason {
        Some(t) => t@,
        None => "No reason provided"@,
    }
}

/// After the member checks: refuse a day count past seven; else ban a
/// member at once, and ask first whether anyone else is already banned.
pub open spec fn ban_after_member(req: BanRequest, is_member: bool) -> BanActionView {
    if ban_days(req) > 7 {
        BanActionView::Reply("Delete days must be between 0 and 7."@)
    } else if is_member {
        BanActionView::Ban { days: ban_days(req), reason: ban_reason(req) }
    } else {
        BanActionView::LookUpBan
    }
}

/// The ban command's rule: what it does after each answer.
pub open spec fn ban_next(req: BanRequest, e: BanEvent) -> BanActionView {
    match e {
        BanEvent::Start => if req.target_is_author {
            BanActionView::Reply("You cannot ban yourself."@)
        } else if req.target_is_bot {
            BanActionView::Reply("You cannot ban me."@)
        } else {
            BanActionView::LookUpMember
        },
        BanEvent::Member(Some(m)) => match ban_member_refusal_spec(m.is_owner, m.target as int, m.author as int, m.bot as int) {
            Some(msg) => BanActionView::Reply(msg),
            None => ban_after_member(req, true),
        },
        BanEvent::Member(None) => ban_after_member(req, false),
        BanEvent::BanRecord(true) => BanActionView::Reply(
            if ban_is_soft(req) {
                "That user is already banned. Softban cannot be performed."@
            } else {
                "That user is already banned."@
            },
        ),
        BanEvent::BanRecord(false) => if ban_days(req) > 7 {
            BanActionView::Reply("Delete days must be between 0 and 7."@)
        } else {
            BanActionView::Ban { days: ban_days(req), reason: ban_reason(req) }
        },
        BanEvent::Banned(true) => if ban_is_soft(req) {
            BanActionView::Unban { reason: "Softban"@ }
        } else {
            BanActionView::Reply(ban_done_spec(req.tag@, req.id, ban_reason(req), ban_days(req), false, true))
        },
        BanEvent::Banned(false) => BanActionView::Reply("Failed to ban **"@ + req.tag@ + "**."@),
        BanEvent::Unbanned(ok) => BanActionView::Reply(
            ban_done_spec(req.tag@, req.id, ban_reason(req), ban_days(req), true, ok),
        ),
    }
}

/// What the ban command does after `e` (see `ban_next`).
pub fn ban_step(req: &BanRequest, e: BanEvent) -> (a: BanAction)
    ensures
        a.view() == ban_next(*req, e),
{
    let soft = match req.softban {
        Some(b) => b,
        None => false,
    };
    let days_ok = match req.delete_days {
        Some(d) => d <= 7,
        None => true,
    };
    match e {
        BanEvent::Start => match ban_target_refusal(req.target_is_author, req.target_is_bot) {
            Some(m) => BanAction::Reply(m.to_string()),
            None => BanAction::LookUpMember,
        },
        BanEvent::Member(Some(m)) => match ban_member_refusal(m.is_owner, m.target, m.author, m.bot) {
            Some(msg) => BanAction::Reply(msg.to_string()),
            None => match ban_delete_days(req.delete_days) {
                Err(msg) => BanAction::Reply(msg.to_string()),
                Ok(days) => BanAction::Ban { days, reason: mod_reason(opt_as_str(&req.reason)) },
            },
        },
        BanEvent::Member(None) => if days_ok {
            BanAction::LookUpBan
        } else {
            BanAction::Reply("Delete days must be between 0 and 7.".to_string())
        },
        BanEvent::BanRecord(true) => BanAction::Reply(already_banned_message(soft).to_string()),
        BanEvent::BanRecord(false) => match ban_delete_days(req.delete_days) {
            Err(msg) => BanAction::Reply(msg.to_string()),
            Ok(days) => BanAction::Ban { days, reason: mod_reason(opt_as_str(&req.reason)) },
        },
        BanEvent::Banned(true) => if soft {
            BanAction::Unban { reason: "Softban".to_string() }
        } else {
            let reason = mod_reason(opt_as_str(&req.reason));
            let days = match req.delete_days {
                Some(d) => d,
                None => 0,
            };
            BanAction::Reply(ban_done_message(req.tag.as_str(), req.id, reason.as_str(), days, false, true))
        },
        BanEvent::Banned(false) => BanAction::Reply(ban_failed_message(req.tag.as_str())),
        BanEvent::Unbanned(ok) => {
            let reason = mod_reason(opt_as_str(&req.reason));
            let days = match req.delete_days {
                Some(d) => d,
                None => 0,
            };
            BanAction::Reply(ban_done_message(req.tag.as_str(), req.id, reason.as_str(), days, true, ok))
        },
    }
}

fn opt_as_str(o: &Option<String>) -> (r: Option<&str>)
    ensures
        match o {
            Some(t) => r matches Some(u) && u@ == t@,
            None => r is None,
        },
{
    match o {
        Some(t) => Some(t.as_str()),
        None => None,
    }
}

/// How many items of `t` satisfy `p`.
pub open spec fn count_where<A>(t: Seq<A>, p: spec_fn(A) -> bool) -> nat
    decreases t.len(),
{
    if t.len() == 0 {
        0
    } else {
        (if p(t[0]) { 1nat } else { 0nat }) + count_where(t.skip(1), p)
    }
}

proof fn lemma_count_cons<A>(a: A, rest: Seq<A>, p: spec_fn(A) -> bool)
    ensures
        count_where(seq![a] + rest, p) == (if p(a) { 1nat } else { 0nat }) + count_where(rest, p),
{
    assert((seq![a] + rest).skip(1) =~= rest);
    assert((seq![a] + rest)[0] == a);
}

/// What the server answers to each action of the ban command: the target's
/// membership, whether it is already banned, and whether the ban and the
/// unban go through. A reply ends the command.
pub open spec fn ban_answer(a: BanActionView, member: Option<MemberRoles>, banned: bool, ban_ok: bool, unban_ok: bool) -> Option<BanEvent> {
    match a {
        BanActionView::Reply(_) => None,
        BanActionView::LookUpMember => Some(BanEvent::Member(member)),
        BanActionView::LookUpBan => Some(BanEvent::BanRecord(banned)),
        BanActionView::Ban { .. } => Some(BanEvent::Banned(ban_ok)),
        BanActionView::Unban { .. } => Some(BanEvent::Unbanned(unban_ok)),
    }
}

/// The actions that the ban command takes from `e` on, for up to `fuel`
/// more answers.
pub open spec fn ban_run(
    req: BanRequest,
    e: BanEvent,
    member: Option<MemberRoles>,
    banned: bool,
    ban_ok: bool,
    unban_ok: bool,
    fuel: nat,
) -> Seq<BanActionView>
    decreases fuel,
{
    let a = ban_next(req, e);
    match ban_answer(a, member, banned, ban_ok, unban_ok) {
        Some(e2) => if fuel > 0 {
            seq![a] + ban_run(req, e2, member, banned, ban_ok, unban_ok, (fuel - 1) as nat)
        } else {
            seq![a]
        },
        None => seq![a],
    }
}

spec fn ban_run_count(
    req: BanRequest,
    e: BanEvent,
    member: Option<MemberRoles>,
    banned: bool,
    ban_ok: bool,
    unban_ok: bool,
    fuel: nat,
    p: spec_fn(BanActionView) -> bool,
) -> nat
    decreases fuel,
{
    let a = ban_next(req, e);
    (if p(a) { 1nat } else { 0nat }) + match ban_answer(a, member, banned, ban_ok, unban_ok) {
        Some(e2) => if fuel > 0 {
            ban_run_count(req, e2, member, banned, ban_ok, unban_ok, (fuel - 1) as nat, p)
        } else {
            0nat
        },
        None => 0nat,
    }
}

proof fn lemma_ban_run_count(
    req: BanRequest,
    e: BanEvent,
    member: Option<MemberRoles>,
    banned: bool,
    ban_ok: bool,
    unban_ok: bool,
    fuel: nat,
    p: spec_fn(BanActionView) -> bool,
)
    ensures
        count_where(ban_run(req, e, member, banned, ban_ok, unban_ok, fuel), p) == ban_run_count(
            req,
            e,
            member,
            banned,
            ban_ok,
            unban_ok,
            fuel,
            p,
        ),
    decreases fuel,
{
    let a = ban_next(req, e);
    match ban_answer(a, member, banned, ban_ok, unban_ok) {
        Some(e2) => if fuel > 0 {
            lemma_ban_run_count(req, e2, member, banned, ban_ok, unban_ok, (fuel - 1) as nat, p);
            lemma_count_cons(a, ban_run(req, e2, member, banned, ban_ok, unban_ok, (fuel - 1) as nat), p);
        } else {
            lemma_count_cons(a, Seq::<BanActionView>::empty(), p);
            assert(seq![a] + Seq::<BanActionView>::empty() =~= seq![a]);
        },
        None => {
            lemma_count_cons(a, Seq::<BanActionView>::empty(), p);
            assert(seq![a] + Seq::<BanActionView>::empty() =~= seq![a]);
        },
    }
}

/// A ban goes ahead when the target is neither the invoker nor the bot, at
/// most seven days of messages are to go, and the target is a member who
/// is not the owner and ranks below both the invoker and the bot, or is no
/// member and not banned already.
pub open spec fn ban_allowed(req: BanRequest, member: Option<MemberRoles>, banned: bool) -> bool {
    &&& !req.target_is_author
    &&& !req.target_is_bot
    &&& ban_days(req) <= 7
    &&& match member {
        Some(m) => !m.is_owner && m.target < m.author && m.target < m.bot,
        None => !banned,
    }
}

spec fn ind<A>(p: spec_fn(A) -> bool, a: A) -> nat {
    if p(a) {
        1nat
    } else {
        0nat
    }
}

/// The actions after a ban's answer, counted.
spec fn after_ban_count(req: BanRequest, ban_ok: bool, unban_ok: bool, p: spec_fn(BanActionView) -> bool) -> nat {
    ind(p, ban_next(req, BanEvent::Banned(ban_ok))) + if ban_next(req, BanEvent::Banned(ban_ok)) is Unban {
        ind(p, ban_next(req, BanEvent::Unbanned(unban_ok)))
    } else {
        0nat
    }
}

proof fn lemma_ban_count_after_ban(
    req: BanRequest,
    member: Option<MemberRoles>,
    banned: bool,
    ban_ok: bool,
    unban_ok: bool,
    fuel: nat,
    p: spec_fn(BanActionView) -> bool,
)
    requires
        fuel >= 1,
    ensures
        ban_run_count(req, BanEvent::Banned(ban_ok), member, banned, ban_ok, unban_ok, fuel, p) == after_ban_count(
            req,
            ban_ok,
            unban_ok,
            p,
        ),
{
    let e2 = BanEvent::Unbanned(unban_ok);
    assert(ban_run_count(req, e2, member, banned, ban_ok, unban_ok, (fuel - 1) as nat, p) == ind(
        p,
        ban_next(req, e2),
    ));
}

spec fn after_member_count(
    req: BanRequest,
    member: Option<MemberRoles>,
    banned: bool,
    ban_ok: bool,
    unban_ok: bool,
    p: spec_fn(BanActionView) -> bool,
) -> nat {
    let a1 = ban_next(req, BanEvent::Member(member));
    ind(p, a1) + if a1 is Ban {
        after_ban_count(req, ban_ok, unban_ok, p)
    } else if a1 is LookUpBan {
        let a2 = ban_next(req, BanEvent::BanRecord(banned));
        ind(p, a2) + if a2 is Ban {
            after_ban_count(req, ban_ok, unban_ok, p)
        } else {
            0nat
        }
    } else {
        0nat
    }
}

proof fn lemma_ban_count_after_member(
    req: BanRequest,
    member: Option<MemberRoles>,
    banned: bool,
    ban_ok: bool,
    unban_ok: bool,
    p: spec_fn(BanActionView) -> bool,
)
    ensures
        ban_run_count(req, BanEvent::Member(member), member, banned, ban_ok, unban_ok, 4, p) == after_member_count(
            req,
            member,
            banned,
            ban_ok,
            unban_ok,
            p,
        ),
{
    let a1 = ban_next(req, BanEvent::Member(member));
    if a1 is Ban {
        lemma_ban_count_after_ban(req, member, banned, ban_ok, unban_ok, 3, p);
    } else if a1 is LookUpBan {
        let a2 = ban_next(req, BanEvent::BanRecord(banned));
        if a2 is Ban {
            lemma_ban_count_after_ban(req, member, banned, ban_ok, unban_ok, 2, p);
        }
        assert(ban_run_count(req, BanEvent::BanRecord(banned), member, banned, ban_ok, unban_ok, 3, p) == ind(p, a2)
            + if a2 is Ban {
            after_ban_count(req, ban_ok, unban_ok, p)
        } else {
            0nat
        });
    }
}

spec fn ban_count(
    req: BanRequest,
    member: Option<MemberRoles>,
    banned: bool,
    ban_ok: bool,
    unban_ok: bool,
    p: spec_fn(BanActionView) -> bool,
) -> nat {
    let a0 = ban_next(req, BanEvent::Start);
    ind(p, a0) + if a0 is LookUpMember {
        after_member_count(req, member, banned, ban_ok, unban_ok, p)
    } else {
        0nat
    }
}

proof fn lemma_ban_count(
    req: BanRequest,
    member: Option<MemberRoles>,
    banned: bool,
    ban_ok: bool,
    unban_ok: bool,
    p: spec_fn(BanActionView) -> bool,
)
    ensures
        count_where(ban_run(req, BanEvent::Start, member, banned, ban_ok, unban_ok, 5), p) == ban_count(
            req,
            member,
            banned,
            ban_ok,
            unban_ok,
            p,
        ),
{
    lemma_ban_run_count(req, BanEvent::Start, member, banned, ban_ok, unban_ok, 5, p);
    let a0 = ban_next(req, BanEvent::Start);
    if a0 is LookUpMember {
        lemma_ban_count_after_member(req, member, banned, ban_ok, unban_ok, p);
    }
}

/// Whatever the server answers, the ban command answers its invoker once;
/// it bans exactly when `ban_allowed` holds, once, with the asked days and
/// reason; and it lifts the ban exactly when that ban was a softban and
/// went through, once, with the reason "Softban".
#[verifier::rlimit(50)]
pub proof fn lemma_ban_rule(req: BanRequest, member: Option<MemberRoles>, banned: bool, ban_ok: bool, unban_ok: bool)
    ensures
        count_where(ban_run(req, BanEvent::Start, member, banned, ban_ok, unban_ok, 5), |a: BanActionView| a is Reply)
            == 1,
        count_where(ban_run(req, BanEvent::Start, member, banned, ban_ok, unban_ok, 5), |a: BanActionView| a is Ban)
            == if ban_allowed(req, member, banned) { 1nat } else { 0nat },
        count_where(
            ban_run(req, BanEvent::Start, member, banned, ban_ok, unban_ok, 5),
            |a: BanActionView| a is Ban && a != (BanActionView::Ban { days: ban_days(req), reason: ban_reason(req) }),
        ) == 0,
        count_where(ban_run(req, BanEvent::Start, member, banned, ban_ok, unban_ok, 5), |a: BanActionView| a is Unban)
            == if ban_allowed(req, member, banned) && ban_ok && ban_is_soft(req) { 1nat } else { 0nat },
        count_where(
            ban_run(req, BanEvent::Start, member, banned, ban_ok, unban_ok, 5),
            |a: BanActionView| a is Unban && a != (BanActionView::Unban { reason: "Softban"@ }),
        ) == 0,
{
    lemma_ban_count(req, member, banned, ban_ok, unban_ok, |a: BanActionView| a is Reply);
    lemma_ban_count(req, member, banned, ban_ok, unban_ok, |a: BanActionView| a is Ban);
    lemma_ban_count(
        req,
        member,
        banned,
        ban_ok,
        unban_ok,
        |a: BanActionView| a is Ban && a != (BanActionView::Ban { days: ban_days(req), reason: ban_reason(req) }),
    );
    lemma_ban_count(req, member, banned, ban_ok, unban_ok, |a: BanActionView| a is Unban);
    lemma_ban_count(
        req,
        member,
        banned,
        ban_ok,
        unban_ok,
        |a: BanActionView| a is Unban && a != (BanActionView::Unban { reason: "Softban"@ }),
    );
}

// ------------------------------------------------------ the kick command

/// A kick as it was asked for: whom (as seen from the invoker and the bot),
/// the reason, and the target's name and id for the answer.
pub struct KickRequest {
    pub target_is_author: bool,
    pub target_is_bot: bool,
    pub reason: Option<String>,
    pub name: String,
    pub id: u64,
}

/// What came back from the kick command's last action (`Start` before the
/// first one).
pub enum KickEvent {
    Start,
    /// The target as a member of the server, or `None` when it is not one.
    Member(Option<MemberRoles>),
    /// The kick went through (`None`) or failed with this error.
    Kicked(Option<String>),
    /// The bot left the server (`None`) or failed to with this error.
    Left(Option<String>),
}

/// The next thing the kick command does.
pub enum KickAction {
    /// Answer, and stop.
    Reply(String),
    /// Answer, then leave the server.
    Leave(String),
    /// Look the target up as a member of the server.
    LookUpMember,
    /// Kick the target.
    Kick { reason: String },
    /// Nothing more.
    Stop,
}

pub enum KickActionView {
    Reply(Seq<char>),
    Leave(Seq<char>),
    LookUpMember,
    Kick { reason: Seq<char> },
    Stop,
}

impl KickAction {
    pub open spec fn view(&self) -> KickActionView {
        match self {
            KickAction::Reply(m) => KickActionView::Reply(m@),
            KickAction::Leave(m) => KickActionView::Leave(m@),
            KickAction::LookUpMember => KickActionView::LookUpMember,
            KickAction::Kick { reason } => KickActionView::Kick { reason: reason@ },
            KickAction::Stop => KickActionView::Stop,
        }
    }
}

pub open spec fn kick_reason(req: KickRequest) -> Seq<char> {
    match req.reason {
        Some(t) => t@,
        None => "No reason provided"@,
    }
}

/// The kick command's rule: what it does after each answer.
pub open spec fn kick_next(req: KickRequest, e: KickEvent) -> KickActionView {
    match e {
        KickEvent::Start => if req.target_is_author {
            KickActionView::Reply("You cannot kick yourself"@)
        } else if req.target_is_bot {
            KickActionView::Leave("Fine, I'll leave..."@)
        } else {
            KickActionView::LookUpMember
        },
        KickEvent::Member(m) => {
            let refusal = match m {
                Some(r) => kick_refusal_spec(true, r.is_owner, r.target as int, r.author as int, r.bot as int),
                None => kick_refusal_spec(false, false, 0, 0, 0),
            };
            match refusal {
                Some(msg) => KickActionView::Reply(msg),
                None => KickActionView::Kick { reason: kick_reason(req) },
            }
        },
        KickEvent::Kicked(None) => KickActionView::Reply(
            "**Kicked** "@ + req.name@ + " ("@ + decimal(req.id as nat) + ")\n**Reason:** "@ + kick_reason(req),
        ),
        KickEvent::Kicked(Some(err)) => KickActionView::Reply("Failed to kick "@ + req.name@ + ": "@ + err@),
        KickEvent::Left(None) => KickActionView::Stop,
        KickEvent::Left(Some(err)) => KickActionView::Reply("Failed to leave server: "@ + err@),
    }
}

/// What the kick command does after `e` (see `kick_next`).
pub fn kick_step(req: &KickRequest, e: &KickEvent) -> (a: KickAction)
    ensures
        a.view() == kick_next(*req, *e),
{
    match e {
        KickEvent::Start => match kick_target(req.target_is_author, req.target_is_bot) {
            KickTarget::Refuse(m) => KickAction::Reply(m.to_string()),
            KickTarget::Leave(m) => KickAction::Leave(m.to_string()),
            KickTarget::Check => KickAction::LookUpMember,
        },
        KickEvent::Member(m) => {
            let refusal = match m {
                Some(r) => kick_refusal(true, r.is_owner, r.target, r.author, r.bot),
                None => kick_refusal(false, false, 0, 0, 0),
            };
            match refusal {
                Some(msg) => KickAction::Reply(msg.to_string()),
                None => KickAction::Kick { reason: mod_reason(opt_as_str(&req.reason)) },
            }
        },
        KickEvent::Kicked(None) => {
            let reason = mod_reason(opt_as_str(&req.reason));
            KickAction::Reply(kick_done_message(req.name.as_str(), req.id, reason.as_str()))
        },
        KickEvent::Kicked(Some(err)) => {
            let mut out = to_chars("Failed to kick ");
            append_str(&mut out, req.name.as_str());
            append_str(&mut out, ": ");
            append_str(&mut out, err.as_str());
            KickAction::Reply(from_chars(out.as_slice()))
        },
        KickEvent::Left(None) => KickAction::Stop,
        KickEvent::Left(Some(err)) => {
            let mut out = to_chars("Failed to leave server: ");
            append_str(&mut out, err.as_str());
            KickAction::Reply(from_chars(out.as_slice()))
        },
    }
}

/// What the server answers to each action of the kick command: the
/// target's membership, and how the kick and the leaving went. A reply or
/// a stop ends the command.
pub open spec fn kick_answer(
    a: KickActionView,
    member: Option<MemberRoles>,
    kick_err: Option<String>,
    leave_err: Option<String>,
) -> Option<KickEvent> {
    match a {
        KickActionView::Reply(_) => None,
        KickActionView::Stop => None,
        KickActionView::Leave(_) => Some(KickEvent::Left(leave_err)),
        KickActionView::LookUpMember => Some(KickEvent::Member(member)),
        KickActionView::Kick { .. } => Some(KickEvent::Kicked(kick_err)),
    }
}

/// The actions that the kick command takes from `e` on, for up to `fuel`
/// more answers.
pub open spec fn kick_run(
    req: KickRequest,
    e: KickEvent,
    member: Option<MemberRoles>,
    kick_err: Option<String>,
    leave_err: Option<String>,
    fuel: nat,
) -> Seq<KickActionView>
    decreases fuel,
{
    let a = kick_next(req, e);
    match kick_answer(a, member, kick_err, leave_err) {
        Some(e2) => if fuel > 0 {
            seq![a] + kick_run(req, e2, member, kick_err, leave_err, (fuel - 1) as nat)
        } else {
            seq![a]
        },
        None => seq![a],
    }
}

proof fn lemma_kick_run_count(
    req: KickRequest,
    e: KickEvent,
    member: Option<MemberRoles>,
    kick_err: Option<String>,
    leave_err: Option<String>,
    fuel: nat,
    p: spec_fn(KickActionView) -> bool,
)
    ensures
        count_where(kick_run(req, e, member, kick_err, leave_err, fuel), p) == ind(p, kick_next(req, e)) + match kick_answer(
            kick_next(req, e),
            member,
            kick_err,
            leave_err,
        ) {
            Some(e2) => if fuel > 0 {
                count_where(kick_run(req, e2, member, kick_err, leave_err, (fuel - 1) as nat), p)
            } else {
                0nat
            },
            None => 0nat,
        },
{
    let a = kick_next(req, e);
    match kick_answer(a, member, kick_err, leave_err) {
        Some(e2) => if fuel > 0 {
            lemma_count_cons(a, kick_run(req, e2, member, kick_err, leave_err, (fuel - 1) as nat), p);
        } else {
            lemma_count_cons(a, Seq::<KickActionView>::empty(), p);
            assert(seq![a] + Seq::<KickActionView>::empty() =~= seq![a]);
        },
        None => {
            lemma_count_cons(a, Seq::<KickActionView>::empty(), p);
            assert(seq![a] + Seq::<KickActionView>::empty() =~= seq![a]);
        },
    }
}

spec fn kick_count(
    req: KickRequest,
    member: Option<MemberRoles>,
    kick_err: Option<String>,
    leave_err: Option<String>,
    p: spec_fn(KickActionView) -> bool,
) -> nat {
    let a0 = kick_next(req, KickEvent::Start);
    ind(p, a0) + if a0 is LookUpMember {
        let a1 = kick_next(req, KickEvent::Member(member));
        ind(p, a1) + if a1 is Kick {
            ind(p, kick_next(req, KickEvent::Kicked(kick_err)))
        } else {
            0nat
        }
    } else if a0 is Leave {
        ind(p, kick_next(req, KickEvent::Left(leave_err)))
    } else {
        0nat
    }
}

proof fn lemma_kick_count(
    req: KickRequest,
    member: Option<MemberRoles>,
    kick_err: Option<String>,
    leave_err: Option<String>,
    p: spec_fn(KickActionView) -> bool,
)
    ensures
        count_where(kick_run(req, KickEvent::Start, member, kick_err, leave_err, 3), p) == kick_count(
            req,
            member,
            kick_err,
            leave_err,
            p,
        ),
{
    lemma_kick_run_count(req, KickEvent::Start, member, kick_err, leave_err, 3, p);
    let a0 = kick_next(req, KickEvent::Start);
    if a0 is LookUpMember {
        let e1 = KickEvent::Member(member);
        lemma_kick_run_count(req, e1, member, kick_err, leave_err, 2, p);
        let a1 = kick_next(req, e1);
        if a1 is Kick {
            lemma_kick_run_count(req, KickEvent::Kicked(kick_err), member, kick_err, leave_err, 1, p);
        }
    } else if a0 is Leave {
        lemma_kick_run_count(req, KickEvent::Left(leave_err), member, kick_err, leave_err, 2, p);
    }
}

/// A kick goes ahead when the target is neither the invoker nor the bot,
/// and is a member of the server who is not its owner and ranks below both
/// the invoker and the bot.
pub open spec fn kick_allowed(req: KickRequest, member: Option<MemberRoles>) -> bool {
    &&& !req.target_is_author
    &&& !req.target_is_bot
    &&& member matches Some(m) && !m.is_owner && m.target < m.author && m.target < m.bot
}

/// Whatever the server answers, the kick command kicks exactly when
/// `kick_allowed` holds, once, with the asked reason; it leaves the server,
/// once, exactly when the bot itself is the target (and the invoker is
/// not), kicking nobody then.
pub proof fn lemma_kick_rule(
    req: KickRequest,
    member: Option<MemberRoles>,
    kick_err: Option<String>,
    leave_err: Option<String>,
)
    ensures
        count_where(kick_run(req, KickEvent::Start, member, kick_err, leave_err, 3), |a: KickActionView| a is Kick)
            == if kick_allowed(req, member) { 1nat } else { 0nat },
        count_where(
            kick_run(req, KickEvent::Start, member, kick_err, leave_err, 3),
            |a: KickActionView| a is Kick && a != (KickActionView::Kick { reason: kick_reason(req) }),
        ) == 0,
        count_where(kick_run(req, KickEvent::Start, member, kick_err, leave_err, 3), |a: KickActionView| a is Leave)
            == if !req.target_is_author && req.target_is_bot { 1nat } else { 0nat },
{
    lemma_kick_count(req, member, kick_err, leave_err, |a: KickActionView| a is Kick);
    lemma_kick_count(
        req,
        member,
        kick_err,
        leave_err,
        |a: KickActionView| a is Kick && a != (KickActionView::Kick { reason: kick_reason(req) }),
    );
    lemma_kick_count(req, member, kick_err, leave_err, |a: KickActionView| a is Leave);
}

} // verus!
