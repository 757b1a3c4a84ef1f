//! Retrospective rooms: who may do what in a room, joining by invite, the member list and
//! the order of a member's rooms.
use vstd::prelude::*;
use crate::error::AppError;
use crate::invite::generated_code;
use crate::model::{MemberRoomRow, RoomRole};
use crate::responses::{MemberRow, member_of, find_member};
use crate::service::RetrospectService;
use crate::text::views;
use crate::time::{valid_time, spec_format_iso, format_iso};
use crate::validate::all_distinct;

verus! {

/// An invite link stays usable for seven days after its code was made.
pub const INVITE_VALID_SECS: i64 = 604800;

/// How many times a fresh invite code is checked against the codes in use.
pub const INVITE_CODE_ATTEMPTS: usize = 5;

/// One entry of a room-order change.
#[derive(Debug, Clone, Copy)]
pub struct RetroRoomOrderItem {
    pub retro_room_id: i64,
    pub order_index: i32,
}

pub open spec fn order_indices(orders: Seq<RetroRoomOrderItem>) -> Seq<i32> {
    orders.map_values(|o: RetroRoomOrderItem| o.order_index)
}

/// The link was made `INVITE_VALID_SECS` or more before `now` (whole days counted toward zero).
pub open spec fn invite_expired(created_at: i64, now: i64) -> bool {
    now - created_at >= INVITE_VALID_SECS
}

impl RetrospectService {
    /// A room title may be used only when no room has it.
    pub fn check_room_title_free(title_taken: bool) -> (r: Result<(), AppError>)
        ensures
            title_taken ==> (r matches Err(AppError::RetroRoomNameDuplicate(m))
                && m@ == "이미 사용 중인 회고방 이름입니다."@),
            !title_taken ==> r is Ok,
    {
        if title_taken {
            return Err(AppError::RetroRoomNameDuplicate("이미 사용 중인 회고방 이름입니다.".to_owned()));
        }
        Ok(())
    }

    /// The first of the drawn codes that is not among `taken`: its position, or `None` when
    /// every drawn code is taken.
    pub fn first_free_code(drawn: &[String], taken: &[String]) -> (r: Option<usize>)
        ensures
            r matches Some(i) ==> i < drawn@.len() && !views(taken@).contains(drawn@[i as int]@)
                && forall|j: int| 0 <= j < i ==> views(taken@).contains(#[trigger] drawn@[j]@),
            r is None ==> forall|j: int| 0 <= j < drawn@.len() ==> views(taken@).contains(#[trigger] drawn@[j]@),
    {
        let mut i: usize = 0;
        while i < drawn.len()
            invariant
                i <= drawn@.len(),
                forall|j: int| 0 <= j < i ==> views(taken@).contains(#[trigger] drawn@[j]@),
            decreases drawn@.len() - i,
        {
            if !contains_string(taken, &drawn[i]) {
                return Some(i);
            }
            i = i + 1;
        }
        None
    }

    /// A new invite code not among `taken`: the first of `INVITE_CODE_ATTEMPTS` fresh codes
    /// that is free. When all of them are taken there is no code. With no code taken the
    /// first fresh code is always free.
    pub fn choose_invite_code(taken: &[String]) -> (r: Result<String, AppError>)
        ensures
            r matches Ok(c) ==> generated_code(c@) && !views(taken@).contains(c@),
            r matches Err(e) ==> (e matches AppError::InternalError(m)
                && m@ == "초대 코드 생성에 실패했습니다. 잠시 후 다시 시도해주세요."@),
            taken@.len() == 0 ==> r is Ok,
            r is Err ==> exists|k: int| 0 <= k < taken@.len() && generated_code(#[trigger] taken@[k]@),
    {
        let mut drawn: Vec<String> = Vec::new();
        while drawn.len() < INVITE_CODE_ATTEMPTS
            invariant
                drawn@.len() <= INVITE_CODE_ATTEMPTS,
                forall|j: int| 0 <= j < drawn@.len() ==> generated_code(#[trigger] drawn@[j]@),
            decreases INVITE_CODE_ATTEMPTS - drawn@.len(),
        {
            drawn.push(Self::generate_invite_code());
        }
        match Self::first_free_code(&drawn, taken) {
            Some(i) => {
                let c = drawn.remove(i);
                Ok(c)
            },
            None => {
                proof {
                    assert(views(taken@).contains(drawn@[0]@));
                    let k = choose|k: int| 0 <= k < views(taken@).len() && views(taken@)[k] == drawn@[0]@;
                    assert(taken@[k]@ == drawn@[0]@);
                }
                Err(AppError::InternalError("초대 코드 생성에 실패했습니다. 잠시 후 다시 시도해주세요.".to_owned()))
            },
        }
    }

    /// Joining a room by its invite code: the room must exist, the link must not have
    /// expired, and the caller must not be a member yet. `room_code_created_at` is when the
    /// room's code was made, `None` when no room has the code.
    pub fn check_join(room_code_created_at: Option<i64>, now: i64, already_member: bool) -> (r: Result<
        (),
        AppError,
    >)
        ensures
            room_code_created_at is None ==> (r matches Err(AppError::RetroRoomNotFound(m))
                && m@ == "존재하지 않는 회고방입니다."@),
            room_code_created_at matches Some(c) && invite_expired(c, now) ==> (r matches Err(
                AppError::ExpiredInviteLink(m))
                && m@ == "만료된 초대 링크입니다. 룸 관리자에게 새로운 초대 링크를 요청해주세요."@),
            room_code_created_at matches Some(c) && !invite_expired(c, now) && already_member ==> (
            r matches Err(AppError::AlreadyMember(m)) && m@ == "이미 해당 회고방의 멤버입니다."@),
            room_code_created_at matches Some(c) && !invite_expired(c, now) && !already_member ==> r is Ok,
    {
        match room_code_created_at {
            None => Err(AppError::RetroRoomNotFound("존재하지 않는 회고방입니다.".to_owned())),
            Some(c) => {
                let age: i128 = (now as i128) - (c as i128);
                if age >= INVITE_VALID_SECS as i128 {
                    return Err(AppError::ExpiredInviteLink(
                        "만료된 초대 링크입니다. 룸 관리자에게 새로운 초대 링크를 요청해주세요.".to_owned(),
                    ));
                }
                if already_member {
                    return Err(AppError::AlreadyMember("이미 해당 회고방의 멤버입니다.".to_owned()));
                }
                Ok(())
            },
        }
    }

    /// Reading a room's member list needs the room and the caller's membership.
    pub fn check_member_list_access(room_exists: bool, is_member: bool) -> (r: Result<(), AppError>)
        ensures
            !room_exists ==> (r matches Err(AppError::RetroRoomNotFound(m)) && m@ == "존재하지 않는 회고방입니다."@),
            room_exists && !is_member ==> (r matches Err(AppError::RetroRoomAccessDenied(m))
                && m@ == "해당 회고방에 접근 권한이 없습니다."@),
            room_exists && is_member ==> r is Ok,
    {
        if !room_exists {
            return Err(AppError::RetroRoomNotFound("존재하지 않는 회고방입니다.".to_owned()));
        }
        if !is_member {
            return Err(AppError::RetroRoomAccessDenied("해당 회고방에 접근 권한이 없습니다.".to_owned()));
        }
        Ok(())
    }

    /// Listing a room's retrospectives needs the room and the caller's membership.
    pub fn check_retrospect_list_access(room_exists: bool, is_member: bool) -> (r: Result<(), AppError>)
        ensures
            !room_exists ==> (r matches Err(AppError::RetroRoomNotFound(m)) && m@ == "존재하지 않는 회고방입니다."@),
            room_exists && !is_member ==> (r matches Err(AppError::NoPermission(m))
                && m@ == "해당 회고방에 접근 권한이 없습니다."@),
            room_exists && is_member ==> r is Ok,
    {
        if !room_exists {
            return Err(AppError::RetroRoomNotFound("존재하지 않는 회고방입니다.".to_owned()));
        }
        if !is_member {
            return Err(AppError::NoPermission("해당 회고방에 접근 권한이 없습니다.".to_owned()));
        }
        Ok(())
    }

    /// Creating a retrospective in a room needs the room and the caller's membership.
    pub fn check_retrospect_create_access(room_exists: bool, is_member: bool) -> (r: Result<(), AppError>)
        ensures
            !room_exists ==> (r matches Err(AppError::NotFound(m)) && m@ == "존재하지 않는 회고방입니다."@),
            room_exists && !is_member ==> (r matches Err(AppError::RetroRoomAccessDenied(m))
                && m@ == "해당 회고방에 접근 권한이 없습니다."@),
            room_exists && is_member ==> r is Ok,
    {
        if !room_exists {
            return Err(AppError::NotFound("존재하지 않는 회고방입니다.".to_owned()));
        }
        if !is_member {
            return Err(AppError::RetroRoomAccessDenied("해당 회고방에 접근 권한이 없습니다.".to_owned()));
        }
        Ok(())
    }

    /// Renaming a room: it must exist, the caller must be its owner, and no other room may
    /// have the new name. `role` is the caller's role in the room, `None` for a non-member.
    pub fn check_rename(room_exists: bool, role: Option<RoomRole>, name_taken_elsewhere: bool) -> (r:
        Result<(), AppError>)
        ensures
            !room_exists ==> (r matches Err(AppError::RetroRoomNotFound(m)) && m@ == "존재하지 않는 회고방입니다."@),
            room_exists && role != Some(RoomRole::Owner) ==> (r matches Err(AppError::NoRoomPermission(m))
                && m@ == "회고방 이름을 변경할 권한이 없습니다."@),
            room_exists && role == Some(RoomRole::Owner) && name_taken_elsewhere ==> (r matches Err(
                AppError::RetroRoomNameDuplicate(m)) && m@ == "이미 사용 중인 회고방 이름입니다."@),
            room_exists && role == Some(RoomRole::Owner) && !name_taken_elsewhere ==> r is Ok,
    {
        if !room_exists {
            return Err(AppError::RetroRoomNotFound("존재하지 않는 회고방입니다.".to_owned()));
        }
        match role {
            Some(RoomRole::Owner) => {},
            _ => {
                return Err(AppError::NoRoomPermission("회고방 이름을 변경할 권한이 없습니다.".to_owned()));
            },
        }
        if name_taken_elsewhere {
            return Err(AppError::RetroRoomNameDuplicate("이미 사용 중인 회고방 이름입니다.".to_owned()));
        }
        Ok(())
    }

    /// Deleting a room: it must exist and the caller must be its owner.
    pub fn check_room_delete(room_exists: bool, role: Option<RoomRole>) -> (r: Result<(), AppError>)
        ensures
            !room_exists ==> (r matches Err(AppError::RetroRoomNotFound(m)) && m@ == "존재하지 않는 회고방입니다."@),
            room_exists && role != Some(RoomRole::Owner) ==> (r matches Err(AppError::NoPermission(m))
                && m@ == "회고방을 삭제할 권한이 없습니다."@),
            room_exists && role == Some(RoomRole::Owner) ==> r is Ok,
    {
        if !room_exists {
            return Err(AppError::RetroRoomNotFound("존재하지 않는 회고방입니다.".to_owned()));
        }
        match role {
            Some(RoomRole::Owner) => Ok(()),
            _ => Err(AppError::NoPermission("회고방을 삭제할 권한이 없습니다.".to_owned())),
        }
    }

    /// Checks a room-order change: no order index twice, every room exists (is among
    /// `existing_room_ids`), and the caller is a member of every room (it is among
    /// `member_room_ids`).
    pub fn check_room_order(
        orders: &[RetroRoomOrderItem],
        existing_room_ids: &[i64],
        member_room_ids: &[i64],
    ) -> (r: Result<(), AppError>)
        ensures
            !all_distinct(order_indices(orders@)) ==> (r matches Err(
                AppError::InvalidOrderData(m)) && m@ == "order_index 값이 중복되었습니다."@),
            all_distinct(order_indices(orders@)) ==> {
                &&& (exists|i: int| 0 <= i < orders@.len() && !existing_room_ids@.contains(
                    #[trigger] orders@[i].retro_room_id)) ==> (r matches Err(AppError::RetroRoomNotFound(m))
                    && m@ == "존재하지 않는 회고방 정보가 포함되어 있습니다."@)
                &&& (forall|i: int| 0 <= i < orders@.len() ==> existing_room_ids@.contains(
                    #[trigger] orders@[i].retro_room_id)) ==> {
                    &&& (exists|i: int| 0 <= i < orders@.len() && !member_room_ids@.contains(
                        #[trigger] orders@[i].retro_room_id)) ==> (r matches Err(AppError::NoPermission(m))
                        && m@ == "순서를 변경할 권한이 없습니다."@)
                    &&& (forall|i: int| 0 <= i < orders@.len() ==> member_room_ids@.contains(
                        #[trigger] orders@[i].retro_room_id)) ==> r is Ok
                }
            },
    {
        let n = orders.len();
        let ghost idx = order_indices(orders@);
        let mut i: usize = 0;
        while i < n
            invariant
                n == orders@.len(),
                idx == order_indices(orders@),
                i <= n,
                forall|a: int, b: int| 0 <= a < b < n && a < i ==> idx[a] != idx[b],
            decreases n - i,
        {
            let mut j: usize = i + 1;
            while j < n
                invariant
                    n == orders@.len(),
                    idx == order_indices(orders@),
                    i < n,
                    i + 1 <= j <= n,
                    forall|b: int| i < b < j ==> idx[i as int] != idx[b],
                decreases n - j,
            {
                if orders[i].order_index == orders[j].order_index {
                    assert(idx[i as int] == idx[j as int]);
                    return Err(AppError::InvalidOrderData("order_index 값이 중복되었습니다.".to_owned()));
                }
                j = j + 1;
            }
            i = i + 1;
        }
        assert(all_distinct(idx));
        let mut k: usize = 0;
        while k < n
            invariant
                n == orders@.len(),
                idx == order_indices(orders@),
                all_distinct(idx),
                k <= n,
                forall|a: int| 0 <= a < k ==> existing_room_ids@.contains(#[trigger] orders@[a].retro_room_id),
            decreases n - k,
        {
            if !contains_id(existing_room_ids, orders[k].retro_room_id) {
                return Err(AppError::RetroRoomNotFound("존재하지 않는 회고방 정보가 포함되어 있습니다.".to_owned()));
            }
            k = k + 1;
        }
        let mut t: usize = 0;
        while t < n
            invariant
                n == orders@.len(),
                idx == order_indices(orders@),
                all_distinct(idx),
                forall|a: int| 0 <= a < n ==> existing_room_ids@.contains(#[trigger] orders@[a].retro_room_id),
                t <= n,
                forall|a: int| 0 <= a < t ==> member_room_ids@.contains(#[trigger] orders@[a].retro_room_id),
            decreases n - t,
        {
            if !contains_id(member_room_ids, orders[t].retro_room_id) {
                return Err(AppError::NoPermission("순서를 변경할 권한이 없습니다.".to_owned()));
            }
            t = t + 1;
        }
        Ok(())
    }
}

/// Whether `v` holds `x`.
pub fn contains_id(v: &[i64], x: i64) -> (r: bool)
    ensures
        r == v@.contains(x),
{
    let mut i: usize = 0;
    while i < v.len()
        invariant
            i <= v@.len(),
            forall|j: int| 0 <= j < i ==> v@[j] != x,
        decreases v@.len() - i,
    {
        if v[i] == x {
            return true;
        }
        i = i + 1;
    }
    false
}

/// Whether `v` holds a string equal to `s`.
pub fn contains_string(v: &[String], s: &String) -> (r: bool)
    ensures
        r == views(v@).contains(s@),
{
    let mut i: usize = 0;
    while i < v.len()
        invariant
            i <= v@.len(),
            forall|j: int| 0 <= j < i ==> v@[j]@ != s@,
        decreases v@.len() - i,
    {
        if v[i] == *s {
            assert(views(v@)[i as int] == s@);
            return true;
        }
        i = i + 1;
    }
    proof {
        if views(v@).contains(s@) {
            let j = choose|j: int| 0 <= j < views(v@).len() && views(v@)[j] == s@;
            assert(v@[j]@ == s@);
        }
    }
    false
}

/// One entry of a room's member list.
pub struct RoomMemberItem {
    pub member_id: i64,
    pub nickname: String,
    pub role: String,
    pub joined_at: String,
}

/// What a member-list entry shows: member id, nickname, role label and join time.
pub type RoomMemberView = (i64, Seq<char>, Seq<char>, Seq<char>);

pub open spec fn member_item_view(it: RoomMemberItem) -> RoomMemberView {
    (it.member_id, it.nickname@, it.role@, it.joined_at@)
}

pub open spec fn member_items_view(v: Seq<RoomMemberItem>) -> Seq<RoomMemberView> {
    v.map_values(|it: RoomMemberItem| member_item_view(it))
}

pub open spec fn role_rank(r: RoomRole) -> int {
    match r {
        RoomRole::Owner => 0,
        RoomRole::Member => 1,
    }
}

/// `a` is listed strictly before `b`: owners first, then earlier joins.
pub open spec fn joins_before(a: MemberRoomRow, b: MemberRoomRow) -> bool {
    role_rank(a.role) < role_rank(b.role) || (a.role == b.role && a.created_at < b.created_at)
}

/// Inserts `x` after every entry that it does not sort strictly before.
pub open spec fn insert_membership(s: Seq<MemberRoomRow>, x: MemberRoomRow) -> Seq<MemberRoomRow>
    decreases s.len(),
{
    if s.len() > 0 && joins_before(x, s.last()) {
        insert_membership(s.drop_last(), x).push(s.last())
    } else {
        s.push(x)
    }
}

/// Stable sort of memberships by `joins_before`.
pub open spec fn sort_memberships(s: Seq<MemberRoomRow>) -> Seq<MemberRoomRow>
    decreases s.len(),
{
    if s.len() == 0 {
        s
    } else {
        insert_membership(sort_memberships(s.drop_last()), s.last())
    }
}

/// A nickname, or `Unknown` when it is missing or empty.
pub open spec fn nickname_or_unknown(m: MemberRow) -> Seq<char> {
    match m.nickname {
        Some(n) => if n@.len() > 0 {
            n@
        } else {
            "Unknown"@
        },
        None => "Unknown"@,
    }
}

pub open spec fn role_label(r: RoomRole) -> Seq<char> {
    match r {
        RoomRole::Owner => "OWNER"@,
        RoomRole::Member => "MEMBER"@,
    }
}

/// The list entries of memberships in the given order, skipping those whose member is gone.
pub open spec fn member_list(rows: Seq<MemberRoomRow>, members: Seq<MemberRow>) -> Seq<RoomMemberView>
    decreases rows.len(),
{
    if rows.len() == 0 {
        Seq::empty()
    } else {
        let rest = member_list(rows.drop_last(), members);
        let mr = rows.last();
        match mr.member_id {
            Some(id) => match member_of(members, id) {
                Some(m) => rest.push(
                    (m.member_id, nickname_or_unknown(m), role_label(mr.role), spec_format_iso(mr.created_at as int)),
                ),
                None => rest,
            },
            None => rest,
        }
    }
}

fn insert_row(v: &mut Vec<MemberRoomRow>, x: MemberRoomRow)
    ensures
        final(v)@ == insert_membership(old(v)@, x),
    decreases old(v)@.len(),
{
    if v.len() > 0 {
        let last = v[v.len() - 1];
        let before = match (x.role, last.role) {
            (RoomRole::Owner, RoomRole::Member) => true,
            (RoomRole::Member, RoomRole::Owner) => false,
            _ => x.created_at < last.created_at,
        };
        if before {
            let last = v.pop().unwrap();
            insert_row(v, x);
            v.push(last);
            return;
        }
    }
    v.push(x);
}

/// Memberships in list order: owners first, then by join time, ties kept in their order.
pub fn sort_room_members(rows: &[MemberRoomRow]) -> (r: Vec<MemberRoomRow>)
    ensures
        r@ == sort_memberships(rows@),
{
    let mut out: Vec<MemberRoomRow> = Vec::new();
    let mut i: usize = 0;
    while i < rows.len()
        invariant
            i <= rows@.len(),
            out@ == sort_memberships(rows@.take(i as int)),
        decreases rows@.len() - i,
    {
        assert(rows@.take(i + 1).drop_last() =~= rows@.take(i as int));
        insert_row(&mut out, rows[i]);
        i = i + 1;
    }
    assert(rows@.take(rows@.len() as int) =~= rows@);
    out
}

fn nickname_or_unknown_exec(m: &MemberRow) -> (s: String)
    ensures
        s@ == nickname_or_unknown(*m),
{
    match &m.nickname {
        Some(n) => if n.as_str().is_empty() {
            "Unknown".to_owned()
        } else {
            n.clone()
        },
        None => "Unknown".to_owned(),
    }
}

impl RetrospectService {
    /// A room's member list from its memberships and the members' rows: owners first, then
    /// by join time; each with its nickname (`Unknown` when missing or empty), `OWNER` or
    /// `MEMBER`, and the join time as `%Y-%m-%dT%H:%M:%S`. Memberships whose member is gone
    /// are left out.
    pub fn list_room_members(rows: &[MemberRoomRow], members: &Vec<MemberRow>) -> (r: Vec<RoomMemberItem>)
        requires
            forall|i: int| 0 <= i < rows@.len() ==> valid_time(#[trigger] rows@[i].created_at as int),
        ensures
            member_items_view(r@) == member_list(sort_memberships(rows@), members@),
    {
        let sorted = sort_room_members(rows);
        proof {
            lemma_sort_keeps(rows@);
            broadcast use vstd::seq_lib::group_to_multiset_ensures;
            assert forall|j: int| 0 <= j < sorted@.len() implies valid_time(#[trigger] sorted@[j].created_at as int) by {
                assert(sorted@.to_multiset().contains(sorted@[j]));
                assert(rows@.contains(sorted@[j]));
            }
        }
        let mut out: Vec<RoomMemberItem> = Vec::new();
        let mut i: usize = 0;
        while i < sorted.len()
            invariant
                i <= sorted@.len(),
                sorted@ == sort_memberships(rows@),
                forall|j: int| 0 <= j < sorted@.len() ==> valid_time(#[trigger] sorted@[j].created_at as int),
                member_items_view(out@) == member_list(sorted@.take(i as int), members@),
            decreases sorted@.len() - i,
        {
            let mr = sorted[i];
            assert(sorted@.take(i + 1).drop_last() =~= sorted@.take(i as int));
            assert(sorted@.take(i + 1).last() == mr);
            match mr.member_id {
                Some(id) => match find_member(members, id) {
                    Some(k) => {
                        let m = &members[k];
                        let role = match mr.role {
                            RoomRole::Owner => "OWNER".to_owned(),
                            RoomRole::Member => "MEMBER".to_owned(),
                        };
                        let item = RoomMemberItem {
                            member_id: m.member_id,
                            nickname: nickname_or_unknown_exec(m),
                            role,
                            joined_at: format_iso(mr.created_at),
                        };
                        out.push(item);
                        assert(member_items_view(out@) =~= member_list(sorted@.take(i + 1), members@));
                    },
                    None => {},
                },
                None => {},
            }
            i = i + 1;
        }
        assert(sorted@.take(sorted@.len() as int) =~= sorted@);
        out
    }
}

/// Inserting adds exactly `x`.
proof fn lemma_insert_keeps(s: Seq<MemberRoomRow>, x: MemberRoomRow)
    ensures
        insert_membership(s, x).to_multiset() == s.to_multiset().insert(x),
    decreases s.len(),
{
    broadcast use vstd::seq_lib::group_to_multiset_ensures;
    if s.len() > 0 && joins_before(x, s.last()) {
        lemma_insert_keeps(s.drop_last(), x);
        assert(s =~= s.drop_last().push(s.last()));
    }
}

/// Sorting only reorders the memberships.
proof fn lemma_sort_keeps(s: Seq<MemberRoomRow>)
    ensures
        sort_memberships(s).to_multiset() == s.to_multiset(),
    decreases s.len(),
{
    broadcast use vstd::seq_lib::group_to_multiset_ensures;
    if s.len() > 0 {
        lemma_sort_keeps(s.drop_last());
        lemma_insert_keeps(sort_memberships(s.drop_last()), s.last());
        assert(s =~= s.drop_last().push(s.last()));
    }
}

/// No membership is listed before one it does not sort before.
pub open spec fn memberships_ordered(s: Seq<MemberRoomRow>) -> bool {
    forall|i: int, j: int| 0 <= i < j < s.len() ==> !joins_before(#[trigger] s[j], #[trigger] s[i])
}

proof fn lemma_insert_ordered(s: Seq<MemberRoomRow>, x: MemberRoomRow)
    requires
        memberships_ordered(s),
    ensures
        memberships_ordered(insert_membership(s, x)),
        insert_membership(s, x).len() == s.len() + 1,
        forall|k: int| 0 <= k < insert_membership(s, x).len() ==> (#[trigger] insert_membership(s, x)[k] == x
            || s.contains(insert_membership(s, x)[k])),
    decreases s.len(),
{
    if s.len() > 0 && joins_before(x, s.last()) {
        let d = s.drop_last();
        assert(memberships_ordered(d)) by {
            assert forall|i: int, j: int| 0 <= i < j < d.len() implies !joins_before(#[trigger] d[j], #[trigger] d[i]) by {
                assert(d[i] == s[i] && d[j] == s[j]);
            }
        }
        lemma_insert_ordered(d, x);
        let t = insert_membership(d, x);
        let r = t.push(s.last());
        assert forall|k: int| 0 <= k < t.len() implies !joins_before(s.last(), #[trigger] t[k]) by {
            if t[k] != x {
                assert(d.contains(t[k]));
                let m = choose|m: int| 0 <= m < d.len() && d[m] == t[k];
                assert(s[m] == d[m]);
                assert(!joins_before(s[s.len() - 1], s[m]));
            }
        }
        assert forall|i: int, j: int| 0 <= i < j < r.len() implies !joins_before(#[trigger] r[j], #[trigger] r[i]) by {
            if j == r.len() - 1 {
                assert(r[j] == s.last());
                assert(r[i] == t[i]);
            } else {
                assert(r[i] == t[i] && r[j] == t[j]);
            }
        }
        assert forall|k: int| 0 <= k < r.len() implies (#[trigger] r[k] == x || s.contains(r[k])) by {
            if k < t.len() {
                assert(r[k] == t[k]);
                if t[k] != x {
                    let m = choose|m: int| 0 <= m < d.len() && d[m] == t[k];
                    assert(s[m] == d[m]);
                }
            } else {
                assert(s[s.len() - 1] == s.last());
            }
        }
    } else {
        let r = s.push(x);
        assert forall|i: int, j: int| 0 <= i < j < r.len() implies !joins_before(#[trigger] r[j], #[trigger] r[i]) by {
            if j == r.len() - 1 {
                assert(r[j] == x && r[i] == s[i]);
                if joins_before(x, s[i]) {
                    assert(!joins_before(s[s.len() - 1], s[i]) || i == s.len() - 1);
                }
            } else {
                assert(r[i] == s[i] && r[j] == s[j]);
            }
        }
        assert forall|k: int| 0 <= k < r.len() implies (#[trigger] r[k] == x || s.contains(r[k])) by {
            if k < s.len() {
                assert(r[k] == s[k]);
            }
        }
    }
}

proof fn lemma_sort_ordered(s: Seq<MemberRoomRow>)
    ensures
        memberships_ordered(sort_memberships(s)),
    decreases s.len(),
{
    if s.len() > 0 {
        lemma_sort_ordered(s.drop_last());
        lemma_insert_ordered(sort_memberships(s.drop_last()), s.last());
    }
}

/// The member list puts owners first and, within a role, earlier joins first; it lists
/// every membership once, only reordered.
pub proof fn law_member_list_order(rows: Seq<MemberRoomRow>)
    ensures
        memberships_ordered(sort_memberships(rows)),
        sort_memberships(rows).to_multiset() == rows.to_multiset(),
{
    lemma_sort_ordered(rows);
    lemma_sort_keeps(rows);
}

/// One entry of a member's room list.
pub struct RetroRoomListItem {
    pub retro_room_id: i64,
    pub retro_room_name: String,
    pub order_index: i32,
}

/// The title of room `id` among `(id, title)` pairs (the last pair wins), if any.
pub open spec fn room_title(rooms: Seq<(i64, String)>, id: i64) -> Option<Seq<char>>
    decreases rooms.len(),
{
    if rooms.len() == 0 {
        None
    } else if rooms.last().0 == id {
        Some(rooms.last().1@)
    } else {
        room_title(rooms.drop_last(), id)
    }
}

/// The room list in the order of the memberships, skipping rooms that are gone.
pub open spec fn room_list(memberships: Seq<MemberRoomRow>, rooms: Seq<(i64, String)>) -> Seq<(i64, Seq<char>, i32)>
    decreases memberships.len(),
{
    if memberships.len() == 0 {
        Seq::empty()
    } else {
        let rest = room_list(memberships.drop_last(), rooms);
        let m = memberships.last();
        match room_title(rooms, m.retrospect_room_id) {
            Some(t) => rest.push((m.retrospect_room_id, t, m.order_index)),
            None => rest,
        }
    }
}

fn room_title_exec(rooms: &Vec<(i64, String)>, id: i64) -> (r: Option<String>)
    ensures
        match r {
            Some(t) => room_title(rooms@, id) == Some(t@),
            None => room_title(rooms@, id) is None,
        },
{
    let mut i: usize = rooms.len();
    assert(rooms@.take(rooms@.len() as int) =~= rooms@);
    while i > 0
        invariant
            i <= rooms@.len(),
            room_title(rooms@, id) == room_title(rooms@.take(i as int), id),
        decreases i,
    {
        assert(rooms@.take(i as int).drop_last() =~= rooms@.take(i - 1));
        if rooms[i - 1].0 == id {
            return Some(rooms[i - 1].1.clone());
        }
        i = i - 1;
    }
    None
}

impl RetrospectService {
    /// A member's room list: one entry per membership (in the order given, by order index),
    /// with the room's title; memberships whose room is gone are left out.
    pub fn build_room_list(memberships: &[MemberRoomRow], rooms: &Vec<(i64, String)>) -> (r: Vec<RetroRoomListItem>)
        ensures
            r@.map_values(|it: RetroRoomListItem| (it.retro_room_id, it.retro_room_name@, it.order_index))
                == room_list(memberships@, rooms@),
    {
        let mut out: Vec<RetroRoomListItem> = Vec::new();
        let mut i: usize = 0;
        while i < memberships.len()
            invariant
                i <= memberships@.len(),
                out@.map_values(|it: RetroRoomListItem| (it.retro_room_id, it.retro_room_name@, it.order_index))
                    == room_list(memberships@.take(i as int), rooms@),
            decreases memberships@.len() - i,
        {
            assert(memberships@.take(i + 1).drop_last() =~= memberships@.take(i as int));
            assert(memberships@.take(i + 1).last() == memberships@[i as int]);
            let m = memberships[i];
            match room_title_exec(rooms, m.retrospect_room_id) {
                Some(t) => {
                    let item = RetroRoomListItem { retro_room_id: m.retrospect_room_id, retro_room_name: t, order_index: m.order_index };
                    let ghost before = out@;
                    out.push(item);
                    assert(out@.map_values(|it: RetroRoomListItem| (it.retro_room_id, it.retro_room_name@, it.order_index))
                        =~= before.map_values(|it: RetroRoomListItem| (it.retro_room_id, it.retro_room_name@, it.order_index)).push(
                        (item.retro_room_id, item.retro_room_name@, item.order_index),
                    ));
                },
                None => {},
            }
            i = i + 1;
        }
        assert(memberships@.take(memberships@.len() as int) =~= memberships@);
        out
    }
}

} // verus!
