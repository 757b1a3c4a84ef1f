//! The detail page of a retrospective and the lists of retrospectives.
use vstd::prelude::*;
use crate::error::AppError;
use crate::method::RetrospectMethod;
use crate::model::{MemberRetroRow, RetrospectRow};
use crate::responses::{MemberRow, ResponseRow, member_of, find_member, distinct_questions, distinct_question_list};
use crate::rooms::nickname_or_unknown;
use crate::service::RetrospectService;
use crate::text::views;
use crate::time::{valid_time, spec_format_date, spec_format_hm, format_date, format_hm};

verus! {

/// The detail page shows at most this many questions.
pub const DETAIL_QUESTIONS: usize = 5;

/// A question of the detail page, numbered from 1.
pub struct RetrospectQuestionItem {
    pub index: i32,
    pub content: String,
}

/// A participant of the detail page.
pub struct RetrospectMemberItem {
    pub member_id: i64,
    pub user_name: String,
}

/// The detail page of a retrospective.
pub struct RetrospectDetailResponse {
    pub retro_room_id: i64,
    pub title: String,
    pub start_time: String,
    pub retro_category: RetrospectMethod,
    pub members: Vec<RetrospectMemberItem>,
    pub total_like_count: i64,
    pub total_comment_count: i64,
    pub questions: Vec<RetrospectQuestionItem>,
}

/// The detail page's questions: the distinct questions in order of first appearance, at most
/// `DETAIL_QUESTIONS`.
pub open spec fn detail_questions(rows: Seq<ResponseRow>) -> Seq<Seq<char>> {
    let d = distinct_questions(rows);
    if d.len() <= DETAIL_QUESTIONS {
        d
    } else {
        d.take(DETAIL_QUESTIONS as int)
    }
}

/// The participants in registration order with their names; those whose member is gone are
/// left out.
pub open spec fn detail_members(mrs: Seq<MemberRetroRow>, members: Seq<MemberRow>) -> Seq<(i64, Seq<char>)>
    decreases mrs.len(),
{
    if mrs.len() == 0 {
        Seq::empty()
    } else {
        let rest = detail_members(mrs.drop_last(), members);
        match mrs.last().member_id {
            Some(id) => match member_of(members, id) {
                Some(m) => rest.push((id, nickname_or_unknown(m))),
                None => rest,
            },
            None => rest,
        }
    }
}

pub open spec fn member_items_view(v: Seq<RetrospectMemberItem>) -> Seq<(i64, Seq<char>)> {
    v.map_values(|m: RetrospectMemberItem| (m.member_id, m.user_name@))
}

/// One entry of a retrospective list (a room's list, or search results).
pub struct RetrospectListItem {
    pub retrospect_id: i64,
    pub project_name: String,
    pub retro_room_name: String,
    pub retrospect_method: RetrospectMethod,
    pub retrospect_date: String,
    pub retrospect_time: String,
    pub participant_count: i64,
}

pub type ListItemView = (i64, Seq<char>, Seq<char>, RetrospectMethod, Seq<char>, Seq<char>, i64);

pub open spec fn list_item_view(it: RetrospectListItem) -> ListItemView {
    (it.retrospect_id, it.project_name@, it.retro_room_name@, it.retrospect_method, it.retrospect_date@,
        it.retrospect_time@, it.participant_count)
}

/// The name of room `id` among `(id, name)` pairs (the last pair wins), empty when absent.
pub open spec fn room_name_of(rooms: Seq<(i64, String)>, id: i64) -> Seq<char>
    decreases rooms.len(),
{
    if rooms.len() == 0 {
        Seq::empty()
    } else if rooms.last().0 == id {
        rooms.last().1@
    } else {
        room_name_of(rooms.drop_last(), id)
    }
}

/// The number of participants of retrospective `id` among `(id, count)` pairs (the last pair
/// wins), zero when absent.
pub open spec fn count_of(counts: Seq<(i64, i64)>, id: i64) -> i64
    decreases counts.len(),
{
    if counts.len() == 0 {
        0
    } else if counts.last().0 == id {
        counts.last().1
    } else {
        count_of(counts.drop_last(), id)
    }
}

/// The list entry of a retrospective: its start as date and time, its room's name and its
/// number of participants.
pub open spec fn list_entry(r: RetrospectRow, rooms: Seq<(i64, String)>, counts: Seq<(i64, i64)>) -> ListItemView {
    (r.retrospect_id, r.title@, room_name_of(rooms, r.retrospect_room_id), r.retrospect_method,
        spec_format_date(r.start_time as int), spec_format_hm(r.start_time as int), count_of(
        counts,
        r.retrospect_id,
    ))
}

pub open spec fn start_times_valid(retros: Seq<RetrospectRow>) -> bool {
    forall|i: int| 0 <= i < retros.len() ==> valid_time(#[trigger] retros[i].start_time as int)
}

fn room_name_exec(rooms: &Vec<(i64, String)>, id: i64) -> (s: String)
    ensures
        s@ == room_name_of(rooms@, id),
{
    let mut i: usize = rooms.len();
    assert(rooms@.take(rooms@.len() as int) =~= rooms@);
    while i > 0
        invariant
            i <= rooms@.len(),
            room_name_of(rooms@, id) == room_name_of(rooms@.take(i as int), id),
        decreases i,
    {
        assert(rooms@.take(i as int).drop_last() =~= rooms@.take(i - 1));
        if rooms[i - 1].0 == id {
            return rooms[i - 1].1.clone();
        }
        i = i - 1;
    }
    String::new()
}

fn count_exec(counts: &Vec<(i64, i64)>, id: i64) -> (c: i64)
    ensures
        c == count_of(counts@, id),
{
    let mut i: usize = counts.len();
    assert(counts@.take(counts@.len() as int) =~= counts@);
    while i > 0
        invariant
            i <= counts@.len(),
            count_of(counts@, id) == count_of(counts@.take(i as int), id),
        decreases i,
    {
        assert(counts@.take(i as int).drop_last() =~= counts@.take(i - 1));
        if counts[i - 1].0 == id {
            return counts[i - 1].1;
        }
        i = i - 1;
    }
    0
}

fn name_or_unknown(m: &MemberRow) -> (s: String)
    ensures
        s@ == nickname_or_unknown(*m),
{
    match &m.nickname {
        Some(n) => if n.as_str().is_empty() {
            "Unknown".to_owned()
        } else {
            n.clone()
        },
        None => "Unknown".to_owned(),
    }
}

impl RetrospectService {
    /// The detail page needs the retrospective and the caller's membership of its room.
    pub fn check_detail_access(found: bool, is_room_member: bool) -> (r: Result<(), AppError>)
        ensures
            !found ==> (r matches Err(AppError::RetrospectNotFound(m)) && m@ == "존재하지 않는 회고입니다."@),
            found && !is_room_member ==> (r matches Err(AppError::RetroRoomAccessDenied(m))
                && m@ == "해당 회고에 접근 권한이 없습니다."@),
            found && is_room_member ==> r is Ok,
    {
        if !found {
            return Err(AppError::RetrospectNotFound("존재하지 않는 회고입니다.".to_owned()));
        }
        if !is_room_member {
            return Err(AppError::RetroRoomAccessDenied("해당 회고에 접근 권한이 없습니다.".to_owned()));
        }
        Ok(())
    }

    /// The detail page of a retrospective: its room, title, start date and method; its
    /// participants (`mrs`, in registration order) by name; the like and comment totals; and
    /// its questions (`rows`, all answers in id order) numbered from 1.
    pub fn build_retrospect_detail(
        retro: &RetrospectRow,
        mrs: &Vec<MemberRetroRow>,
        members: &Vec<MemberRow>,
        rows: &Vec<ResponseRow>,
        total_like_count: i64,
        total_comment_count: i64,
    ) -> (r: RetrospectDetailResponse)
        requires
            valid_time(retro.start_time as int),
        ensures
            r.retro_room_id == retro.retrospect_room_id,
            r.title@ == retro.title@,
            r.start_time@ == spec_format_date(retro.start_time as int),
            r.retro_category == retro.retrospect_method,
            member_items_view(r.members@) == detail_members(mrs@, members@),
            r.total_like_count == total_like_count,
            r.total_comment_count == total_comment_count,
            r.questions@.len() == detail_questions(rows@).len(),
            forall|i: int| 0 <= i < r.questions@.len() ==> (#[trigger] r.questions@[i]).index == i + 1
                && r.questions@[i].content@ == detail_questions(rows@)[i],
    {
        let mut people: Vec<RetrospectMemberItem> = Vec::new();
        let mut i: usize = 0;
        while i < mrs.len()
            invariant
                i <= mrs@.len(),
                member_items_view(people@) == detail_members(mrs@.take(i as int), members@),
            decreases mrs@.len() - i,
        {
            assert(mrs@.take(i + 1).drop_last() =~= mrs@.take(i as int));
            assert(mrs@.take(i + 1).last() == mrs@[i as int]);
            match mrs[i].member_id {
                Some(id) => match find_member(members, id) {
                    Some(k) => {
                        let item = RetrospectMemberItem { member_id: id, user_name: name_or_unknown(&members[k]) };
                        let ghost before = people@;
                        people.push(item);
                        assert(member_items_view(people@) =~= member_items_view(before).push(
                            (id, nickname_or_unknown(members@[k as int])),
                        ));
                    },
                    None => {},
                },
                None => {},
            }
            i = i + 1;
        }
        assert(mrs@.take(mrs@.len() as int) =~= mrs@);
        let distinct = distinct_question_list(rows);
        let ghost d = distinct_questions(rows@);
        let mut questions: Vec<RetrospectQuestionItem> = Vec::new();
        let mut q: usize = 0;
        while q < distinct.len() && q < DETAIL_QUESTIONS
            invariant
                views(distinct@) == d,
                q <= distinct@.len(),
                q <= DETAIL_QUESTIONS,
                questions@.len() == q,
                forall|j: int| 0 <= j < q ==> (#[trigger] questions@[j]).index == j + 1 && questions@[j].content@ == d[j],
            decreases distinct@.len() - q,
        {
            assert(views(distinct@)[q as int] == distinct@[q as int]@);
            questions.push(RetrospectQuestionItem { index: (q + 1) as i32, content: distinct[q].clone() });
            q = q + 1;
        }
        RetrospectDetailResponse {
            retro_room_id: retro.retrospect_room_id,
            title: retro.title.clone(),
            start_time: format_date(retro.start_time),
            retro_category: retro.retrospect_method,
            members: people,
            total_like_count,
            total_comment_count,
            questions,
        }
    }

    /// List entries for retrospectives, in the given order: each with its room's name (from
    /// `rooms`, empty when unknown), its start as `%Y-%m-%d` and `%H:%M`, and its number of
    /// participants (from `counts`, zero when absent).
    pub fn build_retrospect_list(
        retros: &Vec<RetrospectRow>,
        rooms: &Vec<(i64, String)>,
        counts: &Vec<(i64, i64)>,
    ) -> (r: Vec<RetrospectListItem>)
        requires
            start_times_valid(retros@),
        ensures
            r@.len() == retros@.len(),
            forall|i: int| 0 <= i < retros@.len() ==> list_item_view(#[trigger] r@[i]) == list_entry(
                retros@[i],
                rooms@,
                counts@,
            ),
    {
        let mut out: Vec<RetrospectListItem> = Vec::new();
        let mut i: usize = 0;
        while i < retros.len()
            invariant
                i <= retros@.len(),
                start_times_valid(retros@),
                out@.len() == i,
                forall|j: int| 0 <= j < i ==> list_item_view(#[trigger] out@[j]) == list_entry(retros@[j], rooms@, counts@),
            decreases retros@.len() - i,
        {
            let r = &retros[i];
            assert(valid_time(retros@[i as int].start_time as int));
            out.push(RetrospectListItem {
                retrospect_id: r.retrospect_id,
                project_name: r.title.clone(),
                retro_room_name: room_name_exec(rooms, r.retrospect_room_id),
                retrospect_method: r.retrospect_method,
                retrospect_date: format_date(r.start_time),
                retrospect_time: format_hm(r.start_time),
                participant_count: count_exec(counts, r.retrospect_id),
            });
            i = i + 1;
        }
        out
    }
}

} // verus!
