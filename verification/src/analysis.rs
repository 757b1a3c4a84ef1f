//! Team analysis of a retrospective: when it may run, what the analyser is given, and how its
//! personal missions are stored.
use vstd::prelude::*;
use vstd::string::*;
use crate::error::AppError;
use crate::model::{MemberRetroRow, RetrospectRow};
use crate::plan::{spec_ai_analysis_limit, PlanName};
use crate::responses::{
    find_member, ids_of_member, member_of, MemberResponseRow, MemberRow, ResponseRow,
};
use crate::text::{all_ws, dec_int, is_blank, push_int};

verus! {

/// Answers with non-blank content.
pub open spec fn non_blank_count(rows: Seq<ResponseRow>) -> nat
    decreases rows.len(),
{
    if rows.len() == 0 {
        0
    } else {
        non_blank_count(rows.drop_last()) + if all_ws(rows.last().content@) {
            0nat
        } else {
            1nat
        }
    }
}

/// Whether some submitted participant is still a member (has a member id).
pub open spec fn has_known_member(submitted: Seq<MemberRetroRow>) -> bool {
    exists|i: int| 0 <= i < submitted.len() && (#[trigger] submitted[i]).member_id is Some
}

/// The outcome of the checks that precede an analysis, in the order they are made.
pub open spec fn analysis_check(
    retrospect_id: i64,
    retro: Option<RetrospectRow>,
    is_room_member: bool,
    monthly_count: u64,
    plan: PlanName,
    submitted: Seq<MemberRetroRow>,
    rows: Seq<ResponseRow>,
) -> Option<int> {
    if retrospect_id < 1 {
        Some(1)
    } else if retro is None {
        Some(2)
    } else if retro->0.insight is Some {
        Some(3)
    } else if !is_room_member {
        Some(4)
    } else if spec_ai_analysis_limit(plan) matches Some(limit) && (monthly_count as i32) >= limit {
        Some(5)
    } else if submitted.len() == 0 {
        Some(6)
    } else if non_blank_count(rows) < 3 {
        Some(7)
    } else if !has_known_member(submitted) {
        Some(8)
    } else {
        None
    }
}

/// Which error an analysis check number stands for.
pub open spec fn analysis_error_matches(code: int, e: AppError) -> bool {
    match e {
        AppError::BadRequest(_) => code == 1,
        AppError::RetrospectNotFound(_) => code == 2,
        AppError::RetroAlreadyAnalyzed(_) => code == 3,
        AppError::RetroRoomAccessDenied(_) => code == 4,
        AppError::AiMonthlyLimitExceeded(_) => code == 5,
        AppError::RetroInsufficientData(_) => code == 6 || code == 7 || code == 8,
        _ => false,
    }
}

/// Decides whether a retrospective may be analysed. In order: the id must be positive, the
/// retrospective must exist, not be analysed yet, the caller must belong to its room, the
/// room's analyses this month (`monthly_count`) must be below the plan's quota, someone must
/// have submitted, at least three answers must be non-blank, and some submitter must still be
/// a member. `submitted` are the participants that submitted; `rows` all answers.
#[verifier::loop_isolation(false)]
pub fn check_analysis(
    retrospect_id: i64,
    retro: Option<&RetrospectRow>,
    is_room_member: bool,
    monthly_count: u64,
    plan: PlanName,
    submitted: &Vec<MemberRetroRow>,
    rows: &Vec<ResponseRow>,
) -> (r: Result<(), AppError>)
    ensures
        r is Ok <==> analysis_check(
            retrospect_id,
            match retro {
                Some(x) => Some(*x),
                None => None,
            },
            is_room_member,
            monthly_count,
            plan,
            submitted@,
            rows@,
        ) is None,
        r matches Err(e) ==> analysis_error_matches(
            analysis_check(
                retrospect_id,
                match retro {
                    Some(x) => Some(*x),
                    None => None,
                },
                is_room_member,
                monthly_count,
                plan,
                submitted@,
                rows@,
            )->0,
            e,
        ),
{
    if retrospect_id < 1 {
        return Err(AppError::BadRequest("유효하지 않은 회고 ID입니다.".to_owned()));
    }
    let retro = match retro {
        Some(x) => x,
        None => {
            return Err(AppError::RetrospectNotFound("존재하지 않는 회고 세션입니다.".to_owned()));
        },
    };
    if retro.insight.is_some() {
        return Err(AppError::RetroAlreadyAnalyzed("이미 분석이 완료된 회고입니다.".to_owned()));
    }
    if !is_room_member {
        return Err(AppError::RetroRoomAccessDenied("해당 회고방에 접근 권한이 없습니다.".to_owned()));
    }
    match plan.ai_analysis_limit() {
        Some(limit) => {
            if (monthly_count as i32) >= limit {
                return Err(AppError::AiMonthlyLimitExceeded("월간 분석 가능 횟수를 초과하였습니다.".to_owned()));
            }
        },
        None => {},
    }
    if submitted.len() == 0 {
        return Err(AppError::RetroInsufficientData("분석할 회고 답변 데이터가 부족합니다.".to_owned()));
    }
    let mut count: usize = 0;
    let mut i: usize = 0;
    while i < rows.len()
        invariant
            i <= rows.len(),
            count == non_blank_count(rows@.take(i as int)),
            count <= i,
        decreases rows.len() - i,
    {
        assert(rows@.take(i + 1).drop_last() =~= rows@.take(i as int));
        if !is_blank(rows[i].content.as_str()) {
            count = count + 1;
        }
        i = i + 1;
    }
    assert(rows@.take(rows.len() as int) =~= rows@);
    if count < 3 {
        return Err(AppError::RetroInsufficientData("분석할 회고 답변 데이터가 부족합니다.".to_owned()));
    }
    let mut j: usize = 0;
    while j < submitted.len()
        invariant
            j <= submitted.len(),
            forall|k: int| 0 <= k < j ==> (#[trigger] submitted@[k]).member_id is None,
        decreases submitted.len() - j,
    {
        if submitted[j].member_id.is_some() {
            return Ok(());
        }
        j = j + 1;
    }
    Err(AppError::RetroInsufficientData(
        "분석할 멤버 데이터가 없습니다. 모든 참여자가 탈퇴했을 수 있습니다.".to_owned(),
    ))
}

/// The answers one member gives the analyser.
pub struct MemberAnswerData {
    pub user_id: i64,
    pub user_name: String,
    pub answers: Vec<(String, String)>,
}

/// The last answer row with id `rid`.
pub open spec fn row_of(rows: Seq<ResponseRow>, rid: i64) -> Option<ResponseRow>
    decreases rows.len(),
{
    if rows.len() == 0 {
        None
    } else if rows.last().response_id == rid {
        Some(rows.last())
    } else {
        row_of(rows.drop_last(), rid)
    }
}

/// `(question, content)` of each listed answer id that has a row, in order.
pub open spec fn answers_of_ids(rows: Seq<ResponseRow>, ids: Seq<i64>) -> Seq<(Seq<char>, Seq<char>)>
    decreases ids.len(),
{
    if ids.len() == 0 {
        Seq::empty()
    } else {
        let rest = answers_of_ids(rows, ids.drop_last());
        match row_of(rows, ids.last()) {
            Some(r) => rest.push((r.question@, r.content@)),
            None => rest,
        }
    }
}

/// Name the analyser uses for a member: a non-empty nickname, else "Unknown"; "사용자<id>"
/// when the member row is missing.
pub open spec fn analysis_name(members: Seq<MemberRow>, id: i64) -> Seq<char> {
    match member_of(members, id) {
        Some(row) => match row.nickname {
            Some(n) => if n@.len() > 0 {
                n@
            } else {
                "Unknown"@
            },
            None => "Unknown"@,
        },
        None => "사용자"@ + dec_int(id as int),
    }
}

pub open spec fn answer_pairs_view(v: Seq<(String, String)>) -> Seq<(Seq<char>, Seq<char>)> {
    Seq::new(v.len(), |i: int| (v[i].0@, v[i].1@))
}

/// The submitters that are still members, in order.
pub open spec fn known_submitters(submitted: Seq<MemberRetroRow>) -> Seq<i64>
    decreases submitted.len(),
{
    if submitted.len() == 0 {
        Seq::empty()
    } else {
        match submitted.last().member_id {
            Some(m) => known_submitters(submitted.drop_last()).push(m),
            None => known_submitters(submitted.drop_last()),
        }
    }
}

fn row_of_exec(rows: &Vec<ResponseRow>, rid: i64) -> (r: Option<usize>)
    ensures
        r matches Some(i) ==> i < rows@.len() && row_of(rows@, rid) == Some(rows@[i as int]),
        r is None <==> row_of(rows@, rid) is None,
{
    let mut i: usize = rows.len();
    assert(rows@.take(rows.len() as int) =~= rows@);
    while i > 0
        invariant
            i <= rows.len(),
            row_of(rows@, rid) == row_of(rows@.take(i as int), rid),
        decreases i,
    {
        assert(rows@.take(i as int).drop_last() =~= rows@.take(i - 1));
        if rows[i - 1].response_id == rid {
            return Some(i - 1);
        }
        i = i - 1;
    }
    None
}

fn analysis_name_exec(members: &Vec<MemberRow>, id: i64) -> (s: String)
    ensures
        s@ == analysis_name(members@, id),
{
    match find_member(members, id) {
        Some(i) => match &members[i].nickname {
            Some(n) => if n.as_str().unicode_len() > 0 {
                n.clone()
            } else {
                "Unknown".to_owned()
            },
            None => "Unknown".to_owned(),
        },
        None => {
            let mut s = "사용자".to_owned();
            push_int(&mut s, id);
            s
        },
    }
}

/// Gathers what the analyser is given: for each submitter that is still a member, in order,
/// their name and the `(question, answer)` pairs of their answers (`member_answers` rows, in
/// their order, that belong to this retrospective's answers `rows`).
pub fn collect_member_answers(
    submitted: &Vec<MemberRetroRow>,
    members: &Vec<MemberRow>,
    member_answers: &Vec<MemberResponseRow>,
    rows: &Vec<ResponseRow>,
) -> (r: Vec<MemberAnswerData>)
    ensures
        r@.len() == known_submitters(submitted@).len(),
        forall|i: int|
            0 <= i < r@.len() ==> {
                let d = #[trigger] r@[i];
                let m = known_submitters(submitted@)[i];
                &&& d.user_id == m
                &&& d.user_name@ == analysis_name(members@, m)
                &&& answer_pairs_view(d.answers@) == answers_of_ids(
                    rows@,
                    ids_of_member(member_answers@, m),
                )
            },
{
    let mut out: Vec<MemberAnswerData> = Vec::new();
    let mut i: usize = 0;
    while i < submitted.len()
        invariant
            i <= submitted.len(),
            out@.len() == known_submitters(submitted@.take(i as int)).len(),
            forall|k: int|
                0 <= k < out@.len() ==> {
                    let d = #[trigger] out@[k];
                    let m = known_submitters(submitted@.take(i as int))[k];
                    &&& d.user_id == m
                    &&& d.user_name@ == analysis_name(members@, m)
                    &&& answer_pairs_view(d.answers@) == answers_of_ids(
                        rows@,
                        ids_of_member(member_answers@, m),
                    )
                },
        decreases submitted.len() - i,
    {
        assert(submitted@.take(i + 1).drop_last() =~= submitted@.take(i as int));
        match submitted[i].member_id {
            None => {},
            Some(m) => {
                let mut answers: Vec<(String, String)> = Vec::new();
                let mut j: usize = 0;
                let ghost ids = ids_of_member(member_answers@, m);
                while j < member_answers.len()
                    invariant
                        j <= member_answers.len(),
                        answer_pairs_view(answers@) == answers_of_ids(
                            rows@,
                            ids_of_member(member_answers@.take(j as int), m),
                        ),
                    decreases member_answers.len() - j,
                {
                    assert(member_answers@.take(j + 1).drop_last() =~= member_answers@.take(
                        j as int,
                    ));
                    if member_answers[j].member_id == Some(m) {
                        let rid = member_answers[j].response_id;
                        assert(ids_of_member(member_answers@.take(j + 1), m).drop_last()
                            =~= ids_of_member(member_answers@.take(j as int), m));
                        match row_of_exec(rows, rid) {
                            Some(k) => {
                                let ghost before = answers@;
                                answers.push((rows[k].question.clone(), rows[k].content.clone()));
                                assert(answer_pairs_view(answers@) =~= answer_pairs_view(
                                    before,
                                ).push((rows@[k as int].question@, rows@[k as int].content@)));
                            },
                            None => {},
                        }
                    }
                    j = j + 1;
                }
                assert(member_answers@.take(member_answers.len() as int) =~= member_answers@);
                let d = MemberAnswerData {
                    user_id: m,
                    user_name: analysis_name_exec(members, m),
                    answers,
                };
                out.push(d);
            },
        }
        i = i + 1;
    }
    assert(submitted@.take(submitted.len() as int) =~= submitted@);
    out
}

/// One personal mission suggested by the analyser.
pub struct MissionItem {
    pub mission_title: String,
    pub mission_desc: String,
}

/// The missions suggested to one member.
pub struct PersonalMissionItem {
    pub user_id: i64,
    pub user_name: String,
    pub missions: Vec<MissionItem>,
}

/// Inserts `x` after every element whose member id is not larger (keeps equal ids in order).
pub open spec fn insert_by_user(s: Seq<PersonalMissionItem>, x: PersonalMissionItem) -> Seq<
    PersonalMissionItem,
>
    decreases s.len(),
{
    if s.len() == 0 {
        seq![x]
    } else if s.last().user_id <= x.user_id {
        s.push(x)
    } else {
        insert_by_user(s.drop_last(), x).push(s.last())
    }
}

/// Stable sort by member id (`sort_by_key(|pm| pm.user_id)`).
pub open spec fn sort_by_user(s: Seq<PersonalMissionItem>) -> Seq<PersonalMissionItem>
    decreases s.len(),
{
    if s.len() == 0 {
        s
    } else {
        insert_by_user(sort_by_user(s.drop_last()), s.last())
    }
}

proof fn lemma_insert_len(s: Seq<PersonalMissionItem>, x: PersonalMissionItem)
    ensures
        insert_by_user(s, x).len() == s.len() + 1,
    decreases s.len(),
{
    if s.len() > 0 && s.last().user_id > x.user_id {
        lemma_insert_len(s.drop_last(), x);
    }
}

fn insert_sorted(v: &mut Vec<PersonalMissionItem>, x: PersonalMissionItem)
    ensures
        final(v)@ == insert_by_user(old(v)@, x),
    decreases old(v)@.len(),
{
    if v.len() == 0 {
        v.push(x);
        assert(v@ =~= seq![x]);
        return;
    }
    if v[v.len() - 1].user_id <= x.user_id {
        v.push(x);
        return;
    }
    let last = v.pop().unwrap();
    insert_sorted(v, x);
    v.push(last);
}

/// Orders the personal missions by member id, keeping the analyser's order among equal ids.
pub fn sort_missions_by_user(missions: Vec<PersonalMissionItem>) -> (r: Vec<PersonalMissionItem>)
    ensures
        r@ == sort_by_user(missions@),
{
    let mut out: Vec<PersonalMissionItem> = Vec::new();
    let mut rest = missions;
    let ghost orig = rest@;
    let n = rest.len();
    let mut i: usize = 0;
    while rest.len() > 0
        invariant
            i + rest@.len() == n,
            n == orig.len(),
            rest@ == orig.skip(i as int),
            out@ == sort_by_user(orig.take(i as int)),
        decreases rest@.len(),
    {
        let x = rest.remove(0);
        assert(x == orig[i as int]);
        assert(orig.take(i + 1).drop_last() =~= orig.take(i as int));
        assert(rest@ =~= orig.skip(i + 1));
        insert_sorted(&mut out, x);
        i = i + 1;
    }
    assert(orig.take(n as int) =~= orig);
    out
}

/// The stored personal insight: each mission as "title: description", one per line.
pub open spec fn mission_lines(ms: Seq<MissionItem>) -> Seq<char>
    decreases ms.len(),
{
    if ms.len() == 0 {
        Seq::empty()
    } else if ms.len() == 1 {
        ms[0].mission_title@ + ": "@ + ms[0].mission_desc@
    } else {
        mission_lines(ms.drop_last()) + "\n"@ + ms.last().mission_title@ + ": "@
            + ms.last().mission_desc@
    }
}

/// Joins the missions into the stored personal insight.
pub fn missions_text(ms: &Vec<MissionItem>) -> (s: String)
    ensures
        s@ == mission_lines(ms@),
{
    let mut s = String::new();
    let mut i: usize = 0;
    while i < ms.len()
        invariant
            i <= ms.len(),
            s@ == mission_lines(ms@.take(i as int)),
        decreases ms.len() - i,
    {
        assert(ms@.take(i + 1).drop_last() =~= ms@.take(i as int));
        let ghost before = s@;
        if i > 0 {
            s.append("\n");
        }
        s.append(ms[i].mission_title.as_str());
        s.append(": ");
        s.append(ms[i].mission_desc.as_str());
        assert(s@ =~= mission_lines(ms@.take(i + 1)));
        i = i + 1;
    }
    assert(ms@.take(ms.len() as int) =~= ms@);
    s
}

/// The personal insight stored for a participant: the joined missions of the first entry for
/// their member id, or `None` when they left or have no entry.
#[verifier::loop_isolation(false)]
pub fn personal_insight_for(pms: &Vec<PersonalMissionItem>, member_id: Option<i64>) -> (r: Option<
    String,
>)
    ensures
        member_id is None ==> r is None,
        member_id matches Some(m) ==> match r {
            Some(s) => exists|i: int|
                0 <= i < pms@.len() && (#[trigger] pms@[i]).user_id == m && (forall|j: int|
                    0 <= j < i ==> (#[trigger] pms@[j]).user_id != m) && s@ == mission_lines(
                    pms@[i].missions@,
                ),
            None => forall|i: int| 0 <= i < pms@.len() ==> (#[trigger] pms@[i]).user_id != m,
        },
{
    match member_id {
        None => None,
        Some(m) => {
            let mut i: usize = 0;
            while i < pms.len()
                invariant
                    i <= pms.len(),
                    forall|j: int| 0 <= j < i ==> (#[trigger] pms@[j]).user_id != m,
                decreases pms.len() - i,
            {
                if pms[i].user_id == m {
                    return Some(missions_text(&pms[i].missions));
                }
                i = i + 1;
            }
            None
        },
    }
}

} // verus!

verus! {

pub open spec fn ids_ascending(s: Seq<PersonalMissionItem>) -> bool {
    forall|i: int, j: int| 0 <= i < j < s.len() ==> #[trigger] s[i].user_id <= #[trigger] s[j].user_id
}

proof fn lemma_insert_by_user_sorted(s: Seq<PersonalMissionItem>, x: PersonalMissionItem)
    requires
        ids_ascending(s),
    ensures
        ids_ascending(insert_by_user(s, x)),
        insert_by_user(s, x).to_multiset() == s.to_multiset().insert(x),
    decreases s.len(),
{
    broadcast use vstd::seq_lib::group_to_multiset_ensures;
    let r = insert_by_user(s, x);
    if s.len() == 0 {
        assert(r =~= s.push(x));
    } else if s.last().user_id <= x.user_id {
        assert forall|i: int, j: int| 0 <= i < j < r.len() implies #[trigger] r[i].user_id <= #[trigger] r[j].user_id by {
            if j == r.len() - 1 {
                assert(r[i] == s[i]);
                if i < s.len() - 1 {
                    assert(s[i].user_id <= s[s.len() - 1].user_id);
                }
            } else {
                assert(r[i] == s[i] && r[j] == s[j]);
            }
        }
    } else {
        let d = s.drop_last();
        assert forall|i: int, j: int| 0 <= i < j < d.len() implies #[trigger] d[i].user_id <= #[trigger] d[j].user_id by {
            assert(d[i] == s[i] && d[j] == s[j]);
        }
        lemma_insert_by_user_sorted(d, x);
        let t = insert_by_user(d, x);
        lemma_insert_len(d, x);
        assert forall|k: int| 0 <= k < t.len() implies (#[trigger] t[k]).user_id <= s.last().user_id by {
            assert(t.contains(t[k]));
            assert(d.to_multiset().insert(x).count(t[k]) > 0);
            if t[k] != x {
                d.to_multiset_ensures();
                assert(d.contains(t[k]));
                let m = choose|m: int| 0 <= m < d.len() && d[m] == t[k];
                assert(s[m] == d[m]);
                assert(s[m].user_id <= s[s.len() - 1].user_id);
            }
        }
        assert forall|i: int, j: int| 0 <= i < j < r.len() implies #[trigger] r[i].user_id <= #[trigger] r[j].user_id by {
            if j == r.len() - 1 {
                assert(r[i] == t[i]);
            } else {
                assert(r[i] == t[i] && r[j] == t[j]);
            }
        }
        assert(s =~= d.push(s.last()));
        assert(r == t.push(s.last()));
        assert(r.to_multiset() =~= s.to_multiset().insert(x));
    }
}

/// The personal missions are listed by member id, ascending, and hold exactly the missions
/// given (equal ids keep their order).
pub proof fn law_missions_by_user(s: Seq<PersonalMissionItem>)
    ensures
        ids_ascending(sort_by_user(s)),
        sort_by_user(s).to_multiset() == s.to_multiset(),
    decreases s.len(),
{
    broadcast use vstd::seq_lib::group_to_multiset_ensures;
    if s.len() == 0 {
        assert(sort_by_user(s) == s);
    } else {
        let d = s.drop_last();
        law_missions_by_user(d);
        lemma_insert_by_user_sorted(sort_by_user(d), s.last());
        assert(s =~= d.push(s.last()));
    }
}

} // verus!

verus! {

/// A retrospective that already has an insight is never analysed again: with a valid id and
/// the retrospective found, the checks refuse it, and with the already-analysed error only
/// (whatever the caller's membership, usage, plan and answers).
pub proof fn law_analysed_retrospective_is_refused(
    retrospect_id: i64,
    retro: RetrospectRow,
    is_room_member: bool,
    monthly_count: u64,
    plan: PlanName,
    submitted: Seq<MemberRetroRow>,
    rows: Seq<ResponseRow>,
    e: AppError,
)
    requires
        retrospect_id >= 1,
        retro.insight is Some,
    ensures
        analysis_check(retrospect_id, Some(retro), is_room_member, monthly_count, plan, submitted, rows) is Some,
        analysis_error_matches(
            analysis_check(retrospect_id, Some(retro), is_room_member, monthly_count, plan, submitted, rows)->0,
            e,
        ) ==> e is RetroAlreadyAnalyzed,
{
}

/// An analysis goes ahead only when every condition holds: a valid id, the retrospective
/// found and not yet analysed, the caller a member of its room, the plan's monthly quota not
/// used up, at least one submission, one of them by a known member, and at least three
/// answers that are not blank. A member who is refused access is refused for that reason
/// alone once the retrospective is found and not analysed.
pub proof fn law_analysis_needs_every_condition(
    retrospect_id: i64,
    retro: Option<RetrospectRow>,
    is_room_member: bool,
    monthly_count: u64,
    plan: PlanName,
    submitted: Seq<MemberRetroRow>,
    rows: Seq<ResponseRow>,
    e: AppError,
)
    ensures
        analysis_check(retrospect_id, retro, is_room_member, monthly_count, plan, submitted, rows) is None ==> {
            &&& retrospect_id >= 1
            &&& retro matches Some(r) && r.insight is None
            &&& is_room_member
            &&& (spec_ai_analysis_limit(plan) matches Some(l) ==> (monthly_count as i32) < l)
            &&& submitted.len() > 0
            &&& has_known_member(submitted)
            &&& non_blank_count(rows) >= 3
        },
        retro matches Some(r) ==> (retrospect_id >= 1 && r.insight is None && !is_room_member
            && analysis_error_matches(
            analysis_check(retrospect_id, retro, is_room_member, monthly_count, plan, submitted, rows)->0,
            e,
        ) ==> e is RetroRoomAccessDenied),
{
}

} // verus!
