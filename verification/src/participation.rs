//! Taking part in a retrospective: registering, saving drafts and submitting answers.
use vstd::prelude::*;
use vstd::string::*;
use crate::error::AppError;
use crate::model::{RetrospectStatus, is_submitted};
use crate::service::RetrospectService;
use crate::text::{dec_nat, push_dec};
use crate::time::{KST_OFFSET_SECS, valid_time, spec_format_date, format_date};
use crate::validate::{DraftItem, SubmitAnswerItem, question_in_range, covers_all_questions, answer_numbers};

verus! {

/// Every retrospective asks this many questions.
pub const QUESTIONS_PER_RETROSPECT: usize = 5;

/// New text for one stored answer.
pub struct ResponseUpdate {
    pub response_id: i64,
    pub content: String,
}

pub open spec fn update_view(u: ResponseUpdate) -> (i64, Seq<char>) {
    (u.response_id, u.content@)
}

pub open spec fn updates_view(v: Seq<ResponseUpdate>) -> Seq<(i64, Seq<char>)> {
    v.map_values(|u: ResponseUpdate| update_view(u))
}

/// The text a draft stores: its content, or the empty text when it has none.
pub open spec fn draft_text(d: DraftItem) -> Seq<char> {
    match d.content {
        Some(c) => c@,
        None => Seq::empty(),
    }
}

/// The updates a batch of drafts makes, in order: draft `k` writes the answer to question
/// `question_number` (the `question_number - 1`-th of `ids`).
pub open spec fn draft_updates(ids: Seq<i64>, drafts: Seq<DraftItem>) -> Seq<(i64, Seq<char>)> {
    Seq::new(drafts.len(), |k: int| (ids[drafts[k].question_number - 1], draft_text(drafts[k])))
}

/// The updates a submission makes, in order.
pub open spec fn answer_updates(ids: Seq<i64>, answers: Seq<SubmitAnswerItem>) -> Seq<(i64, Seq<char>)> {
    Seq::new(answers.len(), |k: int| (ids[answers[k].question_number - 1], answers[k].content@))
}

/// The part of an e-mail address before its first `@` (all of it when there is none).
pub open spec fn email_local_part(email: Seq<char>) -> Seq<char> {
    if exists|i: int| 0 <= i < email.len() && email[i] == '@' {
        let i = choose|i: int| 0 <= i < email.len() && email[i] == '@' && forall|j: int| 0 <= j < i ==> email[j] != '@';
        email.subrange(0, i)
    } else {
        email
    }
}

/// The retrospective starts no later than `now_kst`.
pub open spec fn already_started(start_time: i64, now_kst: int) -> bool {
    start_time <= now_kst
}

fn mismatch_message(n: usize) -> (s: String)
    ensures
        s@ == "질문-응답 매핑 불일치: 예상 5개, 실제 "@ + dec_nat(n as nat) + "개"@,
{
    let mut s = "질문-응답 매핑 불일치: 예상 5개, 실제 ".to_owned();
    push_dec(&mut s, n as u64);
    s.append("개");
    s
}

impl RetrospectService {
    /// A retrospective is shown only to members of its room; a missing one and one the caller
    /// may not see give the same answer.
    pub fn check_retrospect_access(found: bool, is_room_member: bool) -> (r: Result<(), AppError>)
        ensures
            !(found && is_room_member) ==> (r matches Err(AppError::RetrospectNotFound(m))
                && m@ == "존재하지 않는 회고이거나 접근 권한이 없습니다."@),
            found && is_room_member ==> r is Ok,
    {
        if !found || !is_room_member {
            return Err(AppError::RetrospectNotFound("존재하지 않는 회고이거나 접근 권한이 없습니다.".to_owned()));
        }
        Ok(())
    }

    /// Registering for a retrospective at `now_utc`: it must start after the current Korean
    /// time (UTC+9), and the caller must not be registered yet.
    pub fn check_participation(start_time: i64, now_utc: i64, already_registered: bool) -> (r: Result<
        (),
        AppError,
    >)
        ensures
            already_started(start_time, now_utc + KST_OFFSET_SECS) ==> (r matches Err(
                AppError::RetrospectAlreadyStarted(m))
                && m@ == "이미 시작되었거나 종료된 회고에는 참석할 수 없습니다."@),
            !already_started(start_time, now_utc + KST_OFFSET_SECS) && already_registered ==> (r matches Err(
                AppError::ParticipantDuplicate(m)) && m@ == "이미 참석자로 등록되어 있습니다."@),
            !already_started(start_time, now_utc + KST_OFFSET_SECS) && !already_registered ==> r is Ok,
    {
        let now_kst: i128 = now_utc as i128 + KST_OFFSET_SECS as i128;
        if start_time as i128 <= now_kst {
            return Err(AppError::RetrospectAlreadyStarted(
                "이미 시작되었거나 종료된 회고에는 참석할 수 없습니다.".to_owned(),
            ));
        }
        if already_registered {
            return Err(AppError::ParticipantDuplicate("이미 참석자로 등록되어 있습니다.".to_owned()));
        }
        Ok(())
    }

    /// The nickname a new participant gets: the part of their e-mail address before `@`.
    pub fn nickname_from_email(email: &str) -> (r: String)
        ensures
            r@ == email_local_part(email@),
    {
        let v = crate::text::chars_of(email);
        let mut i: usize = 0;
        while i < v.len() && v[i] != '@'
            invariant
                v@ == email@,
                i <= v@.len(),
                forall|j: int| 0 <= j < i ==> v@[j] != '@',
            decreases v@.len() - i,
        {
            i = i + 1;
        }
        let out = email.substring_char(0, i).to_owned();
        proof {
            if i < v@.len() {
                let c = choose|c: int| 0 <= c < email@.len() && email@[c] == '@' && forall|j: int| 0 <= j < c ==> email@[j] != '@';
                assert(c == i) by {
                    if c < i {
                        assert(v@[c] != '@');
                    } else if c > i {
                        assert(email@[i as int] == '@');
                    }
                }
            } else {
                assert(email@.subrange(0, i as int) =~= email@);
            }
        }
        out
    }

    /// The answer updates of a draft save. The caller must have answers in this
    /// retrospective, and exactly one per question (`response_ids`, in id order). Each draft
    /// then writes its content (or the empty text) to the answer of its question.
    pub fn plan_draft_save(has_answers: bool, response_ids: &[i64], drafts: &[DraftItem]) -> (r: Result<
        Vec<ResponseUpdate>,
        AppError,
    >)
        requires
            forall|k: int| 0 <= k < drafts@.len() ==> question_in_range(#[trigger] drafts@[k].question_number),
        ensures
            !has_answers ==> (r matches Err(AppError::RetroRoomAccessDenied(m))
                && m@ == "해당 회고에 대한 응답 데이터가 존재하지 않습니다."@),
            has_answers && response_ids@.len() != QUESTIONS_PER_RETROSPECT ==> (r matches Err(
                AppError::InternalError(m)) && m@ == "질문-응답 매핑 불일치: 예상 5개, 실제 "@ + dec_nat(
                response_ids@.len()) + "개"@),
            has_answers && response_ids@.len() == QUESTIONS_PER_RETROSPECT ==> (r matches Ok(u)
                && updates_view(u@) == draft_updates(response_ids@, drafts@)),
    {
        if !has_answers {
            return Err(AppError::RetroRoomAccessDenied("해당 회고에 대한 응답 데이터가 존재하지 않습니다.".to_owned()));
        }
        if response_ids.len() != QUESTIONS_PER_RETROSPECT {
            return Err(AppError::InternalError(mismatch_message(response_ids.len())));
        }
        let mut out: Vec<ResponseUpdate> = Vec::new();
        let mut k: usize = 0;
        while k < drafts.len()
            invariant
                response_ids@.len() == QUESTIONS_PER_RETROSPECT,
                forall|j: int| 0 <= j < drafts@.len() ==> question_in_range(#[trigger] drafts@[j].question_number),
                k <= drafts@.len(),
                updates_view(out@) =~= draft_updates(response_ids@, drafts@).take(k as int),
            decreases drafts@.len() - k,
        {
            let d = &drafts[k];
            assert(question_in_range(drafts@[k as int].question_number));
            let idx = (d.question_number - 1) as usize;
            let text = match &d.content {
                Some(c) => c.clone(),
                None => String::new(),
            };
            let u = ResponseUpdate { response_id: response_ids[idx], content: text };
            assert(update_view(u) == draft_updates(response_ids@, drafts@)[k as int]);
            let ghost before = out@;
            out.push(u);
            assert(updates_view(out@) =~= updates_view(before).push(update_view(u)));
            k = k + 1;
            assert(updates_view(out@) =~= draft_updates(response_ids@, drafts@).take(k as int));
        }
        assert(draft_updates(response_ids@, drafts@).take(drafts@.len() as int) =~= draft_updates(
            response_ids@,
            drafts@,
        ));
        Ok(out)
    }

    /// The answer updates of a final submission by a participant whose progress is
    /// `status`: refused once submitted, and when the answers stored are not exactly one per
    /// question; otherwise each answer writes its text to the answer of its question.
    pub fn plan_submit(status: RetrospectStatus, response_ids: &[i64], answers: &[SubmitAnswerItem]) -> (r:
        Result<Vec<ResponseUpdate>, AppError>)
        requires
            forall|k: int| 0 <= k < answers@.len() ==> question_in_range(#[trigger] answers@[k].question_number),
        ensures
            is_submitted(status) ==> (r matches Err(AppError::RetroAlreadySubmitted(m))
                && m@ == "이미 제출이 완료된 회고입니다."@),
            !is_submitted(status) && response_ids@.len() != QUESTIONS_PER_RETROSPECT ==> (r matches Err(
                AppError::InternalError(m)) && m@ == "회고의 질문 수가 올바르지 않습니다."@),
            !is_submitted(status) && response_ids@.len() == QUESTIONS_PER_RETROSPECT ==> (r matches Ok(u)
                && updates_view(u@) == answer_updates(response_ids@, answers@)),
    {
        match status {
            RetrospectStatus::Submitted | RetrospectStatus::Analyzed => {
                return Err(AppError::RetroAlreadySubmitted("이미 제출이 완료된 회고입니다.".to_owned()));
            },
            RetrospectStatus::Draft => {},
        }
        if response_ids.len() != QUESTIONS_PER_RETROSPECT {
            return Err(AppError::InternalError("회고의 질문 수가 올바르지 않습니다.".to_owned()));
        }
        let mut out: Vec<ResponseUpdate> = Vec::new();
        let mut k: usize = 0;
        while k < answers.len()
            invariant
                response_ids@.len() == QUESTIONS_PER_RETROSPECT,
                forall|j: int| 0 <= j < answers@.len() ==> question_in_range(#[trigger] answers@[j].question_number),
                k <= answers@.len(),
                updates_view(out@) =~= answer_updates(response_ids@, answers@).take(k as int),
            decreases answers@.len() - k,
        {
            let a = &answers[k];
            assert(question_in_range(answers@[k as int].question_number));
            let idx = (a.question_number - 1) as usize;
            let u = ResponseUpdate { response_id: response_ids[idx], content: a.content.clone() };
            assert(update_view(u) == answer_updates(response_ids@, answers@)[k as int]);
            let ghost before = out@;
            out.push(u);
            assert(updates_view(out@) =~= updates_view(before).push(update_view(u)));
            k = k + 1;
            assert(updates_view(out@) =~= answer_updates(response_ids@, answers@).take(k as int));
        }
        assert(answer_updates(response_ids@, answers@).take(answers@.len() as int) =~= answer_updates(
            response_ids@,
            answers@,
        ));
        Ok(out)
    }
}

impl RetrospectService {
    /// Saving drafts needs the retrospective and the caller's participation in it.
    pub fn check_draft_access(found: bool, is_participant: bool) -> (r: Result<(), AppError>)
        ensures
            !found ==> (r matches Err(AppError::RetrospectNotFound(m)) && m@ == "존재하지 않는 회고입니다."@),
            found && !is_participant ==> (r matches Err(AppError::RetroRoomAccessDenied(m))
                && m@ == "해당 회고에 작성 권한이 없습니다."@),
            found && is_participant ==> r is Ok,
    {
        if !found {
            return Err(AppError::RetrospectNotFound("존재하지 않는 회고입니다.".to_owned()));
        }
        if !is_participant {
            return Err(AppError::RetroRoomAccessDenied("해당 회고에 작성 권한이 없습니다.".to_owned()));
        }
        Ok(())
    }

    /// Submitting needs the retrospective and the caller's participation in it.
    pub fn check_submit_access(found: bool, is_participant: bool) -> (r: Result<(), AppError>)
        ensures
            !found ==> (r matches Err(AppError::RetrospectNotFound(m)) && m@ == "존재하지 않는 회고입니다."@),
            found && !is_participant ==> (r matches Err(AppError::RetrospectNotFound(m))
                && m@ == "존재하지 않는 회고이거나 접근 권한이 없습니다."@),
            found && is_participant ==> r is Ok,
    {
        if !found {
            return Err(AppError::RetrospectNotFound("존재하지 않는 회고입니다.".to_owned()));
        }
        if !is_participant {
            return Err(AppError::RetrospectNotFound("존재하지 않는 회고이거나 접근 권한이 없습니다.".to_owned()));
        }
        Ok(())
    }

    /// The date of a UTC moment in Korean time, `%Y-%m-%d`.
    pub fn kst_date_text(utc: i64) -> (r: String)
        requires
            valid_time(utc + KST_OFFSET_SECS),
        ensures
            r@ == spec_format_date(utc + KST_OFFSET_SECS),
    {
        format_date(utc + KST_OFFSET_SECS)
    }

    /// The room name a report shows: the room's title, or `(알 수 없음)` when the room is gone.
    pub fn report_room_name(title: Option<String>) -> (r: String)
        ensures
            r@ == match title {
                Some(t) => t@,
                None => "(알 수 없음)"@,
            },
    {
        match title {
            Some(t) => t,
            None => "(알 수 없음)".to_owned(),
        }
    }
}

/// The ids of the answers a submission writes, in order.
pub open spec fn submitted_ids(ids: Seq<i64>, answers: Seq<SubmitAnswerItem>) -> Seq<i64> {
    answer_updates(ids, answers).map_values(|u: (i64, Seq<char>)| u.0)
}

/// A final submission writes every stored answer and no other: each of the five answer ids
/// is among those written, and each written id is one of the five.
pub proof fn law_submission_covers_every_answer(ids: Seq<i64>, answers: Seq<SubmitAnswerItem>)
    requires
        ids.len() == QUESTIONS_PER_RETROSPECT,
        answers.len() == QUESTIONS_PER_RETROSPECT,
        crate::validate::covers_all_questions(crate::validate::answer_numbers(answers)),
    ensures
        forall|q: int| 0 <= q < 5 ==> submitted_ids(ids, answers).contains(#[trigger] ids[q]),
        forall|k: int| 0 <= k < 5 ==> ids.contains(#[trigger] submitted_ids(ids, answers)[k]),
{
    let ns = crate::validate::answer_numbers(answers);
    let w = submitted_ids(ids, answers);
    assert forall|q: int| 0 <= q < 5 implies w.contains(#[trigger] ids[q]) by {
        let qn = (q + 1) as i32;
        assert(question_in_range(qn));
        assert(ns.contains(qn));
        let k = choose|k: int| 0 <= k < ns.len() && ns[k] == qn;
        assert(answers[k].question_number == qn);
        assert(w[k] == ids[q]);
    }
    assert forall|k: int| 0 <= k < 5 implies ids.contains(#[trigger] w[k]) by {
        assert(question_in_range(ns[k]));
        assert(ns[k] == answers[k].question_number);
        assert(ids[answers[k].question_number - 1] == w[k]);
    }
}

} // verus!

verus! {

/// Answer row `j` (of question `j + 1`) receives one of the submitted answers: the one
/// numbered `j + 1`.
pub open spec fn row_answered(ids: Seq<i64>, answers: Seq<SubmitAnswerItem>, j: int) -> bool {
    exists|k: int| 0 <= k < answers.len() && #[trigger] answers[k].question_number == j + 1
        && answer_updates(ids, answers)[k].0 == ids[j]
}

/// A validated submission writes every question: each of the five answers goes to the
/// answer row of its question number with its text, and every one of the five rows receives
/// the answer numbered for it.
pub proof fn law_submission_writes_every_question(ids: Seq<i64>, answers: Seq<SubmitAnswerItem>)
    requires
        ids.len() == 5,
        answers.len() == 5,
        covers_all_questions(answer_numbers(answers)),
    ensures
        answer_updates(ids, answers).len() == 5,
        forall|k: int| 0 <= k < 5 ==> 1 <= #[trigger] answers[k].question_number <= 5
            && answer_updates(ids, answers)[k] == (ids[answers[k].question_number - 1], answers[k].content@),
        forall|j: int| 0 <= j < 5 ==> #[trigger] row_answered(ids, answers, j),
{
    let ns = answer_numbers(answers);
    assert forall|k: int| 0 <= k < 5 implies 1 <= #[trigger] answers[k].question_number <= 5 by {
        assert(ns[k] == answers[k].question_number);
        assert(question_in_range(ns[k]));
    }
    assert forall|j: int| 0 <= j < 5 implies #[trigger] row_answered(ids, answers, j) by {
        let q: i32 = (j + 1) as i32;
        assert(question_in_range(q));
        assert(ns.contains(q));
        let k = choose|k: int| 0 <= k < ns.len() && ns[k] == q;
        assert(answers[k].question_number == ns[k]);
        assert(answers[k].question_number == j + 1);
        assert(answer_updates(ids, answers)[k].0 == ids[j]);
    }
}

} // verus!
