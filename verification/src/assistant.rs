//! The answer-writing assistant: who may ask it, how often, and what a reply reports.
use vstd::prelude::*;
use crate::error::AppError;
use crate::method::{RetrospectMethod, method_questions};
use crate::model::RetrospectStatus;
use crate::service::RetrospectService;
use crate::text::{all_ws, is_blank};
use crate::time::{KST_OFFSET_SECS, in_time_range, month_start, spec_month_start, valid_time};

verus! {

/// Whether the assistant starts from scratch or from what the participant wrote.
#[derive(Debug, Clone, Copy, PartialEq, Eq, Structural)]
pub enum GuideType {
    Initial,
    Personalized,
}

/// The start of the current month in Korean time, as a UTC time: usage is counted from there.
pub open spec fn usage_month_start(now_utc: int) -> int {
    spec_month_start(now_utc + KST_OFFSET_SECS) - KST_OFFSET_SECS
}

/// The guide starts from scratch when nothing (or only white space) was written.
pub open spec fn spec_guide_type(content: Option<&str>) -> GuideType {
    match content {
        Some(c) => if all_ws(c@) {
            GuideType::Initial
        } else {
            GuideType::Personalized
        },
        None => GuideType::Initial,
    }
}

/// The monthly quota (none when unlimited) is used up.
pub open spec fn quota_used_up(limit: Option<i32>, used: i32) -> bool {
    match limit {
        Some(l) => used >= l,
        None => false,
    }
}

impl RetrospectService {
    /// Usage of the AI features is counted per calendar month of Korean time: the first
    /// second of the current such month, as a UTC time. A clock outside the calendar's range
    /// gives the date error.
    pub fn current_usage_month_start(now_utc: i64) -> (r: Result<i64, AppError>)
        ensures
            r matches Ok(t) ==> t == usage_month_start(now_utc as int),
            valid_time(now_utc + KST_OFFSET_SECS) ==> r is Ok,
            r matches Err(e) ==> (e matches AppError::InternalError(m) && m@ == "날짜 계산 오류"@),
    {
        if now_utc > i64::MAX - KST_OFFSET_SECS || !in_time_range(now_utc + KST_OFFSET_SECS) {
            return Err(AppError::InternalError("날짜 계산 오류".to_owned()));
        }
        let start = month_start(now_utc + KST_OFFSET_SECS);
        Ok(start - KST_OFFSET_SECS)
    }

    /// The checks before the assistant is asked, in order: a positive retrospective id, a
    /// question number in 1..=5, the retrospective exists (`method` is its method), the
    /// caller takes part (`participant` is their progress) and has not submitted, and their
    /// use this month is below the plan's quota. Gives the question to guide on.
    pub fn prepare_assistant_guide(
        retrospect_id: i64,
        question_id: i32,
        method: Option<RetrospectMethod>,
        participant: Option<RetrospectStatus>,
        used_this_month: i32,
        limit: Option<i32>,
    ) -> (r: Result<String, AppError>)
        ensures
            retrospect_id < 1 ==> (r matches Err(AppError::BadRequest(m)) && m@ == "유효하지 않은 회고 ID입니다."@),
            retrospect_id >= 1 && !(1 <= question_id <= 5) ==> (r matches Err(AppError::QuestionNotFound(m))
                && m@ == "질문 ID는 1부터 5 사이여야 합니다."@),
            retrospect_id >= 1 && 1 <= question_id <= 5 ==> {
                &&& method is None ==> (r matches Err(AppError::RetrospectNotFound(m))
                    && m@ == "존재하지 않는 회고입니다."@)
                &&& method is Some && participant is None ==> (r matches Err(AppError::RetroRoomAccessDenied(m))
                    && m@ == "해당 회고에 참여 권한이 없습니다."@)
                &&& method is Some && participant is Some && participant != Some(RetrospectStatus::Draft) ==> (r matches Err(
                    AppError::RetroAlreadySubmitted(m))
                    && m@ == "이미 제출된 회고에서는 어시스턴트를 사용할 수 없습니다."@)
                &&& method is Some && participant == Some(RetrospectStatus::Draft) && quota_used_up(limit, used_this_month)
                    ==> (r matches Err(AppError::AiAssistantLimitExceeded(m))
                    && m@ == "이번 달 회고 어시스턴트 사용 횟수를 모두 사용했습니다."@)
                &&& method matches Some(mt) ==> (participant == Some(RetrospectStatus::Draft) && !quota_used_up(
                    limit,
                    used_this_month,
                ) ==> (r matches Ok(q) && q@ == method_questions(mt)[question_id - 1]))
            },
    {
        if retrospect_id < 1 {
            return Err(AppError::BadRequest("유효하지 않은 회고 ID입니다.".to_owned()));
        }
        if question_id < 1 || question_id > 5 {
            return Err(AppError::QuestionNotFound("질문 ID는 1부터 5 사이여야 합니다.".to_owned()));
        }
        let mt = match method {
            None => {
                return Err(AppError::RetrospectNotFound("존재하지 않는 회고입니다.".to_owned()));
            },
            Some(mt) => mt,
        };
        match participant {
            None => {
                return Err(AppError::RetroRoomAccessDenied("해당 회고에 참여 권한이 없습니다.".to_owned()));
            },
            Some(RetrospectStatus::Draft) => {},
            Some(_) => {
                return Err(AppError::RetroAlreadySubmitted(
                    "이미 제출된 회고에서는 어시스턴트를 사용할 수 없습니다.".to_owned(),
                ));
            },
        }
        if let Some(l) = limit {
            if used_this_month >= l {
                return Err(AppError::AiAssistantLimitExceeded(
                    "이번 달 회고 어시스턴트 사용 횟수를 모두 사용했습니다.".to_owned(),
                ));
            }
        }
        let questions = mt.default_questions();
        let idx = (question_id - 1) as usize;
        Ok(questions[idx].to_owned())
    }

    /// After the assistant answered and its use was recorded: `count_after` uses this month,
    /// this one included. Over the quota the use is undone and refused; otherwise the guide
    /// type (from what the participant wrote) and the uses left (-1 when unlimited).
    pub fn finish_assistant_guide(count_after: i32, limit: Option<i32>, content: Option<&str>) -> (r: Result<
        (GuideType, i32),
        AppError,
    >)
        ensures
            limit matches Some(l) ==> (count_after > l ==> (r matches Err(AppError::AiAssistantLimitExceeded(m))
                && m@ == "이번 달 회고 어시스턴트 사용 횟수를 모두 사용했습니다."@)),
            limit matches Some(l) ==> (count_after <= l ==> r == Ok::<(GuideType, i32), AppError>(
                (spec_guide_type(content), (l - count_after) as i32),
            )),
            limit is None ==> r == Ok::<(GuideType, i32), AppError>((spec_guide_type(content), -1i32)),
    {
        let guide = match content {
            Some(c) => if is_blank(c) {
                GuideType::Initial
            } else {
                GuideType::Personalized
            },
            None => GuideType::Initial,
        };
        match limit {
            Some(l) => {
                if count_after > l {
                    return Err(AppError::AiAssistantLimitExceeded(
                        "이번 달 회고 어시스턴트 사용 횟수를 모두 사용했습니다.".to_owned(),
                    ));
                }
                let left: i64 = l as i64 - count_after as i64;
                Ok((guide, left as i32))
            },
            None => Ok((guide, -1)),
        }
    }
}

} // verus!
