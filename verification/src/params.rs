//! Checks on the ids and paging parameters of requests.
use vstd::prelude::*;
use crate::config::{parse_i64, spec_parse_i64};
use crate::error::AppError;
use crate::service::RetrospectService;

verus! {

/// Which id a request names in its path.
#[derive(Debug, Clone, Copy, PartialEq, Eq, Structural)]
pub enum PathId {
    Retrospect,
    Response,
}

pub open spec fn path_id_message(kind: PathId) -> Seq<char> {
    match kind {
        PathId::Retrospect => "retrospectId는 1 이상의 양수여야 합니다."@,
        PathId::Response => "responseId는 1 이상의 양수여야 합니다."@,
    }
}

/// The page size a request asks for, or `default` when it names none.
pub open spec fn page_size(size: Option<i64>, default: i64) -> i64 {
    match size {
        Some(s) => s,
        None => default,
    }
}

impl RetrospectService {
    /// Ids in request paths are positive.
    pub fn check_path_id(kind: PathId, id: i64) -> (r: Result<(), AppError>)
        ensures
            id < 1 ==> (r matches Err(AppError::BadRequest(m)) && m@ == path_id_message(kind)),
            id >= 1 ==> r is Ok,
    {
        if id >= 1 {
            return Ok(());
        }
        match kind {
            PathId::Retrospect => Err(AppError::BadRequest("retrospectId는 1 이상의 양수여야 합니다.".to_owned())),
            PathId::Response => Err(AppError::BadRequest("responseId는 1 이상의 양수여야 합니다.".to_owned())),
        }
    }

    /// A page request: a cursor, when given, is positive; the size (`default` when absent) is
    /// 1 to 100. Gives the size.
    pub fn check_page_params(cursor: Option<i64>, size: Option<i64>, default: i64) -> (r: Result<i64, AppError>)
        ensures
            (cursor matches Some(c) && c < 1) ==> (r matches Err(AppError::BadRequest(m))
                && m@ == "cursor는 1 이상의 양수여야 합니다."@),
            !(cursor matches Some(c) && c < 1) && !(1 <= page_size(size, default) <= 100) ==> (r matches Err(
                AppError::BadRequest(m)) && m@ == "size는 1~100 범위의 정수여야 합니다."@),
            !(cursor matches Some(c) && c < 1) && 1 <= page_size(size, default) <= 100 ==> r == Ok::<
                i64,
                AppError,
            >(page_size(size, default)),
    {
        if let Some(c) = cursor {
            if c < 1 {
                return Err(AppError::BadRequest("cursor는 1 이상의 양수여야 합니다.".to_owned()));
            }
        }
        let s = match size {
            Some(s) => s,
            None => default,
        };
        if s < 1 || s > 100 {
            return Err(AppError::BadRequest("size는 1~100 범위의 정수여야 합니다.".to_owned()));
        }
        Ok(s)
    }

    /// The caller's member id, read from the subject of their token.
    pub fn parse_user_id(subject: &str) -> (r: Result<i64, AppError>)
        ensures
            spec_parse_i64(subject@) matches Some(id) ==> r == Ok::<i64, AppError>(id),
            spec_parse_i64(subject@) is None ==> (r matches Err(AppError::Unauthorized(m))
                && m@ == "유효하지 않은 사용자 ID입니다."@),
    {
        match parse_i64(subject) {
            Some(id) => Ok(id),
            None => Err(AppError::Unauthorized("유효하지 않은 사용자 ID입니다.".to_owned())),
        }
    }
}

} // verus!
