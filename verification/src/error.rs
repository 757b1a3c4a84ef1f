use vstd::prelude::*;

verus! {

/// Errors that the service reports to its callers; each carries a user-facing message.
#[derive(Debug)]
pub enum AppError {
    InternalError(String),
    BadRequest(String),
    NotFound(String),
    Unauthorized(String),
    RetroRoomNameDuplicate(String),
    RetroRoomNotFound(String),
    ExpiredInviteLink(String),
    AlreadyMember(String),
    RetroRoomAccessDenied(String),
    InvalidOrderData(String),
    NoPermission(String),
    NoRoomPermission(String),
    InvalidInviteLink(String),
    RetroUrlInvalid(String),
    RetrospectNotFound(String),
    RetrospectAlreadyStarted(String),
    ParticipantDuplicate(String),
    RetroAlreadySubmitted(String),
    RetroAnswersMissing(String),
    RetroAnswerWhitespaceOnly(String),
    RetroAnswerTooLong(String),
    SearchKeywordInvalid(String),
    RetroAlreadyAnalyzed(String),
    AiMonthlyLimitExceeded(String),
    RetroInsufficientData(String),
    ResponseNotFound(String),
    CommentTooLong(String),
    QuestionNotFound(String),
    AiAssistantLimitExceeded(String),
    RetroCategoryInvalid(String),
    RateLimitExceeded(String),
    InvalidPlan(String),
    SubscriptionAlreadyActive(String),
    SubscriptionNotFound(String),
    FluxPayServiceError(String),
    PaymentFailed(String),
    PdfGenerationFailed(String),
}

} // verus!
