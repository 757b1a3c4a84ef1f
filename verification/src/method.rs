//! Retrospective methods and the five questions each one asks.
use vstd::prelude::*;
use crate::service::RetrospectService;

verus! {

/// How a retrospective is run; fixes its five questions.
#[derive(Debug, Clone, Copy, PartialEq, Eq, Structural)]
pub enum RetrospectMethod {
    Kpt,
    FourL,
    FiveF,
    Pmi,
    Free,
}

/// The five questions of a method, in order.
pub open spec fn method_questions(m: RetrospectMethod) -> Seq<Seq<char>> {
    match m {
        RetrospectMethod::Kpt => seq![
            "계속 유지하고 싶은 좋은 점(Keep)은 무엇인가요?"@,
            "개선이 필요한 문제점(Problem)은 무엇인가요?"@,
            "다음에 시도해 보고 싶은 것(Try)은 무엇인가요?"@,
            "이번 기간에 가장 인상 깊었던 일은 무엇인가요?"@,
            "팀에게 전하고 싶은 말이 있나요?"@,
        ],
        RetrospectMethod::FourL => seq![
            "이번 기간 동안 좋았던 점(Liked)은 무엇인가요?"@,
            "새롭게 배운 점(Learned)은 무엇인가요?"@,
            "부족했던 점(Lacked)은 무엇인가요?"@,
            "앞으로 바라는 점(Longed for)은 무엇인가요?"@,
            "팀에게 전하고 싶은 말이 있나요?"@,
        ],
        RetrospectMethod::FiveF => seq![
            "어떤 사실(Fact)들이 있었나요?"@,
            "그때 어떤 감정(Feeling)을 느꼈나요?"@,
            "무엇을 발견(Finding)했나요?"@,
            "앞으로 어떻게 적용(Future action)할 수 있을까요?"@,
            "팀원에게 전하고 싶은 피드백(Feedback)은 무엇인가요?"@,
        ],
        RetrospectMethod::Pmi => seq![
            "긍정적인 점(Plus)은 무엇이었나요?"@,
            "부정적인 점(Minus)은 무엇이었나요?"@,
            "흥미로운 점(Interesting)은 무엇이었나요?"@,
            "다음에 개선하고 싶은 점은 무엇인가요?"@,
            "팀에게 전하고 싶은 말이 있나요?"@,
        ],
        RetrospectMethod::Free => seq![
            "이번 기간에서 가장 기억에 남는 일은 무엇인가요?"@,
            "잘 진행된 일은 무엇인가요?"@,
            "아쉬웠던 일은 무엇인가요?"@,
            "새롭게 알게 된 점은 무엇인가요?"@,
            "다음에 해 보고 싶은 것은 무엇인가요?"@,
        ],
    }
}

/// Short display name of a method, as printed in reports.
pub open spec fn method_display(m: RetrospectMethod) -> Seq<char> {
    match m {
        RetrospectMethod::Kpt => "KPT"@,
        RetrospectMethod::FourL => "4L"@,
        RetrospectMethod::FiveF => "5F"@,
        RetrospectMethod::Pmi => "PMI"@,
        RetrospectMethod::Free => "Free"@,
    }
}

impl RetrospectMethod {
    /// The five questions of this method, in order.
    pub fn default_questions(&self) -> (r: Vec<&'static str>)
        ensures
            r@.len() == 5,
            forall|i: int| 0 <= i < 5 ==> (#[trigger] r@[i])@ == method_questions(*self)[i],
    {
        let r = match self {
            RetrospectMethod::Kpt => vec![
                "계속 유지하고 싶은 좋은 점(Keep)은 무엇인가요?",
                "개선이 필요한 문제점(Problem)은 무엇인가요?",
                "다음에 시도해 보고 싶은 것(Try)은 무엇인가요?",
                "이번 기간에 가장 인상 깊었던 일은 무엇인가요?",
                "팀에게 전하고 싶은 말이 있나요?",
            ],
            RetrospectMethod::FourL => vec![
                "이번 기간 동안 좋았던 점(Liked)은 무엇인가요?",
                "새롭게 배운 점(Learned)은 무엇인가요?",
                "부족했던 점(Lacked)은 무엇인가요?",
                "앞으로 바라는 점(Longed for)은 무엇인가요?",
                "팀에게 전하고 싶은 말이 있나요?",
            ],
            RetrospectMethod::FiveF => vec![
                "어떤 사실(Fact)들이 있었나요?",
                "그때 어떤 감정(Feeling)을 느꼈나요?",
                "무엇을 발견(Finding)했나요?",
                "앞으로 어떻게 적용(Future action)할 수 있을까요?",
                "팀원에게 전하고 싶은 피드백(Feedback)은 무엇인가요?",
            ],
            RetrospectMethod::Pmi => vec![
                "긍정적인 점(Plus)은 무엇이었나요?",
                "부정적인 점(Minus)은 무엇이었나요?",
                "흥미로운 점(Interesting)은 무엇이었나요?",
                "다음에 개선하고 싶은 점은 무엇인가요?",
                "팀에게 전하고 싶은 말이 있나요?",
            ],
            RetrospectMethod::Free => vec![
                "이번 기간에서 가장 기억에 남는 일은 무엇인가요?",
                "잘 진행된 일은 무엇인가요?",
                "아쉬웠던 일은 무엇인가요?",
                "새롭게 알게 된 점은 무엇인가요?",
                "다음에 해 보고 싶은 것은 무엇인가요?",
            ],
        };
        r
    }

    /// Short display name ("KPT", "4L", "5F", "PMI", "Free").
    pub fn display_name(&self) -> (r: &'static str)
        ensures
            r@ == method_display(*self),
    {
        match self {
            RetrospectMethod::Kpt => "KPT",
            RetrospectMethod::FourL => "4L",
            RetrospectMethod::FiveF => "5F",
            RetrospectMethod::Pmi => "PMI",
            RetrospectMethod::Free => "Free",
        }
    }
}

impl RetrospectService {
    /// Display name of a method as an owned string.
    pub fn retrospect_method_display(method: &RetrospectMethod) -> (r: String)
        ensures
            r@ == method_display(*method),
    {
        method.display_name().to_owned()
    }
}

} // verus!
