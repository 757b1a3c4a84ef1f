//! The service's checks on what users send, with the cases the service was built against.
use chrono::{Datelike, Utc};
use moalog::error::AppError;
use moalog::method::RetrospectMethod;
use moalog::service::RetrospectService;
use moalog::validate::{DraftItem, SubmitAnswerItem};

fn create_draft(question_number: i32, content: Option<&str>) -> DraftItem {
    DraftItem {
        question_number,
        content: content.map(|c| c.to_string()),
    }
}

fn create_valid_answers() -> Vec<SubmitAnswerItem> {
    (1..=5)
        .map(|i| SubmitAnswerItem {
            question_number: i,
            content: format!("질문 {}에 대한 답변입니다.", i),
        })
        .collect()
}

fn ymd(d: chrono::NaiveDate) -> (i32, u32, u32) {
    (d.year(), d.month(), d.day())
}

#[test]
fn should_pass_valid_https_url() {
    // Arrange
    let urls = vec!["https://github.com/example".to_string()];

    // Act
    let result = RetrospectService::validate_reference_urls(&urls);

    // Assert
    assert!(result.is_ok());
}

#[test]
fn should_pass_valid_http_url() {
    // Arrange
    let urls = vec!["http://example.com".to_string()];

    // Act
    let result = RetrospectService::validate_reference_urls(&urls);

    // Assert
    assert!(result.is_ok());
}

#[test]
fn should_pass_multiple_valid_urls() {
    // Arrange
    let urls = vec![
        "https://github.com/project".to_string(),
        "https://notion.so/page".to_string(),
    ];

    // Act
    let result = RetrospectService::validate_reference_urls(&urls);

    // Assert
    assert!(result.is_ok());
}

#[test]
fn should_pass_empty_urls() {
    // Arrange
    let urls: Vec<String> = vec![];

    // Act
    let result = RetrospectService::validate_reference_urls(&urls);

    // Assert
    assert!(result.is_ok());
}

#[test]
fn should_fail_for_duplicate_urls() {
    // Arrange
    let urls = vec![
        "https://github.com/example".to_string(),
        "https://github.com/example".to_string(),
    ];

    // Act
    let result = RetrospectService::validate_reference_urls(&urls);

    // Assert
    assert!(result.is_err());
    if let Err(AppError::RetroUrlInvalid(msg)) = result {
        assert!(msg.contains("중복"));
    } else {
        panic!("Expected RetroUrlInvalid error");
    }
}

#[test]
fn should_fail_for_ftp_url() {
    // Arrange
    let urls = vec!["ftp://example.com".to_string()];

    // Act
    let result = RetrospectService::validate_reference_urls(&urls);

    // Assert
    assert!(result.is_err());
    assert!(matches!(result, Err(AppError::RetroUrlInvalid(_))));
}

#[test]
fn should_fail_for_url_without_scheme() {
    // Arrange
    let urls = vec!["example.com".to_string()];

    // Act
    let result = RetrospectService::validate_reference_urls(&urls);

    // Assert
    assert!(result.is_err());
    assert!(matches!(result, Err(AppError::RetroUrlInvalid(_))));
}

#[test]
fn should_fail_for_url_exceeding_max_length() {
    // Arrange
    let long_url = format!("https://example.com/{}", "a".repeat(2050));
    let urls = vec![long_url];

    // Act
    let result = RetrospectService::validate_reference_urls(&urls);

    // Assert
    assert!(result.is_err());
    if let Err(AppError::RetroUrlInvalid(msg)) = result {
        assert!(msg.contains("2048"));
    } else {
        panic!("Expected RetroUrlInvalid error");
    }
}

#[test]
fn should_fail_for_url_without_host() {
    // Arrange
    let urls = vec!["https://".to_string()];

    // Act
    let result = RetrospectService::validate_reference_urls(&urls);

    // Assert
    assert!(result.is_err());
    assert!(matches!(result, Err(AppError::RetroUrlInvalid(_))));
}

#[test]
fn should_pass_valid_date_format() {
    // Arrange
    let valid_date = &Utc::now()
        .date_naive()
        .succ_opt()
        .expect("valid date")
        .format("%Y-%m-%d")
        .to_string();

    // Act
    let result = RetrospectService::validate_and_parse_date(valid_date);

    // Assert
    assert!(result.is_ok());
}

#[test]
fn should_fail_for_past_date() {
    // Arrange
    let past_date = "2020-01-01";

    // Act
    let result = RetrospectService::validate_and_parse_date(past_date);

    // Assert
    assert!(result.is_err());
    if let Err(AppError::BadRequest(msg)) = result {
        assert!(msg.contains("오늘 이후"));
    } else {
        panic!("Expected BadRequest error");
    }
}

#[test]
fn should_pass_for_today_date() {
    // Arrange
    let today = Utc::now().date_naive().format("%Y-%m-%d").to_string();

    // Act
    let result = RetrospectService::validate_and_parse_date(&today);

    // Assert
    assert!(result.is_ok());
}

#[test]
fn should_fail_for_invalid_date_format() {
    // Arrange
    let invalid_date = "01-25-2026"; // MM-DD-YYYY format

    // Act
    let result = RetrospectService::validate_and_parse_date(invalid_date);

    // Assert
    assert!(result.is_err());
    if let Err(AppError::BadRequest(msg)) = result {
        assert!(msg.contains("YYYY-MM-DD"));
    } else {
        panic!("Expected BadRequest error");
    }
}

#[test]
fn should_fail_for_invalid_date_string() {
    // Arrange
    let invalid_date = "not-a-date";

    // Act
    let result = RetrospectService::validate_and_parse_date(invalid_date);

    // Assert
    assert!(result.is_err());
    assert!(matches!(result, Err(AppError::BadRequest(_))));
}

#[test]
fn should_pass_valid_time_format() {
    // Arrange
    let valid_time = "14:30";

    // Act
    let result = RetrospectService::validate_and_parse_time(valid_time);

    // Assert
    assert!(result.is_ok());
}

#[test]
fn should_pass_midnight_time() {
    // Arrange
    let midnight = "00:00";

    // Act
    let result = RetrospectService::validate_and_parse_time(midnight);

    // Assert
    assert!(result.is_ok());
}

#[test]
fn should_pass_end_of_day_time() {
    // Arrange
    let end_of_day = "23:59";

    // Act
    let result = RetrospectService::validate_and_parse_time(end_of_day);

    // Assert
    assert!(result.is_ok());
}

#[test]
fn should_fail_for_invalid_time_format() {
    // Arrange
    let invalid_time = "1430"; // 콜론 없는 형식

    // Act
    let result = RetrospectService::validate_and_parse_time(invalid_time);

    // Assert
    assert!(result.is_err());
    if let Err(AppError::BadRequest(msg)) = result {
        assert!(msg.contains("HH:mm"));
    } else {
        panic!("Expected BadRequest error");
    }
}

#[test]
fn should_fail_for_invalid_time_value() {
    // Arrange
    let invalid_time = "25:00"; // 유효하지 않은 시간

    // Act
    let result = RetrospectService::validate_and_parse_time(invalid_time);

    // Assert
    assert!(result.is_err());
    assert!(matches!(result, Err(AppError::BadRequest(_))));
}

#[test]
fn should_pass_future_datetime() {
    // Arrange
    let future_date = ymd(Utc::now().date_naive() + chrono::Duration::days(7));
    let time = (14, 0);

    // Act
    let result = RetrospectService::validate_future_datetime(future_date, time);

    // Assert
    assert!(result.is_ok());
}

#[test]
fn should_fail_for_past_datetime() {
    // Arrange
    let past_date = (2020, 1, 1);
    let time = (14, 0);

    // Act
    let result = RetrospectService::validate_future_datetime(past_date, time);

    // Assert
    assert!(result.is_err());
    if let Err(AppError::BadRequest(msg)) = result {
        assert!(msg.contains("미래"));
    } else {
        panic!("Expected BadRequest error");
    }
}

#[test]
fn should_return_5_questions_for_kpt() {
    // Arrange
    let method = RetrospectMethod::Kpt;

    // Act
    let questions = method.default_questions();

    // Assert
    assert_eq!(questions.len(), 5);
    assert!(questions[0].contains("유지"));
    assert!(questions[1].contains("문제점"));
    assert!(questions[2].contains("시도"));
}

#[test]
fn should_return_5_questions_for_four_l() {
    // Arrange
    let method = RetrospectMethod::FourL;

    // Act
    let questions = method.default_questions();

    // Assert
    assert_eq!(questions.len(), 5);
    assert!(questions[0].contains("좋았던"));
    assert!(questions[1].contains("배운"));
    assert!(questions[2].contains("부족"));
    assert!(questions[3].contains("바라는"));
}

#[test]
fn should_return_5_questions_for_five_f() {
    // Arrange
    let method = RetrospectMethod::FiveF;

    // Act
    let questions = method.default_questions();

    // Assert
    assert_eq!(questions.len(), 5);
    assert!(questions[0].contains("사실"));
    assert!(questions[1].contains("감정"));
    assert!(questions[2].contains("발견"));
    assert!(questions[3].contains("적용"));
    assert!(questions[4].contains("피드백"));
}

#[test]
fn should_return_5_questions_for_pmi() {
    // Arrange
    let method = RetrospectMethod::Pmi;

    // Act
    let questions = method.default_questions();

    // Assert
    assert_eq!(questions.len(), 5);
    assert!(questions[0].contains("긍정"));
    assert!(questions[1].contains("부정"));
    assert!(questions[2].contains("흥미"));
}

#[test]
fn should_return_5_questions_for_free() {
    // Arrange
    let method = RetrospectMethod::Free;

    // Act
    let questions = method.default_questions();

    // Assert
    assert_eq!(questions.len(), 5);
    assert!(questions[0].contains("기억"));
}

#[test]
fn should_pass_valid_single_draft() {
    // Arrange
    let drafts = vec![create_draft(1, Some("첫 번째 답변"))];

    // Act
    let result = RetrospectService::validate_drafts(&drafts);

    // Assert
    assert!(result.is_ok());
}

#[test]
fn should_pass_valid_multiple_drafts() {
    // Arrange
    let drafts = vec![
        create_draft(1, Some("첫 번째 답변")),
        create_draft(3, Some("세 번째 답변")),
        create_draft(5, Some("다섯 번째 답변")),
    ];

    // Act
    let result = RetrospectService::validate_drafts(&drafts);

    // Assert
    assert!(result.is_ok());
}

#[test]
fn should_pass_all_five_drafts() {
    // Arrange
    let drafts: Vec<DraftItem> = (1..=5)
        .map(|i| create_draft(i, Some(&format!("답변 {}", i))))
        .collect();

    // Act
    let result = RetrospectService::validate_drafts(&drafts);

    // Assert
    assert!(result.is_ok());
}

#[test]
fn should_pass_draft_with_null_content() {
    // Arrange
    let drafts = vec![create_draft(2, None)];

    // Act
    let result = RetrospectService::validate_drafts(&drafts);

    // Assert
    assert!(result.is_ok());
}

#[test]
fn should_pass_draft_with_empty_content() {
    // Arrange
    let drafts = vec![create_draft(1, Some(""))];

    // Act
    let result = RetrospectService::validate_drafts(&drafts);

    // Assert
    assert!(result.is_ok());
}

#[test]
fn should_pass_draft_with_exactly_1000_chars() {
    // Arrange
    let content = "가".repeat(1000);
    let drafts = vec![create_draft(1, Some(&content))];

    // Act
    let result = RetrospectService::validate_drafts(&drafts);

    // Assert
    assert!(result.is_ok());
}

#[test]
fn should_fail_when_drafts_is_empty() {
    // Arrange
    let drafts: Vec<DraftItem> = vec![];

    // Act
    let result = RetrospectService::validate_drafts(&drafts);

    // Assert
    assert!(result.is_err());
    if let Err(AppError::BadRequest(msg)) = result {
        assert!(msg.contains("최소 1개"));
    } else {
        panic!("Expected BadRequest error");
    }
}

#[test]
fn should_fail_when_drafts_exceeds_5() {
    // Arrange
    let drafts: Vec<DraftItem> = (1..=6)
        .map(|i| create_draft(i, Some(&format!("답변 {}", i))))
        .collect();

    // Act
    let result = RetrospectService::validate_drafts(&drafts);

    // Assert
    assert!(result.is_err());
    if let Err(AppError::BadRequest(msg)) = result {
        assert!(msg.contains("최대 5개"));
    } else {
        panic!("Expected BadRequest error");
    }
}

#[test]
fn should_fail_when_draft_duplicate_question_numbers() {
    // Arrange
    let drafts = vec![
        create_draft(1, Some("답변 1")),
        create_draft(1, Some("답변 1 중복")),
    ];

    // Act
    let result = RetrospectService::validate_drafts(&drafts);

    // Assert
    assert!(result.is_err());
    if let Err(AppError::BadRequest(msg)) = result {
        assert!(msg.contains("중복된 질문 번호"));
    } else {
        panic!("Expected BadRequest error");
    }
}

#[test]
fn should_fail_when_question_number_is_0() {
    // Arrange
    let drafts = vec![create_draft(0, Some("답변"))];

    // Act
    let result = RetrospectService::validate_drafts(&drafts);

    // Assert
    assert!(result.is_err());
    if let Err(AppError::BadRequest(msg)) = result {
        assert!(msg.contains("올바르지 않은 질문 번호"));
    } else {
        panic!("Expected BadRequest error");
    }
}

#[test]
fn should_fail_when_question_number_is_6() {
    // Arrange
    let drafts = vec![create_draft(6, Some("답변"))];

    // Act
    let result = RetrospectService::validate_drafts(&drafts);

    // Assert
    assert!(result.is_err());
    if let Err(AppError::BadRequest(msg)) = result {
        assert!(msg.contains("올바르지 않은 질문 번호"));
    } else {
        panic!("Expected BadRequest error");
    }
}

#[test]
fn should_fail_when_question_number_is_negative() {
    // Arrange
    let drafts = vec![create_draft(-1, Some("답변"))];

    // Act
    let result = RetrospectService::validate_drafts(&drafts);

    // Assert
    assert!(result.is_err());
    assert!(matches!(result, Err(AppError::BadRequest(_))));
}

#[test]
fn should_fail_when_draft_content_exceeds_1000_chars() {
    // Arrange
    let content = "가".repeat(1001);
    let drafts = vec![create_draft(1, Some(&content))];

    // Act
    let result = RetrospectService::validate_drafts(&drafts);

    // Assert
    assert!(result.is_err());
    if let Err(AppError::RetroAnswerTooLong(msg)) = result {
        assert!(msg.contains("1,000자"));
    } else {
        panic!("Expected RetroAnswerTooLong error");
    }
}

#[test]
fn should_pass_mixed_null_and_content_drafts() {
    // Arrange
    let drafts = vec![
        create_draft(1, Some("답변 있음")),
        create_draft(2, None),
        create_draft(3, Some("")),
    ];

    // Act
    let result = RetrospectService::validate_drafts(&drafts);

    // Assert
    assert!(result.is_ok());
}

#[test]
fn should_pass_valid_answers() {
    // Arrange
    let answers = create_valid_answers();

    // Act
    let result = RetrospectService::validate_answers(&answers);

    // Assert
    assert!(result.is_ok());
}

#[test]
fn should_fail_when_answers_count_is_not_5() {
    // Arrange
    let answers: Vec<SubmitAnswerItem> = (1..=4)
        .map(|i| SubmitAnswerItem {
            question_number: i,
            content: format!("답변 {}", i),
        })
        .collect();

    // Act
    let result = RetrospectService::validate_answers(&answers);

    // Assert
    assert!(result.is_err());
    if let Err(AppError::RetroAnswersMissing(msg)) = result {
        assert!(msg.contains("모든 질문"));
    } else {
        panic!("Expected RetroAnswersMissing error");
    }
}

#[test]
fn should_fail_when_question_number_missing() {
    // Arrange - questionNumber 3 대신 6을 사용
    let mut answers = create_valid_answers();
    answers[2].question_number = 6;

    // Act
    let result = RetrospectService::validate_answers(&answers);

    // Assert
    assert!(result.is_err());
    assert!(matches!(result, Err(AppError::RetroAnswersMissing(_))));
}

#[test]
fn should_fail_when_duplicate_question_numbers() {
    // Arrange - questionNumber 1이 두 개
    let mut answers = create_valid_answers();
    answers[4].question_number = 1; // 5번 대신 1번 중복

    // Act
    let result = RetrospectService::validate_answers(&answers);

    // Assert
    assert!(result.is_err());
    assert!(matches!(result, Err(AppError::RetroAnswersMissing(_))));
}

#[test]
fn should_fail_when_content_is_whitespace_only() {
    // Arrange
    let mut answers = create_valid_answers();
    answers[0].content = "   \t\n  ".to_string();

    // Act
    let result = RetrospectService::validate_answers(&answers);

    // Assert
    assert!(result.is_err());
    if let Err(AppError::RetroAnswerWhitespaceOnly(msg)) = result {
        assert!(msg.contains("공백만"));
    } else {
        panic!("Expected RetroAnswerWhitespaceOnly error");
    }
}

#[test]
fn should_fail_when_content_is_empty() {
    // Arrange
    let mut answers = create_valid_answers();
    answers[0].content = String::new();

    // Act
    let result = RetrospectService::validate_answers(&answers);

    // Assert
    assert!(result.is_err());
    assert!(matches!(
        result,
        Err(AppError::RetroAnswerWhitespaceOnly(_))
    ));
}

#[test]
fn should_fail_when_content_exceeds_1000_chars() {
    // Arrange
    let mut answers = create_valid_answers();
    answers[0].content = "가".repeat(1001);

    // Act
    let result = RetrospectService::validate_answers(&answers);

    // Assert
    assert!(result.is_err());
    if let Err(AppError::RetroAnswerTooLong(msg)) = result {
        assert!(msg.contains("1,000자"));
    } else {
        panic!("Expected RetroAnswerTooLong error");
    }
}

#[test]
fn should_pass_when_content_is_exactly_1000_chars() {
    // Arrange
    let mut answers = create_valid_answers();
    answers[0].content = "가".repeat(1000);

    // Act
    let result = RetrospectService::validate_answers(&answers);

    // Assert
    assert!(result.is_ok());
}

#[test]
fn should_pass_when_content_has_leading_trailing_whitespace() {
    // Arrange - 앞뒤 공백이 있지만 실제 내용이 있는 경우
    let mut answers = create_valid_answers();
    answers[0].content = "  유효한 답변  ".to_string();

    // Act
    let result = RetrospectService::validate_answers(&answers);

    // Assert
    assert!(result.is_ok());
}

#[test]
fn should_fail_when_answers_is_empty() {
    // Arrange
    let answers: Vec<SubmitAnswerItem> = vec![];

    // Act
    let result = RetrospectService::validate_answers(&answers);

    // Assert
    assert!(result.is_err());
    assert!(matches!(result, Err(AppError::RetroAnswersMissing(_))));
}

#[test]
fn should_fail_when_keyword_is_none() {
    // Arrange & Act
    let result = RetrospectService::validate_search_keyword(None);

    // Assert
    assert!(result.is_err());
    assert!(matches!(result, Err(AppError::SearchKeywordInvalid(_))));
}

#[test]
fn should_fail_when_keyword_is_empty() {
    // Arrange & Act
    let result = RetrospectService::validate_search_keyword(Some(""));

    // Assert
    assert!(result.is_err());
    assert!(matches!(result, Err(AppError::SearchKeywordInvalid(_))));
}

#[test]
fn should_fail_when_keyword_exceeds_100_chars() {
    // Arrange
    let keyword = "가".repeat(101);

    // Act
    let result = RetrospectService::validate_search_keyword(Some(&keyword));

    // Assert
    assert!(result.is_err());
    if let Err(AppError::SearchKeywordInvalid(msg)) = result {
        assert!(msg.contains("100자"));
    } else {
        panic!("Expected SearchKeywordInvalid error");
    }
}

#[test]
fn should_pass_when_keyword_is_exactly_100_chars() {
    // Arrange
    let keyword = "가".repeat(100);

    // Act
    let result = RetrospectService::validate_search_keyword(Some(&keyword));

    // Assert
    assert!(result.is_ok());
    assert_eq!(result.unwrap(), keyword);
}

#[test]
fn should_fail_when_keyword_is_whitespace_only() {
    // Arrange & Act
    let result = RetrospectService::validate_search_keyword(Some("   \t\n  "));

    // Assert
    assert!(result.is_err());
    assert!(matches!(result, Err(AppError::SearchKeywordInvalid(_))));
}

#[test]
fn should_trim_keyword_with_leading_trailing_whitespace() {
    // Arrange & Act
    let result = RetrospectService::validate_search_keyword(Some("  스프린트  "));

    // Assert
    assert!(result.is_ok());
    assert_eq!(result.unwrap(), "스프린트");
}

#[test]
fn should_pass_valid_keyword() {
    // Arrange & Act
    let result = RetrospectService::validate_search_keyword(Some("스프린트 회고"));

    // Assert
    assert!(result.is_ok());
    assert_eq!(result.unwrap(), "스프린트 회고");
}

#[test]
fn should_display_kpt_as_kpt() {
    // Arrange

    // Act
    let result = RetrospectService::retrospect_method_display(&RetrospectMethod::Kpt);

    // Assert
    assert_eq!(result, "KPT");
}

#[test]
fn should_display_four_l_as_4l() {
    // Arrange

    // Act
    let result = RetrospectService::retrospect_method_display(&RetrospectMethod::FourL);

    // Assert
    assert_eq!(result, "4L");
}

#[test]
fn should_display_five_f_as_5f() {
    // Arrange

    // Act
    let result = RetrospectService::retrospect_method_display(&RetrospectMethod::FiveF);

    // Assert
    assert_eq!(result, "5F");
}

#[test]
fn should_display_pmi_as_pmi() {
    // Arrange

    // Act
    let result = RetrospectService::retrospect_method_display(&RetrospectMethod::Pmi);

    // Assert
    assert_eq!(result, "PMI");
}

#[test]
fn should_display_free_as_free() {
    // Arrange

    // Act
    let result = RetrospectService::retrospect_method_display(&RetrospectMethod::Free);

    // Assert
    assert_eq!(result, "Free");
}
