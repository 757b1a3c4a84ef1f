//! Cases for the rest of the library: rooms, participation, reactions, plans and payments,
//! the archive, limits and settings.
use moalog::analysis::{
    check_analysis, collect_member_answers, missions_text, personal_insight_for, sort_missions_by_user, MissionItem,
    PersonalMissionItem,
};
use moalog::assistant::GuideType;
use moalog::deletion::DeletionStep;
use moalog::params::PathId;
use moalog::config::{parse_bool, parse_i64, parse_u16, AppConfig, ConfigError, EnvValues};
use moalog::detail::RetrospectListItem;
use moalog::error::AppError;
use moalog::method::RetrospectMethod;
use moalog::model::{MemberRetroRow, MemberRoomRow, RetrospectRow, RetrospectStatus, RoomRole};
use moalog::participation::QUESTIONS_PER_RETROSPECT;
use moalog::payment::{FluxPayRecord, FluxPayTarget, SubscriptionRow, SubscriptionStatus, WebhookAction};
use moalog::plan::{PlanName, PlanResponse};
use moalog::rate_limit::{
    ai_global_verdict, ai_user_verdict, client_ip, global_limit_decision, global_limit_key, limit_check_url,
    limit_exceeded_body, request_id, user_limit_key, AiFeature, RateLimitCheckResponse,
};
use moalog::report::{build_report, GapSize, ReportBlock, ReportStyle};
use moalog::responses::{
    build_response_list, response_ids_increasing, select_response_page, MemberResponseRow, MemberRow, ResponseCategory, ResponseRow,
};
use moalog::rooms::{sort_room_members, RetroRoomOrderItem};
use moalog::service::{PaymentService, RetrospectService};
use moalog::social::{CommentRow, ResponseLikes};
use moalog::storage::text_less;
use moalog::time::{format_date, format_display, format_hm, format_iso, month_start, year_of};
use moalog::validate::{DraftItem, SubmitAnswerItem};

/// 2026-01-15T10:00:00 as seconds since 1970.
const JAN_15_2026_10H: i64 = 1_768_471_200;

fn member(id: i64, nickname: Option<&str>) -> MemberRow {
    MemberRow { member_id: id, nickname: nickname.map(|n| n.to_string()) }
}

fn membership(id: i64, member_id: Option<i64>, role: RoomRole, created_at: i64) -> MemberRoomRow {
    MemberRoomRow { member_retro_room_id: id, member_id, retrospect_room_id: 1, role, order_index: 0, created_at }
}

fn retro(id: i64, title: &str, created_at: i64) -> RetrospectRow {
    RetrospectRow {
        retrospect_id: id,
        retrospect_room_id: 7,
        title: title.to_string(),
        insight: None,
        retrospect_method: RetrospectMethod::Kpt,
        start_time: created_at,
        created_at,
        updated_at: created_at,
    }
}

fn participation(id: i64, member_id: Option<i64>, retrospect_id: i64, status: RetrospectStatus, at: Option<i64>) -> MemberRetroRow {
    MemberRetroRow { member_retro_id: id, member_id, retrospect_id, status, personal_insight: None, submitted_at: at }
}

fn answer(id: i64, question: &str, content: &str) -> ResponseRow {
    ResponseRow { response_id: id, question: question.to_string(), content: content.to_string() }
}

// ----- invite codes -----

#[test]
fn generated_invite_codes_are_valid_and_read_back() {
    for _ in 0..20 {
        let code = RetrospectService::generate_invite_code();
        assert_eq!(code.len(), 13);
        assert!(RetrospectService::is_valid_invite_code(&code));
        assert_eq!(RetrospectService::extract_invite_code(&code).unwrap(), code);
    }
}

#[test]
fn invite_code_is_found_in_a_path() {
    let r = RetrospectService::extract_invite_code("https://moalog.me/join/INV-AB12-9XYZ");
    assert_eq!(r.unwrap(), "INV-AB12-9XYZ");
}

#[test]
fn invite_code_is_found_in_a_query_parameter() {
    let r = RetrospectService::extract_invite_code("https://moalog.me/join?code=INV-1234-5678&from=share");
    assert_eq!(r.unwrap(), "INV-1234-5678");
}

#[test]
fn malformed_invite_links_are_refused() {
    assert!(matches!(
        RetrospectService::extract_invite_code("https://moalog.me/join?code=INV-12-34"),
        Err(AppError::InvalidInviteLink(_))
    ));
    assert!(matches!(RetrospectService::extract_invite_code("https://moalog.me/"), Err(AppError::InvalidInviteLink(_))));
    assert!(!RetrospectService::is_valid_invite_code("INV-12345678"));
    assert!(!RetrospectService::is_valid_invite_code("INV-12_4-5678"));
}

#[test]
fn a_fresh_invite_code_avoids_those_in_use() {
    let taken = vec!["INV-0000-0000".to_string()];
    let code = RetrospectService::choose_invite_code(&taken).unwrap();
    assert!(RetrospectService::is_valid_invite_code(&code));
    assert_ne!(code, "INV-0000-0000");
}

// ----- rooms -----

#[test]
fn joining_checks_room_expiry_and_membership() {
    let now = JAN_15_2026_10H;
    assert!(matches!(RetrospectService::check_join(None, now, false), Err(AppError::RetroRoomNotFound(_))));
    assert!(matches!(
        RetrospectService::check_join(Some(now - 604_800), now, false),
        Err(AppError::ExpiredInviteLink(_))
    ));
    assert!(RetrospectService::check_join(Some(now - 604_799), now, false).is_ok());
    assert!(matches!(RetrospectService::check_join(Some(now), now, true), Err(AppError::AlreadyMember(_))));
}

#[test]
fn only_owners_rename_and_delete_rooms() {
    assert!(matches!(RetrospectService::check_rename(false, None, false), Err(AppError::RetroRoomNotFound(_))));
    assert!(matches!(
        RetrospectService::check_rename(true, Some(RoomRole::Member), false),
        Err(AppError::NoRoomPermission(_))
    ));
    assert!(matches!(
        RetrospectService::check_rename(true, Some(RoomRole::Owner), true),
        Err(AppError::RetroRoomNameDuplicate(_))
    ));
    assert!(RetrospectService::check_rename(true, Some(RoomRole::Owner), false).is_ok());
    assert!(matches!(RetrospectService::check_room_delete(true, None), Err(AppError::NoPermission(_))));
    assert!(RetrospectService::check_room_delete(true, Some(RoomRole::Owner)).is_ok());
    assert!(matches!(RetrospectService::check_room_title_free(true), Err(AppError::RetroRoomNameDuplicate(_))));
}

#[test]
fn room_order_changes_are_checked_in_order() {
    let orders = vec![
        RetroRoomOrderItem { retro_room_id: 1, order_index: 1 },
        RetroRoomOrderItem { retro_room_id: 2, order_index: 1 },
    ];
    assert!(matches!(RetrospectService::check_room_order(&orders, &[1, 2], &[1, 2]), Err(AppError::InvalidOrderData(_))));
    let orders = vec![
        RetroRoomOrderItem { retro_room_id: 1, order_index: 1 },
        RetroRoomOrderItem { retro_room_id: 3, order_index: 2 },
    ];
    assert!(matches!(RetrospectService::check_room_order(&orders, &[1, 2], &[1, 2]), Err(AppError::RetroRoomNotFound(_))));
    assert!(matches!(RetrospectService::check_room_order(&orders, &[1, 3], &[1]), Err(AppError::NoPermission(_))));
    assert!(RetrospectService::check_room_order(&orders, &[1, 3], &[3, 1]).is_ok());
}

#[test]
fn member_list_puts_owners_first_then_earlier_joins() {
    let rows = vec![
        membership(1, Some(10), RoomRole::Member, 300),
        membership(2, Some(11), RoomRole::Owner, 500),
        membership(3, Some(12), RoomRole::Member, 100),
        membership(4, Some(13), RoomRole::Member, 100),
        membership(5, None, RoomRole::Member, 50),
        membership(6, Some(99), RoomRole::Member, 60),
    ];
    let sorted = sort_room_members(&rows);
    let ids: Vec<i64> = sorted.iter().map(|m| m.member_retro_room_id).collect();
    assert_eq!(ids, vec![2, 5, 6, 3, 4, 1]);
    let members = vec![member(10, Some("a")), member(11, Some("")), member(12, None), member(13, Some("d"))];
    let list = RetrospectService::list_room_members(&rows, &members);
    let shown: Vec<(i64, String, String)> = list.iter().map(|m| (m.member_id, m.nickname.clone(), m.role.clone())).collect();
    assert_eq!(
        shown,
        vec![
            (11, "Unknown".to_string(), "OWNER".to_string()),
            (12, "Unknown".to_string(), "MEMBER".to_string()),
            (13, "d".to_string(), "MEMBER".to_string()),
            (10, "a".to_string(), "MEMBER".to_string()),
        ]
    );
    assert_eq!(list[0].joined_at, "1970-01-01T00:08:20");
}

// ----- participation -----

#[test]
fn registering_needs_a_future_start_and_no_earlier_registration() {
    let now = JAN_15_2026_10H;
    assert!(matches!(
        RetrospectService::check_participation(now + 32_400, now, false),
        Err(AppError::RetrospectAlreadyStarted(_))
    ));
    assert!(matches!(
        RetrospectService::check_participation(now + 32_401, now, true),
        Err(AppError::ParticipantDuplicate(_))
    ));
    assert!(RetrospectService::check_participation(now + 32_401, now, false).is_ok());
}

#[test]
fn nickname_is_the_part_before_the_at_sign() {
    assert_eq!(RetrospectService::nickname_from_email("moa.log@example.com"), "moa.log");
    assert_eq!(RetrospectService::nickname_from_email("no-at-sign"), "no-at-sign");
    assert_eq!(RetrospectService::nickname_from_email("@x"), "");
}

#[test]
fn drafts_write_their_questions_answers() {
    let ids = [101, 102, 103, 104, 105];
    let drafts = vec![
        DraftItem { question_number: 3, content: Some("셋".to_string()) },
        DraftItem { question_number: 1, content: None },
    ];
    let updates = RetrospectService::plan_draft_save(true, &ids, &drafts).unwrap();
    assert_eq!(updates.len(), 2);
    assert_eq!((updates[0].response_id, updates[0].content.as_str()), (103, "셋"));
    assert_eq!((updates[1].response_id, updates[1].content.as_str()), (101, ""));
    match RetrospectService::plan_draft_save(true, &ids[..4], &drafts) {
        Err(AppError::InternalError(m)) => assert_eq!(m, "질문-응답 매핑 불일치: 예상 5개, 실제 4개"),
        _ => panic!("expected a mismatch"),
    }
    assert!(matches!(RetrospectService::plan_draft_save(false, &ids, &drafts), Err(AppError::RetroRoomAccessDenied(_))));
}

#[test]
fn a_submission_writes_every_answer_once() {
    let ids = [11, 12, 13, 14, 15];
    let answers: Vec<SubmitAnswerItem> =
        (1..=5).rev().map(|i| SubmitAnswerItem { question_number: i, content: format!("답 {}", i) }).collect();
    let updates = RetrospectService::plan_submit(RetrospectStatus::Draft, &ids, &answers).unwrap();
    let mut written: Vec<i64> = updates.iter().map(|u| u.response_id).collect();
    written.sort();
    assert_eq!(written, ids.to_vec());
    assert_eq!(updates[0].content, "답 5");
    assert_eq!(updates[0].response_id, 15);
    assert_eq!(QUESTIONS_PER_RETROSPECT, 5);
    assert!(matches!(
        RetrospectService::plan_submit(RetrospectStatus::Analyzed, &ids, &answers),
        Err(AppError::RetroAlreadySubmitted(_))
    ));
    assert!(matches!(RetrospectService::plan_submit(RetrospectStatus::Draft, &ids[..3], &answers), Err(AppError::InternalError(_))));
}

// ----- comments and likes -----

#[test]
fn comments_must_have_text_and_at_most_200_characters() {
    assert!(matches!(RetrospectService::validate_comment(" \n"), Err(AppError::BadRequest(_))));
    assert!(matches!(RetrospectService::validate_comment(&"가".repeat(201)), Err(AppError::CommentTooLong(_))));
    assert!(RetrospectService::validate_comment(&"가".repeat(200)).is_ok());
    assert!(matches!(RetrospectService::check_comment_page_size(0), Err(AppError::BadRequest(_))));
    assert!(RetrospectService::check_comment_page_size(100).is_ok());
}

#[test]
fn comment_pages_follow_each_other() {
    let rows: Vec<CommentRow> = (1..=5)
        .map(|i| CommentRow { response_comment_id: i, member_id: 10 + (i % 2), content: format!("c{}", i), created_at: 0 })
        .collect();
    let members = vec![member(10, Some("짝"))];
    let first = RetrospectService::list_comment_page(&rows, &members, None, 2);
    let ids: Vec<i64> = first.comments.iter().map(|c| c.comment_id).collect();
    assert_eq!(ids, vec![5, 4]);
    assert!(first.has_next);
    assert_eq!(first.next_cursor, Some(4));
    assert_eq!(first.comments[0].user_name, "Unknown");
    assert_eq!(first.comments[1].user_name, "짝");
    assert_eq!(first.comments[0].created_at, "1970-01-01T09:00:00");
    let second = RetrospectService::list_comment_page(&rows, &members, first.next_cursor, 2);
    let ids: Vec<i64> = second.comments.iter().map(|c| c.comment_id).collect();
    assert_eq!(ids, vec![3, 2]);
    let third = RetrospectService::list_comment_page(&rows, &members, second.next_cursor, 2);
    let ids: Vec<i64> = third.comments.iter().map(|c| c.comment_id).collect();
    assert_eq!(ids, vec![1]);
    assert!(!third.has_next);
    assert_eq!(third.next_cursor, None);
}

#[test]
fn toggling_a_like_twice_restores_it() {
    let mut likes = ResponseLikes::from_members(&[3, 4, 3]);
    assert_eq!(likes.count(), 2);
    let r = RetrospectService::toggle_like(9, &mut likes, 5);
    assert!(r.is_liked);
    assert_eq!(r.total_likes, 3);
    assert_eq!(r.response_id, 9);
    let r = RetrospectService::toggle_like(9, &mut likes, 5);
    assert!(!r.is_liked);
    assert_eq!(r.total_likes, 2);
    assert!(likes.is_liked(3) && likes.is_liked(4) && !likes.is_liked(5));
    assert!(matches!(RetrospectService::check_like_access(None, true, true), Err(AppError::ResponseNotFound(_))));
}

#[test]
fn response_access_reports_the_broken_link() {
    match RetrospectService::check_response_access(5, Some(8), false, true) {
        Err(AppError::InternalError(m)) => {
            assert_eq!(m, "데이터 정합성 오류: response_id=5에 연결된 retrospect_id=8가 존재하지 않습니다.")
        },
        _ => panic!("expected the inconsistency"),
    }
    assert!(matches!(RetrospectService::check_response_access(5, Some(8), true, false), Err(AppError::RetroRoomAccessDenied(_))));
}

// ----- answers list -----

#[test]
fn answer_pages_skip_blank_answers_and_follow_each_other() {
    let rows = vec![
        answer(1, "Q1", "a"),
        answer(2, "Q2", " "),
        answer(3, "Q1", "b"),
        answer(4, "Q1", "c"),
        answer(5, "Q2", "d"),
    ];
    let mrs = vec![MemberResponseRow { response_id: 1, member_id: Some(7) }, MemberResponseRow { response_id: 2, member_id: Some(7) }];
    let page = select_response_page(&rows, &mrs, ResponseCategory::Question1, None, 2);
    let ids: Vec<i64> = page.rows.iter().map(|r| r.response_id).collect();
    assert_eq!(ids, vec![4, 3]);
    assert!(page.has_next);
    let list = build_response_list(page, &mrs, &vec![member(7, Some("칠"))], &vec![(4, 2)], &vec![]);
    assert_eq!(list.next_cursor, Some(3));
    assert_eq!(list.responses[0].like_count, 2);
    let next = select_response_page(&rows, &mrs, ResponseCategory::Question1, list.next_cursor, 2);
    let ids: Vec<i64> = next.rows.iter().map(|r| r.response_id).collect();
    assert_eq!(ids, vec![1]);
    assert!(!next.has_next);
    let all = select_response_page(&rows, &mrs, ResponseCategory::All, None, 10);
    assert_eq!(all.rows.len(), 4);
}

// ----- plans and payments -----

#[test]
fn plans_are_listed_cheapest_first() {
    let plans: Vec<PlanResponse> = PaymentService::list_plans();
    let names: Vec<&str> = plans.iter().map(|p| p.name.as_str()).collect();
    assert_eq!(names, vec!["FREE", "PRO", "TEAM"]);
    assert_eq!(plans[0].ai_analysis_limit, 3);
    assert_eq!(plans[1].ai_assistant_limit, -1);
    assert_eq!(plans[2].max_room_members, -1);
    assert_eq!(plans[2].monthly_price, 29_900);
    assert!(!plans[0].pdf_export_enabled && plans[1].pdf_export_enabled);
    assert_eq!(plans[1].display_name, "Pro");
}

#[test]
fn plan_names_are_read_in_any_case() {
    assert_eq!(PlanName::from_str_value("free"), Some(PlanName::Free));
    assert_eq!(PlanName::from_str_value("Pro"), Some(PlanName::Pro));
    assert_eq!(PlanName::from_str_value("TEAM"), Some(PlanName::Team));
    assert_eq!(PlanName::from_str_value("gold"), None);
}

#[test]
fn subscription_changes_are_checked() {
    assert!(matches!(PaymentService::plan_subscription("gold", None), Err(AppError::InvalidPlan(_))));
    assert!(matches!(
        PaymentService::plan_subscription("pro", Some(PlanName::Pro)),
        Err(AppError::SubscriptionAlreadyActive(_))
    ));
    let c = PaymentService::plan_subscription("team", Some(PlanName::Pro)).unwrap();
    assert!(c.cancel_current && c.plan == PlanName::Team);
    let c = PaymentService::plan_subscription("free", None).unwrap();
    assert!(!c.cancel_current && c.plan == PlanName::Free);
    assert!(matches!(PaymentService::cancel_subscription(None, 5), Err(AppError::SubscriptionNotFound(_))));
    assert!(matches!(PaymentService::cancel_subscription(Some(subscription(PlanName::Free)), 5), Err(AppError::InvalidPlan(_))));
    let cancelled = PaymentService::cancel_subscription(Some(subscription(PlanName::Pro)), 5).unwrap();
    assert_eq!((cancelled.status, cancelled.cancelled_at, cancelled.updated_at), (SubscriptionStatus::Cancelled, Some(5), 5));
    assert_eq!(cancelled.fluxpay_order_id.as_deref(), Some("o"));
    let req = moalog::payment::CreateSubscriptionRequest { plan_name: String::new() };
    assert!(matches!(req.validate(), Err(AppError::BadRequest(_))));
    let answer = PaymentService::plans_answer();
    assert_eq!((answer.code.as_str(), answer.result.len()), ("COMMON200", 3));
    assert!(PaymentService::cancel_answer().result.is_none());
    assert_eq!(PaymentService::get_member_plan(None), PlanName::Free);
}

#[test]
fn a_paid_plan_orders_one_month() {
    let o = PaymentService::order_request(42, PlanName::Pro);
    assert_eq!(o.user_id, "42");
    assert_eq!(o.currency, "KRW");
    assert_eq!(o.line_items.len(), 1);
    assert_eq!(o.line_items[0].product_id, "plan_pro");
    assert_eq!(o.line_items[0].product_name, "Moalog Pro 플랜 (월간)");
    assert_eq!(o.line_items[0].unit_price, 9_900);
    let p = PaymentService::payment_request("ord-1".to_string(), PlanName::Team);
    assert_eq!((p.order_id.as_str(), p.amount, p.currency.as_str()), ("ord-1", 29_900, "KRW"));
    let target = FluxPayTarget { base_url: "http://pay".to_string(), enabled: true };
    assert_eq!(target.orders_url().unwrap(), "http://pay/api/v1/orders");
    assert_eq!(target.payment_url("p9").unwrap(), "http://pay/api/v1/payments/p9");
    let off = FluxPayTarget { base_url: "http://pay".to_string(), enabled: false };
    assert!(matches!(off.payments_url(), Err(AppError::FluxPayServiceError(_))));
    assert!(matches!(PaymentService::order_reply(None), Err(AppError::PaymentFailed(_))));
    let rec = PaymentService::payment_reply(Some(FluxPayRecord { id: "x".to_string(), status: "OK".to_string() })).unwrap();
    assert_eq!(rec.id, "x");
}

#[test]
fn webhooks_activate_or_expire_subscriptions() {
    assert_eq!(PaymentService::webhook_action(true, "payment.confirmed"), WebhookAction::Activate);
    assert_eq!(PaymentService::webhook_action(true, "payment.failed"), WebhookAction::Expire);
    assert_eq!(PaymentService::webhook_action(true, "payment.refunded"), WebhookAction::Ignore);
    assert_eq!(PaymentService::webhook_action(false, "payment.confirmed"), WebhookAction::Ignore);
    let mut sub = subscription(PlanName::Pro);
    PaymentService::apply_webhook(&mut sub, WebhookAction::Activate, 100);
    assert_eq!(sub.status, SubscriptionStatus::Active);
    assert_eq!((sub.started_at, sub.updated_at), (100, 100));
    let shown = PaymentService::to_subscription_response(&sub);
    assert_eq!(shown.started_at, "1970-01-01 00:01:40");
    PaymentService::cancel_at(&mut sub, 200);
    assert_eq!(sub.status, SubscriptionStatus::Cancelled);
    assert_eq!(sub.cancelled_at, Some(200));
    let payload = |event: &str| moalog::payment::FluxPayWebhookPayload {
        event_type: event.to_string(),
        order_id: "o".to_string(),
        payment_id: "p".to_string(),
        status: "DONE".to_string(),
    };
    let failed = PaymentService::handle_fluxpay_webhook(Some(subscription(PlanName::Team)), &payload("payment.failed"), 7).unwrap();
    assert_eq!((failed.status, failed.updated_at, failed.started_at), (SubscriptionStatus::Expired, 7, 0));
    assert!(PaymentService::handle_fluxpay_webhook(Some(subscription(PlanName::Team)), &payload("x"), 7).is_none());
    assert!(PaymentService::handle_fluxpay_webhook(None, &payload("payment.confirmed"), 7).is_none());
    let none = PaymentService::get_subscription(None);
    assert_eq!((none.subscription_id, none.plan_name, none.status), (0, PlanName::Free, SubscriptionStatus::Active));
}

fn subscription(plan: PlanName) -> SubscriptionRow {
    SubscriptionRow {
        subscription_id: 1,
        member_id: 2,
        plan_name: plan,
        status: SubscriptionStatus::Pending,
        fluxpay_order_id: Some("o".to_string()),
        fluxpay_payment_id: None,
        started_at: 0,
        expires_at: None,
        cancelled_at: None,
        created_at: 0,
        updated_at: 0,
    }
}

// ----- assistant -----

#[test]
fn the_assistant_checks_come_in_order() {
    let kpt = Some(RetrospectMethod::Kpt);
    let draft = Some(RetrospectStatus::Draft);
    assert!(matches!(RetrospectService::prepare_assistant_guide(0, 1, kpt, draft, 0, Some(3)), Err(AppError::BadRequest(_))));
    assert!(matches!(RetrospectService::prepare_assistant_guide(1, 6, kpt, draft, 0, Some(3)), Err(AppError::QuestionNotFound(_))));
    assert!(matches!(RetrospectService::prepare_assistant_guide(1, 1, None, draft, 0, Some(3)), Err(AppError::RetrospectNotFound(_))));
    assert!(matches!(RetrospectService::prepare_assistant_guide(1, 1, kpt, None, 0, Some(3)), Err(AppError::RetroRoomAccessDenied(_))));
    assert!(matches!(
        RetrospectService::prepare_assistant_guide(1, 1, kpt, Some(RetrospectStatus::Submitted), 0, Some(3)),
        Err(AppError::RetroAlreadySubmitted(_))
    ));
    assert!(matches!(
        RetrospectService::prepare_assistant_guide(1, 1, kpt, draft, 3, Some(3)),
        Err(AppError::AiAssistantLimitExceeded(_))
    ));
    let q = RetrospectService::prepare_assistant_guide(1, 2, kpt, draft, 30, None).unwrap();
    assert_eq!(q, RetrospectMethod::Kpt.default_questions()[1]);
}

#[test]
fn the_assistant_reports_the_guide_kind_and_uses_left() {
    assert_eq!(RetrospectService::finish_assistant_guide(2, Some(3), None).unwrap(), (GuideType::Initial, 1));
    assert_eq!(RetrospectService::finish_assistant_guide(3, Some(3), Some("  ")).unwrap(), (GuideType::Initial, 0));
    assert_eq!(RetrospectService::finish_assistant_guide(7, None, Some("초안")).unwrap(), (GuideType::Personalized, -1));
    assert!(matches!(RetrospectService::finish_assistant_guide(4, Some(3), None), Err(AppError::AiAssistantLimitExceeded(_))));
    // 2026-01-31T16:00:00 UTC is already February in Korea.
    let now = 1_769_875_200;
    assert_eq!(RetrospectService::current_usage_month_start(now).unwrap(), 1_769_871_600);
}

// ----- archive, detail and lists -----

#[test]
fn the_archive_groups_by_year_newest_first() {
    let y2024 = 1_719_792_000; // 2024-07-01T00:00:00
    let y2025 = 1_751_328_000; // 2025-07-01T00:00:00
    let mrs = vec![
        participation(1, Some(9), 1, RetrospectStatus::Submitted, Some(y2024)),
        participation(2, Some(9), 2, RetrospectStatus::Analyzed, Some(y2025)),
        participation(3, Some(9), 3, RetrospectStatus::Submitted, Some(y2025 + 86_400)),
        participation(4, Some(9), 4, RetrospectStatus::Draft, Some(y2025)),
    ];
    let retros = vec![retro(1, "a", 0), retro(2, "b", 0), retro(3, "c", 0), retro(4, "d", 0)];
    let parts = vec![
        participation(1, Some(9), 2, RetrospectStatus::Analyzed, None),
        participation(5, Some(8), 2, RetrospectStatus::Draft, None),
    ];
    let groups = RetrospectService::build_storage(&mrs, None, &retros, &parts);
    let labels: Vec<&str> = groups.iter().map(|g| g.year_label.as_str()).collect();
    assert_eq!(labels, vec!["2025년", "2024년"]);
    let first: Vec<(i64, &str, i64)> =
        groups[0].retrospects.iter().map(|r| (r.retrospect_id, r.display_date.as_str(), r.member_count)).collect();
    assert_eq!(first, vec![(3, "2025-07-02", 0), (2, "2025-07-01", 2)]);
    let recent = RetrospectService::build_storage(&mrs, Some(y2025), &retros, &parts);
    assert_eq!(recent.len(), 1);
    assert_eq!(RetrospectService::storage_cutoff(1_000_000, Some(7)), Some(395_200));
}

#[test]
fn year_labels_sort_as_text() {
    assert!(text_less("999년", "2024년") == false);
    assert!(text_less("2024년", "999년"));
    assert!(text_less("ab", "abc"));
    assert!(!text_less("abc", "abc"));
}

#[test]
fn the_detail_page_lists_questions_and_participants() {
    let r = retro(1, "스프린트", 1_768_435_200);
    let mrs = vec![
        participation(1, Some(2), 1, RetrospectStatus::Draft, None),
        participation(2, None, 1, RetrospectStatus::Draft, None),
        participation(3, Some(3), 1, RetrospectStatus::Draft, None),
        participation(4, Some(4), 1, RetrospectStatus::Draft, None),
    ];
    let members = vec![member(2, Some("둘")), member(3, Some(""))];
    let rows = vec![
        answer(1, "Q1", ""),
        answer(2, "Q2", ""),
        answer(3, "Q1", ""),
        answer(4, "Q3", ""),
        answer(5, "Q4", ""),
        answer(6, "Q5", ""),
        answer(7, "Q6", ""),
    ];
    let d = RetrospectService::build_retrospect_detail(&r, &mrs, &members, &rows, 4, 5);
    assert_eq!(d.start_time, "2026-01-15");
    let people: Vec<(i64, &str)> = d.members.iter().map(|m| (m.member_id, m.user_name.as_str())).collect();
    assert_eq!(people, vec![(2, "둘"), (3, "Unknown")]);
    let qs: Vec<(i32, &str)> = d.questions.iter().map(|q| (q.index, q.content.as_str())).collect();
    assert_eq!(qs, vec![(1, "Q1"), (2, "Q2"), (3, "Q3"), (4, "Q4"), (5, "Q5")]);
    assert_eq!((d.total_like_count, d.total_comment_count), (4, 5));
}

#[test]
fn retrospective_lists_show_start_room_and_participants() {
    let retros = vec![retro(1, "A", 1_768_471_200)];
    let list: Vec<RetrospectListItem> =
        RetrospectService::build_retrospect_list(&retros, &vec![(7, "방".to_string())], &vec![(1, 3)]);
    assert_eq!(list[0].retrospect_date, "2026-01-15");
    assert_eq!(list[0].retrospect_time, "10:00");
    assert_eq!(list[0].retro_room_name, "방");
    assert_eq!(list[0].participant_count, 3);
}

// ----- analysis and report -----

#[test]
fn analysis_needs_enough_submitted_answers() {
    let r = retro(1, "A", 0);
    let submitted = vec![participation(1, Some(2), 1, RetrospectStatus::Submitted, Some(0))];
    let rows = vec![answer(1, "Q1", "a"), answer(2, "Q2", "b"), answer(3, "Q3", " ")];
    let res = check_analysis(1, Some(&r), true, 0, PlanName::Free, &submitted, &rows);
    assert!(matches!(res, Err(AppError::RetroInsufficientData(_))));
    let rows = vec![answer(1, "Q1", "a"), answer(2, "Q2", "b"), answer(3, "Q3", "c")];
    assert!(check_analysis(1, Some(&r), true, 0, PlanName::Free, &submitted, &rows).is_ok());
    assert!(matches!(
        check_analysis(1, Some(&r), true, 3, PlanName::Free, &submitted, &rows),
        Err(AppError::AiMonthlyLimitExceeded(_))
    ));
    assert!(check_analysis(1, Some(&r), true, 3, PlanName::Pro, &submitted, &rows).is_ok());
    let data = collect_member_answers(
        &submitted,
        &vec![member(2, Some("이"))],
        &vec![MemberResponseRow { response_id: 2, member_id: Some(2) }],
        &rows,
    );
    assert_eq!(data.len(), 1);
    assert_eq!(data[0].answers, vec![("Q2".to_string(), "b".to_string())]);
}

#[test]
fn personal_insights_join_missions_by_line() {
    let pms = vec![PersonalMissionItem {
        user_id: 2,
        user_name: "이".to_string(),
        missions: vec![
            MissionItem { mission_title: "t1".to_string(), mission_desc: "d1".to_string() },
            MissionItem { mission_title: "t2".to_string(), mission_desc: "d2".to_string() },
        ],
    }];
    assert_eq!(personal_insight_for(&pms, Some(2)).unwrap(), missions_text(&pms[0].missions));
    assert_eq!(missions_text(&pms[0].missions), "t1: d1\nt2: d2");
    assert_eq!(personal_insight_for(&pms, Some(3)), None);
    let more = vec![
        PersonalMissionItem { user_id: 5, user_name: "오".to_string(), missions: vec![] },
        PersonalMissionItem { user_id: 2, user_name: "이".to_string(), missions: vec![] },
        PersonalMissionItem { user_id: 5, user_name: "오2".to_string(), missions: vec![] },
    ];
    let sorted = sort_missions_by_user(more);
    let names: Vec<&str> = sorted.iter().map(|p| p.user_name.as_str()).collect();
    assert_eq!(names, vec!["이", "오", "오2"]);
}

#[test]
fn the_report_starts_with_its_title() {
    let r = retro(1, "스프린트 회고", 1_768_471_200);
    let blocks = build_report(&r, "방", &vec![], &vec![], &vec![answer(1, "Q1", "a")], &vec![]);
    match &blocks[0] {
        ReportBlock::Text(style, text) => {
            assert!(matches!(style, ReportStyle::Title));
            assert_eq!(text, "스프린트 회고 - Retrospect Report");
        },
        _ => panic!("expected the title"),
    }
    assert!(blocks.iter().any(|b| matches!(b, ReportBlock::Gap(GapSize::Large))));
}

// ----- limits and request ids -----

#[test]
fn the_client_address_comes_from_the_proxy_headers() {
    assert_eq!(client_ip(Some(" 1.2.3.4 , 5.6.7.8"), Some("9.9.9.9")), "1.2.3.4");
    assert_eq!(client_ip(None, Some("9.9.9.9")), "9.9.9.9");
    assert_eq!(client_ip(None, None), "unknown");
    assert_eq!(global_limit_key("1.2.3.4"), "global_api:ip:1.2.3.4");
    assert_eq!(
        limit_check_url(true, "http://rl", "k", "SLIDING_WINDOW").unwrap(),
        "http://rl/api/v1/rate-limit/check?key=k&algorithm=SLIDING_WINDOW"
    );
    assert_eq!(limit_check_url(false, "http://rl", "k", "SLIDING_WINDOW"), None);
}

#[test]
fn the_global_limit_fails_open() {
    assert_eq!(global_limit_decision(None), None);
    let allowed = RateLimitCheckResponse { allowed: true, remaining: 3, retry_after_seconds: 0 };
    assert_eq!(global_limit_decision(Some(allowed)), None);
    let refused = RateLimitCheckResponse { allowed: false, remaining: 0, retry_after_seconds: 12 };
    assert_eq!(global_limit_decision(Some(refused)), Some(12));
    let (code, _) = limit_exceeded_body();
    assert_eq!(code, "RATE4291");
}

#[test]
fn ai_limits_name_the_feature() {
    assert!(ai_user_verdict(AiFeature::Analysis, true).is_ok());
    match ai_user_verdict(AiFeature::Guide, false) {
        Err(AppError::RateLimitExceeded(m)) => assert!(m.contains("가이드")),
        _ => panic!("expected the guide limit"),
    }
    assert!(matches!(ai_global_verdict(false), Err(AppError::RateLimitExceeded(_))));
    assert_eq!(user_limit_key(-17), "-17");
}

#[test]
fn ai_limits_allow_a_burst_then_refuse() {
    let limits = moalog::rate_limit::AiRateLimiters::new();
    for _ in 0..3 {
        assert!(limits.check_analysis(1).is_ok());
    }
    match limits.check_analysis(1) {
        Err(AppError::RateLimitExceeded(m)) => assert!(m.contains("분석")),
        _ => panic!("expected the analysis limit"),
    }
    assert!(limits.check_analysis(2).is_ok());
    assert!(limits.check_guide(1).is_ok());
}

#[test]
fn request_ids_are_kept_or_made() {
    assert_eq!(request_id(Some("abc")).0, "abc");
    let made = request_id(None).0;
    assert_eq!(made.len(), 36);
    assert_ne!(made, request_id(None).0);
}

// ----- settings -----

fn env() -> EnvValues {
    EnvValues {
        server_port: None,
        jwt_secret: Some("s3cret".to_string()),
        jwt_expiration: None,
        refresh_token_expiration: None,
        signup_token_expiration: None,
        google_client_id: None,
        google_client_secret: Some("g".to_string()),
        kakao_client_id: None,
        kakao_client_secret: Some("k".to_string()),
        openai_api_key: None,
        rate_limiter_url: None,
        rate_limiter_enabled: Some("maybe".to_string()),
    }
}

#[test]
fn settings_take_their_defaults() {
    let c: AppConfig = AppConfig::from_values(&env(), false).unwrap();
    assert_eq!(c.server_port, 8080);
    assert_eq!((c.jwt_expiration, c.refresh_token_expiration, c.signup_token_expiration), (1800, 1_209_600, 600));
    assert_eq!(c.openai_api_key, "test-key");
    assert_eq!(c.rate_limiter_url, "http://localhost:8082");
    assert!(c.rate_limiter_enabled);
    assert_eq!(c.google_client_id, "");
}

#[test]
fn settings_refuse_bad_values_and_missing_secrets() {
    let mut e = env();
    e.server_port = Some("70000".to_string());
    assert_eq!(AppConfig::from_values(&e, false).unwrap_err(), ConfigError::InvalidPort);
    let mut e = env();
    e.jwt_secret = None;
    assert_eq!(AppConfig::from_values(&e, false).unwrap_err(), ConfigError::MissingJwtSecret);
    assert_eq!(AppConfig::from_values(&e, true).unwrap().jwt_secret, "secret");
    let mut e = env();
    e.signup_token_expiration = Some("ten".to_string());
    assert_eq!(AppConfig::from_values(&e, false).unwrap_err(), ConfigError::InvalidExpiration);
    let mut e = env();
    e.kakao_client_secret = None;
    assert_eq!(AppConfig::from_values(&e, false).unwrap_err(), ConfigError::MissingKakaoClientSecret);
    assert_eq!(ConfigError::InvalidPort.message(), "Invalid port number");
}

#[test]
fn numbers_parse_as_rust_does() {
    for s in ["0", "+8080", "65535", "x", "", "+", "-1", "65536", " 1"] {
        assert_eq!(parse_u16(s), s.parse::<u16>().ok(), "{}", s);
    }
    for s in ["-9223372036854775808", "9223372036854775807", "9223372036854775808", "-0", "+-1", "12a"] {
        assert_eq!(parse_i64(s), s.parse::<i64>().ok(), "{}", s);
    }
    for s in ["true", "false", "True", ""] {
        assert_eq!(parse_bool(s), s.parse::<bool>().ok(), "{}", s);
    }
}

#[test]
fn dates_of_a_request_are_parsed_and_checked() {
    let r = RetrospectService::validate_retrospect_request(&vec!["ftp://x".to_string()], "2099-01-01", "10:00");
    assert!(matches!(r, Err(AppError::RetroUrlInvalid(_))));
    let r = RetrospectService::validate_retrospect_request(&vec![], "2099/01/01", "10:00");
    assert!(matches!(r, Err(AppError::BadRequest(_))));
    let r = RetrospectService::validate_retrospect_request(&vec![], "2099-01-01", "10:00").unwrap();
    assert_eq!(r, ((2099, 1, 1), (10, 0)));
    assert!(matches!(RetrospectService::check_date_not_past((2024, 5, 1), (2024, 5, 2)), Err(AppError::BadRequest(_))));
    assert_eq!(RetrospectService::check_date_not_past((2024, 5, 2), (2024, 5, 2)).unwrap(), (2024, 5, 2));
    assert!(RetrospectService::check_future_datetime((2024, 5, 2), (10, 1), (2024, 5, 2, 10, 0, 59)).is_ok());
    assert!(RetrospectService::check_future_datetime((2024, 5, 2), (10, 0), (2024, 5, 2, 10, 0, 0)).is_err());
    assert_eq!(RetrospectService::kst_date_text(1_768_435_200 - 32_400 + 86_399), "2026-01-15");
    assert_eq!(RetrospectService::report_room_name(None), "(알 수 없음)");
}

#[test]
fn drafts_and_submissions_need_access() {
    assert!(matches!(RetrospectService::check_draft_access(true, false), Err(AppError::RetroRoomAccessDenied(_))));
    assert!(matches!(RetrospectService::check_submit_access(true, false), Err(AppError::RetrospectNotFound(_))));
    assert!(matches!(RetrospectService::check_retrospect_access(true, false), Err(AppError::RetrospectNotFound(_))));
    assert!(matches!(RetrospectService::check_detail_access(true, false), Err(AppError::RetroRoomAccessDenied(_))));
    assert!(matches!(RetrospectService::check_member_list_access(true, false), Err(AppError::RetroRoomAccessDenied(_))));
    assert!(matches!(RetrospectService::check_retrospect_list_access(true, false), Err(AppError::NoPermission(_))));
    assert!(matches!(RetrospectService::check_retrospect_create_access(false, true), Err(AppError::NotFound(_))));
}

// ----- deletions -----

#[test]
fn deleting_a_retrospective_removes_dependents_first() {
    let plan = RetrospectService::plan_retrospect_deletion(4, 9, &[40, 41], 0);
    assert_eq!(plan.len(), 10);
    assert!(matches!(&plan[0], DeletionStep::CommentsOfResponses(v) if v == &vec![40, 41]));
    assert!(matches!(&plan[3], DeletionStep::ResponsesOfRetrospects(v) if v == &vec![4]));
    assert!(matches!(&plan[7], DeletionStep::Retrospects(v) if v == &vec![4]));
    assert!(matches!(&plan[8], DeletionStep::MemberRoomsOfRoom(9)));
    assert!(matches!(&plan[9], DeletionStep::Room(9)));
    let keep_room = RetrospectService::plan_retrospect_deletion(4, 9, &[], 2);
    assert_eq!(keep_room.len(), 5);
    assert!(!keep_room.iter().any(|s| matches!(s, DeletionStep::Room(_))));
    let room = RetrospectService::plan_room_deletion(9, &[], &[]);
    assert_eq!(room.len(), 2);
    let room = RetrospectService::plan_room_deletion(9, &[4, 5], &[40]);
    assert_eq!(room.len(), 9);
    assert!(matches!(&room[3], DeletionStep::ResponsesOfRetrospects(v) if v == &vec![4, 5]));
}

// ----- request parameters -----

#[test]
fn request_parameters_are_checked() {
    match RetrospectService::check_path_id(PathId::Response, 0) {
        Err(AppError::BadRequest(m)) => assert_eq!(m, "responseId는 1 이상의 양수여야 합니다."),
        _ => panic!("expected a bad id"),
    }
    assert!(RetrospectService::check_path_id(PathId::Retrospect, 1).is_ok());
    assert!(matches!(RetrospectService::check_page_params(Some(0), None, 10), Err(AppError::BadRequest(_))));
    assert_eq!(RetrospectService::check_page_params(None, None, 20).unwrap(), 20);
    assert!(matches!(RetrospectService::check_page_params(Some(3), Some(101), 10), Err(AppError::BadRequest(_))));
    assert_eq!(RetrospectService::check_page_params(Some(3), Some(100), 10).unwrap(), 100);
    assert_eq!(RetrospectService::parse_user_id("42").unwrap(), 42);
    assert!(matches!(RetrospectService::parse_user_id("abc"), Err(AppError::Unauthorized(_))));
}

#[test]
fn the_room_list_skips_rooms_that_are_gone() {
    let mut a = membership(1, Some(5), RoomRole::Owner, 0);
    a.retrospect_room_id = 10;
    a.order_index = 2;
    let mut b = membership(2, Some(5), RoomRole::Member, 0);
    b.retrospect_room_id = 11;
    b.order_index = 3;
    let list = RetrospectService::build_room_list(&[a, b], &vec![(10, "팀".to_string())]);
    assert_eq!(list.len(), 1);
    assert_eq!((list[0].retro_room_id, list[0].retro_room_name.as_str(), list[0].order_index), (10, "팀", 2));
}

#[test]
fn guide_limit_allows_a_burst_of_ten_per_user() {
    let limits = moalog::rate_limit::AiRateLimiters::new();
    for _ in 0..10 {
        assert!(limits.check_guide(7).is_ok());
    }
    match limits.check_guide(7) {
        Err(AppError::RateLimitExceeded(m)) => assert!(m.contains("가이드")),
        _ => panic!("expected the guide limit"),
    }
    assert!(limits.check_guide(8).is_ok());
}

#[test]
fn invite_code_is_read_between_any_prefix_and_suffix() {
    for _ in 0..10 {
        let code = RetrospectService::generate_invite_code();
        let link = format!("https://moalog.me/초대/{}?from=카톡&x=1", code);
        assert!(!RetrospectService::invite_link_cuts_character(&link));
        assert_eq!(RetrospectService::extract_invite_code(&link).unwrap(), code);
    }
}

#[test]
fn a_link_that_would_cut_a_character_is_detected() {
    assert!(RetrospectService::invite_link_cuts_character("INV-1234-567한"));
    assert!(!RetrospectService::invite_link_cuts_character("INV-1234-5678한"));
    assert!(!RetrospectService::invite_link_cuts_character("no code here 한"));
    assert!(!RetrospectService::invite_link_cuts_character("INV-12"));
}

#[test]
fn the_free_plan_needs_no_payment() {
    assert!(!PaymentService::needs_payment(PlanName::Free));
    assert!(PaymentService::needs_payment(PlanName::Pro));
    assert!(PaymentService::needs_payment(PlanName::Team));
    assert_eq!(PaymentService::new_subscription_status(PlanName::Free), SubscriptionStatus::Active);
    assert_eq!(PaymentService::new_subscription_status(PlanName::Pro), SubscriptionStatus::Pending);
    assert_eq!(PaymentService::new_subscription_status(PlanName::Team), SubscriptionStatus::Pending);
}

#[test]
fn an_answer_page_holds_the_newest_answers_first() {
    let rows = vec![
        answer(2, "Q1", "a"),
        answer(5, "Q1", "b"),
        answer(7, "Q1", "  "),
        answer(9, "Q1", "c"),
        answer(11, "Q1", "d"),
    ];
    let mrs: Vec<MemberResponseRow> = vec![];
    let page = select_response_page(&rows, &mrs, ResponseCategory::All, Some(11), 2);
    let ids: Vec<i64> = page.rows.iter().map(|r| r.response_id).collect();
    assert_eq!(ids, vec![9, 5]);
    assert!(page.has_next);
    let last = select_response_page(&rows, &mrs, ResponseCategory::All, Some(11), 3);
    assert_eq!(last.rows.len(), 3);
    assert!(!last.has_next);
    let none = select_response_page(&rows, &mrs, ResponseCategory::Question5, None, 3);
    assert!(none.rows.is_empty() && !none.has_next);
}

#[test]
fn a_like_toggle_moves_the_count_by_one() {
    let mut likes = ResponseLikes::new();
    assert_eq!(likes.count(), 0);
    let r = RetrospectService::toggle_like(1, &mut likes, 8);
    assert!(r.is_liked);
    assert_eq!(r.total_likes, 1);
    let r = RetrospectService::toggle_like(1, &mut likes, 8);
    assert!(!r.is_liked);
    assert_eq!(r.total_likes, 0);
}

#[test]
fn missions_are_listed_by_member_id() {
    let item = |id: i64, name: &str| PersonalMissionItem { user_id: id, user_name: name.to_string(), missions: vec![] };
    let sorted = sort_missions_by_user(vec![item(3, "c"), item(1, "a"), item(3, "d"), item(2, "b")]);
    let got: Vec<(i64, String)> = sorted.iter().map(|m| (m.user_id, m.user_name.clone())).collect();
    assert_eq!(
        got,
        vec![(1, "a".to_string()), (2, "b".to_string()), (3, "c".to_string()), (3, "d".to_string())]
    );
}

#[test]
fn deleting_the_last_retrospective_removes_the_room() {
    let last = RetrospectService::plan_retrospect_deletion(4, 2, &[10, 11], 0);
    assert!(last.iter().any(|s| matches!(s, DeletionStep::Room(2))));
    let kept = RetrospectService::plan_retrospect_deletion(4, 2, &[], 1);
    assert!(!kept.iter().any(|s| matches!(s, DeletionStep::Room(_) | DeletionStep::MemberRoomsOfRoom(_))));
    assert!(kept.iter().any(|s| matches!(s, DeletionStep::Retrospects(v) if v == &vec![4])));
}

#[test]
fn calendar_texts_follow_the_calendar_fields() {
    assert_eq!(format_display(0), "1970-01-01 00:00:00");
    assert_eq!(format_iso(1_768_471_205), "2026-01-15T10:00:05");
    assert_eq!(format_hm(1_768_471_205), "10:00");
    assert_eq!(format_date(253_402_300_800), "+10000-01-01");
    assert_eq!(format_date(-62_135_596_800 - 86_400), "0000-12-31");
    assert_eq!(year_of(1_768_471_205), 2026);
    assert_eq!(month_start(1_768_471_205), 1_767_225_600);
    assert_eq!(month_start(1_767_225_600), 1_767_225_600);
}

#[test]
fn with_no_code_in_use_a_fresh_code_is_always_free() {
    for _ in 0..5 {
        let code = RetrospectService::choose_invite_code(&[]).unwrap();
        assert!(RetrospectService::is_valid_invite_code(&code));
    }
    let drawn = vec!["INV-0001-0001".to_string(), "INV-0002-0002".to_string(), "INV-0003-0003".to_string()];
    let taken = vec!["INV-0001-0001".to_string()];
    assert_eq!(RetrospectService::first_free_code(&drawn, &taken), Some(1));
    let all = vec!["INV-0001-0001".to_string(), "INV-0002-0002".to_string()];
    assert_eq!(RetrospectService::first_free_code(&drawn[..2], &all), None);
    assert_eq!(RetrospectService::first_free_code(&[], &all), None);
}

#[test]
fn an_accepted_keyword_is_accepted_again_unchanged() {
    let once = RetrospectService::validate_search_keyword(Some("  회고 \t")).unwrap();
    assert_eq!(once, "회고");
    assert_eq!(RetrospectService::validate_search_keyword(Some(&once)).unwrap(), once);
}

#[test]
fn a_bad_time_is_reported_with_its_format() {
    let r = RetrospectService::validate_retrospect_request(&[], "2999-01-01", "25:00");
    match r {
        Err(AppError::BadRequest(m)) => assert_eq!(m, "시간 형식이 올바르지 않습니다. (HH:mm 형식 필요)"),
        _ => panic!("expected the time format error"),
    }
    let r = RetrospectService::validate_retrospect_request(&[], "2999-01-01", "10:00");
    assert_eq!(r.unwrap(), ((2999, 1, 1), (10, 0)));
}

#[test]
fn answer_order_can_be_checked_before_paging() {
    assert!(response_ids_increasing(&vec![]));
    assert!(response_ids_increasing(&vec![answer(1, "Q1", "a"), answer(4, "Q1", "b"), answer(9, "Q2", "c")]));
    assert!(!response_ids_increasing(&vec![answer(1, "Q1", "a"), answer(9, "Q1", "b"), answer(4, "Q2", "c")]));
    assert!(!response_ids_increasing(&vec![answer(3, "Q1", "a"), answer(3, "Q1", "b")]));
}
