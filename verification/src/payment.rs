//! Subscriptions: their states, what a change asks of the FluxPay payment engine, and what
//! its replies and webhooks do to a subscription.
use vstd::prelude::*;
use crate::error::AppError;
use crate::plan::{PlanName, PlanResponse, spec_display_name, spec_monthly_price};
use crate::service::PaymentService;
use crate::text::{int_to_string, dec_int};
use crate::time::{valid_time, spec_format_display, format_display};

verus! {

/// Where a subscription stands.
#[derive(Debug, Clone, Copy, PartialEq, Eq, Structural)]
pub enum SubscriptionStatus {
    Active,
    Cancelled,
    Expired,
    Pending,
}

/// A stored subscription (`member_subscription`); times in seconds since 1970 (naive UTC).
pub struct SubscriptionRow {
    pub subscription_id: i64,
    pub member_id: i64,
    pub plan_name: PlanName,
    pub status: SubscriptionStatus,
    pub fluxpay_order_id: Option<String>,
    pub fluxpay_payment_id: Option<String>,
    pub started_at: i64,
    pub expires_at: Option<i64>,
    pub cancelled_at: Option<i64>,
    pub created_at: i64,
    pub updated_at: i64,
}

/// A subscription as the API shows it.
pub struct SubscriptionResponse {
    pub subscription_id: i64,
    pub plan_name: PlanName,
    pub status: SubscriptionStatus,
    pub started_at: String,
    pub expires_at: Option<String>,
    pub cancelled_at: Option<String>,
}

/// One line of a FluxPay order.
pub struct FluxPayLineItem {
    pub product_id: String,
    pub product_name: String,
    pub quantity: i32,
    pub unit_price: i64,
}

/// A FluxPay order to create.
pub struct FluxPayCreateOrderRequest {
    pub user_id: String,
    pub line_items: Vec<FluxPayLineItem>,
    pub currency: String,
}

/// A FluxPay payment to create for an order.
pub struct FluxPayCreatePaymentRequest {
    pub order_id: String,
    pub amount: i64,
    pub currency: String,
}

/// What a FluxPay order or payment reply carries that the service reads.
pub struct FluxPayRecord {
    pub id: String,
    pub status: String,
}

/// Where the FluxPay engine is, and whether the service may call it.
pub struct FluxPayTarget {
    pub base_url: String,
    pub enabled: bool,
}

/// A request to subscribe to the plan named `plan_name`.
pub struct CreateSubscriptionRequest {
    pub plan_name: String,
}

/// A FluxPay webhook: what happened to which order and payment.
pub struct FluxPayWebhookPayload {
    pub event_type: String,
    pub order_id: String,
    pub payment_id: String,
    pub status: String,
}

/// The answer that lists the plans.
pub struct SuccessPlansResponse {
    pub is_success: bool,
    pub code: String,
    pub message: String,
    pub result: Vec<PlanResponse>,
}

/// The answer to a cancellation or a webhook: success, with no result.
pub struct SuccessCancelResponse {
    pub is_success: bool,
    pub code: String,
    pub message: String,
    pub result: Option<()>,
}

/// How a subscription change proceeds: the new plan, and whether the current subscription is
/// cancelled first.
pub struct SubscriptionChange {
    pub plan: PlanName,
    pub cancel_current: bool,
}

/// What a FluxPay webhook does.
#[derive(Debug, Clone, Copy, PartialEq, Eq, Structural)]
pub enum WebhookAction {
    Ignore,
    Activate,
    Expire,
}

pub open spec fn opt_time_text(t: Option<i64>) -> Option<Seq<char>> {
    match t {
        Some(s) => Some(spec_format_display(s as int)),
        None => None,
    }
}

pub open spec fn opt_string_view(t: Option<String>) -> Option<Seq<char>> {
    match t {
        Some(s) => Some(s@),
        None => None,
    }
}

pub open spec fn row_times_valid(sub: SubscriptionRow) -> bool {
    &&& valid_time(sub.started_at as int)
    &&& sub.expires_at matches Some(t) ==> valid_time(t as int)
    &&& sub.cancelled_at matches Some(t) ==> valid_time(t as int)
}

/// The response shows the row, times as `NaiveDateTime` prints them.
pub open spec fn shows_subscription(r: SubscriptionResponse, sub: SubscriptionRow) -> bool {
    &&& r.subscription_id == sub.subscription_id
    &&& r.plan_name == sub.plan_name
    &&& r.status == sub.status
    &&& r.started_at@ == spec_format_display(sub.started_at as int)
    &&& opt_string_view(r.expires_at) == opt_time_text(sub.expires_at)
    &&& opt_string_view(r.cancelled_at) == opt_time_text(sub.cancelled_at)
}

/// The product id of a paid plan: `plan_` and its display name in lower case.
pub open spec fn spec_product_id(p: PlanName) -> Seq<char> {
    match p {
        PlanName::Free => "plan_free"@,
        PlanName::Pro => "plan_pro"@,
        PlanName::Team => "plan_team"@,
    }
}

pub open spec fn spec_product_name(p: PlanName) -> Seq<char> {
    "Moalog "@ + spec_display_name(p) + " 플랜 (월간)"@
}

/// What a webhook does: confirmation activates, failure expires, anything else (or an order
/// without a subscription) is ignored.
pub open spec fn spec_webhook_action(subscription_found: bool, event_type: Seq<char>) -> WebhookAction {
    if !subscription_found {
        WebhookAction::Ignore
    } else if event_type == "payment.confirmed"@ {
        WebhookAction::Activate
    } else if event_type == "payment.failed"@ {
        WebhookAction::Expire
    } else {
        WebhookAction::Ignore
    }
}

/// The status and start time after a webhook action at `now`.
pub open spec fn after_webhook(old_status: SubscriptionStatus, old_started: i64, a: WebhookAction, now: i64) -> (SubscriptionStatus, i64) {
    match a {
        WebhookAction::Activate => (SubscriptionStatus::Active, now),
        WebhookAction::Expire => (SubscriptionStatus::Expired, old_started),
        WebhookAction::Ignore => (old_status, old_started),
    }
}

fn opt_time_string(t: Option<i64>) -> (r: Option<String>)
    requires
        t matches Some(s) ==> valid_time(s as int),
    ensures
        opt_string_view(r) == opt_time_text(t),
{
    match t {
        Some(s) => Some(format_display(s)),
        None => None,
    }
}

fn same_text(a: &str, b: &str) -> (r: bool)
    ensures
        r == (a@ == b@),
{
    a.to_owned() == b.to_owned()
}

impl FluxPayTarget {
    fn endpoint(&self, path: &str) -> (r: Result<String, AppError>)
        ensures
            self.enabled ==> (r matches Ok(u) && u@ == self.base_url@ + path@),
            !self.enabled ==> (r matches Err(AppError::FluxPayServiceError(m))
                && m@ == "FluxPay 서비스가 비활성화 상태입니다."@),
    {
        if !self.enabled {
            return Err(AppError::FluxPayServiceError("FluxPay 서비스가 비활성화 상태입니다.".to_owned()));
        }
        let mut u = self.base_url.clone();
        u.append(path);
        Ok(u)
    }

    /// Where orders are created; refused while FluxPay is switched off.
    pub fn orders_url(&self) -> (r: Result<String, AppError>)
        ensures
            self.enabled ==> (r matches Ok(u) && u@ == self.base_url@ + "/api/v1/orders"@),
            !self.enabled ==> (r matches Err(AppError::FluxPayServiceError(m))
                && m@ == "FluxPay 서비스가 비활성화 상태입니다."@),
    {
        self.endpoint("/api/v1/orders")
    }

    /// Where payments are created; refused while FluxPay is switched off.
    pub fn payments_url(&self) -> (r: Result<String, AppError>)
        ensures
            self.enabled ==> (r matches Ok(u) && u@ == self.base_url@ + "/api/v1/payments"@),
            !self.enabled ==> (r matches Err(AppError::FluxPayServiceError(m))
                && m@ == "FluxPay 서비스가 비활성화 상태입니다."@),
    {
        self.endpoint("/api/v1/payments")
    }

    /// Where one payment is looked up; refused while FluxPay is switched off.
    pub fn payment_url(&self, payment_id: &str) -> (r: Result<String, AppError>)
        ensures
            self.enabled ==> (r matches Ok(u) && u@ == self.base_url@ + "/api/v1/payments/"@ + payment_id@),
            !self.enabled ==> (r matches Err(AppError::FluxPayServiceError(m))
                && m@ == "FluxPay 서비스가 비활성화 상태입니다."@),
    {
        match self.endpoint("/api/v1/payments/") {
            Ok(mut u) => {
                u.append(payment_id);
                Ok(u)
            },
            Err(e) => Err(e),
        }
    }
}

impl CreateSubscriptionRequest {
    /// The plan name is required.
    pub fn validate(&self) -> (r: Result<(), AppError>)
        ensures
            self.plan_name@.len() == 0 ==> (r matches Err(AppError::BadRequest(m)) && m@ == "플랜 이름은 필수입니다"@),
            self.plan_name@.len() > 0 ==> r is Ok,
    {
        if self.plan_name.as_str().is_empty() {
            return Err(AppError::BadRequest("플랜 이름은 필수입니다".to_owned()));
        }
        Ok(())
    }
}

/// The subscription row after a webhook acts on it at `now`.
pub open spec fn webhook_row(sub: SubscriptionRow, a: WebhookAction, now: i64) -> SubscriptionRow {
    match a {
        WebhookAction::Activate => SubscriptionRow { status: SubscriptionStatus::Active, started_at: now, updated_at: now, ..sub },
        WebhookAction::Expire => SubscriptionRow { status: SubscriptionStatus::Expired, updated_at: now, ..sub },
        WebhookAction::Ignore => sub,
    }
}

impl PaymentService {
    /// The answer of the plan list.
    pub fn plans_answer() -> (r: SuccessPlansResponse)
        ensures
            r.is_success,
            r.code@ == "COMMON200"@,
            r.result@.len() == 3,
            crate::plan::describes_plan(r.result@[0], PlanName::Free),
            crate::plan::describes_plan(r.result@[1], PlanName::Pro),
            crate::plan::describes_plan(r.result@[2], PlanName::Team),
    {
        SuccessPlansResponse {
            is_success: true,
            code: "COMMON200".to_owned(),
            message: "성공입니다.".to_owned(),
            result: Self::list_plans(),
        }
    }

    /// The answer to a cancellation.
    pub fn cancel_answer() -> (r: SuccessCancelResponse)
        ensures
            r.is_success,
            r.code@ == "COMMON200"@,
            r.message@ == "구독이 해지되었습니다."@,
            r.result is None,
    {
        SuccessCancelResponse {
            is_success: true,
            code: "COMMON200".to_owned(),
            message: "구독이 해지되었습니다.".to_owned(),
            result: None,
        }
    }

    /// Cancels the caller's active subscription at `now`: there must be one, and it must be
    /// to a paid plan. Gives the row to store.
    pub fn cancel_subscription(active: Option<SubscriptionRow>, now: i64) -> (r: Result<SubscriptionRow, AppError>)
        ensures
            active is None ==> (r matches Err(AppError::SubscriptionNotFound(m)) && m@ == "활성 구독이 없습니다."@),
            active matches Some(s) ==> (s.plan_name == PlanName::Free ==> (r matches Err(AppError::InvalidPlan(m))
                && m@ == "Free 플랜은 해지할 수 없습니다."@)),
            active matches Some(s) ==> (s.plan_name != PlanName::Free ==> r == Ok::<SubscriptionRow, AppError>(
                (SubscriptionRow { status: SubscriptionStatus::Cancelled, cancelled_at: Some(now), updated_at: now, ..s }),
            )),
    {
        match active {
            None => Err(AppError::SubscriptionNotFound("활성 구독이 없습니다.".to_owned())),
            Some(mut s) => {
                if s.plan_name == PlanName::Free {
                    return Err(AppError::InvalidPlan("Free 플랜은 해지할 수 없습니다.".to_owned()));
                }
                Self::cancel_at(&mut s, now);
                Ok(s)
            },
        }
    }

    /// Handles a FluxPay webhook for the subscription of its order (`None` when no
    /// subscription has that order): gives the row to store, or `None` when nothing changes.
    pub fn handle_fluxpay_webhook(sub: Option<SubscriptionRow>, payload: &FluxPayWebhookPayload, now: i64) -> (r: Option<
        SubscriptionRow,
    >)
        ensures
            spec_webhook_action(sub is Some, payload.event_type@) == WebhookAction::Ignore ==> r is None,
            sub matches Some(s) ==> (spec_webhook_action(true, payload.event_type@) != WebhookAction::Ignore ==> r
                == Some(webhook_row(s, spec_webhook_action(true, payload.event_type@), now))),
    {
        let action = Self::webhook_action(sub.is_some(), payload.event_type.as_str());
        match sub {
            Some(mut s) => {
                match action {
                    WebhookAction::Ignore => None,
                    _ => {
                        Self::apply_webhook(&mut s, action, now);
                        Some(s)
                    },
                }
            },
            None => None,
        }
    }

    /// How a subscription row is shown.
    pub fn to_subscription_response(sub: &SubscriptionRow) -> (r: SubscriptionResponse)
        requires
            row_times_valid(*sub),
        ensures
            shows_subscription(r, *sub),
    {
        SubscriptionResponse {
            subscription_id: sub.subscription_id,
            plan_name: sub.plan_name,
            status: sub.status,
            started_at: format_display(sub.started_at),
            expires_at: opt_time_string(sub.expires_at),
            cancelled_at: opt_time_string(sub.cancelled_at),
        }
    }

    /// The caller's subscription: their active one, or else a free plan that is active.
    pub fn get_subscription(active: Option<&SubscriptionRow>) -> (r: SubscriptionResponse)
        requires
            active matches Some(s) ==> row_times_valid(*s),
        ensures
            active matches Some(s) ==> shows_subscription(r, *s),
            active is None ==> {
                &&& r.subscription_id == 0
                &&& r.plan_name == PlanName::Free
                &&& r.status == SubscriptionStatus::Active
                &&& r.started_at@ == Seq::<char>::empty()
                &&& r.expires_at is None
                &&& r.cancelled_at is None
            },
    {
        match active {
            Some(s) => Self::to_subscription_response(s),
            None => SubscriptionResponse {
                subscription_id: 0,
                plan_name: PlanName::Free,
                status: SubscriptionStatus::Active,
                started_at: String::new(),
                expires_at: None,
                cancelled_at: None,
            },
        }
    }

    /// The plan the caller is on: that of their active subscription, Free without one.
    pub fn get_member_plan(active_plan: Option<PlanName>) -> (r: PlanName)
        ensures
            r == match active_plan {
                Some(p) => p,
                None => PlanName::Free,
            },
    {
        match active_plan {
            Some(p) => p,
            None => PlanName::Free,
        }
    }

    /// Starts a subscription change to the plan named `plan_name` (any letter case) for a
    /// caller whose active plan is `active_plan`: the name must be a plan, and not the one
    /// already active; an active subscription to another plan is cancelled first.
    pub fn plan_subscription(plan_name: &str, active_plan: Option<PlanName>) -> (r: Result<
        SubscriptionChange,
        AppError,
    >)
        ensures
            crate::plan::spec_plan_from_str(plan_name@) is None ==> (r matches Err(AppError::InvalidPlan(m))
                && m@ == "유효하지 않은 플랜입니다."@),
            crate::plan::spec_plan_from_str(plan_name@) matches Some(p) ==> {
                &&& active_plan == Some(p) ==> (r matches Err(AppError::SubscriptionAlreadyActive(m))
                    && m@ == "이미 동일한 플랜을 구독 중입니다."@)
                &&& active_plan != Some(p) ==> (r matches Ok(c) && c.plan == p && c.cancel_current
                    == active_plan is Some)
            },
    {
        match PlanName::from_str_value(plan_name) {
            None => Err(AppError::InvalidPlan("유효하지 않은 플랜입니다.".to_owned())),
            Some(p) => match active_plan {
                Some(a) => {
                    if a == p {
                        Err(AppError::SubscriptionAlreadyActive("이미 동일한 플랜을 구독 중입니다.".to_owned()))
                    } else {
                        Ok(SubscriptionChange { plan: p, cancel_current: true })
                    }
                },
                None => Ok(SubscriptionChange { plan: p, cancel_current: false }),
            },
        }
    }

    /// Whether a new subscription to `plan` goes through FluxPay: the free plan is active at
    /// once, with no order and no payment; a paid plan is stored pending until FluxPay reports
    /// the payment.
    pub fn needs_payment(plan: PlanName) -> (r: bool)
        ensures
            r <==> plan != PlanName::Free,
    {
        match plan {
            PlanName::Free => false,
            _ => true,
        }
    }

    /// The status a new subscription to `plan` is stored with: `Active` for the free plan,
    /// `Pending` (until the payment is confirmed) for a paid one.
    pub fn new_subscription_status(plan: PlanName) -> (r: SubscriptionStatus)
        ensures
            plan == PlanName::Free ==> r == SubscriptionStatus::Active,
            plan != PlanName::Free ==> r == SubscriptionStatus::Pending,
    {
        if Self::needs_payment(plan) {
            SubscriptionStatus::Pending
        } else {
            SubscriptionStatus::Active
        }
    }

    /// The FluxPay order for a month of a paid plan: one line of the plan at its monthly
    /// price, in won, for the member.
    pub fn order_request(member_id: i64, plan: PlanName) -> (r: FluxPayCreateOrderRequest)
        ensures
            r.user_id@ == dec_int(member_id as int),
            r.currency@ == "KRW"@,
            r.line_items@.len() == 1,
            r.line_items@[0].product_id@ == spec_product_id(plan),
            r.line_items@[0].product_name@ == spec_product_name(plan),
            r.line_items@[0].quantity == 1,
            r.line_items@[0].unit_price == spec_monthly_price(plan),
    {
        let product_id = match plan {
            PlanName::Free => "plan_free",
            PlanName::Pro => "plan_pro",
            PlanName::Team => "plan_team",
        };
        let mut name = "Moalog ".to_owned();
        name.append(plan.display_name());
        name.append(" 플랜 (월간)");
        let mut items: Vec<FluxPayLineItem> = Vec::new();
        items.push(FluxPayLineItem {
            product_id: product_id.to_owned(),
            product_name: name,
            quantity: 1,
            unit_price: plan.monthly_price() as i64,
        });
        FluxPayCreateOrderRequest { user_id: int_to_string(member_id), line_items: items, currency: "KRW".to_owned() }
    }

    /// The FluxPay payment of an order for a month of `plan`.
    pub fn payment_request(order_id: String, plan: PlanName) -> (r: FluxPayCreatePaymentRequest)
        ensures
            r.order_id@ == order_id@,
            r.amount == spec_monthly_price(plan),
            r.currency@ == "KRW"@,
    {
        FluxPayCreatePaymentRequest { order_id, amount: plan.monthly_price() as i64, currency: "KRW".to_owned() }
    }

    /// The order FluxPay created, or the failure when its reply carries none.
    pub fn order_reply(data: Option<FluxPayRecord>) -> (r: Result<FluxPayRecord, AppError>)
        ensures
            data matches Some(d) ==> r == Ok::<FluxPayRecord, AppError>(d),
            data is None ==> (r matches Err(AppError::PaymentFailed(m)) && m@ == "FluxPay 주문 생성에 실패했습니다."@),
    {
        match data {
            Some(d) => Ok(d),
            None => Err(AppError::PaymentFailed("FluxPay 주문 생성에 실패했습니다.".to_owned())),
        }
    }

    /// The payment FluxPay created, or the failure when its reply carries none.
    pub fn payment_reply(data: Option<FluxPayRecord>) -> (r: Result<FluxPayRecord, AppError>)
        ensures
            data matches Some(d) ==> r == Ok::<FluxPayRecord, AppError>(d),
            data is None ==> (r matches Err(AppError::PaymentFailed(m)) && m@ == "FluxPay 결제 생성에 실패했습니다."@),
    {
        match data {
            Some(d) => Ok(d),
            None => Err(AppError::PaymentFailed("FluxPay 결제 생성에 실패했습니다.".to_owned())),
        }
    }

    /// The payment FluxPay reports, or the failure when its reply carries none.
    pub fn payment_lookup_reply(data: Option<FluxPayRecord>) -> (r: Result<FluxPayRecord, AppError>)
        ensures
            data matches Some(d) ==> r == Ok::<FluxPayRecord, AppError>(d),
            data is None ==> (r matches Err(AppError::PaymentFailed(m)) && m@ == "FluxPay 결제 조회에 실패했습니다."@),
    {
        match data {
            Some(d) => Ok(d),
            None => Err(AppError::PaymentFailed("FluxPay 결제 조회에 실패했습니다.".to_owned())),
        }
    }

    /// What a FluxPay webhook does to the subscription of its order: a confirmed payment
    /// activates it, a failed one expires it; any other event, or an order without a
    /// subscription, changes nothing.
    pub fn webhook_action(subscription_found: bool, event_type: &str) -> (r: WebhookAction)
        ensures
            r == spec_webhook_action(subscription_found, event_type@),
    {
        if !subscription_found {
            return WebhookAction::Ignore;
        }
        if same_text(event_type, "payment.confirmed") {
            WebhookAction::Activate
        } else if same_text(event_type, "payment.failed") {
            WebhookAction::Expire
        } else {
            WebhookAction::Ignore
        }
    }

    /// Applies a webhook action at `now`: activation restarts the subscription now, expiry
    /// ends it; both stamp the update time. Ignoring changes nothing.
    pub fn apply_webhook(sub: &mut SubscriptionRow, action: WebhookAction, now: i64)
        ensures
            *final(sub) == webhook_row(*old(sub), action, now),
            (final(sub).status, final(sub).started_at) == after_webhook(old(sub).status, old(sub).started_at, action, now),
    {
        match action {
            WebhookAction::Activate => {
                sub.status = SubscriptionStatus::Active;
                sub.started_at = now;
                sub.updated_at = now;
            },
            WebhookAction::Expire => {
                sub.status = SubscriptionStatus::Expired;
                sub.updated_at = now;
            },
            WebhookAction::Ignore => {},
        }
    }

    /// Cancels a subscription at `now`.
    pub fn cancel_at(sub: &mut SubscriptionRow, now: i64)
        ensures
            *final(sub) == (SubscriptionRow {
                status: SubscriptionStatus::Cancelled,
                cancelled_at: Some(now),
                updated_at: now,
                ..*old(sub)
            }),
    {
        sub.status = SubscriptionStatus::Cancelled;
        sub.cancelled_at = Some(now);
        sub.updated_at = now;
    }
}

/// Only a confirmed payment makes a subscription active: after a webhook the subscription is
/// active only if it was already, or the webhook confirmed its payment.
pub proof fn law_only_confirmation_activates(
    old_status: SubscriptionStatus,
    old_started: i64,
    subscription_found: bool,
    event_type: Seq<char>,
    now: i64,
)
    ensures
        after_webhook(old_status, old_started, spec_webhook_action(subscription_found, event_type), now).0
            == SubscriptionStatus::Active ==> old_status == SubscriptionStatus::Active || (subscription_found
            && event_type == "payment.confirmed"@),
{
}

/// A webhook that is ignored (an unknown event, or an order without a subscription) leaves the
/// subscription's status and start time as they were.
pub proof fn law_ignored_webhook_keeps(
    old_status: SubscriptionStatus,
    old_started: i64,
    subscription_found: bool,
    event_type: Seq<char>,
    now: i64,
)
    requires
        !subscription_found || (event_type != "payment.confirmed"@ && event_type != "payment.failed"@),
    ensures
        after_webhook(old_status, old_started, spec_webhook_action(subscription_found, event_type), now)
            == (old_status, old_started),
{
}

} // verus!
