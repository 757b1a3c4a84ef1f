//! Subscription plans and what each one allows.
use vstd::prelude::*;
use vstd::utf8::is_ascii_chars;
use crate::service::PaymentService;

verus! {

/// Subscription plan tiers.
#[derive(Debug, Clone, Copy, PartialEq, Eq, Structural)]
pub enum PlanName {
    Free,
    Pro,
    Team,
}

/// Monthly AI analysis quota; `None` means unlimited.
pub open spec fn spec_ai_analysis_limit(p: PlanName) -> Option<i32> {
    match p {
        PlanName::Free => Some(3i32),
        _ => None,
    }
}

/// Monthly AI assistant quota; `None` means unlimited.
pub open spec fn spec_ai_assistant_limit(p: PlanName) -> Option<i32> {
    match p {
        PlanName::Free => Some(3i32),
        _ => None,
    }
}

pub open spec fn spec_pdf_export_enabled(p: PlanName) -> bool {
    p != PlanName::Free
}

/// Largest room size; -1 means unlimited.
pub open spec fn spec_max_room_members(p: PlanName) -> i32 {
    match p {
        PlanName::Team => -1i32,
        _ => 10i32,
    }
}

/// Monthly price in won.
pub open spec fn spec_monthly_price(p: PlanName) -> i32 {
    match p {
        PlanName::Free => 0i32,
        PlanName::Pro => 9900i32,
        PlanName::Team => 29900i32,
    }
}

pub open spec fn spec_display_name(p: PlanName) -> Seq<char> {
    match p {
        PlanName::Free => "Free"@,
        PlanName::Pro => "Pro"@,
        PlanName::Team => "Team"@,
    }
}

/// The plan's stored name (its variant name in capitals).
pub open spec fn spec_plan_code(p: PlanName) -> Seq<char> {
    match p {
        PlanName::Free => "FREE"@,
        PlanName::Pro => "PRO"@,
        PlanName::Team => "TEAM"@,
    }
}

/// What `str::to_uppercase` returns. For ASCII text it is the ASCII upper case (see the
/// wrapper); other characters follow the Unicode tables.
pub uninterp spec fn spec_to_uppercase(s: Seq<char>) -> Seq<char>;

pub open spec fn ascii_upper_char(c: char) -> char {
    if 'a' <= c <= 'z' {
        ((c as u32) - 32) as char
    } else {
        c
    }
}

pub open spec fn ascii_upper(s: Seq<char>) -> Seq<char> {
    s.map_values(|c: char| ascii_upper_char(c))
}

/// `str::to_uppercase`: every character's Unicode upper case. The contract gives the result
/// by name, and on ASCII text spells it out (letters `a`-`z` become `A`-`Z`).
#[verifier::external_body]
fn to_uppercase(s: &str) -> (r: String)
    ensures
        r@ == spec_to_uppercase(s@),
        is_ascii_chars(s@) ==> r@ == ascii_upper(s@),
{
    s.to_uppercase()
}

/// The plan a name stands for, matched after upper-casing it.
pub open spec fn spec_plan_from_str(s: Seq<char>) -> Option<PlanName> {
    let u = spec_to_uppercase(s);
    if u == "FREE"@ {
        Some(PlanName::Free)
    } else if u == "PRO"@ {
        Some(PlanName::Pro)
    } else if u == "TEAM"@ {
        Some(PlanName::Team)
    } else {
        None
    }
}

impl PlanName {
    /// Monthly AI analysis quota (`None` = unlimited).
    pub fn ai_analysis_limit(&self) -> (r: Option<i32>)
        ensures
            r == spec_ai_analysis_limit(*self),
    {
        match self {
            PlanName::Free => Some(3),
            PlanName::Pro | PlanName::Team => None,
        }
    }

    /// Monthly AI assistant quota (`None` = unlimited).
    pub fn ai_assistant_limit(&self) -> (r: Option<i32>)
        ensures
            r == spec_ai_assistant_limit(*self),
    {
        match self {
            PlanName::Free => Some(3),
            PlanName::Pro | PlanName::Team => None,
        }
    }

    /// Whether the plan may export PDF reports.
    pub fn pdf_export_enabled(&self) -> (r: bool)
        ensures
            r == spec_pdf_export_enabled(*self),
    {
        match self {
            PlanName::Free => false,
            PlanName::Pro | PlanName::Team => true,
        }
    }

    /// Largest room size (-1 = unlimited).
    pub fn max_room_members(&self) -> (r: i32)
        ensures
            r == spec_max_room_members(*self),
    {
        match self {
            PlanName::Free | PlanName::Pro => 10,
            PlanName::Team => -1,
        }
    }

    /// Monthly price in won.
    pub fn monthly_price(&self) -> (r: i32)
        ensures
            r == spec_monthly_price(*self),
    {
        match self {
            PlanName::Free => 0,
            PlanName::Pro => 9900,
            PlanName::Team => 29900,
        }
    }

    /// Name shown to users.
    pub fn display_name(&self) -> (r: &'static str)
        ensures
            r@ == spec_display_name(*self),
    {
        match self {
            PlanName::Free => "Free",
            PlanName::Pro => "Pro",
            PlanName::Team => "Team",
        }
    }

    /// The plan's stored name: `FREE`, `PRO` or `TEAM`.
    pub fn code(&self) -> (r: &'static str)
        ensures
            r@ == spec_plan_code(*self),
    {
        match self {
            PlanName::Free => "FREE",
            PlanName::Pro => "PRO",
            PlanName::Team => "TEAM",
        }
    }

    /// The plan named `s`, in any letter case.
    pub fn from_str_value(s: &str) -> (r: Option<PlanName>)
        ensures
            r == spec_plan_from_str(s@),
    {
        let u = to_uppercase(s);
        if u == "FREE".to_owned() {
            Some(PlanName::Free)
        } else if u == "PRO".to_owned() {
            Some(PlanName::Pro)
        } else if u == "TEAM".to_owned() {
            Some(PlanName::Team)
        } else {
            None
        }
    }
}

/// A plan as the plan list shows it; unlimited quotas are -1.
#[derive(Debug)]
pub struct PlanResponse {
    pub name: String,
    pub display_name: String,
    pub ai_analysis_limit: i32,
    pub ai_assistant_limit: i32,
    pub pdf_export_enabled: bool,
    pub max_room_members: i32,
    pub monthly_price: i32,
}

pub open spec fn limit_or_unlimited(l: Option<i32>) -> i32 {
    match l {
        Some(n) => n,
        None => -1i32,
    }
}

/// The plan-list entry of a plan.
pub open spec fn describes_plan(r: PlanResponse, p: PlanName) -> bool {
    &&& r.name@ == spec_plan_code(p)
    &&& r.display_name@ == spec_display_name(p)
    &&& r.ai_analysis_limit == limit_or_unlimited(spec_ai_analysis_limit(p))
    &&& r.ai_assistant_limit == limit_or_unlimited(spec_ai_assistant_limit(p))
    &&& r.pdf_export_enabled == spec_pdf_export_enabled(p)
    &&& r.max_room_members == spec_max_room_members(p)
    &&& r.monthly_price == spec_monthly_price(p)
}

impl PlanResponse {
    /// The plan-list entry of `plan`.
    pub fn from_plan(plan: PlanName) -> (r: PlanResponse)
        ensures
            describes_plan(r, plan),
    {
        PlanResponse {
            name: plan.code().to_owned(),
            display_name: plan.display_name().to_owned(),
            ai_analysis_limit: match plan.ai_analysis_limit() {
                Some(n) => n,
                None => -1,
            },
            ai_assistant_limit: match plan.ai_assistant_limit() {
                Some(n) => n,
                None => -1,
            },
            pdf_export_enabled: plan.pdf_export_enabled(),
            max_room_members: plan.max_room_members(),
            monthly_price: plan.monthly_price(),
        }
    }
}

impl PaymentService {
    /// Every plan, cheapest first: Free, Pro, Team.
    pub fn list_plans() -> (r: Vec<PlanResponse>)
        ensures
            r@.len() == 3,
            describes_plan(r@[0], PlanName::Free),
            describes_plan(r@[1], PlanName::Pro),
            describes_plan(r@[2], PlanName::Team),
    {
        let mut v: Vec<PlanResponse> = Vec::new();
        v.push(PlanResponse::from_plan(PlanName::Free));
        v.push(PlanResponse::from_plan(PlanName::Pro));
        v.push(PlanResponse::from_plan(PlanName::Team));
        v
    }
}

} // verus!

verus! {

/// Room sizes by plan: only the Team plan has unlimited rooms (-1); every other plan allows
/// at most 10 members. A dearer plan never allows fewer members than a cheaper one.
pub proof fn law_room_size_by_plan(p: PlanName, q: PlanName)
    ensures
        spec_max_room_members(p) == -1 <==> p == PlanName::Team,
        p != PlanName::Team ==> spec_max_room_members(p) == 10,
        spec_monthly_price(p) < spec_monthly_price(q) && spec_max_room_members(q) != -1
            ==> spec_max_room_members(p) != -1 && spec_max_room_members(p) <= spec_max_room_members(q),
        spec_monthly_price(p) < spec_monthly_price(q) && spec_max_room_members(p) == -1
            ==> spec_max_room_members(q) == -1,
{
}

/// What paying buys: the free plan costs nothing and is the only one with monthly AI
/// quotas (three analyses and three assistant uses) and without PDF export; every paid plan
/// has unlimited AI use and PDF export, and the Team plan costs more than the Pro plan.
pub proof fn law_paid_plans_unlock_features(p: PlanName)
    ensures
        spec_monthly_price(p) == 0 <==> p == PlanName::Free,
        spec_monthly_price(p) > 0 <==> spec_pdf_export_enabled(p),
        spec_ai_analysis_limit(p) is Some <==> spec_monthly_price(p) == 0,
        spec_ai_assistant_limit(p) is Some <==> spec_monthly_price(p) == 0,
        spec_ai_analysis_limit(p) matches Some(l) ==> l == 3,
        spec_ai_assistant_limit(p) matches Some(l) ==> l == 3,
        spec_monthly_price(PlanName::Pro) < spec_monthly_price(PlanName::Team),
{
}

} // verus!
