//! Checks on what users send: reference links, draft and final answers and search keywords.
use vstd::prelude::*;
use vstd::string::*;
use vstd::utf8::*;
use crate::error::AppError;
use crate::service::RetrospectService;
use crate::time::{spec_parse_date, spec_parse_hm, parse_date, parse_hm, now_utc_secs, in_time_range, civil, KST_OFFSET_SECS};
use crate::text::{all_ws, trim, views, chars_of, char_count, is_blank, trim_str, owned};

verus! {

/// Longest reference link accepted, in bytes.
pub const REFERENCE_URL_MAX_LENGTH: usize = 2048;

pub open spec fn https_prefix() -> Seq<char> {
    seq!['h', 't', 't', 'p', 's', ':', '/', '/']
}

pub open spec fn http_prefix() -> Seq<char> {
    seq!['h', 't', 't', 'p', ':', '/', '/']
}

pub open spec fn has_prefix(s: Seq<char>, p: Seq<char>) -> bool {
    p.len() <= s.len() && s.subrange(0, p.len() as int) == p
}

/// What follows `https://` (tried first) or `http://`; `None` for any other scheme.
pub open spec fn after_scheme(u: Seq<char>) -> Option<Seq<char>> {
    if has_prefix(u, https_prefix()) {
        Some(u.subrange(8, u.len() as int))
    } else if has_prefix(u, http_prefix()) {
        Some(u.subrange(7, u.len() as int))
    } else {
        None
    }
}

/// The link is longer than the limit, counted in UTF-8 bytes.
pub open spec fn url_too_long(u: Seq<char>) -> bool {
    encode_utf8(u).len() > REFERENCE_URL_MAX_LENGTH
}

/// The link has an http(s) scheme and a non-empty rest that holds a dot.
pub open spec fn url_well_formed(u: Seq<char>) -> bool {
    match after_scheme(u) {
        Some(h) => h.len() > 0 && h.contains('.'),
        None => false,
    }
}

pub open spec fn url_ok(u: Seq<char>) -> bool {
    !url_too_long(u) && url_well_formed(u)
}

/// No two entries are equal.
pub open spec fn all_distinct<T>(s: Seq<T>) -> bool {
    forall|i: int, j: int| 0 <= i < j < s.len() ==> s[i] != s[j]
}

/// `k` is the first entry that fails `url_ok`.
pub open spec fn first_bad_url(urls: Seq<Seq<char>>, k: int) -> bool {
    &&& 0 <= k < urls.len()
    &&& !url_ok(urls[k])
    &&& forall|i: int| 0 <= i < k ==> url_ok(urls[i])
}

fn starts_with(v: &Vec<char>, p: &[char]) -> (r: bool)
    ensures
        r == has_prefix(v@, p@),
{
    if p.len() > v.len() {
        return false;
    }
    let mut i: usize = 0;
    while i < p.len()
        invariant
            i <= p@.len() <= v@.len(),
            forall|j: int| 0 <= j < i ==> v@[j] == p@[j],
        decreases p@.len() - i,
    {
        if v[i] != p[i] {
            assert(v@.subrange(0, p@.len() as int)[i as int] != p@[i as int]);
            return false;
        }
        i = i + 1;
    }
    assert(v@.subrange(0, p@.len() as int) =~= p@);
    true
}

fn has_dot_from(v: &Vec<char>, start: usize) -> (r: bool)
    requires
        start <= v@.len(),
    ensures
        r == v@.subrange(start as int, v@.len() as int).contains('.'),
{
    let ghost h = v@.subrange(start as int, v@.len() as int);
    let mut i: usize = start;
    while i < v.len()
        invariant
            start <= i <= v@.len(),
            h == v@.subrange(start as int, v@.len() as int),
            forall|j: int| 0 <= j < i - start ==> h[j] != '.',
        decreases v@.len() - i,
    {
        if v[i] == '.' {
            assert(h[i - start] == '.');
            return true;
        }
        i = i + 1;
    }
    false
}

/// Checks one link: `Some(true)` when it is too long, `Some(false)` when it is malformed.
fn url_fault(url: &String) -> (r: Option<bool>)
    ensures
        r == Some(true) <==> url_too_long(url@),
        r == Some(false) <==> !url_too_long(url@) && !url_well_formed(url@),
        r is None <==> url_ok(url@),
{
    let s = url.as_str();
    assert(s.spec_bytes() == encode_utf8(url@));
    if s.as_bytes().len() > REFERENCE_URL_MAX_LENGTH {
        return Some(true);
    }
    let v = chars_of(s);
    let https: [char; 8] = ['h', 't', 't', 'p', 's', ':', '/', '/'];
    let http: [char; 7] = ['h', 't', 't', 'p', ':', '/', '/'];
    assert(https@ =~= https_prefix());
    assert(http@ =~= http_prefix());
    let start: usize = if starts_with(&v, &https) {
        8
    } else if starts_with(&v, &http) {
        7
    } else {
        return Some(false);
    };
    if start == v.len() || !has_dot_from(&v, start) {
        return Some(false);
    }
    None
}

impl RetrospectService {
    /// Checks reference links: no two equal, then each, in order, at most
    /// `REFERENCE_URL_MAX_LENGTH` bytes, with an `https://` or `http://` scheme followed by a
    /// host that holds a dot.
    pub fn validate_reference_urls(urls: &[String]) -> (r: Result<(), AppError>)
        ensures
            !all_distinct(views(urls@)) ==> (r matches Err(AppError::RetroUrlInvalid(m))
                && m@ == "중복된 URL이 있습니다."@),
            all_distinct(views(urls@)) ==> {
                &&& (forall|i: int| 0 <= i < urls@.len() ==> url_ok(#[trigger] urls@[i]@)) ==> r is Ok
                &&& forall|k: int| first_bad_url(views(urls@), k) ==> {
                    &&& url_too_long(urls@[k]@) ==> (r matches Err(AppError::RetroUrlInvalid(m))
                        && m@ == "URL은 최대 2048자까지 허용됩니다."@)
                    &&& !url_too_long(urls@[k]@) ==> (r matches Err(AppError::RetroUrlInvalid(m))
                        && m@ == "유효하지 않은 URL 형식입니다."@)
                }
            },
    {
        let n = urls.len();
        let mut i: usize = 0;
        while i < n
            invariant
                n == urls@.len(),
                i <= n,
                forall|a: int, b: int| 0 <= a < b < n && a < i ==> urls@[a]@ != urls@[b]@,
            decreases n - i,
        {
            let mut j: usize = i + 1;
            while j < n
                invariant
                    n == urls@.len(),
                    i < n,
                    i + 1 <= j <= n,
                    forall|b: int| i < b < j ==> urls@[i as int]@ != urls@[b]@,
                decreases n - j,
            {
                if urls[i] == urls[j] {
                    proof {
                        let vs = views(urls@);
                        assert(vs[i as int] == vs[j as int]);
                    }
                    return Err(AppError::RetroUrlInvalid("중복된 URL이 있습니다.".to_owned()));
                }
                j = j + 1;
            }
            i = i + 1;
        }
        assert(all_distinct(views(urls@)));
        let mut k: usize = 0;
        while k < n
            invariant
                n == urls@.len(),
                k <= n,
                all_distinct(views(urls@)),
                forall|i: int| 0 <= i < k ==> url_ok(#[trigger] urls@[i]@),
            decreases n - k,
        {
            match url_fault(&urls[k]) {
                Some(true) => {
                    proof {
                        assert forall|q: int| first_bad_url(views(urls@), q) implies q == k by {
                            if q < k {
                                assert(url_ok(urls@[q]@));
                            } else if q > k {
                                assert(views(urls@)[k as int] == urls@[k as int]@);
                            }
                        }
                    }
                    return Err(AppError::RetroUrlInvalid("URL은 최대 2048자까지 허용됩니다.".to_owned()));
                },
                Some(false) => {
                    proof {
                        assert forall|q: int| first_bad_url(views(urls@), q) implies q == k by {
                            if q < k {
                                assert(url_ok(urls@[q]@));
                            } else if q > k {
                                assert(views(urls@)[k as int] == urls@[k as int]@);
                            }
                        }
                    }
                    return Err(AppError::RetroUrlInvalid("유효하지 않은 URL 형식입니다.".to_owned()));
                },
                None => {},
            }
            k = k + 1;
        }
        proof {
            assert forall|q: int| !first_bad_url(views(urls@), q) by {
                if 0 <= q < n {
                    assert(url_ok(urls@[q]@));
                }
            }
        }
        Ok(())
    }
}

/// One saved-but-unsubmitted answer: the question it answers and what has been written.
#[derive(Debug)]
pub struct DraftItem {
    pub question_number: i32,
    pub content: Option<String>,
}

/// One final answer.
#[derive(Debug)]
pub struct SubmitAnswerItem {
    pub question_number: i32,
    pub content: String,
}

/// Longest answer accepted, in characters.
pub const ANSWER_MAX_CHARS: usize = 1000;

/// Longest search keyword accepted, in characters.
pub const KEYWORD_MAX_CHARS: usize = 100;

pub open spec fn draft_numbers(d: Seq<DraftItem>) -> Seq<i32> {
    d.map_values(|x: DraftItem| x.question_number)
}

pub open spec fn answer_numbers(a: Seq<SubmitAnswerItem>) -> Seq<i32> {
    a.map_values(|x: SubmitAnswerItem| x.question_number)
}

pub open spec fn question_in_range(q: i32) -> bool {
    1 <= q <= 5
}

pub open spec fn draft_too_long(d: DraftItem) -> bool {
    d.content matches Some(c) && c@.len() > ANSWER_MAX_CHARS
}

/// Every number is a question number and every question is answered.
pub open spec fn covers_all_questions(ns: Seq<i32>) -> bool {
    &&& forall|i: int| 0 <= i < ns.len() ==> question_in_range(#[trigger] ns[i])
    &&& forall|q: i32| question_in_range(q) ==> ns.contains(q)
}

pub open spec fn answer_ok(c: Seq<char>) -> bool {
    !all_ws(c) && c.len() <= ANSWER_MAX_CHARS
}

/// `k` is the first answer whose text fails `answer_ok`.
pub open spec fn first_bad_answer(a: Seq<SubmitAnswerItem>, k: int) -> bool {
    &&& 0 <= k < a.len()
    &&& !answer_ok(a[k].content@)
    &&& forall|i: int| 0 <= i < k ==> answer_ok(#[trigger] a[i].content@)
}

pub open spec fn keyword_text(k: Option<&str>) -> Seq<char> {
    match k {
        Some(s) => s@,
        None => Seq::empty(),
    }
}

impl RetrospectService {
    /// Checks a batch of drafts, one rule after the other over the whole batch: one to five
    /// drafts, no question twice, each question number in 1..=5, no text over
    /// `ANSWER_MAX_CHARS` characters.
    pub fn validate_drafts(drafts: &[DraftItem]) -> (r: Result<(), AppError>)
        ensures
            drafts@.len() == 0 ==> (r matches Err(AppError::BadRequest(m))
                && m@ == "저장할 답변이 최소 1개 이상 필요합니다."@),
            drafts@.len() > 5 ==> (r matches Err(AppError::BadRequest(m))
                && m@ == "저장할 답변은 최대 5개까지 가능합니다."@),
            1 <= drafts@.len() <= 5 ==> {
                let ns = draft_numbers(drafts@);
                &&& !all_distinct(ns) ==> (r matches Err(AppError::BadRequest(m))
                    && m@ == "중복된 질문 번호가 포함되어 있습니다."@)
                &&& all_distinct(ns) && (exists|i: int| 0 <= i < ns.len() && !question_in_range(#[trigger] ns[i]))
                    ==> (r matches Err(AppError::BadRequest(m)) && m@ == "올바르지 않은 질문 번호입니다."@)
                &&& all_distinct(ns) && (forall|i: int| 0 <= i < ns.len() ==> question_in_range(#[trigger] ns[i]))
                    ==> {
                    &&& (exists|i: int| 0 <= i < drafts@.len() && draft_too_long(#[trigger] drafts@[i]))
                        ==> (r matches Err(AppError::RetroAnswerTooLong(m)) && m@ == "답변은 1,000자를 초과할 수 없습니다."@)
                    &&& (forall|i: int| 0 <= i < drafts@.len() ==> !draft_too_long(#[trigger] drafts@[i])) ==> r is Ok
                }
            },
    {
        let n = drafts.len();
        if n == 0 {
            return Err(AppError::BadRequest("저장할 답변이 최소 1개 이상 필요합니다.".to_owned()));
        }
        if n > 5 {
            return Err(AppError::BadRequest("저장할 답변은 최대 5개까지 가능합니다.".to_owned()));
        }
        let ghost ns = draft_numbers(drafts@);
        let mut i: usize = 0;
        while i < n
            invariant
                n == drafts@.len(),
                1 <= n <= 5,
                ns == draft_numbers(drafts@),
                i <= n,
                forall|a: int, b: int| 0 <= a < b < n && a < i ==> ns[a] != ns[b],
            decreases n - i,
        {
            let mut j: usize = i + 1;
            while j < n
                invariant
                    n == drafts@.len(),
                    1 <= n <= 5,
                    ns == draft_numbers(drafts@),
                    i < n,
                    i + 1 <= j <= n,
                    forall|b: int| i < b < j ==> ns[i as int] != ns[b],
                decreases n - j,
            {
                if drafts[i].question_number == drafts[j].question_number {
                    assert(ns[i as int] == ns[j as int]);
                    return Err(AppError::BadRequest("중복된 질문 번호가 포함되어 있습니다.".to_owned()));
                }
                j = j + 1;
            }
            i = i + 1;
        }
        let mut k: usize = 0;
        while k < n
            invariant
                n == drafts@.len(),
                1 <= n <= 5,
                ns == draft_numbers(drafts@),
                all_distinct(ns),
                k <= n,
                forall|a: int| 0 <= a < k ==> question_in_range(#[trigger] ns[a]),
            decreases n - k,
        {
            let q = drafts[k].question_number;
            if q < 1 || q > 5 {
                assert(!question_in_range(ns[k as int]));
                return Err(AppError::BadRequest("올바르지 않은 질문 번호입니다.".to_owned()));
            }
            k = k + 1;
        }
        let mut t: usize = 0;
        while t < n
            invariant
                n == drafts@.len(),
                1 <= n <= 5,
                ns == draft_numbers(drafts@),
                all_distinct(ns),
                forall|a: int| 0 <= a < n ==> question_in_range(#[trigger] ns[a]),
                t <= n,
                forall|a: int| 0 <= a < t ==> !draft_too_long(#[trigger] drafts@[a]),
            decreases n - t,
        {
            match &drafts[t].content {
                Some(c) => {
                    if char_count(c.as_str()) > ANSWER_MAX_CHARS {
                        assert(draft_too_long(drafts@[t as int]));
                        return Err(AppError::RetroAnswerTooLong("답변은 1,000자를 초과할 수 없습니다.".to_owned()));
                    }
                },
                None => {},
            }
            t = t + 1;
        }
        Ok(())
    }

    /// Checks a submission: exactly five answers whose question numbers are 1..=5, then each
    /// answer in order is not blank and at most `ANSWER_MAX_CHARS` characters.
    pub fn validate_answers(answers: &[SubmitAnswerItem]) -> (r: Result<(), AppError>)
        ensures
            (answers@.len() != 5 || !covers_all_questions(answer_numbers(answers@))) ==> (r matches Err(
                AppError::RetroAnswersMissing(m)) && m@ == "모든 질문에 대한 답변이 필요합니다."@),
            (answers@.len() == 5 && covers_all_questions(answer_numbers(answers@))) ==> {
                &&& (forall|i: int| 0 <= i < 5 ==> answer_ok(#[trigger] answers@[i].content@)) ==> r is Ok
                &&& forall|k: int| first_bad_answer(answers@, k) ==> {
                    &&& all_ws(answers@[k].content@) ==> (r matches Err(AppError::RetroAnswerWhitespaceOnly(m))
                        && m@ == "답변 내용은 공백만으로 구성될 수 없습니다."@)
                    &&& !all_ws(answers@[k].content@) ==> (r matches Err(AppError::RetroAnswerTooLong(m))
                        && m@ == "답변은 1,000자를 초과할 수 없습니다."@)
                }
            },
            r is Ok ==> answers@.len() == 5 && forall|k: int| 0 <= k < answers@.len() ==> question_in_range(
                #[trigger] answers@[k].question_number,
            ),
    {
        let n = answers.len();
        if n != 5 {
            return Err(AppError::RetroAnswersMissing("모든 질문에 대한 답변이 필요합니다.".to_owned()));
        }
        let ghost ns = answer_numbers(answers@);
        let mut i: usize = 0;
        while i < n
            invariant
                n == answers@.len(),
                n == 5,
                ns == answer_numbers(answers@),
                i <= n,
                forall|a: int| 0 <= a < i ==> question_in_range(#[trigger] ns[a]),
            decreases n - i,
        {
            let q = answers[i].question_number;
            if q < 1 || q > 5 {
                assert(!question_in_range(ns[i as int]));
                return Err(AppError::RetroAnswersMissing("모든 질문에 대한 답변이 필요합니다.".to_owned()));
            }
            i = i + 1;
        }
        let mut q: i32 = 1;
        while q <= 5
            invariant
                n == answers@.len(),
                n == 5,
                ns == answer_numbers(answers@),
                1 <= q <= 6,
                forall|a: int| 0 <= a < n ==> question_in_range(#[trigger] ns[a]),
                forall|p: i32| 1 <= p < q ==> ns.contains(p),
            decreases 6 - q,
        {
            let mut j: usize = 0;
            let mut found = false;
            while j < n
                invariant
                    n == answers@.len(),
                    n == 5,
                    1 <= q <= 5,
                    ns == answer_numbers(answers@),
                    j <= n,
                    found <==> exists|a: int| 0 <= a < j && ns[a] == q,
                decreases n - j,
            {
                assert(ns[j as int] == answers@[j as int].question_number);
                if answers[j].question_number == q {
                    found = true;
                }
                j = j + 1;
            }
            if !found {
                assert(!ns.contains(q) && question_in_range(q));
                assert(!covers_all_questions(ns));
                return Err(AppError::RetroAnswersMissing("모든 질문에 대한 답변이 필요합니다.".to_owned()));
            }
            q = q + 1;
        }
        assert(covers_all_questions(ns));
        let mut k: usize = 0;
        while k < n
            invariant
                n == answers@.len(),
                n == 5,
                covers_all_questions(answer_numbers(answers@)),
                k <= n,
                forall|a: int| 0 <= a < k ==> answer_ok(#[trigger] answers@[a].content@),
            decreases n - k,
        {
            let text = answers[k].content.as_str();
            if is_blank(text) {
                proof {
                    assert forall|p: int| first_bad_answer(answers@, p) implies p == k by {
                        if p < k {
                            assert(answer_ok(answers@[p].content@));
                        } else if p > k {
                            assert(!answer_ok(answers@[k as int].content@));
                        }
                    }
                }
                return Err(AppError::RetroAnswerWhitespaceOnly("답변 내용은 공백만으로 구성될 수 없습니다.".to_owned()));
            }
            if char_count(text) > ANSWER_MAX_CHARS {
                proof {
                    assert forall|p: int| first_bad_answer(answers@, p) implies p == k by {
                        if p < k {
                            assert(answer_ok(answers@[p].content@));
                        } else if p > k {
                            assert(!answer_ok(answers@[k as int].content@));
                        }
                    }
                }
                return Err(AppError::RetroAnswerTooLong("답변은 1,000자를 초과할 수 없습니다.".to_owned()));
            }
            k = k + 1;
        }
        proof {
            assert forall|k: int| 0 <= k < answers@.len() implies question_in_range(
                #[trigger] answers@[k].question_number,
            ) by {
                assert(ns[k] == answers@[k].question_number);
            }
        }
        Ok(())
    }

    /// Trims a search keyword (absent counts as empty) and accepts it when it has one to
    /// `KEYWORD_MAX_CHARS` characters.
    pub fn validate_search_keyword(keyword: Option<&str>) -> (r: Result<String, AppError>)
        ensures
            trim(keyword_text(keyword)).len() == 0 ==> (r matches Err(AppError::SearchKeywordInvalid(m))
                && m@ == "검색어를 입력해주세요."@),
            trim(keyword_text(keyword)).len() > KEYWORD_MAX_CHARS ==> (r matches Err(
                AppError::SearchKeywordInvalid(m)) && m@ == "검색어는 최대 100자까지 입력 가능합니다."@),
            1 <= trim(keyword_text(keyword)).len() <= KEYWORD_MAX_CHARS ==> (r matches Ok(s) && s@ == trim(
                keyword_text(keyword))),
    {
        let raw: &str = match keyword {
            Some(k) => k,
            None => "",
        };
        proof {
            reveal_strlit("");
        }
        let t = trim_str(raw);
        let n = char_count(t);
        if n == 0 {
            return Err(AppError::SearchKeywordInvalid("검색어를 입력해주세요.".to_owned()));
        }
        if n > KEYWORD_MAX_CHARS {
            return Err(AppError::SearchKeywordInvalid("검색어는 최대 100자까지 입력 가능합니다.".to_owned()));
        }
        Ok(owned(t))
    }
}

/// `a` is a strictly earlier calendar day than `b`, both as `(year, month, day)`.
pub open spec fn date_before(a: (i32, u32, u32), b: (i32, u32, u32)) -> bool {
    a.0 < b.0 || (a.0 == b.0 && (a.1 < b.1 || (a.1 == b.1 && a.2 < b.2)))
}

/// The minute `(date, hour, minute)` lies no later than the second `now`
/// (`(year, month, day, hour, minute, second)`).
pub open spec fn not_after(date: (i32, u32, u32), time: (u32, u32), now: (i32, u32, u32, u32, u32, u32)) -> bool {
    if date.0 != now.0 {
        date.0 < now.0
    } else if date.1 != now.1 {
        date.1 < now.1
    } else if date.2 != now.2 {
        date.2 < now.2
    } else if time.0 != now.3 {
        time.0 < now.3
    } else {
        time.1 <= now.4
    }
}

fn date_lt(a: (i32, u32, u32), b: (i32, u32, u32)) -> (r: bool)
    ensures
        r == date_before(a, b),
{
    a.0 < b.0 || (a.0 == b.0 && (a.1 < b.1 || (a.1 == b.1 && a.2 < b.2)))
}

impl RetrospectService {
    /// Accepts `date` unless it is a day before `today`.
    pub fn check_date_not_past(date: (i32, u32, u32), today: (i32, u32, u32)) -> (r: Result<
        (i32, u32, u32),
        AppError,
    >)
        ensures
            date_before(date, today) ==> (r matches Err(AppError::BadRequest(m))
                && m@ == "회고 날짜는 오늘 이후만 허용됩니다."@),
            !date_before(date, today) ==> r == Ok::<(i32, u32, u32), AppError>(date),
    {
        if date_lt(date, today) {
            return Err(AppError::BadRequest("회고 날짜는 오늘 이후만 허용됩니다.".to_owned()));
        }
        Ok(date)
    }

    /// Parses a `YYYY-MM-DD` date and accepts it unless it lies before today (UTC). Which
    /// day is today comes from the clock: a parsed date comes back, or the error for a past
    /// date.
    pub fn validate_and_parse_date(date_str: &str) -> (r: Result<(i32, u32, u32), AppError>)
        ensures
            spec_parse_date(date_str@) is None ==> (r matches Err(AppError::BadRequest(m))
                && m@ == "날짜 형식이 올바르지 않습니다. (YYYY-MM-DD 형식 필요)"@),
            spec_parse_date(date_str@) matches Some(d) ==> (r == Ok::<(i32, u32, u32), AppError>(d)
                || (r matches Err(AppError::BadRequest(m)) && m@ == "회고 날짜는 오늘 이후만 허용됩니다."@)),
    {
        let parsed = parse_date(date_str);
        match parsed {
            None => Err(AppError::BadRequest("날짜 형식이 올바르지 않습니다. (YYYY-MM-DD 형식 필요)".to_owned())),
            Some(d) => {
                let now = now_utc_secs();
                if !in_time_range(now) {
                    return Err(AppError::BadRequest("회고 날짜는 오늘 이후만 허용됩니다.".to_owned()));
                }
                let c = civil(now);
                Self::check_date_not_past(d, (c.0, c.1, c.2))
            },
        }
    }

    /// Parses an `HH:mm` time as `(hour, minute)`.
    pub fn validate_and_parse_time(time_str: &str) -> (r: Result<(u32, u32), AppError>)
        ensures
            spec_parse_hm(time_str@) is None ==> (r matches Err(AppError::BadRequest(m))
                && m@ == "시간 형식이 올바르지 않습니다. (HH:mm 형식 필요)"@),
            spec_parse_hm(time_str@) matches Some(t) ==> r == Ok::<(u32, u32), AppError>(t),
    {
        match parse_hm(time_str) {
            None => Err(AppError::BadRequest("시간 형식이 올바르지 않습니다. (HH:mm 형식 필요)".to_owned())),
            Some(t) => Ok(t),
        }
    }

    /// Accepts a start minute only if it lies after `now_kst`, the current Korean time.
    pub fn check_future_datetime(
        date: (i32, u32, u32),
        time: (u32, u32),
        now_kst: (i32, u32, u32, u32, u32, u32),
    ) -> (r: Result<(), AppError>)
        ensures
            not_after(date, time, now_kst) ==> (r matches Err(AppError::BadRequest(m))
                && m@ == "회고 날짜와 시간은 현재보다 미래여야 합니다."@),
            !not_after(date, time, now_kst) ==> r is Ok,
    {
        let late = if date.0 != now_kst.0 {
            date.0 < now_kst.0
        } else if date.1 != now_kst.1 {
            date.1 < now_kst.1
        } else if date.2 != now_kst.2 {
            date.2 < now_kst.2
        } else if time.0 != now_kst.3 {
            time.0 < now_kst.3
        } else {
            time.1 <= now_kst.4
        };
        if late {
            return Err(AppError::BadRequest("회고 날짜와 시간은 현재보다 미래여야 합니다.".to_owned()));
        }
        Ok(())
    }

    /// Accepts a start minute only if it lies after the current time in Korea (UTC+9), read
    /// from the clock (see `check_future_datetime` for the comparison): `Ok`, or the error
    /// that it is not in the future. Which of the two depends on the clock.
    pub fn validate_future_datetime(date: (i32, u32, u32), time: (u32, u32)) -> (r: Result<(), AppError>)
        ensures
            r is Ok || (r matches Err(AppError::BadRequest(m)) && m@ == "회고 날짜와 시간은 현재보다 미래여야 합니다."@),
    {
        let now = now_utc_secs();
        if now > i64::MAX - KST_OFFSET_SECS || !in_time_range(now + KST_OFFSET_SECS) {
            return Err(AppError::BadRequest("회고 날짜와 시간은 현재보다 미래여야 합니다.".to_owned()));
        }
        let c = civil(now + KST_OFFSET_SECS);
        Self::check_future_datetime(date, time, c)
    }
}

/// The links pass `validate_reference_urls`.
pub open spec fn urls_valid(urls: Seq<String>) -> bool {
    all_distinct(views(urls)) && forall|i: int| 0 <= i < urls.len() ==> url_ok(#[trigger] urls[i]@)
}

impl RetrospectService {
    /// The checks of a request for a new retrospective, in order: its links, its date (not
    /// before today), its time, and that the start lies in the future (Korean time). Gives
    /// the parsed date and time. What the clock says decides the two time checks; the
    /// others are decided by the request alone.
    pub fn validate_retrospect_request(urls: &[String], date_str: &str, time_str: &str) -> (r: Result<
        ((i32, u32, u32), (u32, u32)),
        AppError,
    >)
        ensures
            !urls_valid(urls@) ==> (r matches Err(AppError::RetroUrlInvalid(_))),
            urls_valid(urls@) && spec_parse_date(date_str@) is None ==> (r matches Err(AppError::BadRequest(m))
                && m@ == "날짜 형식이 올바르지 않습니다. (YYYY-MM-DD 형식 필요)"@),
            urls_valid(urls@) && spec_parse_date(date_str@) is Some && spec_parse_hm(time_str@) is None
                ==> (r matches Err(AppError::BadRequest(m)) && (m@ == "시간 형식이 올바르지 않습니다. (HH:mm 형식 필요)"@
                || m@ == "회고 날짜는 오늘 이후만 허용됩니다."@)),
            spec_parse_date(date_str@) matches Some(d) ==> (spec_parse_hm(time_str@) matches Some(t) ==> (urls_valid(urls@)
                ==> (r == Ok::<((i32, u32, u32), (u32, u32)), AppError>((d, t)) || (r matches Err(AppError::BadRequest(m))
                && (m@ == "회고 날짜는 오늘 이후만 허용됩니다."@ || m@ == "회고 날짜와 시간은 현재보다 미래여야 합니다."@))))),
            r matches Err(AppError::RetroUrlInvalid(_)) ==> !urls_valid(urls@),
            r matches Ok((d, t)) ==> urls_valid(urls@) && spec_parse_date(date_str@) == Some(d)
                && spec_parse_hm(time_str@) == Some(t),
    {
        match Self::validate_reference_urls(urls) {
            Ok(()) => {},
            Err(e) => {
                proof {
                    if urls_valid(urls@) {
                        assert(forall|i: int| 0 <= i < urls@.len() ==> url_ok(#[trigger] urls@[i]@));
                    }
                    if !urls_valid(urls@) && all_distinct(views(urls@)) {
                        let k = choose|k: int| 0 <= k < urls@.len() && !url_ok(#[trigger] urls@[k]@);
                        assert(views(urls@)[k] == urls@[k]@);
                        lemma_first_bad_url(views(urls@), k);
                        let j = choose|j: int| first_bad_url(views(urls@), j);
                        assert(views(urls@)[j] == urls@[j]@);
                    }
                }
                return Err(e);
            },
        }
        proof {
            if !urls_valid(urls@) && all_distinct(views(urls@)) {
                let k = choose|k: int| 0 <= k < urls@.len() && !url_ok(#[trigger] urls@[k]@);
                assert(views(urls@)[k] == urls@[k]@);
                lemma_first_bad_url(views(urls@), k);
                let j = choose|j: int| first_bad_url(views(urls@), j);
                assert(views(urls@)[j] == urls@[j]@);
            }
        }
        let date = match Self::validate_and_parse_date(date_str) {
            Ok(d) => d,
            Err(e) => {
                return Err(e);
            },
        };
        let time = match Self::validate_and_parse_time(time_str) {
            Ok(t) => t,
            Err(e) => {
                return Err(e);
            },
        };
        match Self::validate_future_datetime(date, time) {
            Ok(()) => Ok((date, time)),
            Err(e) => Err(e),
        }
    }
}

/// Some link fails when one at or after `k` fails: there is a first failing one.
proof fn lemma_first_bad_url(urls: Seq<Seq<char>>, k: int)
    requires
        0 <= k < urls.len(),
        !url_ok(urls[k]),
    ensures
        exists|j: int| first_bad_url(urls, j),
    decreases k,
{
    if forall|i: int| 0 <= i < k ==> url_ok(#[trigger] urls[i]) {
        assert(first_bad_url(urls, k));
    } else {
        let i = choose|i: int| 0 <= i < k && !url_ok(#[trigger] urls[i]);
        lemma_first_bad_url(urls, i);
    }
}

/// A keyword that was accepted, validated again, is accepted unchanged: it is already
/// trimmed and still within the length limits.
pub proof fn law_keyword_validation_idempotent(keyword: Seq<char>)
    requires
        1 <= trim(keyword).len() <= KEYWORD_MAX_CHARS,
    ensures
        trim(trim(keyword)) == trim(keyword),
        1 <= trim(trim(keyword)).len() <= KEYWORD_MAX_CHARS,
{
    crate::text::lemma_trim_idempotent(keyword);
}

} // verus!
