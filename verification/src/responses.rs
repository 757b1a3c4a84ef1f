//! Category filtering and cursor paging of the answers of one retrospective.
use vstd::prelude::*;
use crate::text::{all_ws, is_blank, last_value, views};

verus! {

/// One answer row (`response`): the question it answers and its text.
pub struct ResponseRow {
    pub response_id: i64,
    pub question: String,
    pub content: String,
}

/// One `member_response` row: which member wrote an answer (`None` once the member left).
pub struct MemberResponseRow {
    pub response_id: i64,
    pub member_id: Option<i64>,
}

/// A member's id and nickname.
pub struct MemberRow {
    pub member_id: i64,
    pub nickname: Option<String>,
}

/// Which answers to list: all of them, or those of one question (by position).
#[derive(Debug, Clone, Copy, PartialEq, Eq, Structural)]
pub enum ResponseCategory {
    All,
    Question1,
    Question2,
    Question3,
    Question4,
    Question5,
}

/// Zero-based question position of a category; `None` for `All`.
pub open spec fn category_index(c: ResponseCategory) -> Option<int> {
    match c {
        ResponseCategory::All => None,
        ResponseCategory::Question1 => Some(0),
        ResponseCategory::Question2 => Some(1),
        ResponseCategory::Question3 => Some(2),
        ResponseCategory::Question4 => Some(3),
        ResponseCategory::Question5 => Some(4),
    }
}

impl ResponseCategory {
    /// Zero-based question position; `None` for `All`.
    pub fn question_index(&self) -> (r: Option<usize>)
        ensures
            r matches Some(i) ==> category_index(*self) == Some(i as int),
            r is None <==> category_index(*self) is None,
    {
        match self {
            ResponseCategory::All => None,
            ResponseCategory::Question1 => Some(0),
            ResponseCategory::Question2 => Some(1),
            ResponseCategory::Question3 => Some(2),
            ResponseCategory::Question4 => Some(3),
            ResponseCategory::Question5 => Some(4),
        }
    }
}

/// Answer ids are strictly increasing (the rows come ordered by their primary key).
pub open spec fn ids_increasing(rows: Seq<ResponseRow>) -> bool {
    forall|i: int, j: int| 0 <= i < j < rows.len() ==> rows[i].response_id < rows[j].response_id
}

/// Smallest member id among the authorship rows, if any row names a member.
pub open spec fn min_member(mrs: Seq<MemberResponseRow>) -> Option<i64>
    decreases mrs.len(),
{
    if mrs.len() == 0 {
        None
    } else {
        let rest = min_member(mrs.drop_last());
        match mrs.last().member_id {
            None => rest,
            Some(m) => match rest {
                None => Some(m),
                Some(r) => Some(if m < r { m } else { r }),
            },
        }
    }
}

/// Answer ids written by member `m`, in row order.
pub open spec fn ids_of_member(mrs: Seq<MemberResponseRow>, m: i64) -> Seq<i64>
    decreases mrs.len(),
{
    if mrs.len() == 0 {
        Seq::empty()
    } else if mrs.last().member_id == Some(m) {
        ids_of_member(mrs.drop_last(), m).push(mrs.last().response_id)
    } else {
        ids_of_member(mrs.drop_last(), m)
    }
}

/// Question of the last row with id `rid`.
pub open spec fn question_of(rows: Seq<ResponseRow>, rid: i64) -> Option<Seq<char>>
    decreases rows.len(),
{
    if rows.len() == 0 {
        None
    } else if rows.last().response_id == rid {
        Some(rows.last().question@)
    } else {
        question_of(rows.drop_last(), rid)
    }
}

/// Questions of the given answer ids, skipping ids without a row.
pub open spec fn questions_of_ids(rows: Seq<ResponseRow>, ids: Seq<i64>) -> Seq<Seq<char>>
    decreases ids.len(),
{
    if ids.len() == 0 {
        Seq::empty()
    } else {
        let rest = questions_of_ids(rows, ids.drop_last());
        match question_of(rows, ids.last()) {
            Some(q) => rest.push(q),
            None => rest,
        }
    }
}

/// Distinct questions in order of first appearance.
pub open spec fn distinct_questions(rows: Seq<ResponseRow>) -> Seq<Seq<char>>
    decreases rows.len(),
{
    if rows.len() == 0 {
        Seq::empty()
    } else {
        let rest = distinct_questions(rows.drop_last());
        if rest.contains(rows.last().question@) {
            rest
        } else {
            rest.push(rows.last().question@)
        }
    }
}

/// The ordered question list of the retrospective: the questions answered by the member with
/// the smallest id, in answer-id order; when no member is known, the distinct questions.
pub open spec fn question_texts(rows: Seq<ResponseRow>, mrs: Seq<MemberResponseRow>) -> Seq<
    Seq<char>,
> {
    let ids = match min_member(mrs) {
        Some(m) => ids_of_member(mrs, m),
        None => Seq::empty(),
    };
    if ids.len() == 0 {
        distinct_questions(rows)
    } else {
        questions_of_ids(rows, ids)
    }
}

/// Whether an answer is listed: it belongs to the category's question (when one is chosen),
/// its content is not blank, and its id lies below the cursor.
pub open spec fn listed(
    r: ResponseRow,
    target: Option<Seq<char>>,
    cursor: Option<i64>,
) -> bool {
    &&& (target matches Some(q) ==> r.question@ == q)
    &&& !all_ws(r.content@)
    &&& (cursor matches Some(c) ==> r.response_id < c)
}

/// Listed answers in row order.
pub open spec fn listed_rows(
    rows: Seq<ResponseRow>,
    target: Option<Seq<char>>,
    cursor: Option<i64>,
) -> Seq<ResponseRow>
    decreases rows.len(),
{
    if rows.len() == 0 {
        Seq::empty()
    } else if listed(rows.last(), target, cursor) {
        listed_rows(rows.drop_last(), target, cursor).push(rows.last())
    } else {
        listed_rows(rows.drop_last(), target, cursor)
    }
}

/// The question a category selects: `Some(None)` for all answers, `Some(Some(q))` for one
/// question, `None` when the category's position has no question.
pub open spec fn category_target(
    rows: Seq<ResponseRow>,
    mrs: Seq<MemberResponseRow>,
    cat: ResponseCategory,
) -> Option<Option<Seq<char>>> {
    match category_index(cat) {
        None => Some(None),
        Some(i) => if i < question_texts(rows, mrs).len() {
            Some(Some(question_texts(rows, mrs)[i]))
        } else {
            None
        },
    }
}

/// Candidates for the page, newest (largest id) first.
pub open spec fn page_candidates(
    rows: Seq<ResponseRow>,
    mrs: Seq<MemberResponseRow>,
    cat: ResponseCategory,
    cursor: Option<i64>,
) -> Seq<ResponseRow> {
    match category_target(rows, mrs, cat) {
        None => Seq::empty(),
        Some(t) => listed_rows(rows, t, cursor).reverse(),
    }
}

/// The answers of one page: the first `size` candidates.
pub open spec fn page_rows(
    rows: Seq<ResponseRow>,
    mrs: Seq<MemberResponseRow>,
    cat: ResponseCategory,
    cursor: Option<i64>,
    size: int,
) -> Seq<ResponseRow> {
    let c = page_candidates(rows, mrs, cat, cursor);
    if c.len() <= size {
        c
    } else {
        c.take(size)
    }
}

/// Whether a further page exists: this page is not empty and more than `size` candidates exist.
pub open spec fn page_has_next(
    rows: Seq<ResponseRow>,
    mrs: Seq<MemberResponseRow>,
    cat: ResponseCategory,
    cursor: Option<i64>,
    size: int,
) -> bool {
    page_rows(rows, mrs, cat, cursor, size).len() > 0 && page_candidates(
        rows,
        mrs,
        cat,
        cursor,
    ).len() > size
}

/// A selected page of answers.
pub struct ResponsePage {
    pub rows: Vec<ResponseRow>,
    pub has_next: bool,
}

fn clone_row(r: &ResponseRow) -> (c: ResponseRow)
    ensures
        c == *r,
{
    ResponseRow { response_id: r.response_id, question: r.question.clone(), content: r.content.clone() }
}

fn min_member_exec(mrs: &Vec<MemberResponseRow>) -> (r: Option<i64>)
    ensures
        r == min_member(mrs@),
{
    let mut best: Option<i64> = None;
    let mut i: usize = 0;
    while i < mrs.len()
        invariant
            i <= mrs.len(),
            best == min_member(mrs@.take(i as int)),
        decreases mrs.len() - i,
    {
        assert(mrs@.take(i + 1).drop_last() =~= mrs@.take(i as int));
        match mrs[i].member_id {
            None => {},
            Some(m) => {
                best = match best {
                    None => Some(m),
                    Some(b) => Some(if m < b { m } else { b }),
                };
            },
        }
        i = i + 1;
    }
    assert(mrs@.take(mrs.len() as int) =~= mrs@);
    best
}

fn ids_of_member_exec(mrs: &Vec<MemberResponseRow>, m: i64) -> (r: Vec<i64>)
    ensures
        r@ == ids_of_member(mrs@, m),
{
    let mut out: Vec<i64> = Vec::new();
    let mut i: usize = 0;
    while i < mrs.len()
        invariant
            i <= mrs.len(),
            out@ == ids_of_member(mrs@.take(i as int), m),
        decreases mrs.len() - i,
    {
        assert(mrs@.take(i + 1).drop_last() =~= mrs@.take(i as int));
        if mrs[i].member_id == Some(m) {
            out.push(mrs[i].response_id);
        }
        i = i + 1;
    }
    assert(mrs@.take(mrs.len() as int) =~= mrs@);
    out
}

fn question_of_exec(rows: &Vec<ResponseRow>, rid: i64) -> (r: Option<String>)
    ensures
        r matches Some(q) ==> question_of(rows@, rid) == Some(q@),
        r is None <==> question_of(rows@, rid) is None,
{
    let mut i: usize = rows.len();
    assert(rows@.take(rows.len() as int) =~= rows@);
    while i > 0
        invariant
            i <= rows.len(),
            question_of(rows@, rid) == question_of(rows@.take(i as int), rid),
        decreases i,
    {
        assert(rows@.take(i as int).drop_last() =~= rows@.take(i - 1));
        if rows[i - 1].response_id == rid {
            return Some(rows[i - 1].question.clone());
        }
        i = i - 1;
    }
    None
}

fn contains_text(v: &Vec<String>, s: &String) -> (b: bool)
    ensures
        b == views(v@).contains(s@),
{
    let mut i: usize = 0;
    while i < v.len()
        invariant
            i <= v.len(),
            forall|j: int| 0 <= j < i ==> v@[j]@ != s@,
        decreases v.len() - i,
    {
        if v[i] == *s {
            assert(views(v@)[i as int] == s@);
            return true;
        }
        i = i + 1;
    }
    proof {
        if views(v@).contains(s@) {
            let j = choose|j: int|
                0 <= j < v@.len() && #[trigger] views(v@)[j] == s@;
            assert(v@[j]@ == s@);
        }
    }
    false
}

/// Distinct questions of the rows, in order of first appearance.
pub fn distinct_question_list(rows: &Vec<ResponseRow>) -> (out: Vec<String>)
    ensures
        views(out@) == distinct_questions(rows@),
{
    let mut out: Vec<String> = Vec::new();
    let mut i: usize = 0;
    while i < rows.len()
        invariant
            i <= rows.len(),
            views(out@) == distinct_questions(rows@.take(i as int)),
        decreases rows.len() - i,
    {
        assert(rows@.take(i + 1).drop_last() =~= rows@.take(i as int));
        if !contains_text(&out, &rows[i].question) {
            let ghost before = out@;
            out.push(rows[i].question.clone());
            assert(views(out@) =~= views(before).push(rows[i as int].question@));
        }
        i = i + 1;
    }
    assert(rows@.take(rows.len() as int) =~= rows@);
    out
}

/// The ordered question list (see [`question_texts`]).
pub fn collect_question_texts(rows: &Vec<ResponseRow>, mrs: &Vec<MemberResponseRow>) -> (r: Vec<
    String,
>)
    ensures
        views(r@) == question_texts(rows@, mrs@),
{
    let first = min_member_exec(mrs);
    let ids = match first {
        Some(m) => ids_of_member_exec(mrs, m),
        None => Vec::new(),
    };
    let mut out: Vec<String> = Vec::new();
    if ids.len() == 0 {
        out = distinct_question_list(rows);
    } else {
        let mut i: usize = 0;
        while i < ids.len()
            invariant
                i <= ids.len(),
                ids@.len() > 0,
                ids@ == match min_member(mrs@) {
                    Some(m) => ids_of_member(mrs@, m),
                    None => Seq::empty(),
                },
                views(out@) == questions_of_ids(rows@, ids@.take(i as int)),
            decreases ids.len() - i,
        {
            assert(ids@.take(i + 1).drop_last() =~= ids@.take(i as int));
            match question_of_exec(rows, ids[i]) {
                Some(q) => {
                    let ghost before = out@;
                    out.push(q);
                    assert(views(out@) =~= views(before).push(
                        question_of(rows@, ids@[i as int])->0,
                    ));
                },
                None => {},
            }
            i = i + 1;
        }
        assert(ids@.take(ids.len() as int) =~= ids@);
    }
    out
}

/// View of an optional string.
pub open spec fn opt_view(o: Option<String>) -> Option<Seq<char>> {
    match o {
        Some(s) => Some(s@),
        None => None,
    }
}

fn listed_exec(r: &ResponseRow, target: &Option<String>, cursor: Option<i64>) -> (b: bool)
    ensures
        b == listed(*r, opt_view(*target), cursor),
{
    let in_question = match target {
        Some(t) => r.question == *t,
        None => true,
    };
    let below = match cursor {
        Some(c) => r.response_id < c,
        None => true,
    };
    in_question && !is_blank(r.content.as_str()) && below
}

/// Whether the answers come in strictly increasing id order, as `select_response_page`
/// needs them.
pub fn response_ids_increasing(rows: &Vec<ResponseRow>) -> (r: bool)
    ensures
        r == ids_increasing(rows@),
{
    let n = rows.len();
    if n == 0 {
        return true;
    }
    let mut i: usize = 0;
    while i + 1 < n
        invariant
            n == rows@.len(),
            n > 0,
            i < n,
            forall|a: int, b: int| 0 <= a < b <= i ==> rows@[a].response_id < rows@[b].response_id,
        decreases n - i,
    {
        if rows[i].response_id >= rows[i + 1].response_id {
            return false;
        }
        i = i + 1;
    }
    true
}

/// Selects one page of a retrospective's answers.
///
/// `rows` are all answers of the retrospective (ids ascending) and `mrs` their authorship rows
/// (ids ascending). The page lists the answers of the category's question (all answers for
/// `All`) whose content is not blank and whose id is below `cursor`, newest first, at most
/// `size` of them; `has_next` says whether more remain. A category whose question position does
/// not exist gives an empty page.
pub fn select_response_page(
    rows: &Vec<ResponseRow>,
    mrs: &Vec<MemberResponseRow>,
    category: ResponseCategory,
    cursor: Option<i64>,
    size: i64,
) -> (p: ResponsePage)
    requires
        ids_increasing(rows@),
        0 <= size < i64::MAX,
    ensures
        p.rows@ == page_rows(rows@, mrs@, category, cursor, size as int),
        p.has_next == page_has_next(rows@, mrs@, category, cursor, size as int),
{
    let empty = ResponsePage { rows: Vec::new(), has_next: false };
    if rows.len() == 0 {
        assert(page_candidates(rows@, mrs@, category, cursor) =~= Seq::<ResponseRow>::empty()) by {
            assert(listed_rows(rows@, None, cursor) =~= Seq::<ResponseRow>::empty());
            if let Some(i) = category_index(category) {
                if i < question_texts(rows@, mrs@).len() {
                    assert(listed_rows(rows@, Some(question_texts(rows@, mrs@)[i]), cursor)
                        =~= Seq::<ResponseRow>::empty());
                }
            }
        }
        assert(empty.rows@ =~= page_rows(rows@, mrs@, category, cursor, size as int));
        return empty;
    }
    let texts = collect_question_texts(rows, mrs);
    let target: Option<String> = match category.question_index() {
        None => None,
        Some(idx) => {
            if idx >= texts.len() {
                assert(empty.rows@ =~= page_rows(rows@, mrs@, category, cursor, size as int));
                return empty;
            }
            Some(texts[idx].clone())
        },
    };
    let ghost t = opt_view(target);
    assert(category_target(rows@, mrs@, category) == Some(t)) by {
        if let Some(i) = category_index(category) {
            assert(views(texts@)[i] == texts@[i]@);
        }
    }
    // Listed answers in ascending id order.
    let mut asc: Vec<ResponseRow> = Vec::new();
    let mut i: usize = 0;
    while i < rows.len()
        invariant
            i <= rows.len(),
            asc@ == listed_rows(rows@.take(i as int), t, cursor),
            t == opt_view(target),
        decreases rows.len() - i,
    {
        assert(rows@.take(i + 1).drop_last() =~= rows@.take(i as int));
        if listed_exec(&rows[i], &target, cursor) {
            asc.push(clone_row(&rows[i]));
        }
        i = i + 1;
    }
    assert(rows@.take(rows.len() as int) =~= rows@);
    let ghost cands = asc@.reverse();
    assert(cands == page_candidates(rows@, mrs@, category, cursor));
    // Newest first, at most `size` of them.
    let n = asc.len();
    let mut page: Vec<ResponseRow> = Vec::new();
    let mut k: usize = 0;
    while k < n && (k as i128) < (size as i128)
        invariant
            n == asc@.len(),
            k <= n,
            k <= size,
            cands == asc@.reverse(),
            page@ == cands.take(k as int),
        decreases n - k,
    {
        page.push(clone_row(&asc[n - 1 - k]));
        assert(page@ =~= cands.take(k + 1));
        k = k + 1;
    }
    if page.len() == 0 {
        assert(empty.rows@ =~= page_rows(rows@, mrs@, category, cursor, size as int));
        return empty;
    }
    assert(cands.len() == n);
    proof {
        if n <= size {
            assert(cands.take(n as int) =~= cands);
        }
    }
    assert(page@ == page_rows(rows@, mrs@, category, cursor, size as int));
    let has_next = (n as i128) > (size as i128);
    ResponsePage { rows: page, has_next }
}

/// One listed answer with its author's nickname and reaction counts.
pub struct ResponseListItem {
    pub response_id: i64,
    pub user_name: String,
    pub content: String,
    pub like_count: i64,
    pub comment_count: i64,
}

/// A page of listed answers.
pub struct ResponsesListResponse {
    pub responses: Vec<ResponseListItem>,
    pub has_next: bool,
    pub next_cursor: Option<i64>,
}

/// Author of answer `rid`: the member of the last authorship row for it that names one.
pub open spec fn author_of(mrs: Seq<MemberResponseRow>, rid: i64) -> Option<i64>
    decreases mrs.len(),
{
    if mrs.len() == 0 {
        None
    } else if mrs.last().response_id == rid && mrs.last().member_id is Some {
        mrs.last().member_id
    } else {
        author_of(mrs.drop_last(), rid)
    }
}

/// The last member row with id `id`.
pub open spec fn member_of(members: Seq<MemberRow>, id: i64) -> Option<MemberRow>
    decreases members.len(),
{
    if members.len() == 0 {
        None
    } else if members.last().member_id == id {
        Some(members.last())
    } else {
        member_of(members.drop_last(), id)
    }
}

/// Display name of an answer's author: the nickname, or empty when unknown.
pub open spec fn author_name(
    mrs: Seq<MemberResponseRow>,
    members: Seq<MemberRow>,
    rid: i64,
) -> Seq<char> {
    match author_of(mrs, rid) {
        Some(m) => match member_of(members, m) {
            Some(row) => match row.nickname {
                Some(n) => n@,
                None => Seq::empty(),
            },
            None => Seq::empty(),
        },
        None => Seq::empty(),
    }
}

/// A count from `(id, count)` pairs (last pair wins), zero when absent.
pub open spec fn count_for(pairs: Seq<(i64, i64)>, id: i64) -> i64 {
    match last_value(pairs, id) {
        Some(c) => c,
        None => 0,
    }
}

/// The author of answer `rid` (see [`author_of`]).
pub fn author_of_lookup(mrs: &Vec<MemberResponseRow>, rid: i64) -> (r: Option<i64>)
    ensures
        r == author_of(mrs@, rid),
{
    let mut i: usize = mrs.len();
    assert(mrs@.take(mrs.len() as int) =~= mrs@);
    while i > 0
        invariant
            i <= mrs.len(),
            author_of(mrs@, rid) == author_of(mrs@.take(i as int), rid),
        decreases i,
    {
        assert(mrs@.take(i as int).drop_last() =~= mrs@.take(i - 1));
        if mrs[i - 1].response_id == rid && mrs[i - 1].member_id.is_some() {
            return mrs[i - 1].member_id;
        }
        i = i - 1;
    }
    None
}

/// Position of the last member row with id `id`.
pub fn find_member(members: &Vec<MemberRow>, id: i64) -> (r: Option<usize>)
    ensures
        r matches Some(i) ==> i < members@.len() && member_of(members@, id) == Some(
            members@[i as int],
        ),
        r is None <==> member_of(members@, id) is None,
{
    let mut i: usize = members.len();
    assert(members@.take(members.len() as int) =~= members@);
    while i > 0
        invariant
            i <= members.len(),
            member_of(members@, id) == member_of(members@.take(i as int), id),
        decreases i,
    {
        assert(members@.take(i as int).drop_last() =~= members@.take(i - 1));
        if members[i - 1].member_id == id {
            return Some(i - 1);
        }
        i = i - 1;
    }
    None
}

/// The count paired with `id` (last pair wins), zero when absent.
pub fn count_lookup(pairs: &Vec<(i64, i64)>, id: i64) -> (c: i64)
    ensures
        c == count_for(pairs@, id),
{
    let mut i: usize = pairs.len();
    assert(pairs@.take(pairs.len() as int) =~= pairs@);
    while i > 0
        invariant
            i <= pairs.len(),
            last_value(pairs@, id) == last_value(pairs@.take(i as int), id),
        decreases i,
    {
        assert(pairs@.take(i as int).drop_last() =~= pairs@.take(i - 1));
        if pairs[i - 1].0 == id {
            return pairs[i - 1].1;
        }
        i = i - 1;
    }
    0
}

fn author_name_exec(mrs: &Vec<MemberResponseRow>, members: &Vec<MemberRow>, rid: i64) -> (s:
    String)
    ensures
        s@ == author_name(mrs@, members@, rid),
{
    match author_of_lookup(mrs, rid) {
        Some(m) => match find_member(members, m) {
            Some(i) => match &members[i].nickname {
                Some(n) => n.clone(),
                None => String::new(),
            },
            None => String::new(),
        },
        None => String::new(),
    }
}

/// Builds the listed page: each answer with its author's nickname (empty when unknown) and its
/// like and comment counts (zero when absent), and the cursor of the next page (the last
/// answer's id) when there is one.
pub fn build_response_list(
    page: ResponsePage,
    authors: &Vec<MemberResponseRow>,
    members: &Vec<MemberRow>,
    like_counts: &Vec<(i64, i64)>,
    comment_counts: &Vec<(i64, i64)>,
) -> (r: ResponsesListResponse)
    ensures
        r.responses@.len() == page.rows@.len(),
        forall|i: int|
            0 <= i < page.rows@.len() ==> {
                let item = #[trigger] r.responses@[i];
                let row = page.rows@[i];
                &&& item.response_id == row.response_id
                &&& item.content@ == row.content@
                &&& item.user_name@ == author_name(authors@, members@, row.response_id)
                &&& item.like_count == count_for(like_counts@, row.response_id)
                &&& item.comment_count == count_for(comment_counts@, row.response_id)
            },
        r.has_next == (page.has_next && page.rows@.len() > 0),
        r.next_cursor == if page.has_next && page.rows@.len() > 0 {
            Some(page.rows@.last().response_id)
        } else {
            None
        },
{
    let mut items: Vec<ResponseListItem> = Vec::new();
    let mut i: usize = 0;
    while i < page.rows.len()
        invariant
            i <= page.rows@.len(),
            items@.len() == i,
            forall|j: int|
                0 <= j < i ==> {
                    let item = #[trigger] items@[j];
                    let row = page.rows@[j];
                    &&& item.response_id == row.response_id
                    &&& item.content@ == row.content@
                    &&& item.user_name@ == author_name(authors@, members@, row.response_id)
                    &&& item.like_count == count_for(like_counts@, row.response_id)
                    &&& item.comment_count == count_for(comment_counts@, row.response_id)
                },
        decreases page.rows@.len() - i,
    {
        let row = &page.rows[i];
        let item = ResponseListItem {
            response_id: row.response_id,
            user_name: author_name_exec(authors, members, row.response_id),
            content: row.content.clone(),
            like_count: count_lookup(like_counts, row.response_id),
            comment_count: count_lookup(comment_counts, row.response_id),
        };
        items.push(item);
        i = i + 1;
    }
    let has_next = page.has_next && items.len() > 0;
    let next_cursor = if has_next {
        Some(items[items.len() - 1].response_id)
    } else {
        None
    };
    ResponsesListResponse { responses: items, has_next, next_cursor }
}

proof fn lemma_listed_subset(rows: Seq<ResponseRow>, t: Option<Seq<char>>, cursor: Option<i64>)
    ensures
        forall|k: int| 0 <= k < listed_rows(rows, t, cursor).len() ==> rows.contains(
            #[trigger] listed_rows(rows, t, cursor)[k],
        ),
        forall|k: int| 0 <= k < listed_rows(rows, t, cursor).len() ==> listed(
            #[trigger] listed_rows(rows, t, cursor)[k],
            t,
            cursor,
        ),
    decreases rows.len(),
{
    if rows.len() > 0 {
        lemma_listed_subset(rows.drop_last(), t, cursor);
        let rest = listed_rows(rows.drop_last(), t, cursor);
        assert forall|k: int| 0 <= k < rest.len() implies rows.contains(#[trigger] rest[k]) by {
            let j = choose|j: int| 0 <= j < rows.drop_last().len() && rows.drop_last()[j] == rest[k];
            assert(rows[j] == rest[k]);
        }
        assert(rows[rows.len() - 1] == rows.last());
    }
}

proof fn lemma_listed_nested(rows: Seq<ResponseRow>, t: Option<Seq<char>>, cursor: Option<i64>, c: i64)
    requires
        cursor matches Some(k) ==> c < k,
    ensures
        listed_rows(rows, t, Some(c)) == listed_rows(listed_rows(rows, t, cursor), t, Some(c)),
    decreases rows.len(),
{
    if rows.len() > 0 {
        lemma_listed_nested(rows.drop_last(), t, cursor, c);
        let b = listed_rows(rows, t, cursor);
        let rest = listed_rows(rows.drop_last(), t, cursor);
        if listed(rows.last(), t, cursor) {
            assert(b == rest.push(rows.last()));
            assert(b.drop_last() =~= rest);
        }
    }
}

proof fn lemma_listed_all(b: Seq<ResponseRow>, t: Option<Seq<char>>, c: i64)
    requires
        forall|i: int| 0 <= i < b.len() ==> listed(#[trigger] b[i], t, Some(c)),
    ensures
        listed_rows(b, t, Some(c)) == b,
    decreases b.len(),
{
    if b.len() > 0 {
        lemma_listed_all(b.drop_last(), t, c);
        assert(b.drop_last().push(b.last()) =~= b);
    }
}

proof fn lemma_listed_prefix(b: Seq<ResponseRow>, t: Option<Seq<char>>, cursor: Option<i64>, m: int)
    requires
        ids_increasing(b),
        forall|i: int| 0 <= i < b.len() ==> listed(#[trigger] b[i], t, cursor),
        0 <= m < b.len(),
    ensures
        listed_rows(b, t, Some(b[m].response_id)) == b.take(m),
    decreases b.len(),
{
    let c = b[m].response_id;
    if m == b.len() - 1 {
        assert forall|i: int| 0 <= i < b.drop_last().len() implies listed(#[trigger] b.drop_last()[i], t, Some(c)) by {
            assert(listed(b[i], t, cursor));
        }
        lemma_listed_all(b.drop_last(), t, c);
        assert(b.drop_last() =~= b.take(m));
    } else {
        assert(b.drop_last()[m] == b[m]);
        lemma_listed_prefix(b.drop_last(), t, cursor, m);
        assert(b.drop_last().take(m) =~= b.take(m));
    }
}

proof fn lemma_listed_increasing(rows: Seq<ResponseRow>, t: Option<Seq<char>>, cursor: Option<i64>)
    requires
        ids_increasing(rows),
    ensures
        ids_increasing(listed_rows(rows, t, cursor)),
    decreases rows.len(),
{
    if rows.len() > 0 {
        let d = rows.drop_last();
        lemma_listed_increasing(d, t, cursor);
        lemma_listed_subset(d, t, cursor);
        let rest = listed_rows(d, t, cursor);
        if listed(rows.last(), t, cursor) {
            assert forall|i: int| 0 <= i < rest.len() implies (#[trigger] rest[i]).response_id < rows.last().response_id by {
                let j = choose|j: int| 0 <= j < d.len() && d[j] == rest[i];
                assert(rows[j] == d[j]);
            }
        }
    }
}

/// Paging through the answers of a category neither skips nor repeats one: when a page has
/// a next one, the page that starts at the id of its last answer offers exactly the answers
/// that follow this page.
pub proof fn law_response_pages_continue(
    rows: Seq<ResponseRow>,
    mrs: Seq<MemberResponseRow>,
    cat: ResponseCategory,
    cursor: Option<i64>,
    size: int,
)
    requires
        ids_increasing(rows),
        0 <= size,
        page_has_next(rows, mrs, cat, cursor, size),
    ensures
        page_candidates(rows, mrs, cat, Some(page_rows(rows, mrs, cat, cursor, size).last().response_id))
            == page_candidates(rows, mrs, cat, cursor).skip(size),
{
    let t = category_target(rows, mrs, cat)->0;
    let b = listed_rows(rows, t, cursor);
    let n = b.len();
    let cands = b.reverse();
    assert(page_candidates(rows, mrs, cat, cursor) == cands);
    assert(page_rows(rows, mrs, cat, cursor, size) == cands.take(size));
    assert(size >= 1);
    let c = cands[size - 1].response_id;
    assert(cands.take(size).last() == cands[size - 1]);
    assert(cands[size - 1] == b[n - size]);
    lemma_listed_subset(rows, t, cursor);
    assert(listed(b[n - size], t, cursor));
    lemma_listed_nested(rows, t, cursor, c);
    lemma_listed_increasing(rows, t, cursor);
    lemma_listed_prefix(b, t, cursor, n - size);
    assert(b.take(n - size).reverse() =~= cands.skip(size));
}

} // verus!

verus! {

proof fn lemma_listed_complete(rows: Seq<ResponseRow>, t: Option<Seq<char>>, cursor: Option<i64>)
    ensures
        forall|k: int| 0 <= k < rows.len() && listed(#[trigger] rows[k], t, cursor) ==> listed_rows(
            rows,
            t,
            cursor,
        ).contains(rows[k]),
    decreases rows.len(),
{
    if rows.len() > 0 {
        let d = rows.drop_last();
        lemma_listed_complete(d, t, cursor);
        let rest = listed_rows(d, t, cursor);
        let b = listed_rows(rows, t, cursor);
        assert forall|k: int| 0 <= k < rows.len() && listed(#[trigger] rows[k], t, cursor) implies b.contains(rows[k]) by {
            if k < rows.len() - 1 {
                assert(d[k] == rows[k]);
                let j = choose|j: int| 0 <= j < rest.len() && rest[j] == d[k];
                if listed(rows.last(), t, cursor) {
                    assert(b[j] == rest[j]);
                } else {
                    assert(b[j] == rest[j]);
                }
            } else {
                assert(rows[k] == rows.last());
                assert(b[b.len() - 1] == rows.last());
            }
        }
    }
}

/// A page of answers holds the newest listed answers: at most `size` of them, ids strictly
/// descending, each one listed (right question, content not blank, below the cursor); any
/// listed answer left off the page is older than every answer on it; and, for a page size of
/// at least one, a next page exists exactly when more than `size` answers are listed.
pub proof fn law_response_page_newest_first(
    rows: Seq<ResponseRow>,
    mrs: Seq<MemberResponseRow>,
    cat: ResponseCategory,
    cursor: Option<i64>,
    size: int,
)
    requires
        ids_increasing(rows),
        1 <= size,
        category_target(rows, mrs, cat) is Some,
    ensures
        ({
            let t = category_target(rows, mrs, cat)->0;
            let q = listed_rows(rows, t, cursor);
            let p = page_rows(rows, mrs, cat, cursor, size);
            &&& p.len() == if q.len() < size { q.len() as int } else { size }
            &&& forall|i: int, j: int| 0 <= i < j < p.len() ==> p[i].response_id > p[j].response_id
            &&& forall|i: int| 0 <= i < p.len() ==> listed(#[trigger] p[i], t, cursor) && rows.contains(p[i])
            &&& forall|k: int| 0 <= k < rows.len() && listed(#[trigger] rows[k], t, cursor) && !p.contains(rows[k])
                ==> rows[k].response_id < p[p.len() - 1].response_id
            &&& page_has_next(rows, mrs, cat, cursor, size) <==> q.len() > size
        }),
{
    let t = category_target(rows, mrs, cat)->0;
    let q = listed_rows(rows, t, cursor);
    let n = q.len() as int;
    let cands = q.reverse();
    let p = page_rows(rows, mrs, cat, cursor, size);
    lemma_listed_subset(rows, t, cursor);
    lemma_listed_increasing(rows, t, cursor);
    lemma_listed_complete(rows, t, cursor);
    let m = if n < size { n } else { size };
    assert(p =~= cands.take(m));
    assert forall|i: int| 0 <= i < p.len() implies p[i] == q[n - 1 - i] by {}
    assert forall|i: int, j: int| 0 <= i < j < p.len() implies p[i].response_id > p[j].response_id by {
        assert(p[i] == q[n - 1 - i] && p[j] == q[n - 1 - j]);
    }
    assert forall|i: int| 0 <= i < p.len() implies listed(#[trigger] p[i], t, cursor) && rows.contains(p[i]) by {
        assert(p[i] == q[n - 1 - i]);
    }
    assert forall|k: int| 0 <= k < rows.len() && listed(#[trigger] rows[k], t, cursor) && !p.contains(rows[k])
        implies rows[k].response_id < p[p.len() - 1].response_id by {
        let j = choose|j: int| 0 <= j < q.len() && q[j] == rows[k];
        if j >= n - m {
            assert(p[n - 1 - j] == q[j]);
        } else {
            assert(p[p.len() - 1] == q[n - m]);
        }
    }
}

/// A category whose question position has no question (past the retrospective's questions,
/// or no answers at all) gives an empty page with no next one.
pub proof fn law_response_page_missing_question(
    rows: Seq<ResponseRow>,
    mrs: Seq<MemberResponseRow>,
    cat: ResponseCategory,
    cursor: Option<i64>,
    size: int,
)
    requires
        0 <= size,
        category_target(rows, mrs, cat) is None,
    ensures
        page_rows(rows, mrs, cat, cursor, size).len() == 0,
        !page_has_next(rows, mrs, cat, cursor, size),
{
}

} // verus!

verus! {

pub proof fn lemma_author_of_found(mrs: Seq<MemberResponseRow>, rid: i64, m: i64)
    requires
        exists|k: int| 0 <= k < mrs.len() && (#[trigger] mrs[k]).response_id == rid && mrs[k].member_id == Some(m),
        forall|k: int| 0 <= k < mrs.len() && (#[trigger] mrs[k]).response_id == rid && mrs[k].member_id is Some
            ==> mrs[k].member_id == Some(m),
    ensures
        author_of(mrs, rid) == Some(m),
    decreases mrs.len(),
{
    let l = mrs.len() - 1;
    if !(mrs[l].response_id == rid && mrs[l].member_id is Some) {
        let d = mrs.drop_last();
        let k = choose|k: int| 0 <= k < mrs.len() && (#[trigger] mrs[k]).response_id == rid && mrs[k].member_id == Some(m);
        assert(k < l);
        assert(d[k] == mrs[k]);
        assert forall|k2: int| 0 <= k2 < d.len() && (#[trigger] d[k2]).response_id == rid && d[k2].member_id is Some
            implies d[k2].member_id == Some(m) by {
            assert(d[k2] == mrs[k2]);
        }
        lemma_author_of_found(d, rid, m);
    }
}

pub proof fn lemma_author_of_none(mrs: Seq<MemberResponseRow>, rid: i64)
    requires
        forall|k: int| 0 <= k < mrs.len() && (#[trigger] mrs[k]).response_id == rid ==> mrs[k].member_id is None,
    ensures
        author_of(mrs, rid) is None,
    decreases mrs.len(),
{
    if mrs.len() > 0 {
        let d = mrs.drop_last();
        assert forall|k: int| 0 <= k < d.len() && (#[trigger] d[k]).response_id == rid implies d[k].member_id is None by {
            assert(d[k] == mrs[k]);
        }
        lemma_author_of_none(d, rid);
    }
}

pub proof fn lemma_member_of_found(members: Seq<MemberRow>, m: i64, j: int)
    requires
        0 <= j < members.len(),
        members[j].member_id == m,
    ensures
        member_of(members, m) matches Some(row) && exists|j2: int| 0 <= j2 < members.len() && members[j2] == row
            && row.member_id == m,
    decreases members.len(),
{
    let l = members.len() - 1;
    if members[l].member_id == m {
        assert(members[l] == members.last());
    } else {
        let d = members.drop_last();
        assert(d[j] == members[j]);
        lemma_member_of_found(d, m, j);
        let row = member_of(d, m)->0;
        let j2 = choose|j2: int| 0 <= j2 < d.len() && d[j2] == row && row.member_id == m;
        assert(members[j2] == d[j2]);
    }
}

/// An answer is listed under its author's nickname: when every authorship row of answer `rid`
/// that names a member names `m` (and one does), and every member row of `m` carries the same
/// nickname as row `j`, the author's name is that nickname (empty when it is absent). When no
/// authorship row of the answer names a member, the name is empty.
pub proof fn law_author_name_is_nickname(
    mrs: Seq<MemberResponseRow>,
    members: Seq<MemberRow>,
    rid: i64,
    m: i64,
    j: int,
)
    requires
        exists|k: int| 0 <= k < mrs.len() && (#[trigger] mrs[k]).response_id == rid && mrs[k].member_id == Some(m),
        forall|k: int| 0 <= k < mrs.len() && (#[trigger] mrs[k]).response_id == rid && mrs[k].member_id is Some
            ==> mrs[k].member_id == Some(m),
        0 <= j < members.len(),
        members[j].member_id == m,
        forall|j2: int| 0 <= j2 < members.len() && (#[trigger] members[j2]).member_id == m
            ==> members[j2].nickname@ == members[j].nickname@,
    ensures
        members[j].nickname matches Some(n) ==> author_name(mrs, members, rid) == n@,
        members[j].nickname is None ==> author_name(mrs, members, rid).len() == 0,
{
    lemma_author_of_found(mrs, rid, m);
    lemma_member_of_found(members, m, j);
    let row = member_of(members, m)->0;
    let j2 = choose|j2: int| 0 <= j2 < members.len() && members[j2] == row && row.member_id == m;
    assert(members[j2].nickname@ == members[j].nickname@);
}

/// An answer whose authorship rows name no member is listed without a name.
pub proof fn law_author_name_unknown(mrs: Seq<MemberResponseRow>, members: Seq<MemberRow>, rid: i64)
    requires
        forall|k: int| 0 <= k < mrs.len() && (#[trigger] mrs[k]).response_id == rid ==> mrs[k].member_id is None,
    ensures
        author_name(mrs, members, rid).len() == 0,
{
    lemma_author_of_none(mrs, rid);
}

} // verus!
