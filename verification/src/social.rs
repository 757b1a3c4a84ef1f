//! Reactions to answers: comments, read a page at a time, and likes.
use vstd::prelude::*;
use crate::error::AppError;
use crate::responses::{MemberRow, member_of, find_member};
use crate::service::RetrospectService;
use crate::text::{all_ws, char_count, is_blank, int_to_string, dec_int};
use crate::time::{valid_time, spec_format_iso, format_iso, KST_OFFSET_SECS};

verus! {

/// Longest comment accepted, in characters.
pub const COMMENT_MAX_CHARS: usize = 200;

/// One comment on an answer (`response_comment`).
pub struct CommentRow {
    pub response_comment_id: i64,
    pub member_id: i64,
    pub content: String,
    pub created_at: i64,
}

/// One listed comment.
pub struct CommentItem {
    pub comment_id: i64,
    pub member_id: i64,
    pub user_name: String,
    pub content: String,
    pub created_at: String,
}

/// A page of comments.
pub struct ListCommentsResponse {
    pub comments: Vec<CommentItem>,
    pub has_next: bool,
    pub next_cursor: Option<i64>,
}

/// Comment ids strictly increase (the rows come ordered by their primary key).
pub open spec fn comment_ids_increasing(rows: Seq<CommentRow>) -> bool {
    forall|i: int, j: int| 0 <= i < j < rows.len() ==> rows[i].response_comment_id < rows[j].response_comment_id
}

pub open spec fn before_cursor(id: i64, cursor: Option<i64>) -> bool {
    match cursor {
        Some(c) => id < c,
        None => true,
    }
}

/// The comments whose id is below the cursor, in their order.
pub open spec fn comments_below(rows: Seq<CommentRow>, cursor: Option<i64>) -> Seq<CommentRow>
    decreases rows.len(),
{
    if rows.len() == 0 {
        Seq::empty()
    } else {
        let rest = comments_below(rows.drop_last(), cursor);
        if before_cursor(rows.last().response_comment_id, cursor) {
            rest.push(rows.last())
        } else {
            rest
        }
    }
}

/// Comments that a page starting at `cursor` may show, newest first.
pub open spec fn comment_candidates(rows: Seq<CommentRow>, cursor: Option<i64>) -> Seq<CommentRow> {
    comments_below(rows, cursor).reverse()
}

/// The comments of one page: the first `size` candidates.
pub open spec fn comment_page(rows: Seq<CommentRow>, cursor: Option<i64>, size: int) -> Seq<CommentRow> {
    let c = comment_candidates(rows, cursor);
    if c.len() <= size {
        c
    } else {
        c.take(size)
    }
}

pub open spec fn comment_has_next(rows: Seq<CommentRow>, cursor: Option<i64>, size: int) -> bool {
    comment_candidates(rows, cursor).len() > size
}

/// The cursor of the following page: the id of this page's last comment, when more remain.
pub open spec fn comment_next_cursor(rows: Seq<CommentRow>, cursor: Option<i64>, size: int) -> Option<i64> {
    if comment_has_next(rows, cursor, size) && comment_page(rows, cursor, size).len() > 0 {
        Some(comment_page(rows, cursor, size).last().response_comment_id)
    } else {
        None
    }
}

/// The name shown for a commenter: their nickname (empty when they have none), `Unknown` when
/// the member is gone.
pub open spec fn commenter_name(members: Seq<MemberRow>, id: i64) -> Seq<char> {
    match member_of(members, id) {
        Some(m) => match m.nickname {
            Some(n) => n@,
            None => Seq::empty(),
        },
        None => "Unknown"@,
    }
}

/// What a listed comment shows: id, author id, author name, text and time (Korean time).
pub open spec fn comment_item_spec(members: Seq<MemberRow>, c: CommentRow) -> (i64, i64, Seq<char>, Seq<char>, Seq<char>) {
    (c.response_comment_id, c.member_id, commenter_name(members, c.member_id), c.content@,
        spec_format_iso(c.created_at + KST_OFFSET_SECS))
}

pub open spec fn comment_item_view(it: CommentItem) -> (i64, i64, Seq<char>, Seq<char>, Seq<char>) {
    (it.comment_id, it.member_id, it.user_name@, it.content@, it.created_at@)
}

/// A comment's time can be shown in Korean time.
pub open spec fn comment_times_valid(rows: Seq<CommentRow>) -> bool {
    forall|i: int| 0 <= i < rows.len() ==> valid_time(#[trigger] rows[i].created_at + KST_OFFSET_SECS)
}

fn commenter_name_exec(members: &Vec<MemberRow>, id: i64) -> (s: String)
    ensures
        s@ == commenter_name(members@, id),
{
    match find_member(members, id) {
        Some(k) => match &members[k].nickname {
            Some(n) => n.clone(),
            None => String::new(),
        },
        None => "Unknown".to_owned(),
    }
}

proof fn lemma_below_subset(rows: Seq<CommentRow>, cursor: Option<i64>)
    ensures
        forall|k: int| 0 <= k < comments_below(rows, cursor).len() ==> rows.contains(
            #[trigger] comments_below(rows, cursor)[k],
        ),
        forall|k: int| 0 <= k < comments_below(rows, cursor).len() ==> before_cursor(
            #[trigger] comments_below(rows, cursor)[k].response_comment_id,
            cursor,
        ),
    decreases rows.len(),
{
    if rows.len() > 0 {
        lemma_below_subset(rows.drop_last(), cursor);
        let rest = comments_below(rows.drop_last(), cursor);
        assert forall|k: int| 0 <= k < rest.len() implies rows.contains(#[trigger] rest[k]) by {
            assert(rows.drop_last().contains(rest[k]));
            let j = choose|j: int| 0 <= j < rows.drop_last().len() && rows.drop_last()[j] == rest[k];
            assert(rows[j] == rest[k]);
        }
        assert(rows[rows.len() - 1] == rows.last());
    }
}

impl RetrospectService {
    /// A comment must not be blank and may have at most `COMMENT_MAX_CHARS` characters.
    pub fn validate_comment(content: &str) -> (r: Result<(), AppError>)
        ensures
            all_ws(content@) ==> (r matches Err(AppError::BadRequest(m))
                && m@ == "댓글 내용은 공백만으로 구성될 수 없습니다."@),
            !all_ws(content@) && content@.len() > COMMENT_MAX_CHARS ==> (r matches Err(
                AppError::CommentTooLong(m)) && m@ == "댓글은 최대 200자까지만 입력 가능합니다."@),
            !all_ws(content@) && content@.len() <= COMMENT_MAX_CHARS ==> r is Ok,
    {
        if is_blank(content) {
            return Err(AppError::BadRequest("댓글 내용은 공백만으로 구성될 수 없습니다.".to_owned()));
        }
        if char_count(content) > COMMENT_MAX_CHARS {
            return Err(AppError::CommentTooLong("댓글은 최대 200자까지만 입력 가능합니다.".to_owned()));
        }
        Ok(())
    }

    /// A comment page holds 1 to 100 comments.
    pub fn check_comment_page_size(size: i32) -> (r: Result<(), AppError>)
        ensures
            !(1 <= size <= 100) ==> (r matches Err(AppError::BadRequest(m))
                && m@ == "size는 1~100 범위의 정수여야 합니다."@),
            1 <= size <= 100 ==> r is Ok,
    {
        if size < 1 || size > 100 {
            return Err(AppError::BadRequest("size는 1~100 범위의 정수여야 합니다.".to_owned()));
        }
        Ok(())
    }

    /// Reaching an answer's comments: the answer must exist, its retrospective too (else the
    /// data is inconsistent), and the caller must be a member of the retrospective's room.
    pub fn check_response_access(
        response_id: i64,
        retrospect_id: Option<i64>,
        retrospect_found: bool,
        is_room_member: bool,
    ) -> (r: Result<(), AppError>)
        ensures
            retrospect_id is None ==> (r matches Err(AppError::ResponseNotFound(m))
                && m@ == "존재하지 않는 회고 답변입니다."@),
            retrospect_id matches Some(rid) ==> (!retrospect_found ==> (r matches Err(AppError::InternalError(m))
                && m@ == "데이터 정합성 오류: response_id="@ + dec_int(response_id as int) + "에 연결된 retrospect_id="@
                + dec_int(rid as int) + "가 존재하지 않습니다."@)),
            retrospect_id is Some && retrospect_found && !is_room_member ==> (r matches Err(
                AppError::RetroRoomAccessDenied(m)) && m@ == "해당 회고방 리소스에 접근 권한이 없습니다."@),
            retrospect_id is Some && retrospect_found && is_room_member ==> r is Ok,
    {
        match retrospect_id {
            None => Err(AppError::ResponseNotFound("존재하지 않는 회고 답변입니다.".to_owned())),
            Some(rid) => {
                if !retrospect_found {
                    let mut m = "데이터 정합성 오류: response_id=".to_owned();
                    m.append(int_to_string(response_id).as_str());
                    m.append("에 연결된 retrospect_id=");
                    m.append(int_to_string(rid).as_str());
                    m.append("가 존재하지 않습니다.");
                    return Err(AppError::InternalError(m));
                }
                if !is_room_member {
                    return Err(AppError::RetroRoomAccessDenied("해당 회고방 리소스에 접근 권한이 없습니다.".to_owned()));
                }
                Ok(())
            },
        }
    }

    /// One page of an answer's comments, newest first. `rows` are all its comments in id
    /// order; the page shows those with an id below `cursor`, at most `size`, each with its
    /// author's name and its time in Korean time, and the cursor of the next page when more
    /// remain.
    pub fn list_comment_page(rows: &Vec<CommentRow>, members: &Vec<MemberRow>, cursor: Option<i64>, size: i32) -> (r:
        ListCommentsResponse)
        requires
            comment_ids_increasing(rows@),
            comment_times_valid(rows@),
            1 <= size <= 100,
        ensures
            r.comments@.map_values(|it: CommentItem| comment_item_view(it)) == comment_page(rows@, cursor, size as int).map_values(
                |c: CommentRow| comment_item_spec(members@, c),
            ),
            r.has_next == comment_has_next(rows@, cursor, size as int),
            r.next_cursor == comment_next_cursor(rows@, cursor, size as int),
    {
        let mut asc: Vec<usize> = Vec::new();
        let ghost mut below: Seq<CommentRow> = Seq::empty();
        let mut i: usize = 0;
        while i < rows.len()
            invariant
                i <= rows@.len(),
                below == comments_below(rows@.take(i as int), cursor),
                asc@.len() == below.len(),
                forall|k: int| 0 <= k < asc@.len() ==> #[trigger] asc@[k] < i && rows@[asc@[k] as int] == below[k],
            decreases rows@.len() - i,
        {
            assert(rows@.take(i + 1).drop_last() =~= rows@.take(i as int));
            let keep = match cursor {
                Some(c) => rows[i].response_comment_id < c,
                None => true,
            };
            if keep {
                asc.push(i);
                proof {
                    below = below.push(rows@[i as int]);
                }
            }
            i = i + 1;
        }
        assert(rows@.take(rows@.len() as int) =~= rows@);
        let ghost cands = below.reverse();
        let n = asc.len();
        let limit = size as usize;
        let mut items: Vec<CommentItem> = Vec::new();
        let mut k: usize = 0;
        proof {
            lemma_below_subset(rows@, cursor);
        }
        while k < n && k < limit
            invariant
                n == asc@.len(),
                n == below.len(),
                cands == below.reverse(),
                below == comments_below(rows@, cursor),
                comment_times_valid(rows@),
                forall|q: int| 0 <= q < asc@.len() ==> #[trigger] asc@[q] < rows@.len() && rows@[asc@[q] as int] == below[q],
                k <= n,
                k <= limit,
                items@.map_values(|it: CommentItem| comment_item_view(it)) =~= cands.take(k as int).map_values(
                    |c: CommentRow| comment_item_spec(members@, c),
                ),
            decreases n - k,
        {
            let idx = asc[n - 1 - k];
            let c = &rows[idx];
            assert(*c == cands[k as int]);
            assert(valid_time(rows@[idx as int].created_at + KST_OFFSET_SECS));
            let item = CommentItem {
                comment_id: c.response_comment_id,
                member_id: c.member_id,
                user_name: commenter_name_exec(members, c.member_id),
                content: c.content.clone(),
                created_at: format_iso(c.created_at + KST_OFFSET_SECS),
            };
            let ghost before = items@;
            items.push(item);
            assert(items@.map_values(|it: CommentItem| comment_item_view(it)) =~= before.map_values(
                |it: CommentItem| comment_item_view(it),
            ).push(comment_item_view(item)));
            k = k + 1;
            assert(cands.take(k as int).map_values(|c: CommentRow| comment_item_spec(members@, c)) =~= cands.take(
                (k - 1) as int,
            ).map_values(|c: CommentRow| comment_item_spec(members@, c)).push(comment_item_spec(members@, cands[k - 1])));
        }
        proof {
            if n <= limit {
                assert(cands.take(n as int) =~= cands);
            }
        }
        let has_next = n > limit;
        let next_cursor = if has_next && items.len() > 0 {
            assert(k == limit);
            assert(comment_page(rows@, cursor, size as int) == cands.take(k as int));
            assert(cands.take(k as int).last() == cands[k - 1]);
            assert(items@.map_values(|it: CommentItem| comment_item_view(it))[k - 1] == comment_item_view(items@[k - 1]));
            assert(cands.take(k as int).map_values(|c: CommentRow| comment_item_spec(members@, c))[k - 1]
                == comment_item_spec(members@, cands[k - 1]));
            Some(items[items.len() - 1].comment_id)
        } else {
            None
        };
        ListCommentsResponse { comments: items, has_next, next_cursor }
    }
}

/// The members who like one answer, nobody twice.
pub struct ResponseLikes {
    members: Vec<i64>,
}

impl View for ResponseLikes {
    type V = Set<i64>;

    closed spec fn view(&self) -> Set<i64> {
        self.members@.to_set()
    }
}

/// The likers after one toggle by `m`: `m` leaves when present and joins otherwise.
pub open spec fn toggled(likers: Set<i64>, m: i64) -> Set<i64> {
    if likers.contains(m) {
        likers.remove(m)
    } else {
        likers.insert(m)
    }
}

impl ResponseLikes {
    #[verifier::type_invariant]
    spec fn members_distinct(self) -> bool {
        self.members@.no_duplicates()
    }

    /// Nobody likes the answer yet.
    pub fn new() -> (r: Self)
        ensures
            r@ == Set::<i64>::empty(),
            r@.finite(),
    {
        let r = ResponseLikes { members: Vec::new() };
        assert(r@ =~= Set::<i64>::empty());
        r
    }

    /// The likes recorded for an answer, one per member (a member listed twice counts once).
    pub fn from_members(members: &[i64]) -> (r: Self)
        ensures
            r@ == members@.to_set(),
            r@.finite(),
    {
        proof {
            vstd::seq_lib::seq_to_set_is_finite(members@);
        }
        let mut v: Vec<i64> = Vec::new();
        let mut i: usize = 0;
        while i < members.len()
            invariant
                i <= members@.len(),
                v@.no_duplicates(),
                v@.to_set() == members@.take(i as int).to_set(),
            decreases members@.len() - i,
        {
            let m = members[i];
            let mut found = false;
            let mut j: usize = 0;
            while j < v.len()
                invariant
                    j <= v@.len(),
                    found <==> exists|k: int| 0 <= k < j && v@[k] == m,
                decreases v@.len() - j,
            {
                if v[j] == m {
                    found = true;
                }
                j = j + 1;
            }
            let ghost before = v@;
            if !found {
                v.push(m);
                proof {
                    before.lemma_push_to_set_commute(m);
                    assert(v@ == before.push(m));
                }
            }
            assert(members@.take(i + 1) =~= members@.take(i as int).push(m));
            proof {
                members@.take(i as int).lemma_push_to_set_commute(m);
            }
            proof {
                if found {
                    assert(before.to_set().contains(m));
                    assert(before.to_set().insert(m) =~= before.to_set());
                }
            }
            i = i + 1;
        }
        assert(members@.take(members@.len() as int) =~= members@);
        ResponseLikes { members: v }
    }

    /// The likers of an answer are finitely many.
    pub proof fn lemma_likers_finite(&self)
        ensures
            self@.finite(),
    {
        vstd::seq_lib::seq_to_set_is_finite(self.members@);
    }

    /// Whether `m` likes the answer.
    pub fn is_liked(&self, m: i64) -> (r: bool)
        ensures
            r == self@.contains(m),
    {
        let mut j: usize = 0;
        while j < self.members.len()
            invariant
                j <= self.members@.len(),
                forall|k: int| 0 <= k < j ==> self.members@[k] != m,
            decreases self.members@.len() - j,
        {
            if self.members[j] == m {
                assert(self.members@.contains(m));
                return true;
            }
            j = j + 1;
        }
        false
    }

    /// How many members like the answer.
    pub fn count(&self) -> (n: usize)
        ensures
            n == self@.len(),
            self@.finite(),
    {
        proof {
            vstd::seq_lib::seq_to_set_is_finite(self.members@);
            use_type_invariant(self);
            self.members@.unique_seq_to_set();
        }
        self.members.len()
    }

    /// `m` likes the answer when they did not, and stops liking it when they did; returns
    /// whether `m` likes it afterwards.
    pub fn toggle(&mut self, m: i64) -> (liked: bool)
        ensures
            liked == !old(self)@.contains(m),
            final(self)@ == toggled(old(self)@, m),
            final(self)@.finite(),
    {
        proof {
            use_type_invariant(&*self);
            vstd::seq_lib::seq_to_set_is_finite(old(self).members@);
        }
        let ghost before = self.members@;
        let mut j: usize = 0;
        while j < self.members.len()
            invariant
                self.members@ == before,
                before.no_duplicates(),
                old(self)@ == before.to_set(),
                j <= before.len(),
                forall|k: int| 0 <= k < j ==> before[k] != m,
            decreases before.len() - j,
        {
            if self.members[j] == m {
                let mut v = self.members.clone();
                v.remove(j);
                proof {
                    assert(v@ =~= before.remove(j as int));
                    assert(before[j as int] == m);
                    assert(before.contains(m));
                    assert(before.to_set().contains(m));
                    assert forall|a: int, b: int| 0 <= a < v@.len() && 0 <= b < v@.len() && a != b implies v@[a] != v@[b] by {
                        let a2 = if a < j { a } else { a + 1 };
                        let b2 = if b < j { b } else { b + 1 };
                        assert(before[a2] == v@[a] && before[b2] == v@[b]);
                    }
                    assert forall|x: i64| v@.to_set().contains(x) <==> before.to_set().remove(m).contains(x) by {
                        if v@.contains(x) {
                            let k = choose|k: int| 0 <= k < v@.len() && v@[k] == x;
                            if k < j {
                                assert(before[k] == x);
                                assert(before[j as int] == m);
                            } else {
                                assert(before[k + 1] == x);
                                assert(before[j as int] == m);
                            }
                            assert(x != m);
                        }
                        if before.contains(x) && x != m {
                            let k = choose|k: int| 0 <= k < before.len() && before[k] == x;
                            if k < j {
                                assert(v@[k] == x);
                            } else {
                                assert(k != j);
                                assert(v@[k - 1] == x);
                            }
                        }
                    }
                    assert(v@.to_set() =~= before.to_set().remove(m));
                }
                self.members = v;
                return false;
            }
            j = j + 1;
        }
        let mut v = self.members.clone();
        v.push(m);
        proof {
            assert(!before.contains(m));
            assert(v@ =~= before.push(m));
            before.lemma_push_to_set_commute(m);
            assert forall|a: int, b: int| 0 <= a < v@.len() && 0 <= b < v@.len() && a != b implies v@[a] != v@[b] by {
                if a == before.len() {
                    assert(before[b] != m);
                } else if b == before.len() {
                    assert(before[a] != m);
                }
            }
        }
        self.members = v;
        true
    }
}

/// What a like toggle answers: the answer, whether the caller likes it now, and how many do.
pub struct LikeToggleResponse {
    pub response_id: i64,
    pub is_liked: bool,
    pub total_likes: i64,
}

impl RetrospectService {
    /// Liking an answer: the answer must exist, its retrospective too (else the data is
    /// inconsistent), and the caller must be a member of the retrospective's room.
    pub fn check_like_access(retrospect_id: Option<i64>, retrospect_found: bool, is_room_member: bool) -> (r:
        Result<(), AppError>)
        ensures
            retrospect_id is None ==> (r matches Err(AppError::ResponseNotFound(m))
                && m@ == "존재하지 않는 회고 답변입니다."@),
            retrospect_id is Some && !retrospect_found ==> (r matches Err(AppError::InternalError(m))
                && m@ == "회고 데이터 불일치: 답변에 연결된 회고가 존재하지 않습니다."@),
            retrospect_id is Some && retrospect_found && !is_room_member ==> (r matches Err(
                AppError::RetroRoomAccessDenied(m)) && m@ == "해당 리소스에 접근 권한이 없습니다."@),
            retrospect_id is Some && retrospect_found && is_room_member ==> r is Ok,
    {
        if retrospect_id.is_none() {
            return Err(AppError::ResponseNotFound("존재하지 않는 회고 답변입니다.".to_owned()));
        }
        if !retrospect_found {
            return Err(AppError::InternalError("회고 데이터 불일치: 답변에 연결된 회고가 존재하지 않습니다.".to_owned()));
        }
        if !is_room_member {
            return Err(AppError::RetroRoomAccessDenied("해당 리소스에 접근 권한이 없습니다.".to_owned()));
        }
        Ok(())
    }

    /// Toggles `member_id`'s like on the answer and reports the new state and count.
    pub fn toggle_like(response_id: i64, likes: &mut ResponseLikes, member_id: i64) -> (r: LikeToggleResponse)
        requires
            old(likes)@.len() < i64::MAX,
        ensures
            final(likes)@ == toggled(old(likes)@, member_id),
            r.response_id == response_id,
            r.is_liked == final(likes)@.contains(member_id),
            r.is_liked == !old(likes)@.contains(member_id),
            r.total_likes == final(likes)@.len(),
            r.total_likes == if r.is_liked { old(likes)@.len() as int + 1 } else { old(likes)@.len() as int - 1 },
            final(likes)@.finite(),
    {
        let before = likes.count();
        let liked = likes.toggle(member_id);
        let n = likes.count();
        proof {
            let s = old(likes)@;
            if liked {
                assert(!s.contains(member_id));
            } else {
                assert(s.contains(member_id));
                assert(s.remove(member_id).len() == s.len() - 1);
            }
        }
        LikeToggleResponse { response_id, is_liked: liked, total_likes: n as i64 }
    }
}

/// Toggling a like twice leaves the likers as they were.
pub proof fn law_like_toggle_twice(likers: Set<i64>, m: i64)
    ensures
        toggled(toggled(likers, m), m) == likers,
{
    if likers.contains(m) {
        assert(toggled(toggled(likers, m), m) =~= likers);
    } else {
        assert(toggled(toggled(likers, m), m) =~= likers);
    }
}

/// One toggle changes the number of likers by exactly one: up when `m` starts liking, down
/// when `m` stops.
pub proof fn law_like_toggle_count(likers: Set<i64>, m: i64)
    requires
        likers.finite(),
    ensures
        likers.contains(m) ==> toggled(likers, m).len() + 1 == likers.len(),
        !likers.contains(m) ==> toggled(likers, m).len() == likers.len() + 1,
{
}

proof fn lemma_below_nested(rows: Seq<CommentRow>, cursor: Option<i64>, c: i64)
    requires
        before_cursor(c, cursor),
    ensures
        comments_below(rows, Some(c)) == comments_below(comments_below(rows, cursor), Some(c)),
    decreases rows.len(),
{
    if rows.len() > 0 {
        lemma_below_nested(rows.drop_last(), cursor, c);
        let b = comments_below(rows, cursor);
        let rest = comments_below(rows.drop_last(), cursor);
        if before_cursor(rows.last().response_comment_id, cursor) {
            assert(b == rest.push(rows.last()));
            assert(b.drop_last() =~= rest);
        } else {
            assert(rows.last().response_comment_id >= c);
        }
    }
}

proof fn lemma_below_all(b: Seq<CommentRow>, c: i64)
    requires
        forall|i: int| 0 <= i < b.len() ==> (#[trigger] b[i]).response_comment_id < c,
    ensures
        comments_below(b, Some(c)) == b,
    decreases b.len(),
{
    if b.len() > 0 {
        lemma_below_all(b.drop_last(), c);
        assert(b.drop_last().push(b.last()) =~= b);
    }
}

proof fn lemma_below_prefix(b: Seq<CommentRow>, m: int)
    requires
        comment_ids_increasing(b),
        0 <= m < b.len(),
    ensures
        comments_below(b, Some(b[m].response_comment_id)) == b.take(m),
    decreases b.len(),
{
    let c = b[m].response_comment_id;
    if m == b.len() - 1 {
        lemma_below_all(b.drop_last(), c);
        assert(b.drop_last() =~= b.take(m));
    } else {
        assert(b.drop_last()[m] == b[m]);
        lemma_below_prefix(b.drop_last(), m);
        assert(b.drop_last().take(m) =~= b.take(m));
    }
}

proof fn lemma_below_increasing(rows: Seq<CommentRow>, cursor: Option<i64>)
    requires
        comment_ids_increasing(rows),
    ensures
        comment_ids_increasing(comments_below(rows, cursor)),
    decreases rows.len(),
{
    if rows.len() > 0 {
        let t = rows.drop_last();
        lemma_below_increasing(t, cursor);
        lemma_below_subset(t, cursor);
        let rest = comments_below(t, cursor);
        if before_cursor(rows.last().response_comment_id, cursor) {
            assert forall|i: int| 0 <= i < rest.len() implies (#[trigger] rest[i]).response_comment_id
                < rows.last().response_comment_id by {
                assert(t.contains(rest[i]));
                let j = choose|j: int| 0 <= j < t.len() && t[j] == rest[i];
                assert(rows[j] == t[j]);
            }
        }
    }
}

/// Paging through an answer's comments neither skips nor repeats one: when a page has a
/// next one, the page that starts at its cursor offers exactly the comments that follow
/// this page.
pub proof fn law_comment_pages_continue(rows: Seq<CommentRow>, cursor: Option<i64>, size: int)
    requires
        comment_ids_increasing(rows),
        1 <= size,
        comment_next_cursor(rows, cursor, size) is Some,
    ensures
        comment_candidates(rows, comment_next_cursor(rows, cursor, size)) == comment_candidates(rows, cursor).skip(
            size,
        ),
{
    let b = comments_below(rows, cursor);
    let n = b.len();
    let cands = b.reverse();
    assert(cands.len() > size);
    assert(comment_page(rows, cursor, size) == cands.take(size));
    let c = cands[size - 1].response_comment_id;
    assert(cands[size - 1] == b[n - size]);
    lemma_below_subset(rows, cursor);
    assert(before_cursor(b[n - size].response_comment_id, cursor));
    lemma_below_nested(rows, cursor, c);
    lemma_below_increasing(rows, cursor);
    lemma_below_prefix(b, n - size);
    assert(b.take(n - size).reverse() =~= cands.skip(size));
}

} // verus!
