//! Layout of the exported retrospective report: the paragraphs and gaps of the document,
//! which the exporter then renders.
use vstd::prelude::*;
use vstd::string::*;
use crate::method::{method_display, RetrospectMethod};
use crate::model::{MemberRetroRow, RetrospectRow};
use crate::responses::{
    author_of, distinct_question_list, distinct_questions, find_member, member_of,
    MemberResponseRow, MemberRow, ResponseRow,
};
use crate::text::{all_ws, dec_int, dec_nat, is_blank, push_dec, push_int, views};
use crate::time::{format_date, format_hm, spec_format_date, spec_format_hm, valid_time};

verus! {

/// How a paragraph is set: the report title (bold, 18pt), a section heading (bold, 14pt),
/// bold body text, or plain body text.
#[derive(Debug, Clone, Copy, PartialEq, Eq, Structural)]
pub enum ReportStyle {
    Title,
    Section,
    Bold,
    Plain,
}

/// Vertical gaps: half a line, three tenths, or a fifth.
#[derive(Debug, Clone, Copy, PartialEq, Eq, Structural)]
pub enum GapSize {
    Large,
    Medium,
    Small,
}

/// One element of the report.
pub enum ReportBlock {
    Text(ReportStyle, String),
    Gap(GapSize),
}

/// Mathematical form of a block.
pub enum BlockView {
    Text(ReportStyle, Seq<char>),
    Gap(GapSize),
}

pub open spec fn block_view(b: ReportBlock) -> BlockView {
    match b {
        ReportBlock::Text(s, t) => BlockView::Text(s, t@),
        ReportBlock::Gap(g) => BlockView::Gap(g),
    }
}

pub open spec fn blocks_view(v: Seq<ReportBlock>) -> Seq<BlockView> {
    Seq::new(v.len(), |i: int| block_view(v[i]))
}

pub open spec fn plain(t: Seq<char>) -> BlockView {
    BlockView::Text(ReportStyle::Plain, t)
}

/// Nickname of a member row, empty when it has none.
pub open spec fn nickname_or_empty(row: MemberRow) -> Seq<char> {
    match row.nickname {
        Some(n) => n@,
        None => Seq::empty(),
    }
}

/// How a participant is named: their nickname (possibly empty), `Member #<id>` when the member
/// row is missing, or "탈퇴한 멤버" once the member has left.
pub open spec fn participant_name(members: Seq<MemberRow>, member_id: Option<i64>) -> Seq<char> {
    match member_id {
        Some(id) => match member_of(members, id) {
            Some(row) => nickname_or_empty(row),
            None => "Member #"@ + dec_int(id as int),
        },
        None => "탈퇴한 멤버"@,
    }
}

/// How the author of an answer is named: their nickname, or "Anonymous".
pub open spec fn answer_author(
    authors: Seq<MemberResponseRow>,
    members: Seq<MemberRow>,
    rid: i64,
) -> Seq<char> {
    match author_of(authors, rid) {
        Some(mid) => match member_of(members, mid) {
            Some(row) => nickname_or_empty(row),
            None => "Anonymous"@,
        },
        None => "Anonymous"@,
    }
}

pub open spec fn header_blocks(title: Seq<char>) -> Seq<BlockView> {
    seq![
        BlockView::Text(ReportStyle::Title, title + " - Retrospect Report"@),
        BlockView::Gap(GapSize::Large),
    ]
}

/// One line per participant, in participation order.
pub open spec fn name_lines(members: Seq<MemberRow>, mrs: Seq<MemberRetroRow>) -> Seq<BlockView>
    decreases mrs.len(),
{
    if mrs.len() == 0 {
        Seq::empty()
    } else {
        name_lines(members, mrs.drop_last()).push(
            plain("  - "@ + participant_name(members, mrs.last().member_id)),
        )
    }
}

pub open spec fn info_blocks(
    room: Seq<char>,
    date: Seq<char>,
    time: Seq<char>,
    method: RetrospectMethod,
    members: Seq<MemberRow>,
    mrs: Seq<MemberRetroRow>,
) -> Seq<BlockView> {
    seq![
        BlockView::Text(ReportStyle::Section, "Basic Information"@),
        BlockView::Gap(GapSize::Medium),
        plain("Retro Room: "@ + room),
        plain("Date: "@ + date + " "@ + time),
        plain("Method: "@ + method_display(method)),
        plain("Participants ("@ + dec_nat(mrs.len()) + "):"@),
    ] + name_lines(members, mrs) + seq![BlockView::Gap(GapSize::Large)]
}

pub open spec fn insight_blocks(insight: Option<String>) -> Seq<BlockView> {
    match insight {
        Some(i) => seq![
            BlockView::Text(ReportStyle::Section, "Retro Room Insight"@),
            BlockView::Gap(GapSize::Medium),
            plain(i@),
            BlockView::Gap(GapSize::Large),
        ],
        None => Seq::empty(),
    }
}

/// The answers to question `q` that are not blank, one line each, in answer order.
pub open spec fn answer_lines(
    rows: Seq<ResponseRow>,
    authors: Seq<MemberResponseRow>,
    members: Seq<MemberRow>,
    q: Seq<char>,
) -> Seq<BlockView>
    decreases rows.len(),
{
    if rows.len() == 0 {
        Seq::empty()
    } else {
        let rest = answer_lines(rows.drop_last(), authors, members, q);
        let r = rows.last();
        if r.question@ == q && !all_ws(r.content@) {
            rest.push(
                plain(
                    "  - ["@ + answer_author(authors, members, r.response_id) + "] "@ + r.content@,
                ),
            )
        } else {
            rest
        }
    }
}

/// The blocks of the `n`-th question `q`.
pub open spec fn question_blocks(
    rows: Seq<ResponseRow>,
    authors: Seq<MemberResponseRow>,
    members: Seq<MemberRow>,
    n: nat,
    q: Seq<char>,
) -> Seq<BlockView> {
    let answers = answer_lines(rows, authors, members, q);
    seq![BlockView::Text(ReportStyle::Bold, "Q"@ + dec_nat(n) + ". "@ + q)] + (if answers.len()
        == 0 {
        seq![plain("  (No answers)"@)]
    } else {
        answers
    }) + seq![BlockView::Gap(GapSize::Medium)]
}

pub open spec fn questions_blocks(
    rows: Seq<ResponseRow>,
    authors: Seq<MemberResponseRow>,
    members: Seq<MemberRow>,
    qs: Seq<Seq<char>>,
) -> Seq<BlockView>
    decreases qs.len(),
{
    if qs.len() == 0 {
        Seq::empty()
    } else {
        questions_blocks(rows, authors, members, qs.drop_last()) + question_blocks(
            rows,
            authors,
            members,
            qs.len(),
            qs.last(),
        )
    }
}

/// The question-and-answer section; absent when there are no answer rows at all.
pub open spec fn qa_blocks(
    rows: Seq<ResponseRow>,
    authors: Seq<MemberResponseRow>,
    members: Seq<MemberRow>,
) -> Seq<BlockView> {
    if rows.len() == 0 {
        Seq::empty()
    } else {
        seq![
            BlockView::Text(ReportStyle::Section, "Questions & Answers"@),
            BlockView::Gap(GapSize::Medium),
        ] + questions_blocks(rows, authors, members, distinct_questions(rows))
    }
}

/// Personal insights of the participants that have one, in participation order.
pub open spec fn personal_lines(members: Seq<MemberRow>, mrs: Seq<MemberRetroRow>) -> Seq<
    BlockView,
>
    decreases mrs.len(),
{
    if mrs.len() == 0 {
        Seq::empty()
    } else {
        let rest = personal_lines(members, mrs.drop_last());
        match mrs.last().personal_insight {
            Some(i) => rest + seq![
                BlockView::Text(
                    ReportStyle::Bold,
                    "["@ + participant_name(members, mrs.last().member_id) + "]"@,
                ),
                plain("  "@ + i@),
                BlockView::Gap(GapSize::Small),
            ],
            None => rest,
        }
    }
}

pub open spec fn personal_blocks(members: Seq<MemberRow>, mrs: Seq<MemberRetroRow>) -> Seq<
    BlockView,
> {
    let lines = personal_lines(members, mrs);
    if lines.len() == 0 {
        Seq::empty()
    } else {
        seq![
            BlockView::Gap(GapSize::Medium),
            BlockView::Text(ReportStyle::Section, "Personal Insights"@),
            BlockView::Gap(GapSize::Medium),
        ] + lines
    }
}

/// The whole report.
pub open spec fn report_spec(
    retro: RetrospectRow,
    room: Seq<char>,
    mrs: Seq<MemberRetroRow>,
    members: Seq<MemberRow>,
    rows: Seq<ResponseRow>,
    authors: Seq<MemberResponseRow>,
) -> Seq<BlockView> {
    header_blocks(retro.title@) + info_blocks(
        room,
        spec_format_date(retro.start_time as int),
        spec_format_hm(retro.start_time as int),
        retro.retrospect_method,
        members,
        mrs,
    ) + insight_blocks(retro.insight) + qa_blocks(rows, authors, members) + personal_blocks(
        members,
        mrs,
    )
}

fn push_text(out: &mut Vec<ReportBlock>, style: ReportStyle, text: String)
    ensures
        blocks_view(final(out)@) == blocks_view(old(out)@).push(BlockView::Text(style, text@)),
{
    let ghost t = text@;
    out.push(ReportBlock::Text(style, text));
    assert(blocks_view(out@) =~= blocks_view(old(out)@).push(BlockView::Text(style, t)));
}

fn push_gap(out: &mut Vec<ReportBlock>, g: GapSize)
    ensures
        blocks_view(final(out)@) == blocks_view(old(out)@).push(BlockView::Gap(g)),
{
    out.push(ReportBlock::Gap(g));
    assert(blocks_view(out@) =~= blocks_view(old(out)@).push(BlockView::Gap(g)));
}

fn cat2(a: &str, b: &str) -> (s: String)
    ensures
        s@ == a@ + b@,
{
    let mut s = a.to_owned();
    s.append(b);
    s
}

fn cat3(a: &str, b: &str, c: &str) -> (s: String)
    ensures
        s@ == a@ + b@ + c@,
{
    let mut s = a.to_owned();
    s.append(b);
    s.append(c);
    s
}

fn nickname_or_empty_exec(row: &MemberRow) -> (s: String)
    ensures
        s@ == nickname_or_empty(*row),
{
    match &row.nickname {
        Some(n) => n.clone(),
        None => String::new(),
    }
}

fn participant_name_exec(members: &Vec<MemberRow>, member_id: Option<i64>) -> (s: String)
    ensures
        s@ == participant_name(members@, member_id),
{
    match member_id {
        Some(id) => match find_member(members, id) {
            Some(i) => nickname_or_empty_exec(&members[i]),
            None => {
                let mut s = "Member #".to_owned();
                push_int(&mut s, id);
                s
            },
        },
        None => "탈퇴한 멤버".to_owned(),
    }
}

fn answer_author_exec(
    authors: &Vec<MemberResponseRow>,
    members: &Vec<MemberRow>,
    rid: i64,
) -> (s: String)
    ensures
        s@ == answer_author(authors@, members@, rid),
{
    match crate::responses::author_of_lookup(authors, rid) {
        Some(mid) => match find_member(members, mid) {
            Some(i) => nickname_or_empty_exec(&members[i]),
            None => "Anonymous".to_owned(),
        },
        None => "Anonymous".to_owned(),
    }
}

fn push_answer_lines(
    out: &mut Vec<ReportBlock>,
    rows: &Vec<ResponseRow>,
    authors: &Vec<MemberResponseRow>,
    members: &Vec<MemberRow>,
    q: &String,
) -> (count: usize)
    ensures
        blocks_view(final(out)@) == blocks_view(old(out)@) + answer_lines(
            rows@,
            authors@,
            members@,
            q@,
        ),
        count == answer_lines(rows@, authors@, members@, q@).len(),
{
    let mut count: usize = 0;
    let mut i: usize = 0;
    assert(blocks_view(out@) =~= blocks_view(old(out)@) + answer_lines(
        rows@.take(0),
        authors@,
        members@,
        q@,
    ));
    while i < rows.len()
        invariant
            i <= rows.len(),
            blocks_view(out@) == blocks_view(old(out)@) + answer_lines(
                rows@.take(i as int),
                authors@,
                members@,
                q@,
            ),
            count == answer_lines(rows@.take(i as int), authors@, members@, q@).len(),
            count <= i,
        decreases rows.len() - i,
    {
        assert(rows@.take(i + 1).drop_last() =~= rows@.take(i as int));
        let r = &rows[i];
        if r.question == *q && !is_blank(r.content.as_str()) {
            let author = answer_author_exec(authors, members, r.response_id);
            let mut line = cat3("  - [", author.as_str(), "] ");
            line.append(r.content.as_str());
            let ghost before = blocks_view(out@);
            push_text(out, ReportStyle::Plain, line);
            assert(blocks_view(out@) =~= blocks_view(old(out)@) + answer_lines(
                rows@.take(i + 1),
                authors@,
                members@,
                q@,
            ));
            count = count + 1;
        }
        i = i + 1;
    }
    assert(rows@.take(rows.len() as int) =~= rows@);
    count
}

fn push_info(
    out: &mut Vec<ReportBlock>,
    retro: &RetrospectRow,
    room_name: &str,
    member_retros: &Vec<MemberRetroRow>,
    members: &Vec<MemberRow>,
)
    requires
        valid_time(retro.start_time as int),
    ensures
        blocks_view(final(out)@) == blocks_view(old(out)@) + header_blocks(retro.title@)
            + info_blocks(
            room_name@,
            spec_format_date(retro.start_time as int),
            spec_format_hm(retro.start_time as int),
            retro.retrospect_method,
            members@,
            member_retros@,
        ),
{
    push_text(out, ReportStyle::Title, cat2(retro.title.as_str(), " - Retrospect Report"));
    push_gap(out, GapSize::Large);
    push_text(out, ReportStyle::Section, "Basic Information".to_owned());
    push_gap(out, GapSize::Medium);
    push_text(out, ReportStyle::Plain, cat2("Retro Room: ", room_name));
    let date = format_date(retro.start_time);
    let time = format_hm(retro.start_time);
    let mut date_line = cat3("Date: ", date.as_str(), " ");
    date_line.append(time.as_str());
    push_text(out, ReportStyle::Plain, date_line);
    push_text(out, ReportStyle::Plain, cat2("Method: ", retro.retrospect_method.display_name()));
    let mut count_line = "Participants (".to_owned();
    push_dec(&mut count_line, member_retros.len() as u64);
    count_line.append("):");
    push_text(out, ReportStyle::Plain, count_line);
    let ghost info_head = blocks_view(out@);
    let mut i: usize = 0;
    assert(name_lines(members@, member_retros@.take(0)) =~= Seq::<BlockView>::empty());
    assert(info_head =~= info_head + name_lines(members@, member_retros@.take(0)));
    while i < member_retros.len()
        invariant
            i <= member_retros.len(),
            blocks_view(out@) == info_head + name_lines(members@, member_retros@.take(i as int)),
        decreases member_retros.len() - i,
    {
        assert(member_retros@.take(i + 1).drop_last() =~= member_retros@.take(i as int));
        let name = participant_name_exec(members, member_retros[i].member_id);
        push_text(out, ReportStyle::Plain, cat2("  - ", name.as_str()));
        assert(blocks_view(out@) =~= info_head + name_lines(members@, member_retros@.take(i + 1)));
        i = i + 1;
    }
    assert(member_retros@.take(member_retros.len() as int) =~= member_retros@);
    push_gap(out, GapSize::Large);
    assert(blocks_view(out@) =~= blocks_view(old(out)@) + header_blocks(retro.title@)
        + info_blocks(
        room_name@,
        spec_format_date(retro.start_time as int),
        spec_format_hm(retro.start_time as int),
        retro.retrospect_method,
        members@,
        member_retros@,
    ));
}

fn push_question(
    out: &mut Vec<ReportBlock>,
    rows: &Vec<ResponseRow>,
    authors: &Vec<MemberResponseRow>,
    members: &Vec<MemberRow>,
    number: u64,
    q: &String,
)
    ensures
        blocks_view(final(out)@) == blocks_view(old(out)@) + question_blocks(
            rows@,
            authors@,
            members@,
            number as nat,
            q@,
        ),
{
    let mut heading = "Q".to_owned();
    push_dec(&mut heading, number);
    heading.append(". ");
    heading.append(q.as_str());
    push_text(out, ReportStyle::Bold, heading);
    let ghost after_heading = blocks_view(out@);
    let mut answers: Vec<ReportBlock> = Vec::new();
    assert(blocks_view(answers@) =~= Seq::<BlockView>::empty());
    let n = push_answer_lines(&mut answers, rows, authors, members, q);
    assert(blocks_view(answers@) =~= answer_lines(rows@, authors@, members@, q@));
    if n == 0 {
        push_text(out, ReportStyle::Plain, "  (No answers)".to_owned());
    } else {
        let ghost lines = blocks_view(answers@);
        out.append(&mut answers);
        assert(blocks_view(out@) =~= after_heading + lines);
    }
    push_gap(out, GapSize::Medium);
    assert(blocks_view(out@) =~= blocks_view(old(out)@) + question_blocks(
        rows@,
        authors@,
        members@,
        number as nat,
        q@,
    ));
}

fn push_qa(
    out: &mut Vec<ReportBlock>,
    rows: &Vec<ResponseRow>,
    authors: &Vec<MemberResponseRow>,
    members: &Vec<MemberRow>,
)
    ensures
        blocks_view(final(out)@) == blocks_view(old(out)@) + qa_blocks(rows@, authors@, members@),
{
    if rows.len() == 0 {
        assert(blocks_view(out@) =~= blocks_view(old(out)@) + qa_blocks(rows@, authors@, members@));
        return;
    }
    push_text(out, ReportStyle::Section, "Questions & Answers".to_owned());
    push_gap(out, GapSize::Medium);
    let qs = distinct_question_list(rows);
    let ghost qa_head = blocks_view(out@);
    let mut k: usize = 0;
    assert(qa_head =~= qa_head + questions_blocks(rows@, authors@, members@, views(qs@).take(0)));
    while k < qs.len()
        invariant
            k <= qs.len(),
            blocks_view(out@) == qa_head + questions_blocks(
                rows@,
                authors@,
                members@,
                views(qs@).take(k as int),
            ),
        decreases qs.len() - k,
    {
        assert(views(qs@).take(k + 1).drop_last() =~= views(qs@).take(k as int));
        push_question(out, rows, authors, members, (k + 1) as u64, &qs[k]);
        assert(blocks_view(out@) =~= qa_head + questions_blocks(
            rows@,
            authors@,
            members@,
            views(qs@).take(k + 1),
        ));
        k = k + 1;
    }
    assert(views(qs@).take(qs.len() as int) =~= views(qs@));
    assert(blocks_view(out@) =~= blocks_view(old(out)@) + qa_blocks(rows@, authors@, members@));
}

fn push_personal(
    out: &mut Vec<ReportBlock>,
    member_retros: &Vec<MemberRetroRow>,
    members: &Vec<MemberRow>,
)
    ensures
        blocks_view(final(out)@) == blocks_view(old(out)@) + personal_blocks(
            members@,
            member_retros@,
        ),
{
    let mut personal: Vec<ReportBlock> = Vec::new();
    let mut j: usize = 0;
    assert(blocks_view(personal@) =~= personal_lines(members@, member_retros@.take(0)));
    while j < member_retros.len()
        invariant
            j <= member_retros.len(),
            blocks_view(personal@) == personal_lines(members@, member_retros@.take(j as int)),
        decreases member_retros.len() - j,
    {
        assert(member_retros@.take(j + 1).drop_last() =~= member_retros@.take(j as int));
        let mr = &member_retros[j];
        match &mr.personal_insight {
            Some(insight) => {
                let name = participant_name_exec(members, mr.member_id);
                push_text(&mut personal, ReportStyle::Bold, cat3("[", name.as_str(), "]"));
                push_text(&mut personal, ReportStyle::Plain, cat2("  ", insight.as_str()));
                push_gap(&mut personal, GapSize::Small);
                assert(blocks_view(personal@) =~= personal_lines(
                    members@,
                    member_retros@.take(j + 1),
                ));
            },
            None => {},
        }
        j = j + 1;
    }
    assert(member_retros@.take(member_retros.len() as int) =~= member_retros@);
    if personal.len() > 0 {
        push_gap(out, GapSize::Medium);
        push_text(out, ReportStyle::Section, "Personal Insights".to_owned());
        push_gap(out, GapSize::Medium);
        let ghost pre = blocks_view(out@);
        let ghost lines = blocks_view(personal@);
        out.append(&mut personal);
        assert(blocks_view(out@) =~= pre + lines);
    }
    assert(blocks_view(out@) =~= blocks_view(old(out)@) + personal_blocks(
        members@,
        member_retros@,
    ));
}

/// Lays out the exported report of a retrospective: title, basic information with the
/// participants, the room insight when there is one, every distinct question with its
/// non-blank answers and their authors, and the personal insights.
pub fn build_report(
    retro: &RetrospectRow,
    room_name: &str,
    member_retros: &Vec<MemberRetroRow>,
    members: &Vec<MemberRow>,
    rows: &Vec<ResponseRow>,
    authors: &Vec<MemberResponseRow>,
) -> (out: Vec<ReportBlock>)
    requires
        valid_time(retro.start_time as int),
    ensures
        blocks_view(out@) == report_spec(
            *retro,
            room_name@,
            member_retros@,
            members@,
            rows@,
            authors@,
        ),
{
    let mut out: Vec<ReportBlock> = Vec::new();
    assert(blocks_view(out@) =~= Seq::<BlockView>::empty());
    push_info(&mut out, retro, room_name, member_retros, members);
    let ghost a = blocks_view(out@);
    match &retro.insight {
        Some(insight) => {
            push_text(&mut out, ReportStyle::Section, "Retro Room Insight".to_owned());
            push_gap(&mut out, GapSize::Medium);
            push_text(&mut out, ReportStyle::Plain, insight.clone());
            push_gap(&mut out, GapSize::Large);
        },
        None => {},
    }
    assert(blocks_view(out@) =~= a + insight_blocks(retro.insight));
    push_qa(&mut out, rows, authors, members);
    push_personal(&mut out, member_retros, members);
    assert(blocks_view(out@) =~= report_spec(
        *retro,
        room_name@,
        member_retros@,
        members@,
        rows@,
        authors@,
    ));
    out
}

} // verus!

verus! {

/// The line an answer is shown with.
pub open spec fn answer_line_of(
    authors: Seq<MemberResponseRow>,
    members: Seq<MemberRow>,
    r: ResponseRow,
) -> BlockView {
    plain("  - ["@ + answer_author(authors, members, r.response_id) + "] "@ + r.content@)
}

/// Answers are grouped by their own question: every line listed under question `q` is the
/// line of an answer to `q` that is not blank, and every answer to `q` that is not blank is
/// listed under `q`; there is one line per such answer.
pub proof fn law_answer_lines_grouped_by_question(
    rows: Seq<ResponseRow>,
    authors: Seq<MemberResponseRow>,
    members: Seq<MemberRow>,
    q: Seq<char>,
)
    ensures
        forall|i: int| 0 <= i < answer_lines(rows, authors, members, q).len() ==> exists|k: int|
            0 <= k < rows.len() && (#[trigger] rows[k]).question@ == q && !all_ws(rows[k].content@)
                && #[trigger] answer_lines(rows, authors, members, q)[i] == answer_line_of(authors, members, rows[k]),
        forall|k: int| 0 <= k < rows.len() && (#[trigger] rows[k]).question@ == q && !all_ws(rows[k].content@)
            ==> answer_lines(rows, authors, members, q).contains(answer_line_of(authors, members, rows[k])),
        answer_lines(rows, authors, members, q).len() <= rows.len(),
    decreases rows.len(),
{
    if rows.len() > 0 {
        let d = rows.drop_last();
        law_answer_lines_grouped_by_question(d, authors, members, q);
        let rest = answer_lines(d, authors, members, q);
        let a = answer_lines(rows, authors, members, q);
        let r = rows.last();
        let hit = r.question@ == q && !all_ws(r.content@);
        if hit {
            assert(a == rest.push(answer_line_of(authors, members, r)));
        } else {
            assert(a == rest);
        }
        assert forall|i: int| 0 <= i < a.len() implies exists|k: int|
            0 <= k < rows.len() && (#[trigger] rows[k]).question@ == q && !all_ws(rows[k].content@)
                && #[trigger] a[i] == answer_line_of(authors, members, rows[k]) by {
            if i < rest.len() {
                assert(a[i] == rest[i]);
                let k = choose|k: int| 0 <= k < d.len() && (#[trigger] d[k]).question@ == q && !all_ws(d[k].content@)
                    && #[trigger] rest[i] == answer_line_of(authors, members, d[k]);
                assert(rows[k] == d[k]);
            } else {
                assert(rows[rows.len() - 1] == r);
            }
        }
        assert forall|k: int| 0 <= k < rows.len() && (#[trigger] rows[k]).question@ == q && !all_ws(rows[k].content@)
            implies a.contains(answer_line_of(authors, members, rows[k])) by {
            if k < rows.len() - 1 {
                assert(d[k] == rows[k]);
                assert(rest.contains(answer_line_of(authors, members, d[k])));
                let i = choose|i: int| 0 <= i < rest.len() && rest[i] == answer_line_of(authors, members, d[k]);
                assert(a[i] == rest[i]);
            } else {
                assert(rows[k] == r);
                assert(a[a.len() - 1] == answer_line_of(authors, members, r));
            }
        }
    }
}

/// An answer in the report is tagged with its author's nickname when its authorship rows
/// name one member and that member's rows carry one nickname; it is tagged "Anonymous" when
/// no authorship row of the answer names a member.
pub proof fn law_answer_author_tag(
    authors: Seq<MemberResponseRow>,
    members: Seq<MemberRow>,
    rid: i64,
    m: i64,
    j: int,
)
    requires
        exists|k: int| 0 <= k < authors.len() && (#[trigger] authors[k]).response_id == rid && authors[k].member_id == Some(m),
        forall|k: int| 0 <= k < authors.len() && (#[trigger] authors[k]).response_id == rid && authors[k].member_id is Some
            ==> authors[k].member_id == Some(m),
        0 <= j < members.len(),
        members[j].member_id == m,
        forall|j2: int| 0 <= j2 < members.len() && (#[trigger] members[j2]).member_id == m
            ==> members[j2].nickname@ == members[j].nickname@,
    ensures
        members[j].nickname matches Some(n) ==> answer_author(authors, members, rid) == n@,
        members[j].nickname is None ==> answer_author(authors, members, rid).len() == 0,
{
    crate::responses::lemma_author_of_found(authors, rid, m);
    crate::responses::lemma_member_of_found(members, m, j);
    let row = member_of(members, m)->0;
    let j2 = choose|j2: int| 0 <= j2 < members.len() && members[j2] == row && row.member_id == m;
    assert(members[j2].nickname@ == members[j].nickname@);
}

/// An answer none of whose authorship rows names a member is tagged "Anonymous".
pub proof fn law_answer_author_anonymous(authors: Seq<MemberResponseRow>, members: Seq<MemberRow>, rid: i64)
    requires
        forall|k: int| 0 <= k < authors.len() && (#[trigger] authors[k]).response_id == rid ==> authors[k].member_id is None,
    ensures
        answer_author(authors, members, rid) == "Anonymous"@,
{
    crate::responses::lemma_author_of_none(authors, rid);
}

} // verus!
