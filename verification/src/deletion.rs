//! Deleting a retrospective or a room: which stored rows go, in an order that never leaves a
//! row pointing at one already gone.
use vstd::prelude::*;
use crate::service::RetrospectService;

verus! {

/// One deletion, of every row of a kind that the ids select.
#[derive(Debug)]
pub enum DeletionStep {
    /// Comments on these answers.
    CommentsOfResponses(Vec<i64>),
    /// Likes of these answers.
    LikesOfResponses(Vec<i64>),
    /// Authorship rows of these answers.
    MemberResponsesOfResponses(Vec<i64>),
    /// Answers of these retrospectives.
    ResponsesOfRetrospects(Vec<i64>),
    /// Reference links of these retrospectives.
    ReferencesOfRetrospects(Vec<i64>),
    /// Assistant uses in these retrospectives.
    AssistantUsagesOfRetrospects(Vec<i64>),
    /// Participations in these retrospectives.
    MemberRetrosOfRetrospects(Vec<i64>),
    /// These retrospectives.
    Retrospects(Vec<i64>),
    /// Memberships of the room.
    MemberRoomsOfRoom(i64),
    /// The room.
    Room(i64),
}

/// The kind of rows a step deletes, with the ids it selects by.
pub enum StepView {
    CommentsOfResponses(Seq<i64>),
    LikesOfResponses(Seq<i64>),
    MemberResponsesOfResponses(Seq<i64>),
    ResponsesOfRetrospects(Seq<i64>),
    ReferencesOfRetrospects(Seq<i64>),
    AssistantUsagesOfRetrospects(Seq<i64>),
    MemberRetrosOfRetrospects(Seq<i64>),
    Retrospects(Seq<i64>),
    MemberRoomsOfRoom(i64),
    Room(i64),
}

pub open spec fn step_view(s: DeletionStep) -> StepView {
    match s {
        DeletionStep::CommentsOfResponses(v) => StepView::CommentsOfResponses(v@),
        DeletionStep::LikesOfResponses(v) => StepView::LikesOfResponses(v@),
        DeletionStep::MemberResponsesOfResponses(v) => StepView::MemberResponsesOfResponses(v@),
        DeletionStep::ResponsesOfRetrospects(v) => StepView::ResponsesOfRetrospects(v@),
        DeletionStep::ReferencesOfRetrospects(v) => StepView::ReferencesOfRetrospects(v@),
        DeletionStep::AssistantUsagesOfRetrospects(v) => StepView::AssistantUsagesOfRetrospects(v@),
        DeletionStep::MemberRetrosOfRetrospects(v) => StepView::MemberRetrosOfRetrospects(v@),
        DeletionStep::Retrospects(v) => StepView::Retrospects(v@),
        DeletionStep::MemberRoomsOfRoom(r) => StepView::MemberRoomsOfRoom(r),
        DeletionStep::Room(r) => StepView::Room(r),
    }
}

pub open spec fn steps_view(v: Seq<DeletionStep>) -> Seq<StepView> {
    v.map_values(|s: DeletionStep| step_view(s))
}

/// What goes with the answers: their comments, likes and authorship rows (nothing when there
/// are no answers).
pub open spec fn answer_steps(response_ids: Seq<i64>) -> Seq<StepView> {
    if response_ids.len() == 0 {
        Seq::empty()
    } else {
        seq![
            StepView::CommentsOfResponses(response_ids),
            StepView::LikesOfResponses(response_ids),
            StepView::MemberResponsesOfResponses(response_ids),
        ]
    }
}

/// Deleting one retrospective: its answers' reactions, its answers, references, assistant
/// uses and participations, the retrospective, and then its room with the room's memberships
/// when no other retrospective is in the room.
pub open spec fn retrospect_deletion(
    retrospect_id: i64,
    room_id: i64,
    response_ids: Seq<i64>,
    others_in_room: u64,
) -> Seq<StepView> {
    let ids = seq![retrospect_id];
    answer_steps(response_ids) + seq![
        StepView::ResponsesOfRetrospects(ids),
        StepView::ReferencesOfRetrospects(ids),
        StepView::AssistantUsagesOfRetrospects(ids),
        StepView::MemberRetrosOfRetrospects(ids),
        StepView::Retrospects(ids),
    ] + if others_in_room == 0 {
        seq![StepView::MemberRoomsOfRoom(room_id), StepView::Room(room_id)]
    } else {
        Seq::empty()
    }
}

/// Deleting a room: when it has retrospectives, their answers' reactions, their answers,
/// references and participations and the retrospectives; then the memberships and the room.
pub open spec fn room_deletion(room_id: i64, retrospect_ids: Seq<i64>, response_ids: Seq<i64>) -> Seq<StepView> {
    (if retrospect_ids.len() == 0 {
        Seq::empty()
    } else {
        answer_steps(response_ids) + seq![
            StepView::ResponsesOfRetrospects(retrospect_ids),
            StepView::ReferencesOfRetrospects(retrospect_ids),
            StepView::MemberRetrosOfRetrospects(retrospect_ids),
            StepView::Retrospects(retrospect_ids),
        ]
    }) + seq![StepView::MemberRoomsOfRoom(room_id), StepView::Room(room_id)]
}

fn ids_copy(v: &[i64]) -> (r: Vec<i64>)
    ensures
        r@ == v@,
{
    let mut out: Vec<i64> = Vec::new();
    let mut i: usize = 0;
    while i < v.len()
        invariant
            i <= v@.len(),
            out@ == v@.take(i as int),
        decreases v@.len() - i,
    {
        out.push(v[i]);
        i = i + 1;
        assert(out@ =~= v@.take(i as int));
    }
    assert(v@.take(v@.len() as int) =~= v@);
    out
}

fn one_id(x: i64) -> (r: Vec<i64>)
    ensures
        r@ == seq![x],
{
    let mut v: Vec<i64> = Vec::new();
    v.push(x);
    assert(v@ =~= seq![x]);
    v
}

fn push_step(out: &mut Vec<DeletionStep>, s: DeletionStep)
    ensures
        steps_view(final(out)@) == steps_view(old(out)@).push(step_view(s)),
{
    let ghost before = out@;
    out.push(s);
    assert(steps_view(out@) =~= steps_view(before).push(step_view(s)));
}

fn push_answer_steps(out: &mut Vec<DeletionStep>, response_ids: &[i64])
    ensures
        steps_view(final(out)@) == steps_view(old(out)@) + answer_steps(response_ids@),
{
    let ghost before = steps_view(out@);
    if response_ids.len() > 0 {
        push_step(out, DeletionStep::CommentsOfResponses(ids_copy(response_ids)));
        push_step(out, DeletionStep::LikesOfResponses(ids_copy(response_ids)));
        push_step(out, DeletionStep::MemberResponsesOfResponses(ids_copy(response_ids)));
        assert(steps_view(out@) =~= before + answer_steps(response_ids@));
    } else {
        assert(steps_view(out@) =~= before + answer_steps(response_ids@));
    }
}

impl RetrospectService {
    /// The deletions that remove a retrospective (see [`retrospect_deletion`]);
    /// `others_in_room` counts the other retrospectives of its room.
    pub fn plan_retrospect_deletion(retrospect_id: i64, room_id: i64, response_ids: &[i64], others_in_room: u64) -> (r:
        Vec<DeletionStep>)
        ensures
            steps_view(r@) == retrospect_deletion(retrospect_id, room_id, response_ids@, others_in_room),
    {
        let mut out: Vec<DeletionStep> = Vec::new();
        push_answer_steps(&mut out, response_ids);
        let ghost a = steps_view(out@);
        push_step(&mut out, DeletionStep::ResponsesOfRetrospects(one_id(retrospect_id)));
        push_step(&mut out, DeletionStep::ReferencesOfRetrospects(one_id(retrospect_id)));
        push_step(&mut out, DeletionStep::AssistantUsagesOfRetrospects(one_id(retrospect_id)));
        push_step(&mut out, DeletionStep::MemberRetrosOfRetrospects(one_id(retrospect_id)));
        push_step(&mut out, DeletionStep::Retrospects(one_id(retrospect_id)));
        let ghost b = steps_view(out@);
        if others_in_room == 0 {
            push_step(&mut out, DeletionStep::MemberRoomsOfRoom(room_id));
            push_step(&mut out, DeletionStep::Room(room_id));
        }
        assert(steps_view(out@) =~= retrospect_deletion(retrospect_id, room_id, response_ids@, others_in_room));
        out
    }

    /// The deletions that remove a room and everything in it (see [`room_deletion`]).
    pub fn plan_room_deletion(room_id: i64, retrospect_ids: &[i64], response_ids: &[i64]) -> (r: Vec<DeletionStep>)
        ensures
            steps_view(r@) == room_deletion(room_id, retrospect_ids@, response_ids@),
    {
        let mut out: Vec<DeletionStep> = Vec::new();
        if retrospect_ids.len() > 0 {
            push_answer_steps(&mut out, response_ids);
            push_step(&mut out, DeletionStep::ResponsesOfRetrospects(ids_copy(retrospect_ids)));
            push_step(&mut out, DeletionStep::ReferencesOfRetrospects(ids_copy(retrospect_ids)));
            push_step(&mut out, DeletionStep::MemberRetrosOfRetrospects(ids_copy(retrospect_ids)));
            push_step(&mut out, DeletionStep::Retrospects(ids_copy(retrospect_ids)));
        }
        push_step(&mut out, DeletionStep::MemberRoomsOfRoom(room_id));
        push_step(&mut out, DeletionStep::Room(room_id));
        assert(steps_view(out@) =~= room_deletion(room_id, retrospect_ids@, response_ids@));
        out
    }
}

/// Rows that point at answers go before the answers, and answers and other rows that point at
/// a retrospective go before the retrospective: in a retrospective's deletion, the answers'
/// reactions come first, the retrospective comes after all rows that point at it, and the
/// room, if it goes, comes last, after its memberships.
pub proof fn law_deletion_order(retrospect_id: i64, room_id: i64, response_ids: Seq<i64>, others_in_room: u64)
    ensures
        ({
            let p = retrospect_deletion(retrospect_id, room_id, response_ids, others_in_room);
            let k = answer_steps(response_ids).len() as int;
            &&& p[k + 4] == StepView::Retrospects(seq![retrospect_id])
            &&& forall|i: int| 0 <= i < k ==> !(#[trigger] p[i] is ResponsesOfRetrospects)
            &&& p[k as int] == StepView::ResponsesOfRetrospects(seq![retrospect_id])
            &&& others_in_room == 0 ==> p.len() == k + 7 && p[k + 5] == StepView::MemberRoomsOfRoom(room_id)
                && p.last() == StepView::Room(room_id)
            &&& others_in_room != 0 ==> p.len() == k + 5 && forall|i: int| 0 <= i < p.len() ==> !(#[trigger] p[i] is Room)
        }),
{
    let p = retrospect_deletion(retrospect_id, room_id, response_ids, others_in_room);
    let k = answer_steps(response_ids).len() as int;
    assert(p[k + 4] == StepView::Retrospects(seq![retrospect_id]));
}

} // verus!

verus! {

/// A step deletes only rows tied to the given answers, retrospectives or room.
pub open spec fn step_within(s: StepView, retrospect_ids: Seq<i64>, response_ids: Seq<i64>, room_id: i64) -> bool {
    match s {
        StepView::CommentsOfResponses(v) => v == response_ids,
        StepView::LikesOfResponses(v) => v == response_ids,
        StepView::MemberResponsesOfResponses(v) => v == response_ids,
        StepView::ResponsesOfRetrospects(v) => v == retrospect_ids,
        StepView::ReferencesOfRetrospects(v) => v == retrospect_ids,
        StepView::AssistantUsagesOfRetrospects(v) => v == retrospect_ids,
        StepView::MemberRetrosOfRetrospects(v) => v == retrospect_ids,
        StepView::Retrospects(v) => v == retrospect_ids,
        StepView::MemberRoomsOfRoom(r) => r == room_id,
        StepView::Room(r) => r == room_id,
    }
}

/// Deleting a retrospective removes it with its answers, their comments, likes and
/// authorship, its references, assistant uses and participations, touches no other
/// retrospective's rows, and removes the room (with its memberships) exactly when no other
/// retrospective is left in it.
pub proof fn law_retrospect_deletion_scope(
    retrospect_id: i64,
    room_id: i64,
    response_ids: Seq<i64>,
    others_in_room: u64,
)
    ensures
        ({
            let steps = retrospect_deletion(retrospect_id, room_id, response_ids, others_in_room);
            let ids = seq![retrospect_id];
            &&& forall|i: int| 0 <= i < steps.len() ==> step_within(#[trigger] steps[i], ids, response_ids, room_id)
            &&& steps.contains(StepView::Retrospects(ids))
            &&& steps.contains(StepView::ResponsesOfRetrospects(ids))
            &&& steps.contains(StepView::ReferencesOfRetrospects(ids))
            &&& steps.contains(StepView::AssistantUsagesOfRetrospects(ids))
            &&& steps.contains(StepView::MemberRetrosOfRetrospects(ids))
            &&& response_ids.len() > 0 ==> steps.contains(StepView::CommentsOfResponses(response_ids))
                && steps.contains(StepView::LikesOfResponses(response_ids))
                && steps.contains(StepView::MemberResponsesOfResponses(response_ids))
            &&& steps.contains(StepView::Room(room_id)) <==> others_in_room == 0
            &&& steps.contains(StepView::MemberRoomsOfRoom(room_id)) <==> others_in_room == 0
        }),
{
    let steps = retrospect_deletion(retrospect_id, room_id, response_ids, others_in_room);
    let ids = seq![retrospect_id];
    let a = answer_steps(response_ids);
    let n = a.len() as int;
    assert(a.len() == 0 || a.len() == 3);
    assert(steps[n] == StepView::ResponsesOfRetrospects(ids));
    assert(steps[n + 1] == StepView::ReferencesOfRetrospects(ids));
    assert(steps[n + 2] == StepView::AssistantUsagesOfRetrospects(ids));
    assert(steps[n + 3] == StepView::MemberRetrosOfRetrospects(ids));
    assert(steps[n + 4] == StepView::Retrospects(ids));
    if response_ids.len() > 0 {
        assert(steps[0] == StepView::CommentsOfResponses(response_ids));
        assert(steps[1] == StepView::LikesOfResponses(response_ids));
        assert(steps[2] == StepView::MemberResponsesOfResponses(response_ids));
    }
    if others_in_room == 0 {
        assert(steps[n + 5] == StepView::MemberRoomsOfRoom(room_id));
        assert(steps[n + 6] == StepView::Room(room_id));
    } else {
        assert(steps.len() == n + 5);
        assert forall|i: int| 0 <= i < steps.len() implies !(#[trigger] steps[i] is Room) && !(steps[i] is MemberRoomsOfRoom) by {
            if i < n {
                assert(steps[i] == a[i]);
            }
        }
    }
    assert forall|i: int| 0 <= i < steps.len() implies step_within(#[trigger] steps[i], ids, response_ids, room_id) by {
        if i < n {
            assert(steps[i] == a[i]);
        }
    }
}

} // verus!
