//! The archive: a member's submitted retrospectives, grouped by year, newest first.
use vstd::prelude::*;
use crate::method::RetrospectMethod;
use crate::model::{MemberRetroRow, RetrospectRow, is_submitted};
use crate::service::RetrospectService;
use crate::text::{chars_of, dec_int, int_to_string};
use crate::time::{KST_OFFSET_SECS, valid_time, spec_format_date, spec_year_of, format_date, year_of};

verus! {

/// `a` comes strictly before `b` in the order of `String`'s `cmp` (by code point, a proper
/// prefix first).
pub open spec fn text_lt(a: Seq<char>, b: Seq<char>) -> bool {
    exists|k: int| lt_at(a, b, k)
}

/// `a` and `b` agree before position `k`, where `a` ends while `b` goes on, or `a` has the
/// smaller character.
pub open spec fn lt_at(a: Seq<char>, b: Seq<char>, k: int) -> bool {
    &&& 0 <= k <= a.len()
    &&& k <= b.len()
    &&& forall|i: int| 0 <= i < k ==> a[i] == b[i]
    &&& (k == a.len() && k < b.len()) || (k < a.len() && k < b.len() && (a[k] as int) < (b[k] as int))
}

/// Whether `a` sorts strictly before `b` as text.
pub fn text_less(a: &str, b: &str) -> (r: bool)
    ensures
        r == text_lt(a@, b@),
{
    let va = chars_of(a);
    let vb = chars_of(b);
    let mut k: usize = 0;
    while k < va.len() && k < vb.len() && va[k] == vb[k]
        invariant
            va@ == a@,
            vb@ == b@,
            k <= va@.len(),
            k <= vb@.len(),
            forall|i: int| 0 <= i < k ==> a@[i] == b@[i],
        decreases va@.len() - k,
    {
        k = k + 1;
    }
    let r = if k == va.len() {
        k < vb.len()
    } else if k == vb.len() {
        false
    } else {
        va[k] < vb[k]
    };
    assert(k < va@.len() && k < vb@.len() ==> va@[k as int] == a@[k as int] && vb@[k as int] == b@[k as int]);
    proof {
        if r {
            assert(lt_at(a@, b@, k as int));
        }
        if text_lt(a@, b@) {
            let j = choose|j: int| lt_at(a@, b@, j);
            if j < k {
                assert(a@[j] == b@[j]);
            } else if j > k {
                assert(a@[k as int] == b@[k as int]);
            }
        }
    }
    r
}

/// One archived retrospective.
pub struct StorageRetrospectItem {
    pub retrospect_id: i64,
    pub display_date: String,
    pub title: String,
    pub retrospect_method: RetrospectMethod,
    pub member_count: i64,
}

/// The archived retrospectives of one year.
pub struct StorageYearGroup {
    pub year_label: String,
    pub retrospects: Vec<StorageRetrospectItem>,
}

/// An archive entry as shown: id, date, title, method and number of participants.
pub type StorageItemView = (i64, Seq<char>, Seq<char>, RetrospectMethod, i64);

/// A year group as shown: its label and entries.
pub type StorageGroupView = (Seq<char>, Seq<StorageItemView>);

pub open spec fn item_view(it: StorageRetrospectItem) -> StorageItemView {
    (it.retrospect_id, it.display_date@, it.title@, it.retrospect_method, it.member_count)
}

pub open spec fn items_view(v: Seq<StorageRetrospectItem>) -> Seq<StorageItemView> {
    v.map_values(|it: StorageRetrospectItem| item_view(it))
}

pub open spec fn group_view(g: StorageYearGroup) -> StorageGroupView {
    (g.year_label@, items_view(g.retrospects@))
}

pub open spec fn groups_view(v: Seq<StorageYearGroup>) -> Seq<StorageGroupView> {
    v.map_values(|g: StorageYearGroup| group_view(g))
}

/// A participation counts for the archive: submitted (or analysed), and when a cut-off is
/// given, submitted at or after it.
pub open spec fn archived(mr: MemberRetroRow, cutoff: Option<i64>) -> bool {
    is_submitted(mr.status) && match cutoff {
        Some(c) => mr.submitted_at matches Some(t) && t >= c,
        None => true,
    }
}

pub open spec fn archived_ids(mrs: Seq<MemberRetroRow>, cutoff: Option<i64>) -> Set<i64> {
    Set::new(|id: i64| exists|i: int| 0 <= i < mrs.len() && archived(mrs[i], cutoff) && mrs[i].retrospect_id == id)
}

/// When the member submitted retrospective `id`: the last archived participation of it that
/// has a time.
pub open spec fn submitted_time(mrs: Seq<MemberRetroRow>, cutoff: Option<i64>, id: i64) -> Option<i64>
    decreases mrs.len(),
{
    if mrs.len() == 0 {
        None
    } else {
        let mr = mrs.last();
        if archived(mr, cutoff) && mr.retrospect_id == id && mr.submitted_at is Some {
            mr.submitted_at
        } else {
            submitted_time(mrs.drop_last(), cutoff, id)
        }
    }
}

/// Number of participations of retrospective `id`.
pub open spec fn participant_count(parts: Seq<MemberRetroRow>, id: i64) -> nat
    decreases parts.len(),
{
    if parts.len() == 0 {
        0
    } else {
        participant_count(parts.drop_last(), id) + if parts.last().retrospect_id == id {
            1nat
        } else {
            0nat
        }
    }
}

/// The moment an archived retrospective is dated by, in Korean time: its submission, else its
/// creation.
pub open spec fn archive_moment(mrs: Seq<MemberRetroRow>, cutoff: Option<i64>, r: RetrospectRow) -> int {
    match submitted_time(mrs, cutoff, r.retrospect_id) {
        Some(t) => t + KST_OFFSET_SECS,
        None => r.created_at + KST_OFFSET_SECS,
    }
}

/// The archive entries in the order of `retros`, each with its year.
pub open spec fn archive_entries(
    mrs: Seq<MemberRetroRow>,
    cutoff: Option<i64>,
    parts: Seq<MemberRetroRow>,
    retros: Seq<RetrospectRow>,
) -> Seq<(int, StorageItemView)>
    decreases retros.len(),
{
    if retros.len() == 0 {
        Seq::empty()
    } else {
        let rest = archive_entries(mrs, cutoff, parts, retros.drop_last());
        let r = retros.last();
        if archived_ids(mrs, cutoff).contains(r.retrospect_id) {
            let m = archive_moment(mrs, cutoff, r);
            rest.push(
                (spec_year_of(m), (r.retrospect_id, spec_format_date(m), r.title@, r.retrospect_method,
                    participant_count(parts, r.retrospect_id) as i64)),
            )
        } else {
            rest
        }
    }
}

/// Adds a year to a strictly decreasing list of years (no change when present).
pub open spec fn insert_year(ys: Seq<int>, y: int) -> Seq<int>
    decreases ys.len(),
{
    if ys.len() == 0 {
        seq![y]
    } else if ys.last() == y {
        ys
    } else if ys.last() > y {
        ys.push(y)
    } else {
        insert_year(ys.drop_last(), y).push(ys.last())
    }
}

/// The years of the entries, newest first, each once.
pub open spec fn entry_years(es: Seq<(int, StorageItemView)>) -> Seq<int>
    decreases es.len(),
{
    if es.len() == 0 {
        Seq::empty()
    } else {
        insert_year(entry_years(es.drop_last()), es.last().0)
    }
}

/// The entries of year `y`, in order.
pub open spec fn entries_of_year(es: Seq<(int, StorageItemView)>, y: int) -> Seq<StorageItemView>
    decreases es.len(),
{
    if es.len() == 0 {
        Seq::empty()
    } else if es.last().0 == y {
        entries_of_year(es.drop_last(), y).push(es.last().1)
    } else {
        entries_of_year(es.drop_last(), y)
    }
}

/// Inserts an entry after every entry that is not dated strictly earlier (latest first,
/// ties kept in order).
pub open spec fn insert_by_date(s: Seq<StorageItemView>, x: StorageItemView) -> Seq<StorageItemView>
    decreases s.len(),
{
    if s.len() > 0 && text_lt(s.last().1, x.1) {
        insert_by_date(s.drop_last(), x).push(s.last())
    } else {
        s.push(x)
    }
}

/// Stable sort of entries, latest date first.
pub open spec fn sort_by_date(s: Seq<StorageItemView>) -> Seq<StorageItemView>
    decreases s.len(),
{
    if s.len() == 0 {
        s
    } else {
        insert_by_date(sort_by_date(s.drop_last()), s.last())
    }
}

/// Inserts a group after every group whose label is not strictly smaller as text.
pub open spec fn insert_by_label(s: Seq<StorageGroupView>, x: StorageGroupView) -> Seq<StorageGroupView>
    decreases s.len(),
{
    if s.len() > 0 && text_lt(s.last().0, x.0) {
        insert_by_label(s.drop_last(), x).push(s.last())
    } else {
        s.push(x)
    }
}

/// Stable sort of groups, largest label (as text) first.
pub open spec fn sort_by_label(s: Seq<StorageGroupView>) -> Seq<StorageGroupView>
    decreases s.len(),
{
    if s.len() == 0 {
        s
    } else {
        insert_by_label(sort_by_label(s.drop_last()), s.last())
    }
}

pub open spec fn year_label(y: int) -> Seq<char> {
    dec_int(y) + "년"@
}

/// The archive: a group per year (newest year first, then ordered by label as text), each
/// with its entries latest first.
pub open spec fn archive_groups(es: Seq<(int, StorageItemView)>) -> Seq<StorageGroupView> {
    let ys = entry_years(es);
    sort_by_label(Seq::new(ys.len(), |i: int| (year_label(ys[i]), sort_by_date(entries_of_year(es, ys[i])))))
}

pub open spec fn submitted_time_valid(mr: MemberRetroRow) -> bool {
    match mr.submitted_at {
        Some(t) => valid_time(t + KST_OFFSET_SECS),
        None => true,
    }
}

/// All times involved can be shown in Korean time.
pub open spec fn archive_times_valid(mrs: Seq<MemberRetroRow>, retros: Seq<RetrospectRow>) -> bool {
    &&& forall|i: int| 0 <= i < mrs.len() ==> submitted_time_valid(#[trigger] mrs[i])
    &&& forall|i: int| 0 <= i < retros.len() ==> valid_time(#[trigger] retros[i].created_at + KST_OFFSET_SECS)
}

pub open spec fn entries_view(v: Seq<(i32, StorageRetrospectItem)>) -> Seq<(int, StorageItemView)> {
    v.map_values(|e: (i32, StorageRetrospectItem)| (e.0 as int, item_view(e.1)))
}

fn is_archived(mr: &MemberRetroRow, cutoff: Option<i64>) -> (r: bool)
    ensures
        r == archived(*mr, cutoff),
{
    let submitted = match mr.status {
        crate::model::RetrospectStatus::Submitted | crate::model::RetrospectStatus::Analyzed => true,
        crate::model::RetrospectStatus::Draft => false,
    };
    submitted && match cutoff {
        Some(c) => match mr.submitted_at {
            Some(t) => t >= c,
            None => false,
        },
        None => true,
    }
}

fn is_archived_id(mrs: &Vec<MemberRetroRow>, cutoff: Option<i64>, id: i64) -> (r: bool)
    ensures
        r == archived_ids(mrs@, cutoff).contains(id),
{
    let mut i: usize = 0;
    while i < mrs.len()
        invariant
            i <= mrs@.len(),
            forall|j: int| 0 <= j < i ==> !(archived(#[trigger] mrs@[j], cutoff) && mrs@[j].retrospect_id == id),
        decreases mrs@.len() - i,
    {
        if is_archived(&mrs[i], cutoff) && mrs[i].retrospect_id == id {
            return true;
        }
        i = i + 1;
    }
    false
}

fn submitted_time_exec(mrs: &Vec<MemberRetroRow>, cutoff: Option<i64>, id: i64) -> (r: Option<i64>)
    ensures
        r == submitted_time(mrs@, cutoff, id),
        r matches Some(t) ==> exists|j: int| 0 <= j < mrs@.len() && mrs@[j].submitted_at == Some(t),
{
    let mut i: usize = mrs.len();
    assert(mrs@.take(mrs@.len() as int) =~= mrs@);
    while i > 0
        invariant
            i <= mrs@.len(),
            submitted_time(mrs@, cutoff, id) == submitted_time(mrs@.take(i as int), cutoff, id),
        decreases i,
    {
        assert(mrs@.take(i as int).drop_last() =~= mrs@.take(i - 1));
        let mr = &mrs[i - 1];
        if is_archived(mr, cutoff) && mr.retrospect_id == id && mr.submitted_at.is_some() {
            assert(mrs@[i - 1].submitted_at == mr.submitted_at);
            return mr.submitted_at;
        }
        i = i - 1;
    }
    None
}

fn participant_count_exec(parts: &Vec<MemberRetroRow>, id: i64) -> (r: i64)
    requires
        parts@.len() <= i64::MAX,
    ensures
        r == participant_count(parts@, id),
{
    let mut n: i64 = 0;
    let mut i: usize = 0;
    while i < parts.len()
        invariant
            i <= parts@.len(),
            n == participant_count(parts@.take(i as int), id),
            n <= i,
            parts@.len() <= i64::MAX,
        decreases parts@.len() - i,
    {
        assert(parts@.take(i + 1).drop_last() =~= parts@.take(i as int));
        if parts[i].retrospect_id == id {
            n = n + 1;
        }
        i = i + 1;
    }
    assert(parts@.take(parts@.len() as int) =~= parts@);
    n
}

fn clone_item(it: &StorageRetrospectItem) -> (r: StorageRetrospectItem)
    ensures
        item_view(r) == item_view(*it),
{
    StorageRetrospectItem {
        retrospect_id: it.retrospect_id,
        display_date: it.display_date.clone(),
        title: it.title.clone(),
        retrospect_method: it.retrospect_method,
        member_count: it.member_count,
    }
}

fn insert_item_by_date(v: &mut Vec<StorageRetrospectItem>, x: StorageRetrospectItem)
    ensures
        items_view(final(v)@) == insert_by_date(items_view(old(v)@), item_view(x)),
    decreases old(v)@.len(),
{
    let ghost before = items_view(v@);
    if v.len() > 0 && text_less(v[v.len() - 1].display_date.as_str(), x.display_date.as_str()) {
        let last = v.pop().unwrap();
        assert(items_view(v@) =~= before.drop_last());
        assert(item_view(last) == before.last());
        insert_item_by_date(v, x);
        let ghost mid = v@;
        v.push(last);
        assert(items_view(v@) =~= items_view(mid).push(item_view(last)));
    } else {
        v.push(x);
        assert(items_view(v@) =~= before.push(item_view(x)));
    }
}

fn insert_group_by_label(v: &mut Vec<StorageYearGroup>, x: StorageYearGroup)
    ensures
        groups_view(final(v)@) == insert_by_label(groups_view(old(v)@), group_view(x)),
    decreases old(v)@.len(),
{
    let ghost before = groups_view(v@);
    if v.len() > 0 && text_less(v[v.len() - 1].year_label.as_str(), x.year_label.as_str()) {
        let last = v.pop().unwrap();
        assert(groups_view(v@) =~= before.drop_last());
        assert(group_view(last) == before.last());
        insert_group_by_label(v, x);
        let ghost mid = v@;
        v.push(last);
        assert(groups_view(v@) =~= groups_view(mid).push(group_view(last)));
    } else {
        v.push(x);
        assert(groups_view(v@) =~= before.push(group_view(x)));
    }
}

fn insert_year_exec(ys: &mut Vec<i32>, y: i32)
    ensures
        final(ys)@.map_values(|x: i32| x as int) == insert_year(old(ys)@.map_values(|x: i32| x as int), y as int),
    decreases old(ys)@.len(),
{
    let ghost before = ys@.map_values(|x: i32| x as int);
    if ys.len() == 0 {
        ys.push(y);
        assert(ys@.map_values(|x: i32| x as int) =~= seq![y as int]);
        return;
    }
    let last = ys[ys.len() - 1];
    assert(before.last() == last as int);
    if last == y {
        return;
    }
    if last > y {
        ys.push(y);
        assert(ys@.map_values(|x: i32| x as int) =~= before.push(y as int));
        return;
    }
    ys.pop();
    assert(ys@.map_values(|x: i32| x as int) =~= before.drop_last());
    insert_year_exec(ys, y);
    let ghost mid = ys@;
    ys.push(last);
    assert(ys@.map_values(|x: i32| x as int) =~= mid.map_values(|x: i32| x as int).push(last as int));
}

impl RetrospectService {
    /// The archive of a member. `mrs` are the member's participations, `cutoff` the earliest
    /// submission time kept (none: all), `retros` the retrospectives they concern and `parts`
    /// every participation of those retrospectives. An archived retrospective is dated by the
    /// member's submission (else its creation) in Korean time, counted with its participants,
    /// and put in the group of its year; years come newest first (then ordered by label as
    /// text), entries in a year latest date first.
    pub fn build_storage(
        mrs: &Vec<MemberRetroRow>,
        cutoff: Option<i64>,
        retros: &Vec<RetrospectRow>,
        parts: &Vec<MemberRetroRow>,
    ) -> (r: Vec<StorageYearGroup>)
        requires
            archive_times_valid(mrs@, retros@),
            parts@.len() <= i64::MAX,
        ensures
            groups_view(r@) == archive_groups(archive_entries(mrs@, cutoff, parts@, retros@)),
    {
        let ghost es_spec = archive_entries(mrs@, cutoff, parts@, retros@);
        let mut entries: Vec<(i32, StorageRetrospectItem)> = Vec::new();
        let mut i: usize = 0;
        while i < retros.len()
            invariant
                i <= retros@.len(),
                archive_times_valid(mrs@, retros@),
                parts@.len() <= i64::MAX,
                entries_view(entries@) == archive_entries(mrs@, cutoff, parts@, retros@.take(i as int)),
            decreases retros@.len() - i,
        {
            assert(retros@.take(i + 1).drop_last() =~= retros@.take(i as int));
            let r = &retros[i];
            assert(retros@.take(i + 1).last() == *r);
            if is_archived_id(mrs, cutoff, r.retrospect_id) {
                let t = submitted_time_exec(mrs, cutoff, r.retrospect_id);
                let moment = match t {
                    Some(s) => {
                        proof {
                            let j = choose|j: int| 0 <= j < mrs@.len() && mrs@[j].submitted_at == Some(s);
                            assert(submitted_time_valid(mrs@[j]));
                        }
                        s + KST_OFFSET_SECS
                    },
                    None => {
                        assert(valid_time(retros@[i as int].created_at + KST_OFFSET_SECS));
                        r.created_at + KST_OFFSET_SECS
                    },
                };
                let item = StorageRetrospectItem {
                    retrospect_id: r.retrospect_id,
                    display_date: format_date(moment),
                    title: r.title.clone(),
                    retrospect_method: r.retrospect_method,
                    member_count: participant_count_exec(parts, r.retrospect_id),
                };
                let year = year_of(moment);
                let ghost before = entries@;
                entries.push((year, item));
                assert(entries_view(entries@) =~= entries_view(before).push((year as int, item_view(item))));
            }
            i = i + 1;
        }
        assert(retros@.take(retros@.len() as int) =~= retros@);
        assert(entries_view(entries@) == es_spec);
        // The years, newest first.
        let mut years: Vec<i32> = Vec::new();
        let mut k: usize = 0;
        while k < entries.len()
            invariant
                k <= entries@.len(),
                entries_view(entries@) == es_spec,
                years@.map_values(|x: i32| x as int) == entry_years(es_spec.take(k as int)),
            decreases entries@.len() - k,
        {
            assert(es_spec.take(k + 1).drop_last() =~= es_spec.take(k as int));
            assert(es_spec[k as int].0 == entries@[k as int].0 as int);
            insert_year_exec(&mut years, entries[k].0);
            k = k + 1;
        }
        assert(es_spec.take(entries@.len() as int) =~= es_spec);
        let ghost ys = entry_years(es_spec);
        // One group per year, entries latest first.
        let mut groups: Vec<StorageYearGroup> = Vec::new();
        let mut g: usize = 0;
        while g < years.len()
            invariant
                g <= years@.len(),
                entries_view(entries@) == es_spec,
                years@.map_values(|x: i32| x as int) == ys,
                groups_view(groups@) == sort_by_label(
                    Seq::new(ys.len(), |q: int| (year_label(ys[q]), sort_by_date(entries_of_year(es_spec, ys[q])))).take(
                        g as int,
                    ),
                ),
            decreases years@.len() - g,
        {
            let y = years[g];
            assert(ys[g as int] == y as int);
            let mut items: Vec<StorageRetrospectItem> = Vec::new();
            let mut e: usize = 0;
            while e < entries.len()
                invariant
                    e <= entries@.len(),
                    entries_view(entries@) == es_spec,
                    items_view(items@) == sort_by_date(entries_of_year(es_spec.take(e as int), y as int)),
                decreases entries@.len() - e,
            {
                assert(es_spec.take(e + 1).drop_last() =~= es_spec.take(e as int));
                assert(es_spec[e as int] == (entries@[e as int].0 as int, item_view(entries@[e as int].1)));
                if entries[e].0 == y {
                    let c = clone_item(&entries[e].1);
                    let ghost prev = entries_of_year(es_spec.take(e as int), y as int);
                    assert(entries_of_year(es_spec.take(e + 1), y as int) == prev.push(item_view(c)));
                    assert(prev.push(item_view(c)).drop_last() =~= prev);
                    insert_item_by_date(&mut items, c);
                }
                e = e + 1;
            }
            assert(es_spec.take(entries@.len() as int) =~= es_spec);
            let mut label = int_to_string(y as i64);
            label.append("년");
            let group = StorageYearGroup { year_label: label, retrospects: items };
            let ghost full = Seq::new(
                ys.len(),
                |q: int| (year_label(ys[q]), sort_by_date(entries_of_year(es_spec, ys[q]))),
            );
            assert(group_view(group) == full[g as int]);
            assert(full.take(g + 1).drop_last() =~= full.take(g as int));
            insert_group_by_label(&mut groups, group);
            g = g + 1;
        }
        let ghost full = Seq::new(ys.len(), |q: int| (year_label(ys[q]), sort_by_date(entries_of_year(es_spec, ys[q]))));
        assert(full.take(ys.len() as int) =~= full);
        groups
    }
}

impl RetrospectService {
    /// The earliest submission time a range of `days` days keeps, counted back from `now_utc`;
    /// `None` keeps everything.
    pub fn storage_cutoff(now_utc: i64, days: Option<i64>) -> (r: Option<i64>)
        requires
            days matches Some(d) ==> valid_time(now_utc - d * 86400),
        ensures
            r == match days {
                Some(d) => Some((now_utc - d * 86400) as i64),
                None => None,
            },
    {
        match days {
            Some(d) => {
                let back: i128 = d as i128 * 86400;
                Some((now_utc as i128 - back) as i64)
            },
            None => None,
        }
    }
}

proof fn lemma_text_lt_asym(a: Seq<char>, b: Seq<char>)
    ensures
        !(text_lt(a, b) && text_lt(b, a)),
{
    if text_lt(a, b) && text_lt(b, a) {
        let k = choose|k: int| lt_at(a, b, k);
        let j = choose|j: int| lt_at(b, a, j);
        if k < j {
            assert(b[k] == a[k]);
        } else if j < k {
            assert(a[j] == b[j]);
        }
    }
}

proof fn lemma_text_lt_trans(a: Seq<char>, b: Seq<char>, c: Seq<char>)
    requires
        text_lt(a, b),
        text_lt(b, c),
    ensures
        text_lt(a, c),
{
    let k = choose|k: int| lt_at(a, b, k);
    let j = choose|j: int| lt_at(b, c, j);
    if k < j {
        assert(b[k] == c[k]);
        assert(lt_at(a, c, k));
    } else if j < k {
        assert(a[j] == b[j]);
        assert(lt_at(a, c, j));
    } else {
        assert(lt_at(a, c, k));
    }
}

/// The first position where `a` and `b` differ or one of them ends, from `i` on.
proof fn first_difference(a: Seq<char>, b: Seq<char>, i: int) -> (k: int)
    requires
        0 <= i <= a.len(),
        i <= b.len(),
        forall|t: int| 0 <= t < i ==> a[t] == b[t],
    ensures
        i <= k <= a.len(),
        k <= b.len(),
        forall|t: int| 0 <= t < k ==> a[t] == b[t],
        k == a.len() || k == b.len() || a[k] != b[k],
    decreases a.len() - i,
{
    if i == a.len() || i == b.len() || a[i] != b[i] {
        i
    } else {
        first_difference(a, b, i + 1)
    }
}

proof fn lemma_text_lt_total(a: Seq<char>, b: Seq<char>)
    requires
        a != b,
    ensures
        text_lt(a, b) || text_lt(b, a),
{
    let k = first_difference(a, b, 0);
    if k == a.len() && k == b.len() {
        assert(a =~= b);
    } else if k == a.len() {
        assert(lt_at(a, b, k));
    } else if k == b.len() {
        assert(lt_at(b, a, k));
    } else if (a[k] as int) < (b[k] as int) {
        assert(lt_at(a, b, k));
    } else {
        assert(a[k] != b[k]);
        assert((a[k] as int) != (b[k] as int));
        assert(lt_at(b, a, k));
    }
}

/// No entry is dated strictly later than one before it.
pub open spec fn latest_first(s: Seq<StorageItemView>) -> bool {
    forall|i: int, j: int| 0 <= i < j < s.len() ==> !text_lt(#[trigger] s[i].1, #[trigger] s[j].1)
}

/// No group's label is strictly larger, as text, than that of one before it.
pub open spec fn labels_descending(s: Seq<StorageGroupView>) -> bool {
    forall|i: int, j: int| 0 <= i < j < s.len() ==> !text_lt(#[trigger] s[i].0, #[trigger] s[j].0)
}

proof fn lemma_insert_by_date_sorted(s: Seq<StorageItemView>, x: StorageItemView)
    requires
        latest_first(s),
    ensures
        latest_first(insert_by_date(s, x)),
        insert_by_date(s, x).len() == s.len() + 1,
        forall|k: int| 0 <= k < insert_by_date(s, x).len() ==> (#[trigger] insert_by_date(s, x)[k] == x || s.contains(
            insert_by_date(s, x)[k],
        )),
    decreases s.len(),
{
    if s.len() > 0 && text_lt(s.last().1, x.1) {
        let d = s.drop_last();
        assert forall|i: int, j: int| 0 <= i < j < d.len() implies !text_lt(#[trigger] d[i].1, #[trigger] d[j].1) by {
            assert(d[i] == s[i] && d[j] == s[j]);
        }
        lemma_insert_by_date_sorted(d, x);
        let t = insert_by_date(d, x);
        let r = t.push(s.last());
        assert forall|k: int| 0 <= k < t.len() implies !text_lt(#[trigger] t[k].1, s.last().1) by {
            if t[k] == x {
                lemma_text_lt_asym(s.last().1, x.1);
            } else {
                let m = choose|m: int| 0 <= m < d.len() && d[m] == t[k];
                assert(s[m] == d[m]);
                assert(!text_lt(s[m].1, s[s.len() - 1].1));
            }
        }
        assert forall|i: int, j: int| 0 <= i < j < r.len() implies !text_lt(#[trigger] r[i].1, #[trigger] r[j].1) by {
            if j == r.len() - 1 {
                assert(r[i] == t[i]);
            } else {
                assert(r[i] == t[i] && r[j] == t[j]);
            }
        }
        assert forall|k: int| 0 <= k < r.len() implies (#[trigger] r[k] == x || s.contains(r[k])) by {
            if k < t.len() {
                assert(r[k] == t[k]);
                if t[k] != x {
                    let m = choose|m: int| 0 <= m < d.len() && d[m] == t[k];
                    assert(s[m] == d[m]);
                }
            } else {
                assert(s[s.len() - 1] == s.last());
            }
        }
    } else {
        let r = s.push(x);
        assert forall|i: int, j: int| 0 <= i < j < r.len() implies !text_lt(#[trigger] r[i].1, #[trigger] r[j].1) by {
            if j == r.len() - 1 {
                assert(r[i] == s[i]);
                if text_lt(s[i].1, x.1) && i < s.len() - 1 {
                    assert(!text_lt(s[i].1, s[s.len() - 1].1));
                    if s[i].1 != s.last().1 {
                        lemma_text_lt_total(s[i].1, s.last().1);
                        lemma_text_lt_trans(s.last().1, s[i].1, x.1);
                    }
                }
            } else {
                assert(r[i] == s[i] && r[j] == s[j]);
            }
        }
        assert forall|k: int| 0 <= k < r.len() implies (#[trigger] r[k] == x || s.contains(r[k])) by {
            if k < s.len() {
                assert(r[k] == s[k]);
            }
        }
    }
}

proof fn lemma_sort_by_date_sorted(s: Seq<StorageItemView>)
    ensures
        latest_first(sort_by_date(s)),
    decreases s.len(),
{
    if s.len() > 0 {
        lemma_sort_by_date_sorted(s.drop_last());
        lemma_insert_by_date_sorted(sort_by_date(s.drop_last()), s.last());
    }
}

proof fn lemma_insert_by_label_sorted(s: Seq<StorageGroupView>, x: StorageGroupView)
    requires
        labels_descending(s),
    ensures
        labels_descending(insert_by_label(s, x)),
        insert_by_label(s, x).len() == s.len() + 1,
        forall|k: int| 0 <= k < insert_by_label(s, x).len() ==> (#[trigger] insert_by_label(s, x)[k] == x || s.contains(
            insert_by_label(s, x)[k],
        )),
    decreases s.len(),
{
    if s.len() > 0 && text_lt(s.last().0, x.0) {
        let d = s.drop_last();
        assert forall|i: int, j: int| 0 <= i < j < d.len() implies !text_lt(#[trigger] d[i].0, #[trigger] d[j].0) by {
            assert(d[i] == s[i] && d[j] == s[j]);
        }
        lemma_insert_by_label_sorted(d, x);
        let t = insert_by_label(d, x);
        let r = t.push(s.last());
        assert forall|k: int| 0 <= k < t.len() implies !text_lt(#[trigger] t[k].0, s.last().0) by {
            if t[k] == x {
                lemma_text_lt_asym(s.last().0, x.0);
            } else {
                let m = choose|m: int| 0 <= m < d.len() && d[m] == t[k];
                assert(s[m] == d[m]);
                assert(!text_lt(s[m].0, s[s.len() - 1].0));
            }
        }
        assert forall|i: int, j: int| 0 <= i < j < r.len() implies !text_lt(#[trigger] r[i].0, #[trigger] r[j].0) by {
            if j == r.len() - 1 {
                assert(r[i] == t[i]);
            } else {
                assert(r[i] == t[i] && r[j] == t[j]);
            }
        }
        assert forall|k: int| 0 <= k < r.len() implies (#[trigger] r[k] == x || s.contains(r[k])) by {
            if k < t.len() {
                assert(r[k] == t[k]);
                if t[k] != x {
                    let m = choose|m: int| 0 <= m < d.len() && d[m] == t[k];
                    assert(s[m] == d[m]);
                }
            } else {
                assert(s[s.len() - 1] == s.last());
            }
        }
    } else {
        let r = s.push(x);
        assert forall|i: int, j: int| 0 <= i < j < r.len() implies !text_lt(#[trigger] r[i].0, #[trigger] r[j].0) by {
            if j == r.len() - 1 {
                assert(r[i] == s[i]);
                if text_lt(s[i].0, x.0) && i < s.len() - 1 {
                    assert(!text_lt(s[i].0, s[s.len() - 1].0));
                    if s[i].0 != s.last().0 {
                        lemma_text_lt_total(s[i].0, s.last().0);
                        lemma_text_lt_trans(s.last().0, s[i].0, x.0);
                    }
                }
            } else {
                assert(r[i] == s[i] && r[j] == s[j]);
            }
        }
        assert forall|k: int| 0 <= k < r.len() implies (#[trigger] r[k] == x || s.contains(r[k])) by {
            if k < s.len() {
                assert(r[k] == s[k]);
            }
        }
    }
}

proof fn lemma_sort_by_label_sorted(s: Seq<StorageGroupView>)
    ensures
        labels_descending(sort_by_label(s)),
    decreases s.len(),
{
    if s.len() > 0 {
        lemma_sort_by_label_sorted(s.drop_last());
        lemma_insert_by_label_sorted(sort_by_label(s.drop_last()), s.last());
    }
}

/// The archive lists its groups with labels descending as text, and in every group the
/// entries latest date first.
pub proof fn law_archive_order(es: Seq<(int, StorageItemView)>)
    ensures
        labels_descending(archive_groups(es)),
        forall|g: int| 0 <= g < archive_groups(es).len() ==> latest_first(#[trigger] archive_groups(es)[g].1),
{
    let ys = entry_years(es);
    let groups = Seq::new(ys.len(), |i: int| (year_label(ys[i]), sort_by_date(entries_of_year(es, ys[i]))));
    lemma_sort_by_label_sorted(groups);
    assert forall|i: int| 0 <= i < groups.len() implies latest_first(#[trigger] groups[i].1) by {
        lemma_sort_by_date_sorted(entries_of_year(es, ys[i]));
    }
    lemma_sort_label_members(groups);
    assert forall|g: int| 0 <= g < archive_groups(es).len() implies latest_first(#[trigger] archive_groups(es)[g].1) by {
        let x = archive_groups(es)[g];
        assert(groups.contains(x));
        let i = choose|i: int| 0 <= i < groups.len() && groups[i] == x;
        assert(latest_first(groups[i].1));
    }
}

proof fn lemma_sort_label_members(s: Seq<StorageGroupView>)
    ensures
        forall|k: int| 0 <= k < sort_by_label(s).len() ==> s.contains(#[trigger] sort_by_label(s)[k]),
    decreases s.len(),
{
    if s.len() > 0 {
        let d = s.drop_last();
        lemma_sort_label_members(d);
        lemma_sort_by_label_sorted(d);
        lemma_insert_by_label_sorted(sort_by_label(d), s.last());
        assert forall|k: int| 0 <= k < sort_by_label(s).len() implies s.contains(#[trigger] sort_by_label(s)[k]) by {
            let y = sort_by_label(s)[k];
            if y == s.last() {
                assert(s[s.len() - 1] == y);
            } else {
                assert(sort_by_label(d).contains(y));
                let m = choose|m: int| 0 <= m < sort_by_label(d).len() && sort_by_label(d)[m] == y;
                assert(d.contains(y));
                let q = choose|q: int| 0 <= q < d.len() && d[q] == y;
                assert(s[q] == y);
            }
        }
    }
}

} // verus!

verus! {

proof fn lemma_insert_by_date_keeps(s: Seq<StorageItemView>, x: StorageItemView)
    ensures
        insert_by_date(s, x).contains(x),
        forall|k: int| 0 <= k < s.len() ==> insert_by_date(s, x).contains(#[trigger] s[k]),
    decreases s.len(),
{
    let r = insert_by_date(s, x);
    if s.len() > 0 && text_lt(s.last().1, x.1) {
        let d = s.drop_last();
        lemma_insert_by_date_keeps(d, x);
        let t = insert_by_date(d, x);
        assert(r == t.push(s.last()));
        let i = choose|i: int| 0 <= i < t.len() && t[i] == x;
        assert(r[i] == x);
        assert forall|k: int| 0 <= k < s.len() implies r.contains(#[trigger] s[k]) by {
            if k == s.len() - 1 {
                assert(r[r.len() - 1] == s[k]);
            } else {
                assert(d[k] == s[k]);
                let j = choose|j: int| 0 <= j < t.len() && t[j] == d[k];
                assert(r[j] == s[k]);
            }
        }
    } else {
        assert(r == s.push(x));
        assert(r[s.len() as int] == x);
        assert forall|k: int| 0 <= k < s.len() implies r.contains(#[trigger] s[k]) by {
            assert(r[k] == s[k]);
        }
    }
}

proof fn lemma_sort_by_date_members(s: Seq<StorageItemView>)
    ensures
        forall|k: int| 0 <= k < s.len() ==> sort_by_date(s).contains(#[trigger] s[k]),
        forall|k: int| 0 <= k < sort_by_date(s).len() ==> s.contains(#[trigger] sort_by_date(s)[k]),
    decreases s.len(),
{
    if s.len() > 0 {
        let d = s.drop_last();
        lemma_sort_by_date_members(d);
        lemma_sort_by_date_sorted(d);
        lemma_insert_by_date_keeps(sort_by_date(d), s.last());
        lemma_insert_by_date_sorted(sort_by_date(d), s.last());
        let sd = sort_by_date(d);
        let r = sort_by_date(s);
        assert forall|k: int| 0 <= k < s.len() implies r.contains(#[trigger] s[k]) by {
            if k == s.len() - 1 {
            } else {
                assert(d[k] == s[k]);
                let j = choose|j: int| 0 <= j < sd.len() && sd[j] == d[k];
                assert(sd[j] == s[k]);
            }
        }
        assert forall|k: int| 0 <= k < r.len() implies s.contains(#[trigger] r[k]) by {
            let y = r[k];
            if y == s.last() {
                assert(s[s.len() - 1] == y);
            } else {
                let m = choose|m: int| 0 <= m < sd.len() && sd[m] == y;
                let q = choose|q: int| 0 <= q < d.len() && d[q] == y;
                assert(s[q] == y);
            }
        }
    }
}

proof fn lemma_insert_by_label_keeps(s: Seq<StorageGroupView>, x: StorageGroupView)
    ensures
        insert_by_label(s, x).contains(x),
        forall|k: int| 0 <= k < s.len() ==> insert_by_label(s, x).contains(#[trigger] s[k]),
    decreases s.len(),
{
    let r = insert_by_label(s, x);
    if s.len() > 0 && text_lt(s.last().0, x.0) {
        let d = s.drop_last();
        lemma_insert_by_label_keeps(d, x);
        let t = insert_by_label(d, x);
        assert(r == t.push(s.last()));
        let i = choose|i: int| 0 <= i < t.len() && t[i] == x;
        assert(r[i] == x);
        assert forall|k: int| 0 <= k < s.len() implies r.contains(#[trigger] s[k]) by {
            if k == s.len() - 1 {
                assert(r[r.len() - 1] == s[k]);
            } else {
                assert(d[k] == s[k]);
                let j = choose|j: int| 0 <= j < t.len() && t[j] == d[k];
                assert(r[j] == s[k]);
            }
        }
    } else {
        assert(r == s.push(x));
        assert(r[s.len() as int] == x);
        assert forall|k: int| 0 <= k < s.len() implies r.contains(#[trigger] s[k]) by {
            assert(r[k] == s[k]);
        }
    }
}

proof fn lemma_sort_label_keeps(s: Seq<StorageGroupView>)
    ensures
        forall|k: int| 0 <= k < s.len() ==> sort_by_label(s).contains(#[trigger] s[k]),
        sort_by_label(s).len() == s.len(),
    decreases s.len(),
{
    if s.len() > 0 {
        let d = s.drop_last();
        lemma_sort_label_keeps(d);
        lemma_sort_by_label_sorted(d);
        lemma_insert_by_label_keeps(sort_by_label(d), s.last());
        lemma_insert_by_label_sorted(sort_by_label(d), s.last());
        let sd = sort_by_label(d);
        let r = sort_by_label(s);
        assert forall|k: int| 0 <= k < s.len() implies r.contains(#[trigger] s[k]) by {
            if k < s.len() - 1 {
                assert(d[k] == s[k]);
                let j = choose|j: int| 0 <= j < sd.len() && sd[j] == d[k];
                assert(sd[j] == s[k]);
            }
        }
    }
}

proof fn lemma_insert_year_members(ys: Seq<int>, y: int)
    ensures
        forall|z: int| #[trigger] insert_year(ys, y).contains(z) <==> (ys.contains(z) || z == y),
    decreases ys.len(),
{
    let r = insert_year(ys, y);
    if ys.len() == 0 {
        assert(r == seq![y]);
        assert forall|z: int| r.contains(z) <==> (ys.contains(z) || z == y) by {
            if z == y {
                assert(r[0] == y);
            }
        }
    } else if ys.last() == y {
        assert(r == ys);
        assert(ys[ys.len() - 1] == y);
    } else if ys.last() > y {
        assert(r == ys.push(y));
        assert forall|z: int| r.contains(z) <==> (ys.contains(z) || z == y) by {
            if r.contains(z) {
                let i = choose|i: int| 0 <= i < r.len() && r[i] == z;
                if i < ys.len() {
                    assert(ys[i] == r[i]);
                }
            }
            if ys.contains(z) {
                let i = choose|i: int| 0 <= i < ys.len() && ys[i] == z;
                assert(r[i] == z);
            }
            if z == y {
                assert(r[ys.len() as int] == y);
            }
        }
    } else {
        let d = ys.drop_last();
        lemma_insert_year_members(d, y);
        let t = insert_year(d, y);
        assert(r == t.push(ys.last()));
        assert forall|z: int| r.contains(z) <==> (ys.contains(z) || z == y) by {
            if r.contains(z) {
                let i = choose|i: int| 0 <= i < r.len() && r[i] == z;
                if i < t.len() {
                    assert(t[i] == z);
                    assert(t.contains(z));
                    if d.contains(z) {
                        let q = choose|q: int| 0 <= q < d.len() && d[q] == z;
                        assert(ys[q] == z);
                    }
                } else {
                    assert(ys[ys.len() - 1] == z);
                }
            }
            if ys.contains(z) {
                let i = choose|i: int| 0 <= i < ys.len() && ys[i] == z;
                if i < ys.len() - 1 {
                    assert(d[i] == z);
                    assert(d.contains(z));
                    assert(t.contains(z));
                    let j = choose|j: int| 0 <= j < t.len() && t[j] == z;
                    assert(r[j] == z);
                } else {
                    assert(r[r.len() - 1] == z);
                }
            }
            if z == y {
                assert(t.contains(z));
                let j = choose|j: int| 0 <= j < t.len() && t[j] == z;
                assert(r[j] == z);
            }
        }
    }
}

proof fn lemma_entry_years_members(es: Seq<(int, StorageItemView)>)
    ensures
        forall|z: int| entry_years(es).contains(z) <==> exists|k: int| 0 <= k < es.len() && (#[trigger] es[k]).0 == z,
    decreases es.len(),
{
    if es.len() > 0 {
        let d = es.drop_last();
        lemma_entry_years_members(d);
        lemma_insert_year_members(entry_years(d), es.last().0);
        assert forall|z: int| entry_years(es).contains(z) <==> exists|k: int| 0 <= k < es.len() && (#[trigger] es[k]).0 == z by {
            if entry_years(d).contains(z) {
                let k = choose|k: int| 0 <= k < d.len() && (#[trigger] d[k]).0 == z;
                assert(es[k] == d[k]);
            }
            if z == es.last().0 {
                assert(es[es.len() - 1].0 == z);
            }
            if exists|k: int| 0 <= k < es.len() && (#[trigger] es[k]).0 == z {
                let k = choose|k: int| 0 <= k < es.len() && (#[trigger] es[k]).0 == z;
                if k < es.len() - 1 {
                    assert(d[k] == es[k]);
                }
            }
        }
    }
}

proof fn lemma_entries_of_year_members(es: Seq<(int, StorageItemView)>, y: int)
    ensures
        forall|x: StorageItemView| entries_of_year(es, y).contains(x) <==> exists|k: int|
            0 <= k < es.len() && #[trigger] es[k] == (y, x),
    decreases es.len(),
{
    if es.len() > 0 {
        let d = es.drop_last();
        lemma_entries_of_year_members(d, y);
        let t = entries_of_year(d, y);
        let r = entries_of_year(es, y);
        let hit = es.last().0 == y;
        if hit {
            assert(r == t.push(es.last().1));
        } else {
            assert(r == t);
        }
        assert forall|x: StorageItemView| r.contains(x) <==> exists|k: int| 0 <= k < es.len() && #[trigger] es[k] == (y, x) by {
            if r.contains(x) {
                let i = choose|i: int| 0 <= i < r.len() && r[i] == x;
                if i < t.len() {
                    assert(t[i] == x);
                    assert(t.contains(x));
                    let k = choose|k: int| 0 <= k < d.len() && #[trigger] d[k] == (y, x);
                    assert(es[k] == d[k]);
                } else {
                    assert(es[es.len() - 1] == (y, x));
                }
            }
            if exists|k: int| 0 <= k < es.len() && #[trigger] es[k] == (y, x) {
                let k = choose|k: int| 0 <= k < es.len() && #[trigger] es[k] == (y, x);
                if k < es.len() - 1 {
                    assert(d[k] == es[k]);
                    assert(t.contains(x));
                    let i = choose|i: int| 0 <= i < t.len() && t[i] == x;
                    assert(r[i] == x);
                } else {
                    assert(hit);
                    assert(r[r.len() - 1] == x);
                }
            }
        }
    }
}

pub open spec fn year_groups(es: Seq<(int, StorageItemView)>) -> Seq<StorageGroupView> {
    let ys = entry_years(es);
    Seq::new(ys.len(), |i: int| (year_label(ys[i]), sort_by_date(entries_of_year(es, ys[i]))))
}

proof fn lemma_entry_in_group(es: Seq<(int, StorageItemView)>, k: int)
    requires
        0 <= k < es.len(),
    ensures
        exists|g: int| 0 <= g < archive_groups(es).len() && archive_groups(es)[g].0 == year_label(es[k].0)
            && archive_groups(es)[g].1.contains(es[k].1),
{
    let ys = entry_years(es);
    let groups = year_groups(es);
    let a = archive_groups(es);
    assert(a == sort_by_label(groups));
    lemma_entry_years_members(es);
    let y = es[k].0;
    assert(ys.contains(y));
    let i = choose|i: int| 0 <= i < ys.len() && ys[i] == y;
    let e = entries_of_year(es, y);
    lemma_entries_of_year_members(es, y);
    assert(es[k] == (y, es[k].1));
    assert(e.contains(es[k].1));
    let ix = choose|ix: int| 0 <= ix < e.len() && e[ix] == es[k].1;
    lemma_sort_by_date_members(e);
    assert(sort_by_date(e).contains(e[ix]));
    assert(groups[i] == (year_label(y), sort_by_date(e)));
    lemma_sort_label_keeps(groups);
    assert(a.contains(groups[i]));
    let g = choose|g: int| 0 <= g < a.len() && a[g] == groups[i];
    assert(a[g].1.contains(es[k].1));
}

proof fn lemma_group_item_is_entry(es: Seq<(int, StorageItemView)>, g: int, j: int)
    requires
        0 <= g < archive_groups(es).len(),
        0 <= j < archive_groups(es)[g].1.len(),
    ensures
        exists|k: int| 0 <= k < es.len() && (#[trigger] es[k]).1 == archive_groups(es)[g].1[j]
            && archive_groups(es)[g].0 == year_label(es[k].0),
{
    let ys = entry_years(es);
    let groups = year_groups(es);
    let a = archive_groups(es);
    assert(a == sort_by_label(groups));
    lemma_sort_label_members(groups);
    let x = a[g];
    assert(groups.contains(x));
    let i = choose|i: int| 0 <= i < groups.len() && groups[i] == x;
    let y = ys[i];
    let e = entries_of_year(es, y);
    lemma_sort_by_date_members(e);
    assert(x.1 == sort_by_date(e));
    assert(e.contains(x.1[j]));
    lemma_entries_of_year_members(es, y);
    let k = choose|k: int| 0 <= k < es.len() && #[trigger] es[k] == (y, x.1[j]);
    assert(es[k].1 == a[g].1[j]);
}

/// The archive holds exactly its entries, grouped by year: with no entries it is empty;
/// every entry stands in a group labelled with its year; and everything a group holds is an
/// entry of the year on its label.
pub proof fn law_archive_groups_by_year(es: Seq<(int, StorageItemView)>)
    ensures
        es.len() == 0 ==> archive_groups(es).len() == 0,
        forall|k: int| 0 <= k < es.len() ==> exists|g: int|
            0 <= g < archive_groups(es).len() && archive_groups(es)[g].0 == year_label((#[trigger] es[k]).0)
                && archive_groups(es)[g].1.contains(es[k].1),
        forall|g: int, j: int| 0 <= g < archive_groups(es).len() && 0 <= j < archive_groups(es)[g].1.len()
            ==> exists|k: int| 0 <= k < es.len() && (#[trigger] es[k]).1 == #[trigger] archive_groups(es)[g].1[j]
                && archive_groups(es)[g].0 == year_label(es[k].0),
{
    if es.len() == 0 {
        assert(entry_years(es).len() == 0);
        lemma_sort_label_keeps(year_groups(es));
    }
    assert forall|k: int| 0 <= k < es.len() implies exists|g: int|
        0 <= g < archive_groups(es).len() && archive_groups(es)[g].0 == year_label((#[trigger] es[k]).0)
            && archive_groups(es)[g].1.contains(es[k].1) by {
        lemma_entry_in_group(es, k);
    }
    assert forall|g: int, j: int| 0 <= g < archive_groups(es).len() && 0 <= j < archive_groups(es)[g].1.len()
        implies exists|k: int| 0 <= k < es.len() && (#[trigger] es[k]).1 == #[trigger] archive_groups(es)[g].1[j]
            && archive_groups(es)[g].0 == year_label(es[k].0) by {
        lemma_group_item_is_entry(es, g, j);
    }
}

/// With no archived participation of the member, the archive has no entries (and so, by
/// `law_archive_groups_by_year`, no years).
pub proof fn law_archive_empty_without_participation(
    mrs: Seq<MemberRetroRow>,
    cutoff: Option<i64>,
    parts: Seq<MemberRetroRow>,
    retros: Seq<RetrospectRow>,
)
    requires
        forall|i: int| 0 <= i < mrs.len() ==> !archived(#[trigger] mrs[i], cutoff),
    ensures
        archive_entries(mrs, cutoff, parts, retros).len() == 0,
    decreases retros.len(),
{
    if retros.len() > 0 {
        law_archive_empty_without_participation(mrs, cutoff, parts, retros.drop_last());
        assert(!archived_ids(mrs, cutoff).contains(retros.last().retrospect_id));
    }
}

} // verus!
