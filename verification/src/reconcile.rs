use vstd::prelude::*;

use crate::canvas::{Assignment, AssignmentView};
use crate::notion::{
    prop_writes_view, DateValue, DateValueView, Page, PageView, PropertyValue, PropertyValueInner,
    PropertyValueInnerView, PropertyValueView, StatusSelectValue, StatusSelectValueView,
    TextValueView, TitleValue, TitleValueView,
};
use crate::time::{utc_rfc3339_of, DateStamp, DateStampView};
use crate::time::minute_floor;
use crate::util::str_is;

verus! {

/// The cell under `name` among a page's cells: the first entry with that
/// name wins, as nothing after it is ever read.
pub open spec fn prop_get(entries: Seq<(Seq<char>, PropertyValueView)>, name: Seq<char>) -> Option<
    PropertyValueView,
>
    decreases entries.len(),
{
    if entries.len() == 0 {
        None
    } else if entries[0].0 == name {
        Some(entries[0].1)
    } else {
        prop_get(entries.subrange(1, entries.len() as int), name)
    }
}

/// A name that `prop_get` resolves among the first `n` entries keeps its
/// value when more entries follow.
proof fn lemma_prop_get_step(entries: Seq<(Seq<char>, PropertyValueView)>, name: Seq<char>, n: int)
    requires
        0 <= n < entries.len(),
        entries[n].0 == name,
        forall|k: int| 0 <= k < n ==> entries[k].0 != name,
    ensures
        prop_get(entries, name) == Some(entries[n].1),
    decreases n,
{
    if n > 0 {
        lemma_prop_get_step(entries.subrange(1, entries.len() as int), name, n - 1);
    }
}

/// A name matching no entry resolves to nothing.
proof fn lemma_prop_get_absent(entries: Seq<(Seq<char>, PropertyValueView)>, name: Seq<char>)
    requires
        forall|k: int| 0 <= k < entries.len() ==> entries[k].0 != name,
    ensures
        prop_get(entries, name) is None,
    decreases entries.len(),
{
    if entries.len() > 0 {
        lemma_prop_get_absent(entries.subrange(1, entries.len() as int), name);
    }
}

/// Finds the cell under `name` on a page.
pub fn page_prop<'a>(page: &'a Page, name: &str) -> (r: Option<&'a PropertyValue>)
    ensures
        match r {
            Some(v) => prop_get(page@.properties, name@) == Some(v@),
            None => prop_get(page@.properties, name@) is None,
        },
{
    let ghost views = page@.properties;
    let n = page.properties.len();
    for i in 0..n
        invariant
            n == page.properties.len(),
            views == page@.properties,
            forall|k: int| 0 <= k < i ==> views[k].0 != name@,
    {
        if str_is(page.properties[i].0.as_str(), name) {
            proof {
                lemma_prop_get_step(views, name@, i as int);
            }
            return Some(&page.properties[i].1);
        }
    }
    proof {
        lemma_prop_get_absent(views, name@);
    }
    None
}

/// The plain content of the first span of a page's title cell named `name`;
/// nothing when the cell is absent, not a title, or empty.
pub open spec fn spec_page_title_content(p: PageView) -> Option<Seq<char>> {
    match prop_get(p.properties, "name"@) {
        Some(v) => match v.inner {
            PropertyValueInnerView::Title(spans) => if spans.len() > 0 {
                Some(spans[0].text.content)
            } else {
                None
            },
            _ => None,
        },
        None => None,
    }
}

/// The start instant of a page's date cell named `due`; nothing when the
/// cell is absent, not a date, or holds no date.
pub open spec fn spec_page_due_start(p: PageView) -> Option<int> {
    match prop_get(p.properties, "due"@) {
        Some(v) => match v.inner {
            PropertyValueInnerView::Date(Some(dv)) => Some(dv.start.seconds as int),
            _ => None,
        },
        None => None,
    }
}

/// The assignment's due instant floored to the minute the destination can
/// keep; nothing when the assignment has no due date.
pub open spec fn spec_due_minute(a: AssignmentView) -> Option<int> {
    match a.due_at {
        Some(due) => Some(minute_floor(due as int)),
        None => None,
    }
}

/// The page's title does not carry the assignment's name: the name drifted,
/// an absent title counting as drift against a present name.
pub open spec fn spec_needs_name_update(p: PageView, a: AssignmentView) -> bool {
    spec_page_title_content(p) != Some(a.name)
}

/// The page's due start is not the assignment's due instant floored to the
/// minute: the due date drifted, absence on either side counting as drift
/// against presence on the other.
pub open spec fn spec_needs_due_update(p: PageView, a: AssignmentView) -> bool {
    spec_page_due_start(p) != spec_due_minute(a)
}

/// The page drifted from the assignment in its name or its due date.
pub open spec fn spec_needs_update(p: PageView, a: AssignmentView) -> bool {
    spec_needs_due_update(p, a) || spec_needs_name_update(p, a)
}

/// Whether the page's title drifted from the assignment's name.
pub fn needs_name_update(page: &Page, assignment: &Assignment) -> (r: bool)
    ensures
        r == spec_needs_name_update(page@, assignment@),
{
    match page_prop(page, "name") {
        Some(v) => match &v.inner {
            crate::notion::PropertyValueInner::Title(spans) => {
                if spans.len() > 0 {
                    !str_is(spans[0].text.content.as_str(), assignment.name.as_str())
                } else {
                    true
                }
            },
            _ => true,
        },
        None => true,
    }
}

/// Whether the page's due date drifted from the assignment's, comparing at
/// whole-minute precision, as the destination keeps no seconds.
pub fn needs_due_update(page: &Page, assignment: &Assignment) -> (r: bool)
    requires
        assignment@.wf(),
    ensures
        r == spec_needs_due_update(page@, assignment@),
{
    let due_minute: Option<i64> = match assignment.due_at {
        Some(due) => Some(crate::time::floor_to_minute(due)),
        None => None,
    };
    let page_due: Option<i64> = match page_prop(page, "due") {
        Some(v) => match &v.inner {
            crate::notion::PropertyValueInner::Date(Some(dv)) => Some(dv.start.seconds),
            _ => None,
        },
        None => None,
    };
    match (page_due, due_minute) {
        (Some(p), Some(d)) => p != d,
        (None, None) => false,
        _ => true,
    }
}

/// Whether the page drifted from the assignment at all.
pub fn needs_update(page: &Page, assignment: &Assignment) -> (r: bool)
    requires
        assignment@.wf(),
    ensures
        r == spec_needs_update(page@, assignment@),
{
    needs_due_update(page, assignment) || needs_name_update(page, assignment)
}

} // verus!

// ---------------------------------------------------------------------------
// The match index: destination pages keyed by their correlation id, the
// number-kind cell named `id`. Where two pages carry the same id, the later
// one in the query result wins the slot. Pages without an id, or with a
// null one, are left out and never matched.
// ---------------------------------------------------------------------------

verus! {

/// The correlation id a page carries: the value of its number-kind cell
/// named `id`; nothing when the cell is absent, of another kind, or null.
pub open spec fn spec_correlation_id(p: PageView) -> Option<u32> {
    match prop_get(p.properties, "id"@) {
        Some(v) => match v.inner {
            PropertyValueInnerView::Number(n) => n,
            _ => None,
        },
        None => None,
    }
}

/// Reads a page's correlation id.
pub fn correlation_id(page: &Page) -> (r: Option<u32>)
    ensures
        r == spec_correlation_id(page@),
{
    match page_prop(page, "id") {
        Some(v) => match &v.inner {
            crate::notion::PropertyValueInner::Number(n) => *n,
            _ => None,
        },
        None => None,
    }
}

/// The map an association list of keyed pages denotes; a later entry for a
/// key overrides an earlier one.
pub open spec fn entries_map(s: Seq<(u32, PageView)>) -> Map<u32, PageView>
    decreases s.len(),
{
    if s.len() == 0 {
        Map::empty()
    } else {
        entries_map(s.drop_last()).insert(s.last().0, s.last().1)
    }
}

/// No entry carries the key, so the map lacks it.
proof fn lemma_entries_map_absent(s: Seq<(u32, PageView)>, key: u32)
    requires
        forall|i: int| 0 <= i < s.len() ==> (#[trigger] s[i]).0 != key,
    ensures
        !entries_map(s).dom().contains(key),
    decreases s.len(),
{
    if s.len() > 0 {
        lemma_entries_map_absent(s.drop_last(), key);
    }
}

/// Each key appears in at most one entry.
pub open spec fn unique_keys(s: Seq<(u32, PageView)>) -> bool {
    forall|i: int, j: int| 0 <= i < j < s.len() ==> (#[trigger] s[i]).0 != (#[trigger] s[j]).0
}

/// With unique keys, the entry holding a key gives the map's value at it.
proof fn lemma_entries_map_get(s: Seq<(u32, PageView)>, k: int)
    requires
        unique_keys(s),
        0 <= k < s.len(),
    ensures
        entries_map(s).dom().contains(s[k].0),
        entries_map(s)[s[k].0] == s[k].1,
    decreases s.len(),
{
    if k < s.len() - 1 {
        lemma_entries_map_get(s.drop_last(), k);
    }
}

/// Removing an entry keeps the other keys unique.
proof fn lemma_unique_remove(s: Seq<(u32, PageView)>, k: int)
    requires
        unique_keys(s),
        0 <= k < s.len(),
    ensures
        unique_keys(s.remove(k)),
{
    let t = s.remove(k);
    assert forall|i: int, j: int| 0 <= i < j < t.len() implies (#[trigger] t[i]).0 != (
    #[trigger] t[j]).0 by {
        let oi: int = if i < k {
            i
        } else {
            i + 1
        };
        let oj: int = if j < k {
            j
        } else {
            j + 1
        };
        assert(t[i] == s[oi]);
        assert(t[j] == s[oj]);
    }
}

/// With unique keys, removing the entry holding a key removes the key from
/// the map and nothing else.
proof fn lemma_entries_map_remove(s: Seq<(u32, PageView)>, k: int)
    requires
        unique_keys(s),
        0 <= k < s.len(),
    ensures
        entries_map(s.remove(k)) == entries_map(s).remove(s[k].0),
    decreases s.len(),
{
    let key = s[k].0;
    if k == s.len() - 1 {
        assert(s.remove(k) =~= s.drop_last());
        assert(forall|i: int| 0 <= i < s.drop_last().len() ==> (#[trigger] s.drop_last()[i]).0
            != key);
        lemma_entries_map_absent(s.drop_last(), key);
        assert(entries_map(s.drop_last()) =~= entries_map(s).remove(key));
    } else {
        let dl = s.drop_last();
        lemma_entries_map_remove(dl, k);
        assert(s.remove(k).drop_last() =~= dl.remove(k));
        assert(s.remove(k).last() == s.last());
        assert(entries_map(dl).remove(key).insert(s.last().0, s.last().1) =~= entries_map(
            dl,
        ).insert(s.last().0, s.last().1).remove(key));
    }
}

/// The match index: pages keyed by correlation id, each key held once.
pub struct PageIndex {
    entries: Vec<(u32, Page)>,
}

/// The views of the index's entries.
pub open spec fn index_entries_view(s: Seq<(u32, Page)>) -> Seq<(u32, PageView)> {
    Seq::new(
        s.len(),
        |i: int|
            if 0 <= i < s.len() {
                (s[i].0, s[i].1@)
            } else {
                (0u32, PageView { id: Seq::empty(), properties: Seq::empty() })
            },
    )
}

impl View for PageIndex {
    type V = Map<u32, PageView>;

    closed spec fn view(&self) -> Map<u32, PageView> {
        entries_map(index_entries_view(self.entries@))
    }
}

impl PageIndex {
    /// Each key is held at most once.
    pub closed spec fn wf(self) -> bool {
        unique_keys(index_entries_view(self.entries@))
    }

    /// An index holding nothing.
    pub fn new() -> (r: PageIndex)
        ensures
            r.wf(),
            r@ == Map::<u32, PageView>::empty(),
    {
        let r = PageIndex { entries: Vec::new() };
        proof {
            assert(index_entries_view(r.entries@) =~= Seq::<(u32, PageView)>::empty());
        }
        r
    }

    /// Files a page under a key not yet held; a held key keeps its page.
    pub fn insert_if_absent(&mut self, key: u32, page: Page)
        requires
            old(self).wf(),
        ensures
            final(self).wf(),
            final(self)@ == if old(self)@.dom().contains(key) {
                old(self)@
            } else {
                old(self)@.insert(key, page@)
            },
    {
        let ghost old_views = index_entries_view(self.entries@);
        let n = self.entries.len();
        for i in 0..n
            invariant
                n == self.entries.len(),
                old_views == index_entries_view(self.entries@),
                unique_keys(old_views),
                forall|k: int| 0 <= k < i ==> (#[trigger] old_views[k]).0 != key,
        {
            if self.entries[i].0 == key {
                proof {
                    assert(old_views[i as int].0 == key);
                    lemma_entries_map_get(old_views, i as int);
                }
                return ;
            }
        }
        proof {
            lemma_entries_map_absent(old_views, key);
        }
        let ghost page_view = page@;
        self.entries.push((key, page));
        proof {
            let new_views = index_entries_view(self.entries@);
            assert(new_views.drop_last() =~= old_views);
            assert(new_views.last() == (key, page_view));
            assert forall|i: int, j: int| 0 <= i < j < new_views.len() implies (
            #[trigger] new_views[i]).0 != (#[trigger] new_views[j]).0 by {
                if j == new_views.len() - 1 {
                    assert(new_views[i] == old_views[i]);
                } else {
                    assert(new_views[i] == old_views[i]);
                    assert(new_views[j] == old_views[j]);
                }
            }
        }
    }

    /// Takes the page held under a key out of the index; a key not held
    /// leaves the index unchanged.
    pub fn remove(&mut self, key: u32) -> (r: Option<Page>)
        requires
            old(self).wf(),
        ensures
            final(self).wf(),
            match r {
                Some(page) => {
                    &&& old(self)@.dom().contains(key)
                    &&& old(self)@[key] == page@
                    &&& final(self)@ == old(self)@.remove(key)
                },
                None => {
                    &&& !old(self)@.dom().contains(key)
                    &&& final(self)@ == old(self)@
                },
            },
    {
        let ghost old_views = index_entries_view(self.entries@);
        let n = self.entries.len();
        for i in 0..n
            invariant
                n == self.entries.len(),
                self.entries@ == old(self).entries@,
                old_views == index_entries_view(self.entries@),
                unique_keys(old_views),
                forall|k: int| 0 <= k < i ==> (#[trigger] old_views[k]).0 != key,
        {
            if self.entries[i].0 == key {
                proof {
                    assert(old_views[i as int] == (self.entries@[i as int].0,
                    self.entries@[i as int].1@));
                    assert(old_views[i as int].0 == key);
                    lemma_entries_map_get(old_views, i as int);
                    lemma_entries_map_remove(old_views, i as int);
                    lemma_unique_remove(old_views, i as int);
                }
                let (_, page) = self.entries.remove(i);
                proof {
                    assert(index_entries_view(self.entries@) =~= old_views.remove(i as int));
                }
                return Some(page);
            }
        }
        proof {
            lemma_entries_map_absent(old_views, key);
        }
        None
    }
}

/// The index the destination's pages denote: each page under its
/// correlation id, a later page overriding an earlier one with the same id,
/// pages without an id left out.
pub open spec fn spec_index_pages(pages: Seq<PageView>) -> Map<u32, PageView>
    decreases pages.len(),
{
    if pages.len() == 0 {
        Map::empty()
    } else {
        let front = spec_index_pages(pages.drop_last());
        match spec_correlation_id(pages.last()) {
            Some(id) => front.insert(id, pages.last()),
            None => front,
        }
    }
}

/// Builds the match index from the destination's pages.
pub fn index_pages(pages: Vec<Page>) -> (index: PageIndex)
    ensures
        index.wf(),
        index@ == spec_index_pages(crate::notion::pages_view(pages@)),
{
    let ghost all_views = crate::notion::pages_view(pages@);
    let mut remaining = pages;
    let mut index = PageIndex::new();
    proof {
        assert(spec_index_pages(all_views).union_prefer_right(Map::empty()) =~= spec_index_pages(
            all_views,
        ));
    }
    loop
        invariant
            index.wf(),
            spec_index_pages(all_views) =~= spec_index_pages(
                crate::notion::pages_view(remaining@),
            ).union_prefer_right(index@),
        ensures
            index.wf(),
            index@ == spec_index_pages(all_views),
        decreases remaining@.len(),
    {
        let ghost remaining_views = crate::notion::pages_view(remaining@);
        match remaining.pop() {
            Some(page) => {
                let ghost page_view = page@;
                proof {
                    assert(remaining_views.last() == page_view);
                    assert(crate::notion::pages_view(remaining@) =~= remaining_views.drop_last());
                }
                match correlation_id(&page) {
                    Some(id) => {
                        let ghost index_before = index@;
                        index.insert_if_absent(id, page);
                        proof {
                            assert(spec_correlation_id(remaining_views.last()) == Some(id));
                            assert(spec_index_pages(remaining_views).union_prefer_right(
                                index_before,
                            ) =~= spec_index_pages(remaining_views.drop_last()).union_prefer_right(
                                index@,
                            ));
                        }
                    },
                    None => {
                        proof {
                            assert(spec_correlation_id(remaining_views.last()) is None);
                            assert(spec_index_pages(remaining_views) == spec_index_pages(
                                remaining_views.drop_last(),
                            ));
                        }
                    },
                }
            },
            None => {
                proof {
                    assert(crate::notion::pages_view(remaining@) =~= Seq::<PageView>::empty());
                    assert(spec_index_pages(Seq::<PageView>::empty()).union_prefer_right(index@)
                        =~= index@);
                }
                break ;
            },
        }
    }
    index
}

} // verus!

// ---------------------------------------------------------------------------
// The per-assignment decision. An assignment without a due date is skipped.
// One with a matching page is updated only on drift; one without a matching
// page is created with its seed cells and then unconditionally updated,
// since a fresh page carries neither name nor due date.
// ---------------------------------------------------------------------------

verus! {

/// The page a mutating call addresses: one that already existed, or the
/// one returned by the create call issued just before.
#[derive(Debug, PartialEq, Eq)]
pub enum UpdateTarget {
    Existing(String),
    Created,
}

/// Mathematical mirror of `UpdateTarget`.
#[verifier::ext_equal]
pub enum UpdateTargetView {
    Existing(Seq<char>),
    Created,
}

impl View for UpdateTarget {
    type V = UpdateTargetView;

    open spec fn view(&self) -> UpdateTargetView {
        match self {
            UpdateTarget::Existing(id) => UpdateTargetView::Existing(id@),
            UpdateTarget::Created => UpdateTargetView::Created,
        }
    }
}

/// One mutating call the reconciler decides to issue.
#[derive(Debug, PartialEq, Eq)]
pub enum PlannedCall {
    Create { properties: Vec<(String, PropertyValueInner)> },
    Update { target: UpdateTarget, properties: Vec<(String, PropertyValueInner)> },
}

/// Mathematical mirror of `PlannedCall`.
#[verifier::ext_equal]
pub enum PlannedCallView {
    Create { properties: Seq<(Seq<char>, PropertyValueInnerView)> },
    Update { target: UpdateTargetView, properties: Seq<(Seq<char>, PropertyValueInnerView)> },
}

impl View for PlannedCall {
    type V = PlannedCallView;

    open spec fn view(&self) -> PlannedCallView {
        match self {
            PlannedCall::Create { properties } => PlannedCallView::Create {
                properties: prop_writes_view(properties@),
            },
            PlannedCall::Update { target, properties } => PlannedCallView::Update {
                target: target@,
                properties: prop_writes_view(properties@),
            },
        }
    }
}

/// The views of a list of planned calls.
pub open spec fn calls_view(calls: Seq<PlannedCall>) -> Seq<PlannedCallView> {
    Seq::new(
        calls.len(),
        |i: int|
            if 0 <= i < calls.len() {
                calls[i]@
            } else {
                PlannedCallView::Create { properties: Seq::empty() }
            },
    )
}

/// The seed cells of a created page: the correlation id and the subject.
pub open spec fn spec_seed_properties(assignment_id: u32, subject: Seq<char>) -> Seq<
    (Seq<char>, PropertyValueInnerView),
> {
    seq![
        ("id"@, PropertyValueInnerView::Number(Some(assignment_id))),
        (
            "subject"@,
            PropertyValueInnerView::Select(
                Some(
                    StatusSelectValueView {
                        id: Seq::empty(),
                        name: subject,
                        color: Seq::empty(),
                    },
                ),
            ),
        ),
    ]
}

/// The overwritten cells of an update: the assignment's name as a single
/// linkless title span, and its due instant with no end.
pub open spec fn spec_update_properties(a: AssignmentView) -> Seq<
    (Seq<char>, PropertyValueInnerView),
>
    recommends
        a.due_at is Some,
{
    seq![
        (
            "name"@,
            PropertyValueInnerView::Title(
                seq![
                    TitleValueView {
                        text: TextValueView { content: a.name, link: None },
                        plain_text: Seq::empty(),
                    },
                ],
            ),
        ),
        (
            "due"@,
            PropertyValueInnerView::Date(
                Some(
                    DateValueView {
                        start: DateStampView {
                            seconds: a.due_at->0,
                            text: utc_rfc3339_of(a.due_at->0),
                        },
                        end: None,
                    },
                ),
            ),
        ),
    ]
}

/// Builds the seed cells of a created page.
pub fn seed_properties(assignment_id: u32, subject: &str) -> (r: Vec<
    (String, PropertyValueInner),
>)
    ensures
        prop_writes_view(r@) == spec_seed_properties(assignment_id, subject@),
{
    let mut r: Vec<(String, PropertyValueInner)> = Vec::new();
    r.push(("id".to_owned(), PropertyValueInner::Number(Some(assignment_id))));
    r.push(("subject".to_owned(), PropertyValueInner::Select(Some(StatusSelectValue::new(subject)))));
    proof {
        assert(prop_writes_view(r@) =~= spec_seed_properties(assignment_id, subject@));
    }
    r
}

/// Builds the overwritten cells of an update.
pub fn update_properties(assignment: &Assignment) -> (r: Vec<(String, PropertyValueInner)>)
    requires
        assignment@.wf(),
        assignment@.due_at is Some,
    ensures
        prop_writes_view(r@) == spec_update_properties(assignment@),
{
    let due = match assignment.due_at {
        Some(due) => due,
        None => {
            proof {
                assert(false);
            }
            0
        },
    };
    let mut r: Vec<(String, PropertyValueInner)> = Vec::new();
    r.push(
        (
            "name".to_owned(),
            PropertyValueInner::Title(vec![TitleValue::new(assignment.name.as_str(), None)]),
        ),
    );
    r.push(
        (
            "due".to_owned(),
            PropertyValueInner::Date(
                Some(DateValue { start: DateStamp::from_seconds(due), end: None }),
            ),
        ),
    );
    proof {
        assert(prop_writes_view(r@) =~~= spec_update_properties(assignment@));
    }
    r
}

/// The calls owed for one assignment against the index, and the index left
/// for the assignments after it.
pub open spec fn spec_plan_assignment(
    m: Map<u32, PageView>,
    a: AssignmentView,
    subject: Seq<char>,
) -> (Seq<PlannedCallView>, Map<u32, PageView>) {
    match a.due_at {
        None => (Seq::empty(), m),
        Some(_) => {
            if m.dom().contains(a.id) {
                let page = m[a.id];
                let rest = m.remove(a.id);
                if spec_needs_update(page, a) {
                    (
                        seq![
                            PlannedCallView::Update {
                                target: UpdateTargetView::Existing(page.id),
                                properties: spec_update_properties(a),
                            },
                        ],
                        rest,
                    )
                } else {
                    (Seq::empty(), rest)
                }
            } else {
                (
                    seq![
                        PlannedCallView::Create {
                            properties: spec_seed_properties(a.id, subject),
                        },
                        PlannedCallView::Update {
                            target: UpdateTargetView::Created,
                            properties: spec_update_properties(a),
                        },
                    ],
                    m,
                )
            }
        },
    }
}

/// Decides one assignment: the calls owed, in order, with the matched page
/// taken out of the index.
pub fn plan_assignment(index: &mut PageIndex, assignment: &Assignment, subject: &str) -> (calls:
    Vec<PlannedCall>)
    requires
        old(index).wf(),
        assignment@.wf(),
    ensures
        final(index).wf(),
        (calls_view(calls@), final(index)@) == spec_plan_assignment(
            old(index)@,
            assignment@,
            subject@,
        ),
{
    let mut calls: Vec<PlannedCall> = Vec::new();
    if assignment.due_at.is_none() {
        proof {
            assert(calls_view(calls@) =~= Seq::<PlannedCallView>::empty());
        }
        return calls;
    }
    match index.remove(assignment.id) {
        Some(page) => {
            if needs_update(&page, assignment) {
                calls.push(
                    PlannedCall::Update {
                        target: UpdateTarget::Existing(page.id),
                        properties: update_properties(assignment),
                    },
                );
                proof {
                    assert(calls_view(calls@) =~= spec_plan_assignment(
                        old(index)@,
                        assignment@,
                        subject@,
                    ).0);
                }
            } else {
                proof {
                    assert(calls_view(calls@) =~= Seq::<PlannedCallView>::empty());
                }
            }
        },
        None => {
            calls.push(PlannedCall::Create { properties: seed_properties(assignment.id, subject) });
            calls.push(
                PlannedCall::Update {
                    target: UpdateTarget::Created,
                    properties: update_properties(assignment),
                },
            );
            proof {
                assert(calls_view(calls@) =~= spec_plan_assignment(
                    old(index)@,
                    assignment@,
                    subject@,
                ).0);
            }
        },
    }
    calls
}

} // verus!

verus! {

/// The calls owed for a course's assignments, in source order, against the
/// destination's pages for that course's subject.
pub open spec fn spec_plan_course(
    assignments: Seq<AssignmentView>,
    m: Map<u32, PageView>,
    subject: Seq<char>,
) -> Seq<PlannedCallView>
    decreases assignments.len(),
{
    if assignments.len() == 0 {
        Seq::empty()
    } else {
        let step = spec_plan_assignment(m, assignments[0], subject);
        step.0 + spec_plan_course(assignments.drop_first(), step.1, subject)
    }
}

/// Plans a whole course: indexes the destination's pages by correlation id
/// and decides each assignment in source order.
pub fn plan_course(assignments: &Vec<Assignment>, pages: Vec<Page>, subject: &str) -> (calls: Vec<
    PlannedCall,
>)
    requires
        forall|i: int| 0 <= i < assignments@.len() ==> (#[trigger] assignments@[i])@.wf(),
    ensures
        calls_view(calls@) == spec_plan_course(
            crate::canvas::assignments_view(assignments@),
            spec_index_pages(crate::notion::pages_view(pages@)),
            subject@,
        ),
{
    let ghost assignment_views = crate::canvas::assignments_view(assignments@);
    let ghost m0 = spec_index_pages(crate::notion::pages_view(pages@));
    let mut index = index_pages(pages);
    let mut calls: Vec<PlannedCall> = Vec::new();
    let n = assignments.len();
    proof {
        assert(assignment_views.subrange(0, n as int) =~= assignment_views);
        assert(calls_view(calls@) =~= Seq::<PlannedCallView>::empty());
        assert(Seq::<PlannedCallView>::empty() + spec_plan_course(assignment_views, m0, subject@)
            =~= spec_plan_course(assignment_views, m0, subject@));
    }
    for i in 0..n
        invariant
            n == assignments.len(),
            assignment_views == crate::canvas::assignments_view(assignments@),
            forall|k: int| 0 <= k < assignments@.len() ==> (#[trigger] assignments@[k])@.wf(),
            index.wf(),
            spec_plan_course(assignment_views, m0, subject@) == calls_view(calls@)
                + spec_plan_course(
                assignment_views.subrange(i as int, n as int),
                index@,
                subject@,
            ),
    {
        let ghost rest = assignment_views.subrange(i as int, n as int);
        let ghost calls_before = calls_view(calls@);
        let ghost index_before = index@;
        let mut step = plan_assignment(&mut index, &assignments[i], subject);
        let ghost step_views = calls_view(step@);
        calls.append(&mut step);
        proof {
            assert(rest[0] == assignment_views[i as int]);
            assert(rest.drop_first() =~= assignment_views.subrange(i + 1 as int, n as int));
            assert(calls_view(calls@) =~= calls_before + step_views);
            assert(spec_plan_course(rest, index_before, subject@) == step_views + spec_plan_course(
                rest.drop_first(),
                index@,
                subject@,
            ));
            assert(calls_view(calls@) + spec_plan_course(rest.drop_first(), index@, subject@)
                =~= calls_before + spec_plan_course(rest, index_before, subject@));
        }
    }
    proof {
        assert(assignment_views.subrange(n as int, n as int) =~= Seq::<AssignmentView>::empty());
        assert(calls_view(calls@) + Seq::<PlannedCallView>::empty() =~= calls_view(calls@));
    }
    calls
}

// ---------------------------------------------------------------------------
// What the decision guarantees, stated on its own.
// ---------------------------------------------------------------------------

/// An assignment already in sync with its matching, up-to-date page makes
/// no call at all: reconciling it again only releases the page from the
/// index.
pub proof fn lemma_reconcile_idempotent(
    m: Map<u32, PageView>,
    a: AssignmentView,
    subject: Seq<char>,
)
    requires
        m.dom().contains(a.id),
        !spec_needs_update(m[a.id], a),
    ensures
        spec_plan_assignment(m, a, subject).0 == Seq::<PlannedCallView>::empty(),
{
}

/// An assignment without a due date makes no call, whatever the
/// destination holds, and leaves the index as it was.
pub proof fn lemma_no_due_date_no_calls(
    m: Map<u32, PageView>,
    a: AssignmentView,
    subject: Seq<char>,
)
    requires
        a.due_at is None,
    ensures
        spec_plan_assignment(m, a, subject).0 == Seq::<PlannedCallView>::empty(),
        spec_plan_assignment(m, a, subject).1 == m,
{
}

/// Every page the match index holds carries the correlation id it is keyed
/// under: a page whose id cell is absent or null is never in the index,
/// and so is never matched to any assignment.
pub proof fn lemma_index_keys_carry_ids(pages: Seq<PageView>)
    ensures
        forall|key: u32|
            spec_index_pages(pages).dom().contains(key) ==> spec_correlation_id(
                #[trigger] spec_index_pages(pages)[key],
            ) == Some(key),
    decreases pages.len(),
{
    if pages.len() > 0 {
        lemma_index_keys_carry_ids(pages.drop_last());
    }
}

} // verus!

