use vstd::prelude::*;

use crate::json::{
    arr_view, obj_get, obj_lookup, obj_view, req_str, spec_req_str, spec_str_or_empty,
    str_or_empty, JsonValue, JsonView,
};
use crate::time::{parsed_rfc3339, MAX_EPOCH_SECONDS};
use crate::util::str_is;

verus! {

/// The grading state of a submission upstream.
#[derive(Debug, Clone, Copy, PartialEq, Eq, Structural)]
pub enum WorkflowState {
    Submitted,
    Unsubmitted,
    Graded,
    PendingReview,
}

/// One course upstream. The name and the term may be absent upstream and
/// then read as empty and zero.
#[derive(Debug, PartialEq, Eq)]
pub struct Course {
    pub id: u32,
    pub name: String,
    pub enrollment_term_id: u32,
}

/// Mathematical mirror of `Course`.
#[verifier::ext_equal]
pub struct CourseView {
    pub id: u32,
    pub name: Seq<char>,
    pub enrollment_term_id: u32,
}

impl View for Course {
    type V = CourseView;

    open spec fn view(&self) -> CourseView {
        CourseView { id: self.id, name: self.name@, enrollment_term_id: self.enrollment_term_id }
    }
}

/// One submission upstream.
#[derive(Debug, PartialEq, Eq)]
pub struct Submission {
    pub id: u32,
    pub workflow_state: WorkflowState,
}

/// Mathematical mirror of `Submission`.
#[verifier::ext_equal]
pub struct SubmissionView {
    pub id: u32,
    pub workflow_state: WorkflowState,
}

impl View for Submission {
    type V = SubmissionView;

    open spec fn view(&self) -> SubmissionView {
        SubmissionView { id: self.id, workflow_state: self.workflow_state }
    }
}

/// One assignment upstream. An absent due instant means the assignment has
/// no due date, and reconciliation skips it.
#[derive(Debug, PartialEq, Eq)]
pub struct Assignment {
    pub id: u32,
    pub name: String,
    pub due_at: Option<i64>,
    pub html_url: String,
    pub submission: Option<Submission>,
}

/// Mathematical mirror of `Assignment`.
#[verifier::ext_equal]
pub struct AssignmentView {
    pub id: u32,
    pub name: Seq<char>,
    pub due_at: Option<i64>,
    pub html_url: Seq<char>,
    pub submission: Option<SubmissionView>,
}

impl View for Assignment {
    type V = AssignmentView;

    open spec fn view(&self) -> AssignmentView {
        AssignmentView {
            id: self.id,
            name: self.name@,
            due_at: self.due_at,
            html_url: self.html_url@,
            submission: match self.submission {
                Some(ref s) => Some(s@),
                None => None,
            },
        }
    }
}

impl AssignmentView {
    /// A due instant, where one exists, lies in the range this library can
    /// write back.
    pub open spec fn wf(self) -> bool {
        match self.due_at {
            Some(due) => 0 <= due <= MAX_EPOCH_SECONDS,
            None => true,
        }
    }
}

/// A read grading state, by its wire name.
pub open spec fn spec_decode_workflow_state(s: Seq<char>) -> Option<WorkflowState> {
    if s == "submitted"@ {
        Some(WorkflowState::Submitted)
    } else if s == "unsubmitted"@ {
        Some(WorkflowState::Unsubmitted)
    } else if s == "graded"@ {
        Some(WorkflowState::Graded)
    } else if s == "pending_review"@ {
        Some(WorkflowState::PendingReview)
    } else {
        None
    }
}

/// A required whole-number field within `u32`.
pub open spec fn spec_req_u32(entries: Seq<(Seq<char>, JsonView)>, key: Seq<char>) -> Option<u32> {
    match obj_get(entries, key) {
        Some(JsonView::Int(n)) => if 0 <= n <= u32::MAX {
            Some(n as u32)
        } else {
            None
        },
        _ => None,
    }
}

/// A whole-number field upstream may omit: absent reads as zero.
pub open spec fn spec_u32_or_zero(entries: Seq<(Seq<char>, JsonView)>, key: Seq<char>) -> Option<
    u32,
> {
    match obj_get(entries, key) {
        None => Some(0),
        Some(JsonView::Int(n)) => if 0 <= n <= u32::MAX {
            Some(n as u32)
        } else {
            None
        },
        Some(_) => None,
    }
}

/// A read course.
pub open spec fn spec_decode_course(j: JsonView) -> Option<CourseView> {
    match j {
        JsonView::Obj(entries) => match (
            spec_req_u32(entries, "id"@),
            spec_str_or_empty(entries, "name"@),
            spec_u32_or_zero(entries, "enrollment_term_id"@),
        ) {
            (Some(id), Some(name), Some(enrollment_term_id)) => Some(
                CourseView { id, name, enrollment_term_id },
            ),
            _ => None,
        },
        _ => None,
    }
}

/// A read submission.
pub open spec fn spec_decode_submission(j: JsonView) -> Option<SubmissionView> {
    match j {
        JsonView::Obj(entries) => match (
            spec_req_u32(entries, "id"@),
            spec_req_str(entries, "workflow_state"@),
        ) {
            (Some(id), Some(state_name)) => match spec_decode_workflow_state(state_name) {
                Some(workflow_state) => Some(SubmissionView { id, workflow_state }),
                None => None,
            },
            _ => None,
        },
        _ => None,
    }
}

/// A read assignment. A missing or null due field is an assignment without
/// a due date; a due instant outside the years this library can write back
/// fails the read.
pub open spec fn spec_decode_assignment(j: JsonView) -> Option<AssignmentView> {
    match j {
        JsonView::Obj(entries) => {
            let due_at = match obj_get(entries, "due_at"@) {
                None => Some(None),
                Some(JsonView::Null) => Some(None),
                Some(JsonView::Str(s)) => match parsed_rfc3339(s) {
                    Some(due) => if 0 <= due <= MAX_EPOCH_SECONDS {
                        Some(Some(due))
                    } else {
                        None
                    },
                    None => None,
                },
                Some(_) => None,
            };
            let submission = match obj_get(entries, "submission"@) {
                None => Some(None),
                Some(JsonView::Null) => Some(None),
                Some(sub) => match spec_decode_submission(sub) {
                    Some(s) => Some(Some(s)),
                    None => None,
                },
            };
            match (
                spec_req_u32(entries, "id"@),
                spec_req_str(entries, "name"@),
                due_at,
                spec_req_str(entries, "html_url"@),
                submission,
            ) {
                (Some(id), Some(name), Some(due_at), Some(html_url), Some(submission)) => Some(
                    AssignmentView { id, name, due_at, html_url, submission },
                ),
                _ => None,
            }
        },
        _ => None,
    }
}

/// The read assignments of a course, in order; one failing assignment fails
/// the read.
pub open spec fn spec_decode_assignments(xs: Seq<JsonView>) -> Option<Seq<AssignmentView>>
    decreases xs.len(),
{
    if xs.len() == 0 {
        Some(Seq::empty())
    } else {
        match (spec_decode_assignments(xs.drop_last()), spec_decode_assignment(xs.last())) {
            (Some(front), Some(a)) => Some(front.push(a)),
            _ => None,
        }
    }
}

/// The read courses, in order; one failing course fails the read.
pub open spec fn spec_decode_courses(xs: Seq<JsonView>) -> Option<Seq<CourseView>>
    decreases xs.len(),
{
    if xs.len() == 0 {
        Some(Seq::empty())
    } else {
        match (spec_decode_courses(xs.drop_last()), spec_decode_course(xs.last())) {
            (Some(front), Some(c)) => Some(front.push(c)),
            _ => None,
        }
    }
}

/// Reads a required whole-number field within `u32`.
fn req_u32(entries: &Vec<(String, JsonValue)>, key: &str) -> (r: Option<u32>)
    ensures
        match r {
            Some(n) => spec_req_u32(obj_view(entries@), key@) == Some(n),
            None => spec_req_u32(obj_view(entries@), key@) is None,
        },
{
    match obj_lookup(entries, key) {
        Some(JsonValue::Int(n)) => if 0 <= *n && *n <= u32::MAX as i64 {
            Some(*n as u32)
        } else {
            None
        },
        _ => None,
    }
}

/// Reads a whole-number field upstream may omit.
fn u32_or_zero(entries: &Vec<(String, JsonValue)>, key: &str) -> (r: Option<u32>)
    ensures
        match r {
            Some(n) => spec_u32_or_zero(obj_view(entries@), key@) == Some(n),
            None => spec_u32_or_zero(obj_view(entries@), key@) is None,
        },
{
    match obj_lookup(entries, key) {
        None => Some(0),
        Some(JsonValue::Int(n)) => if 0 <= *n && *n <= u32::MAX as i64 {
            Some(*n as u32)
        } else {
            None
        },
        Some(_) => None,
    }
}

/// Decodes a read grading state.
fn decode_workflow_state(s: &str) -> (r: Option<WorkflowState>)
    ensures
        match r {
            Some(w) => spec_decode_workflow_state(s@) == Some(w),
            None => spec_decode_workflow_state(s@) is None,
        },
{
    if str_is(s, "submitted") {
        Some(WorkflowState::Submitted)
    } else if str_is(s, "unsubmitted") {
        Some(WorkflowState::Unsubmitted)
    } else if str_is(s, "graded") {
        Some(WorkflowState::Graded)
    } else if str_is(s, "pending_review") {
        Some(WorkflowState::PendingReview)
    } else {
        None
    }
}

/// Decodes a read course.
pub fn decode_course(j: &JsonValue) -> (r: Option<Course>)
    ensures
        match r {
            Some(c) => spec_decode_course(j@) == Some(c@),
            None => spec_decode_course(j@) is None,
        },
{
    match j {
        JsonValue::Obj(entries) => {
            let id = match req_u32(entries, "id") {
                Some(n) => n,
                None => {
                    return None;
                },
            };
            let name = match str_or_empty(entries, "name") {
                Some(s) => s,
                None => {
                    return None;
                },
            };
            let enrollment_term_id = match u32_or_zero(entries, "enrollment_term_id") {
                Some(n) => n,
                None => {
                    return None;
                },
            };
            Some(Course { id, name, enrollment_term_id })
        },
        _ => None,
    }
}

/// Decodes a read submission.
pub fn decode_submission(j: &JsonValue) -> (r: Option<Submission>)
    ensures
        match r {
            Some(s) => spec_decode_submission(j@) == Some(s@),
            None => spec_decode_submission(j@) is None,
        },
{
    match j {
        JsonValue::Obj(entries) => {
            let id = match req_u32(entries, "id") {
                Some(n) => n,
                None => {
                    return None;
                },
            };
            let state_name = match req_str(entries, "workflow_state") {
                Some(s) => s,
                None => {
                    return None;
                },
            };
            let workflow_state = match decode_workflow_state(state_name.as_str()) {
                Some(w) => w,
                None => {
                    return None;
                },
            };
            Some(Submission { id, workflow_state })
        },
        _ => None,
    }
}

/// Decodes a read assignment.
pub fn decode_assignment(j: &JsonValue) -> (r: Option<Assignment>)
    ensures
        match r {
            Some(a) => spec_decode_assignment(j@) == Some(a@) && a@.wf(),
            None => spec_decode_assignment(j@) is None,
        },
{
    match j {
        JsonValue::Obj(entries) => {
            let id = match req_u32(entries, "id") {
                Some(n) => n,
                None => {
                    return None;
                },
            };
            let name = match req_str(entries, "name") {
                Some(s) => s,
                None => {
                    return None;
                },
            };
            let due_at = match obj_lookup(entries, "due_at") {
                None => None,
                Some(JsonValue::Null) => None,
                Some(JsonValue::Str(s)) => match crate::time::parse_rfc3339(s.as_str()) {
                    Some(due) => if 0 <= due && due <= MAX_EPOCH_SECONDS {
                        Some(due)
                    } else {
                        return None;
                    },
                    None => {
                        return None;
                    },
                },
                Some(_) => {
                    return None;
                },
            };
            let html_url = match req_str(entries, "html_url") {
                Some(s) => s,
                None => {
                    return None;
                },
            };
            let submission = match obj_lookup(entries, "submission") {
                None => None,
                Some(JsonValue::Null) => None,
                Some(sub) => match decode_submission(sub) {
                    Some(s) => Some(s),
                    None => {
                        return None;
                    },
                },
            };
            Some(Assignment { id, name, due_at, html_url, submission })
        },
        _ => None,
    }
}

/// The views of a list of assignments.
pub open spec fn assignments_view(assignments: Seq<Assignment>) -> Seq<AssignmentView> {
    Seq::new(
        assignments.len(),
        |i: int|
            if 0 <= i < assignments.len() {
                assignments[i]@
            } else {
                AssignmentView {
                    id: 0,
                    name: Seq::empty(),
                    due_at: None,
                    html_url: Seq::empty(),
                    submission: None,
                }
            },
    )
}

/// The views of a list of courses.
pub open spec fn courses_view(courses: Seq<Course>) -> Seq<CourseView> {
    Seq::new(
        courses.len(),
        |i: int|
            if 0 <= i < courses.len() {
                courses[i]@
            } else {
                CourseView { id: 0, name: Seq::empty(), enrollment_term_id: 0 }
            },
    )
}

/// One failing assignment fails the list.
proof fn lemma_assignments_fail(xs: Seq<JsonView>, i: int)
    requires
        0 <= i < xs.len(),
        spec_decode_assignment(xs[i]) is None,
    ensures
        spec_decode_assignments(xs) is None,
    decreases xs.len(),
{
    if i < xs.len() - 1 {
        lemma_assignments_fail(xs.drop_last(), i);
    }
}

/// Decodes a course's assignment list.
pub fn decode_assignments(j: &JsonValue) -> (r: Option<Vec<Assignment>>)
    ensures
        match r {
            Some(out) => j@ matches JsonView::Arr(xs) && spec_decode_assignments(xs) == Some(
                assignments_view(out@),
            ) && forall|k: int| 0 <= k < out@.len() ==> (#[trigger] out@[k])@.wf(),
            None => match j@ {
                JsonView::Arr(xs) => spec_decode_assignments(xs) is None,
                _ => true,
            },
        },
{
    let xs = match j {
        JsonValue::Arr(xs) => xs,
        _ => {
            return None;
        },
    };
    let ghost views = arr_view(xs@);
    let mut out: Vec<Assignment> = Vec::new();
    let n = xs.len();
    for i in 0..n
        invariant
            n == xs.len(),
            views == arr_view(xs@),
            j@ == JsonView::Arr(views),
            out@.len() == i,
            spec_decode_assignments(views.subrange(0, i as int)) == Some(assignments_view(out@)),
            forall|k: int| 0 <= k < out@.len() ==> (#[trigger] out@[k])@.wf(),
    {
        let ghost prefix = views.subrange(0, i as int);
        let ghost prefix_next = views.subrange(0, i + 1 as int);
        let ghost out_before = out@;
        match decode_assignment(&xs[i]) {
            Some(a) => {
                let ghost decoded = a@;
                out.push(a);
                proof {
                    assert(prefix_next.drop_last() =~= prefix);
                    assert(assignments_view(out@) =~= assignments_view(out_before).push(decoded));
                }
            },
            None => {
                proof {
                    lemma_assignments_fail(views, i as int);
                }
                return None;
            },
        }
    }
    proof {
        assert(views.subrange(0, n as int) =~= views);
    }
    Some(out)
}

/// One failing course fails the list.
proof fn lemma_courses_fail(xs: Seq<JsonView>, i: int)
    requires
        0 <= i < xs.len(),
        spec_decode_course(xs[i]) is None,
    ensures
        spec_decode_courses(xs) is None,
    decreases xs.len(),
{
    if i < xs.len() - 1 {
        lemma_courses_fail(xs.drop_last(), i);
    }
}

/// Decodes the course list.
pub fn decode_courses(j: &JsonValue) -> (r: Option<Vec<Course>>)
    ensures
        match r {
            Some(out) => j@ matches JsonView::Arr(xs) && spec_decode_courses(xs) == Some(
                courses_view(out@),
            ),
            None => match j@ {
                JsonView::Arr(xs) => spec_decode_courses(xs) is None,
                _ => true,
            },
        },
{
    let xs = match j {
        JsonValue::Arr(xs) => xs,
        _ => {
            return None;
        },
    };
    let ghost views = arr_view(xs@);
    let mut out: Vec<Course> = Vec::new();
    let n = xs.len();
    for i in 0..n
        invariant
            n == xs.len(),
            views == arr_view(xs@),
            j@ == JsonView::Arr(views),
            out@.len() == i,
            spec_decode_courses(views.subrange(0, i as int)) == Some(courses_view(out@)),
    {
        let ghost prefix = views.subrange(0, i as int);
        let ghost prefix_next = views.subrange(0, i + 1 as int);
        let ghost out_before = out@;
        match decode_course(&xs[i]) {
            Some(c) => {
                let ghost decoded = c@;
                out.push(c);
                proof {
                    assert(prefix_next.drop_last() =~= prefix);
                    assert(courses_view(out@) =~= courses_view(out_before).push(decoded));
                }
            },
            None => {
                proof {
                    lemma_courses_fail(views, i as int);
                }
                return None;
            },
        }
    }
    proof {
        assert(views.subrange(0, n as int) =~= views);
    }
    Some(out)
}

} // verus!
