use vstd::prelude::*;

use crate::json::{jobj1, jstr, JsonValue, JsonView};

verus! {

/// A calendar date for a date-equality condition, as the destination's
/// filters take dates without a time of day.
#[derive(Debug, Clone, Copy, PartialEq, Eq, Structural)]
pub struct FilterDate {
    pub year: u32,
    pub month: u8,
    pub day: u8,
}

impl FilterDate {
    /// A date the ten-character form can carry.
    pub open spec fn wf(self) -> bool {
        &&& self.year <= 9999
        &&& 1 <= self.month <= 12
        &&& 1 <= self.day <= 31
    }
}

/// The decimal digit character for a value below ten.
pub open spec fn digit_char(d: int) -> char {
    if d == 0 {
        '0'
    } else if d == 1 {
        '1'
    } else if d == 2 {
        '2'
    } else if d == 3 {
        '3'
    } else if d == 4 {
        '4'
    } else if d == 5 {
        '5'
    } else if d == 6 {
        '6'
    } else if d == 7 {
        '7'
    } else if d == 8 {
        '8'
    } else {
        '9'
    }
}

/// A date in the wire form: four year digits, two month digits and two day
/// digits, dash-separated, each zero-padded.
pub open spec fn spec_date_text(d: FilterDate) -> Seq<char> {
    seq![
        digit_char(d.year as int / 1000 % 10),
        digit_char(d.year as int / 100 % 10),
        digit_char(d.year as int / 10 % 10),
        digit_char(d.year as int % 10),
        '-',
        digit_char(d.month as int / 10),
        digit_char(d.month as int % 10),
        '-',
        digit_char(d.day as int / 10),
        digit_char(d.day as int % 10),
    ]
}

/// The one-character text of a decimal digit.
fn digit_str(d: u32) -> (r: &'static str)
    requires
        d < 10,
    ensures
        r@ == seq![digit_char(d as int)],
{
    proof {
        reveal_strlit("0");
        reveal_strlit("1");
        reveal_strlit("2");
        reveal_strlit("3");
        reveal_strlit("4");
        reveal_strlit("5");
        reveal_strlit("6");
        reveal_strlit("7");
        reveal_strlit("8");
        reveal_strlit("9");
    }
    let r: &'static str = if d == 0 {
        "0"
    } else if d == 1 {
        "1"
    } else if d == 2 {
        "2"
    } else if d == 3 {
        "3"
    } else if d == 4 {
        "4"
    } else if d == 5 {
        "5"
    } else if d == 6 {
        "6"
    } else if d == 7 {
        "7"
    } else if d == 8 {
        "8"
    } else {
        "9"
    };
    proof {
        assert(r@ =~= seq![digit_char(d as int)]);
    }
    r
}

/// Writes a date in its wire form.
pub fn date_text(d: &FilterDate) -> (r: String)
    requires
        d.wf(),
    ensures
        r@ == spec_date_text(*d),
{
    proof {
        reveal_strlit("-");
    }
    let mut out = String::new();
    out.append(digit_str(d.year / 1000 % 10));
    out.append(digit_str(d.year / 100 % 10));
    out.append(digit_str(d.year / 10 % 10));
    out.append(digit_str(d.year % 10));
    out.append("-");
    out.append(digit_str(d.month as u32 / 10));
    out.append(digit_str(d.month as u32 % 10));
    out.append("-");
    out.append(digit_str(d.day as u32 / 10));
    out.append(digit_str(d.day as u32 % 10));
    proof {
        assert("-"@ =~= seq!['-']);
        assert(out@ =~= spec_date_text(*d));
    }
    out
}

/// One equality condition against a column, by column kind. Only the title,
/// select and date conditions carry a compared value; the others are
/// declared for completeness and carry none.
#[derive(Debug, PartialEq, Eq)]
pub enum FilterMatch {
    Checkbox {},
    Date { equals: FilterDate },
    Files {},
    Formula {},
    MultiSelect {},
    Number {},
    People {},
    PhoneNumber {},
    Relation {},
    RichText {},
    Select { equals: String },
    Status {},
    Timestamp {},
    ID {},
    Title { equals: String },
}

/// Mathematical mirror of `FilterMatch`.
#[verifier::ext_equal]
pub enum FilterMatchView {
    Checkbox,
    Date { equals: FilterDate },
    Files,
    Formula,
    MultiSelect,
    Number,
    People,
    PhoneNumber,
    Relation,
    RichText,
    Select { equals: Seq<char> },
    Status,
    Timestamp,
    ID,
    Title { equals: Seq<char> },
}

impl View for FilterMatch {
    type V = FilterMatchView;

    open spec fn view(&self) -> FilterMatchView {
        match self {
            FilterMatch::Checkbox {  } => FilterMatchView::Checkbox,
            FilterMatch::Date { equals } => FilterMatchView::Date { equals: *equals },
            FilterMatch::Files {  } => FilterMatchView::Files,
            FilterMatch::Formula {  } => FilterMatchView::Formula,
            FilterMatch::MultiSelect {  } => FilterMatchView::MultiSelect,
            FilterMatch::Number {  } => FilterMatchView::Number,
            FilterMatch::People {  } => FilterMatchView::People,
            FilterMatch::PhoneNumber {  } => FilterMatchView::PhoneNumber,
            FilterMatch::Relation {  } => FilterMatchView::Relation,
            FilterMatch::RichText {  } => FilterMatchView::RichText,
            FilterMatch::Select { equals } => FilterMatchView::Select { equals: equals@ },
            FilterMatch::Status {  } => FilterMatchView::Status,
            FilterMatch::Timestamp {  } => FilterMatchView::Timestamp,
            FilterMatch::ID {  } => FilterMatchView::ID,
            FilterMatch::Title { equals } => FilterMatchView::Title { equals: equals@ },
        }
    }
}

/// A join of predicates: all must hold, or any must hold.
#[derive(Debug, PartialEq, Eq)]
pub enum FilterJoin {
    And(Vec<Filter>),
    Or(Vec<Filter>),
}

/// A query predicate: a join of predicates, or one condition against a
/// named column.
#[derive(Debug, PartialEq, Eq)]
pub enum Filter {
    Join(FilterJoin),
    Match { property: String, inner: FilterMatch },
}

/// Mathematical mirror of `FilterJoin`.
#[verifier::ext_equal]
pub enum FilterJoinView {
    And(Seq<FilterView>),
    Or(Seq<FilterView>),
}

/// Mathematical mirror of `Filter`.
#[verifier::ext_equal]
pub enum FilterView {
    Join(FilterJoinView),
    Match { property: Seq<char>, inner: FilterMatchView },
}

/// The views of a list of predicates.
pub open spec fn filters_view(fs: Seq<Filter>) -> Seq<FilterView>
    decreases fs,
{
    Seq::new(
        fs.len(),
        |i: int|
            if 0 <= i < fs.len() {
                fs[i].view_of()
            } else {
                FilterView::Join(FilterJoinView::And(Seq::empty()))
            },
    )
}

impl Filter {
    pub open spec fn view_of(self) -> FilterView
        decreases self,
    {
        match self {
            Filter::Join(FilterJoin::And(fs)) => FilterView::Join(
                FilterJoinView::And(filters_view(fs@)),
            ),
            Filter::Join(FilterJoin::Or(fs)) => FilterView::Join(
                FilterJoinView::Or(filters_view(fs@)),
            ),
            Filter::Match { property, inner } => FilterView::Match {
                property: property@,
                inner: inner@,
            },
        }
    }
}

impl View for Filter {
    type V = FilterView;

    open spec fn view(&self) -> FilterView {
        self.view_of()
    }
}

/// The wire tag of a condition's kind.
pub open spec fn spec_match_tag(m: FilterMatchView) -> Seq<char> {
    match m {
        FilterMatchView::Checkbox => "checkbox"@,
        FilterMatchView::Date { .. } => "date"@,
        FilterMatchView::Files => "files"@,
        FilterMatchView::Formula => "formula"@,
        FilterMatchView::MultiSelect => "multi_select"@,
        FilterMatchView::Number => "number"@,
        FilterMatchView::People => "people"@,
        FilterMatchView::PhoneNumber => "phone_number"@,
        FilterMatchView::Relation => "relation"@,
        FilterMatchView::RichText => "rich_text"@,
        FilterMatchView::Select { .. } => "select"@,
        FilterMatchView::Status => "status"@,
        FilterMatchView::Timestamp => "timestamp"@,
        FilterMatchView::ID => "id"@,
        FilterMatchView::Title { .. } => "title"@,
    }
}

/// The written payload of a condition: what the column must equal, for the
/// condition kinds in use; an empty object for the rest.
pub open spec fn spec_match_payload(m: FilterMatchView) -> JsonView {
    match m {
        FilterMatchView::Date { equals } => JsonView::Obj(
            seq![("equals"@, JsonView::Str(spec_date_text(equals)))],
        ),
        FilterMatchView::Select { equals } => JsonView::Obj(
            seq![("equals"@, JsonView::Str(equals))],
        ),
        FilterMatchView::Title { equals } => JsonView::Obj(
            seq![("equals"@, JsonView::Str(equals))],
        ),
        _ => JsonView::Obj(Seq::empty()),
    }
}

/// A written predicate: a join is one entry, its kind over its parts; a
/// condition names the column and carries the condition's payload under the
/// condition's kind tag.
pub open spec fn spec_encode_filter(f: FilterView) -> JsonView
    decreases f, 1int,
{
    match f {
        FilterView::Join(FilterJoinView::And(fs)) => JsonView::Obj(
            seq![("and"@, JsonView::Arr(spec_encode_filters(fs)))],
        ),
        FilterView::Join(FilterJoinView::Or(fs)) => JsonView::Obj(
            seq![("or"@, JsonView::Arr(spec_encode_filters(fs)))],
        ),
        FilterView::Match { property, inner } => JsonView::Obj(
            seq![
                ("property"@, JsonView::Str(property)),
                (spec_match_tag(inner), spec_match_payload(inner)),
            ],
        ),
    }
}

/// The written parts of a join, in order.
pub open spec fn spec_encode_filters(fs: Seq<FilterView>) -> Seq<JsonView>
    decreases fs, 0int,
{
    Seq::new(
        fs.len(),
        |i: int|
            if 0 <= i < fs.len() {
                spec_encode_filter(fs[i])
            } else {
                JsonView::Null
            },
    )
}

/// The wire tag of a condition's kind.
fn match_tag(m: &FilterMatch) -> (t: &'static str)
    ensures
        t@ == spec_match_tag(m@),
{
    match m {
        FilterMatch::Checkbox {  } => "checkbox",
        FilterMatch::Date { .. } => "date",
        FilterMatch::Files {  } => "files",
        FilterMatch::Formula {  } => "formula",
        FilterMatch::MultiSelect {  } => "multi_select",
        FilterMatch::Number {  } => "number",
        FilterMatch::People {  } => "people",
        FilterMatch::PhoneNumber {  } => "phone_number",
        FilterMatch::Relation {  } => "relation",
        FilterMatch::RichText {  } => "rich_text",
        FilterMatch::Select { .. } => "select",
        FilterMatch::Status {  } => "status",
        FilterMatch::Timestamp {  } => "timestamp",
        FilterMatch::ID {  } => "id",
        FilterMatch::Title { .. } => "title",
    }
}

/// A predicate is writable when every date condition in it carries a date
/// the wire form can hold.
pub open spec fn spec_filter_wf(f: FilterView) -> bool
    decreases f, 1int,
{
    match f {
        FilterView::Join(FilterJoinView::And(fs)) => spec_filters_wf(fs),
        FilterView::Join(FilterJoinView::Or(fs)) => spec_filters_wf(fs),
        FilterView::Match { inner: FilterMatchView::Date { equals }, .. } => equals.wf(),
        FilterView::Match { .. } => true,
    }
}

/// Every part of a join is writable.
pub open spec fn spec_filters_wf(fs: Seq<FilterView>) -> bool
    decreases fs, 0int,
{
    forall|i: int| 0 <= i < fs.len() ==> spec_filter_wf(#[trigger] fs[i])
}

/// Encodes the written payload of a condition.
fn encode_match_payload(m: &FilterMatch) -> (r: JsonValue)
    requires
        m matches FilterMatch::Date { equals } ==> equals.wf(),
    ensures
        r@ == spec_match_payload(m@),
{
    match m {
        FilterMatch::Date { equals } => {
            let r = jobj1("equals", JsonValue::Str(date_text(equals)));
            proof {
                assert(r@->Obj_0 =~= spec_match_payload(m@)->Obj_0);
            }
            r
        },
        FilterMatch::Select { equals } => {
            let r = jobj1("equals", jstr(equals.as_str()));
            proof {
                assert(r@->Obj_0 =~= spec_match_payload(m@)->Obj_0);
            }
            r
        },
        FilterMatch::Title { equals } => {
            let r = jobj1("equals", jstr(equals.as_str()));
            proof {
                assert(r@->Obj_0 =~= spec_match_payload(m@)->Obj_0);
            }
            r
        },
        _ => {
            let r = JsonValue::Obj(Vec::new());
            proof {
                assert(r@->Obj_0 =~= Seq::<(Seq<char>, JsonView)>::empty());
            }
            r
        },
    }
}

/// Encodes a predicate in its wire form.
#[verifier::loop_isolation(false)]
pub fn encode_filter(f: &Filter) -> (r: JsonValue)
    requires
        spec_filter_wf(f@),
    ensures
        r@ == spec_encode_filter(f@),
    decreases *f,
{
    match f {
        Filter::Join(join) => {
            let (key, parts): (&'static str, &Vec<Filter>) = match join {
                FilterJoin::And(fs) => ("and", fs),
                FilterJoin::Or(fs) => ("or", fs),
            };
            let ghost part_views = filters_view(parts@);
            let mut out: Vec<JsonValue> = Vec::new();
            let n = parts.len();
            for i in 0..n
                invariant
                    n == parts.len(),
                    part_views == filters_view(parts@),
                    spec_filters_wf(part_views),
                    out@.len() == i,
                    forall|k: int|
                        0 <= k < i ==> out@[k].view_of() == spec_encode_filter(part_views[k]),
                decreases n - i,
            {
                proof {
                    assert(part_views[i as int] == parts@[i as int].view_of());
                    assert(spec_filter_wf(part_views[i as int]));
                    assert(decreases_to!(*f => parts@[i as int]));
                }
                let part = encode_filter(&parts[i]);
                out.push(part);
            }
            let arr = JsonValue::Arr(out);
            proof {
                assert(crate::json::arr_view(out@) =~= spec_encode_filters(part_views));
            }
            jobj1(key, arr)
        },
        Filter::Match { property, inner } => {
            let payload = encode_match_payload(inner);
            let r = crate::json::jobj2("property", jstr(property.as_str()), match_tag(inner), payload);
            proof {
                assert(r@->Obj_0 =~= spec_encode_filter(f@)->Obj_0);
            }
            r
        },
    }
}

/// The body of a query call: the predicate under its key.
pub fn encode_query_body(f: &Filter) -> (r: JsonValue)
    requires
        spec_filter_wf(f@),
    ensures
        r@ == JsonView::Obj(seq![("filter"@, spec_encode_filter(f@))]),
{
    jobj1("filter", encode_filter(f))
}

} // verus!
