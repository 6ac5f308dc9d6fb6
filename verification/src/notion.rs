use vstd::prelude::*;

use crate::json::{arr_view, jobj1, jobj2, jstr, lemma_obj_get_absent, lemma_obj_get_step, obj_get, obj_lookup, obj_view, opt_str, req_str, spec_opt_str, spec_req_str, spec_str_or_empty, str_or_empty, JsonValue, JsonView};
use crate::util::{opt_view, str_is};
use crate::time::{parsed_rfc3339, DateStamp, DateStampView};

verus! {

/// One option of a select or status column, as the destination declares it.
#[derive(Debug, PartialEq, Eq)]
pub struct PropOption {
    pub id: String,
    pub name: String,
    pub color: String,
    pub description: Option<String>,
}

/// Mathematical mirror of `PropOption`.
#[verifier::ext_equal]
pub struct PropOptionView {
    pub id: Seq<char>,
    pub name: Seq<char>,
    pub color: Seq<char>,
    pub description: Option<Seq<char>>,
}

impl View for PropOption {
    type V = PropOptionView;

    open spec fn view(&self) -> PropOptionView {
        PropOptionView {
            id: self.id@,
            name: self.name@,
            color: self.color@,
            description: match self.description {
                Some(ref d) => Some(d@),
                None => None,
            },
        }
    }
}

/// The kind of a column of the destination database. Only select and status
/// carry metadata this system reads; the other kinds are accepted so that a
/// schema holding them never fails to decode.
#[derive(Debug, PartialEq, Eq)]
pub enum PropertyTypeInner {
    Checkbox {},
    CreatedBy {},
    CreatedTime {},
    Date {},
    Email {},
    Files {},
    Formula {},
    LastEditedBy {},
    LastEditedTime {},
    MultiSelect {},
    Number {},
    People {},
    PhoneNumber {},
    Relation {},
    RichText {},
    Rollup {},
    Select { options: Vec<PropOption> },
    Status { options: Vec<PropOption> },
    Title {},
    Url {},
}

/// Mathematical mirror of `PropertyTypeInner`.
#[verifier::ext_equal]
pub enum PropertyTypeInnerView {
    Checkbox,
    CreatedBy,
    CreatedTime,
    Date,
    Email,
    Files,
    Formula,
    LastEditedBy,
    LastEditedTime,
    MultiSelect,
    Number,
    People,
    PhoneNumber,
    Relation,
    RichText,
    Rollup,
    Select { options: Seq<PropOptionView> },
    Status { options: Seq<PropOptionView> },
    Title,
    Url,
}

/// The views of a list of declared options.
pub open spec fn options_view(options: Seq<PropOption>) -> Seq<PropOptionView> {
    Seq::new(
        options.len(),
        |i: int|
            if 0 <= i < options.len() {
                options[i]@
            } else {
                PropOptionView {
                    id: Seq::empty(),
                    name: Seq::empty(),
                    color: Seq::empty(),
                    description: None,
                }
            },
    )
}

impl View for PropertyTypeInner {
    type V = PropertyTypeInnerView;

    open spec fn view(&self) -> PropertyTypeInnerView {
        match self {
            PropertyTypeInner::Checkbox {  } => PropertyTypeInnerView::Checkbox,
            PropertyTypeInner::CreatedBy {  } => PropertyTypeInnerView::CreatedBy,
            PropertyTypeInner::CreatedTime {  } => PropertyTypeInnerView::CreatedTime,
            PropertyTypeInner::Date {  } => PropertyTypeInnerView::Date,
            PropertyTypeInner::Email {  } => PropertyTypeInnerView::Email,
            PropertyTypeInner::Files {  } => PropertyTypeInnerView::Files,
            PropertyTypeInner::Formula {  } => PropertyTypeInnerView::Formula,
            PropertyTypeInner::LastEditedBy {  } => PropertyTypeInnerView::LastEditedBy,
            PropertyTypeInner::LastEditedTime {  } => PropertyTypeInnerView::LastEditedTime,
            PropertyTypeInner::MultiSelect {  } => PropertyTypeInnerView::MultiSelect,
            PropertyTypeInner::Number {  } => PropertyTypeInnerView::Number,
            PropertyTypeInner::People {  } => PropertyTypeInnerView::People,
            PropertyTypeInner::PhoneNumber {  } => PropertyTypeInnerView::PhoneNumber,
            PropertyTypeInner::Relation {  } => PropertyTypeInnerView::Relation,
            PropertyTypeInner::RichText {  } => PropertyTypeInnerView::RichText,
            PropertyTypeInner::Rollup {  } => PropertyTypeInnerView::Rollup,
            PropertyTypeInner::Select { options } => PropertyTypeInnerView::Select {
                options: options_view(options@),
            },
            PropertyTypeInner::Status { options } => PropertyTypeInnerView::Status {
                options: options_view(options@),
            },
            PropertyTypeInner::Title {  } => PropertyTypeInnerView::Title,
            PropertyTypeInner::Url {  } => PropertyTypeInnerView::Url,
        }
    }
}

/// One declared column of the destination database.
#[derive(Debug, PartialEq, Eq)]
pub struct PropertyType {
    pub id: String,
    pub name: String,
    pub inner: PropertyTypeInner,
}

/// Mathematical mirror of `PropertyType`.
#[verifier::ext_equal]
pub struct PropertyTypeView {
    pub id: Seq<char>,
    pub name: Seq<char>,
    pub inner: PropertyTypeInnerView,
}

impl View for PropertyType {
    type V = PropertyTypeView;

    open spec fn view(&self) -> PropertyTypeView {
        PropertyTypeView { id: self.id@, name: self.name@, inner: self.inner@ }
    }
}

/// The destination database: its identifier and its declared columns, keyed
/// by column name.
#[derive(Debug, PartialEq, Eq)]
pub struct Database {
    pub id: String,
    pub properties: Vec<(String, PropertyType)>,
}

/// Mathematical mirror of `Database`.
#[verifier::ext_equal]
pub struct DatabaseView {
    pub id: Seq<char>,
    pub properties: Seq<(Seq<char>, PropertyTypeView)>,
}

/// The views of named schema columns.
pub open spec fn schema_entries_view(entries: Seq<(String, PropertyType)>) -> Seq<
    (Seq<char>, PropertyTypeView),
> {
    Seq::new(
        entries.len(),
        |i: int|
            if 0 <= i < entries.len() {
                (entries[i].0@, entries[i].1@)
            } else {
                (
                    Seq::empty(),
                    PropertyTypeView {
                        id: Seq::empty(),
                        name: Seq::empty(),
                        inner: PropertyTypeInnerView::Title,
                    },
                )
            },
    )
}

impl View for Database {
    type V = DatabaseView;

    open spec fn view(&self) -> DatabaseView {
        DatabaseView { id: self.id@, properties: schema_entries_view(self.properties@) }
    }
}

/// A date cell: a start instant and an optional end instant.
#[derive(Debug, PartialEq, Eq)]
pub struct DateValue {
    pub start: DateStamp,
    pub end: Option<DateStamp>,
}

/// Mathematical mirror of `DateValue`.
#[verifier::ext_equal]
pub struct DateValueView {
    pub start: DateStampView,
    pub end: Option<DateStampView>,
}

impl View for DateValue {
    type V = DateValueView;

    open spec fn view(&self) -> DateValueView {
        DateValueView {
            start: self.start@,
            end: match self.end {
                Some(ref e) => Some(e@),
                None => None,
            },
        }
    }
}

impl DateValueView {
    /// Every stamp's text and instant agree.
    pub open spec fn wf(self) -> bool {
        &&& self.start.wf()
        &&& match self.end {
            Some(e) => e.wf(),
            None => true,
        }
    }
}

/// One span of rich text: its content and an optional link.
#[derive(Debug, PartialEq, Eq)]
pub struct TextValue {
    pub content: String,
    pub link: Option<String>,
}

/// Mathematical mirror of `TextValue`.
#[verifier::ext_equal]
pub struct TextValueView {
    pub content: Seq<char>,
    pub link: Option<Seq<char>>,
}

impl View for TextValue {
    type V = TextValueView;

    open spec fn view(&self) -> TextValueView {
        TextValueView {
            content: self.content@,
            link: match self.link {
                Some(ref l) => Some(l@),
                None => None,
            },
        }
    }
}

/// One span of a title cell: the written text and the server-rendered plain
/// text, which is never written back.
#[derive(Debug, PartialEq, Eq)]
pub struct TitleValue {
    pub text: TextValue,
    pub plain_text: String,
}

/// Mathematical mirror of `TitleValue`.
#[verifier::ext_equal]
pub struct TitleValueView {
    pub text: TextValueView,
    pub plain_text: Seq<char>,
}

impl View for TitleValue {
    type V = TitleValueView;

    open spec fn view(&self) -> TitleValueView {
        TitleValueView { text: self.text@, plain_text: self.plain_text@ }
    }
}

impl TitleValue {
    /// A client-constructed span: the plain text is left empty for the
    /// server to fill.
    pub fn new(text: &str, link: Option<String>) -> (t: TitleValue)
        ensures
            t@.text.content == text@,
            t@.text.link == (match link {
                Some(l) => Some::<Seq<char>>(l@),
                None => None::<Seq<char>>,
            }),
            t@.plain_text == Seq::<char>::empty(),
    {
        TitleValue { text: TextValue { content: text.to_owned(), link }, plain_text: String::new() }
    }
}

/// An option reference in a select or status cell. Client-constructed values
/// name the option only: the server resolves the name and fills `id` and
/// `color`.
#[derive(Debug, PartialEq, Eq)]
pub struct StatusSelectValue {
    pub id: String,
    pub name: String,
    pub color: String,
}

/// Mathematical mirror of `StatusSelectValue`.
#[verifier::ext_equal]
pub struct StatusSelectValueView {
    pub id: Seq<char>,
    pub name: Seq<char>,
    pub color: Seq<char>,
}

impl View for StatusSelectValue {
    type V = StatusSelectValueView;

    open spec fn view(&self) -> StatusSelectValueView {
        StatusSelectValueView { id: self.id@, name: self.name@, color: self.color@ }
    }
}

impl StatusSelectValue {
    /// A name-only option reference.
    pub fn new(name: &str) -> (v: StatusSelectValue)
        ensures
            v@.name == name@,
            v@.id == Seq::<char>::empty(),
            v@.color == Seq::<char>::empty(),
    {
        StatusSelectValue { id: String::new(), name: name.to_owned(), color: String::new() }
    }
}

/// The payload of one cell, polymorphic over the destination's value kinds.
/// Only title, number, select, status and date carry payloads this system
/// reads or writes; the other kinds are accepted so that decoding never
/// fails on a declared kind.
#[derive(Debug, PartialEq, Eq)]
pub enum PropertyValueInner {
    Checkbox {},
    CreatedBy {},
    CreatedTime {},
    Date(Option<DateValue>),
    Email {},
    Files {},
    Formula {},
    LastEditedBy {},
    LastEditedTime {},
    MultiSelect {},
    Number(Option<u32>),
    People {},
    PhoneNumber {},
    Relation {},
    RichText {},
    Rollup {},
    Select(Option<StatusSelectValue>),
    Status(Option<StatusSelectValue>),
    Title(Vec<TitleValue>),
    Url {},
}

/// Mathematical mirror of `PropertyValueInner`.
#[verifier::ext_equal]
pub enum PropertyValueInnerView {
    Checkbox,
    CreatedBy,
    CreatedTime,
    Date(Option<DateValueView>),
    Email,
    Files,
    Formula,
    LastEditedBy,
    LastEditedTime,
    MultiSelect,
    Number(Option<u32>),
    People,
    PhoneNumber,
    Relation,
    RichText,
    Rollup,
    Select(Option<StatusSelectValueView>),
    Status(Option<StatusSelectValueView>),
    Title(Seq<TitleValueView>),
    Url,
}

/// The views of the spans of a title cell.
pub open spec fn title_spans_view(spans: Seq<TitleValue>) -> Seq<TitleValueView> {
    Seq::new(
        spans.len(),
        |i: int|
            if 0 <= i < spans.len() {
                spans[i]@
            } else {
                TitleValueView {
                    text: TextValueView { content: Seq::empty(), link: None },
                    plain_text: Seq::empty(),
                }
            },
    )
}

impl View for PropertyValueInner {
    type V = PropertyValueInnerView;

    open spec fn view(&self) -> PropertyValueInnerView {
        match self {
            PropertyValueInner::Checkbox {  } => PropertyValueInnerView::Checkbox,
            PropertyValueInner::CreatedBy {  } => PropertyValueInnerView::CreatedBy,
            PropertyValueInner::CreatedTime {  } => PropertyValueInnerView::CreatedTime,
            PropertyValueInner::Date(d) => PropertyValueInnerView::Date(
                match d {
                    Some(dv) => Some(dv@),
                    None => None,
                },
            ),
            PropertyValueInner::Email {  } => PropertyValueInnerView::Email,
            PropertyValueInner::Files {  } => PropertyValueInnerView::Files,
            PropertyValueInner::Formula {  } => PropertyValueInnerView::Formula,
            PropertyValueInner::LastEditedBy {  } => PropertyValueInnerView::LastEditedBy,
            PropertyValueInner::LastEditedTime {  } => PropertyValueInnerView::LastEditedTime,
            PropertyValueInner::MultiSelect {  } => PropertyValueInnerView::MultiSelect,
            PropertyValueInner::Number(n) => PropertyValueInnerView::Number(*n),
            PropertyValueInner::People {  } => PropertyValueInnerView::People,
            PropertyValueInner::PhoneNumber {  } => PropertyValueInnerView::PhoneNumber,
            PropertyValueInner::Relation {  } => PropertyValueInnerView::Relation,
            PropertyValueInner::RichText {  } => PropertyValueInnerView::RichText,
            PropertyValueInner::Rollup {  } => PropertyValueInnerView::Rollup,
            PropertyValueInner::Select(s) => PropertyValueInnerView::Select(
                match s {
                    Some(v) => Some(v@),
                    None => None,
                },
            ),
            PropertyValueInner::Status(s) => PropertyValueInnerView::Status(
                match s {
                    Some(v) => Some(v@),
                    None => None,
                },
            ),
            PropertyValueInner::Title(spans) => PropertyValueInnerView::Title(
                title_spans_view(spans@),
            ),
            PropertyValueInner::Url {  } => PropertyValueInnerView::Url,
        }
    }
}

/// One cell as read from the destination: its server id, its kind tag, and
/// its payload, whose variant agrees with the tag.
#[derive(Debug, PartialEq, Eq)]
pub struct PropertyValue {
    pub id: String,
    pub kind: String,
    pub inner: PropertyValueInner,
}

/// Mathematical mirror of `PropertyValue`.
#[verifier::ext_equal]
pub struct PropertyValueView {
    pub id: Seq<char>,
    pub kind: Seq<char>,
    pub inner: PropertyValueInnerView,
}

impl View for PropertyValue {
    type V = PropertyValueView;

    open spec fn view(&self) -> PropertyValueView {
        PropertyValueView { id: self.id@, kind: self.kind@, inner: self.inner@ }
    }
}

/// One record of the destination database, keyed by property name.
#[derive(Debug, PartialEq, Eq)]
pub struct Page {
    pub id: String,
    pub properties: Vec<(String, PropertyValue)>,
}

/// Mathematical mirror of `Page`.
#[verifier::ext_equal]
pub struct PageView {
    pub id: Seq<char>,
    pub properties: Seq<(Seq<char>, PropertyValueView)>,
}

/// The views of a page's named cells.
pub open spec fn page_entries_view(entries: Seq<(String, PropertyValue)>) -> Seq<
    (Seq<char>, PropertyValueView),
> {
    Seq::new(
        entries.len(),
        |i: int|
            if 0 <= i < entries.len() {
                (entries[i].0@, entries[i].1@)
            } else {
                (
                    Seq::empty(),
                    PropertyValueView {
                        id: Seq::empty(),
                        kind: Seq::empty(),
                        inner: PropertyValueInnerView::Checkbox,
                    },
                )
            },
    )
}

impl View for Page {
    type V = PageView;

    open spec fn view(&self) -> PageView {
        PageView { id: self.id@, properties: page_entries_view(self.properties@) }
    }
}

} // verus!

// ---------------------------------------------------------------------------
// Write shapes: a cell is written as one object entry whose key is the kind
// tag and whose value is the kind's payload.
// ---------------------------------------------------------------------------

verus! {

/// The wire tag of a payload's kind.
pub open spec fn spec_kind_tag(v: PropertyValueInnerView) -> Seq<char> {
    match v {
        PropertyValueInnerView::Checkbox => "checkbox"@,
        PropertyValueInnerView::CreatedBy => "created_by"@,
        PropertyValueInnerView::CreatedTime => "created_time"@,
        PropertyValueInnerView::Date(_) => "date"@,
        PropertyValueInnerView::Email => "email"@,
        PropertyValueInnerView::Files => "files"@,
        PropertyValueInnerView::Formula => "formula"@,
        PropertyValueInnerView::LastEditedBy => "last_edited_by"@,
        PropertyValueInnerView::LastEditedTime => "last_edited_time"@,
        PropertyValueInnerView::MultiSelect => "multi_select"@,
        PropertyValueInnerView::Number(_) => "number"@,
        PropertyValueInnerView::People => "people"@,
        PropertyValueInnerView::PhoneNumber => "phone_number"@,
        PropertyValueInnerView::Relation => "relation"@,
        PropertyValueInnerView::RichText => "rich_text"@,
        PropertyValueInnerView::Rollup => "rollup"@,
        PropertyValueInnerView::Select(_) => "select"@,
        PropertyValueInnerView::Status(_) => "status"@,
        PropertyValueInnerView::Title(_) => "title"@,
        PropertyValueInnerView::Url => "url"@,
    }
}

/// The kinds whose payloads this system reads and writes.
pub open spec fn is_active_kind(v: PropertyValueInnerView) -> bool {
    match v {
        PropertyValueInnerView::Date(_) => true,
        PropertyValueInnerView::Number(_) => true,
        PropertyValueInnerView::Select(_) => true,
        PropertyValueInnerView::Status(_) => true,
        PropertyValueInnerView::Title(_) => true,
        _ => false,
    }
}

/// A written option reference: the name alone; an absent option is null.
pub open spec fn spec_encode_option_ref(s: Option<StatusSelectValueView>) -> JsonView {
    match s {
        None => JsonView::Null,
        Some(v) => JsonView::Obj(seq![("name"@, JsonView::Str(v.name))]),
    }
}

/// A written date: its start text and its optional end text; an absent date
/// is null.
pub open spec fn spec_encode_date(d: Option<DateValueView>) -> JsonView {
    match d {
        None => JsonView::Null,
        Some(dv) => JsonView::Obj(
            seq![
                ("start"@, JsonView::Str(dv.start.text)),
                (
                    "end"@,
                    match dv.end {
                        None => JsonView::Null,
                        Some(e) => JsonView::Str(e.text),
                    },
                ),
            ],
        ),
    }
}

/// A written text span: content and optional link.
pub open spec fn spec_encode_text(t: TextValueView) -> JsonView {
    JsonView::Obj(
        seq![
            ("content"@, JsonView::Str(t.content)),
            (
                "link"@,
                match t.link {
                    None => JsonView::Null,
                    Some(l) => JsonView::Str(l),
                },
            ),
        ],
    )
}

/// A written title span: the text alone; the plain text is server-rendered
/// and never written.
pub open spec fn spec_encode_span(t: TitleValueView) -> JsonView {
    JsonView::Obj(seq![("text"@, spec_encode_text(t.text))])
}

/// A written payload, by kind. The kinds this system never writes carry an
/// empty object, as their declarations hold no payload.
pub open spec fn spec_encode_payload(v: PropertyValueInnerView) -> JsonView {
    match v {
        PropertyValueInnerView::Date(d) => spec_encode_date(d),
        PropertyValueInnerView::Number(n) => match n {
            None => JsonView::Null,
            Some(x) => JsonView::Int(x as int),
        },
        PropertyValueInnerView::Select(s) => spec_encode_option_ref(s),
        PropertyValueInnerView::Status(s) => spec_encode_option_ref(s),
        PropertyValueInnerView::Title(spans) => JsonView::Arr(
            spans.map_values(|t: TitleValueView| spec_encode_span(t)),
        ),
        _ => JsonView::Obj(Seq::empty()),
    }
}

/// A written cell: one entry, the kind tag over the payload.
pub open spec fn spec_encode_value(v: PropertyValueInnerView) -> JsonView {
    JsonView::Obj(seq![(spec_kind_tag(v), spec_encode_payload(v))])
}

/// The views of named payloads to be written.
pub open spec fn prop_writes_view(props: Seq<(String, PropertyValueInner)>) -> Seq<
    (Seq<char>, PropertyValueInnerView),
> {
    Seq::new(
        props.len(),
        |i: int|
            if 0 <= i < props.len() {
                (props[i].0@, props[i].1@)
            } else {
                (Seq::empty(), PropertyValueInnerView::Checkbox)
            },
    )
}

/// A written set of named cells.
pub open spec fn spec_encode_properties(props: Seq<(Seq<char>, PropertyValueInnerView)>) -> Seq<
    (Seq<char>, JsonView),
> {
    props.map_values(|p: (Seq<char>, PropertyValueInnerView)| (p.0, spec_encode_value(p.1)))
}

/// The body of a create call: the parent database and the seed cells.
pub open spec fn spec_create_body(
    database_id: Seq<char>,
    props: Seq<(Seq<char>, PropertyValueInnerView)>,
) -> JsonView {
    JsonView::Obj(
        seq![
            ("parent"@, JsonView::Obj(seq![("database_id"@, JsonView::Str(database_id))])),
            ("properties"@, JsonView::Obj(spec_encode_properties(props))),
        ],
    )
}

/// The body of an update call: the overwritten cells alone.
pub open spec fn spec_update_body(props: Seq<(Seq<char>, PropertyValueInnerView)>) -> JsonView {
    JsonView::Obj(seq![("properties"@, JsonView::Obj(spec_encode_properties(props)))])
}

/// The wire tag of a payload's kind.
pub fn kind_tag(v: &PropertyValueInner) -> (t: &'static str)
    ensures
        t@ == spec_kind_tag(v@),
{
    match v {
        PropertyValueInner::Checkbox {  } => "checkbox",
        PropertyValueInner::CreatedBy {  } => "created_by",
        PropertyValueInner::CreatedTime {  } => "created_time",
        PropertyValueInner::Date(_) => "date",
        PropertyValueInner::Email {  } => "email",
        PropertyValueInner::Files {  } => "files",
        PropertyValueInner::Formula {  } => "formula",
        PropertyValueInner::LastEditedBy {  } => "last_edited_by",
        PropertyValueInner::LastEditedTime {  } => "last_edited_time",
        PropertyValueInner::MultiSelect {  } => "multi_select",
        PropertyValueInner::Number(_) => "number",
        PropertyValueInner::People {  } => "people",
        PropertyValueInner::PhoneNumber {  } => "phone_number",
        PropertyValueInner::Relation {  } => "relation",
        PropertyValueInner::RichText {  } => "rich_text",
        PropertyValueInner::Rollup {  } => "rollup",
        PropertyValueInner::Select(_) => "select",
        PropertyValueInner::Status(_) => "status",
        PropertyValueInner::Title(_) => "title",
        PropertyValueInner::Url {  } => "url",
    }
}

/// Encodes an option reference for writing.
fn encode_option_ref(s: &Option<StatusSelectValue>) -> (r: JsonValue)
    ensures
        r@ == spec_encode_option_ref(
            match s {
                Some(v) => Some(v@),
                None => None,
            },
        ),
{
    match s {
        None => JsonValue::Null,
        Some(v) => {
            let r = jobj1("name", jstr(v.name.as_str()));
            proof {
                assert(r@->Obj_0 =~= spec_encode_option_ref(Some(v@))->Obj_0);
            }
            r
        },
    }
}

/// Encodes a date cell for writing.
fn encode_date(d: &Option<DateValue>) -> (r: JsonValue)
    ensures
        r@ == spec_encode_date(
            match d {
                Some(dv) => Some(dv@),
                None => None,
            },
        ),
{
    match d {
        None => JsonValue::Null,
        Some(dv) => {
            let end = match &dv.end {
                None => JsonValue::Null,
                Some(e) => jstr(e.text.as_str()),
            };
            let r = jobj2("start", jstr(dv.start.text.as_str()), "end", end);
            proof {
                assert(r@->Obj_0 =~= spec_encode_date(Some(dv@))->Obj_0);
            }
            r
        },
    }
}

/// Encodes one title span for writing.
fn encode_span(t: &TitleValue) -> (r: JsonValue)
    ensures
        r@ == spec_encode_span(t@),
{
    let link = match &t.text.link {
        None => JsonValue::Null,
        Some(l) => jstr(l.as_str()),
    };
    let text = jobj2("content", jstr(t.text.content.as_str()), "link", link);
    proof {
        assert(text@->Obj_0 =~= spec_encode_text(t@.text)->Obj_0);
    }
    let r = jobj1("text", text);
    proof {
        assert(r@->Obj_0 =~= spec_encode_span(t@)->Obj_0);
    }
    r
}

/// Encodes a payload for writing.
pub fn encode_payload(v: &PropertyValueInner) -> (r: JsonValue)
    ensures
        r@ == spec_encode_payload(v@),
{
    match v {
        PropertyValueInner::Date(d) => encode_date(d),
        PropertyValueInner::Number(n) => match n {
            None => JsonValue::Null,
            Some(x) => JsonValue::Int(*x as i64),
        },
        PropertyValueInner::Select(s) => encode_option_ref(s),
        PropertyValueInner::Status(s) => encode_option_ref(s),
        PropertyValueInner::Title(spans) => {
            let mut out: Vec<JsonValue> = Vec::new();
            let n = spans.len();
            for i in 0..n
                invariant
                    n == spans.len(),
                    out@.len() == i,
                    forall|k: int| 0 <= k < i ==> out@[k].view_of() == spec_encode_span(spans@[k]@),
            {
                out.push(encode_span(&spans[i]));
            }
            let r = JsonValue::Arr(out);
            proof {
                assert(crate::json::arr_view(out@) =~= title_spans_view(spans@).map_values(
                    |t: TitleValueView| spec_encode_span(t),
                ));
            }
            r
        },
        _ => {
            let r = JsonValue::Obj(Vec::new());
            proof {
                assert(r@->Obj_0 =~= Seq::<(Seq<char>, JsonView)>::empty());
            }
            r
        },
    }
}

/// Encodes one cell for writing: the kind tag over the payload.
pub fn encode_value(v: &PropertyValueInner) -> (r: JsonValue)
    ensures
        r@ == spec_encode_value(v@),
{
    jobj1(kind_tag(v), encode_payload(v))
}

/// Encodes named cells for writing, in the given order.
pub fn encode_properties(props: &Vec<(String, PropertyValueInner)>) -> (r: JsonValue)
    ensures
        r@ == JsonView::Obj(spec_encode_properties(prop_writes_view(props@))),
{
    let mut out: Vec<(String, JsonValue)> = Vec::new();
    let n = props.len();
    for i in 0..n
        invariant
            n == props.len(),
            out@.len() == i,
            forall|k: int|
                0 <= k < i ==> out@[k].0@ == props@[k].0@ && out@[k].1.view_of()
                    == spec_encode_value(props@[k].1@),
    {
        let value = encode_value(&props[i].1);
        out.push((props[i].0.clone(), value));
    }
    let r = JsonValue::Obj(out);
    proof {
        assert(obj_view(out@) =~= spec_encode_properties(prop_writes_view(props@)));
    }
    r
}

/// The body of a create call under the given parent database.
pub fn encode_create_body(database_id: &str, props: &Vec<(String, PropertyValueInner)>) -> (r:
    JsonValue)
    ensures
        r@ == spec_create_body(database_id@, prop_writes_view(props@)),
{
    jobj2(
        "parent",
        jobj1("database_id", jstr(database_id)),
        "properties",
        encode_properties(props),
    )
}

/// The body of an update call overwriting the given cells.
pub fn encode_update_body(props: &Vec<(String, PropertyValueInner)>) -> (r: JsonValue)
    ensures
        r@ == spec_update_body(prop_writes_view(props@)),
{
    jobj1("properties", encode_properties(props))
}

} // verus!

// ---------------------------------------------------------------------------
// Read shapes: a cell arrives as an object holding a server id, a kind tag
// under "type", and the payload under a key equal to the tag. The tag and
// the payload key must agree. Kinds this system does not read are accepted
// with their payload ignored, so that decoding never fails on a declared
// kind.
// ---------------------------------------------------------------------------

verus! {

/// A read option reference: null is an absent option; an object names the
/// option, with the server-populated id and color read when present.
pub open spec fn spec_decode_option_ref(payload: JsonView) -> Option<
    Option<StatusSelectValueView>,
> {
    match payload {
        JsonView::Null => Some(None),
        JsonView::Obj(entries) => match (
            spec_req_str(entries, "name"@),
            spec_str_or_empty(entries, "id"@),
            spec_str_or_empty(entries, "color"@),
        ) {
            (Some(name), Some(id), Some(color)) => Some(
                Some(StatusSelectValueView { id, name, color }),
            ),
            _ => None,
        },
        _ => None,
    }
}

/// A read date stamp: a string denoting an instant.
pub open spec fn spec_decode_stamp(v: JsonView) -> Option<DateStampView> {
    match v {
        JsonView::Str(text) => match parsed_rfc3339(text) {
            Some(seconds) => Some(DateStampView { seconds, text }),
            None => None,
        },
        _ => None,
    }
}

/// A read date cell: null is an absent date; an object holds a start stamp
/// and an optional end stamp.
pub open spec fn spec_decode_date(payload: JsonView) -> Option<Option<DateValueView>> {
    match payload {
        JsonView::Null => Some(None),
        JsonView::Obj(entries) => {
            let start = match obj_get(entries, "start"@) {
                Some(v) => spec_decode_stamp(v),
                None => None,
            };
            let end = match obj_get(entries, "end"@) {
                None => Some(None),
                Some(JsonView::Null) => Some(None),
                Some(v) => match spec_decode_stamp(v) {
                    Some(stamp) => Some(Some(stamp)),
                    None => None,
                },
            };
            match (start, end) {
                (Some(s), Some(e)) => Some(Some(DateValueView { start: s, end: e })),
                _ => None,
            }
        },
        _ => None,
    }
}

/// A read number cell: null is an absent number; the destination's numbers
/// this system reads are whole and within `u32`.
pub open spec fn spec_decode_number(payload: JsonView) -> Option<Option<u32>> {
    match payload {
        JsonView::Null => Some(None),
        JsonView::Int(n) => if 0 <= n <= u32::MAX {
            Some(Some(n as u32))
        } else {
            None
        },
        _ => None,
    }
}

/// A read text span: its content and an optional link.
pub open spec fn spec_decode_text(v: JsonView) -> Option<TextValueView> {
    match v {
        JsonView::Obj(entries) => match (
            spec_req_str(entries, "content"@),
            spec_opt_str(entries, "link"@),
        ) {
            (Some(content), Some(link)) => Some(TextValueView { content, link }),
            _ => None,
        },
        _ => None,
    }
}

/// A read title span: its written text and the server-rendered plain text,
/// which may be absent on values this client wrote.
pub open spec fn spec_decode_span(v: JsonView) -> Option<TitleValueView> {
    match v {
        JsonView::Obj(entries) => {
            let text = match obj_get(entries, "text"@) {
                Some(t) => spec_decode_text(t),
                None => None,
            };
            match (text, spec_str_or_empty(entries, "plain_text"@)) {
                (Some(text), Some(plain_text)) => Some(TitleValueView { text, plain_text }),
                _ => None,
            }
        },
        _ => None,
    }
}

/// The read spans of a title cell, in order; one failing span fails the cell.
pub open spec fn spec_decode_spans(xs: Seq<JsonView>) -> Option<Seq<TitleValueView>>
    decreases xs.len(),
{
    if xs.len() == 0 {
        Some(Seq::empty())
    } else {
        match (spec_decode_spans(xs.drop_last()), spec_decode_span(xs.last())) {
            (Some(front), Some(t)) => Some(front.push(t)),
            _ => None,
        }
    }
}

/// The payload variant of a kind this system never reads, by tag.
pub open spec fn spec_inactive_of_tag(kind: Seq<char>) -> Option<PropertyValueInnerView> {
    if kind == "checkbox"@ {
        Some(PropertyValueInnerView::Checkbox)
    } else if kind == "created_by"@ {
        Some(PropertyValueInnerView::CreatedBy)
    } else if kind == "created_time"@ {
        Some(PropertyValueInnerView::CreatedTime)
    } else if kind == "email"@ {
        Some(PropertyValueInnerView::Email)
    } else if kind == "files"@ {
        Some(PropertyValueInnerView::Files)
    } else if kind == "formula"@ {
        Some(PropertyValueInnerView::Formula)
    } else if kind == "last_edited_by"@ {
        Some(PropertyValueInnerView::LastEditedBy)
    } else if kind == "last_edited_time"@ {
        Some(PropertyValueInnerView::LastEditedTime)
    } else if kind == "multi_select"@ {
        Some(PropertyValueInnerView::MultiSelect)
    } else if kind == "people"@ {
        Some(PropertyValueInnerView::People)
    } else if kind == "phone_number"@ {
        Some(PropertyValueInnerView::PhoneNumber)
    } else if kind == "relation"@ {
        Some(PropertyValueInnerView::Relation)
    } else if kind == "rich_text"@ {
        Some(PropertyValueInnerView::RichText)
    } else if kind == "rollup"@ {
        Some(PropertyValueInnerView::Rollup)
    } else if kind == "url"@ {
        Some(PropertyValueInnerView::Url)
    } else {
        None
    }
}

/// A read payload, by tag. An unknown tag fails the read.
pub open spec fn spec_decode_payload(kind: Seq<char>, payload: JsonView) -> Option<
    PropertyValueInnerView,
> {
    if kind == "number"@ {
        match spec_decode_number(payload) {
            Some(n) => Some(PropertyValueInnerView::Number(n)),
            None => None,
        }
    } else if kind == "select"@ {
        match spec_decode_option_ref(payload) {
            Some(s) => Some(PropertyValueInnerView::Select(s)),
            None => None,
        }
    } else if kind == "status"@ {
        match spec_decode_option_ref(payload) {
            Some(s) => Some(PropertyValueInnerView::Status(s)),
            None => None,
        }
    } else if kind == "date"@ {
        match spec_decode_date(payload) {
            Some(d) => Some(PropertyValueInnerView::Date(d)),
            None => None,
        }
    } else if kind == "title"@ {
        match payload {
            JsonView::Arr(xs) => match spec_decode_spans(xs) {
                Some(spans) => Some(PropertyValueInnerView::Title(spans)),
                None => None,
            },
            _ => None,
        }
    } else {
        spec_inactive_of_tag(kind)
    }
}

/// A read cell: its server id, its tag, and the payload under the key the
/// tag names. A kind this system reads must carry that key; a kind it does
/// not read may omit it, and its payload is ignored.
pub open spec fn spec_decode_value(j: JsonView) -> Option<PropertyValueView> {
    match j {
        JsonView::Obj(entries) => match (
            spec_req_str(entries, "id"@),
            spec_req_str(entries, "type"@),
        ) {
            (Some(id), Some(kind)) => {
                let inner = match obj_get(entries, kind) {
                    Some(payload) => spec_decode_payload(kind, payload),
                    None => spec_inactive_of_tag(kind),
                };
                match inner {
                    Some(inner) => Some(PropertyValueView { id, kind, inner }),
                    None => None,
                }
            },
            _ => None,
        },
        _ => None,
    }
}

} // verus!

verus! {

/// Decodes a read option reference.
fn decode_option_ref(payload: &JsonValue) -> (r: Option<Option<StatusSelectValue>>)
    ensures
        match r {
            Some(s) => spec_decode_option_ref(payload@) == Some(opt_view(s)),
            None => spec_decode_option_ref(payload@) is None,
        },
{
    match payload {
        JsonValue::Null => Some(None),
        JsonValue::Obj(entries) => {
            let name = match req_str(entries, "name") {
                Some(n) => n,
                None => {
                    return None;
                },
            };
            let id = match str_or_empty(entries, "id") {
                Some(v) => v,
                None => {
                    return None;
                },
            };
            let color = match str_or_empty(entries, "color") {
                Some(v) => v,
                None => {
                    return None;
                },
            };
            Some(Some(StatusSelectValue { id, name, color }))
        },
        _ => None,
    }
}

/// Decodes a read date stamp.
fn decode_stamp(v: &JsonValue) -> (r: Option<DateStamp>)
    ensures
        match r {
            Some(stamp) => spec_decode_stamp(v@) == Some(stamp@) && stamp@.wf(),
            None => spec_decode_stamp(v@) is None,
        },
{
    match v {
        JsonValue::Str(text) => DateStamp::from_text(text.clone()),
        _ => None,
    }
}

/// Decodes a read date cell.
fn decode_date(payload: &JsonValue) -> (r: Option<Option<DateValue>>)
    ensures
        match r {
            Some(d) => spec_decode_date(payload@) == Some(opt_view(d)),
            None => spec_decode_date(payload@) is None,
        },
{
    match payload {
        JsonValue::Null => Some(None),
        JsonValue::Obj(entries) => {
            let start = match obj_lookup(entries, "start") {
                Some(v) => match decode_stamp(v) {
                    Some(stamp) => stamp,
                    None => {
                        return None;
                    },
                },
                None => {
                    return None;
                },
            };
            let end = match obj_lookup(entries, "end") {
                None => None,
                Some(JsonValue::Null) => None,
                Some(v) => match decode_stamp(v) {
                    Some(stamp) => Some(stamp),
                    None => {
                        return None;
                    },
                },
            };
            Some(Some(DateValue { start, end }))
        },
        _ => None,
    }
}

/// Decodes a read number cell.
fn decode_number(payload: &JsonValue) -> (r: Option<Option<u32>>)
    ensures
        match r {
            Some(n) => spec_decode_number(payload@) == Some(n),
            None => spec_decode_number(payload@) is None,
        },
{
    match payload {
        JsonValue::Null => Some(None),
        JsonValue::Int(n) => if 0 <= *n && *n <= u32::MAX as i64 {
            Some(Some(*n as u32))
        } else {
            None
        },
        _ => None,
    }
}

/// Decodes a read text span.
fn decode_text(v: &JsonValue) -> (r: Option<TextValue>)
    ensures
        match r {
            Some(t) => spec_decode_text(v@) == Some(t@),
            None => spec_decode_text(v@) is None,
        },
{
    match v {
        JsonValue::Obj(entries) => {
            let content = match req_str(entries, "content") {
                Some(c) => c,
                None => {
                    return None;
                },
            };
            let link = match opt_str(entries, "link") {
                Some(l) => l,
                None => {
                    return None;
                },
            };
            Some(TextValue { content, link })
        },
        _ => None,
    }
}

/// Decodes a read title span.
fn decode_span(v: &JsonValue) -> (r: Option<TitleValue>)
    ensures
        match r {
            Some(t) => spec_decode_span(v@) == Some(t@),
            None => spec_decode_span(v@) is None,
        },
{
    match v {
        JsonValue::Obj(entries) => {
            let text = match obj_lookup(entries, "text") {
                Some(t) => match decode_text(t) {
                    Some(text) => text,
                    None => {
                        return None;
                    },
                },
                None => {
                    return None;
                },
            };
            let plain_text = match str_or_empty(entries, "plain_text") {
                Some(p) => p,
                None => {
                    return None;
                },
            };
            Some(TitleValue { text, plain_text })
        },
        _ => None,
    }
}

/// One failing span fails the whole list.
proof fn lemma_spans_fail(xs: Seq<JsonView>, i: int)
    requires
        0 <= i < xs.len(),
        spec_decode_span(xs[i]) is None,
    ensures
        spec_decode_spans(xs) is None,
    decreases xs.len(),
{
    if i < xs.len() - 1 {
        lemma_spans_fail(xs.drop_last(), i);
    }
}

/// Decodes the spans of a read title cell, in order.
fn decode_spans(xs: &Vec<JsonValue>) -> (r: Option<Vec<TitleValue>>)
    ensures
        match r {
            Some(spans) => spec_decode_spans(arr_view(xs@)) == Some(title_spans_view(spans@)),
            None => spec_decode_spans(arr_view(xs@)) is None,
        },
{
    let ghost views = arr_view(xs@);
    let mut out: Vec<TitleValue> = Vec::new();
    let n = xs.len();
    for i in 0..n
        invariant
            n == xs.len(),
            views == arr_view(xs@),
            out@.len() == i,
            spec_decode_spans(views.subrange(0, i as int)) == Some(title_spans_view(out@)),
    {
        let ghost prefix = views.subrange(0, i as int);
        let ghost prefix_next = views.subrange(0, i + 1 as int);
        let ghost out_before = out@;
        match decode_span(&xs[i]) {
            Some(t) => {
                out.push(t);
                proof {
                    assert(prefix_next.drop_last() =~= prefix);
                    assert(title_spans_view(out@) =~= title_spans_view(out_before).push(t@));
                }
            },
            None => {
                proof {
                    lemma_spans_fail(views, i as int);
                }
                return None;
            },
        }
    }
    proof {
        assert(views.subrange(0, n as int) =~= views);
    }
    Some(out)
}

} // verus!

verus! {

/// The payload variant of a kind this system never reads, by tag.
fn inactive_of_tag(kind: &str) -> (r: Option<PropertyValueInner>)
    ensures
        match r {
            Some(v) => spec_inactive_of_tag(kind@) == Some(v@),
            None => spec_inactive_of_tag(kind@) is None,
        },
{
    if str_is(kind, "checkbox") {
        Some(PropertyValueInner::Checkbox {  })
    } else if str_is(kind, "created_by") {
        Some(PropertyValueInner::CreatedBy {  })
    } else if str_is(kind, "created_time") {
        Some(PropertyValueInner::CreatedTime {  })
    } else if str_is(kind, "email") {
        Some(PropertyValueInner::Email {  })
    } else if str_is(kind, "files") {
        Some(PropertyValueInner::Files {  })
    } else if str_is(kind, "formula") {
        Some(PropertyValueInner::Formula {  })
    } else if str_is(kind, "last_edited_by") {
        Some(PropertyValueInner::LastEditedBy {  })
    } else if str_is(kind, "last_edited_time") {
        Some(PropertyValueInner::LastEditedTime {  })
    } else if str_is(kind, "multi_select") {
        Some(PropertyValueInner::MultiSelect {  })
    } else if str_is(kind, "people") {
        Some(PropertyValueInner::People {  })
    } else if str_is(kind, "phone_number") {
        Some(PropertyValueInner::PhoneNumber {  })
    } else if str_is(kind, "relation") {
        Some(PropertyValueInner::Relation {  })
    } else if str_is(kind, "rich_text") {
        Some(PropertyValueInner::RichText {  })
    } else if str_is(kind, "rollup") {
        Some(PropertyValueInner::Rollup {  })
    } else if str_is(kind, "url") {
        Some(PropertyValueInner::Url {  })
    } else {
        None
    }
}

/// Decodes a read payload, by tag.
pub fn decode_payload(kind: &str, payload: &JsonValue) -> (r: Option<PropertyValueInner>)
    ensures
        match r {
            Some(v) => spec_decode_payload(kind@, payload@) == Some(v@),
            None => spec_decode_payload(kind@, payload@) is None,
        },
{
    if str_is(kind, "number") {
        match decode_number(payload) {
            Some(n) => Some(PropertyValueInner::Number(n)),
            None => None,
        }
    } else if str_is(kind, "select") {
        match decode_option_ref(payload) {
            Some(s) => Some(PropertyValueInner::Select(s)),
            None => None,
        }
    } else if str_is(kind, "status") {
        match decode_option_ref(payload) {
            Some(s) => Some(PropertyValueInner::Status(s)),
            None => None,
        }
    } else if str_is(kind, "date") {
        match decode_date(payload) {
            Some(d) => Some(PropertyValueInner::Date(d)),
            None => None,
        }
    } else if str_is(kind, "title") {
        match payload {
            JsonValue::Arr(xs) => match decode_spans(xs) {
                Some(spans) => Some(PropertyValueInner::Title(spans)),
                None => None,
            },
            _ => None,
        }
    } else {
        inactive_of_tag(kind)
    }
}

/// Decodes one read cell.
pub fn decode_value(j: &JsonValue) -> (r: Option<PropertyValue>)
    ensures
        match r {
            Some(v) => spec_decode_value(j@) == Some(v@),
            None => spec_decode_value(j@) is None,
        },
{
    match j {
        JsonValue::Obj(entries) => {
            let id = match req_str(entries, "id") {
                Some(s) => s,
                None => {
                    return None;
                },
            };
            let kind = match req_str(entries, "type") {
                Some(s) => s,
                None => {
                    return None;
                },
            };
            let inner = match obj_lookup(entries, kind.as_str()) {
                Some(payload) => decode_payload(kind.as_str(), payload),
                None => inactive_of_tag(kind.as_str()),
            };
            match inner {
                Some(inner) => Some(PropertyValue { id, kind, inner }),
                None => None,
            }
        },
        _ => None,
    }
}

} // verus!

// ---------------------------------------------------------------------------
// Pages, query responses, and the database schema as read from the wire.
// ---------------------------------------------------------------------------

verus! {

/// The read cells of a page, in wire order; one failing cell fails the page.
pub open spec fn spec_decode_prop_entries(entries: Seq<(Seq<char>, JsonView)>) -> Option<
    Seq<(Seq<char>, PropertyValueView)>,
>
    decreases entries.len(),
{
    if entries.len() == 0 {
        Some(Seq::empty())
    } else {
        match (
            spec_decode_prop_entries(entries.drop_last()),
            spec_decode_value(entries.last().1),
        ) {
            (Some(front), Some(v)) => Some(front.push((entries.last().0, v))),
            _ => None,
        }
    }
}

/// A read page: its identifier and its named cells.
pub open spec fn spec_decode_page(j: JsonView) -> Option<PageView> {
    match j {
        JsonView::Obj(entries) => {
            let id = spec_req_str(entries, "id"@);
            let properties = match obj_get(entries, "properties"@) {
                Some(JsonView::Obj(pentries)) => spec_decode_prop_entries(pentries),
                _ => None,
            };
            match (id, properties) {
                (Some(id), Some(properties)) => Some(PageView { id, properties }),
                _ => None,
            }
        },
        _ => None,
    }
}

/// The read pages of a query result, in order; one failing page fails the
/// read.
pub open spec fn spec_decode_pages(xs: Seq<JsonView>) -> Option<Seq<PageView>>
    decreases xs.len(),
{
    if xs.len() == 0 {
        Some(Seq::empty())
    } else {
        match (spec_decode_pages(xs.drop_last()), spec_decode_page(xs.last())) {
            (Some(front), Some(p)) => Some(front.push(p)),
            _ => None,
        }
    }
}

/// A read query response: the first page of results, and whether the
/// destination holds more than it returned.
pub open spec fn spec_decode_query_response(j: JsonView) -> Option<(Seq<PageView>, bool)> {
    match j {
        JsonView::Obj(entries) => {
            let results = match obj_get(entries, "results"@) {
                Some(JsonView::Arr(xs)) => spec_decode_pages(xs),
                _ => None,
            };
            let has_more = match obj_get(entries, "has_more"@) {
                Some(JsonView::Bool(b)) => Some(b),
                _ => None,
            };
            match (results, has_more) {
                (Some(pages), Some(more)) => Some((pages, more)),
                _ => None,
            }
        },
        _ => None,
    }
}

/// A read declared option of a select or status column.
pub open spec fn spec_decode_prop_option(j: JsonView) -> Option<PropOptionView> {
    match j {
        JsonView::Obj(entries) => match (
            spec_req_str(entries, "id"@),
            spec_req_str(entries, "name"@),
            spec_req_str(entries, "color"@),
            spec_opt_str(entries, "description"@),
        ) {
            (Some(id), Some(name), Some(color), Some(description)) => Some(
                PropOptionView { id, name, color, description },
            ),
            _ => None,
        },
        _ => None,
    }
}

/// The read declared options, in order; one failing option fails the read.
pub open spec fn spec_decode_options(xs: Seq<JsonView>) -> Option<Seq<PropOptionView>>
    decreases xs.len(),
{
    if xs.len() == 0 {
        Some(Seq::empty())
    } else {
        match (spec_decode_options(xs.drop_last()), spec_decode_prop_option(xs.last())) {
            (Some(front), Some(o)) => Some(front.push(o)),
            _ => None,
        }
    }
}

/// The schema descriptor variant of a kind whose declaration carries no
/// metadata this system reads, by tag.
pub open spec fn spec_plain_type_of_tag(kind: Seq<char>) -> Option<PropertyTypeInnerView> {
    if kind == "checkbox"@ {
        Some(PropertyTypeInnerView::Checkbox)
    } else if kind == "created_by"@ {
        Some(PropertyTypeInnerView::CreatedBy)
    } else if kind == "created_time"@ {
        Some(PropertyTypeInnerView::CreatedTime)
    } else if kind == "date"@ {
        Some(PropertyTypeInnerView::Date)
    } else if kind == "email"@ {
        Some(PropertyTypeInnerView::Email)
    } else if kind == "files"@ {
        Some(PropertyTypeInnerView::Files)
    } else if kind == "formula"@ {
        Some(PropertyTypeInnerView::Formula)
    } else if kind == "last_edited_by"@ {
        Some(PropertyTypeInnerView::LastEditedBy)
    } else if kind == "last_edited_time"@ {
        Some(PropertyTypeInnerView::LastEditedTime)
    } else if kind == "multi_select"@ {
        Some(PropertyTypeInnerView::MultiSelect)
    } else if kind == "number"@ {
        Some(PropertyTypeInnerView::Number)
    } else if kind == "people"@ {
        Some(PropertyTypeInnerView::People)
    } else if kind == "phone_number"@ {
        Some(PropertyTypeInnerView::PhoneNumber)
    } else if kind == "relation"@ {
        Some(PropertyTypeInnerView::Relation)
    } else if kind == "rich_text"@ {
        Some(PropertyTypeInnerView::RichText)
    } else if kind == "rollup"@ {
        Some(PropertyTypeInnerView::Rollup)
    } else if kind == "title"@ {
        Some(PropertyTypeInnerView::Title)
    } else if kind == "url"@ {
        Some(PropertyTypeInnerView::Url)
    } else {
        None
    }
}

/// A read schema column: its id, its name, its kind tag, and, for select
/// and status columns, the declared options under the key the tag names.
pub open spec fn spec_decode_prop_type(j: JsonView) -> Option<PropertyTypeView> {
    match j {
        JsonView::Obj(entries) => match (
            spec_req_str(entries, "id"@),
            spec_req_str(entries, "name"@),
            spec_req_str(entries, "type"@),
        ) {
            (Some(id), Some(name), Some(kind)) => {
                let inner = if kind == "select"@ || kind == "status"@ {
                    match obj_get(entries, kind) {
                        Some(JsonView::Obj(payload)) => match obj_get(payload, "options"@) {
                            Some(JsonView::Arr(xs)) => match spec_decode_options(xs) {
                                Some(options) => if kind == "select"@ {
                                    Some(PropertyTypeInnerView::Select { options })
                                } else {
                                    Some(PropertyTypeInnerView::Status { options })
                                },
                                None => None,
                            },
                            _ => None,
                        },
                        _ => None,
                    }
                } else {
                    spec_plain_type_of_tag(kind)
                };
                match inner {
                    Some(inner) => Some(PropertyTypeView { id, name, inner }),
                    None => None,
                }
            },
            _ => None,
        },
        _ => None,
    }
}

/// The read schema columns, keyed by name, in wire order; one failing
/// column fails the read.
pub open spec fn spec_decode_schema_entries(entries: Seq<(Seq<char>, JsonView)>) -> Option<
    Seq<(Seq<char>, PropertyTypeView)>,
>
    decreases entries.len(),
{
    if entries.len() == 0 {
        Some(Seq::empty())
    } else {
        match (
            spec_decode_schema_entries(entries.drop_last()),
            spec_decode_prop_type(entries.last().1),
        ) {
            (Some(front), Some(t)) => Some(front.push((entries.last().0, t))),
            _ => None,
        }
    }
}

/// A read database: its identifier and its schema columns.
pub open spec fn spec_decode_database(j: JsonView) -> Option<DatabaseView> {
    match j {
        JsonView::Obj(entries) => {
            let id = spec_req_str(entries, "id"@);
            let properties = match obj_get(entries, "properties"@) {
                Some(JsonView::Obj(pentries)) => spec_decode_schema_entries(pentries),
                _ => None,
            };
            match (id, properties) {
                (Some(id), Some(properties)) => Some(DatabaseView { id, properties }),
                _ => None,
            }
        },
        _ => None,
    }
}

} // verus!

verus! {

/// One failing cell fails the page's cells.
proof fn lemma_prop_entries_fail(entries: Seq<(Seq<char>, JsonView)>, i: int)
    requires
        0 <= i < entries.len(),
        spec_decode_value(entries[i].1) is None,
    ensures
        spec_decode_prop_entries(entries) is None,
    decreases entries.len(),
{
    if i < entries.len() - 1 {
        lemma_prop_entries_fail(entries.drop_last(), i);
    }
}

/// Decodes the named cells of a read page, in wire order. Where a name
/// repeats, every entry is kept and the first is the one later reads see.
fn decode_prop_entries(entries: &Vec<(String, JsonValue)>) -> (r: Option<
    Vec<(String, PropertyValue)>,
>)
    ensures
        match r {
            Some(out) => spec_decode_prop_entries(obj_view(entries@)) == Some(
                page_entries_view(out@),
            ),
            None => spec_decode_prop_entries(obj_view(entries@)) is None,
        },
{
    let ghost views = obj_view(entries@);
    let mut out: Vec<(String, PropertyValue)> = Vec::new();
    let n = entries.len();
    for i in 0..n
        invariant
            n == entries.len(),
            views == obj_view(entries@),
            out@.len() == i,
            spec_decode_prop_entries(views.subrange(0, i as int)) == Some(page_entries_view(out@)),
    {
        let ghost prefix = views.subrange(0, i as int);
        let ghost prefix_next = views.subrange(0, i + 1 as int);
        let ghost out_before = out@;
        match decode_value(&entries[i].1) {
            Some(v) => {
                let ghost decoded = v@;
                let name = entries[i].0.clone();
                out.push((name, v));
                proof {
                    assert(prefix_next.drop_last() =~= prefix);
                    assert(page_entries_view(out@) =~= page_entries_view(out_before).push(
                        (views[i as int].0, decoded),
                    ));
                }
            },
            None => {
                proof {
                    lemma_prop_entries_fail(views, i as int);
                }
                return None;
            },
        }
    }
    proof {
        assert(views.subrange(0, n as int) =~= views);
    }
    Some(out)
}

} // verus!

verus! {

/// Decodes one read page.
pub fn decode_page(j: &JsonValue) -> (r: Option<Page>)
    ensures
        match r {
            Some(p) => spec_decode_page(j@) == Some(p@),
            None => spec_decode_page(j@) is None,
        },
{
    match j {
        JsonValue::Obj(entries) => {
            let id = match req_str(entries, "id") {
                Some(s) => s,
                None => {
                    return None;
                },
            };
            let properties = match obj_lookup(entries, "properties") {
                Some(JsonValue::Obj(pentries)) => match decode_prop_entries(pentries) {
                    Some(props) => props,
                    None => {
                        return None;
                    },
                },
                _ => {
                    return None;
                },
            };
            Some(Page { id, properties })
        },
        _ => None,
    }
}

/// One failing page fails the list of results.
proof fn lemma_pages_fail(xs: Seq<JsonView>, i: int)
    requires
        0 <= i < xs.len(),
        spec_decode_page(xs[i]) is None,
    ensures
        spec_decode_pages(xs) is None,
    decreases xs.len(),
{
    if i < xs.len() - 1 {
        lemma_pages_fail(xs.drop_last(), i);
    }
}

/// The views of a list of pages.
pub open spec fn pages_view(pages: Seq<Page>) -> Seq<PageView> {
    Seq::new(
        pages.len(),
        |i: int|
            if 0 <= i < pages.len() {
                pages[i]@
            } else {
                PageView { id: Seq::empty(), properties: Seq::empty() }
            },
    )
}

/// Decodes the pages of a query result, in order.
fn decode_pages(xs: &Vec<JsonValue>) -> (r: Option<Vec<Page>>)
    ensures
        match r {
            Some(pages) => spec_decode_pages(arr_view(xs@)) == Some(pages_view(pages@)),
            None => spec_decode_pages(arr_view(xs@)) is None,
        },
{
    let ghost views = arr_view(xs@);
    let mut out: Vec<Page> = Vec::new();
    let n = xs.len();
    for i in 0..n
        invariant
            n == xs.len(),
            views == arr_view(xs@),
            out@.len() == i,
            spec_decode_pages(views.subrange(0, i as int)) == Some(pages_view(out@)),
    {
        let ghost prefix = views.subrange(0, i as int);
        let ghost prefix_next = views.subrange(0, i + 1 as int);
        let ghost out_before = out@;
        match decode_page(&xs[i]) {
            Some(p) => {
                let ghost decoded = p@;
                out.push(p);
                proof {
                    assert(prefix_next.drop_last() =~= prefix);
                    assert(pages_view(out@) =~= pages_view(out_before).push(decoded));
                }
            },
            None => {
                proof {
                    lemma_pages_fail(views, i as int);
                }
                return None;
            },
        }
    }
    proof {
        assert(views.subrange(0, n as int) =~= views);
    }
    Some(out)
}

/// Decodes a read query response: the first page of results and whether
/// more results exist beyond it.
pub fn decode_query_response(j: &JsonValue) -> (r: Option<(Vec<Page>, bool)>)
    ensures
        match r {
            Some(out) => spec_decode_query_response(j@) == Some((pages_view(out.0@), out.1)),
            None => spec_decode_query_response(j@) is None,
        },
{
    match j {
        JsonValue::Obj(entries) => {
            let results = match obj_lookup(entries, "results") {
                Some(JsonValue::Arr(xs)) => match decode_pages(xs) {
                    Some(pages) => pages,
                    None => {
                        return None;
                    },
                },
                _ => {
                    return None;
                },
            };
            let has_more = match obj_lookup(entries, "has_more") {
                Some(JsonValue::Bool(b)) => *b,
                _ => {
                    return None;
                },
            };
            Some((results, has_more))
        },
        _ => None,
    }
}

} // verus!

verus! {

/// Decodes one declared option of a select or status column.
fn decode_prop_option(j: &JsonValue) -> (r: Option<PropOption>)
    ensures
        match r {
            Some(o) => spec_decode_prop_option(j@) == Some(o@),
            None => spec_decode_prop_option(j@) is None,
        },
{
    match j {
        JsonValue::Obj(entries) => {
            let id = match req_str(entries, "id") {
                Some(s) => s,
                None => {
                    return None;
                },
            };
            let name = match req_str(entries, "name") {
                Some(s) => s,
                None => {
                    return None;
                },
            };
            let color = match req_str(entries, "color") {
                Some(s) => s,
                None => {
                    return None;
                },
            };
            let description = match opt_str(entries, "description") {
                Some(d) => d,
                None => {
                    return None;
                },
            };
            Some(PropOption { id, name, color, description })
        },
        _ => None,
    }
}

/// One failing option fails the declared list.
proof fn lemma_options_fail(xs: Seq<JsonView>, i: int)
    requires
        0 <= i < xs.len(),
        spec_decode_prop_option(xs[i]) is None,
    ensures
        spec_decode_options(xs) is None,
    decreases xs.len(),
{
    if i < xs.len() - 1 {
        lemma_options_fail(xs.drop_last(), i);
    }
}

/// Decodes the declared options of a select or status column, in order.
fn decode_options(xs: &Vec<JsonValue>) -> (r: Option<Vec<PropOption>>)
    ensures
        match r {
            Some(options) => spec_decode_options(arr_view(xs@)) == Some(options_view(options@)),
            None => spec_decode_options(arr_view(xs@)) is None,
        },
{
    let ghost views = arr_view(xs@);
    let mut out: Vec<PropOption> = Vec::new();
    let n = xs.len();
    for i in 0..n
        invariant
            n == xs.len(),
            views == arr_view(xs@),
            out@.len() == i,
            spec_decode_options(views.subrange(0, i as int)) == Some(options_view(out@)),
    {
        let ghost prefix = views.subrange(0, i as int);
        let ghost prefix_next = views.subrange(0, i + 1 as int);
        let ghost out_before = out@;
        match decode_prop_option(&xs[i]) {
            Some(o) => {
                let ghost decoded = o@;
                out.push(o);
                proof {
                    assert(prefix_next.drop_last() =~= prefix);
                    assert(options_view(out@) =~= options_view(out_before).push(decoded));
                }
            },
            None => {
                proof {
                    lemma_options_fail(views, i as int);
                }
                return None;
            },
        }
    }
    proof {
        assert(views.subrange(0, n as int) =~= views);
    }
    Some(out)
}

/// The schema descriptor variant of a kind whose declaration carries no
/// metadata this system reads, by tag.
fn plain_type_of_tag(kind: &str) -> (r: Option<PropertyTypeInner>)
    ensures
        match r {
            Some(t) => spec_plain_type_of_tag(kind@) == Some(t@),
            None => spec_plain_type_of_tag(kind@) is None,
        },
{
    if str_is(kind, "checkbox") {
        Some(PropertyTypeInner::Checkbox {  })
    } else if str_is(kind, "created_by") {
        Some(PropertyTypeInner::CreatedBy {  })
    } else if str_is(kind, "created_time") {
        Some(PropertyTypeInner::CreatedTime {  })
    } else if str_is(kind, "date") {
        Some(PropertyTypeInner::Date {  })
    } else if str_is(kind, "email") {
        Some(PropertyTypeInner::Email {  })
    } else if str_is(kind, "files") {
        Some(PropertyTypeInner::Files {  })
    } else if str_is(kind, "formula") {
        Some(PropertyTypeInner::Formula {  })
    } else if str_is(kind, "last_edited_by") {
        Some(PropertyTypeInner::LastEditedBy {  })
    } else if str_is(kind, "last_edited_time") {
        Some(PropertyTypeInner::LastEditedTime {  })
    } else if str_is(kind, "multi_select") {
        Some(PropertyTypeInner::MultiSelect {  })
    } else if str_is(kind, "number") {
        Some(PropertyTypeInner::Number {  })
    } else if str_is(kind, "people") {
        Some(PropertyTypeInner::People {  })
    } else if str_is(kind, "phone_number") {
        Some(PropertyTypeInner::PhoneNumber {  })
    } else if str_is(kind, "relation") {
        Some(PropertyTypeInner::Relation {  })
    } else if str_is(kind, "rich_text") {
        Some(PropertyTypeInner::RichText {  })
    } else if str_is(kind, "rollup") {
        Some(PropertyTypeInner::Rollup {  })
    } else if str_is(kind, "title") {
        Some(PropertyTypeInner::Title {  })
    } else if str_is(kind, "url") {
        Some(PropertyTypeInner::Url {  })
    } else {
        None
    }
}

/// Decodes one read schema column.
pub fn decode_prop_type(j: &JsonValue) -> (r: Option<PropertyType>)
    ensures
        match r {
            Some(t) => spec_decode_prop_type(j@) == Some(t@),
            None => spec_decode_prop_type(j@) is None,
        },
{
    match j {
        JsonValue::Obj(entries) => {
            let id = match req_str(entries, "id") {
                Some(s) => s,
                None => {
                    return None;
                },
            };
            let name = match req_str(entries, "name") {
                Some(s) => s,
                None => {
                    return None;
                },
            };
            let kind = match req_str(entries, "type") {
                Some(s) => s,
                None => {
                    return None;
                },
            };
            let is_select = str_is(kind.as_str(), "select");
            let is_status = str_is(kind.as_str(), "status");
            let inner = if is_select || is_status {
                let options = match obj_lookup(entries, kind.as_str()) {
                    Some(JsonValue::Obj(payload)) => match obj_lookup(payload, "options") {
                        Some(JsonValue::Arr(xs)) => match decode_options(xs) {
                            Some(options) => options,
                            None => {
                                return None;
                            },
                        },
                        _ => {
                            return None;
                        },
                    },
                    _ => {
                        return None;
                    },
                };
                if is_select {
                    PropertyTypeInner::Select { options }
                } else {
                    PropertyTypeInner::Status { options }
                }
            } else {
                match plain_type_of_tag(kind.as_str()) {
                    Some(t) => t,
                    None => {
                        return None;
                    },
                }
            };
            Some(PropertyType { id, name, inner })
        },
        _ => None,
    }
}

/// One failing column fails the schema.
proof fn lemma_schema_entries_fail(entries: Seq<(Seq<char>, JsonView)>, i: int)
    requires
        0 <= i < entries.len(),
        spec_decode_prop_type(entries[i].1) is None,
    ensures
        spec_decode_schema_entries(entries) is None,
    decreases entries.len(),
{
    if i < entries.len() - 1 {
        lemma_schema_entries_fail(entries.drop_last(), i);
    }
}

/// Decodes the schema columns, keyed by name, in wire order.
fn decode_schema_entries(entries: &Vec<(String, JsonValue)>) -> (r: Option<
    Vec<(String, PropertyType)>,
>)
    ensures
        match r {
            Some(out) => spec_decode_schema_entries(obj_view(entries@)) == Some(
                schema_entries_view(out@),
            ),
            None => spec_decode_schema_entries(obj_view(entries@)) is None,
        },
{
    let ghost views = obj_view(entries@);
    let mut out: Vec<(String, PropertyType)> = Vec::new();
    let n = entries.len();
    for i in 0..n
        invariant
            n == entries.len(),
            views == obj_view(entries@),
            out@.len() == i,
            spec_decode_schema_entries(views.subrange(0, i as int)) == Some(
                schema_entries_view(out@),
            ),
    {
        let ghost prefix = views.subrange(0, i as int);
        let ghost prefix_next = views.subrange(0, i + 1 as int);
        let ghost out_before = out@;
        match decode_prop_type(&entries[i].1) {
            Some(t) => {
                let ghost decoded = t@;
                let name = entries[i].0.clone();
                out.push((name, t));
                proof {
                    assert(prefix_next.drop_last() =~= prefix);
                    assert(schema_entries_view(out@) =~= schema_entries_view(out_before).push(
                        (views[i as int].0, decoded),
                    ));
                }
            },
            None => {
                proof {
                    lemma_schema_entries_fail(views, i as int);
                }
                return None;
            },
        }
    }
    proof {
        assert(views.subrange(0, n as int) =~= views);
    }
    Some(out)
}

/// Decodes the destination database: its identifier and its schema.
pub fn decode_database(j: &JsonValue) -> (r: Option<Database>)
    ensures
        match r {
            Some(db) => spec_decode_database(j@) == Some(db@),
            None => spec_decode_database(j@) is None,
        },
{
    match j {
        JsonValue::Obj(entries) => {
            let id = match req_str(entries, "id") {
                Some(s) => s,
                None => {
                    return None;
                },
            };
            let properties = match obj_lookup(entries, "properties") {
                Some(JsonValue::Obj(pentries)) => match decode_schema_entries(pentries) {
                    Some(props) => props,
                    None => {
                        return None;
                    },
                },
                _ => {
                    return None;
                },
            };
            Some(Database { id, properties })
        },
        _ => None,
    }
}

} // verus!

// ---------------------------------------------------------------------------
// The write-then-read round trip. Fields the server populates — an option
// reference's id and color, a title span's plain text — are written empty
// and read back empty; everything else survives unchanged.
// ---------------------------------------------------------------------------

verus! {

/// An option reference with its server-populated fields blanked.
pub open spec fn spec_scrub_option_ref(s: Option<StatusSelectValueView>) -> Option<
    StatusSelectValueView,
> {
    match s {
        None => None,
        Some(v) => Some(
            StatusSelectValueView { id: Seq::empty(), name: v.name, color: Seq::empty() },
        ),
    }
}

/// A title span with its server-rendered plain text blanked.
pub open spec fn spec_scrub_span(t: TitleValueView) -> TitleValueView {
    TitleValueView { text: t.text, plain_text: Seq::empty() }
}

/// A payload with every server-populated field blanked.
pub open spec fn spec_scrub(v: PropertyValueInnerView) -> PropertyValueInnerView {
    match v {
        PropertyValueInnerView::Select(s) => PropertyValueInnerView::Select(
            spec_scrub_option_ref(s),
        ),
        PropertyValueInnerView::Status(s) => PropertyValueInnerView::Status(
            spec_scrub_option_ref(s),
        ),
        PropertyValueInnerView::Title(spans) => PropertyValueInnerView::Title(
            spans.map_values(|t: TitleValueView| spec_scrub_span(t)),
        ),
        _ => v,
    }
}

/// A payload whose date stamps, if any, carry text agreeing with their
/// instants.
pub open spec fn spec_payload_wf(v: PropertyValueInnerView) -> bool {
    match v {
        PropertyValueInnerView::Date(Some(dv)) => dv.wf(),
        _ => true,
    }
}


/// The wire keys and kind tags this module reads are pairwise distinct
/// where a read must tell them apart.
proof fn lemma_wire_literals()
    ensures
        "name"@ != "id"@,
        "name"@ != "color"@,
        "start"@ != "end"@,
        "content"@ != "link"@,
        "text"@ != "plain_text"@,
        "select"@ != "number"@,
        "status"@ != "number"@,
        "status"@ != "select"@,
        "date"@ != "number"@,
        "date"@ != "select"@,
        "date"@ != "status"@,
        "title"@ != "number"@,
        "title"@ != "select"@,
        "title"@ != "status"@,
        "title"@ != "date"@,
{
    reveal_strlit("name");
    reveal_strlit("id");
    reveal_strlit("color");
    reveal_strlit("start");
    reveal_strlit("end");
    reveal_strlit("content");
    reveal_strlit("link");
    reveal_strlit("text");
    reveal_strlit("plain_text");
    reveal_strlit("select");
    reveal_strlit("number");
    reveal_strlit("status");
    reveal_strlit("date");
    reveal_strlit("title");
    assert("name"@.len() == 4);
    assert("id"@.len() == 2);
    assert("color"@.len() == 5);
    assert("start"@.len() == 5);
    assert("end"@.len() == 3);
    assert("content"@.len() == 7);
    assert("link"@.len() == 4);
    assert("text"@.len() == 4);
    assert("plain_text"@.len() == 10);
    assert("select"@.len() == 6);
    assert("number"@.len() == 6);
    assert("status"@.len() == 6);
    assert("date"@.len() == 4);
    assert("title"@.len() == 5);
    assert("select"@[0] != "number"@[0]);
    assert("status"@[0] != "number"@[0]);
    assert("status"@[1] != "select"@[1]);
}

/// An option reference written name-only reads back with the name kept and
/// the server fields empty.
proof fn lemma_option_ref_round_trip(s: Option<StatusSelectValueView>)
    ensures
        spec_decode_option_ref(spec_encode_option_ref(s)) == Some(spec_scrub_option_ref(s)),
{
    lemma_wire_literals();
    match s {
        None => {},
        Some(v) => {
            let entries = seq![("name"@, JsonView::Str(v.name))];
            lemma_obj_get_step(entries, "name"@, 0);
            lemma_obj_get_absent(entries, "id"@);
            lemma_obj_get_absent(entries, "color"@);
        },
    }
}

/// A written date reads back unchanged, as its stamps' text and instants
/// agree.
proof fn lemma_date_round_trip(d: Option<DateValueView>)
    requires
        match d {
            Some(dv) => dv.wf(),
            None => true,
        },
    ensures
        spec_decode_date(spec_encode_date(d)) == Some(d),
{
    lemma_wire_literals();
    match d {
        None => {},
        Some(dv) => {
            let entries = spec_encode_date(d)->Obj_0;
            assert(entries.len() == 2);
            assert(entries[0].0 == "start"@ && entries[0].1 == JsonView::Str(dv.start.text));
            assert(entries[1].0 == "end"@);
            lemma_obj_get_step(entries, "start"@, 0);
            lemma_obj_get_step(entries, "end"@, 1);
            assert(DateStampView { seconds: dv.start.seconds, text: dv.start.text } =~= dv.start);
            match dv.end {
                None => {
                    assert(entries[1].1 == JsonView::Null);
                    assert(DateValueView { start: dv.start, end: None } =~= dv);
                },
                Some(e) => {
                    assert(entries[1].1 == JsonView::Str(e.text));
                    assert(DateStampView { seconds: e.seconds, text: e.text } =~= e);
                    assert(DateValueView { start: dv.start, end: Some(e) } =~= dv);
                },
            }
        },
    }
}

/// A written title span reads back with its text kept and its plain text
/// empty.
proof fn lemma_span_round_trip(t: TitleValueView)
    ensures
        spec_decode_span(spec_encode_span(t)) == Some(spec_scrub_span(t)),
{
    lemma_wire_literals();
    let text_entries = spec_encode_text(t.text)->Obj_0;
    assert(text_entries.len() == 2);
    assert(text_entries[0].0 == "content"@ && text_entries[0].1 == JsonView::Str(t.text.content));
    assert(text_entries[1].0 == "link"@);
    lemma_obj_get_step(text_entries, "content"@, 0);
    lemma_obj_get_step(text_entries, "link"@, 1);
    let entries = spec_encode_span(t)->Obj_0;
    assert(entries.len() == 1);
    assert(entries[0].0 == "text"@ && entries[0].1 == spec_encode_text(t.text));
    lemma_obj_get_step(entries, "text"@, 0);
    lemma_obj_get_absent(entries, "plain_text"@);
    match t.text.link {
        None => {
            assert(text_entries[1].1 == JsonView::Null);
        },
        Some(l) => {
            assert(text_entries[1].1 == JsonView::Str(l));
        },
    }
    assert(TextValueView { content: t.text.content, link: t.text.link } =~= t.text);
}

/// Written title spans read back in order, each with its plain text empty.
proof fn lemma_spans_round_trip(spans: Seq<TitleValueView>)
    ensures
        spec_decode_spans(spans.map_values(|t: TitleValueView| spec_encode_span(t))) == Some(
            spans.map_values(|t: TitleValueView| spec_scrub_span(t)),
        ),
    decreases spans.len(),
{
    let encoded = spans.map_values(|t: TitleValueView| spec_encode_span(t));
    let scrubbed = spans.map_values(|t: TitleValueView| spec_scrub_span(t));
    if spans.len() == 0 {
        assert(encoded =~= Seq::empty());
        assert(scrubbed =~= Seq::empty());
    } else {
        let front = spans.drop_last();
        lemma_spans_round_trip(front);
        lemma_span_round_trip(spans.last());
        assert(encoded.drop_last() =~= front.map_values(
            |t: TitleValueView| spec_encode_span(t),
        ));
        assert(encoded.last() == spec_encode_span(spans.last()));
        assert(scrubbed =~= front.map_values(|t: TitleValueView| spec_scrub_span(t)).push(
            spec_scrub_span(spans.last()),
        ));
    }
}

/// The round trip for every payload kind in active use: encoding a payload
/// and decoding it under its own kind tag yields the payload with its
/// server-populated fields blanked, and nothing else changed.
pub proof fn lemma_value_round_trip(v: PropertyValueInnerView)
    requires
        is_active_kind(v),
        spec_payload_wf(v),
    ensures
        spec_decode_payload(spec_kind_tag(v), spec_encode_payload(v)) == Some(spec_scrub(v)),
{
    lemma_wire_literals();
    match v {
        PropertyValueInnerView::Number(_) => {},
        PropertyValueInnerView::Select(s) => {
            lemma_option_ref_round_trip(s);
        },
        PropertyValueInnerView::Status(s) => {
            lemma_option_ref_round_trip(s);
        },
        PropertyValueInnerView::Date(d) => {
            lemma_date_round_trip(d);
        },
        PropertyValueInnerView::Title(spans) => {
            lemma_spans_round_trip(spans);
        },
        _ => {},
    }
}

} // verus!
