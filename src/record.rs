//! Posts decoded from one line of the dump.
use vstd::prelude::*;
use crate::markup::{
    ascii_of, attribute_view, first_event_of, key_is, read_first_event, AttributeView,
    FirstEvent, FirstEventView, XmlAttribute,
};
use crate::text::{concat, i32_of, join, parse_i32, parse_u32, parse_u8, u32_of, u8_of};

verus! {

/// The role of a post.
#[derive(Clone, Copy, Debug, PartialEq, Eq, Structural)]
pub enum PostKind {
    Question,
    Answer,
    Other,
}

/// The part of a post that depends on its role.
#[derive(Debug)]
pub enum ExclusiveData {
    Question { title: String, accepted_answer_id: Option<u32>, answer_count: u32 },
    Answer { parent_id: u32 },
}

/// One post.
#[derive(Debug)]
pub struct Row {
    pub id: u32,
    pub post_kind: PostKind,
    pub score: i32,
    pub view_count: u32,
    pub body: String,
    pub data: ExclusiveData,
}

/// Mathematical form of [`ExclusiveData`].
pub enum DataView {
    Question { title: Seq<char>, accepted_answer_id: Option<u32>, answer_count: u32 },
    Answer { parent_id: u32 },
}

/// Mathematical form of a [`Row`].
pub struct RowView {
    pub id: u32,
    pub post_kind: PostKind,
    pub score: i32,
    pub view_count: u32,
    pub body: Seq<char>,
    pub data: DataView,
}

impl View for ExclusiveData {
    type V = DataView;

    open spec fn view(&self) -> DataView {
        match self {
            ExclusiveData::Question { title, accepted_answer_id, answer_count } => DataView::Question {
                title: title@,
                accepted_answer_id: *accepted_answer_id,
                answer_count: *answer_count,
            },
            ExclusiveData::Answer { parent_id } => DataView::Answer { parent_id: *parent_id },
        }
    }
}

impl View for Row {
    type V = RowView;

    open spec fn view(&self) -> RowView {
        RowView {
            id: self.id,
            post_kind: self.post_kind,
            score: self.score,
            view_count: self.view_count,
            body: self.body@,
            data: self.data@,
        }
    }
}

/// Mathematical form of an optional row.
pub open spec fn row_view(r: Option<Row>) -> Option<RowView> {
    match r {
        Some(x) => Some(x@),
        None => None,
    }
}

/// The attributes that a row is read from.
#[derive(Clone, Copy, Debug, PartialEq, Eq, Structural)]
pub enum AttrKey {
    Id,
    PostTypeId,
    Score,
    ViewCount,
    AnswerCount,
    Title,
    Body,
    ParentId,
    AcceptedAnswerId,
}

/// The attribute that a local name designates, if any.
pub open spec fn key_of(k: Seq<u8>) -> Option<AttrKey> {
    if k == ascii_of("Id"@) {
        Some(AttrKey::Id)
    } else if k == ascii_of("PostTypeId"@) {
        Some(AttrKey::PostTypeId)
    } else if k == ascii_of("Score"@) {
        Some(AttrKey::Score)
    } else if k == ascii_of("ViewCount"@) {
        Some(AttrKey::ViewCount)
    } else if k == ascii_of("AnswerCount"@) {
        Some(AttrKey::AnswerCount)
    } else if k == ascii_of("Title"@) {
        Some(AttrKey::Title)
    } else if k == ascii_of("Body"@) {
        Some(AttrKey::Body)
    } else if k == ascii_of("ParentId"@) {
        Some(AttrKey::ParentId)
    } else if k == ascii_of("AcceptedAnswerId"@) {
        Some(AttrKey::AcceptedAnswerId)
    } else {
        None
    }
}

/// Classifies an attribute's local name.
pub fn attribute_key(k: &[u8]) -> (r: Option<AttrKey>)
    ensures
        r == key_of(k@),
{
    proof {
        reveal_strlit("Id");
        reveal_strlit("PostTypeId");
        reveal_strlit("Score");
        reveal_strlit("ViewCount");
        reveal_strlit("AnswerCount");
        reveal_strlit("Title");
        reveal_strlit("Body");
        reveal_strlit("ParentId");
        reveal_strlit("AcceptedAnswerId");
    }
    if key_is(k, "Id") {
        Some(AttrKey::Id)
    } else if key_is(k, "PostTypeId") {
        Some(AttrKey::PostTypeId)
    } else if key_is(k, "Score") {
        Some(AttrKey::Score)
    } else if key_is(k, "ViewCount") {
        Some(AttrKey::ViewCount)
    } else if key_is(k, "AnswerCount") {
        Some(AttrKey::AnswerCount)
    } else if key_is(k, "Title") {
        Some(AttrKey::Title)
    } else if key_is(k, "Body") {
        Some(AttrKey::Body)
    } else if key_is(k, "ParentId") {
        Some(AttrKey::ParentId)
    } else if key_is(k, "AcceptedAnswerId") {
        Some(AttrKey::AcceptedAnswerId)
    } else {
        None
    }
}

/// The values gathered from a row's attributes; numbers default to zero,
/// texts to empty, the accepted answer to absent.
pub struct Fields {
    pub id: u32,
    pub post_type_id: u8,
    pub score: i32,
    pub view_count: u32,
    pub answer_count: u32,
    pub title: Seq<char>,
    pub body: Seq<char>,
    pub parent_id: u32,
    pub accepted_answer_id: Option<u32>,
}

/// The values before any attribute is read.
pub open spec fn default_fields() -> Fields {
    Fields {
        id: 0,
        post_type_id: 0,
        score: 0,
        view_count: 0,
        answer_count: 0,
        title: Seq::empty(),
        body: Seq::empty(),
        parent_id: 0,
        accepted_answer_id: None,
    }
}

/// `f` after reading the decoded value `v` of attribute `k`. A number that
/// does not parse leaves its field as it is.
pub open spec fn with_attribute(f: Fields, k: AttrKey, v: Seq<char>) -> Fields {
    match k {
        AttrKey::Id => match u32_of(v) {
            Some(n) => Fields { id: n, ..f },
            None => f,
        },
        AttrKey::PostTypeId => match u8_of(v) {
            Some(n) => Fields { post_type_id: n, ..f },
            None => f,
        },
        AttrKey::Score => match i32_of(v) {
            Some(n) => Fields { score: n, ..f },
            None => f,
        },
        AttrKey::ViewCount => match u32_of(v) {
            Some(n) => Fields { view_count: n, ..f },
            None => f,
        },
        AttrKey::AnswerCount => match u32_of(v) {
            Some(n) => Fields { answer_count: n, ..f },
            None => f,
        },
        AttrKey::Title => Fields { title: v, ..f },
        AttrKey::Body => Fields { body: v, ..f },
        AttrKey::ParentId => match u32_of(v) {
            Some(n) => Fields { parent_id: n, ..f },
            None => f,
        },
        AttrKey::AcceptedAnswerId => match u32_of(v) {
            Some(n) => Fields { accepted_answer_id: Some(n), ..f },
            None => f,
        },
    }
}

/// The values read from a sequence of attributes: unreadable and unknown
/// attributes are passed over; a known attribute whose value could not be
/// decoded spoils the whole row.
pub open spec fn fields_of(attrs: Seq<Option<AttributeView>>) -> Option<Fields>
    decreases attrs.len(),
{
    if attrs.len() == 0 {
        Some(default_fields())
    } else {
        match fields_of(attrs.drop_last()) {
            None => None,
            Some(f) => match attrs.last() {
                None => Some(f),
                Some(a) => match key_of(a.key) {
                    None => Some(f),
                    Some(k) => match a.value {
                        None => None,
                        Some(v) => Some(with_attribute(f, k, v)),
                    },
                },
            },
        }
    }
}

/// The role that a `PostTypeId` stands for.
pub open spec fn kind_of(post_type_id: u8) -> PostKind {
    if post_type_id == 1 {
        PostKind::Question
    } else if post_type_id == 2 {
        PostKind::Answer
    } else {
        PostKind::Other
    }
}

/// The row built from gathered values: a question carries its title,
/// accepted answer and answer count; every other post its parent.
pub open spec fn row_of_fields(f: Fields) -> RowView {
    RowView {
        id: f.id,
        post_kind: kind_of(f.post_type_id),
        score: f.score,
        view_count: f.view_count,
        body: f.body,
        data: if f.post_type_id == 1 {
            DataView::Question {
                title: f.title,
                accepted_answer_id: f.accepted_answer_id,
                answer_count: f.answer_count,
            }
        } else {
            DataView::Answer { parent_id: f.parent_id }
        },
    }
}

/// The row that a line holds, with its texts as decoded from the line.
pub open spec fn parsed_line(line: Seq<char>) -> Option<RowView> {
    match first_event_of(line) {
        FirstEventView::SelfClosing(attrs) => match fields_of(attrs) {
            Some(f) => Some(row_of_fields(f)),
            None => None,
        },
        _ => None,
    }
}

/// Values gathered so far while reading a row's attributes.
struct Gathered {
    id: u32,
    post_type_id: u8,
    score: i32,
    view_count: u32,
    answer_count: u32,
    title: String,
    body: String,
    parent_id: u32,
    accepted_answer_id: Option<u32>,
}

impl View for Gathered {
    type V = Fields;

    closed spec fn view(&self) -> Fields {
        Fields {
            id: self.id,
            post_type_id: self.post_type_id,
            score: self.score,
            view_count: self.view_count,
            answer_count: self.answer_count,
            title: self.title@,
            body: self.body@,
            parent_id: self.parent_id,
            accepted_answer_id: self.accepted_answer_id,
        }
    }
}

impl Gathered {
    fn new() -> (r: Gathered)
        ensures
            r@ == default_fields(),
    {
        Gathered {
            id: 0,
            post_type_id: 0,
            score: 0,
            view_count: 0,
            answer_count: 0,
            title: String::new(),
            body: String::new(),
            parent_id: 0,
            accepted_answer_id: None,
        }
    }

    fn read(&mut self, k: AttrKey, v: &String)
        ensures
            final(self)@ == with_attribute(old(self)@, k, v@),
    {
        match k {
            AttrKey::Id => if let Some(n) = parse_u32(v.as_str()) {
                self.id = n;
            },
            AttrKey::PostTypeId => if let Some(n) = parse_u8(v.as_str()) {
                self.post_type_id = n;
            },
            AttrKey::Score => if let Some(n) = parse_i32(v.as_str()) {
                self.score = n;
            },
            AttrKey::ViewCount => if let Some(n) = parse_u32(v.as_str()) {
                self.view_count = n;
            },
            AttrKey::AnswerCount => if let Some(n) = parse_u32(v.as_str()) {
                self.answer_count = n;
            },
            AttrKey::Title => {
                self.title = v.clone();
            },
            AttrKey::Body => {
                self.body = v.clone();
            },
            AttrKey::ParentId => if let Some(n) = parse_u32(v.as_str()) {
                self.parent_id = n;
            },
            AttrKey::AcceptedAnswerId => if let Some(n) = parse_u32(v.as_str()) {
                self.accepted_answer_id = Some(n);
            },
        }
    }

    fn into_row(self) -> (r: Row)
        ensures
            r@ == row_of_fields(self@),
    {
        let post_kind = if self.post_type_id == 1 {
            PostKind::Question
        } else if self.post_type_id == 2 {
            PostKind::Answer
        } else {
            PostKind::Other
        };
        let data = if self.post_type_id == 1 {
            ExclusiveData::Question {
                title: self.title,
                accepted_answer_id: self.accepted_answer_id,
                answer_count: self.answer_count,
            }
        } else {
            ExclusiveData::Answer { parent_id: self.parent_id }
        };
        Row {
            id: self.id,
            post_kind,
            score: self.score,
            view_count: self.view_count,
            body: self.body,
            data,
        }
    }
}

/// Once a row is spoiled by an undecodable value, later attributes do not
/// mend it.
proof fn lemma_spoiled_row_stays_spoiled(attrs: Seq<Option<AttributeView>>, j: int)
    requires
        0 <= j <= attrs.len(),
        fields_of(attrs.take(j)) is None,
    ensures
        fields_of(attrs) is None,
    decreases attrs.len() - j,
{
    if j < attrs.len() {
        assert(attrs.take(j + 1).drop_last() =~= attrs.take(j));
        lemma_spoiled_row_stays_spoiled(attrs, j + 1);
    } else {
        assert(attrs.take(j) =~= attrs);
    }
}

/// Decodes one line into a row: the first event of the line must be a
/// self-closing element, and every known attribute's value must decode.
/// The texts are kept as decoded; see [`Row::with_text_fragments`].
pub fn parse_row(s: &str) -> (r: Option<Row>)
    ensures
        row_view(r) == parsed_line(s@),
        !s@.contains('<') ==> r is None,
{
    let event = read_first_event(s);
    match event {
        FirstEvent::SelfClosing(attrs) => {
            let ghost views = attrs@.map_values(|a: Option<XmlAttribute>| attribute_view(a));
            let mut g = Gathered::new();
            let mut i: usize = 0;
            while i < attrs.len()
                invariant
                    i <= attrs@.len(),
                    views == attrs@.map_values(|a: Option<XmlAttribute>| attribute_view(a)),
                    first_event_of(s@) == FirstEventView::SelfClosing(views),
                    fields_of(views.take(i as int)) == Some(g@),
                decreases attrs@.len() - i,
            {
                proof {
                    assert(views.take(i as int + 1).drop_last() =~= views.take(i as int));
                }
                match &attrs[i] {
                    None => {},
                    Some(a) => match attribute_key(a.key.as_slice()) {
                        None => {},
                        Some(k) => match &a.value {
                            None => {
                                proof {
                                    lemma_spoiled_row_stays_spoiled(views, i as int + 1);
                                }
                                return None;
                            },
                            Some(v) => g.read(k, v),
                        },
                    },
                }
                i = i + 1;
            }
            assert(views.take(attrs@.len() as int) =~= views);
            Some(g.into_row())
        },
        _ => None,
    }
}

/// `r` with its body, and its title if it is a question, replaced.
pub open spec fn with_texts(r: RowView, body: Seq<char>, title: Seq<char>) -> RowView {
    RowView {
        body,
        data: match r.data {
            DataView::Question { accepted_answer_id, answer_count, .. } => DataView::Question {
                title,
                accepted_answer_id,
                answer_count,
            },
            DataView::Answer { parent_id } => DataView::Answer { parent_id },
        },
        ..r
    }
}

/// Mathematical form of a list of text fragments.
pub open spec fn fragments(parts: Seq<String>) -> Seq<Seq<char>> {
    parts.map_values(|p: String| p@)
}

impl Row {
    /// Replaces the body, and the title of a question, with the plain text
    /// found in them: the fragments are joined with no separator.
    pub fn with_text_fragments(self, body_parts: &Vec<String>, title_parts: &Vec<String>) -> (r: Row)
        ensures
            r@ == with_texts(self@, concat(fragments(body_parts@)), concat(fragments(title_parts@))),
    {
        let body = join(body_parts);
        let data = match self.data {
            ExclusiveData::Question { accepted_answer_id, answer_count, .. } => ExclusiveData::Question {
                title: join(title_parts),
                accepted_answer_id,
                answer_count,
            },
            ExclusiveData::Answer { parent_id } => ExclusiveData::Answer { parent_id },
        };
        Row { body, data, ..self }
    }
}

/// A line whose first event is not a self-closing element holds no row.
pub proof fn lemma_non_element_line_has_no_row(line: Seq<char>)
    requires
        !(first_event_of(line) is SelfClosing),
    ensures
        parsed_line(line) is None,
{
}

/// A row read from a line, with its texts replaced by their plain text, is
/// a question exactly when its payload is a question's, and carries the
/// plain text given.
pub proof fn lemma_kind_agrees_with_payload(line: Seq<char>, body: Seq<char>, title: Seq<char>)
    requires
        parsed_line(line) is Some,
    ensures
        ({
            let r = with_texts(parsed_line(line)->0, body, title);
            &&& (r.post_kind == PostKind::Question) <==> (r.data is Question)
            &&& r.body == body
            &&& r.data matches DataView::Question { title: t, .. } ==> t == title
        }),
{
}

} // verus!
