//! Routing rows into the question and answer tables, and joining each
//! answer to its question.
use vstd::prelude::*;
use crate::record::{parse_row, parsed_line, row_view, DataView, ExclusiveData, PostKind, Row, RowView};
use crate::table::{empty_table, lemma_insert_keeps_table_wf, table_insert, table_wf, Table, TableView};
use crate::text::{trim, trimmed};

verus! {

/// The score that a post needs to be kept.
pub const SCORE_THRESHOLD: i32 = 20;

/// The number of lines at the head of the input that are never rows.
pub const HEADER_LINES: u8 = 2;

/// The least number of characters of a title and of an answer body for a
/// pair to be exported.
pub const MIN_TEXT_LEN: usize = 10;

/// One exported triple.
#[derive(Debug)]
pub struct OutputRow {
    pub title: String,
    pub question: String,
    pub answer: String,
}

/// Mathematical form of an [`OutputRow`].
pub struct OutputView {
    pub title: Seq<char>,
    pub question: Seq<char>,
    pub answer: Seq<char>,
}

impl View for OutputRow {
    type V = OutputView;

    open spec fn view(&self) -> OutputView {
        OutputView { title: self.title@, question: self.question@, answer: self.answer@ }
    }
}

/// What the join makes of the answers: the rows, in the answer table's walk
/// order, and how many answers found no parent and how many held a payload
/// of the wrong kind.
#[derive(Debug)]
pub struct JoinOutcome {
    pub rows: Vec<OutputRow>,
    pub parents_lost: usize,
    pub unreachable: usize,
}

/// Mathematical form of a [`JoinOutcome`].
pub struct JoinView {
    pub rows: Seq<OutputView>,
    pub parents_lost: nat,
    pub unreachable: nat,
}

impl View for JoinOutcome {
    type V = JoinView;

    open spec fn view(&self) -> JoinView {
        JoinView {
            rows: self.rows@.map_values(|r: OutputRow| r@),
            parents_lost: self.parents_lost as nat,
            unreachable: self.unreachable as nat,
        }
    }
}

/// The state of a run: the threshold, how many header lines were passed
/// over, and the two tables.
pub struct Engine {
    threshold: i32,
    lines_seen: u8,
    questions: Table,
    answers: Table,
}

/// Mathematical form of an [`Engine`].
pub struct EngineView {
    pub threshold: i32,
    pub lines_seen: nat,
    pub questions: TableView,
    pub answers: TableView,
}

impl View for Engine {
    type V = EngineView;

    closed spec fn view(&self) -> EngineView {
        EngineView {
            threshold: self.threshold,
            lines_seen: self.lines_seen as nat,
            questions: self.questions@,
            answers: self.answers@,
        }
    }
}

/// The state of a run: both tables well formed, every row in them at or
/// above the threshold and in the table of its own kind.
pub open spec fn engine_wf(e: EngineView) -> bool {
    &&& e.lines_seen <= HEADER_LINES
    &&& table_wf(e.questions)
    &&& table_wf(e.answers)
    &&& forall|k: u32| #[trigger] e.questions.entries.contains_key(k)
        ==> e.questions.entries[k].score >= e.threshold
            && e.questions.entries[k].post_kind == PostKind::Question
    &&& forall|k: u32| #[trigger] e.answers.entries.contains_key(k)
        ==> e.answers.entries[k].score >= e.threshold
            && e.answers.entries[k].post_kind == PostKind::Answer
}

/// A fresh run.
pub open spec fn fresh(threshold: i32) -> EngineView {
    EngineView { threshold, lines_seen: 0, questions: empty_table(), answers: empty_table() }
}

/// The run after offering it `r`: a row below the threshold, or of neither
/// role, is dropped; otherwise it is filed in the table of its role.
pub open spec fn route(e: EngineView, r: RowView) -> EngineView {
    if r.score < e.threshold {
        e
    } else {
        match r.post_kind {
            PostKind::Question => EngineView { questions: table_insert(e.questions, r), ..e },
            PostKind::Answer => EngineView { answers: table_insert(e.answers, r), ..e },
            PostKind::Other => e,
        }
    }
}

/// The run after offering it every row of `rows` in turn.
pub open spec fn route_all(e: EngineView, rows: Seq<RowView>) -> EngineView
    decreases rows.len(),
{
    if rows.len() == 0 {
        e
    } else {
        route(route_all(e, rows.drop_last()), rows.last())
    }
}

/// What becomes of one answer in the join.
pub enum PairOutcome {
    /// The pair is exported as this row.
    Exported(OutputView),
    /// The parent is not in the question table.
    ParentLost,
    /// A payload of the wrong kind was met.
    Unreachable,
    /// The title or the answer body is too short.
    TooShort,
}

/// What becomes of the answer filed under `id`.
pub open spec fn pair_outcome(e: EngineView, id: u32) -> PairOutcome {
    let a = e.answers.entries[id];
    match a.data {
        DataView::Question { .. } => PairOutcome::Unreachable,
        DataView::Answer { parent_id } => if !e.questions.entries.contains_key(parent_id) {
            PairOutcome::ParentLost
        } else {
            let q = e.questions.entries[parent_id];
            match q.data {
                DataView::Answer { .. } => PairOutcome::Unreachable,
                DataView::Question { title, .. } => if title.len() < MIN_TEXT_LEN
                    || a.body.len() < MIN_TEXT_LEN {
                    PairOutcome::TooShort
                } else {
                    PairOutcome::Exported(
                        OutputView {
                            title: trimmed(title),
                            question: trimmed(q.body),
                            answer: trimmed(a.body),
                        },
                    )
                },
            }
        },
    }
}

/// The exported row for the answer filed under `id`, if any.
pub open spec fn exported(e: EngineView, id: u32) -> Option<OutputView> {
    match pair_outcome(e, id) {
        PairOutcome::Exported(o) => Some(o),
        _ => None,
    }
}

/// Whether the answer filed under `id` lost its parent.
pub open spec fn lost(e: EngineView, id: u32) -> bool {
    pair_outcome(e, id) is ParentLost
}

/// Whether the answer filed under `id` met a payload of the wrong kind.
pub open spec fn unreachable(e: EngineView, id: u32) -> bool {
    pair_outcome(e, id) is Unreachable
}

/// The join of the first `n` answers of the walk order.
pub open spec fn join_prefix(e: EngineView, n: int) -> JoinView {
    let ids = e.answers.order.take(n);
    JoinView {
        rows: ids.filter_map(|id: u32| exported(e, id)),
        parents_lost: ids.filter(|id: u32| lost(e, id)).len(),
        unreachable: ids.filter(|id: u32| unreachable(e, id)).len(),
    }
}

/// The join of all answers.
pub open spec fn join_view(e: EngineView) -> JoinView {
    join_prefix(e, e.answers.order.len() as int)
}

impl Engine {
    /// A fresh run with the given score threshold.
    pub fn new(threshold: i32) -> (e: Engine)
        ensures
            e@ == fresh(threshold),
            engine_wf(e@),
    {
        Engine { threshold, lines_seen: 0, questions: Table::new(), answers: Table::new() }
    }

    /// Offers `row` to the run: it is kept, in the table of its role, only
    /// if its score reaches the threshold and it is a question or an answer.
    pub fn insert_row(&mut self, row: Row)
        requires
            engine_wf(old(self)@),
        ensures
            final(self)@ == route(old(self)@, row@),
            engine_wf(final(self)@),
    {
        proof {
            lemma_insert_keeps_table_wf(self@.questions, row@);
            lemma_insert_keeps_table_wf(self@.answers, row@);
        }
        if row.score < self.threshold {
            return;
        }
        match row.post_kind {
            PostKind::Question => self.questions.insert(row),
            PostKind::Answer => self.answers.insert(row),
            PostKind::Other => {},
        }
    }

    /// Takes the next input line: a header line is passed over; any other
    /// line yields the row it holds, if any, for the caller to finish and
    /// hand to [`Engine::insert_row`].
    pub fn take_line(&mut self, line: &str) -> (r: Option<Row>)
        requires
            engine_wf(old(self)@),
        ensures
            final(self)@ == after_line(old(self)@),
            row_view(r) == line_row(old(self)@, line@),
            engine_wf(final(self)@),
            !line@.contains('<') ==> r is None,
    {
        if self.lines_seen < HEADER_LINES {
            self.lines_seen = self.lines_seen + 1;
            None
        } else {
            parse_row(line)
        }
    }

    /// Joins every answer, in walk order, to its question.
    pub fn export(&self) -> (r: JoinOutcome)
        requires
            engine_wf(self@),
        ensures
            r@ == join_view(self@),
    {
        let ghost e = self@;
        let ghost order = e.answers.order;
        let mut rows: Vec<OutputRow> = Vec::new();
        let mut parents_lost: usize = 0;
        let mut unreachable_seen: usize = 0;
        let n = self.answers.len();
        let mut i: usize = 0;
        while i < n
            invariant
                e == self@,
                engine_wf(e),
                order == e.answers.order,
                n == order.len(),
                i <= n,
                parents_lost <= i,
                unreachable_seen <= i,
                rows@.map_values(|r: OutputRow| r@) == join_prefix(e, i as int).rows,
                parents_lost == join_prefix(e, i as int).parents_lost,
                unreachable_seen == join_prefix(e, i as int).unreachable,
            decreases n - i,
        {
            let id = self.answers.id_at(i);
            proof {
                reveal(Seq::filter);
                let ids = order.take(i as int + 1);
                assert(ids.drop_last() =~= order.take(i as int));
                assert(ids.last() == id);
                assert(order.contains(id));
            }
            let ghost before = rows@.map_values(|r: OutputRow| r@);
            match self.answers.get(id) {
                None => {},
                Some(a) => match &a.data {
                    ExclusiveData::Question { .. } => {
                        unreachable_seen = unreachable_seen + 1;
                    },
                    ExclusiveData::Answer { parent_id } => match self.questions.get(*parent_id) {
                        None => {
                            parents_lost = parents_lost + 1;
                        },
                        Some(q) => match &q.data {
                            ExclusiveData::Answer { .. } => {
                                unreachable_seen = unreachable_seen + 1;
                            },
                            ExclusiveData::Question { title, .. } => {
                                if title.as_str().unicode_len() >= MIN_TEXT_LEN
                                    && a.body.as_str().unicode_len() >= MIN_TEXT_LEN {
                                    let row = OutputRow {
                                        title: trim(title.as_str()),
                                        question: trim(q.body.as_str()),
                                        answer: trim(a.body.as_str()),
                                    };
                                    rows.push(row);
                                    assert(rows@.map_values(|r: OutputRow| r@) =~= before.push(row@));
                                }
                            },
                        },
                    },
                },
            }
            i = i + 1;
        }
        assert(order.take(n as int) =~= order);
        JoinOutcome { rows, parents_lost, unreachable: unreachable_seen }
    }
}

/// The run after taking one line.
pub open spec fn after_line(e: EngineView) -> EngineView {
    if e.lines_seen < HEADER_LINES {
        EngineView { lines_seen: e.lines_seen + 1, ..e }
    } else {
        e
    }
}

/// The row that taking `line` yields.
pub open spec fn line_row(e: EngineView, line: Seq<char>) -> Option<RowView> {
    if e.lines_seen < HEADER_LINES {
        None
    } else {
        parsed_line(line)
    }
}

/// Routing a row keeps a run well formed.
pub proof fn lemma_route_keeps_wf(e: EngineView, r: RowView)
    requires
        engine_wf(e),
    ensures
        engine_wf(route(e, r)),
{
    lemma_insert_keeps_table_wf(e.questions, r);
    lemma_insert_keeps_table_wf(e.answers, r);
}

/// A row below the threshold never enters either table: offering it leaves
/// the run as it was, and after any stream of rows every row held in
/// either table has a score at or above the threshold.
pub proof fn lemma_low_score_never_stored(e: EngineView, r: RowView, rows: Seq<RowView>)
    requires
        engine_wf(e),
    ensures
        r.score < e.threshold ==> route(e, r) == e,
        engine_wf(route_all(e, rows)),
        route_all(e, rows).threshold == e.threshold,
        forall|k: u32| #[trigger] route_all(e, rows).questions.entries.contains_key(k)
            ==> route_all(e, rows).questions.entries[k].score >= e.threshold,
        forall|k: u32| #[trigger] route_all(e, rows).answers.entries.contains_key(k)
            ==> route_all(e, rows).answers.entries[k].score >= e.threshold,
    decreases rows.len(),
{
    if rows.len() > 0 {
        lemma_low_score_never_stored(e, r, rows.drop_last());
        lemma_route_keeps_wf(route_all(e, rows.drop_last()), rows.last());
    }
}

/// Keeping the ids that export a row, from a sequence without repeats,
/// repeats none.
proof fn lemma_exported_ids_distinct(e: EngineView, ids: Seq<u32>)
    requires
        ids.no_duplicates(),
    ensures
        ids.filter(|id: u32| exported(e, id) is Some).no_duplicates(),
    decreases ids.len(),
{
    reveal(Seq::filter);
    if ids.len() > 0 {
        let p = |id: u32| exported(e, id) is Some;
        let rest = ids.drop_last();
        assert(rest.no_duplicates());
        lemma_exported_ids_distinct(e, rest);
        if rest.filter(p).contains(ids.last()) {
            rest.lemma_filter_contains_rev(p, ids.last());
            let j = choose|j: int| 0 <= j < rest.len() && rest[j] == ids.last();
            assert(ids[j] == ids[ids.len() - 1]);
        }
    }
}

/// The rows exported from `ids` stand one for one, in order, for the ids
/// that export a row.
proof fn lemma_rows_follow_ids(e: EngineView, ids: Seq<u32>)
    ensures
        ({
            let kept = ids.filter(|id: u32| exported(e, id) is Some);
            let rows = ids.filter_map(|id: u32| exported(e, id));
            &&& rows.len() == kept.len()
            &&& forall|j: int| 0 <= j < kept.len() ==> Some(#[trigger] rows[j]) == exported(e, kept[j])
        }),
    decreases ids.len(),
{
    reveal(Seq::filter);
    if ids.len() > 0 {
        lemma_rows_follow_ids(e, ids.drop_last());
    }
}

/// Join completeness: every answer held whose parent question is held and
/// whose title and body are long enough gives exactly one row, with the
/// title, question body and answer body trimmed; the rows follow, one for
/// one and in walk order, the answer ids that export, and no id repeats.
pub proof fn lemma_join_complete(e: EngineView)
    requires
        engine_wf(e),
    ensures
        ({
            let kept = e.answers.order.filter(|id: u32| exported(e, id) is Some);
            &&& kept.no_duplicates()
            &&& forall|id: u32| #[trigger] e.answers.entries.contains_key(id) && exported(e, id) is Some
                ==> kept.contains(id)
            &&& join_view(e).rows.len() == kept.len()
            &&& forall|j: int| 0 <= j < kept.len() ==> Some(#[trigger] join_view(e).rows[j]) == exported(e, kept[j])
        }),
{
    let order = e.answers.order;
    let p = |id: u32| exported(e, id) is Some;
    assert(order.take(order.len() as int) =~= order);
    lemma_exported_ids_distinct(e, order);
    lemma_rows_follow_ids(e, order);
    assert forall|id: u32| #[trigger] e.answers.entries.contains_key(id) && exported(e, id) is Some
        implies order.filter(p).contains(id) by {
        assert(order.contains(id));
        let j = choose|j: int| 0 <= j < order.len() && order[j] == id;
        order.lemma_filter_contains(p, j);
    }
}

/// The join reads the two tables alone: runs whose question and answer
/// tables are equal, whatever their threshold or header count, export the
/// same rows in the same order and the same counters.
pub proof fn lemma_join_depends_on_tables_only(e1: EngineView, e2: EngineView)
    requires
        e1.questions == e2.questions,
        e1.answers == e2.answers,
    ensures
        join_view(e1) == join_view(e2),
{
    assert((|id: u32| exported(e1, id)) =~= (|id: u32| exported(e2, id)));
    assert((|id: u32| lost(e1, id)) =~= (|id: u32| lost(e2, id)));
    assert((|id: u32| unreachable(e1, id)) =~= (|id: u32| unreachable(e2, id)));
}

/// Running twice over the same stream of rows, from fresh runs with the
/// same threshold, gives the same join: the same rows in the same order,
/// and the same counters. The walk order of the answer table is the order
/// in which ids first arrived, so nothing depends on hashing.
pub proof fn lemma_rerun_same_join(threshold: i32, first: Seq<RowView>, second: Seq<RowView>)
    requires
        first == second,
    ensures
        join_view(route_all(fresh(threshold), first)) == join_view(route_all(fresh(threshold), second)),
{
    lemma_join_depends_on_tables_only(route_all(fresh(threshold), first), route_all(fresh(threshold), second));
}

} // verus!
