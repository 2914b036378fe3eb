use parse_history_xml::csv_text::encode_csv;
use parse_history_xml::engine::{Engine, JoinOutcome, SCORE_THRESHOLD};
use parse_history_xml::record::{parse_row, ExclusiveData, PostKind, Row};
use parse_history_xml::table::Table;
use parse_history_xml::text::join;

const HEAD: [&str; 2] = ["<?xml version=\"1.0\" encoding=\"utf-8\"?>", "<posts>"];

/// Treats the decoded texts of a row as already plain.
fn plain(row: Row) -> Row {
    let body = vec![row.body.clone()];
    let title = match &row.data {
        ExclusiveData::Question { title, .. } => vec![title.clone()],
        ExclusiveData::Answer { .. } => Vec::new(),
    };
    row.with_text_fragments(&body, &title)
}

fn run(lines: &[&str]) -> JoinOutcome {
    let mut engine = Engine::new(SCORE_THRESHOLD);
    for line in HEAD.iter().chain(lines.iter()) {
        if let Some(row) = engine.take_line(line) {
            engine.insert_row(plain(row));
        }
    }
    engine.export()
}

fn triple(o: &JoinOutcome, i: usize) -> (&str, &str, &str) {
    let r = &o.rows[i];
    (r.title.as_str(), r.question.as_str(), r.answer.as_str())
}

const Q1: &str = "  <row Id=\"1\" PostTypeId=\"1\" Score=\"25\" Title=\"How to ask a good question?\" Body=\"Explain your problem clearly.\" />";
const A2: &str = "  <row Id=\"2\" PostTypeId=\"2\" ParentId=\"1\" Score=\"30\" Body=\"Be specific and provide examples.\" />";

#[test]
fn scenario_question_and_answer_give_one_row() {
    let o = run(&[Q1, A2]);
    assert_eq!(o.rows.len(), 1);
    assert_eq!(
        triple(&o, 0),
        ("How to ask a good question?", "Explain your problem clearly.", "Be specific and provide examples.")
    );
    assert_eq!(o.parents_lost, 0);
    assert_eq!(o.unreachable, 0);
}

#[test]
fn scenario_missing_parent_is_counted() {
    let a = "<row Id=\"2\" PostTypeId=\"2\" ParentId=\"99\" Score=\"30\" Body=\"Be specific and provide examples.\" />";
    let o = run(&[a]);
    assert_eq!(o.rows.len(), 0);
    assert_eq!(o.parents_lost, 1);
}

#[test]
fn scenario_low_score_question_loses_its_answer() {
    let q = "<row Id=\"1\" PostTypeId=\"1\" Score=\"5\" Title=\"How to ask a good question?\" Body=\"Explain your problem clearly.\" />";
    let a = "<row Id=\"2\" PostTypeId=\"2\" ParentId=\"1\" Score=\"25\" Body=\"Be specific and provide examples.\" />";
    let o = run(&[q, a]);
    assert_eq!(o.rows.len(), 0);
    assert_eq!(o.parents_lost, 1);
}

#[test]
fn scenario_short_answer_is_skipped() {
    let a = "<row Id=\"2\" PostTypeId=\"2\" ParentId=\"1\" Score=\"30\" Body=\"Yes.\" />";
    let o = run(&[Q1, a]);
    assert_eq!(o.rows.len(), 0);
    assert_eq!(o.parents_lost, 0);
    assert_eq!(o.unreachable, 0);
}

#[test]
fn scenario_declaration_and_wrapper_lines_are_skipped() {
    let o = run(&["<?xml version=\"1.0\"?>", "<posts>", Q1, A2, "</posts>"]);
    assert_eq!(o.rows.len(), 1);
    assert_eq!(o.parents_lost, 0);
    assert_eq!(o.unreachable, 0);
    let mut engine = Engine::new(SCORE_THRESHOLD);
    engine.take_line(HEAD[0]);
    engine.take_line(HEAD[1]);
    assert!(engine.take_line("<?xml version=\"1.0\"?>").is_none());
    assert!(engine.take_line("<posts>").is_none());
}

#[test]
fn short_title_is_skipped() {
    let q = "<row Id=\"1\" PostTypeId=\"1\" Score=\"25\" Title=\"Why?\" Body=\"Explain your problem clearly.\" />";
    let o = run(&[q, A2]);
    assert_eq!(o.rows.len(), 0);
    assert_eq!(o.parents_lost, 0);
}

#[test]
fn title_of_ten_characters_passes_the_gate() {
    let q = "<row Id=\"1\" PostTypeId=\"1\" Score=\"25\" Title=\"abcdefghij\" Body=\"q\" />";
    let a = "<row Id=\"2\" PostTypeId=\"2\" ParentId=\"1\" Score=\"20\" Body=\"0123456789\" />";
    let o = run(&[q, a]);
    assert_eq!(o.rows.len(), 1);
    assert_eq!(triple(&o, 0), ("abcdefghij", "q", "0123456789"));
}

#[test]
fn fields_are_trimmed() {
    let q = "<row Id=\"1\" PostTypeId=\"1\" Score=\"25\" Title=\"  A padded title  \" Body=\" question body \" />";
    let a = "<row Id=\"2\" PostTypeId=\"2\" ParentId=\"1\" Score=\"25\" Body=\"\tanswer body here\n\" />";
    let o = run(&[q, a]);
    assert_eq!(o.rows.len(), 1);
    assert_eq!(triple(&o, 0), ("A padded title", "question body", "answer body here"));
}

#[test]
fn first_two_lines_are_never_rows() {
    let mut engine = Engine::new(SCORE_THRESHOLD);
    assert!(engine.take_line(Q1).is_none());
    assert!(engine.take_line(A2).is_none());
    assert!(engine.take_line(Q1).is_some());
}

#[test]
fn other_kinds_are_dropped() {
    let w = "<row Id=\"3\" PostTypeId=\"5\" ParentId=\"1\" Score=\"90\" Body=\"A wiki excerpt of some length.\" />";
    let o = run(&[Q1, w]);
    assert_eq!(o.rows.len(), 0);
    assert_eq!(o.parents_lost, 0);
    assert_eq!(o.unreachable, 0);
}

#[test]
fn later_duplicate_id_overwrites() {
    let a1 = "<row Id=\"2\" PostTypeId=\"2\" ParentId=\"1\" Score=\"30\" Body=\"The first answer text.\" />";
    let a2 = "<row Id=\"2\" PostTypeId=\"2\" ParentId=\"1\" Score=\"40\" Body=\"The second answer text.\" />";
    let o = run(&[Q1, a1, a2]);
    assert_eq!(o.rows.len(), 1);
    assert_eq!(o.rows[0].answer, "The second answer text.");
}

#[test]
fn rows_follow_arrival_order_of_answers() {
    let a3 = "<row Id=\"3\" PostTypeId=\"2\" ParentId=\"1\" Score=\"30\" Body=\"Answer number three.\" />";
    let a1 = "<row Id=\"7\" PostTypeId=\"2\" ParentId=\"1\" Score=\"30\" Body=\"Answer number seven.\" />";
    let o = run(&[Q1, a3, a1]);
    assert_eq!(o.rows.len(), 2);
    assert_eq!(o.rows[0].answer, "Answer number three.");
    assert_eq!(o.rows[1].answer, "Answer number seven.");
}

#[test]
fn rerun_gives_identical_rows() {
    let lines = [Q1, A2, "<row Id=\"4\" PostTypeId=\"2\" ParentId=\"1\" Score=\"50\" Body=\"Another fine answer.\" />"];
    let first = run(&lines);
    let second = run(&lines);
    assert_eq!(first.rows.len(), second.rows.len());
    for i in 0..first.rows.len() {
        assert_eq!(triple(&first, i), triple(&second, i));
    }
    assert_eq!(first.parents_lost, second.parents_lost);
}

#[test]
fn low_score_rows_stay_out_of_tables() {
    let q = "<row Id=\"1\" PostTypeId=\"1\" Score=\"19\" Title=\"How to ask a good question?\" Body=\"Explain your problem clearly.\" />";
    let a = "<row Id=\"2\" PostTypeId=\"2\" ParentId=\"1\" Score=\"19\" Body=\"Be specific and provide examples.\" />";
    let o = run(&[q, a]);
    assert_eq!(o.rows.len(), 0);
    assert_eq!(o.parents_lost, 0);
}

#[test]
fn mismatched_payload_is_counted_unreachable() {
    let mut engine = Engine::new(SCORE_THRESHOLD);
    let row = Row {
        id: 5,
        post_kind: PostKind::Answer,
        score: 50,
        view_count: 0,
        body: "An answer with a question payload.".to_string(),
        data: ExclusiveData::Question { title: "Some title here".to_string(), accepted_answer_id: None, answer_count: 0 },
    };
    engine.insert_row(row);
    let o = engine.export();
    assert_eq!(o.rows.len(), 0);
    assert_eq!(o.unreachable, 1);
    assert_eq!(o.parents_lost, 0);
}

#[test]
fn parse_row_reads_every_known_attribute() {
    let line = "  <row Id=\"10\" PostTypeId=\"1\" AcceptedAnswerId=\"12\" Score=\"-3\" ViewCount=\"450\" Body=\"&lt;p&gt;Hi &amp; bye&lt;/p&gt;\" Title=\"T &quot;x&quot;\" AnswerCount=\"4\" Extra=\"ignored\" />";
    let row = parse_row(line).unwrap();
    assert_eq!(row.id, 10);
    assert_eq!(row.post_kind, PostKind::Question);
    assert_eq!(row.score, -3);
    assert_eq!(row.view_count, 450);
    assert_eq!(row.body, "<p>Hi & bye</p>");
    match row.data {
        ExclusiveData::Question { title, accepted_answer_id, answer_count } => {
            assert_eq!(title, "T \"x\"");
            assert_eq!(accepted_answer_id, Some(12));
            assert_eq!(answer_count, 4);
        }
        ExclusiveData::Answer { .. } => panic!("expected a question"),
    }
}

#[test]
fn parse_row_answer_payload() {
    let row = parse_row(A2).unwrap();
    assert_eq!(row.post_kind, PostKind::Answer);
    match row.data {
        ExclusiveData::Answer { parent_id } => assert_eq!(parent_id, 1),
        ExclusiveData::Question { .. } => panic!("expected an answer"),
    }
}

#[test]
fn parse_row_other_kind_has_answer_payload() {
    let row = parse_row("<row Id=\"8\" PostTypeId=\"4\" Score=\"1\" />").unwrap();
    assert_eq!(row.post_kind, PostKind::Other);
    assert!(matches!(row.data, ExclusiveData::Answer { parent_id: 0 }));
}

#[test]
fn parse_row_missing_attributes_default() {
    let row = parse_row("<row />").unwrap();
    assert_eq!(row.id, 0);
    assert_eq!(row.score, 0);
    assert_eq!(row.body, "");
    assert_eq!(row.post_kind, PostKind::Other);
}

#[test]
fn parse_row_unparsable_number_falls_back() {
    let row = parse_row("<row Id=\"7\" Score=\"lots\" ViewCount=\"-1\" PostTypeId=\"1\" AcceptedAnswerId=\"none\" />").unwrap();
    assert_eq!(row.id, 7);
    assert_eq!(row.score, 0);
    assert_eq!(row.view_count, 0);
    match row.data {
        ExclusiveData::Question { accepted_answer_id, .. } => assert_eq!(accepted_answer_id, None),
        ExclusiveData::Answer { .. } => panic!("expected a question"),
    }
}

#[test]
fn parse_row_bad_entity_spoils_row() {
    assert!(parse_row("<row Id=\"7\" Body=\"a &bogus; b\" />").is_none());
}

#[test]
fn parse_row_bad_entity_in_unknown_attribute_is_ignored() {
    assert!(parse_row("<row Id=\"7\" Other=\"a &bogus; b\" />").is_some());
}

#[test]
fn parse_row_rejects_non_elements() {
    assert!(parse_row("").is_none());
    assert!(parse_row("plain text, no markup").is_none());
    assert!(parse_row("<?xml version=\"1.0\"?>").is_none());
    assert!(parse_row("<posts>").is_none());
    assert!(parse_row("</posts>").is_none());
    assert!(parse_row("<!-- note -->").is_none());
}

#[test]
fn namespaced_attribute_is_read_by_local_name() {
    let row = parse_row("<row a=\"1\" ns:Id=\"2\"/>").unwrap();
    assert_eq!(row.id, 2);
}

#[test]
fn text_fragments_are_joined() {
    let row = parse_row(Q1).unwrap();
    let row = row.with_text_fragments(
        &vec!["Hello".to_string(), "World!".to_string()],
        &vec!["A ".to_string(), "title".to_string()],
    );
    assert_eq!(row.body, "HelloWorld!");
    match row.data {
        ExclusiveData::Question { title, .. } => assert_eq!(title, "A title"),
        ExclusiveData::Answer { .. } => panic!("expected a question"),
    }
}

#[test]
fn join_concatenates() {
    assert_eq!(join(&vec![]), "");
    assert_eq!(join(&vec!["ab".to_string(), "".to_string(), "c".to_string()]), "abc");
}

fn id_of(value: &str) -> u32 {
    parse_row(&format!("<row Id=\"{value}\" />")).unwrap().id
}

fn score_of(value: &str) -> i32 {
    parse_row(&format!("<row Score=\"{value}\" />")).unwrap().score
}

fn kind_of(value: &str) -> PostKind {
    parse_row(&format!("<row PostTypeId=\"{value}\" />")).unwrap().post_kind
}

#[test]
fn numbers_parse_as_documented() {
    assert_eq!(id_of("42"), 42);
    assert_eq!(id_of("+7"), 7);
    assert_eq!(id_of("-7"), 0);
    assert_eq!(id_of("4294967295"), u32::MAX);
    assert_eq!(id_of("4294967296"), 0);
    assert_eq!(id_of(""), 0);
    assert_eq!(kind_of("2"), PostKind::Answer);
    assert_eq!(kind_of("257"), PostKind::Other);
    assert_eq!(score_of("-2147483648"), i32::MIN);
    assert_eq!(score_of(" 5"), 0);
}

#[test]
fn trim_removes_unicode_whitespace() {
    let q = "<row Id=\"1\" PostTypeId=\"1\" Score=\"25\" Title=\"\u{3000} a title b \u{a0}\" Body=\"   \" />";
    let o = run(&[q, A2]);
    assert_eq!(o.rows.len(), 1);
    assert_eq!(triple(&o, 0), ("a title b", "", "Be specific and provide examples."));
}

#[test]
fn table_keeps_first_arrival_order() {
    let mut t = Table::new();
    t.insert(parse_row(A2).unwrap());
    t.insert(parse_row(Q1).unwrap());
    t.insert(parse_row(A2).unwrap());
    assert_eq!(t.len(), 2);
    assert_eq!(t.id_at(0), 2);
    assert_eq!(t.id_at(1), 1);
    assert_eq!(t.get(1).unwrap().id, 1);
    assert!(t.get(3).is_none());
}

#[test]
fn csv_document_has_header_and_rows() {
    let o = run(&[Q1, A2]);
    let bytes = encode_csv(&o.rows);
    assert_eq!(
        String::from_utf8(bytes).unwrap(),
        "title,question,answer\nHow to ask a good question?,Explain your problem clearly.,Be specific and provide examples.\n"
    );
}

#[test]
fn csv_quotes_commas_and_quotes() {
    let q = "<row Id=\"1\" PostTypeId=\"1\" Score=\"25\" Title=\"Commas, and &quot;quotes&quot;\" Body=\"x\" />";
    let a = "<row Id=\"2\" PostTypeId=\"2\" ParentId=\"1\" Score=\"25\" Body=\"Line one\nline two\" />";
    let o = run(&[q, a]);
    let bytes = encode_csv(&o.rows);
    assert_eq!(
        String::from_utf8(bytes).unwrap(),
        "title,question,answer\n\"Commas, and \"\"quotes\"\"\",x,\"Line one\nline two\"\n"
    );
}

#[test]
fn csv_of_no_rows_is_header_only() {
    let bytes = encode_csv(&Vec::new());
    assert_eq!(bytes, b"title,question,answer\n".to_vec());
}
