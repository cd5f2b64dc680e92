use jeopardy::data::{copy_if_filled, load, JeopardyData, Row, RowType};
use jeopardy::game::board::SquareState;

fn row(cat_id: &str, kind: RowType, year: &str, n: usize) -> Row {
    Row {
        row_id: n as u64,
        game_id: 1,
        air_date: format!("{}-01-01", year),
        air_year: year.to_string(),
        row_type: kind,
        cat_id: cat_id.to_string(),
        q_id: format!("q{}", n),
        category: format!("title {}", cat_id),
        category_comm: if cat_id == "c2" { "a comment".to_string() } else { String::new() },
        clue_text: if n % 2 == 0 { format!("clue {}", n) } else { String::new() },
        daily_double_flg: 0,
        answer_text: format!("answer {}", n),
        clue_link: if n % 2 == 1 { format!("link {}", n) } else { String::new() },
    }
}

fn five(cat_id: &str, kind: RowType, year: &str, from: usize) -> Vec<Row> {
    (0..5).map(|i| row(cat_id, kind, year, from + i)).collect()
}

#[test]
fn rows_describe_squares() {
    let even = row("c1", RowType::Jeopardy, "1999", 2).to_square();
    assert_eq!(even.clue.text.as_deref(), Some("clue 2"));
    assert_eq!(even.clue.link, None);
    assert_eq!(even.answer, "answer 2");
    assert_eq!(even.state, SquareState::Normal);
    assert!(!even.is_daily_double);
    let odd = row("c1", RowType::Jeopardy, "1999", 3).to_square();
    assert_eq!(odd.clue.text, None);
    assert_eq!(odd.clue.link.as_deref(), Some("link 3"));
    assert_eq!(copy_if_filled(&String::new()), None);
    assert_eq!(copy_if_filled(&"x".to_string()), Some("x".to_string()));
}

#[test]
fn five_rows_make_a_category() {
    let mut rows = five("c1", RowType::Jeopardy, "1999", 0);
    rows.push(row("f1", RowType::FinalJeopardy, "2001", 100));
    rows.extend(five("c2", RowType::DoubleJeopardy, "1985", 10));
    rows.push(row("f2", RowType::FinalJeopardy, "oops", 101));
    rows.extend(five("c3", RowType::Jeopardy, "2010", 20));
    let data = load(&rows).unwrap();
    assert_eq!(data.categories.len(), 3);
    assert_eq!(data.categories[0].title, "title c1");
    assert_eq!(data.categories[0].commentary, None);
    assert_eq!(data.categories[0].air_year, 1999);
    assert_eq!(data.categories[1].title, "title c2");
    assert_eq!(data.categories[1].commentary.as_deref(), Some("a comment"));
    assert_eq!(data.categories[1].air_year, 1985);
    for r in 0..5 {
        assert_eq!(data.categories[1].squares[r].answer, format!("answer {}", 10 + r));
        assert_eq!(data.categories[2].squares[r].answer, format!("answer {}", 20 + r));
        assert_eq!(data.categories[2].squares[r].state, SquareState::Normal);
    }
    assert_eq!(data.categories[1].squares[0].clue.text.as_deref(), Some("clue 10"));
    assert_eq!(data.categories[1].squares[1].clue.link.as_deref(), Some("link 11"));
    assert_eq!((data.min_year, data.max_year), (1985, 2010));
    assert_eq!(data.final_jeopardy_questions.len(), 2);
    assert_eq!(data.final_jeopardy_questions[0].category, "title f1");
    assert_eq!(data.final_jeopardy_questions[0].answer, "answer 100");
    assert_eq!(data.final_jeopardy_questions[0].clue.text.as_deref(), Some("clue 100"));
    assert_eq!(data.final_jeopardy_questions[1].clue.link.as_deref(), Some("link 101"));
}

#[test]
fn final_rows_may_stand_inside_a_category() {
    let mut rows = five("c1", RowType::Jeopardy, "1999", 0);
    rows.insert(2, row("c1", RowType::FinalJeopardy, "1999", 50));
    let data = load(&rows).unwrap();
    assert_eq!(data.categories.len(), 1);
    assert_eq!(data.final_jeopardy_questions.len(), 1);
}

#[test]
fn no_rows_make_an_empty_database() {
    let data = load(&vec![]).unwrap();
    assert!(data.categories.is_empty() && data.final_jeopardy_questions.is_empty());
    assert_eq!((data.min_year, data.max_year), (u16::MAX, 0));
    let empty = JeopardyData::default();
    assert_eq!((empty.min_year, empty.max_year), (0, 0));
}

#[test]
fn categories_of_another_size_are_refused() {
    let mut short = five("c1", RowType::Jeopardy, "1999", 0);
    short.pop();
    assert!(load(&short).is_none());
    let mut long = five("c1", RowType::Jeopardy, "1999", 0);
    long.extend(five("c1", RowType::Jeopardy, "1999", 5));
    assert!(load(&long).is_none());
    let mut mixed = five("c1", RowType::Jeopardy, "1999", 0);
    mixed[3].cat_id = "c2".to_string();
    assert!(load(&mixed).is_none());
    let mut shifted = five("c1", RowType::Jeopardy, "1999", 0);
    shifted.truncate(4);
    shifted.extend(five("c2", RowType::Jeopardy, "1999", 5));
    shifted.push(row("c3", RowType::Jeopardy, "1999", 10));
    assert!(load(&shifted).is_none());
    let mut again = five("c1", RowType::Jeopardy, "1999", 0);
    again.extend(five("c2", RowType::Jeopardy, "1999", 5));
    again.extend(five("c1", RowType::Jeopardy, "1999", 10));
    assert!(load(&again).is_some());
}

#[test]
fn only_the_first_row_of_a_category_names_its_year() {
    let mut rows = five("c1", RowType::Jeopardy, "1999", 0);
    rows[3].air_year = "none".to_string();
    assert_eq!(load(&rows).unwrap().categories[0].air_year, 1999);
    rows[0].air_year = "none".to_string();
    assert!(load(&rows).is_none());
    rows[0].air_year = "65536".to_string();
    assert!(load(&rows).is_none());
    rows[0].air_year = "65535".to_string();
    assert_eq!(load(&rows).unwrap().max_year, 65535);
    rows[0].air_year = "".to_string();
    assert!(load(&rows).is_none());
}
