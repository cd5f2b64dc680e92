use vstd::prelude::*;

use crate::game::board::{Category, Clue, Square, SquareState};
use crate::rng::{after_draw, choose_with, drawn_position};
use crate::text::text_eq;

verus! {

/// A question for the final round.
#[derive(Debug)]
pub struct FinalJeopardyQuestion {
    pub category: String,
    pub clue: Clue,
    pub answer: String,
}

impl Clone for FinalJeopardyQuestion {
    fn clone(&self) -> (copy: Self)
        ensures
            copy == *self,
    {
        FinalJeopardyQuestion {
            category: self.category.clone(),
            clue: self.clue.clone(),
            answer: self.answer.clone(),
        }
    }
}

/// Everything the question database holds: the categories that boards are
/// drawn from, the questions for the final round, and the first and the last
/// year in which any of the categories was aired.
#[derive(Debug)]
pub struct JeopardyData {
    pub categories: Vec<Category>,
    pub final_jeopardy_questions: Vec<FinalJeopardyQuestion>,
    pub min_year: u16,
    pub max_year: u16,
}

impl Default for JeopardyData {
    fn default() -> (data: Self)
        ensures
            data.categories@.len() == 0,
            data.final_jeopardy_questions@.len() == 0,
            data.min_year == 0,
            data.max_year == 0,
    {
        JeopardyData {
            categories: Vec::new(),
            final_jeopardy_questions: Vec::new(),
            min_year: 0,
            max_year: 0,
        }
    }
}


/// The generator `rng` after it has drawn `count` times among `length`
/// items.
pub open spec fn after_draws(rng: rand_chacha::ChaCha20Rng, length: nat, count: nat) -> rand_chacha::ChaCha20Rng
    decreases count,
{
    if count == 0 {
        rng
    } else {
        after_draw(after_draws(rng, length, (count - 1) as nat), length)
    }
}

/// The position that the generator `rng` draws among `length` items after
/// `before` earlier draws among as many.
pub open spec fn position_of_draw(rng: rand_chacha::ChaCha20Rng, length: nat, before: nat) -> nat {
    drawn_position(after_draws(rng, length, before), length)
}

/// Whether `item` is what the generator `rng` draws from `pool` after
/// `before` earlier draws from it.
pub open spec fn is_draw<T>(pool: Seq<T>, rng: rand_chacha::ChaCha20Rng, before: nat, item: T) -> bool {
    let position = position_of_draw(rng, pool.len(), before);
    position < pool.len() && item == pool[position as int]
}

impl JeopardyData {
    /// A copy of one category of the database, drawn with `rng`.
    pub fn get_random_category(&self, rng: &mut rand_chacha::ChaCha20Rng) -> (category: Category)
        requires
            self.categories@.len() > 0,
        ensures
            drawn_position(*old(rng), self.categories@.len()) < self.categories@.len(),
            category == self.categories@[drawn_position(*old(rng), self.categories@.len()) as int],
            *final(rng) == after_draw(*old(rng), self.categories@.len()),
    {
        match choose_with(rng, &self.categories) {
            Some(category) => category.clone(),
            None => vstd::pervasive::unreached(),
        }
    }

    /// Copies of `count` categories of the database, each drawn with `rng`
    /// on its own, so that one category may come more than once.
    pub fn get_random_categories(&self, rng: &mut rand_chacha::ChaCha20Rng, count: usize) -> (drawn:
        Vec<Category>)
        requires
            count > 0 ==> self.categories@.len() > 0,
        ensures
            drawn@.len() == count,
            forall|i: int|
                0 <= i < count ==> is_draw(
                    self.categories@,
                    *old(rng),
                    i as nat,
                    #[trigger] drawn@[i],
                ),
            *final(rng) == after_draws(*old(rng), self.categories@.len(), count as nat),
    {
        let ghost start = *rng;
        let ghost length = self.categories@.len();
        let mut drawn: Vec<Category> = Vec::new();
        let mut index: usize = 0;
        while index < count
            invariant
                index <= count,
                count > 0 ==> self.categories@.len() > 0,
                length == self.categories@.len(),
                drawn@.len() == index,
                *rng == after_draws(start, length, index as nat),
                forall|i: int|
                    0 <= i < index ==> is_draw(
                        self.categories@,
                        start,
                        i as nat,
                        #[trigger] drawn@[i],
                    ),
            decreases count - index,
        {
            let ghost earlier = drawn@;
            let category = self.get_random_category(rng);
            drawn.push(category);
            proof {
                assert(is_draw(self.categories@, start, index as nat, category));
                assert forall|i: int| 0 <= i < index + 1 implies is_draw(
                    self.categories@,
                    start,
                    i as nat,
                    #[trigger] drawn@[i],
                ) by {
                    if i < index {
                        assert(drawn@[i] == earlier[i]);
                    }
                }
            }
            index += 1;
        }
        drawn
    }

    /// A copy of one final-round question of the database, drawn with `rng`.
    pub fn get_random_final_jeopardy(&self, rng: &mut rand_chacha::ChaCha20Rng) -> (question:
        FinalJeopardyQuestion)
        requires
            self.final_jeopardy_questions@.len() > 0,
        ensures
            drawn_position(*old(rng), self.final_jeopardy_questions@.len())
                < self.final_jeopardy_questions@.len(),
            question == self.final_jeopardy_questions@[drawn_position(
                *old(rng),
                self.final_jeopardy_questions@.len(),
            ) as int],
            *final(rng) == after_draw(*old(rng), self.final_jeopardy_questions@.len()),
    {
        match choose_with(rng, &self.final_jeopardy_questions) {
            Some(question) => question.clone(),
            None => vstd::pervasive::unreached(),
        }
    }
}


/// The round that a question was asked in.
#[derive(Debug, Clone, Copy, PartialEq, Eq, Structural)]
pub enum RowType {
    Jeopardy,
    DoubleJeopardy,
    FinalJeopardy,
}

/// One question as the database file holds it.
#[derive(Debug)]
pub struct Row {
    pub row_id: u64,
    pub game_id: u64,
    pub air_date: String,
    pub air_year: String,
    pub row_type: RowType,
    pub cat_id: String,
    pub q_id: String,
    pub category: String,
    pub category_comm: String,
    pub clue_text: String,
    pub daily_double_flg: u8,
    pub answer_text: String,
    pub clue_link: String,
}

/// The year that a text names, if it names one: the number that the
/// standard library reads from the text as a `u16`.
pub uninterp spec fn parsed_year(text: Seq<char>) -> Option<u16>;

/// Trusted: calls `str::parse` for `u16`. Whether a text is accepted, and as
/// which number, depends on the text alone and is known here only by its
/// name.
#[verifier::external_body]
pub(crate) fn parse_year(text: &str) -> (year: Option<u16>)
    ensures
        year == parsed_year(text@),
{
    match text.parse::<u16>() {
        Ok(year) => Some(year),
        Err(_) => None,
    }
}

/// A text, or nothing where the text is empty.
pub open spec fn filled(text: String) -> Option<String> {
    if text@.len() == 0 {
        None
    } else {
        Some(text)
    }
}

/// A copy of a text, or nothing where the text is empty.
pub fn copy_if_filled(text: &String) -> (copy: Option<String>)
    ensures
        copy == filled(*text),
{
    if text.as_str().is_empty() {
        None
    } else {
        Some(text.clone())
    }
}

impl Row {
    /// The square that this row describes: untouched, and no daily double.
    pub open spec fn square(self) -> Square {
        Square {
            clue: Clue { text: filled(self.clue_text), link: filled(self.clue_link) },
            state: SquareState::Normal,
            answer: self.answer_text,
            is_daily_double: false,
        }
    }

    /// The final-round question that this row describes.
    pub open spec fn final_question(self) -> FinalJeopardyQuestion {
        FinalJeopardyQuestion {
            category: self.category,
            clue: self.square().clue,
            answer: self.answer_text,
        }
    }

    pub fn to_square(&self) -> (square: Square)
        ensures
            square == self.square(),
    {
        Square::new(
            Clue { text: copy_if_filled(&self.clue_text), link: copy_if_filled(&self.clue_link) },
            self.answer_text.clone(),
        )
    }
}

/// The rows that describe squares of a board, in their order.
pub open spec fn board_rows(rows: Seq<Row>) -> Seq<Row>
    decreases rows.len(),
{
    if rows.len() == 0 {
        Seq::empty()
    } else if rows.last().row_type == RowType::FinalJeopardy {
        board_rows(rows.drop_last())
    } else {
        board_rows(rows.drop_last()).push(rows.last())
    }
}

/// The final-round questions that the rows describe, in their order.
pub open spec fn final_questions(rows: Seq<Row>) -> Seq<FinalJeopardyQuestion>
    decreases rows.len(),
{
    if rows.len() == 0 {
        Seq::empty()
    } else if rows.last().row_type == RowType::FinalJeopardy {
        final_questions(rows.drop_last()).push(rows.last().final_question())
    } else {
        final_questions(rows.drop_last())
    }
}

/// Whether rows of squares make up whole categories: the rows that follow
/// one another under the same category identifier always come in fives,
/// and the first row of each five names its year.
pub open spec fn well_grouped(rows: Seq<Row>) -> bool {
    rows.len() % 5 == 0 && grouped_upto(rows, rows.len() as int)
}

/// Whether the first `upto` rows make up whole categories.
pub open spec fn grouped_upto(rows: Seq<Row>, upto: int) -> bool {
    &&& forall|i: int, j: int|
        0 <= i < upto && 0 <= j < upto && i / 5 == j / 5 ==> (#[trigger] rows[i]).cat_id@ == (
        #[trigger] rows[j]).cat_id@
    &&& forall|i: int, j: int|
        0 <= i < upto && 0 <= j < upto && i / 5 + 1 == j / 5 ==> (#[trigger] rows[i]).cat_id@ != (
        #[trigger] rows[j]).cat_id@
    &&& forall|i: int|
        0 <= i < upto && i % 5 == 0 ==> parsed_year((#[trigger] rows[i]).air_year@) is Some
}

/// Whether `category` is made of the five rows from `first` on.
pub open spec fn is_category_of(category: Category, rows: Seq<Row>, first: int) -> bool {
    &&& category.title == rows[first].category
    &&& category.commentary == filled(rows[first].category_comm)
    &&& parsed_year(rows[first].air_year@) == Some(category.air_year)
    &&& forall|r: int| 0 <= r < 5 ==> #[trigger] category.squares[r] == rows[first + r].square()
}

/// The earliest year of the categories; the largest year there is where
/// there are none.
pub open spec fn min_year_of(categories: Seq<Category>) -> u16
    decreases categories.len(),
{
    if categories.len() == 0 {
        u16::MAX
    } else {
        let before = min_year_of(categories.drop_last());
        if categories.last().air_year < before {
            categories.last().air_year
        } else {
            before
        }
    }
}

/// The latest year of the categories; the year nought where there are none.
pub open spec fn max_year_of(categories: Seq<Category>) -> u16
    decreases categories.len(),
{
    if categories.len() == 0 {
        0
    } else {
        let before = max_year_of(categories.drop_last());
        if categories.last().air_year > before {
            categories.last().air_year
        } else {
            before
        }
    }
}

/// Whether `data` is the database that `rows` describe.
pub open spec fn is_loaded_from(data: JeopardyData, rows: Seq<Row>) -> bool {
    let squares = board_rows(rows);
    &&& data.final_jeopardy_questions@ == final_questions(rows)
    &&& data.categories@.len() == squares.len() / 5
    &&& forall|g: int|
        0 <= g < data.categories@.len() ==> is_category_of(
            #[trigger] data.categories@[g],
            squares,
            5 * g,
        )
    &&& data.min_year == min_year_of(data.categories@)
    &&& data.max_year == max_year_of(data.categories@)
}

/// The rows of squares and the final-round questions among `rows`.
fn split_rows(rows: &Vec<Row>) -> (split: (Vec<&Row>, Vec<FinalJeopardyQuestion>))
    ensures
        split.0@.len() == board_rows(rows@).len(),
        forall|k: int| 0 <= k < split.0@.len() ==> *(#[trigger] split.0@[k]) == board_rows(rows@)[k],
        split.1@ == final_questions(rows@),
{
    let mut squares: Vec<&Row> = Vec::new();
    let mut finals: Vec<FinalJeopardyQuestion> = Vec::new();
    let mut index: usize = 0;
    proof {
        assert(rows@.take(0) =~= Seq::<Row>::empty());
    }
    while index < rows.len()
        invariant
            index <= rows@.len(),
            squares@.len() == board_rows(rows@.take(index as int)).len(),
            forall|k: int|
                0 <= k < squares@.len() ==> *(#[trigger] squares@[k]) == board_rows(
                    rows@.take(index as int),
                )[k],
            finals@ == final_questions(rows@.take(index as int)),
        decreases rows@.len() - index,
    {
        let row = &rows[index];
        proof {
            let taken = rows@.take(index + 1);
            assert(taken.drop_last() =~= rows@.take(index as int));
            assert(taken.last() == *row);
        }
        match row.row_type {
            RowType::FinalJeopardy => {
                let Square { clue, answer, .. } = row.to_square();
                finals.push(FinalJeopardyQuestion { category: row.category.clone(), clue, answer });
            },
            _ => {
                squares.push(row);
            },
        }
        index += 1;
    }
    proof {
        assert(rows@.take(index as int) =~= rows@);
    }
    (squares, finals)
}

/// Whether the five rows from `first` on stand under one category
/// identifier, and under another than the five rows before them.
pub open spec fn whole_at(rows: Seq<Row>, first: int) -> bool {
    &&& forall|i: int|
        first <= i < first + 5 ==> (#[trigger] rows[i]).cat_id@ == rows[first].cat_id@
    &&& first >= 5 ==> rows[first - 5].cat_id@ != rows[first].cat_id@
}

/// The rows that references point to.
pub open spec fn pointed(rows: Seq<&Row>) -> Seq<Row> {
    rows.map_values(|row: &Row| *row)
}

/// Whether the five rows from `first` on stand under one category
/// identifier, and under another than the five rows before them.
fn is_whole_category(squares: &Vec<&Row>, first: usize) -> (whole: bool)
    requires
        first % 5 == 0,
        first + 5 <= squares@.len(),
    ensures
        whole == whole_at(pointed(squares@), first as int),
{
    let ghost rows = pointed(squares@);
    let head = squares[first];
    let length = squares.len();
    if first >= 5 && text_eq(squares[first - 5].cat_id.as_str(), head.cat_id.as_str()) {
        proof {
            assert(rows[first - 5].cat_id@ == rows[first as int].cat_id@);
        }
        return false;
    }
    let mut offset: usize = 1;
    while offset < 5
        invariant
            1 <= offset <= 5,
            first + 5 <= squares@.len(),
            length == squares@.len(),
            rows == pointed(squares@),
            *head == rows[first as int],
            forall|i: int|
                first <= i < first + offset ==> (#[trigger] rows[i]).cat_id@
                    == rows[first as int].cat_id@,
        decreases 5 - offset,
    {
        if !text_eq(squares[first + offset].cat_id.as_str(), head.cat_id.as_str()) {
            proof {
                assert(rows[first + offset].cat_id@ != rows[first as int].cat_id@);
            }
            return false;
        }
        offset += 1;
    }
    true
}

/// Five more rows make up a category where they stand under one category
/// identifier, under another than the five before them, and the first
/// names its year; and not otherwise.
proof fn lemma_grouped_extends(rows: Seq<Row>, first: int)
    requires
        0 <= first,
        first % 5 == 0,
        first + 5 <= rows.len(),
        grouped_upto(rows, first),
    ensures
        grouped_upto(rows, first + 5) <==> whole_at(rows, first) && parsed_year(
            rows[first].air_year@,
        ) is Some,
{
    if whole_at(rows, first) && parsed_year(rows[first].air_year@) is Some {
        assert forall|i: int, j: int|
            0 <= i < first + 5 && 0 <= j < first + 5 && i / 5 + 1 == j / 5 implies (
        #[trigger] rows[i]).cat_id@ != (#[trigger] rows[j]).cat_id@ by {
            if j >= first {
                assert(rows[i].cat_id@ == rows[first - 5].cat_id@);
                assert(rows[j].cat_id@ == rows[first].cat_id@);
            }
        }
        assert(grouped_upto(rows, first + 5));
    }
    if grouped_upto(rows, first + 5) {
        assert forall|i: int| first <= i < first + 5 implies (#[trigger] rows[i]).cat_id@
            == rows[first].cat_id@ by {
            assert(i / 5 == first / 5);
        }
        if first >= 5 {
            assert((first - 5) / 5 + 1 == first / 5);
        }
    }
}

/// Rows that make up whole categories do so from the first row on.
proof fn lemma_grouped_prefix(rows: Seq<Row>, shorter: int, longer: int)
    requires
        0 <= shorter <= longer,
        grouped_upto(rows, longer),
    ensures
        grouped_upto(rows, shorter),
{
}

/// Builds the database from the rows of the database file: five rows that
/// follow one another under one category identifier make a category, rows
/// of the final round make its questions. Fails where the rows of squares
/// do not make up whole categories.
pub fn load(rows: &Vec<Row>) -> (loaded: Option<JeopardyData>)
    ensures
        match loaded {
            Some(data) => well_grouped(board_rows(rows@)) && is_loaded_from(data, rows@),
            None => !well_grouped(board_rows(rows@)),
        },
{
    let (squares, finals) = split_rows(rows);
    let ghost given = board_rows(rows@);
    proof {
        assert(pointed(squares@) =~= given);
    }
    if squares.len() % 5 != 0 {
        return None;
    }
    let length = squares.len();
    let count = length / 5;
    let mut categories: Vec<Category> = Vec::new();
    let mut min_year = u16::MAX;
    let mut max_year: u16 = 0;
    let mut group: usize = 0;
    while group < count
        invariant
            group <= count,
            length == squares@.len(),
            count == length / 5,
            length % 5 == 0,
            given == board_rows(rows@),
            finals@ == final_questions(rows@),
            pointed(squares@) == given,
            categories@.len() == group,
            forall|g: int|
                0 <= g < group ==> is_category_of(#[trigger] categories@[g], given, 5 * g),
            grouped_upto(given, 5 * group),
            min_year == min_year_of(categories@),
            max_year == max_year_of(categories@),
        decreases count - group,
    {
        assert(group * 5 + 5 <= length);
        let first = group * 5;
        proof {
            assert(given.len() == length);
            lemma_grouped_extends(given, first as int);
            if grouped_upto(given, given.len() as int) {
                lemma_grouped_prefix(given, first + 5, given.len() as int);
            }
            assert forall|i: int| 0 <= i < squares@.len() implies *(#[trigger] squares@[i])
                == given[i] by {
                assert(pointed(squares@)[i] == *squares@[i]);
            }
        }
        if !is_whole_category(&squares, first) {
            return None;
        }
        let head = squares[first];
        assert(*head == given[first as int]);
        let air_year = match parse_year(head.air_year.as_str()) {
            Some(year) => year,
            None => {
                return None;
            },
        };
        if air_year > max_year {
            max_year = air_year;
        }
        if air_year < min_year {
            min_year = air_year;
        }
        let category = Category {
            title: head.category.clone(),
            commentary: copy_if_filled(&head.category_comm),
            air_year,
            squares: [
                squares[first].to_square(),
                squares[first + 1].to_square(),
                squares[first + 2].to_square(),
                squares[first + 3].to_square(),
                squares[first + 4].to_square(),
            ],
        };
        proof {
            assert(is_category_of(category, given, first as int));
            assert(categories@.push(category).drop_last() =~= categories@);
        }
        categories.push(category);
        group += 1;
    }
    Some(JeopardyData { categories, final_jeopardy_questions: finals, min_year, max_year })
}

} // verus!
