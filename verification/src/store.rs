//! The decisions of the SQLite store: how stored rows become the model, how
//! a card edit becomes stored fields, which columns a new board gets, and
//! which pragmas the connection applies.

use vstd::prelude::*;

use crate::config::{AppConfig, OrderingSection, StorageSection};
use crate::external::{
    chrono_represents, four_digit_year, json_strings, json_text, rfc3339_parse, rfc3339_text, spec_json_strings,
    spec_json_text, spec_rfc3339_instant, spec_rfc3339_text, spec_uuid_parse, uuid_parse,
};
use crate::model::{
    Board, BoardModel, BoardSummary, Card, CardModel, Column, ColumnModel, SummaryModel,
    UpdateCardArgs, UtcTime,
};
use crate::positions::{
    between, position_between, renormalized_position, saturating_add_i64,
};
use crate::text::{ascii_upper, equals_ascii_upper};

verus! {

/// Why a stored row could not be read.
#[derive(Debug, Clone, Copy, PartialEq, Eq)]
pub enum DecodeError {
    /// A stored identifier is not a UUID.
    InvalidId,
    /// A stored instant is not an RFC 3339 date and time.
    InvalidTimestamp,
}

/// A row of the `boards` table as listed in the sidebar.
#[derive(Debug, Clone)]
pub struct SummaryRow {
    pub id: String,
    pub name: String,
    pub updated_at: String,
}

/// A row of the `boards` table.
#[derive(Debug, Clone)]
pub struct BoardRow {
    pub id: String,
    pub name: String,
    pub created_at: String,
    pub updated_at: String,
}

/// A row of the `columns` table.
#[derive(Debug, Clone)]
pub struct ColumnRow {
    pub id: String,
    pub board_id: String,
    pub name: String,
    pub pos: i64,
    pub created_at: String,
    pub updated_at: String,
}

/// A row of the `cards` table; the tags are stored as a JSON array.
#[derive(Debug, Clone)]
pub struct CardRow {
    pub id: String,
    pub board_id: String,
    pub column_id: String,
    pub title: String,
    pub description: String,
    pub tags_json: String,
    pub due_date: Option<String>,
    pub priority: i32,
    pub pos: i64,
    pub created_at: String,
    pub updated_at: String,
}

/// The identifier stored as `text`.
pub open spec fn id_from(text: Seq<char>) -> Result<u128, DecodeError> {
    match spec_uuid_parse(text) {
        Some(id) => Ok(id),
        None => Err(DecodeError::InvalidId),
    }
}

/// The instant stored as `text`.
pub open spec fn instant_from(text: Seq<char>) -> Result<UtcTime, DecodeError> {
    match spec_rfc3339_instant(text) {
        Some(at) => Ok(at),
        None => Err(DecodeError::InvalidTimestamp),
    }
}

/// The tags stored as `json`; text that is not a JSON list of strings holds no tags.
pub open spec fn tags_from(json: Seq<char>) -> Seq<Seq<char>> {
    match spec_json_strings(json) {
        Some(tags) => tags,
        None => Seq::empty(),
    }
}

/// The optional due date stored as `text`.
pub open spec fn due_date_from(text: Option<String>) -> Result<Option<UtcTime>, DecodeError> {
    match text {
        None => Ok(None),
        Some(t) => match instant_from(t@) {
            Ok(at) => Ok(Some(at)),
            Err(e) => Err(e),
        },
    }
}

/// The summary a row describes; fields are read in the order id, updated_at.
pub open spec fn summary_from(row: SummaryRow) -> Result<SummaryModel, DecodeError> {
    match id_from(row.id@) {
        Err(e) => Err(e),
        Ok(id) => match instant_from(row.updated_at@) {
            Err(e) => Err(e),
            Ok(updated_at) => Ok(SummaryModel { id, name: row.name@, updated_at }),
        },
    }
}

/// The board a row describes; fields are read in the order id, created_at, updated_at.
pub open spec fn board_from(row: BoardRow) -> Result<BoardModel, DecodeError> {
    match id_from(row.id@) {
        Err(e) => Err(e),
        Ok(id) => match instant_from(row.created_at@) {
            Err(e) => Err(e),
            Ok(created_at) => match instant_from(row.updated_at@) {
                Err(e) => Err(e),
                Ok(updated_at) => Ok(BoardModel { id, name: row.name@, created_at, updated_at }),
            },
        },
    }
}

/// The column a row describes; fields are read in the order id, board_id,
/// created_at, updated_at.
pub open spec fn column_from(row: ColumnRow) -> Result<ColumnModel, DecodeError> {
    match id_from(row.id@) {
        Err(e) => Err(e),
        Ok(id) => match id_from(row.board_id@) {
            Err(e) => Err(e),
            Ok(board_id) => match instant_from(row.created_at@) {
                Err(e) => Err(e),
                Ok(created_at) => match instant_from(row.updated_at@) {
                    Err(e) => Err(e),
                    Ok(updated_at) => Ok(
                        ColumnModel {
                            id,
                            board_id,
                            name: row.name@,
                            pos: row.pos,
                            created_at,
                            updated_at,
                        },
                    ),
                },
            },
        },
    }
}

/// The card a row describes; fields are read in the order due_date, id,
/// board_id, column_id, created_at, updated_at.
pub open spec fn card_from(row: CardRow) -> Result<CardModel, DecodeError> {
    match due_date_from(row.due_date) {
        Err(e) => Err(e),
        Ok(due_date) => match id_from(row.id@) {
            Err(e) => Err(e),
            Ok(id) => match id_from(row.board_id@) {
                Err(e) => Err(e),
                Ok(board_id) => match id_from(row.column_id@) {
                    Err(e) => Err(e),
                    Ok(column_id) => match instant_from(row.created_at@) {
                        Err(e) => Err(e),
                        Ok(created_at) => match instant_from(row.updated_at@) {
                            Err(e) => Err(e),
                            Ok(updated_at) => Ok(
                                CardModel {
                                    id,
                                    board_id,
                                    column_id,
                                    title: row.title@,
                                    description: row.description@,
                                    tags: tags_from(row.tags_json@),
                                    due_date,
                                    priority: row.priority,
                                    pos: row.pos,
                                    created_at,
                                    updated_at,
                                },
                            ),
                        },
                    },
                },
            },
        },
    }
}

/// Reads a stored identifier.
pub fn decode_id(text: &str) -> (r: Result<u128, DecodeError>)
    ensures
        r == id_from(text@),
{
    match uuid_parse(text) {
        Some(id) => Ok(id),
        None => Err(DecodeError::InvalidId),
    }
}

/// Reads a stored instant.
pub fn decode_instant(text: &str) -> (r: Result<UtcTime, DecodeError>)
    ensures
        r == instant_from(text@),
{
    match rfc3339_parse(text) {
        Some(at) => Ok(at),
        None => Err(DecodeError::InvalidTimestamp),
    }
}

/// A decoded summary keeps the stored name, and its id and update time are
/// what the stored texts read as; decoding succeeds exactly when both read.
pub proof fn lemma_summary_keeps_stored_fields(row: SummaryRow)
    ensures
        summary_from(row) is Ok <==> spec_uuid_parse(row.id@) is Some && spec_rfc3339_instant(
            row.updated_at@,
        ) is Some,
        summary_from(row) matches Ok(m) ==> {
            &&& m.name == row.name@
            &&& spec_uuid_parse(row.id@) == Some(m.id)
            &&& spec_rfc3339_instant(row.updated_at@) == Some(m.updated_at)
        },
{
}

/// A decoded board keeps the stored name, and its id and instants are what
/// the stored texts read as; decoding succeeds exactly when all of them read.
pub proof fn lemma_board_keeps_stored_fields(row: BoardRow)
    ensures
        board_from(row) is Ok <==> spec_uuid_parse(row.id@) is Some && spec_rfc3339_instant(
            row.created_at@,
        ) is Some && spec_rfc3339_instant(row.updated_at@) is Some,
        board_from(row) matches Ok(m) ==> {
            &&& m.name == row.name@
            &&& spec_uuid_parse(row.id@) == Some(m.id)
            &&& spec_rfc3339_instant(row.created_at@) == Some(m.created_at)
            &&& spec_rfc3339_instant(row.updated_at@) == Some(m.updated_at)
        },
{
}

/// A decoded column keeps the stored name and position, and its ids and
/// instants are what the stored texts read as; decoding succeeds exactly
/// when all of them read.
pub proof fn lemma_column_keeps_stored_fields(row: ColumnRow)
    ensures
        column_from(row) is Ok <==> spec_uuid_parse(row.id@) is Some && spec_uuid_parse(
            row.board_id@,
        ) is Some && spec_rfc3339_instant(row.created_at@) is Some && spec_rfc3339_instant(
            row.updated_at@,
        ) is Some,
        column_from(row) matches Ok(m) ==> {
            &&& m.name == row.name@
            &&& m.pos == row.pos
            &&& spec_uuid_parse(row.id@) == Some(m.id)
            &&& spec_uuid_parse(row.board_id@) == Some(m.board_id)
            &&& spec_rfc3339_instant(row.created_at@) == Some(m.created_at)
            &&& spec_rfc3339_instant(row.updated_at@) == Some(m.updated_at)
        },
{
}

/// A decoded card keeps the stored title, description, priority and
/// position; its tags are the stored JSON list (none when the text is not
/// one), its due date is absent when none is stored and otherwise what the
/// stored text reads as, and its ids and instants are what the stored texts
/// read as. Decoding succeeds exactly when every id and instant reads.
pub proof fn lemma_card_keeps_stored_fields(row: CardRow)
    ensures
        card_from(row) is Ok <==> {
            &&& spec_uuid_parse(row.id@) is Some
            &&& spec_uuid_parse(row.board_id@) is Some
            &&& spec_uuid_parse(row.column_id@) is Some
            &&& spec_rfc3339_instant(row.created_at@) is Some
            &&& spec_rfc3339_instant(row.updated_at@) is Some
            &&& (row.due_date matches Some(t) ==> spec_rfc3339_instant(t@) is Some)
        },
        card_from(row) matches Ok(m) ==> {
            &&& m.title == row.title@
            &&& m.description == row.description@
            &&& m.priority == row.priority
            &&& m.pos == row.pos
            &&& (spec_json_strings(row.tags_json@) matches Some(tags) ==> m.tags == tags)
            &&& (spec_json_strings(row.tags_json@) is None ==> m.tags.len() == 0)
            &&& (row.due_date is None ==> m.due_date is None)
            &&& (row.due_date matches Some(t) ==> spec_rfc3339_instant(t@) == m.due_date)
            &&& spec_uuid_parse(row.id@) == Some(m.id)
            &&& spec_uuid_parse(row.board_id@) == Some(m.board_id)
            &&& spec_uuid_parse(row.column_id@) == Some(m.column_id)
            &&& spec_rfc3339_instant(row.created_at@) == Some(m.created_at)
            &&& spec_rfc3339_instant(row.updated_at@) == Some(m.updated_at)
        },
{
}

/// Reads a board summary row.
pub fn decode_summary(row: &SummaryRow) -> (r: Result<BoardSummary, DecodeError>)
    ensures
        match r {
            Ok(s) => summary_from(*row) == Ok::<SummaryModel, DecodeError>(s@),
            Err(e) => summary_from(*row) == Err::<SummaryModel, DecodeError>(e),
        },
        r matches Ok(s) ==> s.name@ == row.name@ && spec_uuid_parse(row.id@) == Some(s.id),
{
    let id = match decode_id(row.id.as_str()) {
        Ok(id) => id,
        Err(e) => return Err(e),
    };
    let updated_at = match decode_instant(row.updated_at.as_str()) {
        Ok(at) => at,
        Err(e) => return Err(e),
    };
    Ok(BoardSummary { id, name: row.name.clone(), updated_at })
}

/// Reads a board row.
pub fn decode_board(row: &BoardRow) -> (r: Result<Board, DecodeError>)
    ensures
        match r {
            Ok(b) => board_from(*row) == Ok::<BoardModel, DecodeError>(b@),
            Err(e) => board_from(*row) == Err::<BoardModel, DecodeError>(e),
        },
        r matches Ok(b) ==> b.name@ == row.name@ && spec_uuid_parse(row.id@) == Some(b.id),
{
    let id = match decode_id(row.id.as_str()) {
        Ok(id) => id,
        Err(e) => return Err(e),
    };
    let created_at = match decode_instant(row.created_at.as_str()) {
        Ok(at) => at,
        Err(e) => return Err(e),
    };
    let updated_at = match decode_instant(row.updated_at.as_str()) {
        Ok(at) => at,
        Err(e) => return Err(e),
    };
    Ok(Board { id, name: row.name.clone(), created_at, updated_at })
}

/// Reads a column row.
pub fn decode_column(row: &ColumnRow) -> (r: Result<Column, DecodeError>)
    ensures
        match r {
            Ok(c) => column_from(*row) == Ok::<ColumnModel, DecodeError>(c@),
            Err(e) => column_from(*row) == Err::<ColumnModel, DecodeError>(e),
        },
        r matches Ok(c) ==> c.name@ == row.name@ && c.pos == row.pos && spec_uuid_parse(row.id@)
            == Some(c.id) && spec_uuid_parse(row.board_id@) == Some(c.board_id),
{
    let id = match decode_id(row.id.as_str()) {
        Ok(id) => id,
        Err(e) => return Err(e),
    };
    let board_id = match decode_id(row.board_id.as_str()) {
        Ok(id) => id,
        Err(e) => return Err(e),
    };
    let created_at = match decode_instant(row.created_at.as_str()) {
        Ok(at) => at,
        Err(e) => return Err(e),
    };
    let updated_at = match decode_instant(row.updated_at.as_str()) {
        Ok(at) => at,
        Err(e) => return Err(e),
    };
    Ok(Column { id, board_id, name: row.name.clone(), pos: row.pos, created_at, updated_at })
}

/// Reads a card row. Tags that are not a JSON list of strings are read as no tags.
pub fn decode_card(row: &CardRow) -> (r: Result<Card, DecodeError>)
    ensures
        match r {
            Ok(c) => card_from(*row) == Ok::<CardModel, DecodeError>(c@),
            Err(e) => card_from(*row) == Err::<CardModel, DecodeError>(e),
        },
        r matches Ok(c) ==> c.title@ == row.title@ && c.description@ == row.description@
            && c.priority == row.priority && c.pos == row.pos && spec_uuid_parse(row.id@) == Some(
            c.id,
        ) && spec_uuid_parse(row.column_id@) == Some(c.column_id),
{
    let due_date = match &row.due_date {
        None => None,
        Some(text) => match decode_instant(text.as_str()) {
            Ok(at) => Some(at),
            Err(e) => return Err(e),
        },
    };
    let tags = match json_strings(row.tags_json.as_str()) {
        Some(tags) => tags,
        None => {
            let empty: Vec<String> = Vec::new();
            assert(empty.deep_view() =~= Seq::<Seq<char>>::empty());
            empty
        },
    };
    let id = match decode_id(row.id.as_str()) {
        Ok(id) => id,
        Err(e) => return Err(e),
    };
    let board_id = match decode_id(row.board_id.as_str()) {
        Ok(id) => id,
        Err(e) => return Err(e),
    };
    let column_id = match decode_id(row.column_id.as_str()) {
        Ok(id) => id,
        Err(e) => return Err(e),
    };
    let created_at = match decode_instant(row.created_at.as_str()) {
        Ok(at) => at,
        Err(e) => return Err(e),
    };
    let updated_at = match decode_instant(row.updated_at.as_str()) {
        Ok(at) => at,
        Err(e) => return Err(e),
    };
    Ok(
        Card {
            id,
            board_id,
            column_id,
            title: row.title.clone(),
            description: row.description.clone(),
            tags,
            due_date,
            priority: row.priority,
            pos: row.pos,
            created_at,
            updated_at,
        },
    )
}

/// A stored row and the value it describes.
pub trait StoredRow: Sized {
    type Model;

    /// The value the row describes, or why it cannot be read.
    spec fn read(self) -> Result<Self::Model, DecodeError>;
}

impl StoredRow for SummaryRow {
    type Model = SummaryModel;

    open spec fn read(self) -> Result<SummaryModel, DecodeError> {
        summary_from(self)
    }
}

impl StoredRow for ColumnRow {
    type Model = ColumnModel;

    open spec fn read(self) -> Result<ColumnModel, DecodeError> {
        column_from(self)
    }
}

impl StoredRow for CardRow {
    type Model = CardModel;

    open spec fn read(self) -> Result<CardModel, DecodeError> {
        card_from(self)
    }
}

/// Reads rows in order: every row's value, or the error of the first row
/// that cannot be read.
pub open spec fn read_all<R: StoredRow>(rows: Seq<R>) -> Result<Seq<R::Model>, DecodeError>
    decreases rows.len(),
{
    if rows.len() == 0 {
        Ok(Seq::empty())
    } else {
        match read_all(rows.drop_last()) {
            Err(e) => Err(e),
            Ok(done) => match rows.last().read() {
                Err(e) => Err(e),
                Ok(m) => Ok(done.push(m)),
            },
        }
    }
}

proof fn lemma_read_all_step<R: StoredRow>(rows: Seq<R>, i: int)
    requires
        0 <= i < rows.len(),
    ensures
        read_all(rows.take(i + 1)) == match read_all(rows.take(i)) {
            Err(e) => Err(e),
            Ok(done) => match rows[i].read() {
                Err(e) => Err(e),
                Ok(m) => Ok(done.push(m)),
            },
        },
{
    assert(rows.take(i + 1).drop_last() =~= rows.take(i));
}

proof fn lemma_read_all_error_stays<R: StoredRow>(rows: Seq<R>, i: int, e: DecodeError)
    requires
        0 <= i <= rows.len(),
        read_all(rows.take(i)) == Err::<Seq<R::Model>, DecodeError>(e),
    ensures
        read_all(rows) == Err::<Seq<R::Model>, DecodeError>(e),
    decreases rows.len() - i,
{
    if i == rows.len() {
        assert(rows.take(i) =~= rows);
    } else {
        lemma_read_all_step(rows, i);
        lemma_read_all_error_stays(rows, i + 1, e);
    }
}

/// Reading a list succeeds exactly when every row can be read, and then
/// gives one value per row, in the rows' order.
pub proof fn lemma_read_all_each<R: StoredRow>(rows: Seq<R>)
    ensures
        read_all(rows) is Ok <==> forall|i: int| 0 <= i < rows.len() ==> (#[trigger] rows[i].read()) is Ok,
        read_all(rows) matches Ok(values) ==> values.len() == rows.len() && forall|i: int|
            0 <= i < rows.len() ==> Ok::<R::Model, DecodeError>(#[trigger] values[i]) == rows[i].read(),
    decreases rows.len(),
{
    if rows.len() > 0 {
        let front = rows.drop_last();
        lemma_read_all_each(front);
        assert forall|i: int| 0 <= i < front.len() implies #[trigger] front[i] == rows[i] by {}
        if forall|i: int| 0 <= i < rows.len() ==> (#[trigger] rows[i].read()) is Ok {
            assert forall|i: int| 0 <= i < front.len() implies (#[trigger] front[i].read()) is Ok by {
                assert(rows[i].read() is Ok);
            }
            assert(rows[rows.len() - 1].read() is Ok);
        } else {
            let k = choose|k: int| 0 <= k < rows.len() && !((#[trigger] rows[k].read()) is Ok);
            if k < rows.len() - 1 {
                assert(!(front[k].read() is Ok));
            }
        }
    }
}

/// Reads the rows of the `boards` table, in order.
pub fn decode_summaries(rows: &Vec<SummaryRow>) -> (r: Result<Vec<BoardSummary>, DecodeError>)
    ensures
        match r {
            Ok(v) => read_all(rows@) == Ok::<Seq<SummaryModel>, DecodeError>(crate::model::summary_models(v@)),
            Err(e) => read_all(rows@) == Err::<Seq<SummaryModel>, DecodeError>(e),
        },
{
    let mut out: Vec<BoardSummary> = Vec::with_capacity(rows.len());
    let mut i: usize = 0;
    assert(rows@.take(0) =~= Seq::<SummaryRow>::empty());
    assert(crate::model::summary_models(out@) =~= Seq::<SummaryModel>::empty());
    while i < rows.len()
        invariant
            i <= rows@.len(),
            read_all(rows@.take(i as int)) == Ok::<Seq<SummaryModel>, DecodeError>(crate::model::summary_models(out@)),
        decreases rows@.len() - i,
    {
        proof {
            lemma_read_all_step(rows@, i as int);
        }
        match decode_summary(&rows[i]) {
            Ok(s) => {
                let ghost before = out@;
                out.push(s);
                assert(crate::model::summary_models(out@) =~= crate::model::summary_models(before).push(s@));
            },
            Err(e) => {
                proof {
                    lemma_read_all_error_stays(rows@, i + 1, e);
                }
                return Err(e);
            },
        }
        i = i + 1;
    }
    assert(rows@.take(i as int) =~= rows@);
    Ok(out)
}

/// Reads the rows of the `columns` table, in order.
pub fn decode_columns(rows: &Vec<ColumnRow>) -> (r: Result<Vec<Column>, DecodeError>)
    ensures
        match r {
            Ok(v) => read_all(rows@) == Ok::<Seq<ColumnModel>, DecodeError>(crate::model::column_models(v@)),
            Err(e) => read_all(rows@) == Err::<Seq<ColumnModel>, DecodeError>(e),
        },
{
    let mut out: Vec<Column> = Vec::with_capacity(rows.len());
    let mut i: usize = 0;
    assert(rows@.take(0) =~= Seq::<ColumnRow>::empty());
    assert(crate::model::column_models(out@) =~= Seq::<ColumnModel>::empty());
    while i < rows.len()
        invariant
            i <= rows@.len(),
            read_all(rows@.take(i as int)) == Ok::<Seq<ColumnModel>, DecodeError>(crate::model::column_models(out@)),
        decreases rows@.len() - i,
    {
        proof {
            lemma_read_all_step(rows@, i as int);
        }
        match decode_column(&rows[i]) {
            Ok(c) => {
                let ghost before = out@;
                out.push(c);
                assert(crate::model::column_models(out@) =~= crate::model::column_models(before).push(c@));
            },
            Err(e) => {
                proof {
                    lemma_read_all_error_stays(rows@, i + 1, e);
                }
                return Err(e);
            },
        }
        i = i + 1;
    }
    assert(rows@.take(i as int) =~= rows@);
    Ok(out)
}

/// Reads the rows of the `cards` table, in order.
pub fn decode_cards(rows: &Vec<CardRow>) -> (r: Result<Vec<Card>, DecodeError>)
    ensures
        match r {
            Ok(v) => read_all(rows@) == Ok::<Seq<CardModel>, DecodeError>(crate::model::card_models(v@)),
            Err(e) => read_all(rows@) == Err::<Seq<CardModel>, DecodeError>(e),
        },
{
    let mut out: Vec<Card> = Vec::with_capacity(rows.len());
    let mut i: usize = 0;
    assert(rows@.take(0) =~= Seq::<CardRow>::empty());
    assert(crate::model::card_models(out@) =~= Seq::<CardModel>::empty());
    while i < rows.len()
        invariant
            i <= rows@.len(),
            read_all(rows@.take(i as int)) == Ok::<Seq<CardModel>, DecodeError>(crate::model::card_models(out@)),
        decreases rows@.len() - i,
    {
        proof {
            lemma_read_all_step(rows@, i as int);
        }
        match decode_card(&rows[i]) {
            Ok(c) => {
                let ghost before = out@;
                out.push(c);
                assert(crate::model::card_models(out@) =~= crate::model::card_models(before).push(c@));
            },
            Err(e) => {
                proof {
                    lemma_read_all_error_stays(rows@, i + 1, e);
                }
                return Err(e);
            },
        }
        i = i + 1;
    }
    assert(rows@.take(i as int) =~= rows@);
    Ok(out)
}

/// The stored, editable fields of a card.
#[derive(Debug, Clone)]
pub struct CardFields {
    pub title: String,
    pub description: String,
    pub tags_json: String,
    pub due_date: Option<String>,
    pub priority: i32,
}

/// Why a card edit cannot be stored.
#[derive(Debug, Clone, Copy, PartialEq, Eq)]
pub enum EncodeError {
    /// The due date lies outside the instants that `chrono` represents.
    DueDateOutOfRange,
}

/// The text in an optional string.
pub open spec fn opt_text(o: Option<String>) -> Option<Seq<char>> {
    match o {
        Some(s) => Some(s@),
        None => None,
    }
}

/// Whether storing `update` fails: only a due date that `chrono` cannot
/// represent has no stored form.
pub open spec fn update_fails(update: UpdateCardArgs) -> bool {
    update.due_date matches Some(Some(at)) && !chrono_represents(at)
}

/// The stored fields after `update` is applied to `existing`: each given
/// field replaces the stored one, tags are stored as JSON, a given due date
/// as RFC 3339 text, and `due_date: Some(None)` clears it.
pub open spec fn fields_updated(existing: CardFields, update: UpdateCardArgs, f: CardFields) -> bool {
    &&& f.title@ == match update.title {
        Some(t) => t@,
        None => existing.title@,
    }
    &&& f.description@ == match update.description {
        Some(d) => d@,
        None => existing.description@,
    }
    &&& f.tags_json@ == match update.tags {
        Some(tags) => spec_json_text(tags.deep_view()),
        None => existing.tags_json@,
    }
    &&& opt_text(f.due_date) == match update.due_date {
        Some(Some(at)) => spec_rfc3339_text(at),
        Some(None) => None,
        None => opt_text(existing.due_date),
    }
    &&& f.priority == match update.priority {
        Some(p) => p,
        None => existing.priority,
    }
}

/// Whether the stored fields `f` read back as what `update` gave: given
/// tags as the same list, and a given due date in the years 0000 to 9999 as
/// the same instant.
pub open spec fn update_reads_back(update: UpdateCardArgs, f: CardFields) -> bool {
    &&& (update.tags matches Some(tags) ==> tags_from(f.tags_json@) == tags.deep_view())
    &&& (update.due_date matches Some(Some(at)) ==> (four_digit_year(at) ==> due_date_from(
        f.due_date,
    ) == Ok::<Option<UtcTime>, DecodeError>(Some(at))))
}

/// Applies a card edit to the stored fields of the card.
///
/// The given tags, and a given due date in the years 0000 to 9999, are
/// stored so that reading the card back yields them.
pub fn apply_card_update(existing: CardFields, update: UpdateCardArgs) -> (r: Result<
    CardFields,
    EncodeError,
>)
    ensures
        r is Err <==> update_fails(update),
        r matches Err(e) ==> e == EncodeError::DueDateOutOfRange,
        r matches Ok(f) ==> fields_updated(existing, update, f),
        r matches Ok(f) ==> update_reads_back(update, f),
{
    let UpdateCardArgs { card_id: _, title, description, tags, due_date, priority } = update;
    let new_title = match title {
        Some(t) => t,
        None => existing.title,
    };
    let new_description = match description {
        Some(d) => d,
        None => existing.description,
    };
    let new_tags_json = match tags {
        Some(values) => {
            let text = json_text(&values);
            text.unwrap()
        },
        None => existing.tags_json,
    };
    let new_due_date = match due_date {
        Some(Some(at)) => match rfc3339_text(at) {
            Some(text) => Some(text),
            None => return Err(EncodeError::DueDateOutOfRange),
        },
        Some(None) => None,
        None => existing.due_date,
    };
    let new_priority = match priority {
        Some(p) => p,
        None => existing.priority,
    };
    Ok(
        CardFields {
            title: new_title,
            description: new_description,
            tags_json: new_tags_json,
            due_date: new_due_date,
            priority: new_priority,
        },
    )
}

/// The stored fields and position of a card created with `title` at the end
/// of a column whose last card stands at `last_pos` (`None` for an empty
/// column): no description, an empty JSON list of tags, no due date,
/// priority 0, and the position after the last card.
pub fn new_card_values(ordering: &OrderingSection, last_pos: Option<i64>, title: String) -> (r: (
    CardFields,
    i64,
))
    ensures
        r.0.title@ == title@,
        r.0.description@ == Seq::<char>::empty(),
        r.0.tags_json@ == seq!['[', ']'],
        r.0.due_date is None,
        r.0.priority == 0,
        r.1 == position_between(ordering.step, last_pos, None),
{
    let fields = CardFields {
        title,
        description: String::new(),
        tags_json: "[]".to_owned(),
        due_date: None,
        priority: 0,
    };
    proof {
        reveal_strlit("[]");
    }
    (fields, between(ordering, last_pos, None))
}

/// Whether a stored card row holds the fields `f`.
pub open spec fn row_holds(row: CardRow, f: CardFields) -> bool {
    &&& row.title@ == f.title@
    &&& row.description@ == f.description@
    &&& row.tags_json@ == f.tags_json@
    &&& opt_text(row.due_date) == opt_text(f.due_date)
    &&& row.priority == f.priority
}

/// A stored edit reads back: once `apply_card_update` has turned `update`
/// into the fields `f` and a row holds them, decoding the row gives each
/// field the edit gave (the tags as the same list, a due date in the years
/// 0000 to 9999 as the same instant, a cleared due date as none) and keeps
/// the others as they were.
pub proof fn lemma_stored_edit_reads_back(
    existing: CardFields,
    update: UpdateCardArgs,
    f: CardFields,
    row: CardRow,
)
    requires
        fields_updated(existing, update, f),
        update_reads_back(update, f),
        row_holds(row, f),
    ensures
        update.due_date matches Some(Some(at)) ==> (four_digit_year(at) ==> due_date_from(
            row.due_date,
        ) == Ok::<Option<UtcTime>, DecodeError>(Some(at))),
        update.due_date matches Some(None) ==> due_date_from(row.due_date) == Ok::<
            Option<UtcTime>,
            DecodeError,
        >(None),
        card_from(row) matches Ok(c) ==> {
            &&& c.title == match update.title {
                Some(t) => t@,
                None => existing.title@,
            }
            &&& c.description == match update.description {
                Some(d) => d@,
                None => existing.description@,
            }
            &&& (update.tags matches Some(tags) ==> c.tags == tags.deep_view())
            &&& (update.due_date matches Some(Some(at)) ==> (four_digit_year(at) ==> c.due_date
                == Some(at)))
            &&& (update.due_date matches Some(None) ==> c.due_date is None)
            &&& c.priority == match update.priority {
                Some(p) => p,
                None => existing.priority,
            }
        },
{
    assert(due_date_from(row.due_date) == due_date_from(f.due_date));
}

/// An edit that gives no field leaves the stored fields as they are.
pub proof fn lemma_empty_update_keeps_fields(existing: CardFields, card_id: u128, f: CardFields)
    requires
        fields_updated(
            existing,
            UpdateCardArgs {
                card_id,
                title: None,
                description: None,
                tags: None,
                due_date: None,
                priority: None,
            },
            f,
        ),
    ensures
        f.title@ == existing.title@,
        f.description@ == existing.description@,
        f.tags_json@ == existing.tags_json@,
        opt_text(f.due_date) == opt_text(existing.due_date),
        f.priority == existing.priority,
{
}

/// The columns a new board starts with and their positions: none when
/// seeding is off, else the configured default columns, in order, at the
/// positions a renormalization gives.
pub fn seed_columns(cfg: &AppConfig) -> (r: Vec<(String, i64)>)
    ensures
        !cfg.app.seed_default_columns ==> r@.len() == 0,
        cfg.app.seed_default_columns ==> r@.len() == cfg.app.default_columns@.len(),
        cfg.app.seed_default_columns ==> forall|i: int|
            0 <= i < r@.len() ==> (#[trigger] r@[i]).0@ == cfg.app.default_columns@[i]@ && r@[i].1
                == renormalized_position(cfg.ordering.step, i),
{
    let mut out: Vec<(String, i64)> = Vec::new();
    if !cfg.app.seed_default_columns {
        return out;
    }
    let names = &cfg.app.default_columns;
    let step: i64 = cfg.ordering.step;
    let mut pos: i64 = 0;
    let mut i: usize = 0;
    assert(0 * step == 0);
    while i < names.len()
        invariant
            names == &cfg.app.default_columns,
            step == cfg.ordering.step,
            i <= names@.len(),
            out@.len() == i,
            pos == renormalized_position(step, i as int),
            forall|j: int|
                0 <= j < i ==> (#[trigger] out@[j]).0@ == names@[j]@ && out@[j].1
                    == renormalized_position(step, j),
        decreases names@.len() - i,
    {
        out.push((names[i].clone(), pos));
        proof {
            assert((i + 1) * step == i * step + step) by (nonlinear_arith);
            if step >= 0 {
                assert(i * step >= 0) by (nonlinear_arith)
                    requires
                        step >= 0,
                ;
            } else {
                assert(i * step <= 0) by (nonlinear_arith)
                    requires
                        step < 0,
                ;
            }
        }
        pos = saturating_add_i64(pos, step);
        i = i + 1;
    }
    out
}

/// The journal modes SQLite accepts.
pub open spec fn journal_modes() -> Seq<Seq<char>> {
    seq!["DELETE"@, "TRUNCATE"@, "PERSIST"@, "MEMORY"@, "WAL"@, "OFF"@]
}

/// The synchronous settings SQLite accepts.
pub open spec fn synchronous_modes() -> Seq<Seq<char>> {
    seq!["OFF"@, "NORMAL"@, "FULL"@, "EXTRA"@]
}

/// The journal mode applied for a configured value: the value in upper
/// case when SQLite accepts it, `WAL` otherwise.
pub open spec fn journal_mode_for(input: Seq<char>) -> Seq<char> {
    if journal_modes().contains(ascii_upper(input)) {
        ascii_upper(input)
    } else {
        "WAL"@
    }
}

/// The synchronous setting applied for a configured value: the value in
/// upper case when SQLite accepts it, `NORMAL` otherwise.
pub open spec fn synchronous_for(input: Seq<char>) -> Seq<char> {
    if synchronous_modes().contains(ascii_upper(input)) {
        ascii_upper(input)
    } else {
        "NORMAL"@
    }
}

/// The journal mode to apply for the configured `input`.
pub fn normalize_journal_mode(input: &str) -> (r: &'static str)
    ensures
        r@ == journal_mode_for(input@),
{
    let r = if equals_ascii_upper(input, "DELETE") {
        "DELETE"
    } else if equals_ascii_upper(input, "TRUNCATE") {
        "TRUNCATE"
    } else if equals_ascii_upper(input, "PERSIST") {
        "PERSIST"
    } else if equals_ascii_upper(input, "MEMORY") {
        "MEMORY"
    } else if equals_ascii_upper(input, "WAL") {
        "WAL"
    } else if equals_ascii_upper(input, "OFF") {
        "OFF"
    } else {
        assert(!journal_modes().contains(ascii_upper(input@)));
        "WAL"
    };
    r
}

/// The synchronous setting to apply for the configured `input`.
pub fn normalize_synchronous(input: &str) -> (r: &'static str)
    ensures
        r@ == synchronous_for(input@),
{
    let r = if equals_ascii_upper(input, "OFF") {
        "OFF"
    } else if equals_ascii_upper(input, "NORMAL") {
        "NORMAL"
    } else if equals_ascii_upper(input, "FULL") {
        "FULL"
    } else if equals_ascii_upper(input, "EXTRA") {
        "EXTRA"
    } else {
        assert(!synchronous_modes().contains(ascii_upper(input@)));
        "NORMAL"
    };
    r
}

/// The journal mode applied is always one SQLite accepts, and normalizing
/// it again changes nothing.
pub proof fn lemma_journal_mode_normal(input: Seq<char>)
    ensures
        journal_modes().contains(journal_mode_for(input)),
        journal_mode_for(journal_mode_for(input)) == journal_mode_for(input),
        journal_modes().contains(ascii_upper(input)) ==> journal_mode_for(input) == ascii_upper(
            input,
        ),
        !journal_modes().contains(ascii_upper(input)) ==> journal_mode_for(input) == "WAL"@,
{
    crate::text::lemma_ascii_upper_idempotent(input);
    reveal_strlit("WAL");
    assert(ascii_upper("WAL"@) =~= "WAL"@);
    assert(journal_modes()[4] == "WAL"@);
}

/// The synchronous setting applied is always one SQLite accepts, and
/// normalizing it again changes nothing.
pub proof fn lemma_synchronous_normal(input: Seq<char>)
    ensures
        synchronous_modes().contains(synchronous_for(input)),
        synchronous_for(synchronous_for(input)) == synchronous_for(input),
        synchronous_modes().contains(ascii_upper(input)) ==> synchronous_for(input) == ascii_upper(
            input,
        ),
        !synchronous_modes().contains(ascii_upper(input)) ==> synchronous_for(input) == "NORMAL"@,
{
    crate::text::lemma_ascii_upper_idempotent(input);
    reveal_strlit("NORMAL");
    assert(ascii_upper("NORMAL"@) =~= "NORMAL"@);
    assert(synchronous_modes()[1] == "NORMAL"@);
}

/// The pragma statements a new connection runs, in order: foreign keys,
/// journal mode, synchronous.
pub fn pragma_statements(storage: &StorageSection) -> (r: Vec<String>)
    ensures
        r@.len() == 3,
        r@[0]@ == "PRAGMA foreign_keys = "@ + (if storage.foreign_keys {
            "ON"@
        } else {
            "OFF"@
        }) + ";"@,
        r@[1]@ == "PRAGMA journal_mode = "@ + journal_mode_for(storage.journal_mode@) + ";"@,
        r@[2]@ == "PRAGMA synchronous = "@ + synchronous_for(storage.synchronous@) + ";"@,
{
    let fk = if storage.foreign_keys {
        "ON"
    } else {
        "OFF"
    };
    let mut foreign_keys = "PRAGMA foreign_keys = ".to_owned();
    foreign_keys.append(fk);
    foreign_keys.append(";");
    let mut journal = "PRAGMA journal_mode = ".to_owned();
    journal.append(normalize_journal_mode(storage.journal_mode.as_str()));
    journal.append(";");
    let mut synchronous = "PRAGMA synchronous = ".to_owned();
    synchronous.append(normalize_synchronous(storage.synchronous.as_str()));
    synchronous.append(";");
    let out = vec![foreign_keys, journal, synchronous];
    out
}

} // verus!
