//! The board, its columns and its cards, and the arguments of the commands
//! that change them.
//!
//! Identifiers are the 128-bit values of UUIDs; instants are seconds and
//! nanoseconds since the Unix epoch, in UTC.

use vstd::prelude::*;

verus! {

/// An instant in UTC: whole seconds since 1970-01-01T00:00:00Z and the
/// nanoseconds past that second.
#[derive(Debug, Clone, Copy, PartialEq, Eq)]
pub struct UtcTime {
    pub secs: i64,
    pub nanos: u32,
}

/// A board as listed in the sidebar.
#[derive(Debug, Clone, PartialEq)]
pub struct BoardSummary {
    pub id: u128,
    pub name: String,
    pub updated_at: UtcTime,
}

/// A board.
#[derive(Debug, Clone, PartialEq)]
pub struct Board {
    pub id: u128,
    pub name: String,
    pub created_at: UtcTime,
    pub updated_at: UtcTime,
}

/// A column of a board; `pos` orders the columns of a board.
#[derive(Debug, Clone, PartialEq)]
pub struct Column {
    pub id: u128,
    pub board_id: u128,
    pub name: String,
    pub pos: i64,
    pub created_at: UtcTime,
    pub updated_at: UtcTime,
}

/// A card in a column; `pos` orders the cards of a column.
#[derive(Debug, Clone, PartialEq)]
pub struct Card {
    pub id: u128,
    pub board_id: u128,
    pub column_id: u128,
    pub title: String,
    pub description: String,
    pub tags: Vec<String>,
    pub due_date: Option<UtcTime>,
    pub priority: i32,
    pub pos: i64,
    pub created_at: UtcTime,
    pub updated_at: UtcTime,
}

/// A snapshot of a board with all its columns and cards.
#[derive(Debug, Clone, PartialEq)]
pub struct BoardState {
    pub board: Board,
    pub columns: Vec<Column>,
    pub cards: Vec<Card>,
}

/// The abstract value of a `BoardSummary`.
pub struct SummaryModel {
    pub id: u128,
    pub name: Seq<char>,
    pub updated_at: UtcTime,
}

/// The abstract value of a `Board`.
pub struct BoardModel {
    pub id: u128,
    pub name: Seq<char>,
    pub created_at: UtcTime,
    pub updated_at: UtcTime,
}

/// The abstract value of a `Column`.
pub struct ColumnModel {
    pub id: u128,
    pub board_id: u128,
    pub name: Seq<char>,
    pub pos: i64,
    pub created_at: UtcTime,
    pub updated_at: UtcTime,
}

/// The abstract value of a `Card`.
pub struct CardModel {
    pub id: u128,
    pub board_id: u128,
    pub column_id: u128,
    pub title: Seq<char>,
    pub description: Seq<char>,
    pub tags: Seq<Seq<char>>,
    pub due_date: Option<UtcTime>,
    pub priority: i32,
    pub pos: i64,
    pub created_at: UtcTime,
    pub updated_at: UtcTime,
}

/// The abstract value of a `BoardState`.
pub struct BoardStateModel {
    pub board: BoardModel,
    pub columns: Seq<ColumnModel>,
    pub cards: Seq<CardModel>,
}

impl View for BoardSummary {
    type V = SummaryModel;

    open spec fn view(&self) -> SummaryModel {
        SummaryModel { id: self.id, name: self.name@, updated_at: self.updated_at }
    }
}

impl View for Board {
    type V = BoardModel;

    open spec fn view(&self) -> BoardModel {
        BoardModel {
            id: self.id,
            name: self.name@,
            created_at: self.created_at,
            updated_at: self.updated_at,
        }
    }
}

impl View for Column {
    type V = ColumnModel;

    open spec fn view(&self) -> ColumnModel {
        ColumnModel {
            id: self.id,
            board_id: self.board_id,
            name: self.name@,
            pos: self.pos,
            created_at: self.created_at,
            updated_at: self.updated_at,
        }
    }
}

impl View for Card {
    type V = CardModel;

    open spec fn view(&self) -> CardModel {
        CardModel {
            id: self.id,
            board_id: self.board_id,
            column_id: self.column_id,
            title: self.title@,
            description: self.description@,
            tags: self.tags.deep_view(),
            due_date: self.due_date,
            priority: self.priority,
            pos: self.pos,
            created_at: self.created_at,
            updated_at: self.updated_at,
        }
    }
}

/// The abstract values of a sequence of board summaries.
pub open spec fn summary_models(boards: Seq<BoardSummary>) -> Seq<SummaryModel> {
    boards.map_values(|b: BoardSummary| b@)
}

/// The abstract values of a sequence of columns.
pub open spec fn column_models(columns: Seq<Column>) -> Seq<ColumnModel> {
    columns.map_values(|c: Column| c@)
}

/// The abstract values of a sequence of cards.
pub open spec fn card_models(cards: Seq<Card>) -> Seq<CardModel> {
    cards.map_values(|c: Card| c@)
}

impl View for BoardState {
    type V = BoardStateModel;

    open spec fn view(&self) -> BoardStateModel {
        BoardStateModel {
            board: self.board@,
            columns: column_models(self.columns@),
            cards: card_models(self.cards@),
        }
    }
}

/// Arguments of the command that loads a board snapshot.
#[derive(Debug, Clone, PartialEq)]
pub struct GetBoardArgs {
    pub board_id: u128,
}

/// Arguments of the command that creates a board.
#[derive(Debug, Clone, PartialEq)]
pub struct CreateBoardArgs {
    pub name: String,
}

/// Arguments of the command that appends a column to a board.
#[derive(Debug, Clone, PartialEq)]
pub struct CreateColumnArgs {
    pub board_id: u128,
    pub name: String,
}

/// Arguments of the command that renames a column.
#[derive(Debug, Clone, PartialEq)]
pub struct RenameColumnArgs {
    pub column_id: u128,
    pub name: String,
}

/// Arguments of the command that moves a column next to other columns.
#[derive(Debug, Clone, PartialEq)]
pub struct ReorderColumnArgs {
    pub column_id: u128,
    pub before_column_id: Option<u128>,
    pub after_column_id: Option<u128>,
}

/// Arguments of the command that appends a card to a column.
#[derive(Debug, Clone, PartialEq)]
pub struct CreateCardArgs {
    pub board_id: u128,
    pub column_id: u128,
    pub title: String,
}

/// Arguments of the command that edits a card; absent fields stay as they are,
/// and `due_date: Some(None)` clears the due date.
#[derive(Debug, Clone, PartialEq)]
pub struct UpdateCardArgs {
    pub card_id: u128,
    pub title: Option<String>,
    pub description: Option<String>,
    pub tags: Option<Vec<String>>,
    pub due_date: Option<Option<UtcTime>>,
    pub priority: Option<i32>,
}

/// Arguments of the command that moves a card into a column, next to other cards.
#[derive(Debug, Clone, PartialEq)]
pub struct MoveCardArgs {
    pub card_id: u128,
    pub to_column_id: u128,
    pub before_card_id: Option<u128>,
    pub after_card_id: Option<u128>,
}

/// Arguments of the command that deletes a card.
#[derive(Debug, Clone, PartialEq)]
pub struct DeleteCardArgs {
    pub card_id: u128,
}

/// Arguments of the command that deletes a column and its cards.
#[derive(Debug, Clone, PartialEq)]
pub struct DeleteColumnArgs {
    pub column_id: u128,
}

} // verus!
