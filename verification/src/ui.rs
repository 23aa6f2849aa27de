//! The board page's logic: ordering and filtering what is shown, choosing
//! the active board, and the requests that the page's controls send.

use vstd::prelude::*;

use crate::external::{
    lowercase, white_space, spec_lowercase, spec_uuid_parse, uuid_parse, uuid_text,
};
use crate::model::{
    card_models, column_models, summary_models, BoardSummary, Card, CardModel, Column,
    CreateBoardArgs, CreateColumnArgs, MoveCardArgs, SummaryModel, UpdateCardArgs,
};
use crate::text::{
    comma_list, contains_text, join_with, joined, lemma_comma_list_of_joined, plain_piece, occurs_in, parse_i32, parsed_i32,
    split_comma_list, trim, trimmed,
};
use crate::ordering::{
    is_stable_sort, lemma_at_position_push, lemma_insert_in_order, sorted_by_position,
};

verus! {

fn copy_column(c: &Column) -> (r: Column)
    ensures
        r@ == c@,
{
    Column {
        id: c.id,
        board_id: c.board_id,
        name: c.name.clone(),
        pos: c.pos,
        created_at: c.created_at,
        updated_at: c.updated_at,
    }
}

fn copy_card(c: &Card) -> (r: Card)
    ensures
        r@ == c@,
{
    let tags = c.tags.clone();
    assert(tags.deep_view() =~= c.tags.deep_view());
    Card {
        id: c.id,
        board_id: c.board_id,
        column_id: c.column_id,
        title: c.title.clone(),
        description: c.description.clone(),
        tags,
        due_date: c.due_date,
        priority: c.priority,
        pos: c.pos,
        created_at: c.created_at,
        updated_at: c.updated_at,
    }
}

/// Inserts `c` into the sorted `out` after every column at a position up to its own.
fn insert_column_in_order(out: &mut Vec<Column>, c: Column)
    requires
        sorted_by_position(column_models(old(out)@)),
    ensures
        exists|j: int|
            0 <= j <= old(out)@.len() && column_models(final(out)@) == column_models(old(out)@).insert(
                j,
                c@,
            ) && (forall|i: int|
                0 <= i < j ==> (#[trigger] column_models(old(out)@)[i]).pos <= c.pos) && (forall|
                i: int,
            |
                j <= i < old(out)@.len() ==> (#[trigger] column_models(old(out)@)[i]).pos > c.pos),
{
    let ghost before = column_models(out@);
    let mut j: usize = out.len();
    while j > 0 && out[j - 1].pos > c.pos
        invariant
            j <= out@.len(),
            before == column_models(out@),
            sorted_by_position(before),
            forall|i: int| j <= i < out@.len() ==> (#[trigger] before[i]).pos > c.pos,
        decreases j,
    {
        j = j - 1;
    }
    assert forall|i: int| 0 <= i < j implies (#[trigger] before[i]).pos <= c.pos by {
        if j > 0 {
            assert(before[i].pos <= before[j - 1].pos);
        }
    }
    let ghost cv = c@;
    out.insert(j, c);
    assert(column_models(out@) =~= before.insert(j as int, cv));
}

/// The columns ordered by position; columns at the same position keep
/// their relative order.
pub fn columns_sorted(columns: &[Column]) -> (out: Vec<Column>)
    ensures
        is_stable_sort(column_models(columns@), column_models(out@)),
{
    let mut out: Vec<Column> = Vec::with_capacity(columns.len());
    let mut i: usize = 0;
    assert(column_models(columns@.take(0)) =~= column_models(out@));
    while i < columns.len()
        invariant
            i <= columns@.len(),
            is_stable_sort(column_models(columns@.take(i as int)), column_models(out@)),
        decreases columns@.len() - i,
    {
        let c = copy_column(&columns[i]);
        let ghost before = column_models(out@);
        let ghost seen = column_models(columns@.take(i as int));
        insert_column_in_order(&mut out, c);
        proof {
            let j = choose|j: int|
                0 <= j <= before.len() && column_models(out@) == before.insert(j, c@) && (forall|
                    k: int,
                |
                    0 <= k < j ==> (#[trigger] before[k]).pos <= c.pos) && (forall|k: int|
                    j <= k < before.len() ==> (#[trigger] before[k]).pos > c.pos);
            lemma_insert_in_order(before, c@, j);
            lemma_at_position_push(seen, c@);
            assert(column_models(columns@.take(i + 1)) =~= seen.push(c@));
        }
        i = i + 1;
    }
    assert(columns@.take(i as int) =~= columns@);
    out
}

/// The cards of `s` in the column `column_id`, in their order in `s`.
pub open spec fn in_column(s: Seq<CardModel>, column_id: u128) -> Seq<CardModel> {
    s.filter(|c: CardModel| c.column_id == column_id)
}

/// Inserts `c` into the sorted `out` after every card at a position up to its own.
fn insert_card_in_order(out: &mut Vec<Card>, c: Card)
    requires
        sorted_by_position(card_models(old(out)@)),
    ensures
        exists|j: int|
            0 <= j <= old(out)@.len() && card_models(final(out)@) == card_models(old(out)@).insert(
                j,
                c@,
            ) && (forall|i: int|
                0 <= i < j ==> (#[trigger] card_models(old(out)@)[i]).pos <= c.pos) && (forall|
                i: int,
            |
                j <= i < old(out)@.len() ==> (#[trigger] card_models(old(out)@)[i]).pos > c.pos),
{
    let ghost before = card_models(out@);
    let mut j: usize = out.len();
    while j > 0 && out[j - 1].pos > c.pos
        invariant
            j <= out@.len(),
            before == card_models(out@),
            sorted_by_position(before),
            forall|i: int| j <= i < out@.len() ==> (#[trigger] before[i]).pos > c.pos,
        decreases j,
    {
        j = j - 1;
    }
    assert forall|i: int| 0 <= i < j implies (#[trigger] before[i]).pos <= c.pos by {
        if j > 0 {
            assert(before[i].pos <= before[j - 1].pos);
        }
    }
    let ghost cv = c@;
    out.insert(j, c);
    assert(card_models(out@) =~= before.insert(j as int, cv));
}

/// The cards of the column `column_id`, ordered by position; cards at the
/// same position keep their relative order.
pub fn cards_for_column(cards: &[Card], column_id: u128) -> (out: Vec<Card>)
    ensures
        is_stable_sort(in_column(card_models(cards@), column_id), card_models(out@)),
{
    let mut out: Vec<Card> = Vec::new();
    let mut i: usize = 0;
    proof {
        reveal(Seq::filter);
        assert(card_models(cards@.take(0)) =~= Seq::<CardModel>::empty());
        assert(card_models(out@) =~= Seq::<CardModel>::empty());
    }
    while i < cards.len()
        invariant
            i <= cards@.len(),
            is_stable_sort(in_column(card_models(cards@.take(i as int)), column_id), card_models(out@)),
        decreases cards@.len() - i,
    {
        let ghost seen = card_models(cards@.take(i as int));
        assert(card_models(cards@.take(i + 1)) =~= seen.push(cards@[i as int]@));
        proof {
            seen.lemma_filter_push(cards@[i as int]@, |c: CardModel| c.column_id == column_id);
        }
        if cards[i].column_id == column_id {
            let c = copy_card(&cards[i]);
            let ghost before = card_models(out@);
            insert_card_in_order(&mut out, c);
            proof {
                let j = choose|j: int|
                    0 <= j <= before.len() && card_models(out@) == before.insert(j, c@) && (forall|
                        k: int,
                    |
                        0 <= k < j ==> (#[trigger] before[k]).pos <= c.pos) && (forall|k: int|
                        j <= k < before.len() ==> (#[trigger] before[k]).pos > c.pos);
                lemma_insert_in_order(before, c@, j);
                lemma_at_position_push(in_column(seen, column_id), c@);
            }
        }
        i = i + 1;
    }
    assert(cards@.take(i as int) =~= cards@);
    out
}

/// Whether a card matches the search text, as a predicate for filtering.
pub open spec fn matching(search: Seq<char>) -> spec_fn(CardModel) -> bool {
    |c: CardModel| matches_search(c, search)
}

/// The cards a column shows are exactly its cards that match the search:
/// each shown card belongs to the column and matches, and each card of the
/// column that matches is shown.
pub proof fn lemma_visible_cards_match(
    cards: Seq<CardModel>,
    column_id: u128,
    search: Seq<char>,
    sorted: Seq<CardModel>,
    shown: Seq<CardModel>,
)
    requires
        is_stable_sort(in_column(cards, column_id), sorted),
        shown == sorted.filter(matching(search)),
    ensures
        forall|k: int|
            0 <= k < shown.len() ==> (#[trigger] shown[k]).column_id == column_id && matches_search(
                shown[k],
                search,
            ),
        forall|k: int|
            0 <= k < cards.len() && (#[trigger] cards[k]).column_id == column_id && matches_search(
                cards[k],
                search,
            ) ==> shown.contains(cards[k]),
{
    lemma_column_cards_belong(cards, column_id, sorted);
    assert forall|k: int| 0 <= k < shown.len() implies (#[trigger] shown[k]).column_id == column_id
        && matches_search(shown[k], search) by {
        sorted.lemma_filter_pred(matching(search), k);
        sorted.lemma_filter_contains_rev(matching(search), shown[k]);
        let m = choose|m: int| 0 <= m < sorted.len() && sorted[m] == shown[k];
        assert(sorted[m].column_id == column_id);
    }
    assert forall|k: int|
        0 <= k < cards.len() && (#[trigger] cards[k]).column_id == column_id && matches_search(
            cards[k],
            search,
        ) implies shown.contains(cards[k]) by {
        assert(sorted.contains(cards[k]));
        let m = choose|m: int| 0 <= m < sorted.len() && sorted[m] == cards[k];
        sorted.lemma_filter_contains(matching(search), m);
    }
}

/// The cards the board shows in a column: the column's cards in position
/// order (cards at equal positions in their order in `cards`), keeping only
/// those that match the search text.
pub fn visible_cards(cards: &[Card], column_id: u128, search: &str) -> (out: Vec<Card>)
    ensures
        exists|sorted: Seq<CardModel>|
            is_stable_sort(in_column(card_models(cards@), column_id), sorted) && card_models(out@)
                == sorted.filter(matching(search@)),
{
    let sorted = cards_for_column(cards, column_id);
    let ghost all = card_models(sorted@);
    let mut out: Vec<Card> = Vec::new();
    let mut i: usize = 0;
    proof {
        reveal(Seq::filter);
        assert(all.take(0) =~= Seq::<CardModel>::empty());
        assert(card_models(out@) =~= Seq::<CardModel>::empty());
    }
    while i < sorted.len()
        invariant
            all == card_models(sorted@),
            i <= sorted@.len(),
            card_models(out@) == all.take(i as int).filter(matching(search@)),
        decreases sorted@.len() - i,
    {
        assert(all.take(i + 1) =~= all.take(i as int).push(sorted@[i as int]@));
        proof {
            all.take(i as int).lemma_filter_push(sorted@[i as int]@, matching(search@));
        }
        if card_matches_search(&sorted[i], search) {
            let c = copy_card(&sorted[i]);
            let ghost before = card_models(out@);
            out.push(c);
            assert(card_models(out@) =~= before.push(c@));
        }
        i = i + 1;
    }
    assert(all.take(i as int) =~= all);
    out
}

/// The cards shown for a column all belong to it, and every card of the
/// column is shown.
pub proof fn lemma_column_cards_belong(cards: Seq<CardModel>, column_id: u128, shown: Seq<CardModel>)
    requires
        is_stable_sort(in_column(cards, column_id), shown),
    ensures
        forall|k: int| 0 <= k < shown.len() ==> (#[trigger] shown[k]).column_id == column_id,
        forall|k: int|
            0 <= k < cards.len() && (#[trigger] cards[k]).column_id == column_id ==> shown.contains(
                cards[k],
            ),
{
    let pred = |c: CardModel| c.column_id == column_id;
    crate::ordering::lemma_stable_sort_same_items(in_column(cards, column_id), shown);
    assert forall|k: int| 0 <= k < shown.len() implies (#[trigger] shown[k]).column_id
        == column_id by {
        let f = in_column(cards, column_id);
        assert(f.contains(shown[k]));
        let m = choose|m: int| 0 <= m < f.len() && f[m] == shown[k];
        cards.lemma_filter_pred(pred, m);
    }
    assert forall|k: int|
        0 <= k < cards.len() && (#[trigger] cards[k]).column_id == column_id implies shown.contains(
        cards[k],
    ) by {
        cards.lemma_filter_contains(pred, k);
        let f = in_column(cards, column_id);
        let m = choose|m: int| 0 <= m < f.len() && f[m] == cards[k];
        assert(shown.contains(f[m]));
    }
}

/// Whether a card matches the search text: the search, trimmed and in lower
/// case, is empty or occurs in the lower-cased title, description or one of
/// the tags.
pub open spec fn matches_search(card: CardModel, search: Seq<char>) -> bool {
    let q = spec_lowercase(trimmed(search));
    ||| q.len() == 0
    ||| occurs_in(spec_lowercase(card.title), q)
    ||| occurs_in(spec_lowercase(card.description), q)
    ||| exists|i: int| 0 <= i < card.tags.len() && occurs_in(spec_lowercase(#[trigger] card.tags[i]), q)
}

/// A card matches the search when the search, trimmed and lower-cased, is
/// empty or occurs in the lower-cased title, the lower-cased description or
/// any one of the lower-cased tags, and only then.
pub proof fn lemma_search_matches_any_field(card: CardModel, search: Seq<char>)
    ensures
        spec_lowercase(trimmed(search)).len() == 0 ==> matches_search(card, search),
        occurs_in(spec_lowercase(card.title), spec_lowercase(trimmed(search))) ==> matches_search(
            card,
            search,
        ),
        occurs_in(spec_lowercase(card.description), spec_lowercase(trimmed(search)))
            ==> matches_search(card, search),
        forall|i: int|
            0 <= i < card.tags.len() && occurs_in(
                spec_lowercase(#[trigger] card.tags[i]),
                spec_lowercase(trimmed(search)),
            ) ==> matches_search(card, search),
        matches_search(card, search) ==> {
            let q = spec_lowercase(trimmed(search));
            ||| q.len() == 0
            ||| occurs_in(spec_lowercase(card.title), q)
            ||| occurs_in(spec_lowercase(card.description), q)
            ||| exists|i: int|
                0 <= i < card.tags.len() && occurs_in(spec_lowercase(#[trigger] card.tags[i]), q)
        },
{
}

/// Whether `card` matches the search box's text.
pub fn card_matches_search(card: &Card, search: &str) -> (r: bool)
    ensures
        r == matches_search(card@, search@),
        (forall|i: int| 0 <= i < search@.len() ==> white_space(#[trigger] search@[i])) ==> r,
        occurs_in(spec_lowercase(card.title@), spec_lowercase(trimmed(search@))) ==> r,
        occurs_in(spec_lowercase(card.description@), spec_lowercase(trimmed(search@))) ==> r,
        forall|i: int|
            0 <= i < card.tags@.len() && occurs_in(
                spec_lowercase((#[trigger] card.tags@[i])@),
                spec_lowercase(trimmed(search@)),
            ) ==> r,
{
    proof {
        if forall|i: int| 0 <= i < search@.len() ==> white_space(#[trigger] search@[i]) {
            lemma_blank_trims_to_empty(search@);
        }
    }
    let query = lowercase(trim(search));
    if query.as_str().is_empty() {
        return true;
    }
    let title = lowercase(card.title.as_str());
    if contains_text(title.as_str(), query.as_str()) {
        return true;
    }
    let description = lowercase(card.description.as_str());
    if contains_text(description.as_str(), query.as_str()) {
        return true;
    }
    let mut i: usize = 0;
    while i < card.tags.len()
        invariant
            i <= card.tags@.len(),
            query@ == spec_lowercase(trimmed(search@)),
            forall|k: int|
                0 <= k < i ==> !occurs_in(spec_lowercase(#[trigger] card.tags.deep_view()[k]), query@),
        decreases card.tags@.len() - i,
    {
        let tag = lowercase(card.tags[i].as_str());
        if contains_text(tag.as_str(), query.as_str()) {
            assert(card.tags.deep_view()[i as int] == card.tags@[i as int]@);
            assert(occurs_in(spec_lowercase(card@.tags[i as int]), query@));
            return true;
        }
        assert(card.tags.deep_view()[i as int] == card.tags@[i as int]@);
        i = i + 1;
    }
    assert forall|k: int| 0 <= k < card.tags@.len() implies !occurs_in(
        spec_lowercase((#[trigger] card.tags@[k])@),
        query@,
    ) by {
        assert(card.tags.deep_view()[k] == card.tags@[k]@);
    }
    false
}

proof fn lemma_blank_trims_to_empty(s: Seq<char>)
    requires
        forall|i: int| 0 <= i < s.len() ==> white_space(#[trigger] s[i]),
    ensures
        trimmed(s) == Seq::<char>::empty(),
    decreases s.len(),
{
    if s.len() > 0 {
        let t = s.drop_first();
        assert forall|i: int| 0 <= i < t.len() implies white_space(#[trigger] t[i]) by {
            assert(t[i] == s[i + 1]);
        }
        lemma_blank_trims_to_empty(t);
        assert(white_space(s[0]));
    }
}

/// Reads a board id from a route parameter.
pub fn parse_uuid(raw: &str) -> (r: Option<u128>)
    ensures
        r == spec_uuid_parse(raw@),
{
    uuid_parse(raw)
}

/// The pages of the application.
#[derive(Debug, Clone, PartialEq, Eq)]
pub enum Route {
    /// `/`
    Home,
    /// `/board/:id`
    Board { id: String },
    /// Anything else.
    NotFound,
}

/// The board a route names, if it names one by a valid id.
pub open spec fn route_board(route: Option<Route>) -> Option<u128> {
    match route {
        Some(Route::Board { id }) => spec_uuid_parse(id@),
        _ => None,
    }
}

/// Whether `id` is the id of one of `boards`.
pub open spec fn lists_board(boards: Seq<SummaryModel>, id: u128) -> bool {
    exists|i: int| 0 <= i < boards.len() && (#[trigger] boards[i]).id == id
}

/// The active board after the board list or the route changed: with no
/// boards it stays as it is; otherwise it is the board the route names if
/// that board is listed, else the first board.
pub open spec fn active_board_after(
    boards: Seq<SummaryModel>,
    route: Option<Route>,
    current: Option<u128>,
) -> Option<u128> {
    if boards.len() == 0 {
        current
    } else {
        match route_board(route) {
            Some(id) => if lists_board(boards, id) {
                Some(id)
            } else {
                Some(boards[0].id)
            },
            None => Some(boards[0].id),
        }
    }
}

/// The route of a board's page.
pub fn board_route(board_id: u128) -> (r: Route)
    ensures
        route_board(Some(r)) == Some(board_id),
        r matches Route::Board { id } && id@ == crate::external::uuid_hyphenated(board_id),
{
    Route::Board { id: uuid_text(board_id) }
}

/// Chooses the active board from the board list and the route.
pub fn select_active_board(boards: &[BoardSummary], route: &Option<Route>, current: Option<u128>) -> (r: Option<u128>)
    ensures
        r == active_board_after(summary_models(boards@), *route, current),
{
    let ghost models = summary_models(boards@);
    if boards.len() == 0 {
        return current;
    }
    let route_id = match route {
        Some(Route::Board { id }) => parse_uuid(id.as_str()),
        _ => None,
    };
    assert(route_id == route_board(*route));
    if let Some(id) = route_id {
        let mut i: usize = 0;
        while i < boards.len()
            invariant
                i <= boards@.len(),
                models == summary_models(boards@),
                boards@.len() > 0,
                route_board(*route) == Some(id),
                forall|k: int| 0 <= k < i ==> (#[trigger] models[k]).id != id,
            decreases boards@.len() - i,
        {
            if boards[i].id == id {
                assert(models[i as int].id == id);
                return Some(id);
            }
            i = i + 1;
        }
    }
    Some(boards[0].id)
}

/// The route decides the active board: a listed board that the route names
/// by a valid id becomes active; otherwise the first board does; and with no
/// boards the active board stays as it was.
pub proof fn lemma_route_picks_active_board(
    boards: Seq<SummaryModel>,
    route: Option<Route>,
    current: Option<u128>,
    id: u128,
)
    ensures
        boards.len() == 0 ==> active_board_after(boards, route, current) == current,
        (route matches Some(Route::Board { id: text }) && spec_uuid_parse(text@) == Some(id))
            ==> (exists|i: int| 0 <= i < boards.len() && (#[trigger] boards[i]).id == id)
            ==> active_board_after(boards, route, current) == Some(id),
        boards.len() > 0 && !(route is Some && route->0 is Board) ==> active_board_after(
            boards,
            route,
            current,
        ) == Some(boards[0].id),
        boards.len() > 0 && (forall|i: int| 0 <= i < boards.len() ==> (#[trigger] boards[i]).id
            != id) && (route matches Some(Route::Board { id: text }) && spec_uuid_parse(text@)
            == Some(id)) ==> active_board_after(boards, route, current) == Some(boards[0].id),
{
}

/// With at least one board, the active board is always one of them.
pub proof fn lemma_active_board_listed(
    boards: Seq<SummaryModel>,
    route: Option<Route>,
    current: Option<u128>,
)
    requires
        boards.len() > 0,
    ensures
        active_board_after(boards, route, current) matches Some(id) && lists_board(boards, id),
{
    assert(boards[0].id == boards[0].id);
}

/// Opening the page of a listed board makes it the active board.
pub proof fn lemma_route_selects_board(
    boards: Seq<SummaryModel>,
    route: Route,
    board_id: u128,
    current: Option<u128>,
)
    requires
        route_board(Some(route)) == Some(board_id),
        lists_board(boards, board_id),
    ensures
        active_board_after(boards, Some(route), current) == Some(board_id),
{
}

/// The dialog shown over the board.
#[derive(Debug, Clone, PartialEq, Eq)]
pub enum Modal {
    /// No dialog.
    Closed,
    /// The details of a card.
    CardDetail { card_id: u128 },
}

/// The board page's local state.
#[derive(Debug, Clone, PartialEq)]
pub struct UiState {
    /// The text of the search box.
    pub search: String,
    pub modal: Modal,
    /// The card being dragged.
    pub dragging_card: Option<u128>,
    /// The column a card is being dragged over.
    pub drag_over_column: Option<u128>,
}

impl Default for UiState {
    fn default() -> (r: Self)
        ensures
            r.search@.len() == 0,
            r.modal == Modal::Closed,
            r.dragging_card is None,
            r.drag_over_column is None,
    {
        UiState {
            search: String::new(),
            modal: Modal::Closed,
            dragging_card: None,
            drag_over_column: None,
        }
    }
}

impl UiState {
    /// Replaces the search text.
    pub fn set_search(&mut self, text: String)
        ensures
            final(self).search == text,
            final(self).modal == old(self).modal,
            final(self).dragging_card == old(self).dragging_card,
            final(self).drag_over_column == old(self).drag_over_column,
    {
        self.search = text;
    }

    /// Opens the details of a card.
    pub fn open_card(&mut self, card_id: u128)
        ensures
            final(self).modal == (Modal::CardDetail { card_id }),
            final(self).search == old(self).search,
            final(self).dragging_card == old(self).dragging_card,
            final(self).drag_over_column == old(self).drag_over_column,
    {
        self.modal = Modal::CardDetail { card_id };
    }

    /// Closes the dialog (also done after a card is saved).
    pub fn close_modal(&mut self)
        ensures
            final(self).modal == Modal::Closed,
            final(self).search == old(self).search,
            final(self).dragging_card == old(self).dragging_card,
            final(self).drag_over_column == old(self).drag_over_column,
    {
        self.modal = Modal::Closed;
    }

    /// A card starts being dragged.
    pub fn start_drag(&mut self, card_id: u128)
        ensures
            final(self).dragging_card == Some(card_id),
            final(self).search == old(self).search,
            final(self).modal == old(self).modal,
            final(self).drag_over_column == old(self).drag_over_column,
    {
        self.dragging_card = Some(card_id);
    }

    /// The dragged card moves over a column.
    pub fn drag_over(&mut self, column_id: u128)
        ensures
            final(self).drag_over_column == Some(column_id),
            final(self).search == old(self).search,
            final(self).modal == old(self).modal,
            final(self).dragging_card == old(self).dragging_card,
    {
        self.drag_over_column = Some(column_id);
    }

    /// Dragging ends, dropped or not.
    pub fn end_drag(&mut self)
        ensures
            final(self).dragging_card is None,
            final(self).drag_over_column is None,
            final(self).search == old(self).search,
            final(self).modal == old(self).modal,
    {
        self.dragging_card = None;
        self.drag_over_column = None;
    }

    /// Whether the column is highlighted as the drop target.
    pub fn drop_hint(&self, column_id: u128) -> (r: bool)
        ensures
            r == (self.drag_over_column == Some(column_id)),
    {
        match self.drag_over_column {
            Some(id) => id == column_id,
            None => false,
        }
    }
}

/// Opening a card and closing the dialog again leaves the page as it was
/// before, as far as the dialog was closed then.
pub proof fn lemma_open_then_close(before: UiState, opened: UiState, closed: UiState, card_id: u128)
    requires
        before.modal == Modal::Closed,
        opened.modal == (Modal::CardDetail { card_id }),
        opened.search == before.search,
        opened.dragging_card == before.dragging_card,
        opened.drag_over_column == before.drag_over_column,
        closed.modal == Modal::Closed,
        closed.search == opened.search,
        closed.dragging_card == opened.dragging_card,
        closed.drag_over_column == opened.drag_over_column,
    ensures
        closed == before,
{
}

/// The name of the board created when there is none.
pub const DEFAULT_BOARD_NAME: &'static str = "My Board";

/// The board to create when the board list is empty: one named `My Board`.
pub fn default_board_request(board_count: usize) -> (r: Option<CreateBoardArgs>)
    ensures
        r is Some <==> board_count == 0,
        r matches Some(args) ==> args.name@ == DEFAULT_BOARD_NAME@,
{
    if board_count == 0 {
        Some(CreateBoardArgs { name: DEFAULT_BOARD_NAME.to_owned() })
    } else {
        None
    }
}

/// The column to create from the "New column" input: none without an
/// active board or when the trimmed input is empty.
pub fn new_column_request(active_board: Option<u128>, input: &str) -> (r: Option<CreateColumnArgs>)
    ensures
        r is Some <==> active_board is Some && trimmed(input@).len() > 0,
        r matches Some(args) ==> active_board == Some(args.board_id) && args.name@ == trimmed(
            input@,
        ),
{
    let board_id = match active_board {
        Some(id) => id,
        None => return None,
    };
    let name = trim(input);
    if name.is_empty() {
        None
    } else {
        Some(CreateColumnArgs { board_id, name: name.to_owned() })
    }
}

/// The title of the card to create from a column's "New card title" input:
/// the trimmed input, or none when it is empty.
pub fn new_card_title(input: &str) -> (r: Option<String>)
    ensures
        r is Some <==> trimmed(input@).len() > 0,
        r matches Some(title) ==> title@ == trimmed(input@),
{
    let title = trim(input);
    if title.is_empty() {
        None
    } else {
        Some(title.to_owned())
    }
}

/// The move for a card dropped on a column: the dragged text names the card;
/// it goes to the end of the column. Text that is not a UUID moves nothing.
pub fn drop_move_request(dragged: &str, column_id: u128) -> (r: Option<MoveCardArgs>)
    ensures
        r is Some <==> spec_uuid_parse(dragged@) is Some,
        r matches Some(args) ==> Some(args.card_id) == spec_uuid_parse(dragged@) && args.to_column_id
            == column_id && args.before_card_id is None && args.after_card_id is None,
{
    match parse_uuid(dragged) {
        Some(card_id) => Some(
            MoveCardArgs { card_id, to_column_id: column_id, before_card_id: None, after_card_id: None },
        ),
        None => None,
    }
}

/// The edit sent when the card dialog is saved: every editable field, as
/// the dialog holds it.
pub fn save_card_request(card: &Card) -> (r: UpdateCardArgs)
    ensures
        r.card_id == card.id,
        r.title matches Some(t) && t@ == card.title@,
        r.description matches Some(d) && d@ == card.description@,
        r.tags matches Some(tags) && tags.deep_view() == card.tags.deep_view(),
        r.due_date == Some(card.due_date),
        r.priority == Some(card.priority),
{
    let tags = card.tags.clone();
    assert(tags.deep_view() =~= card.tags.deep_view());
    UpdateCardArgs {
        card_id: card.id,
        title: Some(card.title.clone()),
        description: Some(card.description.clone()),
        tags: Some(tags),
        due_date: Some(card.due_date),
        priority: Some(card.priority),
    }
}

/// The card whose details the dialog shows: the first card with the
/// dialog's card id, if the dialog is open and such a card exists.
pub fn card_for_modal(cards: &[Card], modal: &Modal) -> (r: Option<Card>)
    ensures
        match *modal {
            Modal::Closed => r is None,
            Modal::CardDetail { card_id } => match r {
                Some(c) => exists|k: int|
                    0 <= k < cards@.len() && cards@[k].id == card_id && c@ == cards@[k]@ && (forall|
                        m: int,
                    |
                        0 <= m < k ==> (#[trigger] cards@[m]).id != card_id),
                None => forall|k: int| 0 <= k < cards@.len() ==> (#[trigger] cards@[k]).id != card_id,
            },
        },
{
    let card_id = match modal {
        Modal::Closed => return None,
        Modal::CardDetail { card_id } => *card_id,
    };
    let mut i: usize = 0;
    while i < cards.len()
        invariant
            i <= cards@.len(),
            *modal == (Modal::CardDetail { card_id }),
            forall|m: int| 0 <= m < i ==> (#[trigger] cards@[m]).id != card_id,
        decreases cards@.len() - i,
    {
        if cards[i].id == card_id {
            let c = copy_card(&cards[i]);
            assert(cards@[i as int].id == card_id && c@ == cards@[i as int]@);
            return Some(c);
        }
        i = i + 1;
    }
    None
}

/// The most tags a card shows on the board.
pub const SHOWN_TAGS: usize = 4;

/// What a card shows on the board besides its title: its priority when it
/// is above zero, and its first four tags.
pub fn card_badges(card: &Card) -> (r: (Option<i32>, Vec<String>))
    ensures
        r.0 == (if card.priority > 0 {
            Some(card.priority)
        } else {
            None
        }),
        r.1.deep_view() == card.tags.deep_view().take(
            if card.tags@.len() < SHOWN_TAGS {
                card.tags@.len() as int
            } else {
                SHOWN_TAGS as int
            },
        ),
{
    let priority = if card.priority > 0 {
        Some(card.priority)
    } else {
        None
    };
    let n: usize = if card.tags.len() < SHOWN_TAGS {
        card.tags.len()
    } else {
        SHOWN_TAGS
    };
    let mut tags: Vec<String> = Vec::with_capacity(n);
    let mut i: usize = 0;
    while i < n
        invariant
            n <= card.tags@.len(),
            i <= n,
            tags.deep_view() == card.tags.deep_view().take(i as int),
        decreases n - i,
    {
        let ghost before = tags.deep_view();
        let tag = card.tags[i].clone();
        assert(tag@ == card.tags.deep_view()[i as int]);
        tags.push(tag);
        assert(tags.deep_view() =~= before.push(tag@));
        assert(tags.deep_view() =~= card.tags.deep_view().take(i + 1));
        i = i + 1;
    }
    (priority, tags)
}

/// The tags typed in the card dialog: the comma-separated pieces, trimmed,
/// without empty ones.
pub fn tags_from_input(raw: &str) -> (r: Vec<String>)
    ensures
        r.deep_view() == comma_list(raw@),
{
    split_comma_list(raw)
}

/// The text of the card dialog's tags input: the tags joined by `, `.
pub fn tags_input_text(tags: &Vec<String>) -> (r: String)
    ensures
        r@ == joined(tags.deep_view(), ", "@),
{
    join_with(tags, ", ")
}

/// Tags shown in the card dialog's input read back as the same tags when
/// the input is saved as shown, provided each tag is not empty, holds no
/// comma, and neither starts nor ends with white space.
pub proof fn lemma_tags_input_reads_back(tags: Seq<Seq<char>>)
    requires
        forall|k: int| 0 <= k < tags.len() ==> plain_piece(#[trigger] tags[k]),
    ensures
        comma_list(joined(tags, ", "@)) == tags,
{
    reveal_strlit(", ");
    assert(", "@ =~= seq![',', ' ']);
    lemma_comma_list_of_joined(tags);
}

/// The priority typed in the card dialog: the number, or 0 when the input
/// is not an `i32`.
pub fn priority_from_input(raw: &str) -> (r: i32)
    ensures
        r == match parsed_i32(raw@) {
            Some(p) => p,
            None => 0,
        },
{
    match parse_i32(raw) {
        Some(p) => p,
        None => 0,
    }
}

} // verus!
