use oxban::model::{BoardSummary, Card, Column, UtcTime};
use oxban::ui::{
    board_route, card_badges, card_for_modal, card_matches_search, cards_for_column, columns_sorted,
    default_board_request, drop_move_request, new_card_title, new_column_request, parse_uuid,
    priority_from_input, save_card_request, select_active_board, tags_from_input,
    tags_input_text, visible_cards, Modal, Route, UiState,
};

const T0: UtcTime = UtcTime { secs: 0, nanos: 0 };

fn s(text: &str) -> String {
    text.to_string()
}

fn column(id: u128, pos: i64) -> Column {
    Column { id, board_id: 1, name: format!("c{id}"), pos, created_at: T0, updated_at: T0 }
}

fn card(id: u128, column_id: u128, pos: i64) -> Card {
    Card {
        id,
        board_id: 1,
        column_id,
        title: format!("Card {id}"),
        description: s(""),
        tags: vec![],
        due_date: None,
        priority: 0,
        pos,
        created_at: T0,
        updated_at: T0,
    }
}

fn ids_of_columns(columns: &[Column]) -> Vec<u128> {
    columns.iter().map(|c| c.id).collect()
}

fn ids_of_cards(cards: &[Card]) -> Vec<u128> {
    cards.iter().map(|c| c.id).collect()
}

#[test]
fn columns_are_sorted_stably_by_position() {
    let columns = vec![column(1, 30), column(2, 10), column(3, 20), column(4, 10), column(5, -5)];
    let sorted = columns_sorted(&columns);
    assert_eq!(ids_of_columns(&sorted), vec![5, 2, 4, 3, 1]);
    assert_eq!(columns_sorted(&sorted), sorted);
    assert!(columns_sorted(&[]).is_empty());
}

#[test]
fn cards_for_column_filters_and_sorts() {
    let cards = vec![
        card(1, 10, 300),
        card(2, 20, 100),
        card(3, 10, 100),
        card(4, 10, 300),
        card(5, 20, 50),
        card(6, 10, 200),
    ];
    let shown = cards_for_column(&cards, 10);
    assert_eq!(ids_of_cards(&shown), vec![3, 6, 1, 4]);
    assert!(shown.iter().all(|c| c.column_id == 10));
    assert_eq!(ids_of_cards(&cards_for_column(&cards, 20)), vec![5, 2]);
    assert!(cards_for_column(&cards, 30).is_empty());
    assert_eq!(shown[0], cards[2]);
}

#[test]
fn visible_cards_are_the_matching_cards_of_the_column_in_order() {
    let mut cards = vec![card(1, 10, 300), card(2, 20, 100), card(3, 10, 100), card(4, 10, 200)];
    cards[0].title = s("Paint the fence");
    cards[1].title = s("Paint the door");
    cards[2].tags = vec![s("PAINT")];
    cards[3].description = s("no match here");
    assert_eq!(ids_of_cards(&visible_cards(&cards, 10, " paint ")), vec![3, 1]);
    assert_eq!(ids_of_cards(&visible_cards(&cards, 10, "")), vec![3, 4, 1]);
    assert_eq!(ids_of_cards(&visible_cards(&cards, 20, "PAINT")), vec![2]);
    assert!(visible_cards(&cards, 10, "garden").is_empty());
    assert!(visible_cards(&cards, 30, "").is_empty());
}

#[test]
fn blank_search_matches_every_card() {
    let c = card(1, 10, 0);
    assert!(card_matches_search(&c, ""));
    assert!(card_matches_search(&c, "   \t"));
}

#[test]
fn search_ignores_case_and_surrounding_space() {
    let mut c = card(1, 10, 0);
    c.title = s("Fix the ROOF");
    c.description = s("Call the Plumber");
    c.tags = vec![s("Home"), s("URGENT")];
    assert!(card_matches_search(&c, "  roof "));
    assert!(card_matches_search(&c, "PLUMB"));
    assert!(card_matches_search(&c, "urg"));
    assert!(!card_matches_search(&c, "garden"));
    assert!(!card_matches_search(&c, "roof plumber"));
}

#[test]
fn parse_uuid_reads_ids() {
    assert_eq!(
        parse_uuid("550e8400-e29b-41d4-a716-446655440000"),
        Some(0x550e8400_e29b_41d4_a716_446655440000)
    );
    assert_eq!(parse_uuid("550e8400e29b41d4a716446655440000"), Some(0x550e8400_e29b_41d4_a716_446655440000));
    assert_eq!(parse_uuid("nope"), None);
}

fn summary(id: u128) -> BoardSummary {
    BoardSummary { id, name: format!("b{id}"), updated_at: T0 }
}

#[test]
fn active_board_follows_route_or_first() {
    let boards = vec![summary(7), summary(8)];
    assert_eq!(select_active_board(&boards, &None, None), Some(7));
    assert_eq!(select_active_board(&boards, &Some(Route::Home), Some(8)), Some(7));
    assert_eq!(select_active_board(&boards, &Some(board_route(8)), None), Some(8));
    assert_eq!(select_active_board(&boards, &Some(board_route(9)), Some(8)), Some(7));
    assert_eq!(
        select_active_board(&boards, &Some(Route::Board { id: s("garbage") }), None),
        Some(7)
    );
    assert_eq!(select_active_board(&[], &Some(board_route(8)), Some(3)), Some(3));
    assert_eq!(select_active_board(&[], &None, None), None);
}

#[test]
fn board_route_names_the_board() {
    let id = 0x550e8400_e29b_41d4_a716_446655440000;
    assert_eq!(board_route(id), Route::Board { id: s("550e8400-e29b-41d4-a716-446655440000") });
}

#[test]
fn board_route_writes_every_digit_in_lower_case() {
    let id = 0xa1a2a3a4_b1b2_c1c2_d1d2_d3d4d5d6d7d8;
    assert_eq!(board_route(id), Route::Board { id: s("a1a2a3a4-b1b2-c1c2-d1d2-d3d4d5d6d7d8") });
    assert_eq!(board_route(0), Route::Board { id: s("00000000-0000-0000-0000-000000000000") });
    assert_eq!(board_route(u128::MAX), Route::Board { id: s("ffffffff-ffff-ffff-ffff-ffffffffffff") });
}

#[test]
fn titles_are_trimmed_of_unicode_white_space() {
    assert_eq!(new_card_title("\u{3000}Plan\u{2003}\u{85}"), Some(s("Plan")));
    assert_eq!(new_card_title("\u{a0}\u{2028}"), None);
    assert_eq!(new_card_title("\u{200b}x"), Some(s("\u{200b}x")));
}

#[test]
fn ui_state_transitions() {
    let mut ui = UiState::default();
    assert_eq!(ui.search, "");
    assert_eq!(ui.modal, Modal::Closed);
    ui.set_search(s("roof"));
    ui.open_card(5);
    assert_eq!(ui.modal, Modal::CardDetail { card_id: 5 });
    ui.close_modal();
    assert_eq!(ui.modal, Modal::Closed);
    assert_eq!(ui.search, "roof");
    ui.start_drag(5);
    ui.drag_over(10);
    assert!(ui.drop_hint(10));
    assert!(!ui.drop_hint(11));
    assert_eq!(ui.dragging_card, Some(5));
    ui.end_drag();
    assert_eq!(ui.dragging_card, None);
    assert_eq!(ui.drag_over_column, None);
    assert!(!ui.drop_hint(10));
}

#[test]
fn default_board_only_when_there_is_none() {
    assert_eq!(default_board_request(0).unwrap().name, "My Board");
    assert!(default_board_request(2).is_none());
}

#[test]
fn new_column_needs_board_and_name() {
    let args = new_column_request(Some(4), "  Review  ").unwrap();
    assert_eq!(args.board_id, 4);
    assert_eq!(args.name, "Review");
    assert!(new_column_request(Some(4), "   ").is_none());
    assert!(new_column_request(None, "Review").is_none());
}

#[test]
fn new_card_title_is_trimmed() {
    assert_eq!(new_card_title("\tBuy milk \n"), Some(s("Buy milk")));
    assert_eq!(new_card_title("  "), None);
}

#[test]
fn dropping_a_card_moves_it_to_column_end() {
    let args = drop_move_request("00000000-0000-0000-0000-00000000002a", 10).unwrap();
    assert_eq!(args.card_id, 42);
    assert_eq!(args.to_column_id, 10);
    assert_eq!(args.before_card_id, None);
    assert_eq!(args.after_card_id, None);
    assert!(drop_move_request("plain text", 10).is_none());
}

#[test]
fn saving_a_card_sends_every_field() {
    let mut c = card(3, 10, 0);
    c.tags = vec![s("x")];
    c.priority = 2;
    c.due_date = Some(UtcTime { secs: 5, nanos: 1 });
    let args = save_card_request(&c);
    assert_eq!(args.card_id, 3);
    assert_eq!(args.title, Some(s("Card 3")));
    assert_eq!(args.description, Some(s("")));
    assert_eq!(args.tags, Some(vec![s("x")]));
    assert_eq!(args.due_date, Some(Some(UtcTime { secs: 5, nanos: 1 })));
    assert_eq!(args.priority, Some(2));
}

#[test]
fn modal_shows_the_opened_card() {
    let cards = vec![card(1, 10, 0), card(2, 10, 1)];
    assert_eq!(card_for_modal(&cards, &Modal::CardDetail { card_id: 2 }), Some(cards[1].clone()));
    assert_eq!(card_for_modal(&cards, &Modal::CardDetail { card_id: 9 }), None);
    assert_eq!(card_for_modal(&cards, &Modal::Closed), None);
}

#[test]
fn tags_are_read_from_comma_separated_input() {
    assert_eq!(tags_from_input("a, b,,c "), vec![s("a"), s("b"), s("c")]);
    assert_eq!(tags_from_input(""), Vec::<String>::new());
    assert_eq!(tags_from_input(" , ,"), Vec::<String>::new());
    assert_eq!(tags_from_input("one"), vec![s("one")]);
}

#[test]
fn tags_are_shown_comma_separated() {
    assert_eq!(tags_input_text(&vec![s("a"), s("b"), s("c")]), "a, b, c");
    assert_eq!(tags_input_text(&vec![]), "");
    assert_eq!(tags_from_input(&tags_input_text(&vec![s("x"), s("y z")])), vec![s("x"), s("y z")]);
}

#[test]
fn shown_tags_read_back_unless_they_hold_commas_or_edge_spaces() {
    let plain = vec![s("backend"), s("ui work"), s("p1")];
    assert_eq!(tags_from_input(&tags_input_text(&plain)), plain);
    let empty: Vec<String> = Vec::new();
    assert_eq!(tags_from_input(&tags_input_text(&empty)), empty);
    assert_eq!(tags_from_input(&tags_input_text(&vec![s("a,b")])), vec![s("a"), s("b")]);
    assert_eq!(tags_from_input(&tags_input_text(&vec![s(" x ")])), vec![s("x")]);
}

#[test]
fn priority_input_parses_or_is_zero() {
    assert_eq!(priority_from_input("3"), 3);
    assert_eq!(priority_from_input("+7"), 7);
    assert_eq!(priority_from_input("-12"), -12);
    assert_eq!(priority_from_input("-2147483648"), i32::MIN);
    assert_eq!(priority_from_input("2147483647"), i32::MAX);
    assert_eq!(priority_from_input("2147483648"), 0);
    assert_eq!(priority_from_input("99999999999999999999"), 0);
    assert_eq!(priority_from_input(" 7"), 0);
    assert_eq!(priority_from_input("7x"), 0);
    assert_eq!(priority_from_input("-"), 0);
    assert_eq!(priority_from_input(""), 0);
    assert_eq!(priority_from_input("007"), 7);
}

#[test]
fn card_shows_positive_priority_and_first_four_tags() {
    let mut c = card(1, 10, 0);
    c.priority = 2;
    c.tags = vec![s("a"), s("b"), s("c"), s("d"), s("e")];
    assert_eq!(card_badges(&c), (Some(2), vec![s("a"), s("b"), s("c"), s("d")]));
    c.priority = 0;
    c.tags = vec![s("x")];
    assert_eq!(card_badges(&c), (None, vec![s("x")]));
    c.priority = -3;
    c.tags = vec![];
    assert_eq!(card_badges(&c), (None, vec![]));
}
