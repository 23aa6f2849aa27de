use oxban::config::AppConfig;
use oxban::model::{UpdateCardArgs, UtcTime};
use oxban::store::{
    apply_card_update, decode_board, decode_card, decode_cards, decode_column, decode_columns,
    decode_id, decode_instant, decode_summaries, decode_summary, normalize_journal_mode,
    normalize_synchronous, pragma_statements, seed_columns, BoardRow, CardFields, CardRow,
    ColumnRow, DecodeError, EncodeError, SummaryRow, new_card_values,
};
use oxban::config::OrderingSection;

const BOARD: &str = "550e8400-e29b-41d4-a716-446655440000";
const BOARD_ID: u128 = 0x550e8400_e29b_41d4_a716_446655440000;
const COLUMN: &str = "6fa459ea-ee8a-3ca4-894e-db77e160355e";
const COLUMN_ID: u128 = 0x6fa459ea_ee8a_3ca4_894e_db77e160355e;
const CARD: &str = "00000000-0000-0000-0000-00000000002a";
const CARD_ID: u128 = 42;
const WHEN: &str = "2024-01-02T03:04:05Z";
const WHEN_AT: UtcTime = UtcTime { secs: 1_704_164_645, nanos: 0 };

fn s(text: &str) -> String {
    text.to_string()
}

fn card_row() -> CardRow {
    CardRow {
        id: s(CARD),
        board_id: s(BOARD),
        column_id: s(COLUMN),
        title: s("Write tests"),
        description: s("for the store"),
        tags_json: s(r#"["a","b c"]"#),
        due_date: None,
        priority: 2,
        pos: 3000,
        created_at: s(WHEN),
        updated_at: s("2024-01-02T03:04:05.5+01:00"),
    }
}

#[test]
fn decode_id_reads_uuid() {
    assert_eq!(decode_id(BOARD), Ok(BOARD_ID));
    assert_eq!(decode_id("not-a-uuid"), Err(DecodeError::InvalidId));
}

#[test]
fn decode_instant_reads_rfc3339_in_utc() {
    assert_eq!(decode_instant(WHEN), Ok(WHEN_AT));
    assert_eq!(
        decode_instant("2024-01-02T03:04:05.5+01:00"),
        Ok(UtcTime { secs: 1_704_161_045, nanos: 500_000_000 })
    );
    assert_eq!(decode_instant("yesterday"), Err(DecodeError::InvalidTimestamp));
}

#[test]
fn decode_summary_row() {
    let row = SummaryRow { id: s(BOARD), name: s("Work"), updated_at: s(WHEN) };
    let summary = decode_summary(&row).unwrap();
    assert_eq!(summary.id, BOARD_ID);
    assert_eq!(summary.name, "Work");
    assert_eq!(summary.updated_at, WHEN_AT);
}

#[test]
fn decode_board_row_checks_every_field() {
    let row = BoardRow { id: s(BOARD), name: s("Work"), created_at: s(WHEN), updated_at: s(WHEN) };
    let board = decode_board(&row).unwrap();
    assert_eq!(board.id, BOARD_ID);
    assert_eq!(board.created_at, WHEN_AT);
    let bad = BoardRow { updated_at: s("later"), ..row };
    assert_eq!(decode_board(&bad), Err(DecodeError::InvalidTimestamp));
}

#[test]
fn decode_column_row() {
    let row = ColumnRow {
        id: s(COLUMN),
        board_id: s(BOARD),
        name: s("Doing"),
        pos: 7,
        created_at: s(WHEN),
        updated_at: s(WHEN),
    };
    let column = decode_column(&row).unwrap();
    assert_eq!(column.id, COLUMN_ID);
    assert_eq!(column.board_id, BOARD_ID);
    assert_eq!(column.pos, 7);
    let bad = ColumnRow { board_id: s("x"), ..row };
    assert_eq!(decode_column(&bad), Err(DecodeError::InvalidId));
}

#[test]
fn decode_card_row() {
    let card = decode_card(&card_row()).unwrap();
    assert_eq!(card.id, CARD_ID);
    assert_eq!(card.column_id, COLUMN_ID);
    assert_eq!(card.tags, vec![s("a"), s("b c")]);
    assert_eq!(card.due_date, None);
    assert_eq!(card.priority, 2);
    assert_eq!(card.updated_at, UtcTime { secs: 1_704_161_045, nanos: 500_000_000 });
}

#[test]
fn decode_card_with_bad_tags_has_no_tags() {
    let row = CardRow { tags_json: s("{not json"), ..card_row() };
    assert_eq!(decode_card(&row).unwrap().tags, Vec::<String>::new());
}

#[test]
fn decode_card_reads_due_date_first() {
    let row = CardRow { id: s("bad"), due_date: Some(s("soon")), ..card_row() };
    assert_eq!(decode_card(&row), Err(DecodeError::InvalidTimestamp));
    let row = CardRow { id: s("bad"), due_date: Some(s(WHEN)), ..card_row() };
    assert_eq!(decode_card(&row), Err(DecodeError::InvalidId));
    let row = CardRow { due_date: Some(s(WHEN)), ..card_row() };
    assert_eq!(decode_card(&row).unwrap().due_date, Some(WHEN_AT));
}

#[test]
fn decode_lists_stop_at_first_error() {
    let good = card_row();
    let bad_id = CardRow { id: s("x"), ..card_row() };
    let bad_time = CardRow { created_at: s("x"), ..card_row() };
    assert_eq!(decode_cards(&vec![good.clone(), good.clone()]).unwrap().len(), 2);
    assert_eq!(decode_cards(&vec![good.clone(), bad_id.clone(), bad_time.clone()]), Err(DecodeError::InvalidId));
    assert_eq!(decode_cards(&vec![bad_time, bad_id]), Err(DecodeError::InvalidTimestamp));
    assert_eq!(decode_cards(&vec![]), Ok(vec![]));
    let summaries = vec![SummaryRow { id: s(BOARD), name: s("A"), updated_at: s(WHEN) }];
    assert_eq!(decode_summaries(&summaries).unwrap()[0].name, "A");
    let columns = vec![ColumnRow {
        id: s(COLUMN),
        board_id: s(BOARD),
        name: s("C"),
        pos: 1,
        created_at: s("bad"),
        updated_at: s(WHEN),
    }];
    assert_eq!(decode_columns(&columns), Err(DecodeError::InvalidTimestamp));
}

fn fields() -> CardFields {
    CardFields {
        title: s("Old"),
        description: s("old text"),
        tags_json: s(r#"["x"]"#),
        due_date: Some(s("2024-01-02T03:04:05+00:00")),
        priority: 1,
    }
}

fn no_change() -> UpdateCardArgs {
    UpdateCardArgs {
        card_id: CARD_ID,
        title: None,
        description: None,
        tags: None,
        due_date: None,
        priority: None,
    }
}

#[test]
fn empty_update_keeps_fields() {
    let f = apply_card_update(fields(), no_change()).unwrap();
    assert_eq!(f.title, "Old");
    assert_eq!(f.description, "old text");
    assert_eq!(f.tags_json, r#"["x"]"#);
    assert_eq!(f.due_date, Some(s("2024-01-02T03:04:05+00:00")));
    assert_eq!(f.priority, 1);
}

#[test]
fn update_replaces_given_fields() {
    let update = UpdateCardArgs {
        title: Some(s("New")),
        tags: Some(vec![s("urgent"), s("say \"hi\"")]),
        due_date: Some(Some(UtcTime { secs: 1_748_779_200, nanos: 0 })),
        priority: Some(5),
        ..no_change()
    };
    let f = apply_card_update(fields(), update).unwrap();
    assert_eq!(f.title, "New");
    assert_eq!(f.description, "old text");
    assert_eq!(f.tags_json, r#"["urgent","say \"hi\""]"#);
    assert_eq!(f.due_date, Some(s("2025-06-01T12:00:00+00:00")));
    assert_eq!(f.priority, 5);
}

#[test]
fn update_can_clear_due_date() {
    let update = UpdateCardArgs { due_date: Some(None), ..no_change() };
    assert_eq!(apply_card_update(fields(), update).unwrap().due_date, None);
}

#[test]
fn update_rejects_due_date_out_of_range() {
    let update = UpdateCardArgs {
        due_date: Some(Some(UtcTime { secs: i64::MAX, nanos: 0 })),
        ..no_change()
    };
    assert_eq!(apply_card_update(fields(), update).unwrap_err(), EncodeError::DueDateOutOfRange);
}

#[test]
fn updated_card_reads_back() {
    let tags = vec![s("one"), s(""), s("two, three")];
    let update = UpdateCardArgs {
        title: Some(s("Renamed")),
        tags: Some(tags.clone()),
        due_date: Some(Some(WHEN_AT)),
        ..no_change()
    };
    let f = apply_card_update(fields(), update).unwrap();
    let row = CardRow {
        title: f.title,
        description: f.description,
        tags_json: f.tags_json,
        due_date: f.due_date,
        priority: f.priority,
        ..card_row()
    };
    let card = decode_card(&row).unwrap();
    assert_eq!(card.title, "Renamed");
    assert_eq!(card.tags, tags);
    assert_eq!(card.due_date, Some(WHEN_AT));
}

#[test]
fn new_board_gets_default_columns() {
    let cfg = AppConfig::default();
    let seeded = seed_columns(&cfg);
    assert_eq!(
        seeded,
        vec![(s("To do"), 0), (s("Doing"), 1_000_000), (s("Done"), 2_000_000)]
    );
}

#[test]
fn new_board_without_seeding_gets_no_columns() {
    let mut cfg = AppConfig::default();
    cfg.app.seed_default_columns = false;
    assert!(seed_columns(&cfg).is_empty());
}

#[test]
fn journal_mode_is_normalized() {
    assert_eq!(normalize_journal_mode("wal"), "WAL");
    assert_eq!(normalize_journal_mode("Delete"), "DELETE");
    assert_eq!(normalize_journal_mode("truncate"), "TRUNCATE");
    assert_eq!(normalize_journal_mode("persist"), "PERSIST");
    assert_eq!(normalize_journal_mode("memory"), "MEMORY");
    assert_eq!(normalize_journal_mode("off"), "OFF");
    assert_eq!(normalize_journal_mode("fast"), "WAL");
    assert_eq!(normalize_journal_mode(""), "WAL");
    assert_eq!(normalize_journal_mode(normalize_journal_mode("memory")), "MEMORY");
}

#[test]
fn synchronous_is_normalized() {
    assert_eq!(normalize_synchronous("off"), "OFF");
    assert_eq!(normalize_synchronous("normal"), "NORMAL");
    assert_eq!(normalize_synchronous("Full"), "FULL");
    assert_eq!(normalize_synchronous("extra"), "EXTRA");
    assert_eq!(normalize_synchronous("fast"), "NORMAL");
    assert_eq!(normalize_synchronous("ßull"), "NORMAL");
}

#[test]
fn pragmas_follow_storage_settings() {
    let mut cfg = AppConfig::default();
    assert_eq!(
        pragma_statements(&cfg.storage),
        vec![
            s("PRAGMA foreign_keys = ON;"),
            s("PRAGMA journal_mode = WAL;"),
            s("PRAGMA synchronous = NORMAL;")
        ]
    );
    cfg.storage.foreign_keys = false;
    cfg.storage.journal_mode = s("memory");
    cfg.storage.synchronous = s("bogus");
    assert_eq!(
        pragma_statements(&cfg.storage),
        vec![
            s("PRAGMA foreign_keys = OFF;"),
            s("PRAGMA journal_mode = MEMORY;"),
            s("PRAGMA synchronous = NORMAL;")
        ]
    );
}

fn stored_due_date(at: UtcTime) -> Result<Option<UtcTime>, DecodeError> {
    let update = UpdateCardArgs { due_date: Some(Some(at)), ..no_change() };
    let f = apply_card_update(fields(), update).unwrap();
    let row = CardRow { due_date: f.due_date, ..card_row() };
    decode_card(&row).map(|card| card.due_date)
}

#[test]
fn due_dates_read_back_across_four_digit_years() {
    let first = UtcTime { secs: -62_167_219_200, nanos: 0 };
    let last = UtcTime { secs: 253_402_300_799, nanos: 999_999_999 };
    let fraction = UtcTime { secs: 1_704_164_645, nanos: 120_000_000 };
    let micros = UtcTime { secs: -1, nanos: 1_000 };
    assert_eq!(stored_due_date(first), Ok(Some(first)));
    assert_eq!(stored_due_date(last), Ok(Some(last)));
    assert_eq!(stored_due_date(fraction), Ok(Some(fraction)));
    assert_eq!(stored_due_date(micros), Ok(Some(micros)));
}

#[test]
fn due_dates_of_year_ten_thousand_do_not_read_back() {
    let update = UpdateCardArgs {
        due_date: Some(Some(UtcTime { secs: 253_402_300_800, nanos: 0 })),
        ..no_change()
    };
    let f = apply_card_update(fields(), update).unwrap();
    assert_eq!(f.due_date, Some(s("+10000-01-01T00:00:00+00:00")));
    assert_eq!(stored_due_date(UtcTime { secs: 253_402_300_800, nanos: 0 }), Err(DecodeError::InvalidTimestamp));
}

#[test]
fn new_card_values_are_empty_and_placed_last() {
    let ordering = OrderingSection { step: 1_000, min_gap: 4 };
    let (f, pos) = new_card_values(&ordering, Some(5_000), s("Plan"));
    assert_eq!(f.title, "Plan");
    assert_eq!(f.description, "");
    assert_eq!(f.tags_json, "[]");
    assert_eq!(f.due_date, None);
    assert_eq!(f.priority, 0);
    assert_eq!(pos, 6_000);
    let (_, first) = new_card_values(&ordering, None, s("First"));
    assert_eq!(first, 0);
    let (_, full) = new_card_values(&ordering, Some(i64::MAX - 10), s("Full"));
    assert_eq!(full, i64::MAX);
}

#[test]
fn due_dates_are_stored_over_chronos_whole_range() {
    let leap = UtcTime { secs: 59, nanos: 1_500_000_000 };
    let update = UpdateCardArgs { due_date: Some(Some(leap)), ..no_change() };
    let f = apply_card_update(fields(), update).unwrap();
    assert_eq!(f.due_date, Some(s("1970-01-01T00:00:60.500+00:00")));
    assert_eq!(stored_due_date(leap), Ok(Some(leap)));
    let not_leap = UtcTime { secs: 58, nanos: 1_500_000_000 };
    let update = UpdateCardArgs { due_date: Some(Some(not_leap)), ..no_change() };
    assert_eq!(apply_card_update(fields(), update).unwrap_err(), EncodeError::DueDateOutOfRange);
    let latest = UtcTime { secs: 8_210_266_876_799, nanos: 0 };
    let update = UpdateCardArgs { due_date: Some(Some(latest)), ..no_change() };
    assert_eq!(apply_card_update(fields(), update).unwrap().due_date, Some(s("+262142-12-31T23:59:59+00:00")));
    let earliest = UtcTime { secs: -8_334_601_228_800, nanos: 0 };
    let update = UpdateCardArgs { due_date: Some(Some(earliest)), ..no_change() };
    assert_eq!(apply_card_update(fields(), update).unwrap().due_date, Some(s("-262143-01-01T00:00:00+00:00")));
    for secs in [8_210_266_876_800, -8_334_601_228_801] {
        let update = UpdateCardArgs { due_date: Some(Some(UtcTime { secs, nanos: 0 })), ..no_change() };
        assert_eq!(apply_card_update(fields(), update).unwrap_err(), EncodeError::DueDateOutOfRange);
    }
}
