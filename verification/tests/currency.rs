use thunes::currency::{AddCurrencyOptions, Currency, UpdateCurrencyOptions};
use thunes::migrations::m1_account_filter::AccountFilterMigration;
use thunes::migrations::{run_migrations, start_migrations, Action, Answer, Migration};
use thunes::portfolio::budget::Tile;
use thunes::portfolio::budget::Type;
use thunes::portfolio::tile::{CountResult, Inner, WriteOptions};
use thunes::settings::{Settings, Theme};
use thunes::transaction::category::{category_or_other, other_category};
use thunes::RecordId;

#[test]
fn test_add_currency() {
    let euro = AddCurrencyOptions { name: "Euro".to_string(), symbol: Some("€".to_string()), decimal_digits: 2 }
        .into_currency(RecordId::new("currency", "eur"));
    let bitcoin =
        AddCurrencyOptions { name: "Bitcoin".to_string(), symbol: Some("₿".to_string()), decimal_digits: 8 }
            .into_currency(RecordId::new("currency", "btc"));

    assert_eq!(euro.data.name, "Euro".to_string());
    assert_eq!(euro.data.symbol, Some("€".to_string()));
    assert_eq!(euro.data.decimal_digits, 2);
    assert_eq!(bitcoin.data.name, "Bitcoin".to_string());
    assert_eq!(bitcoin.data.symbol, Some("₿".to_string()));
    assert_eq!(bitcoin.data.decimal_digits, 8);
}

#[test]
fn a_currency_may_have_no_symbol() {
    let points = AddCurrencyOptions { name: "Points".to_string(), symbol: None, decimal_digits: 0 }
        .into_currency(RecordId::new("currency", "pts"));
    assert_eq!(points.data.symbol, None);
    assert_eq!(points.data.decimal_digits, 0);
    assert_eq!(points.id, RecordId::new("currency", "pts"));
}

#[test]
fn an_update_replaces_only_the_fields_it_gives() {
    let stored = Currency { name: "Euro".to_string(), symbol: Some("€".to_string()), decimal_digits: 2 };
    let update = UpdateCurrencyOptions {
        id: RecordId::new("currency", "eur"),
        name: None,
        symbol: Some("EUR".to_string()),
        decimal_digits: Some(3),
    };
    let updated = update.apply(&stored);
    assert_eq!(updated.name, "Euro");
    assert_eq!(updated.symbol, Some("EUR".to_string()));
    assert_eq!(updated.decimal_digits, 3);
    let nothing = UpdateCurrencyOptions {
        id: RecordId::new("currency", "eur"),
        name: None,
        symbol: None,
        decimal_digits: None,
    };
    let same = nothing.apply(&stored);
    assert_eq!(same.name, "Euro");
    assert_eq!(same.symbol, Some("€".to_string()));
    assert_eq!(same.decimal_digits, 2);
}

#[test]
fn new_settings_are_dark_and_without_tags() {
    let settings = Settings::new("/var/backups".to_string());
    assert_eq!(settings.theme, Theme::Dark);
    assert!(settings.tags.is_empty());
    assert_eq!(settings.backups_path, "/var/backups");
    assert_eq!(Theme::default(), Theme::Dark);
}

#[test]
fn a_new_tile_goes_after_the_tiles_there_are() {
    let content = Inner::Budget(Tile { t: Type::Pie, budget: "budget:mine".to_string() });
    let tile = thunes::portfolio::tile::write(WriteOptions { content }, CountResult { count: 3 });
    assert_eq!(tile.order, 3);
    let stored = tile.with_id(RecordId::new("tile", "t"));
    assert_eq!(stored.order, 3);
    assert_eq!(stored.id, RecordId::new("tile", "t"));
    match stored.inner {
        Inner::Budget(t) => assert_eq!(t.budget, "budget:mine"),
        Inner::Currency(_) => panic!("a budget tile was written"),
    }
}

#[test]
fn the_fallback_category_is_other() {
    assert_eq!(other_category(), RecordId::new("category", "other"));
    assert_eq!(category_or_other(None), RecordId::new("category", "other"));
    assert_eq!(category_or_other(Some(RecordId::new("category", "food"))), RecordId::new("category", "food"));
}

#[test]
fn references_are_equal_when_table_and_key_are() {
    let a = RecordId::new("category", "food");
    assert!(a.same(&RecordId::new("category", "food")));
    assert!(!a.same(&RecordId::new("category", "foods")));
    assert!(!a.same(&RecordId::new("tag", "food")));
    assert!(a.same(&a.clone()));
}

#[test]
fn the_account_filter_migration_names_itself() {
    let m = AccountFilterMigration {};
    assert_eq!(m.name(), "Adding transaction filtering persistance for every account");
    assert_eq!(m.version(), "0.5.0");
    assert!(m.up().contains("filter"));
    assert!(m.down().contains("filter"));
}

#[test]
fn migrations_are_applied_in_order_and_written_down() {
    assert_eq!(start_migrations(0), Action::Finished);
    assert_eq!(start_migrations(2), Action::Check(0));
    assert_eq!(run_migrations(Action::Check(0), Answer::Done, 2), Action::Apply(0));
    assert_eq!(run_migrations(Action::Apply(0), Answer::Done, 2), Action::Record(0));
    assert_eq!(run_migrations(Action::Record(0), Answer::Done, 2), Action::Check(1));
    assert_eq!(run_migrations(Action::Check(1), Answer::AlreadyApplied, 2), Action::Finished);
    assert_eq!(run_migrations(Action::Check(0), Answer::AlreadyApplied, 2), Action::Check(1));
    assert_eq!(run_migrations(Action::Record(1), Answer::Done, 2), Action::Finished);
}

#[test]
fn a_failed_migration_is_taken_back_and_ends_the_run() {
    assert_eq!(run_migrations(Action::Check(0), Answer::Error, 2), Action::Failed);
    assert_eq!(run_migrations(Action::Apply(0), Answer::Error, 2), Action::Revert(0));
    assert_eq!(run_migrations(Action::Revert(0), Answer::Done, 2), Action::Failed);
    assert_eq!(run_migrations(Action::Revert(0), Answer::Error, 2), Action::Failed);
    assert_eq!(run_migrations(Action::Record(0), Answer::Error, 2), Action::Failed);
    assert_eq!(run_migrations(Action::Failed, Answer::Done, 2), Action::Failed);
    assert_eq!(run_migrations(Action::Finished, Answer::Error, 2), Action::Finished);
    assert_eq!(run_migrations(Action::Record(usize::MAX), Answer::Done, usize::MAX), Action::Finished);
}
