use thunes::ledger::amount::parse_amount;
use thunes::ledger::arg::{Arg, Block, Command};
use thunes::ledger::dispatch::{check_args, execute_blocks, fill_command, first_unfilled};
use thunes::ledger::helpers::{display_help, help};
use thunes::ledger::items::{
    balance, currency, list_items, new_item, remove_item, rename_account,
};
use thunes::ledger::notice::{Notice, NoticeKind};
use thunes::ledger::record::{account_exists, entry_exists, Account, Entry, Record};
use thunes::ledger::setup::setup_args;

fn args(values: &[&str]) -> Vec<Arg> {
    values.iter().map(|v| Arg { label: String::new(), value: v.to_string(), required: false }).collect()
}

fn kinds(notices: &[Notice]) -> Vec<NoticeKind> {
    notices.iter().map(|n| n.kind).collect()
}

fn ledger() -> Record {
    let mut rd = Record::empty("./records.json".to_string());
    assert!(new_item(&mut rd, &mut args(&["bank"]), "now").len() == 1);
    assert!(new_item(&mut rd, &mut args(&["cash"]), "now").len() == 1);
    new_item(&mut rd, &mut args(&["bank", "rent", "-800"]), "Mon Jan  1 00:00:00 2024");
    new_item(&mut rd, &mut args(&["bank", "salary", "2500.50", "2024-01-31", "January"]), "now");
    rd
}

#[test]
fn amounts_are_read_in_minor_units() {
    assert_eq!(parse_amount("12"), Some(1200));
    assert_eq!(parse_amount("12.5"), Some(1250));
    assert_eq!(parse_amount("12.05"), Some(1205));
    assert_eq!(parse_amount("-0.01"), Some(-1));
    assert_eq!(parse_amount("0"), Some(0));
    assert_eq!(parse_amount("-0"), Some(0));
    assert_eq!(parse_amount("007"), Some(700));
    assert_eq!(parse_amount("+5"), Some(500));
    assert_eq!(parse_amount("+0.5"), Some(50));
    assert_eq!(parse_amount("5."), Some(500));
    assert_eq!(parse_amount(".5"), Some(50));
    assert_eq!(parse_amount("-.05"), Some(-5));
    assert_eq!(parse_amount("+.5"), Some(50));
    assert_eq!(parse_amount("-7."), Some(-700));
    assert_eq!(parse_amount("92233720368547758.07"), Some(i64::MAX));
    assert_eq!(parse_amount("-92233720368547758.08"), Some(i64::MIN));
}

#[test]
fn what_is_no_amount_is_not_read() {
    for text in [
        "", "-", "+", ".", "-.", "+.", "1.234", ".123", "1,5", "1.2.3", "abc", "1a", "+-1", "-+1", "++1", "--1",
        " 1", "1 ", "1e3", "1e2", "1E2", "inf", "NaN", "infinity", "٣",
        "92233720368547758.08", "-92233720368547758.09", "92233720368547759", "99999999999999999999999999999",
        "340282366920938463463374607431768211456",
    ] {
        assert_eq!(parse_amount(text), None, "{text:?}");
    }
}

#[test]
fn a_new_account_is_empty_and_in_the_default_currency() {
    let mut rd = Record::empty(String::new());
    let told = new_item(&mut rd, &mut args(&["bank"]), "now");
    assert_eq!(kinds(&told), vec![NoticeKind::AccountCreated]);
    assert_eq!(told[0].subject, "bank");
    assert_eq!(rd.accounts.len(), 1);
    assert_eq!(rd.accounts[0].name, "bank");
    assert_eq!(rd.accounts[0].balance, 0);
    assert_eq!(rd.accounts[0].currency, "$");
    assert!(rd.accounts[0].entries.is_empty());

    let again = new_item(&mut rd, &mut args(&["bank"]), "now");
    assert_eq!(kinds(&again), vec![NoticeKind::AccountAlreadyExists]);
    assert!(again[0].kind.is_failure());
    assert_eq!(rd.accounts.len(), 1);
    assert!(new_item(&mut rd, &mut args(&[]), "now").is_empty());
}

#[test]
fn a_new_entry_takes_its_date_and_note_from_the_arguments() {
    let rd = ledger();
    let bank = &rd.accounts[0];
    assert_eq!(bank.entries.len(), 2);
    assert_eq!(bank.entries[0].label, "rent");
    assert_eq!(bank.entries[0].amount, -80000);
    assert_eq!(bank.entries[0].date, "Mon Jan  1 00:00:00 2024");
    assert_eq!(bank.entries[0].note, "");
    assert_eq!(bank.entries[1].label, "salary");
    assert_eq!(bank.entries[1].amount, 250050);
    assert_eq!(bank.entries[1].date, "2024-01-31");
    assert_eq!(bank.entries[1].note, "January");
    assert_eq!(bank.balance, 0);
    assert!(rd.accounts[1].entries.is_empty());
}

#[test]
fn a_note_is_read_only_as_the_fifth_of_five_arguments() {
    let mut rd = ledger();
    new_item(&mut rd, &mut args(&["cash", "a", "1", "d"]), "now");
    new_item(&mut rd, &mut args(&["cash", "b", "1", "d", "n", "extra"]), "now");
    assert_eq!(rd.accounts[1].entries[0].date, "d");
    assert_eq!(rd.accounts[1].entries[0].note, "");
    assert_eq!(rd.accounts[1].entries[1].note, "");
}

#[test]
fn a_new_entry_is_refused_with_the_reason() {
    let mut rd = ledger();
    let told = new_item(&mut rd, &mut args(&["nowhere", "x", "1"]), "now");
    assert_eq!(kinds(&told), vec![NoticeKind::AccountMissing]);
    assert_eq!(told[0].subject, "nowhere");
    assert_eq!(kinds(&new_item(&mut rd, &mut args(&["bank", "x"]), "now")), vec![NoticeKind::AmountMissing]);
    let told = new_item(&mut rd, &mut args(&["bank", "rent", "1"]), "now");
    assert_eq!(kinds(&told), vec![NoticeKind::EntryAlreadyExists]);
    assert_eq!(told[0].subject, "rent");
    assert_eq!(kinds(&new_item(&mut rd, &mut args(&["bank", "x", "lots"]), "now")), vec![NoticeKind::AmountInvalid]);
    // An entry that exists is reported before its amount is read.
    assert_eq!(
        kinds(&new_item(&mut rd, &mut args(&["bank", "rent", "lots"]), "now")),
        vec![NoticeKind::EntryAlreadyExists]
    );
    assert_eq!(rd.accounts[0].entries.len(), 2);
}

#[test]
fn accounts_and_entries_are_found_by_the_arguments() {
    let rd = ledger();
    assert!(account_exists(&rd, &args(&["bank"])));
    assert!(account_exists(&rd, &args(&["cash", "whatever"])));
    assert!(!account_exists(&rd, &args(&["Bank"])));
    assert!(!account_exists(&rd, &args(&[])));
    assert!(entry_exists(&rd.accounts[0], &args(&["bank", "rent"])));
    assert!(!entry_exists(&rd.accounts[0], &args(&["bank", "food"])));
    assert!(!entry_exists(&rd.accounts[1], &args(&["cash", "rent"])));
    assert_eq!(rd.account_position(&"cash".to_string()), Some(1));
    assert_eq!(rd.account_position(&"none".to_string()), None);
    assert_eq!(rd.accounts[0].entry_position(&"salary".to_string()), Some(1));
}

#[test]
fn an_account_starts_with_the_entry_given() {
    let entry = Entry { label: "first".to_string(), amount: 5, date: "d".to_string(), note: String::new() };
    let account = Account::new("bank".to_string(), entry);
    assert_eq!(account.name, "bank");
    assert_eq!(account.balance, 0);
    assert_eq!(account.currency, "$");
    assert_eq!(account.entries.len(), 1);
    assert_eq!(account.entries[0].label, "first");
}

#[test]
fn removing_an_entry_takes_its_amount_back_from_the_balance() {
    let mut rd = ledger();
    balance(&mut rd, &mut args(&["bank", "1000"]));
    let told = remove_item(&mut rd, &mut args(&["bank", "rent"]));
    assert_eq!(kinds(&told), vec![NoticeKind::EntryRemoved]);
    assert_eq!(told[0].subject, "rent");
    assert_eq!(told[0].detail, "bank");
    assert_eq!(rd.accounts[0].entries.len(), 1);
    assert_eq!(rd.accounts[0].entries[0].label, "salary");
    assert_eq!(rd.accounts[0].balance, 100000 + 80000);
    remove_item(&mut rd, &mut args(&["bank", "salary"]));
    assert_eq!(rd.accounts[0].balance, 180000 - 250050);

    let told = remove_item(&mut rd, &mut args(&["bank", "rent"]));
    assert_eq!(kinds(&told), vec![NoticeKind::EntryMissing]);
    let told = remove_item(&mut rd, &mut args(&["nowhere", "rent"]));
    assert_eq!(kinds(&told), vec![NoticeKind::AccountMissing]);
}

#[test]
fn removing_an_entry_leaves_the_ledger_alone_where_the_balance_would_not_fit() {
    let mut rd = ledger();
    rd.accounts[0].balance = i64::MAX;
    let told = remove_item(&mut rd, &mut args(&["bank", "rent"]));
    assert_eq!(kinds(&told), vec![NoticeKind::BalanceOutOfRange]);
    assert_eq!(rd.accounts[0].entries.len(), 2);
    assert_eq!(rd.accounts[0].balance, i64::MAX);
}

#[test]
fn removing_an_account_takes_the_first_of_that_name() {
    let mut rd = ledger();
    let told = remove_item(&mut rd, &mut args(&["bank"]));
    assert_eq!(kinds(&told), vec![NoticeKind::AccountRemoved]);
    assert_eq!(rd.accounts.len(), 1);
    assert_eq!(rd.accounts[0].name, "cash");
}

#[test]
fn renaming_keeps_everything_but_the_name() {
    let mut rd = ledger();
    let told = rename_account(&mut rd, &mut args(&["bank", "credit union"]));
    assert_eq!(kinds(&told), vec![NoticeKind::AccountRenamed]);
    assert_eq!(told[0].subject, "bank");
    assert_eq!(told[0].detail, "credit union");
    assert_eq!(rd.accounts[0].name, "credit union");
    assert_eq!(rd.accounts[0].entries.len(), 2);
    assert_eq!(rd.accounts[1].name, "cash");
    let told = rename_account(&mut rd, &mut args(&["bank", "x"]));
    assert_eq!(kinds(&told), vec![NoticeKind::AccountMissing]);
}

#[test]
fn a_balance_is_shown_or_set() {
    let mut rd = ledger();
    let told = balance(&mut rd, &mut args(&["bank"]));
    assert_eq!(kinds(&told), vec![NoticeKind::BalanceShown]);
    assert_eq!((told[0].subject.as_str(), told[0].amount, told[0].detail.as_str()), ("bank", 0, "$"));
    let told = balance(&mut rd, &mut args(&["bank", "-12.5"]));
    assert_eq!(kinds(&told), vec![NoticeKind::BalanceSet]);
    assert_eq!(told[0].amount, -1250);
    assert_eq!(rd.accounts[0].balance, -1250);
    assert_eq!(kinds(&balance(&mut rd, &mut args(&["bank", "much"]))), vec![NoticeKind::AmountInvalid]);
    assert_eq!(rd.accounts[0].balance, -1250);
    assert_eq!(kinds(&balance(&mut rd, &mut args(&["nowhere"]))), vec![NoticeKind::AccountMissing]);
    assert_eq!(kinds(&balance(&mut rd, &mut args(&[]))), vec![NoticeKind::NoAccountGiven]);
}

#[test]
fn a_currency_is_shown_or_set() {
    let mut rd = ledger();
    let told = currency(&mut rd, &mut args(&["bank"]));
    assert_eq!(kinds(&told), vec![NoticeKind::CurrencyShown]);
    assert_eq!(told[0].detail, "$");
    let told = currency(&mut rd, &mut args(&["bank", "EUR"]));
    assert_eq!(kinds(&told), vec![NoticeKind::CurrencySet]);
    assert_eq!(rd.accounts[0].currency, "EUR");
    assert_eq!(rd.accounts[1].currency, "$");
    assert_eq!(kinds(&currency(&mut rd, &mut args(&["nowhere", "EUR"]))), vec![NoticeKind::AccountMissing]);
    assert_eq!(kinds(&currency(&mut rd, &mut args(&[]))), vec![NoticeKind::NoAccountGiven]);
}

#[test]
fn listing_shows_accounts_or_the_entries_of_one() {
    let mut rd = ledger();
    let told = list_items(&mut rd, &mut args(&[]));
    assert_eq!(kinds(&told), vec![NoticeKind::AccountListed, NoticeKind::AccountListed]);
    assert_eq!(told[0].subject, "bank");
    assert_eq!(told[1].subject, "cash");
    let told = list_items(&mut rd, &mut args(&["bank"]));
    assert_eq!(kinds(&told), vec![NoticeKind::EntryListed, NoticeKind::EntryListed, NoticeKind::BalanceShown]);
    assert_eq!((told[0].subject.as_str(), told[0].amount), ("rent", -80000));
    assert_eq!((told[1].detail.as_str(), told[1].note.as_str()), ("2024-01-31", "January"));
    assert_eq!(told[2].subject, "bank");
    assert_eq!(kinds(&list_items(&mut rd, &mut args(&["cash"]))), vec![NoticeKind::NoEntries]);
    assert_eq!(kinds(&list_items(&mut rd, &mut args(&["nowhere"]))), vec![NoticeKind::AccountMissing]);
}

#[test]
fn help_is_asked_for_and_leaves_the_ledger_alone() {
    let mut rd = ledger();
    let told = display_help(&mut rd, &mut args(&["anything"]));
    assert_eq!(kinds(&told), vec![NoticeKind::Help]);
    assert_eq!(rd.accounts.len(), 2);
    assert!(help().starts_with("usage: accounts-cli"));
    assert!(help().contains("--balance | -b"));
}

#[test]
fn the_command_line_has_its_seven_switches() {
    let line = setup_args();
    assert_eq!(line.short, "");
    assert_eq!(line.long, "");
    assert!(line.fun.is_none());
    assert!(line.args.is_empty());
    let spelled: Vec<(&str, &str, usize)> =
        line.blocks.iter().map(|b| (b.short.as_str(), b.long.as_str(), b.args.len())).collect();
    assert_eq!(
        spelled,
        vec![
            ("-h", "--help", 0),
            ("-n", "--new", 6),
            ("-l", "--list", 1),
            ("-r", "--remove", 2),
            ("-b", "--balance", 2),
            ("-c", "--currency", 2),
            ("-re", "--rename", 2),
        ]
    );
    let commands: Vec<Option<Command>> = line.blocks.iter().map(|b| b.fun).collect();
    assert_eq!(
        commands,
        vec![
            Some(Command::Help),
            Some(Command::New),
            Some(Command::List),
            Some(Command::Remove),
            Some(Command::Balance),
            Some(Command::Currency),
            Some(Command::Rename),
        ]
    );
    let labels: Vec<&str> = line.blocks[1].args.iter().map(|a| a.label.as_str()).collect();
    assert_eq!(labels, vec!["account", "label", "amount", "entry type", "date", "note"]);
    assert!(line.blocks[1].args[0].required);
    assert!(!line.blocks[1].args[1].required);
    assert!(!line.blocks[2].args[0].required);
    assert!(line.blocks.iter().all(|b| b.blocks.is_empty()));
    assert!(line.blocks.iter().all(|b| b.args.iter().all(|a| a.value.is_empty())));
}

#[test]
fn blocks_are_built_by_adding_arguments_and_blocks() {
    let block = Block::new("-x", "--example", None)
        .register_args(vec![Arg::new("a", true)])
        .register_args(vec![Arg::new("b", false), Arg::new("c", false)])
        .register_blocks(vec![Block::new("-y", "--nested", Some(Command::Help))]);
    let labels: Vec<&str> = block.args.iter().map(|a| a.label.as_str()).collect();
    assert_eq!(labels, vec!["a", "b", "c"]);
    assert_eq!(block.blocks.len(), 1);
    let mut block = block;
    block.register_args_ref(vec![Arg::new("d", false)]);
    block.register_blocks_ref(vec![Block::new("-z", "--last", None), Block::new("-w", "--more", None)]);
    assert_eq!(block.args.len(), 4);
    assert_eq!(block.args[3].label, "d");
    let nested: Vec<&str> = block.blocks.iter().map(|b| b.short.as_str()).collect();
    assert_eq!(nested, vec!["-y", "-z", "-w"]);
    assert_eq!(block.short, "-x");
    assert_eq!(block.long, "--example");
}

#[test]
fn the_word_of_the_command_line_picks_the_block() {
    let line = setup_args();
    assert_eq!(check_args(&line, Some("-n")), 1);
    assert_eq!(check_args(&line, Some("--new")), 1);
    assert_eq!(check_args(&line, Some("--rename")), 6);
    assert_eq!(check_args(&line, Some("-h")), 0);
    assert_eq!(check_args(&line, Some("--nothing")), -1);
    assert_eq!(check_args(&line, Some("")), -1);
    assert_eq!(check_args(&line, None), -1);
}

#[test]
fn values_fill_the_arguments_in_order() {
    let mut line = setup_args();
    let values: Vec<String> = ["prog", "-n", "bank", "rent", "-800"].iter().map(|s| s.to_string()).collect();
    let next = fill_command(&values, 2, &mut line.blocks[1]);
    assert_eq!(next, 5);
    let given: Vec<&str> = line.blocks[1].args.iter().map(|a| a.value.as_str()).collect();
    assert_eq!(given, vec!["bank", "rent", "-800", "", "", ""]);
    assert_eq!(line.blocks[1].args[0].label, "account");
    assert!(line.blocks[1].args[0].required);
    assert_eq!(first_unfilled(&line.blocks[1].args), Some(3));

    let mut nested = Block::new("-a", "--all", None)
        .register_args(vec![Arg::new("one", false)])
        .register_blocks(vec![
            Block::new("", "", None).register_args(vec![Arg::new("two", false), Arg::new("three", false)]),
            Block::new("", "", None).register_args(vec![Arg::new("four", false)]),
        ]);
    let values: Vec<String> = ["1", "2", "3"].iter().map(|s| s.to_string()).collect();
    assert_eq!(fill_command(&values, 0, &mut nested), 3);
    assert_eq!(nested.args[0].value, "1");
    assert_eq!(nested.blocks[0].args[0].value, "2");
    assert_eq!(nested.blocks[0].args[1].value, "3");
    assert_eq!(nested.blocks[1].args[0].value, "");
    assert_eq!(fill_command(&values, 3, &mut nested), 3);
    assert_eq!(nested.args[0].value, "1");
}

#[test]
fn running_a_block_cuts_its_arguments_and_runs_its_command() {
    let mut rd = Record::empty(String::new());
    let mut line = setup_args();
    let values: Vec<String> = ["bank"].iter().map(|s| s.to_string()).collect();
    fill_command(&values, 0, &mut line.blocks[1]);
    let told = execute_blocks(&mut rd, &mut line.blocks[1], "now");
    assert_eq!(kinds(&told), vec![NoticeKind::AccountCreated]);
    assert_eq!(line.blocks[1].args.len(), 1);
    assert_eq!(rd.accounts.len(), 1);

    let mut line = setup_args();
    let values: Vec<String> = ["bank", "rent", "12", "", "note"].iter().map(|s| s.to_string()).collect();
    fill_command(&values, 0, &mut line.blocks[1]);
    let told = execute_blocks(&mut rd, &mut line.blocks[1], "today");
    assert_eq!(kinds(&told), vec![NoticeKind::EntryCreated]);
    // The empty date cuts the arguments: the note after it is not read.
    assert_eq!(line.blocks[1].args.len(), 3);
    assert_eq!(rd.accounts[0].entries[0].date, "today");
    assert_eq!(rd.accounts[0].entries[0].note, "");
}

#[test]
fn running_a_block_runs_the_blocks_nested_under_it_in_order() {
    let mut rd = Record::empty(String::new());
    let mut line = setup_args();
    let told = execute_blocks(&mut rd, &mut line, "now");
    // Help, new, list, remove, balance, currency and rename, each without arguments.
    assert_eq!(
        kinds(&told),
        vec![
            NoticeKind::Help,
            NoticeKind::NoAccountGiven,
            NoticeKind::NoAccountGiven,
            NoticeKind::NoAccountGiven,
            NoticeKind::NoAccountGiven,
        ]
    );
    assert!(line.blocks.iter().all(|b| b.args.is_empty()));
    assert_eq!(line.blocks.len(), 7);
    assert_eq!(line.blocks[6].long, "--rename");

    let mut outer = Block::new("", "", Some(Command::New)).register_args(vec![Arg {
        label: "account".to_string(),
        value: "bank".to_string(),
        required: true,
    }]);
    outer.register_blocks_ref(vec![
        Block::new("", "", Some(Command::Currency)).register_args(args(&["bank", "EUR"])),
        Block::new("", "", Some(Command::Rename)).register_args(args(&["bank"])),
        Block::new("", "", Some(Command::Rename)).register_args(args(&["bank", "credit"])),
        Block::new("", "", Some(Command::List)),
    ]);
    let told = execute_blocks(&mut rd, &mut outer, "now");
    assert_eq!(
        kinds(&told),
        vec![
            NoticeKind::AccountCreated,
            NoticeKind::CurrencySet,
            NoticeKind::NameMissing,
            NoticeKind::AccountRenamed,
            NoticeKind::AccountListed,
        ]
    );
    assert_eq!(told[4].subject, "credit");
    assert_eq!(rd.accounts[0].currency, "EUR");
}

#[test]
fn a_block_describes_itself_and_its_arguments() {
    let block = Block::new("-x", "--example", None).register_args(vec![
        Arg { label: "a".to_string(), value: "bank".to_string(), required: true },
        Arg { label: "b".to_string(), value: String::new(), required: false },
    ]);
    assert_eq!(
        block.to_text(),
        "(short: -x, long: --example)\n    arg => (value: bank, required: true)\n    arg => (value: , required: false)\n"
    );
    assert_eq!(Block::new("", "--nested", None).to_text(), "block is a subblock.\n");
    assert_eq!(Account::empty("bank".to_string()).to_text(), "account: 'bank'");
}
