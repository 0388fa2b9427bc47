//! The commands of the ledger: each reads its arguments, changes the ledger
//! where it has to and tells what it did.

use crate::ledger::amount::{amount_of, parse_amount};
use crate::ledger::arg::{arg_values, Arg};
use crate::ledger::notice::{
    about, about_both, bare, notice_views, nothing, only, Notice, NoticeKind, NoticeView,
};
use crate::ledger::record::{
    account_exists, account_names, entry_exists, entry_labels, Account, AccountView, Entry,
    EntryView, Record, RecordView, DEFAULT_CURRENCY,
};
use vstd::prelude::*;

verus! {

/// The ledger with one more account, empty and in the default currency.
pub open spec fn with_new_account(rd: RecordView, name: Seq<char>) -> RecordView {
    RecordView {
        accounts: rd.accounts.push(
            AccountView {
                name,
                balance: 0,
                currency: DEFAULT_CURRENCY@,
                entries: Seq::empty(),
            },
        ),
        ..rd
    }
}

/// The ledger with the account at `at` put in place of the one there.
pub open spec fn with_account(rd: RecordView, at: int, account: AccountView) -> RecordView {
    RecordView { accounts: rd.accounts.update(at, account), ..rd }
}

/// What adding an account does: a notice where the name is taken, the new
/// account otherwise.
pub open spec fn new_account_outcome(rd: RecordView, args: Seq<Seq<char>>) -> (
    RecordView,
    Seq<NoticeView>,
) {
    if account_names(rd.accounts).contains(args[0]) {
        (rd, seq![about(NoticeKind::AccountAlreadyExists, args[0])])
    } else {
        (with_new_account(rd, args[0]), seq![about(NoticeKind::AccountCreated, args[0])])
    }
}

/// The entry that the arguments describe: label, amount, then an optional
/// date, for which `now` stands in, and a note that is read only where there
/// are exactly five arguments.
pub open spec fn entry_from(args: Seq<Seq<char>>, amount: i64, now: Seq<char>) -> EntryView {
    EntryView {
        label: args[1],
        amount: amount as int,
        date: if args.len() >= 4 {
            args[3]
        } else {
            now
        },
        note: if args.len() == 5 {
            args[4]
        } else {
            Seq::empty()
        },
    }
}

/// What adding an entry does. In this order: the account must exist, an
/// amount must be given, the label must be new to the account, the amount
/// must read as one; then the entry is added at the end of the account.
pub open spec fn new_entry_outcome(rd: RecordView, args: Seq<Seq<char>>, now: Seq<char>) -> (
    RecordView,
    Seq<NoticeView>,
) {
    match account_names(rd.accounts).index_of_first(args[0]) {
        None => (rd, seq![about(NoticeKind::AccountMissing, args[0])]),
        Some(at) => {
            let account = rd.accounts[at];
            if args.len() == 2 {
                (rd, seq![bare(NoticeKind::AmountMissing)])
            } else if entry_labels(account.entries).contains(args[1]) {
                (rd, seq![about(NoticeKind::EntryAlreadyExists, args[1])])
            } else {
                match amount_of(args[2]) {
                    None => (rd, seq![bare(NoticeKind::AmountInvalid)]),
                    Some(amount) => (
                        with_account(
                            rd,
                            at,
                            AccountView {
                                entries: account.entries.push(entry_from(args, amount, now)),
                                ..account
                            },
                        ),
                        seq![about(NoticeKind::EntryCreated, args[1])],
                    ),
                }
            }
        },
    }
}

/// What `new_item` does: nothing without arguments, a new account with one,
/// a new entry with more.
pub open spec fn new_item_outcome(rd: RecordView, args: Seq<Seq<char>>, now: Seq<char>) -> (
    RecordView,
    Seq<NoticeView>,
) {
    if args.len() == 0 {
        (rd, Seq::empty())
    } else if args.len() == 1 {
        new_account_outcome(rd, args)
    } else {
        new_entry_outcome(rd, args, now)
    }
}

/// Adds the account that the first argument names.
pub fn new_account(rd: &mut Record, args: &Vec<Arg>) -> (r: Vec<Notice>)
    requires
        args.len() > 0,
    ensures
        (final(rd)@, notice_views(r@)) == new_account_outcome(old(rd)@, arg_values(args@)),
{
    if account_exists(rd, args) {
        return only(Notice::about(NoticeKind::AccountAlreadyExists, &args[0].value));
    }
    let ghost before = rd@;
    rd.accounts.push(Account::empty(args[0].value.clone()));
    assert(rd@.accounts =~= with_new_account(before, arg_values(args@)[0]).accounts);
    only(Notice::about(NoticeKind::AccountCreated, &args[0].value))
}

/// Adds the entry that the arguments describe to the account that the first
/// of them names. `now` is the date that an entry without one gets.
pub fn new_entry(rd: &mut Record, args: &Vec<Arg>, now: &str) -> (r: Vec<Notice>)
    requires
        args.len() > 1,
    ensures
        (final(rd)@, notice_views(r@)) == new_entry_outcome(old(rd)@, arg_values(args@), now@),
{
    let ghost before = rd@;
    let ghost values = arg_values(args@);
    let at = match rd.account_position(&args[0].value) {
        Some(at) => at,
        None => {
            return only(Notice::about(NoticeKind::AccountMissing, &args[0].value));
        },
    };
    if args.len() == 2 {
        return only(Notice::bare(NoticeKind::AmountMissing));
    }
    if entry_exists(&rd.accounts[at], args) {
        return only(Notice::about(NoticeKind::EntryAlreadyExists, &args[1].value));
    }
    let amount = match parse_amount(args[2].value.as_str()) {
        Some(amount) => amount,
        None => {
            return only(Notice::bare(NoticeKind::AmountInvalid));
        },
    };
    let date = if args.len() >= 4 {
        args[3].value.clone()
    } else {
        now.to_owned()
    };
    let note = if args.len() == 5 {
        args[4].value.clone()
    } else {
        String::new()
    };
    let entry = Entry { label: args[1].value.clone(), amount, date, note };
    assert(entry@ == entry_from(values, amount, now@));
    let mut account = rd.accounts.remove(at);
    let ghost account_before = account@;
    account.entries.push(entry);
    assert(account@.entries =~= account_before.entries.push(entry_from(values, amount, now@)));
    rd.accounts.insert(at, account);
    assert(rd@.accounts =~= before.accounts.update(at as int, account@));
    only(Notice::about(NoticeKind::EntryCreated, &args[1].value))
}

/// Adds an account where one argument is given, an entry where more are.
/// `now` is the date that an entry without one gets.
pub fn new_item(rd: &mut Record, args: &mut Vec<Arg>, now: &str) -> (r: Vec<Notice>)
    ensures
        (final(rd)@, notice_views(r@)) == new_item_outcome(old(rd)@, arg_values(old(args)@), now@),
        final(args)@ == old(args)@,
{
    if args.len() == 1 {
        new_account(rd, args)
    } else if args.len() > 1 {
        new_entry(rd, args, now)
    } else {
        nothing()
    }
}

/// The ledger without the account at `at`.
pub open spec fn without_account(rd: RecordView, at: int) -> RecordView {
    RecordView { accounts: rd.accounts.remove(at), ..rd }
}

/// What removing an entry does: a notice where the account has no such
/// entry or its balance would leave the range of amounts; otherwise the
/// first entry of that label leaves the account and its amount is taken back
/// from the balance.
pub open spec fn remove_entry_outcome(rd: RecordView, args: Seq<Seq<char>>, at: int) -> (
    RecordView,
    Seq<NoticeView>,
) {
    let account = rd.accounts[at];
    match entry_labels(account.entries).index_of_first(args[1]) {
        None => (rd, seq![about_both(NoticeKind::EntryMissing, args[1], args[0])]),
        Some(e) => {
            let balance = account.balance - account.entries[e].amount;
            if i64::MIN <= balance <= i64::MAX {
                (
                    with_account(
                        rd,
                        at,
                        AccountView { balance, entries: account.entries.remove(e), ..account },
                    ),
                    seq![about_both(NoticeKind::EntryRemoved, args[1], args[0])],
                )
            } else {
                (rd, seq![bare(NoticeKind::BalanceOutOfRange)])
            }
        },
    }
}

/// What `remove_item` does: a notice where there is no such account; with
/// one argument the first account of that name leaves the ledger; with more
/// an entry leaves that account.
pub open spec fn remove_item_outcome(rd: RecordView, args: Seq<Seq<char>>) -> (
    RecordView,
    Seq<NoticeView>,
) {
    match account_names(rd.accounts).index_of_first(args[0]) {
        None => (rd, seq![about(NoticeKind::AccountMissing, args[0])]),
        Some(at) => if args.len() == 1 {
            (without_account(rd, at), seq![about(NoticeKind::AccountRemoved, args[0])])
        } else {
            remove_entry_outcome(rd, args, at)
        },
    }
}

/// Removes the account that the first argument names, or, where a second
/// argument is given, the entry of that label from the account.
pub fn remove_item(rd: &mut Record, args: &mut Vec<Arg>) -> (r: Vec<Notice>)
    requires
        old(args).len() > 0,
    ensures
        (final(rd)@, notice_views(r@)) == remove_item_outcome(old(rd)@, arg_values(old(args)@)),
        final(args)@ == old(args)@,
{
    let ghost before = rd@;
    let at = match rd.account_position(&args[0].value) {
        Some(at) => at,
        None => {
            return only(Notice::about(NoticeKind::AccountMissing, &args[0].value));
        },
    };
    if args.len() == 1 {
        rd.accounts.remove(at);
        assert(rd@.accounts =~= before.accounts.remove(at as int));
        return only(Notice::about(NoticeKind::AccountRemoved, &args[0].value));
    }
    let e = match rd.accounts[at].entry_position(&args[1].value) {
        Some(e) => e,
        None => {
            return only(
                Notice::about_both(NoticeKind::EntryMissing, &args[1].value, &args[0].value),
            );
        },
    };
    let balance = match rd.accounts[at].balance.checked_sub(rd.accounts[at].entries[e].amount) {
        Some(balance) => balance,
        None => {
            return only(Notice::bare(NoticeKind::BalanceOutOfRange));
        },
    };
    let mut account = rd.accounts.remove(at);
    let ghost account_before = account@;
    account.balance = balance;
    account.entries.remove(e);
    assert(account@.entries =~= account_before.entries.remove(e as int));
    rd.accounts.insert(at, account);
    assert(rd@.accounts =~= before.accounts.update(at as int, account@));
    only(Notice::about_both(NoticeKind::EntryRemoved, &args[1].value, &args[0].value))
}

/// What `rename_account` does: a notice where there is no such account;
/// otherwise the first account of that name takes the new one.
pub open spec fn rename_account_outcome(rd: RecordView, args: Seq<Seq<char>>) -> (
    RecordView,
    Seq<NoticeView>,
) {
    match account_names(rd.accounts).index_of_first(args[0]) {
        None => (rd, seq![about(NoticeKind::AccountMissing, args[0])]),
        Some(at) => (
            with_account(rd, at, AccountView { name: args[1], ..rd.accounts[at] }),
            seq![about_both(NoticeKind::AccountRenamed, args[0], args[1])],
        ),
    }
}

/// Gives the account that the first argument names the name that the second
/// argument holds.
pub fn rename_account(rd: &mut Record, args: &mut Vec<Arg>) -> (r: Vec<Notice>)
    requires
        old(args).len() > 1,
    ensures
        (final(rd)@, notice_views(r@)) == rename_account_outcome(old(rd)@, arg_values(old(args)@)),
        final(args)@ == old(args)@,
{
    let ghost before = rd@;
    let at = match rd.account_position(&args[0].value) {
        Some(at) => at,
        None => {
            return only(Notice::about(NoticeKind::AccountMissing, &args[0].value));
        },
    };
    let mut account = rd.accounts.remove(at);
    account.name = args[1].value.clone();
    rd.accounts.insert(at, account);
    assert(rd@.accounts =~= before.accounts.update(at as int, account@));
    only(Notice::about_both(NoticeKind::AccountRenamed, &args[0].value, &args[1].value))
}

/// The notice that shows the balance of an account.
pub open spec fn balance_shown(account: AccountView) -> NoticeView {
    NoticeView {
        kind: NoticeKind::BalanceShown,
        subject: account.name,
        detail: account.currency,
        note: Seq::empty(),
        amount: account.balance,
    }
}

/// The notice that shows the balance of the account.
pub fn show_balance(ac: &Account) -> (r: Notice)
    ensures
        r@ == balance_shown(ac@),
{
    Notice::with_amount(NoticeKind::BalanceShown, &ac.name, &ac.currency, ac.balance)
}

/// What `balance` does: a notice where no account is named or there is none
/// of that name; with one argument the balance of the account is shown; with
/// more it is set to the amount that the second argument writes, if it
/// writes one.
pub open spec fn balance_outcome(rd: RecordView, args: Seq<Seq<char>>) -> (
    RecordView,
    Seq<NoticeView>,
) {
    if args.len() == 0 {
        (rd, seq![bare(NoticeKind::NoAccountGiven)])
    } else {
        match account_names(rd.accounts).index_of_first(args[0]) {
            None => (rd, seq![about(NoticeKind::AccountMissing, args[0])]),
            Some(at) => if args.len() == 1 {
                (rd, seq![balance_shown(rd.accounts[at])])
            } else {
                match amount_of(args[1]) {
                    None => (rd, seq![bare(NoticeKind::AmountInvalid)]),
                    Some(amount) => (
                        with_account(
                            rd,
                            at,
                            AccountView { balance: amount as int, ..rd.accounts[at] },
                        ),
                        seq![
                            NoticeView {
                                kind: NoticeKind::BalanceSet,
                                subject: rd.accounts[at].name,
                                detail: Seq::empty(),
                                note: Seq::empty(),
                                amount: amount as int,
                            },
                        ],
                    ),
                }
            },
        }
    }
}

/// Shows the balance of the account that the first argument names, or sets
/// it to the amount that the second argument writes.
pub fn balance(rd: &mut Record, args: &mut Vec<Arg>) -> (r: Vec<Notice>)
    ensures
        (final(rd)@, notice_views(r@)) == balance_outcome(old(rd)@, arg_values(old(args)@)),
        final(args)@ == old(args)@,
{
    let ghost before = rd@;
    if args.len() == 0 {
        return only(Notice::bare(NoticeKind::NoAccountGiven));
    }
    let at = match rd.account_position(&args[0].value) {
        Some(at) => at,
        None => {
            return only(Notice::about(NoticeKind::AccountMissing, &args[0].value));
        },
    };
    if args.len() == 1 {
        return only(show_balance(&rd.accounts[at]));
    }
    let amount = match parse_amount(args[1].value.as_str()) {
        Some(amount) => amount,
        None => {
            return only(Notice::bare(NoticeKind::AmountInvalid));
        },
    };
    let mut account = rd.accounts.remove(at);
    account.balance = amount;
    let notice = Notice::with_amount(NoticeKind::BalanceSet, &account.name, &String::new(), amount);
    rd.accounts.insert(at, account);
    assert(rd@.accounts =~= before.accounts.update(at as int, account@));
    only(notice)
}

/// What `currency` does: a notice where no account is named or there is
/// none of that name; with one argument the currency of the account is shown;
/// with more it becomes what the second argument holds.
pub open spec fn currency_outcome(rd: RecordView, args: Seq<Seq<char>>) -> (
    RecordView,
    Seq<NoticeView>,
) {
    if args.len() == 0 {
        (rd, seq![bare(NoticeKind::NoAccountGiven)])
    } else {
        match account_names(rd.accounts).index_of_first(args[0]) {
            None => (rd, seq![about(NoticeKind::AccountMissing, args[0])]),
            Some(at) => if args.len() == 1 {
                (
                    rd,
                    seq![
                        about_both(
                            NoticeKind::CurrencyShown,
                            rd.accounts[at].name,
                            rd.accounts[at].currency,
                        ),
                    ],
                )
            } else {
                (
                    with_account(rd, at, AccountView { currency: args[1], ..rd.accounts[at] }),
                    seq![about_both(NoticeKind::CurrencySet, rd.accounts[at].name, args[1])],
                )
            },
        }
    }
}

/// Shows the currency of the account that the first argument names, or sets
/// it to what the second argument holds.
pub fn currency(rd: &mut Record, args: &mut Vec<Arg>) -> (r: Vec<Notice>)
    ensures
        (final(rd)@, notice_views(r@)) == currency_outcome(old(rd)@, arg_values(old(args)@)),
        final(args)@ == old(args)@,
{
    let ghost before = rd@;
    if args.len() == 0 {
        return only(Notice::bare(NoticeKind::NoAccountGiven));
    }
    let at = match rd.account_position(&args[0].value) {
        Some(at) => at,
        None => {
            return only(Notice::about(NoticeKind::AccountMissing, &args[0].value));
        },
    };
    if args.len() == 1 {
        return only(
            Notice::about_both(
                NoticeKind::CurrencyShown,
                &rd.accounts[at].name,
                &rd.accounts[at].currency,
            ),
        );
    }
    let mut account = rd.accounts.remove(at);
    account.currency = args[1].value.clone();
    let notice = Notice::about_both(NoticeKind::CurrencySet, &account.name, &args[1].value);
    rd.accounts.insert(at, account);
    assert(rd@.accounts =~= before.accounts.update(at as int, account@));
    only(notice)
}

/// The notice that lists an account.
pub open spec fn account_listed() -> spec_fn(AccountView) -> NoticeView {
    |a: AccountView| about(NoticeKind::AccountListed, a.name)
}

/// The notice that lists an entry.
pub open spec fn entry_listed() -> spec_fn(EntryView) -> NoticeView {
    |e: EntryView|
        NoticeView {
            kind: NoticeKind::EntryListed,
            subject: e.label,
            detail: e.date,
            note: e.note,
            amount: e.amount,
        }
}

/// What `list_items` tells: without arguments every account of the ledger,
/// in order; otherwise the entries of the account that the first argument
/// names, in order, and then its balance; a notice where there is no such
/// account or it has no entries.
pub open spec fn list_items_outcome(rd: RecordView, args: Seq<Seq<char>>) -> Seq<NoticeView> {
    if args.len() == 0 {
        rd.accounts.map_values(account_listed())
    } else {
        match account_names(rd.accounts).index_of_first(args[0]) {
            None => seq![about(NoticeKind::AccountMissing, args[0])],
            Some(at) => {
                let account = rd.accounts[at];
                if account.entries.len() == 0 {
                    seq![about(NoticeKind::NoEntries, account.name)]
                } else {
                    account.entries.map_values(entry_listed()).push(balance_shown(account))
                }
            },
        }
    }
}

/// Lists every account of the ledger.
pub fn list_accounts(rd: &Record) -> (r: Vec<Notice>)
    ensures
        notice_views(r@) == rd@.accounts.map_values(account_listed()),
{
    let mut out: Vec<Notice> = Vec::new();
    let mut i: usize = 0;
    while i < rd.accounts.len()
        invariant
            i <= rd.accounts.len(),
            out.len() == i,
            forall|j: int|
                0 <= j < i ==> (#[trigger] out@[j])@ == account_listed()(rd@.accounts[j]),
        decreases rd.accounts.len() - i,
    {
        out.push(Notice::about(NoticeKind::AccountListed, &rd.accounts[i].name));
        i += 1;
    }
    assert(notice_views(out@) =~= rd@.accounts.map_values(account_listed()));
    out
}

/// Lists the entries of the account and then its balance.
pub fn list_entries_of(ac: &Account) -> (r: Vec<Notice>)
    ensures
        notice_views(r@) == ac@.entries.map_values(entry_listed()).push(balance_shown(ac@)),
{
    let mut out: Vec<Notice> = Vec::new();
    let mut i: usize = 0;
    while i < ac.entries.len()
        invariant
            i <= ac.entries.len(),
            out.len() == i,
            forall|j: int| 0 <= j < i ==> (#[trigger] out@[j])@ == entry_listed()(ac@.entries[j]),
        decreases ac.entries.len() - i,
    {
        let e = &ac.entries[i];
        out.push(
            Notice {
                kind: NoticeKind::EntryListed,
                subject: e.label.clone(),
                detail: e.date.clone(),
                note: e.note.clone(),
                amount: e.amount,
            },
        );
        i += 1;
    }
    out.push(show_balance(ac));
    assert(notice_views(out@) =~= ac@.entries.map_values(entry_listed()).push(balance_shown(ac@)));
    out
}

/// Lists the accounts of the ledger, or the entries of the account that the
/// first argument names.
pub fn list_items(rd: &mut Record, args: &mut Vec<Arg>) -> (r: Vec<Notice>)
    ensures
        notice_views(r@) == list_items_outcome(old(rd)@, arg_values(old(args)@)),
        final(rd)@ == old(rd)@,
        final(args)@ == old(args)@,
{
    if args.len() == 0 {
        return list_accounts(rd);
    }
    let at = match rd.account_position(&args[0].value) {
        Some(at) => at,
        None => {
            return only(Notice::about(NoticeKind::AccountMissing, &args[0].value));
        },
    };
    if rd.accounts[at].entries.len() == 0 {
        return only(Notice::about(NoticeKind::NoEntries, &rd.accounts[at].name));
    }
    list_entries_of(&rd.accounts[at])
}

} // verus!
