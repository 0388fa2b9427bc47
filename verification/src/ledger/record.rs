//! What the ledger holds: accounts, each with its entries.

use crate::ledger::arg::{arg_values, Arg};
use vstd::prelude::*;

verus! {

/// One line of an account: what it is for, how much it moved (a withdrawal
/// is negative), when, and a note.
#[derive(Debug)]
pub struct Entry {
    pub label: String,
    pub amount: i64,
    pub date: String,
    pub note: String,
}

/// What an `Entry` stands for in contracts.
pub ghost struct EntryView {
    pub label: Seq<char>,
    pub amount: int,
    pub date: Seq<char>,
    pub note: Seq<char>,
}

impl View for Entry {
    type V = EntryView;

    open spec fn view(&self) -> EntryView {
        EntryView {
            label: self.label@,
            amount: self.amount as int,
            date: self.date@,
            note: self.note@,
        }
    }
}

impl Clone for Entry {
    fn clone(&self) -> (r: Self)
        ensures
            r@ == self@,
    {
        Entry {
            label: self.label.clone(),
            amount: self.amount,
            date: self.date.clone(),
            note: self.note.clone(),
        }
    }
}

/// The views of a run of entries, in order.
pub open spec fn entry_views(entries: Seq<Entry>) -> Seq<EntryView> {
    entries.map_values(|e: Entry| e@)
}

/// The labels of a run of entries, in order.
pub open spec fn entry_labels(entries: Seq<EntryView>) -> Seq<Seq<char>> {
    entries.map_values(|e: EntryView| e.label)
}

/// An account of the ledger.
#[derive(Debug)]
pub struct Account {
    pub name: String,
    pub balance: i64,
    pub currency: String,
    pub entries: Vec<Entry>,
}

/// What an `Account` of the ledger stands for in contracts.
pub ghost struct AccountView {
    pub name: Seq<char>,
    pub balance: int,
    pub currency: Seq<char>,
    pub entries: Seq<EntryView>,
}

impl View for Account {
    type V = AccountView;

    open spec fn view(&self) -> AccountView {
        AccountView {
            name: self.name@,
            balance: self.balance as int,
            currency: self.currency@,
            entries: entry_views(self.entries@),
        }
    }
}

/// The views of a run of accounts, in order.
pub open spec fn account_views(accounts: Seq<Account>) -> Seq<AccountView> {
    accounts.map_values(|a: Account| a@)
}

/// The names of a run of accounts, in order.
pub open spec fn account_names(accounts: Seq<AccountView>) -> Seq<Seq<char>> {
    accounts.map_values(|a: AccountView| a.name)
}

/// The currency that a new account is held in.
pub const DEFAULT_CURRENCY: &'static str = "$";

impl Account {
    /// The account `name` with one first entry, in the default currency.
    pub fn new(name: String, entry: Entry) -> (r: Account)
        ensures
            r@ == (AccountView {
                name: name@,
                balance: 0,
                currency: DEFAULT_CURRENCY@,
                entries: seq![entry@],
            }),
    {
        let mut entries: Vec<Entry> = Vec::new();
        entries.push(entry);
        let r = Account { name, balance: 0, currency: DEFAULT_CURRENCY.to_owned(), entries };
        assert(r@.entries =~= seq![entry@]);
        r
    }

    /// The account `name` without entries, in the default currency.
    pub fn empty(name: String) -> (r: Account)
        ensures
            r@ == (AccountView {
                name: name@,
                balance: 0,
                currency: DEFAULT_CURRENCY@,
                entries: Seq::empty(),
            }),
    {
        let r = Account {
            name,
            balance: 0,
            currency: DEFAULT_CURRENCY.to_owned(),
            entries: Vec::new(),
        };
        assert(r@.entries =~= Seq::empty());
        r
    }

    /// The account in words.
    pub fn to_text(&self) -> (r: String)
        ensures
            r@ == "account: '"@ + self@.name + "'"@,
    {
        let mut out = "account: '".to_owned();
        out.append(self.name.as_str());
        out.append("'");
        out
    }

    /// Where the first entry labelled `label` stands, if there is one.
    pub fn entry_position(&self, label: &String) -> (r: Option<usize>)
        ensures
            r matches Some(at) ==> entry_labels(self@.entries).index_of_first(label@) == Some(
                at as int,
            ) && at < self.entries.len(),
            r is None ==> entry_labels(self@.entries).index_of_first(label@) is None,
    {
        let ghost labels = entry_labels(self@.entries);
        let mut i: usize = 0;
        while i < self.entries.len()
            invariant
                i <= self.entries.len(),
                labels == entry_labels(self@.entries),
                forall|j: int| 0 <= j < i ==> labels[j] != label@,
            decreases self.entries.len() - i,
        {
            if self.entries[i].label == *label {
                proof {
                    assert(labels[i as int] == label@);
                    assert(labels.contains(label@));
                    labels.index_of_first_ensures(label@);
                    let first = labels.index_of_first(label@)->0;
                    if first < i {
                        assert(labels[first] != label@);
                    }
                    if first > i {
                        assert(labels[i as int] != label@);
                    }
                }
                return Some(i);
            }
            i += 1;
        }
        proof {
            labels.index_of_first_ensures(label@);
            if labels.index_of_first(label@) is Some {
                let first = labels.index_of_first(label@)->0;
                assert(labels[first] != label@);
            }
        }
        None
    }
}

/// The ledger: its accounts and the file it is kept in.
#[derive(Debug)]
pub struct Record {
    pub accounts: Vec<Account>,
    pub record_path: String,
}

/// What a `Record` stands for in contracts.
pub ghost struct RecordView {
    pub accounts: Seq<AccountView>,
    pub record_path: Seq<char>,
}

impl View for Record {
    type V = RecordView;

    open spec fn view(&self) -> RecordView {
        RecordView { accounts: account_views(self.accounts@), record_path: self.record_path@ }
    }
}

/// The file that a ledger is kept in where none is chosen.
pub const DEFAULT_STORAGE_PATH: &'static str = "./records.json";

impl Record {
    /// The empty ledger kept in `record_path`.
    pub fn empty(record_path: String) -> (r: Record)
        ensures
            r@ == (RecordView { accounts: Seq::empty(), record_path: record_path@ }),
    {
        let r = Record { accounts: Vec::new(), record_path };
        assert(r@.accounts =~= Seq::empty());
        r
    }

    /// Where the first account called `name` stands, if there is one.
    pub fn account_position(&self, name: &String) -> (r: Option<usize>)
        ensures
            r matches Some(at) ==> account_names(self@.accounts).index_of_first(name@) == Some(
                at as int,
            ) && at < self.accounts.len(),
            r is None ==> account_names(self@.accounts).index_of_first(name@) is None,
    {
        let ghost names = account_names(self@.accounts);
        let mut i: usize = 0;
        while i < self.accounts.len()
            invariant
                i <= self.accounts.len(),
                names == account_names(self@.accounts),
                forall|j: int| 0 <= j < i ==> names[j] != name@,
            decreases self.accounts.len() - i,
        {
            if self.accounts[i].name == *name {
                proof {
                    assert(names[i as int] == name@);
                    assert(names.contains(name@));
                    names.index_of_first_ensures(name@);
                    let first = names.index_of_first(name@)->0;
                    if first < i {
                        assert(names[first] != name@);
                    }
                    if first > i {
                        assert(names[i as int] != name@);
                    }
                }
                return Some(i);
            }
            i += 1;
        }
        proof {
            names.index_of_first_ensures(name@);
            if names.index_of_first(name@) is Some {
                let first = names.index_of_first(name@)->0;
                assert(names[first] != name@);
            }
        }
        None
    }
}

/// Whether the ledger holds the account that the first argument names. With
/// no argument there is no such account.
pub open spec fn names_an_account(rd: RecordView, args: Seq<Seq<char>>) -> bool {
    args.len() > 0 && account_names(rd.accounts).contains(args[0])
}

/// Whether the ledger holds the account that the first argument names.
pub fn account_exists(rd: &Record, args: &Vec<Arg>) -> (r: bool)
    ensures
        r == names_an_account(rd@, arg_values(args@)),
{
    if args.len() == 0 {
        return false;
    }
    proof {
        account_names(rd@.accounts).index_of_first_ensures(arg_values(args@)[0]);
    }
    rd.account_position(&args[0].value).is_some()
}

/// Whether the account holds the entry that the second argument names.
pub fn entry_exists(ac: &Account, args: &Vec<Arg>) -> (r: bool)
    requires
        args.len() > 1,
    ensures
        r == entry_labels(ac@.entries).contains(arg_values(args@)[1]),
{
    proof {
        entry_labels(ac@.entries).index_of_first_ensures(arg_values(args@)[1]);
    }
    ac.entry_position(&args[1].value).is_some()
}

} // verus!
