//! What a command has to tell once it has run. The caller puts it in words
//! and prints it.

use vstd::prelude::*;

verus! {

/// What happened.
#[derive(Clone, Copy, Debug, PartialEq, Eq, Structural)]
pub enum NoticeKind {
    /// The account `subject` was created.
    AccountCreated,
    /// The account `subject` already exists.
    AccountAlreadyExists,
    /// There is no account `subject`.
    AccountMissing,
    /// No account was named.
    NoAccountGiven,
    /// No new name was given.
    NameMissing,
    /// No amount was given.
    AmountMissing,
    /// What was given is no amount.
    AmountInvalid,
    /// The entry `subject` already exists.
    EntryAlreadyExists,
    /// The entry `subject` was created.
    EntryCreated,
    /// The account `detail` has no entry `subject`.
    EntryMissing,
    /// The account `subject` was removed.
    AccountRemoved,
    /// The entry `subject` was removed from the account `detail`.
    EntryRemoved,
    /// The account `subject` is now called `detail`.
    AccountRenamed,
    /// The account `subject` has the balance `amount` in the currency `detail`.
    BalanceShown,
    /// The balance of the account `subject` was set to `amount`.
    BalanceSet,
    /// The balance would not fit an amount; nothing was changed.
    BalanceOutOfRange,
    /// The account `subject` is held in the currency `detail`.
    CurrencyShown,
    /// The account `subject` is now held in the currency `detail`.
    CurrencySet,
    /// The ledger holds the account `subject`.
    AccountListed,
    /// An entry: its label in `subject`, its date in `detail`, its note and
    /// its amount.
    EntryListed,
    /// The account `subject` has no entries.
    NoEntries,
    /// The usage of the command line was asked for.
    Help,
}

/// One thing that a command tells.
#[derive(Debug)]
pub struct Notice {
    pub kind: NoticeKind,
    pub subject: String,
    pub detail: String,
    pub note: String,
    pub amount: i64,
}

/// What a `Notice` stands for in contracts.
pub ghost struct NoticeView {
    pub kind: NoticeKind,
    pub subject: Seq<char>,
    pub detail: Seq<char>,
    pub note: Seq<char>,
    pub amount: int,
}

impl View for Notice {
    type V = NoticeView;

    open spec fn view(&self) -> NoticeView {
        NoticeView {
            kind: self.kind,
            subject: self.subject@,
            detail: self.detail@,
            note: self.note@,
            amount: self.amount as int,
        }
    }
}

/// The views of a run of notices, in order.
pub open spec fn notice_views(notices: Seq<Notice>) -> Seq<NoticeView> {
    notices.map_values(|n: Notice| n@)
}

/// The notice of `kind` that says nothing more.
pub open spec fn bare(kind: NoticeKind) -> NoticeView {
    NoticeView { kind, subject: Seq::empty(), detail: Seq::empty(), note: Seq::empty(), amount: 0 }
}

/// The notice of `kind` about `subject`.
pub open spec fn about(kind: NoticeKind, subject: Seq<char>) -> NoticeView {
    NoticeView { kind, subject, detail: Seq::empty(), note: Seq::empty(), amount: 0 }
}

/// The notice of `kind` about `subject` and `detail`.
pub open spec fn about_both(kind: NoticeKind, subject: Seq<char>, detail: Seq<char>) -> NoticeView {
    NoticeView { kind, subject, detail, note: Seq::empty(), amount: 0 }
}

impl NoticeKind {
    /// Whether the notice reports a failure.
    pub open spec fn reports_failure(self) -> bool {
        match self {
            NoticeKind::AccountAlreadyExists
            | NoticeKind::AccountMissing
            | NoticeKind::NoAccountGiven
            | NoticeKind::NameMissing
            | NoticeKind::AmountMissing
            | NoticeKind::AmountInvalid
            | NoticeKind::EntryAlreadyExists
            | NoticeKind::EntryMissing
            | NoticeKind::BalanceOutOfRange
            | NoticeKind::NoEntries => true,
            _ => false,
        }
    }

    /// Whether the notice reports a failure, and so goes to the error stream.
    pub fn is_failure(&self) -> (r: bool)
        ensures
            r == self.reports_failure(),
    {
        match self {
            NoticeKind::AccountAlreadyExists
            | NoticeKind::AccountMissing
            | NoticeKind::NoAccountGiven
            | NoticeKind::NameMissing
            | NoticeKind::AmountMissing
            | NoticeKind::AmountInvalid
            | NoticeKind::EntryAlreadyExists
            | NoticeKind::EntryMissing
            | NoticeKind::BalanceOutOfRange
            | NoticeKind::NoEntries => true,
            _ => false,
        }
    }
}

impl Notice {
    /// The notice of `kind` that says nothing more.
    pub fn bare(kind: NoticeKind) -> (r: Notice)
        ensures
            r@ == bare(kind),
    {
        Notice { kind, subject: String::new(), detail: String::new(), note: String::new(), amount: 0 }
    }

    /// The notice of `kind` about `subject`.
    pub fn about(kind: NoticeKind, subject: &String) -> (r: Notice)
        ensures
            r@ == about(kind, subject@),
    {
        Notice {
            kind,
            subject: subject.clone(),
            detail: String::new(),
            note: String::new(),
            amount: 0,
        }
    }

    /// The notice of `kind` about `subject` and `detail`.
    pub fn about_both(kind: NoticeKind, subject: &String, detail: &String) -> (r: Notice)
        ensures
            r@ == about_both(kind, subject@, detail@),
    {
        Notice {
            kind,
            subject: subject.clone(),
            detail: detail.clone(),
            note: String::new(),
            amount: 0,
        }
    }

    /// The notice of `kind` about `subject`, `detail` and `amount`.
    pub fn with_amount(kind: NoticeKind, subject: &String, detail: &String, amount: i64) -> (r:
        Notice)
        ensures
            r@ == (NoticeView {
                kind,
                subject: subject@,
                detail: detail@,
                note: Seq::empty(),
                amount: amount as int,
            }),
    {
        Notice {
            kind,
            subject: subject.clone(),
            detail: detail.clone(),
            note: String::new(),
            amount,
        }
    }
}

/// The one notice as a list.
pub fn only(notice: Notice) -> (r: Vec<Notice>)
    ensures
        notice_views(r@) == seq![notice@],
{
    let mut out: Vec<Notice> = Vec::new();
    out.push(notice);
    assert(notice_views(out@) =~= seq![notice@]);
    out
}

/// No notice at all.
pub fn nothing() -> (r: Vec<Notice>)
    ensures
        notice_views(r@) == Seq::<NoticeView>::empty(),
{
    let out: Vec<Notice> = Vec::new();
    assert(notice_views(out@) =~= Seq::<NoticeView>::empty());
    out
}

} // verus!
