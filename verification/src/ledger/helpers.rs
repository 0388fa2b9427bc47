//! Help for the user of the command line.

use crate::ledger::arg::Arg;
use crate::ledger::notice::{bare, notice_views, only, Notice, NoticeKind};
use crate::ledger::record::Record;
use vstd::prelude::*;

verus! {

/// The usage of the command line.
pub const USAGE: &'static str =
    "usage: accounts-cli\n\t     [--new | -n <account> [<label> <amount> [<date> <note>]]]\n\t     [--list | -l [<account>]]\n             [--remove | -r [<account> [<label>]]]\n             [--balance | -b [<account> [<new-balance>]]]\n\nnew          creates a new account or entry.\nlist         list all accounts or entries in an account.\nremove       removes an account or entry.\nbalance      set or show balance of an account.\n";

/// Asks for the usage to be shown; the ledger and the arguments stay as they
/// are.
pub fn display_help(rd: &mut Record, args: &mut Vec<Arg>) -> (r: Vec<Notice>)
    ensures
        notice_views(r@) == seq![bare(NoticeKind::Help)],
        final(rd)@ == old(rd)@,
        final(args)@ == old(args)@,
{
    only(Notice::bare(NoticeKind::Help))
}

/// The usage of the command line.
pub fn help() -> (r: &'static str)
    ensures
        r@ == USAGE@,
{
    USAGE
}

} // verus!
