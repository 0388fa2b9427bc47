//! The command line of the ledger: its switches and their arguments.

use crate::ledger::arg::{block_views, Arg, ArgView, Block, BlockView, Command};
use vstd::prelude::*;

verus! {

/// The view of an argument that has no value yet.
pub open spec fn unfilled(label: Seq<char>, required: bool) -> ArgView {
    ArgView { label, value: Seq::empty(), required }
}

/// The view of a switch that runs `command` on `args`.
pub open spec fn switch(
    short: Seq<char>,
    long: Seq<char>,
    command: Command,
    args: Seq<ArgView>,
) -> BlockView {
    BlockView { short, long, args, blocks: Seq::empty(), fun: Some(command) }
}

/// The command line: an unnamed block that runs nothing, with one switch
/// nested under it for each command.
pub open spec fn command_line() -> BlockView {
    BlockView {
        short: ""@,
        long: ""@,
        args: Seq::empty(),
        blocks: seq![
            switch("-h"@, "--help"@, Command::Help, Seq::empty()),
            switch(
                "-n"@,
                "--new"@,
                Command::New,
                seq![
                    unfilled("account"@, true),
                    unfilled("label"@, false),
                    unfilled("amount"@, false),
                    unfilled("entry type"@, false),
                    unfilled("date"@, false),
                    unfilled("note"@, false),
                ],
            ),
            switch("-l"@, "--list"@, Command::List, seq![unfilled("account"@, false)]),
            switch(
                "-r"@,
                "--remove"@,
                Command::Remove,
                seq![unfilled("account"@, true), unfilled("entry"@, false)],
            ),
            switch(
                "-b"@,
                "--balance"@,
                Command::Balance,
                seq![unfilled("account"@, true), unfilled("balance"@, false)],
            ),
            switch(
                "-c"@,
                "--currency"@,
                Command::Currency,
                seq![unfilled("account"@, true), unfilled("currency"@, false)],
            ),
            switch(
                "-re"@,
                "--rename"@,
                Command::Rename,
                seq![unfilled("account"@, true), unfilled("new_name"@, false)],
            ),
        ],
        fun: None,
    }
}

/// The views of one argument, or of two.
pub open spec fn one_or_two(first: Arg, second: Option<Arg>) -> Seq<ArgView> {
    match second {
        Some(s) => seq![first@, s@],
        None => seq![first@],
    }
}

/// The switch spelled `short` or `long` that runs `command` on one or two
/// arguments.
fn switch_with(short: &str, long: &str, command: Command, first: Arg, second: Option<Arg>) -> (r:
    Block)
    ensures
        r@ == switch(short@, long@, command, one_or_two(first, second)),
{
    let ghost wanted = one_or_two(first, second);
    let mut args: Vec<Arg> = Vec::new();
    args.push(first);
    match second {
        Some(s) => {
            args.push(s);
        },
        None => {},
    }
    let block = Block::new(short, long, Some(command)).register_args(args);
    assert(block@.args =~= wanted);
    block
}

/// The command line of the ledger.
pub fn setup_args() -> (r: Block)
    ensures
        r@ == command_line(),
{
    let mut args = Block::new("", "", None);
    let help = Block::new("-h", "--help", Some(Command::Help));
    let mut new_args: Vec<Arg> = Vec::new();
    new_args.push(Arg::new("account", true));
    new_args.push(Arg::new("label", false));
    new_args.push(Arg::new("amount", false));
    new_args.push(Arg::new("entry type", false));
    new_args.push(Arg::new("date", false));
    new_args.push(Arg::new("note", false));
    let new = Block::new("-n", "--new", Some(Command::New)).register_args(new_args);
    assert(new@.args =~= seq![
        unfilled("account"@, true),
        unfilled("label"@, false),
        unfilled("amount"@, false),
        unfilled("entry type"@, false),
        unfilled("date"@, false),
        unfilled("note"@, false),
    ]);
    let list = switch_with("-l", "--list", Command::List, Arg::new("account", false), None);
    let remove = switch_with(
        "-r",
        "--remove",
        Command::Remove,
        Arg::new("account", true),
        Some(Arg::new("entry", false)),
    );
    let balance = switch_with(
        "-b",
        "--balance",
        Command::Balance,
        Arg::new("account", true),
        Some(Arg::new("balance", false)),
    );
    let currency = switch_with(
        "-c",
        "--currency",
        Command::Currency,
        Arg::new("account", true),
        Some(Arg::new("currency", false)),
    );
    let rename = switch_with(
        "-re",
        "--rename",
        Command::Rename,
        Arg::new("account", true),
        Some(Arg::new("new_name", false)),
    );
    let mut blocks: Vec<Block> = Vec::new();
    blocks.push(help);
    blocks.push(new);
    blocks.push(list);
    blocks.push(remove);
    blocks.push(balance);
    blocks.push(currency);
    blocks.push(rename);
    assert(block_views(blocks@) =~= command_line().blocks);
    args.register_blocks_ref(blocks);
    assert(args@.blocks =~= command_line().blocks);
    args
}

} // verus!
