//! Running the blocks of the command line against the ledger.

use crate::ledger::arg::{
    arg_values, arg_views, lemma_block_view, Arg, ArgFun, ArgView, Block, BlockView, Command,
};
use crate::ledger::helpers::display_help;
use crate::ledger::items::{
    balance, balance_outcome, currency, currency_outcome, list_items, list_items_outcome, new_item,
    new_item_outcome, remove_item, remove_item_outcome, rename_account, rename_account_outcome,
};
use crate::ledger::notice::{about, bare, notice_views, nothing, only, Notice, NoticeKind, NoticeView};
use crate::ledger::record::{account_exists, account_names, Record, RecordView};
use crate::text::same_text;
use vstd::prelude::*;

verus! {

/// The values of a run of argument views, in order.
pub open spec fn values_of(args: Seq<ArgView>) -> Seq<Seq<char>> {
    args.map_values(|a: ArgView| a.value)
}

/// The arguments up to the first that has no value.
pub open spec fn filled_args(args: Seq<ArgView>) -> Seq<ArgView> {
    match values_of(args).index_of_first(Seq::<char>::empty()) {
        Some(at) => args.take(at),
        None => args,
    }
}

/// What a command does to the ledger and what it tells, given the values of
/// its arguments. Removing asks for the name of an account, renaming for a
/// new name as well.
pub open spec fn command_outcome(
    command: Command,
    rd: RecordView,
    args: Seq<Seq<char>>,
    now: Seq<char>,
) -> (RecordView, Seq<NoticeView>) {
    match command {
        Command::Help => (rd, seq![bare(NoticeKind::Help)]),
        Command::New => new_item_outcome(rd, args, now),
        Command::List => (rd, list_items_outcome(rd, args)),
        Command::Remove => if args.len() == 0 {
            (rd, seq![bare(NoticeKind::NoAccountGiven)])
        } else {
            remove_item_outcome(rd, args)
        },
        Command::Balance => balance_outcome(rd, args),
        Command::Currency => currency_outcome(rd, args),
        Command::Rename => if args.len() == 0 {
            (rd, seq![bare(NoticeKind::NoAccountGiven)])
        } else if args.len() == 1 {
            if account_names(rd.accounts).contains(args[0]) {
                (rd, seq![bare(NoticeKind::NameMissing)])
            } else {
                (rd, seq![about(NoticeKind::AccountMissing, args[0])])
            }
        } else {
            rename_account_outcome(rd, args)
        },
    }
}

/// What the command of a block does, if the block has one.
pub open spec fn fun_outcome(fun: ArgFun, rd: RecordView, args: Seq<Seq<char>>, now: Seq<char>) -> (
    RecordView,
    Seq<NoticeView>,
) {
    match fun {
        Some(command) => command_outcome(command, rd, args, now),
        None => (rd, Seq::empty()),
    }
}

/// The state after blocks have run: the ledger, what was told, and the
/// block or blocks as the run left them.
pub ghost struct Run<B> {
    pub rd: RecordView,
    pub notices: Seq<NoticeView>,
    pub left: B,
}

/// What running a block does: its arguments are cut at the first that has no
/// value, its command runs on what is left, and then the blocks nested under
/// it run in order, each on the ledger as the one before left it.
pub open spec fn executed(rd: RecordView, block: BlockView, now: Seq<char>) -> Run<BlockView>
    decreases block,
{
    let args = filled_args(block.args);
    let own = fun_outcome(block.fun, rd, values_of(args), now);
    let nested = executed_upto(own.0, block.blocks, block.blocks.len() as int, now);
    Run {
        rd: nested.rd,
        notices: own.1 + nested.notices,
        left: BlockView { args, blocks: nested.left, ..block },
    }
}

/// What running the first `upto` of `blocks` in order does.
pub open spec fn executed_upto(
    rd: RecordView,
    blocks: Seq<BlockView>,
    upto: int,
    now: Seq<char>,
) -> Run<Seq<BlockView>>
    decreases blocks, upto,
{
    if upto <= 0 || upto > blocks.len() {
        Run { rd, notices: Seq::empty(), left: blocks }
    } else {
        let before = executed_upto(rd, blocks, upto - 1, now);
        let one = executed(before.rd, blocks[upto - 1], now);
        Run {
            rd: one.rd,
            notices: before.notices + one.notices,
            left: before.left.update(upto - 1, one.left),
        }
    }
}

impl Command {
    /// Runs the command on the ledger with the arguments given. `now` is the
    /// date that a new entry without one gets.
    pub fn run(&self, rd: &mut Record, args: &mut Vec<Arg>, now: &str) -> (r: Vec<Notice>)
        ensures
            (final(rd)@, notice_views(r@)) == command_outcome(
                *self,
                old(rd)@,
                arg_values(old(args)@),
                now@,
            ),
            final(args)@ == old(args)@,
    {
        match self {
            Command::Help => display_help(rd, args),
            Command::New => new_item(rd, args, now),
            Command::List => list_items(rd, args),
            Command::Remove => if args.len() == 0 {
                only(Notice::bare(NoticeKind::NoAccountGiven))
            } else {
                remove_item(rd, args)
            },
            Command::Balance => balance(rd, args),
            Command::Currency => currency(rd, args),
            Command::Rename => if args.len() == 0 {
                only(Notice::bare(NoticeKind::NoAccountGiven))
            } else if args.len() == 1 {
                if account_exists(rd, args) {
                    only(Notice::bare(NoticeKind::NameMissing))
                } else {
                    only(Notice::about(NoticeKind::AccountMissing, &args[0].value))
                }
            } else {
                rename_account(rd, args)
            },
        }
    }
}

/// Where the first argument without a value stands, if there is one.
pub fn first_unfilled(args: &Vec<Arg>) -> (r: Option<usize>)
    ensures
        r matches Some(at) ==> at < args.len() && values_of(arg_views(args@)).index_of_first(
            Seq::<char>::empty(),
        ) == Some(at as int),
        r is None ==> values_of(arg_views(args@)).index_of_first(Seq::<char>::empty()) is None,
{
    let ghost values = values_of(arg_views(args@));
    let ghost empty = Seq::<char>::empty();
    let mut i: usize = 0;
    while i < args.len()
        invariant
            i <= args.len(),
            values == values_of(arg_views(args@)),
            empty == Seq::<char>::empty(),
            forall|j: int| 0 <= j < i ==> values[j] != empty,
        decreases args.len() - i,
    {
        if args[i].value.as_str().is_empty() {
            proof {
                assert(values[i as int] =~= empty);
                assert(values.contains(empty));
                values.index_of_first_ensures(empty);
                let first = values.index_of_first(empty)->0;
                if first < i {
                    assert(values[first] != empty);
                }
                if first > i {
                    assert(values[i as int] != empty);
                }
            }
            return Some(i);
        }
        assert(values[i as int].len() != 0);
        i += 1;
    }
    proof {
        values.index_of_first_ensures(empty);
        if values.index_of_first(empty) is Some {
            let first = values.index_of_first(empty)->0;
            assert(values[first] != empty);
        }
    }
    None
}

/// Runs a block and then the blocks nested under it: the arguments of each
/// are cut at the first that has no value before its command runs on them.
/// `now` is the date that a new entry without one gets.
pub fn execute_blocks(rd: &mut Record, block: &mut Block, now: &str) -> (r: Vec<Notice>)
    ensures
        (Run { rd: final(rd)@, notices: notice_views(r@), left: final(block)@ }) == executed(
            old(rd)@,
            old(block)@,
            now@,
        ),
    decreases *old(block),
{
    let ghost start = rd@;
    let ghost given = block@;
    let ghost nested_before = block.blocks@;
    proof {
        lemma_block_view(*block);
    }
    match first_unfilled(&block.args) {
        Some(at) => {
            block.args.truncate(at);
            assert(arg_views(block.args@) =~= given.args.take(at as int));
        },
        None => (),
    }
    assert(arg_views(block.args@) == filled_args(given.args));
    assert(arg_values(block.args@) =~= values_of(arg_views(block.args@)));
    let mut out = match block.fun {
        Some(command) => command.run(rd, &mut block.args, now),
        None => nothing(),
    };
    let ghost own = fun_outcome(given.fun, start, values_of(filled_args(given.args)), now@);
    assert(rd@ == own.0);
    assert(notice_views(out@) == own.1);
    let ghost kept = arg_views(block.args@);
    let n = block.blocks.len();
    let mut done: Vec<Block> = Vec::new();
    let mut i: usize = 0;
    proof {
        assert(own.1 + Seq::<NoticeView>::empty() =~= own.1);
    }
    while i < n
        invariant
            i <= n,
            n == given.blocks.len(),
            n == nested_before.len(),
            block.blocks@ == nested_before.skip(i as int),
            nested_before == old(block).blocks@,
            forall|j: int| 0 <= j < n ==> given.blocks[j] == (#[trigger] nested_before[j])@,
            block.short == old(block).short,
            block.long == old(block).long,
            block.fun == old(block).fun,
            arg_views(block.args@) == kept,
            rd@ == executed_upto(own.0, given.blocks, i as int, now@).rd,
            notice_views(out@) == own.1 + executed_upto(own.0, given.blocks, i as int, now@).notices,
            done.len() == i,
            forall|j: int|
                0 <= j < i ==> (#[trigger] done@[j])@ == executed_upto(
                    own.0,
                    given.blocks,
                    i as int,
                    now@,
                ).left[j],
            executed_upto(own.0, given.blocks, i as int, now@).left.len() == n,
            forall|j: int|
                i <= j < n ==> executed_upto(own.0, given.blocks, i as int, now@).left[j]
                    == given.blocks[j],
        decreases n - i,
    {
        let ghost before = executed_upto(own.0, given.blocks, i as int, now@);
        let ghost told = notice_views(out@);
        let mut sub = block.blocks.remove(0);
        proof {
            assert(sub == nested_before[i as int]);
            assert(block.blocks@ =~= nested_before.skip(i + 1));
            vstd::std_specs::vec::axiom_vec_decreases_to_view(old(block).blocks);
            vstd::seq::axiom_seq_index_decreases(nested_before, i as int);
        }
        let mut more = execute_blocks(rd, &mut sub, now);
        let ghost one = executed(before.rd, given.blocks[i as int], now@);
        let ghost told_more = notice_views(more@);
        out.append(&mut more);
        done.push(sub);
        proof {
            assert(notice_views(out@) =~= told + told_more);
            assert(own.1 + (before.notices + one.notices) =~= (own.1 + before.notices)
                + one.notices);
        }
        i += 1;
    }
    block.blocks = done;
    proof {
        lemma_block_view(*block);
        let goal = executed(start, given, now@);
        assert(block@.blocks =~= executed_upto(own.0, given.blocks, n as int, now@).left);
    }
    out
}

/// The test that a block is spelled `command`, short or long.
pub open spec fn spelled(command: Seq<char>) -> spec_fn(BlockView) -> bool {
    |b: BlockView| b.short == command || b.long == command
}

/// Where the first of `blocks` that is spelled `command` stands; -1 where
/// none is.
pub open spec fn spelled_at(blocks: Seq<BlockView>, command: Seq<char>, upto: int) -> int
    decreases upto,
{
    if upto <= 0 || upto > blocks.len() {
        -1
    } else if spelled_at(blocks, command, upto - 1) >= 0 {
        spelled_at(blocks, command, upto - 1)
    } else if spelled(command)(blocks[upto - 1]) {
        upto - 1
    } else {
        -1
    }
}

/// Which of the blocks nested under `args` the word `command` of the command
/// line asks for: the place of the first that is spelled so, or -1 where
/// there is no word or no such block.
pub fn check_args(args: &Block, command: Option<&str>) -> (r: i32)
    requires
        args.blocks.len() <= i32::MAX,
    ensures
        r == match command {
            Some(word) => spelled_at(args@.blocks, word@, args@.blocks.len() as int),
            None => -1,
        },
{
    let word = match command {
        Some(word) => word,
        None => {
            return -1;
        },
    };
    proof {
        lemma_block_view(*args);
    }
    let mut i: usize = 0;
    while i < args.blocks.len()
        invariant
            i <= args.blocks.len(),
            command == Some(word),
            args.blocks.len() <= i32::MAX,
            args@.blocks.len() == args.blocks.len(),
            forall|j: int| 0 <= j < args.blocks.len() ==> args@.blocks[j] == args.blocks@[j]@,
            spelled_at(args@.blocks, word@, i as int) == -1,
        decreases args.blocks.len() - i,
    {
        let block = &args.blocks[i];
        proof {
            lemma_block_view(*block);
        }
        if same_text(block.short.as_str(), word) || same_text(block.long.as_str(), word) {
            proof {
                assert(args@.blocks[i as int] == block@);
                assert(spelled(word@)(args@.blocks[i as int]));
                assert(spelled_at(args@.blocks, word@, i + 1) == i);
                lemma_spelled_at_stays(args@.blocks, word@, i + 1, args@.blocks.len() as int);
            }
            return i as i32;
        }
        proof {
            assert(args@.blocks[i as int] == block@);
            assert(!spelled(word@)(args@.blocks[i as int]));
        }
        i += 1;
    }
    -1
}

/// Once a block spelled `command` is found among the first `found` blocks,
/// looking further finds the same one.
pub proof fn lemma_spelled_at_stays(
    blocks: Seq<BlockView>,
    command: Seq<char>,
    found: int,
    upto: int,
)
    requires
        0 <= found <= upto <= blocks.len(),
        spelled_at(blocks, command, found) >= 0,
    ensures
        spelled_at(blocks, command, upto) == spelled_at(blocks, command, found),
    decreases upto - found,
{
    if found < upto {
        lemma_spelled_at_stays(blocks, command, found, upto - 1);
    }
}

/// The arguments with the values from `from` on put into them in order, as
/// far as there are values.
pub open spec fn args_filled(args: Seq<ArgView>, values: Seq<Seq<char>>, from: int) -> Seq<ArgView> {
    Seq::new(
        args.len(),
        |i: int|
            if 0 <= i < args.len() && 0 <= from + i < values.len() {
                ArgView { value: values[from + i], ..args[i] }
            } else {
                args[i]
            },
    )
}

/// How far into `values` one is after `count` of them from `from` on were
/// used, as far as there were that many.
pub open spec fn cursor_after(values: Seq<Seq<char>>, from: int, count: int) -> int {
    if from + count <= values.len() {
        from + count
    } else if from <= values.len() {
        values.len() as int
    } else {
        from
    }
}

/// What filling a block in does: the values from `from` on go, in order,
/// to its arguments and then to the blocks nested under it, each taking up
/// where the one before stopped, as far as there are values. It gives the
/// block filled in and the place of the first value not used.
pub open spec fn filled(values: Seq<Seq<char>>, from: int, block: BlockView) -> (BlockView, int)
    decreases block,
{
    let args = args_filled(block.args, values, from);
    let nested = filled_upto(
        values,
        cursor_after(values, from, block.args.len() as int),
        block.blocks,
        block.blocks.len() as int,
    );
    (BlockView { args, blocks: nested.0, ..block }, nested.1)
}

/// What filling the first `upto` of `blocks` in does.
pub open spec fn filled_upto(
    values: Seq<Seq<char>>,
    from: int,
    blocks: Seq<BlockView>,
    upto: int,
) -> (Seq<BlockView>, int)
    decreases blocks, upto,
{
    if upto <= 0 || upto > blocks.len() {
        (blocks, from)
    } else {
        let before = filled_upto(values, from, blocks, upto - 1);
        let one = filled(values, before.1, blocks[upto - 1]);
        (before.0.update(upto - 1, one.0), one.1)
    }
}

/// The views of a run of texts, in order.
pub open spec fn text_views(texts: Seq<String>) -> Seq<Seq<char>> {
    texts.map_values(|t: String| t@)
}

/// Puts the values from `from` on into the arguments of the block and then
/// of the blocks nested under it, in order, as far as there are values, and
/// gives the place of the first value not used.
pub fn fill_command(values: &Vec<String>, from: usize, block: &mut Block) -> (r: usize)
    requires
        from <= values.len(),
    ensures
        (final(block)@, r as int) == filled(text_views(values@), from as int, old(block)@),
        from <= r <= values.len(),
    decreases *old(block),
{
    let ghost given = block@;
    let ghost texts = text_views(values@);
    let ghost nested_before = block.blocks@;
    proof {
        lemma_block_view(*block);
    }
    let mut cursor: usize = from;
    let mut i: usize = 0;
    let count = block.args.len();
    while i < count && cursor < values.len()
        invariant
            i <= count,
            count == block.args.len(),
            count == given.args.len(),
            texts == text_views(values@),
            from <= cursor <= values.len(),
            cursor == from + i,
            block.short == old(block).short,
            block.long == old(block).long,
            block.fun == old(block).fun,
            block.blocks == old(block).blocks,
            forall|j: int|
                0 <= j < i ==> (#[trigger] arg_views(block.args@)[j]) == args_filled(
                    given.args,
                    texts,
                    from as int,
                )[j],
            forall|j: int| i <= j < count ==> (#[trigger] arg_views(block.args@)[j]) == given.args[j],
        decreases count - i,
    {
        let ghost views = arg_views(block.args@);
        let arg = Arg {
            label: block.args[i].label.clone(),
            value: values[cursor].clone(),
            required: block.args[i].required,
        };
        assert(views[i as int] == given.args[i as int]);
        block.args.set(i, arg);
        assert(arg_views(block.args@) =~= views.update(i as int, arg@));
        cursor += 1;
        i += 1;
    }
    proof {
        assert(arg_views(block.args@) =~= args_filled(given.args, texts, from as int));
        assert(cursor == cursor_after(texts, from as int, count as int));
    }
    let ghost kept = arg_views(block.args@);
    let ghost start = cursor as int;
    let n = block.blocks.len();
    let mut done: Vec<Block> = Vec::new();
    let mut k: usize = 0;
    while k < n
        invariant
            k <= n,
            n == given.blocks.len(),
            n == nested_before.len(),
            texts == text_views(values@),
            block.blocks@ == nested_before.skip(k as int),
            nested_before == old(block).blocks@,
            forall|j: int| 0 <= j < n ==> given.blocks[j] == (#[trigger] nested_before[j])@,
            block.short == old(block).short,
            block.long == old(block).long,
            block.fun == old(block).fun,
            arg_views(block.args@) == kept,
            from <= cursor <= values.len(),
            cursor == filled_upto(texts, start, given.blocks, k as int).1,
            done.len() == k,
            forall|j: int|
                0 <= j < k ==> (#[trigger] done@[j])@ == filled_upto(
                    texts,
                    start,
                    given.blocks,
                    k as int,
                ).0[j],
            filled_upto(texts, start, given.blocks, k as int).0.len() == n,
            forall|j: int|
                k <= j < n ==> filled_upto(texts, start, given.blocks, k as int).0[j]
                    == given.blocks[j],
        decreases n - k,
    {
        let mut sub = block.blocks.remove(0);
        proof {
            assert(sub == nested_before[k as int]);
            assert(block.blocks@ =~= nested_before.skip(k + 1));
            vstd::std_specs::vec::axiom_vec_decreases_to_view(old(block).blocks);
            vstd::seq::axiom_seq_index_decreases(nested_before, k as int);
        }
        cursor = fill_command(values, cursor, &mut sub);
        done.push(sub);
        k += 1;
    }
    block.blocks = done;
    proof {
        lemma_block_view(*block);
        assert(block@.blocks =~= filled_upto(texts, start, given.blocks, n as int).0);
    }
    cursor
}

} // verus!
