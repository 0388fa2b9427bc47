//! A configurable tree of command-line arguments.

use vstd::prelude::*;

verus! {

/// What a block runs once its arguments are filled in.
#[derive(Clone, Copy, Debug, PartialEq, Eq, Structural)]
pub enum Command {
    Help,
    New,
    List,
    Remove,
    Balance,
    Currency,
    Rename,
}

/// The command of a block, if it has one.
pub type ArgFun = Option<Command>;

/// One argument of a block: what it is called, the value given for it and
/// whether it must be given.
#[derive(Debug)]
pub struct Arg {
    pub label: String,
    pub value: String,
    pub required: bool,
}

/// What an `Arg` stands for in contracts.
pub ghost struct ArgView {
    pub label: Seq<char>,
    pub value: Seq<char>,
    pub required: bool,
}

impl View for Arg {
    type V = ArgView;

    open spec fn view(&self) -> ArgView {
        ArgView { label: self.label@, value: self.value@, required: self.required }
    }
}

impl Clone for Arg {
    fn clone(&self) -> (r: Self)
        ensures
            r@ == self@,
    {
        Arg { label: self.label.clone(), value: self.value.clone(), required: self.required }
    }
}

/// The views of a run of arguments, in order.
pub open spec fn arg_views(args: Seq<Arg>) -> Seq<ArgView> {
    args.map_values(|a: Arg| a@)
}

/// The values of a run of arguments, in order.
pub open spec fn arg_values(args: Seq<Arg>) -> Seq<Seq<char>> {
    args.map_values(|a: Arg| a.value@)
}

/// A switch of the command line, with its short and long spelling, the
/// arguments that follow it, the blocks nested under it and what it runs.
#[derive(Debug)]
pub struct Block {
    pub short: String,
    pub long: String,
    pub args: Vec<Arg>,
    pub blocks: Vec<Block>,
    pub fun: ArgFun,
}

/// What a `Block` stands for in contracts.
pub ghost struct BlockView {
    pub short: Seq<char>,
    pub long: Seq<char>,
    pub args: Seq<ArgView>,
    pub blocks: Seq<BlockView>,
    pub fun: ArgFun,
}

impl View for Block {
    type V = BlockView;

    open spec fn view(&self) -> BlockView
        decreases self,
    {
        BlockView {
            short: self.short@,
            long: self.long@,
            args: arg_views(self.args@),
            blocks: Seq::new(
                self.blocks@.len(),
                |i: int|
                    if 0 <= i < self.blocks@.len() {
                        self.blocks@[i]@
                    } else {
                        arbitrary()
                    },
            ),
            fun: self.fun,
        }
    }
}

/// The views of a run of blocks, in order.
pub open spec fn block_views(blocks: Seq<Block>) -> Seq<BlockView> {
    blocks.map_values(|b: Block| b@)
}

/// The view of a block is made of the views of its parts.
pub proof fn lemma_block_view(block: Block)
    ensures
        block@.short == block.short@,
        block@.long == block.long@,
        block@.args == arg_views(block.args@),
        block@.fun == block.fun,
        block@.blocks.len() == block.blocks@.len(),
        forall|i: int| 0 <= i < block.blocks@.len() ==> block@.blocks[i] == block.blocks@[i]@,
        block@.blocks == block_views(block.blocks@),
{
    reveal_with_fuel(<Block as View>::view, 2);
    assert(block@.blocks =~= block_views(block.blocks@));
}

impl Arg {
    /// The argument `label` with no value yet.
    pub fn new(label: &str, required: bool) -> (r: Arg)
        ensures
            r@ == (ArgView { label: label@, value: Seq::empty(), required }),
    {
        Arg { label: label.to_owned(), value: String::new(), required }
    }
}

impl Block {
    /// The block spelled `short` or `long` that runs `fun`, without
    /// arguments or nested blocks.
    pub fn new(short: &str, long: &str, fun: ArgFun) -> (r: Block)
        ensures
            r@ == (BlockView {
                short: short@,
                long: long@,
                args: Seq::empty(),
                blocks: Seq::empty(),
                fun,
            }),
    {
        let r = Block {
            short: short.to_owned(),
            long: long.to_owned(),
            args: Vec::new(),
            blocks: Vec::new(),
            fun,
        };
        proof {
            lemma_block_view(r);
            assert(r@.args =~= Seq::empty());
            assert(r@.blocks =~= Seq::empty());
        }
        r
    }

    /// The block with `args` added after those it has.
    pub fn register_args(self, args: Vec<Arg>) -> (r: Self)
        ensures
            r@ == (BlockView { args: self@.args + arg_views(args@), ..self@ }),
    {
        let mut block = self;
        block.register_args_ref(args);
        block
    }

    /// Adds `args` after the arguments that the block has.
    pub fn register_args_ref(&mut self, args: Vec<Arg>)
        ensures
            final(self)@ == (BlockView {
                args: old(self)@.args + arg_views(args@),
                ..old(self)@
            }),
    {
        proof {
            lemma_block_view(*self);
        }
        let ghost before = self.args@;
        let ghost added = args@;
        let mut args = args;
        self.args.append(&mut args);
        proof {
            lemma_block_view(*self);
            assert(arg_views(self.args@) =~= arg_views(before) + arg_views(added));
        }
    }

    /// The block with `blocks` nested after those it has.
    pub fn register_blocks(self, blocks: Vec<Block>) -> (r: Self)
        ensures
            r@ == (BlockView { blocks: self@.blocks + block_views(blocks@), ..self@ }),
    {
        let mut block = self;
        block.register_blocks_ref(blocks);
        block
    }

    /// Nests `blocks` after the blocks that the block has.
    pub fn register_blocks_ref(&mut self, blocks: Vec<Block>)
        ensures
            final(self)@ == (BlockView {
                blocks: old(self)@.blocks + block_views(blocks@),
                ..old(self)@
            }),
    {
        proof {
            lemma_block_view(*self);
        }
        let ghost before = self.blocks@;
        let ghost added = blocks@;
        let mut blocks = blocks;
        self.blocks.append(&mut blocks);
        proof {
            lemma_block_view(*self);
            assert(block_views(self.blocks@) =~= block_views(before) + block_views(added));
        }
    }
}

/// The word that writes a truth value.
pub open spec fn truth_text(value: bool) -> Seq<char> {
    if value {
        "true"@
    } else {
        "false"@
    }
}

/// The line that describes an argument.
pub open spec fn arg_line(arg: ArgView) -> Seq<char> {
    "    arg => (value: "@ + arg.value + ", required: "@ + truth_text(arg.required) + ")\n"@
}

/// The lines that describe the first `upto` of `args`.
pub open spec fn arg_lines(args: Seq<ArgView>, upto: int) -> Seq<char>
    decreases upto,
{
    if upto <= 0 {
        Seq::empty()
    } else {
        arg_lines(args, upto - 1) + arg_line(args[upto - 1])
    }
}

/// The line that heads the description of a block: its two spellings, or a
/// word on its being nested where it has no short spelling.
pub open spec fn block_head(block: BlockView) -> Seq<char> {
    if block.short.len() > 0 {
        "(short: "@ + block.short + ", long: "@ + block.long + ")\n"@
    } else {
        "block is a subblock.\n"@
    }
}

impl Block {
    /// The description of the block: its head and a line for each of its
    /// arguments.
    pub fn to_text(&self) -> (r: String)
        ensures
            r@ == block_head(self@) + arg_lines(self@.args, self@.args.len() as int),
    {
        proof {
            lemma_block_view(*self);
        }
        let mut out = String::new();
        if !self.short.as_str().is_empty() {
            out.append("(short: ");
            out.append(self.short.as_str());
            out.append(", long: ");
            out.append(self.long.as_str());
            out.append(")\n");
            assert(out@ =~= block_head(self@));
        } else {
            out.append("block is a subblock.\n");
            assert(self.short@.len() == 0);
            assert(out@ =~= block_head(self@));
        }
        let ghost head = out@;
        let mut i: usize = 0;
        proof {
            assert(head + arg_lines(self@.args, 0) =~= head);
        }
        while i < self.args.len()
            invariant
                i <= self.args.len(),
                self@.args == arg_views(self.args@),
                out@ == head + arg_lines(self@.args, i as int),
            decreases self.args.len() - i,
        {
            let ghost before = out@;
            let arg = &self.args[i];
            out.append("    arg => (value: ");
            out.append(arg.value.as_str());
            out.append(", required: ");
            if arg.required {
                out.append("true");
            } else {
                out.append("false");
            }
            out.append(")\n");
            proof {
                assert(arg@ == self@.args[i as int]);
                assert(out@ =~= before + arg_line(arg@));
                assert(head + (arg_lines(self@.args, i as int) + arg_line(arg@)) =~= (head
                    + arg_lines(self@.args, i as int)) + arg_line(arg@));
            }
            i += 1;
        }
        out
    }
}

} // verus!
