//! Instruction sequences and forward-jump patching.

use vstd::prelude::*;

verus! {

/// A control instruction. `JmpBy` is the forward jump whose `offset` is left
/// at zero by the code generator until the block that follows is known; with
/// it stand the arity of the call, the number of permanent variables and
/// whether the call is the last of its clause.
#[derive(Debug, Clone, PartialEq, Eq)]
pub enum ControlInstruction<I> {
    JmpBy { arity: usize, offset: usize, perm_vars: usize, last_call: bool },
    Other(I),
}

/// One line of code. Only control lines are read here; the instruction type
/// `I` of the other kinds is the code generator's.
#[derive(Debug, Clone, PartialEq, Eq)]
pub enum Line<I> {
    Arithmetic(I),
    Fact(Vec<I>),
    Cut(I),
    Choice(I),
    Control(ControlInstruction<I>),
    IndexedChoice(I),
    Indexing(I),
    Query(Vec<I>),
}

/// An instruction sequence.
pub type Code<I> = Vec<Line<I>>;

/// A block of code that holds at least one line.
#[derive(Debug)]
pub struct NonEmptyCode<I> {
    pub first: Line<I>,
    pub rest: Code<I>,
}

impl<I> View for NonEmptyCode<I> {
    type V = Seq<Line<I>>;

    open spec fn view(&self) -> Seq<Line<I>> {
        seq![self.first] + self.rest@
    }
}

impl<I> NonEmptyCode<I> {
    pub fn into_code(self) -> (code: Code<I>)
        ensures
            code@ == self@,
            code@.len() >= 1,
    {
        let mut code: Code<I> = Vec::new();
        let mut rest = self.rest;
        code.push(self.first);
        code.append(&mut rest);
        assert(code@ =~= self@);
        code
    }
}

/// A forward jump that is still unresolved.
pub open spec fn is_pending<I>(line: Line<I>) -> bool {
    line matches Line::Control(ControlInstruction::JmpBy { offset, .. }) && offset == 0
}

/// The line `line` with its jump offset set to `distance`.
pub open spec fn resolved<I>(line: Line<I>, distance: usize) -> Line<I> {
    match line {
        Line::Control(ControlInstruction::JmpBy { arity, offset, perm_vars, last_call }) => Line::Control(
            ControlInstruction::JmpBy { arity, offset: distance, perm_vars, last_call },
        ),
        other => other,
    }
}

/// The lowest index at or after `from` of a pending jump in `code`, or
/// `code.len()` if there is none.
pub open spec fn first_pending<I>(code: Seq<Line<I>>, from: int) -> int
    decreases code.len() - from,
{
    if from < 0 || from >= code.len() {
        code.len() as int
    } else if is_pending(code[from]) {
        from
    } else {
        first_pending(code, from + 1)
    }
}

/// `code` after resolving its first pending jump: the jump's offset becomes
/// the distance from the jump to the end of `code`, where the next block will
/// begin. Code without a pending jump is left as it is.
pub open spec fn patch_first_pending_jump<I>(code: Seq<Line<I>>) -> Seq<Line<I>> {
    let i = first_pending(code, 0);
    if i < code.len() {
        code.update(i, resolved(code[i], (code.len() - i) as usize))
    } else {
        code
    }
}

/// `first_pending` finds a pending jump and passes none on its way.
pub proof fn lemma_first_pending<I>(code: Seq<Line<I>>, from: int)
    requires
        0 <= from <= code.len(),
    ensures
        from <= first_pending(code, from) <= code.len(),
        first_pending(code, from) < code.len() ==> is_pending(code[first_pending(code, from)]),
        forall|j: int| from <= j < first_pending(code, from) ==> !is_pending(#[trigger] code[j]),
    decreases code.len() - from,
{
    if from < code.len() && !is_pending(code[from]) {
        lemma_first_pending(code, from + 1);
    }
}

/// Patching code that holds no pending jump changes nothing.
pub proof fn lemma_patch_without_pending<I>(code: Seq<Line<I>>)
    requires
        forall|j: int| 0 <= j < code.len() ==> !is_pending(#[trigger] code[j]),
    ensures
        patch_first_pending_jump(code) == code,
{
    lemma_first_pending(code, 0);
}

/// Where `i` is the lowest index of a pending jump, patching changes line `i`
/// and no other: line `i` gets the distance to the end of the code as its
/// offset, which is not zero.
pub proof fn lemma_patch_lowest_pending<I>(code: Seq<Line<I>>, i: int)
    requires
        0 <= i < code.len(),
        code.len() <= usize::MAX,
        is_pending(code[i]),
        forall|j: int| 0 <= j < i ==> !is_pending(#[trigger] code[j]),
    ensures
        first_pending(code, 0) == i,
        patch_first_pending_jump(code) == code.update(i, resolved(code[i], (code.len() - i) as usize)),
        patch_first_pending_jump(code).len() == code.len(),
        forall|j: int| 0 <= j < code.len() && j != i ==> patch_first_pending_jump(code)[j] == code[j],
        patch_first_pending_jump(code)[i] != code[i],
        !is_pending(patch_first_pending_jump(code)[i]),
{
    lemma_first_pending(code, 0);
    let f = first_pending(code, 0);
    if f < i {
        assert(!is_pending(code[f]));
    }
    if i < f {
        assert(!is_pending(code[i]));
    }
}

/// Patching keeps the length.
pub proof fn lemma_patch_len<I>(code: Seq<Line<I>>)
    ensures
        patch_first_pending_jump(code).len() == code.len(),
{
    lemma_first_pending(code, 0);
}

/// Resolves the first pending jump of `code`, if there is one.
pub fn set_first_index<I>(code: &mut Code<I>)
    ensures
        final(code)@ == patch_first_pending_jump(old(code)@),
{
    let code_len = code.len();
    let mut idx: usize = 0;
    while idx < code_len
        invariant
            code_len == code@.len(),
            idx <= code_len,
            code@ == old(code)@,
            first_pending(code@, 0) == first_pending(code@, idx as int),
        decreases code_len - idx,
    {
        let found = match &code[idx] {
            Line::Control(ControlInstruction::JmpBy { arity, offset, perm_vars, last_call }) => {
                if *offset == 0 {
                    Some((*arity, *perm_vars, *last_call))
                } else {
                    None
                }
            },
            _ => None,
        };
        match found {
            Some((arity, perm_vars, last_call)) => {
                let offset = code_len - idx;
                code.set(idx, Line::Control(ControlInstruction::JmpBy { arity, offset, perm_vars, last_call }));
                return ;
            },
            None => {},
        }
        idx = idx + 1;
    }
}

/// Resolves the first pending jump of `code` against its present end and
/// appends `block` there.
pub fn append_block<I>(code: &mut Code<I>, block: Code<I>)
    ensures
        final(code)@ == patch_first_pending_jump(old(code)@) + block@,
{
    let mut block = block;
    set_first_index(code);
    code.append(&mut block);
}

/// `code` after each of `blocks` has been spliced in, in order: before a block
/// is appended, the first pending jump of what came before is resolved
/// against its end.
pub open spec fn splice_all<I>(code: Seq<Line<I>>, blocks: Seq<Seq<Line<I>>>) -> Seq<Line<I>>
    decreases blocks.len(),
{
    if blocks.len() == 0 {
        code
    } else {
        patch_first_pending_jump(splice_all(code, blocks.drop_last())) + blocks.last()
    }
}

/// The number of lines in all of `blocks`.
pub open spec fn total_len<I>(blocks: Seq<Seq<Line<I>>>) -> nat
    decreases blocks.len(),
{
    if blocks.len() == 0 {
        0
    } else {
        total_len(blocks.drop_last()) + blocks.last().len()
    }
}

/// Splicing one more block at the end.
pub proof fn lemma_splice_push<I>(code: Seq<Line<I>>, blocks: Seq<Seq<Line<I>>>, block: Seq<Line<I>>)
    ensures
        splice_all(code, blocks.push(block)) == patch_first_pending_jump(splice_all(code, blocks)) + block,
{
    assert(blocks.push(block).drop_last() =~= blocks);
}

/// Splicing a queue of two blocks `a`, `b` into `code` gives the patched
/// `code`, then `a`, the whole patched once more, then `b`.
pub proof fn lemma_splice_two<I>(code: Seq<Line<I>>, a: Seq<Line<I>>, b: Seq<Line<I>>)
    ensures
        splice_all(code, seq![a, b]) == patch_first_pending_jump(patch_first_pending_jump(code) + a) + b,
{
    let none: Seq<Seq<Line<I>>> = Seq::empty();
    lemma_splice_push(code, none, a);
    lemma_splice_push(code, none.push(a), b);
    assert(none.push(a).push(b) =~= seq![a, b]);
    assert(splice_all(code, none) == code);
}

/// Splicing adds the lines of the blocks to the code and nothing else, so the
/// length does not depend on the order of the blocks.
pub proof fn lemma_splice_len<I>(code: Seq<Line<I>>, blocks: Seq<Seq<Line<I>>>)
    ensures
        splice_all(code, blocks).len() == code.len() + total_len(blocks),
    decreases blocks.len(),
{
    if blocks.len() > 0 {
        lemma_splice_len(code, blocks.drop_last());
        lemma_patch_len(splice_all(code, blocks.drop_last()));
    }
}

/// Block `i` of a splice begins where the code and the blocks before it end,
/// whatever the blocks after it are.
pub proof fn lemma_splice_block_start<I>(code: Seq<Line<I>>, blocks: Seq<Seq<Line<I>>>, i: int)
    requires
        0 <= i < blocks.len(),
    ensures
        splice_all(code, blocks.take(i + 1)).len() == code.len() + total_len(blocks.take(i)) + blocks[i].len(),
        splice_all(code, blocks.take(i + 1)).subrange(
            (code.len() + total_len(blocks.take(i))) as int,
            (code.len() + total_len(blocks.take(i)) + blocks[i].len()) as int,
        ) == blocks[i],
{
    let upto = blocks.take(i + 1);
    assert(upto.drop_last() =~= blocks.take(i));
    assert(upto.last() == blocks[i]);
    lemma_splice_len(code, blocks.take(i));
    lemma_patch_len(splice_all(code, blocks.take(i)));
    let head = patch_first_pending_jump(splice_all(code, blocks.take(i)));
    assert((head + blocks[i]).subrange(head.len() as int, (head.len() + blocks[i].len()) as int) =~= blocks[i]);
}

/// Exchanging two blocks of a queue keeps the length of each block and of the
/// whole splice.
pub proof fn lemma_splice_swap_len<I>(code: Seq<Line<I>>, a: Seq<Line<I>>, b: Seq<Line<I>>)
    ensures
        splice_all(code, seq![a, b]).len() == splice_all(code, seq![b, a]).len(),
        splice_all(code, seq![a, b]).len() == code.len() + a.len() + b.len(),
{
    lemma_splice_two(code, a, b);
    lemma_splice_two(code, b, a);
    lemma_patch_len(code);
    lemma_patch_len(patch_first_pending_jump(code) + a);
    lemma_patch_len(patch_first_pending_jump(code) + b);
}

} // verus!
