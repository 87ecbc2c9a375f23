//! Expansion of `@file` arguments.
//!
//! An argument that begins with `@` names a file; the file's lines take the
//! argument's place, in order. Every other argument stays as it is. Reading
//! the file is the caller's part: an [`Expansion`] says which file it waits
//! for, and goes on when it is handed the file's text.

use vstd::prelude::*;
use vstd::string::*;
use crate::lines::{lines_of, split_lines};

verus! {

/// Whether `arg` stands for a file whose lines replace it.
pub open spec fn is_indirection(arg: Seq<char>) -> bool {
    arg.len() > 0 && arg[0] == '@'
}

/// The path that an indirection argument names: the argument without its marker.
pub open spec fn indirection_path(arg: Seq<char>) -> Seq<char> {
    arg.skip(1)
}

/// The index of the first indirection argument at or after `from`, or the
/// number of arguments where none is left.
pub open spec fn next_indirection(args: Seq<Seq<char>>, from: int) -> int
    decreases args.len() - from,
{
    if from >= args.len() {
        args.len() as int
    } else if is_indirection(args[from]) {
        from
    } else {
        next_indirection(args, from + 1)
    }
}

/// The number of indirection arguments among `args`.
pub open spec fn indirection_count(args: Seq<Seq<char>>) -> nat
    decreases args.len(),
{
    if args.len() == 0 {
        0
    } else if is_indirection(args.last()) {
        indirection_count(args.drop_last()) + 1
    } else {
        indirection_count(args.drop_last())
    }
}

/// The arguments that `raw` expands to, `contents` holding the text of the
/// file of each indirection argument, in the order of those arguments: the
/// lines of the file stand in the argument's place, and every other argument
/// stands as it is. An indirection argument whose text is wanting adds
/// nothing.
pub open spec fn expansion(raw: Seq<Seq<char>>, contents: Seq<Seq<char>>) -> Seq<Seq<char>>
    decreases raw.len(),
{
    if raw.len() == 0 {
        Seq::empty()
    } else if !is_indirection(raw.last()) {
        expansion(raw.drop_last(), contents) + seq![raw.last()]
    } else if contents.len() == 0 {
        expansion(raw.drop_last(), contents)
    } else {
        expansion(raw.drop_last(), contents.drop_last()) + lines_of(contents.last())
    }
}

/// Whether `arg` is an indirection argument.
pub fn is_indirection_argument(arg: &str) -> (marked: bool)
    ensures
        marked == is_indirection(arg@),
{
    !arg.is_empty() && arg.get_char(0) == '@'
}

/// The path named by `arg`, where `arg` is an indirection argument.
pub fn indirection_target(arg: &str) -> (path: Option<String>)
    ensures
        path is Some <==> is_indirection(arg@),
        path is Some ==> path->0@ == indirection_path(arg@),
{
    if is_indirection_argument(arg) {
        Some(arg.substring_char(1, arg.unicode_len()).to_owned())
    } else {
        None
    }
}

/// An expansion under way: the raw arguments, how many of them are consumed,
/// and the expanded arguments so far.
pub struct Expansion {
    args: Vec<String>,
    next: usize,
    output: Vec<String>,
    supplied: Ghost<Seq<Seq<char>>>,
}

impl Expansion {
    /// The raw arguments.
    pub closed spec fn raw(&self) -> Seq<Seq<char>> {
        self.args.deep_view()
    }

    /// The number of raw arguments consumed.
    pub closed spec fn position(&self) -> int {
        self.next as int
    }

    /// The expanded arguments so far.
    pub closed spec fn output(&self) -> Seq<Seq<char>> {
        self.output.deep_view()
    }

    /// The texts handed over so far, first to last.
    pub closed spec fn supplied(&self) -> Seq<Seq<char>> {
        self.supplied@
    }

    /// An expansion rests only at an indirection argument or at the end. It
    /// was handed one text for each indirection argument consumed, and its
    /// output is the expansion of the arguments consumed.
    pub open spec fn wf(&self) -> bool {
        &&& 0 <= self.position() <= self.raw().len()
        &&& self.position() < self.raw().len() ==> is_indirection(self.raw()[self.position()])
        &&& self.supplied().len() == indirection_count(self.raw().take(self.position()))
        &&& self.output() == expansion(self.raw().take(self.position()), self.supplied())
    }

    /// Whether every raw argument is consumed.
    pub open spec fn is_done(&self) -> bool {
        self.position() == self.raw().len()
    }

    /// Starts on `args`: the arguments before the first indirection pass
    /// through unchanged.
    pub fn begin(args: Vec<String>) -> (e: Expansion)
        ensures
            e.wf(),
            e.raw() == args.deep_view(),
            e.supplied() == Seq::<Seq<char>>::empty(),
            e.position() == next_indirection(e.raw(), 0),
            e.output() == e.raw().subrange(0, e.position()),
    {
        let mut e = Expansion { args, next: 0, output: Vec::new(), supplied: Ghost(Seq::empty()) };
        assert(e.output.deep_view() == Seq::<Seq<char>>::empty());
        assert(e.args.deep_view().take(0) == Seq::<Seq<char>>::empty());
        e.pass_plain();
        e
    }

    /// Copies raw arguments to the output up to the next indirection.
    fn pass_plain(&mut self)
        requires
            old(self).next <= old(self).args.len(),
            old(self).supplied().len() == indirection_count(
                old(self).raw().take(old(self).position()),
            ),
            old(self).output() == expansion(
                old(self).raw().take(old(self).position()),
                old(self).supplied(),
            ),
        ensures
            final(self).wf(),
            final(self).raw() == old(self).raw(),
            final(self).supplied() == old(self).supplied(),
            final(self).position() == next_indirection(old(self).raw(), old(self).position()),
            old(self).position() <= final(self).position(),
            final(self).output() == old(self).output() + old(self).raw().subrange(
                old(self).position(),
                final(self).position(),
            ),
    {
        let ghost raw = self.args.deep_view();
        let ghost first = self.next as int;
        let ghost out = self.output.deep_view();
        assert(raw.len() == self.args.len());
        assert(out + raw.subrange(first, first) == out);
        while self.next < self.args.len() && !is_indirection_argument(self.args[self.next].as_str())
            invariant
                self.supplied@.len() == indirection_count(raw.take(self.next as int)),
                self.args.deep_view() == raw,
                self.supplied == old(self).supplied,
                self.output.deep_view() == expansion(raw.take(self.next as int), self.supplied@),
                raw.len() == self.args.len(),
                0 <= first <= self.next <= self.args.len(),
                next_indirection(raw, self.next as int) == next_indirection(raw, first),
                self.output.deep_view() == out + raw.subrange(first, self.next as int),
            decreases self.args.len() - self.next,
        {
            let arg: String = self.args[self.next].clone();
            let ghost before = self.output.deep_view();
            self.output.push(arg);
            proof {
                assert(arg@ == raw[self.next as int]);
                assert(self.output.deep_view() == before.push(arg@));
                assert(before.push(arg@) == out + raw.subrange(first, self.next + 1));
                assert(raw.take(self.next + 1).drop_last() == raw.take(self.next as int));
                assert(before.push(arg@) == before + seq![arg@]);
            }
            self.next = self.next + 1;
        }
        assert(self.args.deep_view().len() == self.args.len());
    }

    /// The path of the file whose text the expansion waits for, or `None`
    /// once every argument is consumed.
    pub fn awaited(&self) -> (path: Option<String>)
        requires
            self.wf(),
        ensures
            path is None <==> self.is_done(),
            path is Some ==> path->0@ == indirection_path(self.raw()[self.position()]),
    {
        assert(self.args.deep_view().len() == self.args.len());
        if self.next < self.args.len() {
            indirection_target(self.args[self.next].as_str())
        } else {
            None
        }
    }

    /// Hands over the text of the awaited file: its lines take the place of
    /// the indirection argument, and the plain arguments that follow pass
    /// through up to the next indirection. Without an awaited file nothing
    /// changes.
    pub fn supply(&mut self, content: &str)
        requires
            old(self).wf(),
        ensures
            final(self).wf(),
            final(self).raw() == old(self).raw(),
            old(self).is_done() ==> final(self).position() == old(self).position()
                && final(self).output() == old(self).output() && final(self).supplied() == old(
                self,
            ).supplied(),
            !old(self).is_done() ==> final(self).supplied() == old(self).supplied().push(content@),
            !old(self).is_done() ==> old(self).position() < final(self).position(),
            !old(self).is_done() ==> final(self).position() == next_indirection(
                old(self).raw(),
                old(self).position() + 1,
            ) && final(self).output() == old(self).output() + lines_of(content@)
                + old(self).raw().subrange(old(self).position() + 1, final(self).position()),
    {
        assert(self.args.deep_view().len() == self.args.len());
        if self.next < self.args.len() {
            let mut lines: Vec<String> = split_lines(content);
            let ghost before = self.output.deep_view();
            let ghost added = lines.deep_view();
            self.output.append(&mut lines);
            assert(self.output.deep_view() == before + added);
            proof {
                let raw = self.args.deep_view();
                let prior = self.supplied@;
                let texts = prior.push(content@);
                assert(raw.take(self.next + 1).drop_last() == raw.take(self.next as int));
                assert(texts.drop_last() =~= prior);
                self.supplied = Ghost(texts);
            }
            self.next = self.next + 1;
            self.pass_plain();
        }
    }

    /// The expanded arguments, once every raw argument is consumed.
    pub fn finish(self) -> (args: Option<Vec<String>>)
        requires
            self.wf(),
        ensures
            args is Some <==> self.is_done(),
            args is Some ==> args->0.deep_view() == self.output(),
            args is Some ==> args->0.deep_view() == expansion(self.raw(), self.supplied()),
    {
        assert(self.args.deep_view().len() == self.args.len());
        assert(self.args.deep_view().take(self.args.len() as int) == self.args.deep_view());
        if self.next < self.args.len() {
            None
        } else {
            Some(self.output)
        }
    }
}

/// An indirection argument is replaced by exactly the lines of its file:
/// they stand where the argument stood, after everything expanded before it,
/// and the plain arguments that follow come directly after them, unchanged
/// and in their order.
pub proof fn lemma_supply_inserts_lines(before: Expansion, after: Expansion, content: Seq<char>)
    requires
        before.wf(),
        !before.is_done(),
        after.raw() == before.raw(),
        after.position() == next_indirection(before.raw(), before.position() + 1),
        after.output() == before.output() + lines_of(content) + before.raw().subrange(
            before.position() + 1,
            after.position(),
        ),
    ensures
        before.position() < after.position() <= before.raw().len(),
        after.output().len() == before.output().len() + lines_of(content).len() + (after.position()
            - before.position() - 1),
        after.output().subrange(0, before.output().len() as int) == before.output(),
        after.output().subrange(
            before.output().len() as int,
            (before.output().len() + lines_of(content).len()) as int,
        ) == lines_of(content),
        forall|i: int|
            before.position() < i < after.position() ==> !is_indirection(before.raw()[i])
                && after.output()[before.output().len() + lines_of(content).len() + (i
                - before.position() - 1)] == #[trigger] before.raw()[i],
{
    lemma_next_indirection(before.raw(), before.position() + 1);
}

/// Arguments of which none is an indirection expand to themselves.
pub proof fn lemma_plain_arguments_pass(args: Seq<Seq<char>>, contents: Seq<Seq<char>>)
    requires
        forall|i: int| 0 <= i < args.len() ==> !is_indirection(#[trigger] args[i]),
    ensures
        expansion(args, contents) == args,
    decreases args.len(),
{
    if args.len() > 0 {
        lemma_plain_arguments_pass(args.drop_last(), contents);
        assert(args.drop_last() + seq![args.last()] == args);
    }
}

/// The expansion of arguments written one after the other is the expansion
/// of the first, then that of the second, where each part has the texts of
/// its own indirection arguments.
pub proof fn lemma_expansion_of_parts(
    first: Seq<Seq<char>>,
    first_texts: Seq<Seq<char>>,
    second: Seq<Seq<char>>,
    second_texts: Seq<Seq<char>>,
)
    requires
        second_texts.len() == indirection_count(second),
    ensures
        expansion(first + second, first_texts + second_texts) == expansion(first, first_texts)
            + expansion(second, second_texts),
    decreases second.len(),
{
    let raw = first + second;
    let texts = first_texts + second_texts;
    if second.len() == 0 {
        assert(raw == first);
        assert(texts == first_texts);
        assert(expansion(first, first_texts) + Seq::<Seq<char>>::empty() == expansion(
            first,
            first_texts,
        ));
    } else {
        assert(raw.drop_last() == first + second.drop_last());
        assert(raw.last() == second.last());
        if is_indirection(second.last()) {
            assert(texts.drop_last() == first_texts + second_texts.drop_last());
            assert(texts.last() == second_texts.last());
            lemma_expansion_of_parts(
                first,
                first_texts,
                second.drop_last(),
                second_texts.drop_last(),
            );
            assert(expansion(first, first_texts) + expansion(
                second.drop_last(),
                second_texts.drop_last(),
            ) + lines_of(second_texts.last()) == expansion(first, first_texts) + (expansion(
                second.drop_last(),
                second_texts.drop_last(),
            ) + lines_of(second_texts.last())));
        } else {
            lemma_expansion_of_parts(first, first_texts, second.drop_last(), second_texts);
            assert(expansion(first, first_texts) + expansion(second.drop_last(), second_texts)
                + seq![second.last()] == expansion(first, first_texts) + (expansion(
                second.drop_last(),
                second_texts,
            ) + seq![second.last()]));
        }
    }
}

/// An indirection argument expands to exactly the lines of its file, at the
/// place where it stood: what the arguments before it and after it expand
/// to stands before and after those lines, in its order.
pub proof fn lemma_indirection_in_place(
    before: Seq<Seq<char>>,
    before_texts: Seq<Seq<char>>,
    arg: Seq<char>,
    content: Seq<char>,
    after: Seq<Seq<char>>,
    after_texts: Seq<Seq<char>>,
)
    requires
        is_indirection(arg),
        after_texts.len() == indirection_count(after),
    ensures
        expansion(before + seq![arg] + after, before_texts + seq![content] + after_texts)
            == expansion(before, before_texts) + lines_of(content) + expansion(after, after_texts),
{
    let one = seq![arg];
    let text = seq![content];
    assert(one.drop_last() == Seq::<Seq<char>>::empty());
    assert(text.drop_last() == Seq::<Seq<char>>::empty());
    assert(expansion(one.drop_last(), text.drop_last()) == Seq::<Seq<char>>::empty());
    assert(expansion(one, text) == lines_of(content));
    assert(indirection_count(one.drop_last()) == 0);
    lemma_expansion_of_parts(before, before_texts, one, text);
    lemma_expansion_of_parts(before + one, before_texts + text, after, after_texts);
}

/// Where the next indirection lies: not before `from`, not past the end, with
/// only plain arguments between `from` and it.
pub proof fn lemma_next_indirection(args: Seq<Seq<char>>, from: int)
    requires
        0 <= from <= args.len(),
    ensures
        from <= next_indirection(args, from) <= args.len(),
        next_indirection(args, from) < args.len() ==> is_indirection(
            args[next_indirection(args, from)],
        ),
        forall|i: int| from <= i < next_indirection(args, from) ==> !is_indirection(#[trigger] args[i]),
    decreases args.len() - from,
{
    if from < args.len() && !is_indirection(args[from]) {
        lemma_next_indirection(args, from + 1);
    }
}

} // verus!
