//! A call frame: the private stack, local variables, carry flag and position
//! of one invocation.

use vstd::prelude::*;
use crate::bindings::{
    as_map, lemma_empty, lemma_lookup_absent, lemma_lookup_at, lemma_push, lemma_replace,
};
use crate::semantics::FrameView;
use crate::value::{value_views, Value, ValueView};

verus! {

/// One local variable.
pub struct Binding {
    pub name: String,
    pub value: Value,
}

/// The local variables of a frame: a mapping from names to values.
pub struct Locals {
    entries: Vec<Binding>,
}

impl View for Locals {
    type V = Map<Seq<char>, ValueView>;

    closed spec fn view(&self) -> Map<Seq<char>, ValueView> {
        as_map(self.pairs())
    }
}

impl Locals {
    closed spec fn pairs(&self) -> Seq<(Seq<char>, ValueView)> {
        self.entries@.map_values(|b: Binding| (b.name@, b.value@))
    }

    /// No variables.
    pub fn new() -> (locals: Locals)
        ensures
            locals@ == Map::<Seq<char>, ValueView>::empty(),
    {
        let locals = Locals { entries: Vec::new() };
        proof {
            lemma_empty::<ValueView>();
            assert(locals.pairs() =~= Seq::empty());
        }
        locals
    }

    /// Where the last entry for `name` stands, if there is one.
    fn position(&self, name: &String) -> (at: Option<usize>)
        ensures
            at matches Some(i) ==> i < self.entries.len() && self.pairs()[i as int].0 == name@,
            at is None ==> forall|j: int|
                0 <= j < self.entries.len() ==> self.pairs()[j].0 != name@,
            forall|j: int|
                at is Some && at->0 < j < self.entries.len() ==> self.pairs()[j].0 != name@,
    {
        let mut i: usize = self.entries.len();
        while i > 0
            invariant
                i <= self.entries.len(),
                forall|j: int| i <= j < self.entries.len() ==> self.pairs()[j].0 != name@,
            decreases i,
        {
            i -= 1;
            if self.entries[i].name == *name {
                return Some(i);
            }
        }
        None
    }

    /// A copy of the value that `name` is bound to.
    pub fn get(&self, name: &String) -> (found: Option<Value>)
        ensures
            found is Some <==> self@.contains_key(name@),
            found matches Some(v) ==> v@ == self@[name@],
    {
        match self.position(name) {
            Some(i) => {
                proof {
                    lemma_lookup_at(self.pairs(), i as int);
                }
                Some(self.entries[i].value.duplicate())
            },
            None => {
                proof {
                    lemma_lookup_absent(self.pairs(), name@);
                }
                None
            },
        }
    }

    /// Binds `name` to `value`; an earlier binding of the name is replaced.
    pub fn insert(&mut self, name: String, value: Value)
        ensures
            final(self)@ == old(self)@.insert(name@, value@),
    {
        match self.position(&name) {
            Some(i) => {
                proof {
                    lemma_replace(self.pairs(), i as int, value@);
                    assert(self.pairs().update(i as int, (name@, value@)) =~= self.entries@.update(
                        i as int,
                        Binding { name, value },
                    ).map_values(|b: Binding| (b.name@, b.value@)));
                }
                self.entries.set(i, Binding { name, value });
            },
            None => {
                proof {
                    lemma_push(self.pairs(), name@, value@);
                    assert(self.pairs().push((name@, value@)) =~= self.entries@.push(
                        Binding { name, value },
                    ).map_values(|b: Binding| (b.name@, b.value@)));
                }
                self.entries.push(Binding { name, value });
            },
        }
    }
}

/// The state of one invocation.
pub struct Frame {
    /// The index of the instruction to run next.
    pub ip: usize,
    /// The carry flag.
    pub carry: bool,
    /// The evaluation stack, top last.
    pub stack: Vec<Value>,
    /// The local variables.
    pub locals: Locals,
}

impl View for Frame {
    type V = FrameView;

    open spec fn view(&self) -> FrameView {
        FrameView {
            ip: self.ip as int,
            carry: self.carry,
            stack: value_views(self.stack@),
            locals: self.locals@,
        }
    }
}

impl Frame {
    /// The frame of a new invocation: it starts at `ip` with `arguments` on
    /// its stack, no locals and the carry flag down.
    pub fn new(ip: usize, arguments: Vec<Value>) -> (frame: Frame)
        ensures
            frame@ == FrameView::fresh(ip as int, value_views(arguments@)),
    {
        Frame { ip, carry: false, stack: arguments, locals: Locals::new() }
    }

    /// Puts `value` on top of the stack.
    pub fn push(&mut self, value: Value)
        ensures
            final(self)@ == old(self)@.with_stack(old(self)@.stack.push(value@)),
    {
        proof {
            assert(value_views(self.stack@.push(value)) =~= value_views(self.stack@).push(value@));
        }
        self.stack.push(value);
    }

    /// Takes the top of the stack.
    pub fn pop(&mut self) -> (value: Value)
        requires
            old(self).stack.len() >= 1,
        ensures
            value@ == old(self)@.top(),
            final(self)@ == old(self)@.with_stack(old(self)@.without(1)),
    {
        proof {
            assert(value_views(self.stack@.drop_last()) =~= value_views(self.stack@).take(
                self.stack.len() - 1,
            ));
        }
        self.stack.pop().unwrap()
    }

    /// Moves on to the next instruction.
    pub fn advance(&mut self)
        requires
            old(self).ip < usize::MAX,
        ensures
            final(self)@ == old(self)@.at(old(self)@.ip + 1),
    {
        self.ip = self.ip + 1;
    }

    /// Whether the value `depth` places under the top is a text.
    pub fn holds_text(&self, depth: usize) -> (r: bool)
        requires
            depth < self.stack.len(),
        ensures
            r == (self@.stack[self@.stack.len() - 1 - depth] is Text),
    {
        match &self.stack[self.stack.len() - 1 - depth] {
            Value::Text(_) => true,
            Value::Integer(_) => false,
        }
    }

    /// Takes the text on top of the stack.
    pub fn pop_text(&mut self) -> (text: String)
        requires
            old(self).stack.len() >= 1,
            old(self)@.top() is Text,
        ensures
            ValueView::Text(text@) == old(self)@.top(),
            final(self)@ == old(self)@.with_stack(old(self)@.without(1)),
    {
        match self.pop() {
            Value::Text(text) => text,
            Value::Integer(_) => vstd::pervasive::unreached(),
        }
    }

    /// Takes the integer on top of the stack.
    pub fn pop_integer(&mut self) -> (n: i64)
        requires
            old(self).stack.len() >= 1,
            old(self)@.top() is Integer,
        ensures
            ValueView::Integer(n) == old(self)@.top(),
            final(self)@ == old(self)@.with_stack(old(self)@.without(1)),
    {
        match self.pop() {
            Value::Integer(n) => n,
            Value::Text(_) => vstd::pervasive::unreached(),
        }
    }

    /// Takes the `n` topmost values, in the order in which they were pushed.
    pub fn split_top(&mut self, n: usize) -> (taken: Vec<Value>)
        requires
            n <= old(self).stack.len(),
        ensures
            value_views(taken@) == old(self)@.stack.skip(old(self)@.stack.len() - n),
            final(self)@ == old(self)@.with_stack(old(self)@.without(n as int)),
    {
        let at = self.stack.len() - n;
        proof {
            assert(value_views(self.stack@.subrange(0, at as int)) =~= value_views(
                self.stack@,
            ).take(at as int));
            assert(value_views(self.stack@.subrange(at as int, self.stack.len() as int))
                =~= value_views(self.stack@).skip(at as int));
        }
        self.stack.split_off(at)
    }
}

} // verus!
