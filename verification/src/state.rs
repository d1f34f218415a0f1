//! The model of an environment: a chain of scopes, and the text that was
//! printed.

use vstd::prelude::*;
use crate::model::{Primitive, Value};

verus! {

/// One scope: the values bound to names.
pub type Frame = Map<Seq<char>, Value>;

/// The result of an arithmetic function on two numbers of which one at
/// least is a floating-point number, each as its text.
pub struct Fact {
    pub op: Primitive,
    pub x: Seq<char>,
    pub y: Seq<char>,
    pub result: Seq<char>,
}

/// An environment. `frames[0]` is the root scope; each scope after it is a
/// child of the one before; the last is the current scope. `facts` are the
/// results of floating-point arithmetic that the environment was told.
pub struct State {
    pub frames: Seq<Frame>,
    pub output: Seq<char>,
    pub facts: Seq<Fact>,
}

/// The result that the first of the facts from place `i` on gives for the
/// operation.
pub open spec fn known_from(facts: Seq<Fact>, i: int, op: Primitive, x: Seq<char>, y: Seq<char>)
    -> Option<Seq<char>>
    decreases facts.len() - i,
{
    if i < 0 || i >= facts.len() {
        None
    } else if facts[i].op == op && facts[i].x == x && facts[i].y == y {
        Some(facts[i].result)
    } else {
        known_from(facts, i + 1, op, x, y)
    }
}

/// What `name` is bound to in the scopes `frames[0..=k]`, the innermost
/// binding first.
pub open spec fn lookup_from(frames: Seq<Frame>, k: int, name: Seq<char>) -> Option<Value>
    decreases k + 1,
{
    if k < 0 || k >= frames.len() {
        None
    } else if frames[k].contains_key(name) {
        Some(frames[k][name])
    } else {
        lookup_from(frames, k - 1, name)
    }
}

impl State {
    /// An environment of one empty scope.
    pub open spec fn root() -> State {
        State { frames: seq![Map::empty()], output: Seq::empty(), facts: Seq::empty() }
    }

    /// Whether the environment has a scope.
    pub open spec fn wf(self) -> bool {
        self.frames.len() >= 1
    }

    /// The number of scopes.
    pub open spec fn depth(self) -> nat {
        self.frames.len()
    }

    /// What `name` is bound to, seen from the current scope.
    pub open spec fn lookup(self, name: Seq<char>) -> Option<Value> {
        lookup_from(self.frames, self.frames.len() - 1, name)
    }

    /// The environment with `name` bound to `v` in the current scope.
    pub open spec fn insert(self, name: Seq<char>, v: Value) -> State {
        State {
            frames: self.frames.update(
                self.frames.len() - 1,
                self.frames.last().insert(name, v),
            ),
            ..self
        }
    }

    /// The environment with `name` bound to `v` in the root scope, and
    /// unbound in the current scope where that is another one. The scopes
    /// between the two stay as they are.
    pub open spec fn insert_global(self, name: Seq<char>, v: Value) -> State {
        if self.frames.len() <= 1 {
            self.insert(name, v)
        } else {
            State {
                frames: self.frames.update(
                    self.frames.len() - 1,
                    self.frames.last().remove(name),
                ).update(0, self.frames[0].insert(name, v)),
                ..self
            }
        }
    }

    /// The environment with a new empty scope, child of the current one.
    pub open spec fn enter(self) -> State {
        State { frames: self.frames.push(Map::empty()), ..self }
    }

    /// The environment with `frame` as a new scope, child of the current
    /// one.
    pub open spec fn enter_with(self, frame: Frame) -> State {
        State { frames: self.frames.push(frame), ..self }
    }

    /// The environment without its current scope; unchanged where that is
    /// the root.
    pub open spec fn leave(self) -> State {
        if self.frames.len() <= 1 {
            self
        } else {
            State { frames: self.frames.drop_last(), ..self }
        }
    }

    /// The result that the environment was told for the operation, if it
    /// was told one; the first where it was told several.
    pub open spec fn known(self, op: Primitive, x: Seq<char>, y: Seq<char>) -> Option<Seq<char>> {
        known_from(self.facts, 0, op, x, y)
    }

    /// The environment that was told one more fact.
    pub open spec fn learn(self, fact: Fact) -> State {
        State { facts: self.facts.push(fact), ..self }
    }

    /// The environment after `text` was printed.
    pub open spec fn print(self, text: Seq<char>) -> State {
        State { output: self.output + text, ..self }
    }
}

} // verus!
