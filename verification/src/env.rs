//! Environments: a chain of scopes with lookup, local insertion and
//! insertion at the root.

use vstd::prelude::*;
use crate::display::show;
use crate::model::{Primitive, Value};
use crate::state::{known_from, lookup_from, Fact, Frame, State};
use crate::text::{fold, folded};
use crate::types::{copy_object, Object};

verus! {

/// Why a name could not be looked up.
#[derive(Clone, Debug, PartialEq)]
pub enum EnvError {
    /// The name is bound in no scope of the chain.
    SymbolNotFound(String),
    /// The key is no symbol; the text is the key as it prints.
    NotASymbol(String),
}

/// The model of a lookup failure.
pub enum EnvFault {
    SymbolNotFound(Seq<char>),
    NotASymbol(Seq<char>),
}

impl View for EnvError {
    type V = EnvFault;

    open spec fn view(&self) -> EnvFault {
        match self {
            EnvError::SymbolNotFound(s) => EnvFault::SymbolNotFound(s@),
            EnvError::NotASymbol(s) => EnvFault::NotASymbol(s@),
        }
    }
}

/// Whether no name occurs twice.
pub open spec fn distinct_names(e: Seq<(String, Object)>) -> bool {
    forall|i: int, j: int| 0 <= i < j < e.len() ==> (#[trigger] e[i]).0@ != (#[trigger] e[j]).0@
}

/// Whether an entry is named `name`.
pub open spec fn names(e: Seq<(String, Object)>, name: Seq<char>) -> bool {
    exists|i: int| 0 <= i < e.len() && (#[trigger] e[i]).0@ == name
}

/// The place of an entry that is named `name`.
pub open spec fn place_of(e: Seq<(String, Object)>, name: Seq<char>) -> int {
    choose|i: int| 0 <= i < e.len() && (#[trigger] e[i]).0@ == name
}

/// The bindings that the entries stand for.
pub open spec fn entries_map(e: Seq<(String, Object)>) -> Frame {
    Map::new(|k: Seq<char>| names(e, k), |k: Seq<char>| e[place_of(e, k)].1@)
}

/// Each entry of a scope is a binding of its map.
proof fn lemma_entry_bound(e: Seq<(String, Object)>, i: int)
    requires
        distinct_names(e),
        0 <= i < e.len(),
    ensures
        entries_map(e).contains_key(e[i].0@),
        entries_map(e)[e[i].0@] == e[i].1@,
{
    assert(names(e, e[i].0@));
    let j = place_of(e, e[i].0@);
    if j < i {
        assert(e[j].0@ != e[i].0@);
    } else if i < j {
        assert(e[i].0@ != e[j].0@);
    }
}

/// A new name is a new binding.
proof fn lemma_push(e: Seq<(String, Object)>, k: String, v: Object)
    requires
        distinct_names(e),
        !names(e, k@),
    ensures
        distinct_names(e.push((k, v))),
        entries_map(e.push((k, v))) == entries_map(e).insert(k@, v@),
{
    let f = e.push((k, v));
    assert forall|i: int, j: int| 0 <= i < j < f.len() implies (#[trigger] f[i]).0@ != (
    #[trigger] f[j]).0@ by {
        if j == e.len() {
            assert(e[i].0@ != k@);
        } else {
            assert(e[i].0@ != e[j].0@);
        }
    }
    assert forall|n: Seq<char>| names(f, n) <==> (n == k@ || names(e, n)) by {
        if names(f, n) {
            let i = place_of(f, n);
            if i < e.len() {
                assert(e[i].0@ == n);
            }
        }
        if n == k@ {
            assert(f[e.len() as int].0@ == n);
        }
        if names(e, n) {
            let i = place_of(e, n);
            assert(f[i].0@ == n);
        }
    }
    assert forall|n: Seq<char>| names(f, n) implies #[trigger] entries_map(f)[n] == entries_map(
        e,
    ).insert(k@, v@)[n] by {
        let i = place_of(f, n);
        lemma_entry_bound(f, i);
        if i < e.len() {
            lemma_entry_bound(e, i);
        }
    }
    assert(entries_map(f) =~= entries_map(e).insert(k@, v@));
}

/// A new value for a name is a new value for its binding.
proof fn lemma_update(e: Seq<(String, Object)>, i: int, k: String, v: Object)
    requires
        distinct_names(e),
        0 <= i < e.len(),
        e[i].0@ == k@,
    ensures
        distinct_names(e.update(i, (k, v))),
        entries_map(e.update(i, (k, v))) == entries_map(e).insert(k@, v@),
{
    let f = e.update(i, (k, v));
    assert forall|a: int, b: int| 0 <= a < b < f.len() implies (#[trigger] f[a]).0@ != (
    #[trigger] f[b]).0@ by {
        assert(e[a].0@ != e[b].0@);
    }
    assert forall|n: Seq<char>| names(f, n) <==> (n == k@ || names(e, n)) by {
        if names(f, n) {
            let j = place_of(f, n);
            assert(e[j].0@ == n);
        }
        if n == k@ {
            assert(f[i].0@ == n);
        }
        if names(e, n) {
            let j = place_of(e, n);
            assert(f[j].0@ == n);
        }
    }
    assert forall|n: Seq<char>| names(f, n) implies #[trigger] entries_map(f)[n] == entries_map(
        e,
    ).insert(k@, v@)[n] by {
        let j = place_of(f, n);
        lemma_entry_bound(f, j);
        lemma_entry_bound(e, j);
    }
    assert(entries_map(f) =~= entries_map(e).insert(k@, v@));
}

/// Without an entry, its name is unbound.
proof fn lemma_remove(e: Seq<(String, Object)>, i: int)
    requires
        distinct_names(e),
        0 <= i < e.len(),
    ensures
        distinct_names(e.remove(i)),
        entries_map(e.remove(i)) == entries_map(e).remove(e[i].0@),
{
    let f = e.remove(i);
    let k = e[i].0@;
    assert forall|a: int, b: int| 0 <= a < b < f.len() implies (#[trigger] f[a]).0@ != (
    #[trigger] f[b]).0@ by {
        let a2 = if a < i {
            a
        } else {
            a + 1
        };
        let b2 = if b < i {
            b
        } else {
            b + 1
        };
        assert(e[a2].0@ != e[b2].0@);
    }
    assert forall|n: Seq<char>| names(f, n) <==> (n != k && names(e, n)) by {
        if names(f, n) {
            let j = place_of(f, n);
            let j2 = if j < i {
                j
            } else {
                j + 1
            };
            assert(e[j2].0@ == n);
            if j2 < i {
                assert(e[j2].0@ != e[i].0@);
            } else {
                assert(e[i].0@ != e[j2].0@);
            }
        }
        if n != k && names(e, n) {
            let j = place_of(e, n);
            let j2 = if j < i {
                j
            } else {
                j - 1
            };
            assert(f[j2].0@ == n);
        }
    }
    assert forall|n: Seq<char>| names(f, n) implies #[trigger] entries_map(f)[n] == entries_map(
        e,
    ).remove(k)[n] by {
        let j = place_of(f, n);
        let j2 = if j < i {
            j
        } else {
            j + 1
        };
        lemma_entry_bound(f, j);
        lemma_entry_bound(e, j2);
    }
    assert(entries_map(f) =~= entries_map(e).remove(k));
}

/// The place of the entry named `key`, if there is one.
fn find(entries: &Vec<(String, Object)>, key: &String) -> (r: Option<usize>)
    ensures
        match r {
            Some(i) => i < entries@.len() && entries@[i as int].0@ == key@,
            None => !names(entries@, key@),
        },
{
    let mut i: usize = 0;
    while i < entries.len()
        invariant
            i <= entries.len(),
            forall|j: int| 0 <= j < i ==> (#[trigger] entries@[j]).0@ != key@,
        decreases entries.len() - i,
    {
        if entries[i].0 == *key {
            return Some(i);
        }
        i += 1;
    }
    None
}

/// One scope: the values bound to names.
#[derive(Debug)]
pub struct Scope {
    entries: Vec<(String, Object)>,
}

impl View for Scope {
    type V = Frame;

    closed spec fn view(&self) -> Frame {
        entries_map(self.entries@)
    }
}

impl Scope {
    /// No name has two entries.
    #[verifier::type_invariant]
    spec fn well_formed(&self) -> bool {
        distinct_names(self.entries@)
    }

    /// The scope without a binding.
    pub fn new() -> (r: Self)
        ensures
            r@ == Map::<Seq<char>, Value>::empty(),
    {
        let r = Scope { entries: Vec::new() };
        assert(r@ =~= Map::<Seq<char>, Value>::empty());
        r
    }

    /// The number of names that are bound.
    pub fn len(&self) -> (r: usize)
        ensures
            r == self@.dom().len(),
            self@.dom().finite(),
    {
        proof {
            use_type_invariant(self);
            lemma_domain_size(self.entries@);
        }
        self.entries.len()
    }

    /// A copy of the value bound to `key`, if one is.
    pub fn get(&self, key: &String) -> (r: Option<Object>)
        ensures
            match r {
                Some(o) => self@.contains_key(key@) && o@ == self@[key@],
                None => !self@.contains_key(key@),
            },
    {
        proof {
            use_type_invariant(self);
        }
        match find(&self.entries, key) {
            Some(i) => {
                proof {
                    lemma_entry_bound(self.entries@, i as int);
                }
                Some(copy_object(&self.entries[i].1))
            },
            None => None,
        }
    }

    /// Binds `key` to `value`.
    pub fn insert(&mut self, key: String, value: Object)
        ensures
            final(self)@ == old(self)@.insert(key@, value@),
    {
        proof {
            use_type_invariant(&*self);
        }
        let mut entries: Vec<(String, Object)> = Vec::new();
        core::mem::swap(&mut self.entries, &mut entries);
        match find(&entries, &key) {
            Some(i) => {
                proof {
                    lemma_update(entries@, i as int, key, value);
                }
                entries[i] = (key, value);
            },
            None => {
                proof {
                    lemma_push(entries@, key, value);
                }
                entries.push((key, value));
            },
        }
        self.entries = entries;
    }

    /// Unbinds `key`.
    pub fn remove(&mut self, key: &String)
        ensures
            final(self)@ == old(self)@.remove(key@),
    {
        proof {
            use_type_invariant(&*self);
        }
        let mut entries: Vec<(String, Object)> = Vec::new();
        core::mem::swap(&mut self.entries, &mut entries);
        match find(&entries, key) {
            Some(i) => {
                proof {
                    lemma_remove(entries@, i as int);
                }
                let _ = entries.remove(i);
            },
            None => {
                assert(entries_map(entries@) =~= entries_map(entries@).remove(key@));
            },
        }
        self.entries = entries;
    }
}

impl Clone for Scope {
    fn clone(&self) -> (r: Self)
        ensures
            r@ == self@,
    {
        proof {
            use_type_invariant(self);
        }
        let mut entries: Vec<(String, Object)> = Vec::new();
        let mut i: usize = 0;
        while i < self.entries.len()
            invariant
                i <= self.entries.len(),
                entries.len() == i,
                forall|j: int|
                    0 <= j < i ==> (#[trigger] entries@[j]).0@ == self.entries@[j].0@
                        && entries@[j].1@ == self.entries@[j].1@,
            decreases self.entries.len() - i,
        {
            entries.push((self.entries[i].0.clone(), copy_object(&self.entries[i].1)));
            i += 1;
        }
        proof {
            lemma_same_entries(self.entries@, entries@);
        }
        Scope { entries }
    }
}

/// Entries with the same names and values stand for the same bindings.
proof fn lemma_same_entries(e: Seq<(String, Object)>, f: Seq<(String, Object)>)
    requires
        distinct_names(e),
        e.len() == f.len(),
        forall|j: int|
            0 <= j < e.len() ==> (#[trigger] f[j]).0@ == e[j].0@ && f[j].1@ == e[j].1@,
    ensures
        distinct_names(f),
        entries_map(f) == entries_map(e),
{
    assert forall|a: int, b: int| 0 <= a < b < f.len() implies (#[trigger] f[a]).0@ != (
    #[trigger] f[b]).0@ by {
        assert(e[a].0@ != e[b].0@);
    }
    assert forall|n: Seq<char>| names(f, n) <==> names(e, n) by {
        if names(f, n) {
            let j = place_of(f, n);
            assert(e[j].0@ == n);
        }
        if names(e, n) {
            let j = place_of(e, n);
            assert(f[j].0@ == n);
        }
    }
    assert forall|n: Seq<char>| names(f, n) implies #[trigger] entries_map(f)[n] == entries_map(
        e,
    )[n] by {
        let j = place_of(f, n);
        lemma_entry_bound(f, j);
        lemma_entry_bound(e, j);
    }
    assert(entries_map(f) =~= entries_map(e));
}

/// A scope binds as many names as it has entries.
proof fn lemma_domain_size(e: Seq<(String, Object)>)
    requires
        distinct_names(e),
    ensures
        entries_map(e).dom().finite(),
        entries_map(e).dom().len() == e.len(),
    decreases e.len(),
{
    if e.len() == 0 {
        assert(entries_map(e).dom() =~= Set::<Seq<char>>::empty());
    } else {
        let f = e.drop_last();
        let last = e.last();
        assert(distinct_names(f)) by {
            assert forall|i: int, j: int| 0 <= i < j < f.len() implies (#[trigger] f[i]).0@ != (
            #[trigger] f[j]).0@ by {
                assert(e[i].0@ != e[j].0@);
            }
        }
        lemma_domain_size(f);
        assert(!names(f, last.0@)) by {
            if names(f, last.0@) {
                let i = place_of(f, last.0@);
                assert(e[i].0@ != e[e.len() - 1].0@);
            }
        }
        lemma_push(f, last.0, last.1);
        assert(f.push((last.0, last.1)) =~= e);
        assert(entries_map(e).dom() =~= entries_map(f).dom().insert(last.0@));
    }
}

/// The result of an arithmetic function on two numbers of which one at
/// least is a floating-point number, each as its text.
#[derive(Debug)]
pub struct FloatFact {
    pub op: Primitive,
    pub x: String,
    pub y: String,
    pub result: String,
}

impl View for FloatFact {
    type V = Fact;

    open spec fn view(&self) -> Fact {
        Fact { op: self.op, x: self.x@, y: self.y@, result: self.result@ }
    }
}

impl Clone for FloatFact {
    fn clone(&self) -> (r: Self)
        ensures
            r@ == self@,
    {
        FloatFact {
            op: self.op,
            x: self.x.clone(),
            y: self.y.clone(),
            result: self.result.clone(),
        }
    }
}

/// An environment: the root scope, the scopes nested in it, the text that
/// was printed and not taken yet, and the results of floating-point
/// arithmetic that it was told.
#[derive(Debug)]
pub struct Env {
    root: Scope,
    inner: Vec<Scope>,
    output: String,
    facts: Vec<FloatFact>,
}

impl View for Env {
    type V = State;

    closed spec fn view(&self) -> State {
        State {
            frames: seq![self.root@] + self.inner@.map_values(|s: Scope| s@),
            output: self.output@,
            facts: self.facts@.map_values(|f: FloatFact| f@),
        }
    }
}

impl Clone for Env {
    fn clone(&self) -> (r: Self)
        ensures
            r@ == self@,
    {
        let mut inner: Vec<Scope> = Vec::new();
        let mut i: usize = 0;
        while i < self.inner.len()
            invariant
                i <= self.inner.len(),
                inner.len() == i,
                forall|j: int| 0 <= j < i ==> (#[trigger] inner@[j])@ == self.inner@[j]@,
            decreases self.inner.len() - i,
        {
            inner.push(self.inner[i].clone());
            i += 1;
        }
        let mut facts: Vec<FloatFact> = Vec::new();
        let mut k: usize = 0;
        while k < self.facts.len()
            invariant
                k <= self.facts.len(),
                facts.len() == k,
                forall|j: int| 0 <= j < k ==> (#[trigger] facts@[j])@ == self.facts@[j]@,
            decreases self.facts.len() - k,
        {
            facts.push(self.facts[k].clone());
            k += 1;
        }
        let r = Env { root: self.root.clone(), inner, output: self.output.clone(), facts };
        assert(r@.frames =~= self@.frames);
        assert(r@.facts =~= self@.facts);
        r
    }
}

impl Default for Env {
    /// An environment of one empty scope.
    fn default() -> (r: Self)
        ensures
            r@ == State::root(),
    {
        Env::new()
    }
}

impl Env {
    /// An environment of one empty scope.
    pub fn new() -> (r: Self)
        ensures
            r@ == State::root(),
    {
        let r = Env {
            root: Scope::new(),
            inner: Vec::new(),
            output: String::new(),
            facts: Vec::new(),
        };
        assert(r@.frames =~= State::root().frames);
        assert(r@.facts =~= State::root().facts);
        r
    }

    /// The environment of a new scope inside `parent`.
    pub fn inherit(parent: Self) -> (r: Self)
        ensures
            r@ == parent@.enter(),
    {
        let mut r = parent;
        r.enter();
        r
    }

    /// The number of scopes.
    pub fn depth(&self) -> (r: usize)
        ensures
            r == self@.depth() || (r == usize::MAX && self@.depth() > usize::MAX),
            self@.wf(),
    {
        if self.inner.len() == usize::MAX {
            usize::MAX
        } else {
            self.inner.len() + 1
        }
    }

    /// Opens a new scope inside the current one.
    pub fn enter(&mut self)
        ensures
            final(self)@ == old(self)@.enter(),
    {
        self.inner.push(Scope::new());
        assert(self@.frames =~= old(self)@.enter().frames);
    }

    /// Makes `scope` the current scope, inside the one that was current.
    pub fn enter_with(&mut self, scope: Scope)
        ensures
            final(self)@ == old(self)@.enter_with(scope@),
    {
        self.inner.push(scope);
        assert(self@.frames =~= old(self)@.frames.push(scope@));
    }

    /// Closes the current scope, unless it is the root.
    pub fn leave(&mut self)
        ensures
            final(self)@ == old(self)@.leave(),
    {
        if self.inner.len() > 0 {
            let _ = self.inner.pop();
            assert(self@.frames =~= old(self)@.leave().frames);
        } else {
            assert(self@.frames =~= old(self)@.leave().frames);
        }
    }

    /// The value that `key` is bound to, seen from the current scope.
    pub fn get_str(&self, key: &str) -> (r: Result<Object, EnvError>)
        ensures
            match self@.lookup(key@) {
                Some(v) => r is Ok && r->Ok_0@ == v,
                None => r is Err && r->Err_0@ == EnvFault::SymbolNotFound(key@),
            },
    {
        let name = String::from_str(key);
        let ghost frames = self@.frames;
        let mut k: usize = self.inner.len();
        while k > 0
            invariant
                k <= self.inner.len(),
                frames == self@.frames,
                name@ == key@,
                lookup_from(frames, k as int, key@) == self@.lookup(key@),
            decreases k,
        {
            k -= 1;
            assert(frames[k + 1] == self.inner@[k as int]@);
            match self.inner[k].get(&name) {
                Some(o) => {
                    return Ok(o);
                },
                None => {},
            }
        }
        assert(frames[0] == self.root@);
        assert(lookup_from(frames, -1, key@) is None);
        match self.root.get(&name) {
            Some(o) => Ok(o),
            None => Err(EnvError::SymbolNotFound(name)),
        }
    }

    /// The value that the symbol `key` is bound to under its name in upper
    /// case.
    pub fn get(&self, key: &Object) -> (r: Result<Object, EnvError>)
        ensures
            match key@ {
                Value::Symbol(s) => match self@.lookup(folded(s)) {
                    Some(v) => r is Ok && r->Ok_0@ == v,
                    None => r is Err && r->Err_0@ == EnvFault::SymbolNotFound(folded(s)),
                },
                _ => r is Err && r->Err_0@ == EnvFault::NotASymbol(show(key@)),
            },
    {
        match key {
            Object::Symbol(s) => {
                let k = fold(s.as_str());
                self.get_str(k.as_str())
            },
            _ => Err(EnvError::NotASymbol(key.to_string())),
        }
    }

    /// Binds `key` to `value` in the current scope.
    pub fn insert_str(&mut self, key: &str, value: Object)
        ensures
            final(self)@ == old(self)@.insert(key@, value@),
    {
        let name = String::from_str(key);
        match self.inner.pop() {
            Some(top) => {
                let mut top = top;
                top.insert(name, value);
                self.inner.push(top);
                assert(self@.frames =~= old(self)@.insert(key@, value@).frames);
            },
            None => {
                self.root.insert(name, value);
                assert(self@.frames =~= old(self)@.insert(key@, value@).frames);
            },
        }
    }

    /// Binds the symbol `key`, under its name in upper case, to `value` in
    /// the current scope. A key that is no symbol is refused, and the
    /// environment stays as it is.
    pub fn insert(&mut self, key: &Object, value: Object) -> (r: Result<(), EnvError>)
        ensures
            match key@ {
                Value::Symbol(s) => r is Ok && final(self)@ == old(self)@.insert(
                    folded(s),
                    value@,
                ),
                _ => r is Err && r->Err_0@ == EnvFault::NotASymbol(show(key@)) && final(self)@
                    == old(self)@,
            },
    {
        match key {
            Object::Symbol(s) => {
                let k = fold(s.as_str());
                self.insert_str(k.as_str(), value);
                Ok(())
            },
            _ => Err(EnvError::NotASymbol(key.to_string())),
        }
    }

    /// Binds `key` to `value` in the root scope, and unbinds it in the
    /// current scope where that is another one. The scopes between the two
    /// keep what they bind.
    pub fn insert_global_str(&mut self, key: &str, value: Object)
        ensures
            final(self)@ == old(self)@.insert_global(key@, value@),
    {
        let name = String::from_str(key);
        match self.inner.pop() {
            Some(top) => {
                let mut top = top;
                top.remove(&name);
                self.inner.push(top);
                self.root.insert(name, value);
                assert(self@.frames =~= old(self)@.insert_global(key@, value@).frames);
            },
            None => {
                self.root.insert(name, value);
                assert(self@.frames =~= old(self)@.insert_global(key@, value@).frames);
            },
        }
    }

    /// Binds the symbol `key`, under its name in upper case, to `value` in
    /// the root scope, as `insert_global_str` does. A key that is no symbol
    /// is refused, and the environment stays as it is.
    pub fn insert_global(&mut self, key: &Object, value: Object) -> (r: Result<(), EnvError>)
        ensures
            match key@ {
                Value::Symbol(s) => r is Ok && final(self)@ == old(self)@.insert_global(
                    folded(s),
                    value@,
                ),
                _ => r is Err && r->Err_0@ == EnvFault::NotASymbol(show(key@)) && final(self)@
                    == old(self)@,
            },
    {
        match key {
            Object::Symbol(k) => {
                let name = fold(k.as_str());
                self.insert_global_str(name.as_str(), value);
                Ok(())
            },
            _ => Err(EnvError::NotASymbol(key.to_string())),
        }
    }

    /// The number of names bound in the current scope.
    pub fn len(&self) -> (r: usize)
        ensures
            self@.wf(),
            self@.frames.last().dom().finite(),
            r == self@.frames.last().dom().len(),
    {
        let n = self.inner.len();
        if n > 0 {
            assert(self@.frames.last() == self.inner@[n - 1]@);
            self.inner[n - 1].len()
        } else {
            assert(self@.frames.last() == self.root@);
            self.root.len()
        }
    }

    /// Tells the environment the result of an arithmetic function on two
    /// numbers, each given as its text. What it was told before stays in
    /// force.
    pub fn learn(&mut self, op: Primitive, x: &str, y: &str, result: &str)
        ensures
            final(self)@ == old(self)@.learn(
                Fact { op, x: x@, y: y@, result: result@ },
            ),
    {
        let fact = FloatFact {
            op,
            x: String::from_str(x),
            y: String::from_str(y),
            result: String::from_str(result),
        };
        self.facts.push(fact);
        assert(self@.facts =~= old(self)@.facts.push(fact@));
    }

    /// The result that the environment was told for the operation, if it
    /// was told one.
    pub fn known(&self, op: Primitive, x: &str, y: &str) -> (r: Option<String>)
        ensures
            match self@.known(op, x@, y@) {
                Some(t) => r is Some && r->Some_0@ == t,
                None => r is None,
            },
    {
        let a = String::from_str(x);
        let b = String::from_str(y);
        let ghost facts = self@.facts;
        let mut i: usize = 0;
        while i < self.facts.len()
            invariant
                i <= self.facts.len(),
                facts == self@.facts,
                facts.len() == self.facts.len(),
                a@ == x@,
                b@ == y@,
                known_from(facts, i as int, op, x@, y@) == self@.known(op, x@, y@),
            decreases self.facts.len() - i,
        {
            let fact = &self.facts[i];
            assert(facts[i as int] == fact@);
            if fact.op == op && fact.x == a && fact.y == b {
                return Some(fact.result.clone());
            }
            i += 1;
        }
        None
    }

    /// Appends `text` to what was printed.
    pub fn print(&mut self, text: &str)
        ensures
            final(self)@ == old(self)@.print(text@),
    {
        self.output.append(text);
    }

    /// What was printed since the last call, which is then forgotten.
    pub fn take_output(&mut self) -> (r: String)
        ensures
            r@ == old(self)@.output,
            final(self)@ == (State { output: Seq::empty(), ..old(self)@ }),
    {
        let mut out = String::new();
        core::mem::swap(&mut self.output, &mut out);
        out
    }
}

} // verus!
