//! The variables that expansion reads: a table handed to the library, so
//! that expanding a line never depends on anything but its arguments.

use crate::syntax::Span;
use crate::text::chars_of;
use vstd::prelude::*;

verus! {

/// One variable with its value.
#[derive(Clone, PartialEq, Eq, Debug)]
pub struct Binding {
    pub name: Vec<char>,
    pub value: Vec<char>,
}

/// The value that `bs` gives to `name`: that of the last binding of that
/// name, and the empty text where there is none.
pub open spec fn value_in(bs: Seq<Binding>, name: Seq<char>) -> Seq<char>
    decreases bs.len(),
{
    if bs.len() == 0 {
        Seq::empty()
    } else if bs.last().name@ == name {
        bs.last().value@
    } else {
        value_in(bs.drop_last(), name)
    }
}

/// A table of variables. A later binding of a name replaces an earlier one.
#[derive(Clone, PartialEq, Eq, Debug)]
pub struct Environment {
    pub bindings: Vec<Binding>,
}

impl Environment {
    /// The value of `name`; empty where `name` is not bound.
    pub open spec fn value(&self, name: Seq<char>) -> Seq<char> {
        value_in(self.bindings@, name)
    }

    /// Some binding carries `name`.
    pub open spec fn binds(&self, name: Seq<char>) -> bool {
        exists|k: int| 0 <= k < self.bindings@.len() && (#[trigger] self.bindings@[k]).name@ == name
    }

    /// An environment that binds nothing.
    pub fn new() -> (env: Environment)
        ensures
            env.bindings@.len() == 0,
            forall|name: Seq<char>| #[trigger] env.value(name) == Seq::<char>::empty(),
    {
        Environment { bindings: Vec::new() }
    }

    /// Binds `name` to `value`; every other name keeps its value.
    pub fn bind(&mut self, name: &str, value: &str)
        ensures
            final(self).value(name@) == value@,
            final(self).binds(name@),
            forall|other: Seq<char>|
                other != name@ ==> #[trigger] final(self).value(other) == old(self).value(other),
    {
        let binding = Binding { name: chars_of(name), value: chars_of(value) };
        let ghost before = self.bindings@;
        self.bindings.push(binding);
        proof {
            assert(self.bindings@.drop_last() =~= before);
            assert(self.bindings@[before.len() as int].name@ == name@);
        }
    }

    /// Looks up the variable whose name is the text of `name` in `src`.
    pub fn lookup<'a>(&'a self, src: &Vec<char>, name: Span) -> (r: Option<&'a Vec<char>>)
        requires
            name.within(src@.len()),
        ensures
            match r {
                Some(v) => v@ == self.value(name.text(src@)) && self.binds(name.text(src@)),
                None => !self.binds(name.text(src@)) && self.value(name.text(src@)) == Seq::<
                    char,
                >::empty(),
            },
    {
        let ghost wanted = name.text(src@);
        let mut i: usize = self.bindings.len();
        assert(self.bindings@.take(i as int) =~= self.bindings@);
        while i > 0
            invariant
                i <= self.bindings@.len(),
                wanted == name.text(src@),
                name.within(src@.len()),
                self.value(wanted) == value_in(self.bindings@.take(i as int), wanted),
                forall|k: int|
                    i <= k < self.bindings@.len() ==> (#[trigger] self.bindings@[k]).name@
                        != wanted,
            decreases i,
        {
            i -= 1;
            proof {
                assert(self.bindings@.take(i + 1).drop_last() =~= self.bindings@.take(i as int));
                assert(self.bindings@.take(i + 1).last() == self.bindings@[i as int]);
            }
            if same_text(src, name, &self.bindings[i].name) {
                return Some(&self.bindings[i].value);
            }
        }
        None
    }
}

/// Whether the text of `span` in `src` is `other`.
pub fn same_text(src: &Vec<char>, span: Span, other: &Vec<char>) -> (b: bool)
    requires
        span.within(src@.len()),
    ensures
        b == (span.text(src@) == other@),
{
    if span.end - span.start != other.len() {
        return false;
    }
    let mut k: usize = 0;
    while k < other.len()
        invariant
            span.within(src@.len()),
            span.end - span.start == other@.len(),
            k <= other@.len(),
            forall|j: int| 0 <= j < k ==> src@[span.start + j] == other@[j],
        decreases other@.len() - k,
    {
        if src[span.start + k] != other[k] {
            assert(span.text(src@)[k as int] != other@[k as int]);
            return false;
        }
        k += 1;
    }
    assert(span.text(src@) =~= other@);
    true
}

/// A name that no binding carries has the empty value.
pub proof fn unbound_is_empty(env: Environment, name: Seq<char>)
    requires
        !env.binds(name),
    ensures
        env.value(name) == Seq::<char>::empty(),
{
    unbound_in(env.bindings@, name);
}

proof fn unbound_in(bs: Seq<Binding>, name: Seq<char>)
    requires
        forall|k: int| 0 <= k < bs.len() ==> (#[trigger] bs[k]).name@ != name,
    ensures
        value_in(bs, name) == Seq::<char>::empty(),
    decreases bs.len(),
{
    if bs.len() > 0 {
        assert(bs.last() == bs[bs.len() - 1]);
        assert forall|k: int| 0 <= k < bs.drop_last().len() implies (#[trigger] bs.drop_last()[k]).name@
            != name by {
            assert(bs.drop_last()[k] == bs[k]);
        }
        unbound_in(bs.drop_last(), name);
    }
}

} // verus!
