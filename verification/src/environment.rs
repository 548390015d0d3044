//! Lexical scopes: name-to-value frames chained outward, innermost first.

use vstd::prelude::*;

use crate::diag::spec_locus;
use crate::literal::SpecValue;
use crate::literal::Value;
use crate::token::Token;

verus! {

/// One scope frame: its bindings, and the enclosing frame when there is one.
/// The chain only ever points outward and is never cyclic. A binding written
/// later shadows an earlier one of the same name, so the entries are read
/// back to front.
#[derive(Debug)]
pub struct Environment {
    values: Vec<(String, Value)>,
    enclosing: Option<Box<Environment>>,
}

/// The mapping a run of bindings stands for: later entries win.
pub open spec fn map_of(entries: Seq<(String, Value)>) -> Map<Seq<char>, SpecValue>
    decreases entries.len(),
{
    if entries.len() == 0 {
        Map::empty()
    } else {
        map_of(entries.drop_last()).insert(entries.last().0@, entries.last().1@)
    }
}

impl Environment {
    /// The chain of frame mappings, innermost first.
    closed spec fn chain(self) -> Seq<Map<Seq<char>, SpecValue>>
        decreases self,
    {
        match self.enclosing {
            None => seq![map_of(self.values@)],
            Some(e) => seq![map_of(self.values@)] + e.chain(),
        }
    }
}

impl View for Environment {
    type V = Seq<Map<Seq<char>, SpecValue>>;

    closed spec fn view(&self) -> Seq<Map<Seq<char>, SpecValue>> {
        self.chain()
    }
}

/// How a chain splits into its innermost frame and the enclosing chain.
proof fn lemma_chain_shape(e: Environment)
    ensures
        e@.len() >= 1,
        e@[0] == map_of(e.values@),
        e.enclosing matches Some(b) ==> e@ =~= seq![map_of(e.values@)] + b@,
        e.enclosing is None ==> e@ =~= seq![map_of(e.values@)],
{
}

/// Where a name resolves in a chain of frames: the innermost frame that
/// binds it.
pub open spec fn spec_lookup(chain: Seq<Map<Seq<char>, SpecValue>>, name: Seq<char>) -> Option<
    SpecValue,
>
    decreases chain.len(),
{
    if chain.len() == 0 {
        None
    } else if chain[0].dom().contains(name) {
        Some(chain[0][name])
    } else {
        spec_lookup(chain.drop_first(), name)
    }
}

/// The chain after assigning to a name: the innermost frame that binds it is
/// updated; a name no frame binds leaves nothing to update.
pub open spec fn spec_assign(
    chain: Seq<Map<Seq<char>, SpecValue>>,
    name: Seq<char>,
    value: SpecValue,
) -> Option<Seq<Map<Seq<char>, SpecValue>>>
    decreases chain.len(),
{
    if chain.len() == 0 {
        None
    } else if chain[0].dom().contains(name) {
        Some(seq![chain[0].insert(name, value)] + chain.drop_first())
    } else {
        match spec_assign(chain.drop_first(), name, value) {
            Some(rest) => Some(seq![chain[0]] + rest),
            None => None,
        }
    }
}

/// The message reported for a name no frame binds.
pub open spec fn spec_undefined_message(lexeme: Seq<char>) -> Seq<char> {
    "Undefined variable '"@ + lexeme + "'."@
}

fn undefined_message(name: &Token) -> (r: String)
    ensures
        r@ == spec_undefined_message(name@.lexeme),
{
    let mut s = String::from_str("Undefined variable '");
    s.append(name.lexeme.as_str());
    s.append("'.");
    s
}

impl Environment {
    /// A fresh frame with no bindings, inside the given enclosing chain.
    pub fn new(enclosing: Option<Box<Environment>>) -> (r: Self)
        ensures
            enclosing matches Some(e) ==> r@ == seq![
                Map::<Seq<char>, SpecValue>::empty(),
            ] + e@,
            enclosing is None ==> r@ == seq![Map::<Seq<char>, SpecValue>::empty()],
    {
        let r = Environment { values: Vec::new(), enclosing };
        proof {
            assert(map_of(r.values@) =~= Map::<Seq<char>, SpecValue>::empty());
        }
        r
    }

    /// Insert or overwrite a binding in this frame alone, whatever outer
    /// frames say about the name.
    pub fn define(&mut self, name: &String, value: Value)
        ensures
            final(self)@ == old(self)@.update(0, old(self)@[0].insert(name@, value@)),
    {
        let ghost before = self.values@;
        self.values.push((name.clone(), value));
        proof {
            assert(self.values@.drop_last() =~= before);
            assert(final(self)@ =~= old(self)@.update(
                0,
                old(self)@[0].insert(name@, value@),
            ));
        }
    }

    /// Read a name: the innermost frame that binds it answers; a name no
    /// frame binds is an undefined-variable error tied to the lookup token.
    pub fn get(&self, name: &Token) -> (r: Result<Value, (Token, String)>)
        ensures
            match r {
                Ok(v) => spec_lookup(self@, name@.lexeme) == Some(v@),
                Err(e) => {
                    &&& spec_lookup(self@, name@.lexeme) is None
                    &&& e.0@ == name@
                    &&& e.1@ == spec_undefined_message(name@.lexeme)
                },
            },
        decreases self@.len(),
    {
        let ghost full = self.values@;
        proof {
            lemma_chain_shape(*self);
            assert(full.take(full.len() as int) =~= full);
        }
        let mut i: usize = self.values.len();
        while i > 0
            invariant
                i <= self.values.len(),
                full == self.values@,
                forall|j: int| i <= j < full.len() ==> (#[trigger] full[j].0)@ != name@.lexeme,
                map_of(full).dom().contains(name@.lexeme) == map_of(full.take(i as int)).dom()
                    .contains(name@.lexeme),
                map_of(full).dom().contains(name@.lexeme) ==> map_of(full)[name@.lexeme] == map_of(
                    full.take(i as int),
                )[name@.lexeme],
            decreases i,
        {
            proof {
                assert(full.take(i as int).drop_last() =~= full.take(i - 1));
                assert(full.take(i as int).last() == full[i - 1]);
            }
            if self.values[i - 1].0.eq(&name.lexeme) {
                let v = self.values[i - 1].1.clone();
                proof {
                    lemma_chain_shape(*self);
                }
                return Ok(v);
            }
            i = i - 1;
        }
        proof {
            assert(full.take(0) =~= Seq::<(String, Value)>::empty());
            assert(!map_of(full).dom().contains(name@.lexeme));
            lemma_chain_shape(*self);
        }
        match &self.enclosing {
            Some(e) => {
                proof {
                    assert(self@.drop_first() =~= e@);
                    assert(self@.drop_first() == e@);
                    assert(self@.len() >= 1);
                    assert(self@[0] == map_of(full));
                    assert(!self@[0].dom().contains(name@.lexeme));
                    assert(spec_lookup(self@, name@.lexeme) == spec_lookup(e@, name@.lexeme));
                }
                let r = e.get(name);
                proof {
                    if r is Ok {
                        assert(spec_lookup(e@, name@.lexeme) == Some(r->Ok_0@));
                        assert(spec_lookup(self@, name@.lexeme) == Some(r->Ok_0@));
                    } else {
                        assert(spec_lookup(self@, name@.lexeme) is None);
                    }
                }
                r
            },
            None => {
                proof {
                    assert(self@.drop_first() =~= Seq::<Map<Seq<char>, SpecValue>>::empty());
                    assert(spec_lookup(self@.drop_first(), name@.lexeme) is None);
                    assert(spec_lookup(self@, name@.lexeme) is None);
                }
                Err((name.clone(), undefined_message(name)))
            },
        }
    }

    /// Write to a name some frame already binds: the innermost such frame is
    /// updated, and a name no frame binds is an undefined-variable error.
    /// Assignment never creates a binding.
    pub fn assign(&mut self, name: &Token, value: &Value) -> (r: Result<(), (Token, String)>)
        ensures
            match r {
                Ok(()) => spec_assign(old(self)@, name@.lexeme, value@) == Some(final (self)@),
                Err(e) => {
                    &&& spec_assign(old(self)@, name@.lexeme, value@) is None
                    &&& final (self)@ == old(self)@
                    &&& e.0@ == name@
                    &&& e.1@ == spec_undefined_message(name@.lexeme)
                },
            },
        decreases old(self)@.len(),
    {
        let ghost full = self.values@;
        let ghost chain0 = self@;
        proof {
            lemma_chain_shape(*self);
            assert(full.take(full.len() as int) =~= full);
        }
        let mut i: usize = self.values.len();
        while i > 0
            invariant
                i <= self.values.len(),
                full == self.values@,
                chain0 == self@,
                *self == *old(self),
                forall|j: int| i <= j < full.len() ==> (#[trigger] full[j].0)@ != name@.lexeme,
                map_of(full).dom().contains(name@.lexeme) == map_of(full.take(i as int)).dom()
                    .contains(name@.lexeme),
            decreases i,
        {
            proof {
                assert(full.take(i as int).drop_last() =~= full.take(i - 1));
                assert(full.take(i as int).last() == full[i - 1]);
            }
            if self.values[i - 1].0.eq(&name.lexeme) {
                let key = self.values[i - 1].0.clone();
                self.values.set(i - 1, (key, value.clone()));
                proof {
                    lemma_map_of_update_last(full, i - 1, self.values@[i - 1]);
                    assert(self.values@ =~= full.update(i - 1, self.values@[i - 1]));
                    assert(map_of(self.values@) == map_of(full).insert(name@.lexeme, value@));
                    assert(chain0[0] == map_of(full));
                    lemma_chain_shape(*self);
                    if self.enclosing is Some {
                        assert(chain0.drop_first() =~= self.enclosing->Some_0@);
                    } else {
                        assert(chain0.drop_first() =~= Seq::<Map<Seq<char>, SpecValue>>::empty());
                    }
                    assert(final (self)@ =~= seq![
                        chain0[0].insert(name@.lexeme, value@),
                    ] + chain0.drop_first());
                }
                return Ok(());
            }
            i = i - 1;
        }
        proof {
            assert(full.take(0) =~= Seq::<(String, Value)>::empty());
            assert(!map_of(full).dom().contains(name@.lexeme));
        }
        let ghost e_before = chain0.drop_first();
        let r: Result<(), (Token, String)> = match &mut self.enclosing {
            Some(e) => {
                proof {
                    assert(chain0.drop_first() =~= e@);
                    assert(e@.len() < chain0.len());
                }
                e.assign(name, value)
            },
            None => {
                proof {
                    assert(chain0.drop_first() =~= Seq::<Map<Seq<char>, SpecValue>>::empty());
                }
                Err((name.clone(), undefined_message(name)))
            },
        };
        proof {
            lemma_chain_shape(*self);
            assert(chain0[0] == map_of(full));
            assert(!chain0[0].dom().contains(name@.lexeme));
            if r is Ok {
                assert(self.enclosing is Some);
                let e_after = self.enclosing->Some_0@;
                assert(spec_assign(e_before, name@.lexeme, value@) == Some(e_after));
                assert(spec_assign(chain0, name@.lexeme, value@) == Some(
                    seq![chain0[0]] + e_after,
                ));
                assert(self@ =~= seq![chain0[0]] + e_after);
            } else {
                assert(spec_assign(e_before, name@.lexeme, value@) is None);
                if self.enclosing is Some {
                    assert(self.enclosing->Some_0@ == e_before);
                    assert(self@ =~= chain0);
                } else {
                    assert(self@ =~= chain0);
                }
            }
        }
        r
    }
}

impl Default for Environment {
    /// A single fresh frame with no bindings and nothing enclosing it.
    fn default() -> (r: Self)
        ensures
            r@ == seq![Map::<Seq<char>, SpecValue>::empty()],
    {
        Environment::new(None)
    }
}

/// Updating the innermost entry that binds a key updates the mapping for
/// that key alone.
proof fn lemma_map_of_update_last(entries: Seq<(String, Value)>, i: int, pair: (String, Value))
    requires
        0 <= i < entries.len(),
        pair.0@ == entries[i].0@,
        forall|j: int| i < j < entries.len() ==> (#[trigger] entries[j].0)@ != entries[i].0@,
    ensures
        map_of(entries.update(i, pair)) == map_of(entries).insert(pair.0@, pair.1@),
    decreases entries.len(),
{
    let updated = entries.update(i, pair);
    if i == entries.len() - 1 {
        assert(updated.drop_last() =~= entries.drop_last());
        assert(map_of(updated) =~= map_of(entries).insert(pair.0@, pair.1@));
    } else {
        lemma_map_of_update_last(entries.drop_last(), i, pair);
        assert(updated.drop_last() =~= entries.drop_last().update(i, pair));
        assert(updated.last() == entries.last());
        assert(map_of(updated) =~= map_of(entries).insert(pair.0@, pair.1@));
    }
}

} // verus!
