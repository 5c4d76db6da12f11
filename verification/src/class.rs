//! Classes and their instances: methods are looked up along the superclass
//! chain, and an instance's own fields come before the methods of its class.
use vstd::prelude::*;

use crate::assoc::AssocMap;
use crate::token::Token;

verus! {

/// A class: its name, its superclass, and the methods it declares itself,
/// by name. `F` is what a method is to the evaluator.
#[derive(Debug)]
#[verifier::reject_recursive_types(F)]
pub struct LoxClass<F> {
    pub name: String,
    pub superclass: Option<Box<LoxClass<F>>>,
    pub methods: AssocMap<F>,
}

/// The method that a class answers to `name`: its own, else the one that its
/// superclass answers, up the chain.
pub open spec fn method_of<F>(c: LoxClass<F>, name: Seq<char>) -> Option<F>
    decreases c,
{
    if c.methods@.contains_key(name) {
        Some(c.methods@[name])
    } else {
        match c.superclass {
            Some(s) => method_of(*s, name),
            None => None,
        }
    }
}

/// What a name reads on an instance, by value.
pub enum Found<V, F> {
    Field(V),
    Method(F),
}

/// What `name` reads on an instance whose class is `klass` and whose fields
/// are `fields`: the field if there is one, else the class's method.
pub open spec fn found_in<V, F>(klass: LoxClass<F>, fields: Map<Seq<char>, V>, name: Seq<char>) -> Option<Found<V, F>> {
    if fields.contains_key(name) {
        Some(Found::Field(fields[name]))
    } else {
        match method_of(klass, name) {
            Some(m) => Some(Found::Method(m)),
            None => None,
        }
    }
}

impl<F> LoxClass<F> {
    /// A class with the given name, superclass and methods.
    pub fn new(name: String, superclass: Option<Box<Self>>, methods: AssocMap<F>) -> (r: Self)
        ensures
            r.name == name,
            r.superclass == superclass,
            r.methods@ == methods@,
    {
        LoxClass { name, superclass, methods }
    }

    /// The method that the class answers to `name`: its own, else one of a
    /// superclass, the nearest first.
    pub fn find_method(&self, name: &str) -> (r: Option<&F>)
        ensures
            match r {
                Some(m) => method_of(*self, name@) == Some(*m),
                None => method_of(*self, name@) is None,
            },
        decreases self,
    {
        match self.methods.get(name) {
            Some(m) => Some(m),
            None => match &self.superclass {
                Some(s) => s.find_method(name),
                None => None,
            },
        }
    }

    /// The text shown for the class (what its `Display` writes): its name.
    pub fn to_string(&self) -> (r: String)
        ensures
            r@ == self.name@,
    {
        self.name.clone()
    }
}

/// `b` is a copy of `a`: the same name and method names at each step of the
/// superclass chain, each method a clone of the other's.
pub open spec fn class_copy<F: Clone>(a: LoxClass<F>, b: LoxClass<F>) -> bool
    decreases a,
{
    &&& b.name == a.name
    &&& b.methods@.dom() == a.methods@.dom()
    &&& forall|k: Seq<char>| #[trigger] b.methods@.contains_key(k) ==> cloned::<F>(a.methods@[k], b.methods@[k])
    &&& match a.superclass {
        Some(x) => match b.superclass {
            Some(y) => class_copy(*x, *y),
            None => false,
        },
        None => b.superclass is None,
    }
}

impl<F: Clone> LoxClass<F> {
    /// A copy of the class and of its superclasses, each method copied by
    /// its `clone`.
    pub fn duplicate(&self) -> (r: Self)
        ensures
            class_copy(*self, r),
        decreases self,
    {
        let superclass = match &self.superclass {
            Some(s) => Some(Box::new(s.duplicate())),
            None => None,
        };
        LoxClass { name: self.name.clone(), superclass, methods: self.methods.duplicate() }
    }
}

/// A copy of a class answers every name with a clone of what the class
/// answers.
pub proof fn lemma_copy_answers_alike<F: Clone>(a: LoxClass<F>, b: LoxClass<F>, name: Seq<char>)
    requires
        class_copy(a, b),
    ensures
        match method_of(a, name) {
            Some(m) => match method_of(b, name) {
                Some(n) => cloned::<F>(m, n),
                None => false,
            },
            None => method_of(b, name) is None,
        },
    decreases a,
{
    if !a.methods@.contains_key(name) {
        assert(!b.methods@.contains_key(name));
        match a.superclass {
            Some(x) => {
                let y = b.superclass->0;
                lemma_copy_answers_alike(*x, *y, name);
            },
            None => {},
        }
    } else {
        assert(b.methods@.contains_key(name));
    }
}

/// A class's own method comes before any that its superclasses declare.
pub proof fn lemma_own_method_first<F>(c: LoxClass<F>, name: Seq<char>)
    requires
        c.methods@.contains_key(name),
    ensures
        method_of(c, name) == Some(c.methods@[name]),
{
}

/// A name that a class does not declare is looked up in its superclass, and
/// a class with no superclass answers nothing to it.
pub proof fn lemma_inherited_method<F>(c: LoxClass<F>, name: Seq<char>)
    requires
        !c.methods@.contains_key(name),
    ensures
        method_of(c, name) == match c.superclass {
            Some(s) => method_of(*s, name),
            None => None,
        },
{
}

/// What an instance reads of a name.
pub enum Property<'a, V, F> {
    Field(&'a V),
    Method(&'a F),
}

/// A property read by value.
pub open spec fn property_view<'a, V, F>(p: Option<Property<'a, V, F>>) -> Option<Found<V, F>> {
    match p {
        Some(Property::Field(v)) => Some(Found::Field(*v)),
        Some(Property::Method(m)) => Some(Found::Method(*m)),
        None => None,
    }
}

/// An instance of a class, with its fields by name.
#[derive(Debug)]
#[verifier::reject_recursive_types(F)]
pub struct LoxInstance<V, F> {
    pub klass: LoxClass<F>,
    pub fields: AssocMap<V>,
}

impl<V, F> LoxInstance<V, F> {
    /// A new instance of `klass`, with no fields.
    pub fn new(klass: LoxClass<F>) -> (r: Self)
        ensures
            r.klass == klass,
            r.fields@ == Map::<Seq<char>, V>::empty(),
    {
        LoxInstance { klass, fields: AssocMap::new() }
    }

    /// What `name` reads on the instance: its field of that name if there is
    /// one, else the method that its class answers to that name.
    pub fn get(&self, name: &Token) -> (r: Option<Property<'_, V, F>>)
        ensures
            property_view(r) == found_in(self.klass, self.fields@, name@.inner.lexeme),
    {
        match self.fields.get(name.lexeme()) {
            Some(v) => Some(Property::Field(v)),
            None => match self.klass.find_method(name.lexeme()) {
                Some(m) => Some(Property::Method(m)),
                None => None,
            },
        }
    }

    /// Sets the field `name` to `value`.
    pub fn set(&mut self, name: Token, value: V)
        ensures
            final(self).klass == old(self).klass,
            final(self).fields@ == old(self).fields@.insert(name@.inner.lexeme, value),
    {
        let key = name.lexeme().to_owned();
        self.fields.insert(key, value);
    }

    /// The text shown for the instance (what its `Display` writes):
    /// `NAME instance`.
    pub fn to_string(&self) -> (r: String)
        ensures
            r@ == self.klass.name@ + " instance"@,
    {
        let mut s = self.klass.name.clone();
        s.append(" instance");
        s
    }
}

/// A field that was just set reads back as the value it was set to, whatever
/// the class declares; the other names read as before.
pub proof fn lemma_get_after_set<V, F>(
    klass: LoxClass<F>,
    fields: Map<Seq<char>, V>,
    name: Seq<char>,
    value: V,
    other: Seq<char>,
)
    ensures
        found_in(klass, fields.insert(name, value), name) == Some(Found::<V, F>::Field(value)),
        other != name ==> found_in(klass, fields.insert(name, value), other) == found_in(klass, fields, other),
{
}

/// A field shadows a method of the same name.
pub proof fn lemma_field_shadows_method<V, F>(klass: LoxClass<F>, fields: Map<Seq<char>, V>, name: Seq<char>)
    requires
        fields.contains_key(name),
    ensures
        found_in(klass, fields, name) == Some(Found::<V, F>::Field(fields[name])),
{
}

} // verus!
