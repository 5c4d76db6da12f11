//! Environments: frames of variables, each inside the frame that encloses
//! it. All frames live in one arena and are named by their index; a frame is
//! only ever enclosed by one made before it.
use vstd::prelude::*;

use crate::assoc::AssocMap;
use crate::text::{decimal, push_decimal, push_str_chars, string_from_chars};
use crate::token::{inner_text, Token, TokenV};

verus! {

/// What went wrong in an environment.
#[derive(Debug)]
pub enum EnvError {
    UndefinedVar(Token),
    NoVar { distance: usize, name: String },
    Distance(usize),
}

/// An environment error as mathematical values.
pub enum EnvErrV {
    UndefinedVar(TokenV),
    NoVar(nat, Seq<char>),
    Distance(nat),
}

impl View for EnvError {
    type V = EnvErrV;

    open spec fn view(&self) -> EnvErrV {
        match self {
            EnvError::UndefinedVar(t) => EnvErrV::UndefinedVar(t@),
            EnvError::NoVar { distance, name } => EnvErrV::NoVar(*distance as nat, name@),
            EnvError::Distance(d) => EnvErrV::Distance(*d as nat),
        }
    }
}

/// The message of an environment error (what its `Display` writes).
pub open spec fn env_err_text(e: EnvErrV) -> Seq<char> {
    match e {
        EnvErrV::UndefinedVar(t) => "Not define: "@ + inner_text(t.inner),
        EnvErrV::NoVar(d, name) => "No var: `"@ + name + "`, distance: "@ + decimal(d),
        EnvErrV::Distance(d) => "Distance not enough depth: "@ + decimal(d),
    }
}

impl EnvError {
    /// The message of the error (what its `Display` writes).
    pub fn to_string(&self) -> (r: String)
        ensures
            r@ == env_err_text(self@),
    {
        let mut out: Vec<char> = Vec::new();
        match self {
            EnvError::UndefinedVar(t) => {
                push_str_chars(&mut out, "Not define: ");
                let text = t.to_string();
                push_str_chars(&mut out, text.as_str());
            },
            EnvError::NoVar { distance, name } => {
                push_str_chars(&mut out, "No var: `");
                push_str_chars(&mut out, name.as_str());
                push_str_chars(&mut out, "`, distance: ");
                push_decimal(&mut out, *distance);
            },
            EnvError::Distance(d) => {
                push_str_chars(&mut out, "Distance not enough depth: ");
                push_decimal(&mut out, *d);
            },
        }
        string_from_chars(out.as_slice())
    }
}

/// A frame as mathematical values: the frame around it, and its variables.
pub struct FrameV<V> {
    pub enclosing: Option<nat>,
    pub values: Map<Seq<char>, V>,
}

/// The value that `k` has as seen from frame `id`: in the frame itself, or
/// else as seen from the frame around it.
pub open spec fn lookup<V>(fs: Seq<FrameV<V>>, id: nat, k: Seq<char>) -> Option<V>
    decreases id,
{
    if id >= fs.len() {
        None
    } else if fs[id as int].values.contains_key(k) {
        Some(fs[id as int].values[k])
    } else {
        match fs[id as int].enclosing {
            Some(e) => if e < id {
                lookup(fs, e, k)
            } else {
                None
            },
            None => None,
        }
    }
}

/// The frame that holds `k` as seen from frame `id`, if any.
pub open spec fn holder<V>(fs: Seq<FrameV<V>>, id: nat, k: Seq<char>) -> Option<nat>
    decreases id,
{
    if id >= fs.len() {
        None
    } else if fs[id as int].values.contains_key(k) {
        Some(id)
    } else {
        match fs[id as int].enclosing {
            Some(e) => if e < id {
                holder(fs, e, k)
            } else {
                None
            },
            None => None,
        }
    }
}

/// The frame `distance` steps out from frame `id`, if there are that many.
pub open spec fn ancestor<V>(fs: Seq<FrameV<V>>, id: nat, distance: nat) -> Option<nat>
    decreases distance,
{
    if id >= fs.len() {
        None
    } else if distance == 0 {
        Some(id)
    } else {
        match fs[id as int].enclosing {
            Some(e) => ancestor(fs, e, (distance - 1) as nat),
            None => None,
        }
    }
}

/// The frames with `k` set to `v` in frame `id`.
pub open spec fn set_var<V>(fs: Seq<FrameV<V>>, id: nat, k: Seq<char>, v: V) -> Seq<FrameV<V>> {
    fs.update(id as int, FrameV { values: fs[id as int].values.insert(k, v), ..fs[id as int] })
}

/// Every frame is enclosed only by a frame made before it, and the global
/// frame is there.
pub open spec fn frames_wf<V>(fs: Seq<FrameV<V>>) -> bool {
    &&& fs.len() > 0
    &&& forall|i: int| 0 <= i < fs.len() ==> match #[trigger] fs[i].enclosing {
        Some(e) => e < i,
        None => true,
    }
}

struct Frame<V> {
    enclosing: Option<usize>,
    values: AssocMap<V>,
}

/// All frames of a program run: the global frame first.
pub struct Environment<V> {
    frames: Vec<Frame<V>>,
}

impl<V> View for Environment<V> {
    type V = Seq<FrameV<V>>;

    closed spec fn view(&self) -> Seq<FrameV<V>> {
        Seq::new(
            self.frames@.len(),
            |i: int|
                FrameV {
                    enclosing: match self.frames@[i].enclosing {
                        Some(e) => Some(e as nat),
                        None => None,
                    },
                    values: self.frames@[i].values@,
                },
        )
    }
}

impl<V> Environment<V> {
    /// The global frame alone.
    pub fn new() -> (r: Self)
        ensures
            frames_wf(r@),
            r@ == seq![FrameV::<V> { enclosing: None, values: Map::empty() }],
    {
        let mut frames: Vec<Frame<V>> = Vec::new();
        frames.push(Frame { enclosing: None, values: AssocMap::new() });
        let r = Environment { frames };
        assert(r@ =~= seq![FrameV::<V> { enclosing: None, values: Map::empty() }]);
        r
    }

    /// How many frames there are: the valid frame indices are those below.
    pub fn frame_count(&self) -> (n: usize)
        ensures
            n == self@.len(),
    {
        self.frames.len()
    }

    /// A new empty frame inside frame `enclosing`; returns its index.
    pub fn with_enclosing(&mut self, enclosing: usize) -> (id: usize)
        requires
            frames_wf(old(self)@),
            enclosing < old(self)@.len(),
        ensures
            frames_wf(final(self)@),
            id == old(self)@.len(),
            final(self)@ == old(self)@.push(
                FrameV { enclosing: Some(enclosing as nat), values: Map::empty() },
            ),
    {
        let id = self.frames.len();
        self.frames.push(Frame { enclosing: Some(enclosing), values: AssocMap::new() });
        assert(self@ =~= old(self)@.push(
            FrameV { enclosing: Some(enclosing as nat), values: Map::empty() },
        ));
        id
    }

    /// The value of `name` as seen from frame `env`.
    pub fn get(&self, env: usize, name: &Token) -> (r: Option<&V>)
        requires
            frames_wf(self@),
            env < self@.len(),
        ensures
            match r {
                Some(v) => lookup(self@, env as nat, name@.inner.lexeme) == Some(*v),
                None => lookup(self@, env as nat, name@.inner.lexeme) is None,
            },
    {
        let ghost k = name@.inner.lexeme;
        let mut cur = env;
        loop
            invariant
                frames_wf(self@),
                k == name@.inner.lexeme,
                cur < self@.len(),
                lookup(self@, cur as nat, k) == lookup(self@, env as nat, k),
            decreases cur,
        {
            match self.frames[cur].values.get(name.lexeme()) {
                Some(v) => {
                    assert(self@[cur as int].values == self.frames@[cur as int].values@);
                    return Some(v);
                },
                None => {},
            }
            assert(self@[cur as int].enclosing matches Some(e) ==> e < cur);
            match self.frames[cur].enclosing {
                Some(e) => {
                    cur = e;
                },
                None => return None,
            }
        }
    }

    /// Gives `name` the value `value` in frame `env` itself.
    pub fn define(&mut self, env: usize, name: String, value: V)
        requires
            frames_wf(old(self)@),
            env < old(self)@.len(),
        ensures
            frames_wf(final(self)@),
            final(self)@ == set_var(old(self)@, env as nat, name@, value),
    {
        let mut tmp = Frame { enclosing: None, values: AssocMap::new() };
        self.frames.set_and_swap(env, &mut tmp);
        tmp.values.insert(name, value);
        self.frames.set_and_swap(env, &mut tmp);
        assert(self@ =~= set_var(old(self)@, env as nat, name@, value));
    }

    /// The frame that holds `name` as seen from frame `env`.
    fn holder(&self, env: usize, name: &str) -> (r: Option<usize>)
        requires
            frames_wf(self@),
            env < self@.len(),
        ensures
            match r {
                Some(t) => holder(self@, env as nat, name@) == Some(t as nat),
                None => holder(self@, env as nat, name@) is None,
            },
    {
        let mut cur = env;
        loop
            invariant
                frames_wf(self@),
                cur < self@.len(),
                holder(self@, cur as nat, name@) == holder(self@, env as nat, name@),
            decreases cur,
        {
            if self.frames[cur].values.contains_key(name) {
                return Some(cur);
            }
            assert(self@[cur as int].enclosing matches Some(e) ==> e < cur);
            match self.frames[cur].enclosing {
                Some(e) => {
                    cur = e;
                },
                None => return None,
            }
        }
    }

    /// Gives `name` the value `value` in the frame that holds it as seen
    /// from frame `env`; an error if no frame holds it.
    pub fn assign(&mut self, env: usize, name: &Token, value: V) -> (r: Result<(), EnvError>)
        requires
            frames_wf(old(self)@),
            env < old(self)@.len(),
        ensures
            frames_wf(final(self)@),
            match holder(old(self)@, env as nat, name@.inner.lexeme) {
                Some(t) => r is Ok && final(self)@ == set_var(
                    old(self)@,
                    t,
                    name@.inner.lexeme,
                    value,
                ),
                None => r matches Err(e) && e@ == EnvErrV::UndefinedVar(name@) && final(self)@
                    == old(self)@,
            },
    {
        match self.holder(env, name.lexeme()) {
            Some(t) => {
                proof {
                    lemma_holder_bound(self@, env as nat, name@.inner.lexeme);
                }
                self.define(t, name.inner().lexeme_owned(), value);
                Ok(())
            },
            None => Err(EnvError::UndefinedVar(name.duplicate())),
        }
    }

    /// The frame `distance` steps out from frame `env`.
    pub fn ancestor(&self, env: usize, distance: usize) -> (r: Result<usize, EnvError>)
        requires
            frames_wf(self@),
            env < self@.len(),
        ensures
            match ancestor(self@, env as nat, distance as nat) {
                Some(a) => r matches Ok(x) && x == a && x < self@.len(),
                None => r matches Err(e) && e@ == EnvErrV::Distance(distance as nat),
            },
    {
        let mut cur = env;
        let mut i: usize = 0;
        while i < distance
            invariant
                frames_wf(self@),
                cur < self@.len(),
                i <= distance,
                ancestor(self@, cur as nat, (distance - i) as nat) == ancestor(
                    self@,
                    env as nat,
                    distance as nat,
                ),
            decreases distance - i,
        {
            assert(self@[cur as int].enclosing matches Some(e) ==> e < cur);
            match self.frames[cur].enclosing {
                Some(e) => {
                    cur = e;
                },
                None => return Err(EnvError::Distance(distance)),
            }
            i = i + 1;
        }
        Ok(cur)
    }

    /// The value of `name` in the frame `distance` steps out from frame
    /// `env` itself.
    pub fn get_at(&self, env: usize, distance: usize, name: &str) -> (r: Result<&V, EnvError>)
        requires
            frames_wf(self@),
            env < self@.len(),
        ensures
            match ancestor(self@, env as nat, distance as nat) {
                Some(a) => if self@[a as int].values.contains_key(name@) {
                    r matches Ok(v) && *v == self@[a as int].values[name@]
                } else {
                    r matches Err(e) && e@ == EnvErrV::NoVar(distance as nat, name@)
                },
                None => r matches Err(e) && e@ == EnvErrV::Distance(distance as nat),
            },
    {
        let a = match self.ancestor(env, distance) {
            Ok(a) => a,
            Err(e) => return Err(e),
        };
        match self.frames[a].values.get(name) {
            Some(v) => Ok(v),
            None => Err(EnvError::NoVar { distance, name: name_string(name) }),
        }
    }

    /// Gives `name` the value `value` in the frame `distance` steps out from
    /// frame `env`.
    pub fn assign_at(&mut self, env: usize, distance: usize, name: &Token, value: V) -> (r: Result<(), EnvError>)
        requires
            frames_wf(old(self)@),
            env < old(self)@.len(),
        ensures
            frames_wf(final(self)@),
            match ancestor(old(self)@, env as nat, distance as nat) {
                Some(a) => r is Ok && final(self)@ == set_var(
                    old(self)@,
                    a,
                    name@.inner.lexeme,
                    value,
                ),
                None => r matches Err(e) && e@ == EnvErrV::Distance(distance as nat)
                    && final(self)@ == old(self)@,
            },
    {
        let a = match self.ancestor(env, distance) {
            Ok(a) => a,
            Err(e) => return Err(e),
        };
        self.define(a, name.inner().lexeme_owned(), value);
        Ok(())
    }
}

/// A copy of a string slice.
fn name_string(s: &str) -> (r: String)
    ensures
        r@ == s@,
{
    let mut out: Vec<char> = Vec::new();
    push_str_chars(&mut out, s);
    string_from_chars(out.as_slice())
}

/// The frame that holds a name is a frame.
pub proof fn lemma_holder_bound<V>(fs: Seq<FrameV<V>>, id: nat, k: Seq<char>)
    ensures
        holder(fs, id, k) matches Some(t) ==> t < fs.len() && fs[t as int].values.contains_key(k),
    decreases id,
{
    if id < fs.len() && !fs[id as int].values.contains_key(k) {
        match fs[id as int].enclosing {
            Some(e) => if e < id {
                lemma_holder_bound(fs, e, k);
            },
            None => {},
        }
    }
}

/// A variable defined in a frame is read back from that frame.
pub proof fn lemma_get_after_define<V>(fs: Seq<FrameV<V>>, env: nat, k: Seq<char>, v: V)
    requires
        frames_wf(fs),
        env < fs.len(),
    ensures
        lookup(set_var(fs, env, k, v), env, k) == Some(v),
{
}

/// Setting one name changes what no frame sees of any other name.
pub proof fn lemma_set_var_keeps_others<V>(
    fs: Seq<FrameV<V>>,
    env: nat,
    k: Seq<char>,
    v: V,
    id: nat,
    k2: Seq<char>,
)
    requires
        frames_wf(fs),
        env < fs.len(),
        k2 != k,
    ensures
        lookup(set_var(fs, env, k, v), id, k2) == lookup(fs, id, k2),
    decreases id,
{
    let gs = set_var(fs, env, k, v);
    if id < fs.len() {
        assert(gs[id as int].values.contains_key(k2) == fs[id as int].values.contains_key(k2));
        if !fs[id as int].values.contains_key(k2) {
            match fs[id as int].enclosing {
                Some(e) => if e < id {
                    lemma_set_var_keeps_others(fs, env, k, v, e, k2);
                },
                None => {},
            }
        }
    }
}

/// A variable assigned is read back, from the frame it was assigned from,
/// as the value assigned.
pub proof fn lemma_get_after_assign<V>(fs: Seq<FrameV<V>>, id: nat, k: Seq<char>, v: V)
    requires
        frames_wf(fs),
        holder(fs, id, k) is Some,
    ensures
        lookup(set_var(fs, holder(fs, id, k).unwrap(), k, v), id, k) == Some(v),
    decreases id,
{
    let t = holder(fs, id, k).unwrap();
    lemma_holder_bound(fs, id, k);
    if !fs[id as int].values.contains_key(k) {
        let e = fs[id as int].enclosing.unwrap();
        lemma_get_after_assign(fs, e, k, v);
    }
}

/// What a frame sees of a name is the value in the frame that holds it.
pub proof fn lemma_lookup_holder<V>(fs: Seq<FrameV<V>>, id: nat, k: Seq<char>)
    ensures
        lookup(fs, id, k) == match holder(fs, id, k) {
            Some(t) => Some(fs[t as int].values[k]),
            None => None,
        },
    decreases id,
{
    if id < fs.len() && !fs[id as int].values.contains_key(k) {
        match fs[id as int].enclosing {
            Some(e) => if e < id {
                lemma_lookup_holder(fs, e, k);
            },
            None => {},
        }
    }
}

/// Adding a frame changes nothing that the older frames see.
proof fn lemma_lookup_push<V>(fs: Seq<FrameV<V>>, x: FrameV<V>, id: nat, k: Seq<char>)
    requires
        id < fs.len(),
    ensures
        lookup(fs.push(x), id, k) == lookup(fs, id, k),
    decreases id,
{
    assert(fs.push(x)[id as int] == fs[id as int]);
    if !fs[id as int].values.contains_key(k) {
        match fs[id as int].enclosing {
            Some(e) => if e < id {
                lemma_lookup_push(fs, x, e, k);
            },
            None => {},
        }
    }
}

/// A new frame sees what its enclosing frame sees, until a name is defined
/// in it.
pub proof fn lemma_new_frame_sees_enclosing<V>(fs: Seq<FrameV<V>>, e: nat, k: Seq<char>)
    requires
        frames_wf(fs),
        e < fs.len(),
    ensures
        lookup(fs.push(FrameV { enclosing: Some(e), values: Map::empty() }), fs.len(), k)
            == lookup(fs, e, k),
{
    lemma_lookup_push(fs, FrameV { enclosing: Some(e), values: Map::empty() }, e, k);
}

/// Reading at distance zero reads the frame itself.
pub proof fn lemma_ancestor_zero<V>(fs: Seq<FrameV<V>>, id: nat)
    requires
        id < fs.len(),
    ensures
        ancestor(fs, id, 0) == Some(id),
{
}

} // verus!
