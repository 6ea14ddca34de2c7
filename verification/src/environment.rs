use vstd::prelude::*;
use vstd::hash_map::StringHashMap;
use vstd::string::*;
use crate::token::Token;
use crate::value::{Value, ValueModel};

verus! {

/// The bindings of one scope: names to values.
pub type Frame = Map<Seq<char>, ValueModel>;

/// The value bound to `name` in the innermost frame that holds it.
/// `frames[0]` is the innermost scope.
pub open spec fn lookup(frames: Seq<Frame>, name: Seq<char>) -> Option<ValueModel>
    decreases frames.len(),
{
    if frames.len() == 0 {
        None
    } else if frames[0].contains_key(name) {
        Some(frames[0][name])
    } else {
        lookup(frames.drop_first(), name)
    }
}

/// The chain after binding `name` to `value` in the innermost frame.
pub open spec fn define(frames: Seq<Frame>, name: Seq<char>, value: ValueModel) -> Seq<Frame>
    recommends
        frames.len() > 0,
{
    frames.update(0, frames[0].insert(name, value))
}

/// The chain after rebinding `name` in the innermost frame that holds it;
/// `None` when no frame holds it.
pub open spec fn assign(frames: Seq<Frame>, name: Seq<char>, value: ValueModel) -> Option<
    Seq<Frame>,
>
    decreases frames.len(),
{
    if frames.len() == 0 {
        None
    } else if frames[0].contains_key(name) {
        Some(frames.update(0, frames[0].insert(name, value)))
    } else {
        match assign(frames.drop_first(), name, value) {
            Some(rest) => Some(seq![frames[0]] + rest),
            None => None,
        }
    }
}

/// The text of the failure reported for an unbound name.
pub open spec fn undefined_message(name: Seq<char>) -> Seq<char> {
    "[ERROR] "@ + name + " is not defined!"@
}

/// Rebinding a name changes no other name and adds no scope.
pub proof fn lemma_assign_keeps_depth(frames: Seq<Frame>, name: Seq<char>, value: ValueModel)
    requires
        assign(frames, name, value) is Some,
    ensures
        assign(frames, name, value)->0.len() == frames.len(),
        lookup(assign(frames, name, value)->0, name) == Some(value),
    decreases frames.len(),
{
    if frames.len() > 0 && !frames[0].contains_key(name) {
        lemma_assign_keeps_depth(frames.drop_first(), name, value);
        let rest = assign(frames.drop_first(), name, value)->0;
        assert((seq![frames[0]] + rest).drop_first() =~= rest);
    }
}

/// A name can be rebound exactly where it can be read.
pub proof fn lemma_assign_needs_binding(frames: Seq<Frame>, name: Seq<char>, value: ValueModel)
    ensures
        assign(frames, name, value) is Some <==> lookup(frames, name) is Some,
    decreases frames.len(),
{
    if frames.len() > 0 && !frames[0].contains_key(name) {
        lemma_assign_needs_binding(frames.drop_first(), name, value);
    }
}

/// A name reads as what it was last bound to in the innermost scope.
pub proof fn lemma_define_then_lookup(frames: Seq<Frame>, name: Seq<char>, value: ValueModel)
    requires
        frames.len() > 0,
    ensures
        define(frames, name, value).len() == frames.len(),
        lookup(define(frames, name, value), name) == Some(value),
{
}

/// Every chain has at least its own frame.
pub proof fn lemma_frames_nonempty(e: &Environment)
    ensures
        e@.len() >= 1,
        e@[0] == e.frame(),
    decreases e,
{
    match e.enclosing {
        Some(outer) => {
            lemma_frames_nonempty(&*outer);
        },
        None => {},
    }
}

/// A scope frame together with the frames that enclose it.
pub struct Environment {
    pub enclosing: Option<Box<Environment>>,
    pub values: StringHashMap<Value>,
}

impl Environment {
    /// The bindings of the innermost frame.
    pub open spec fn frame(&self) -> Frame {
        self.values@.map_values(|v: Value| v@)
    }

    /// All frames of the chain, innermost first.
    pub open spec fn frames(&self) -> Seq<Frame>
        decreases self,
    {
        match self.enclosing {
            Some(e) => seq![self.frame()] + (*e).frames(),
            None => seq![self.frame()],
        }
    }
}

impl View for Environment {
    type V = Seq<Frame>;

    open spec fn view(&self) -> Seq<Frame> {
        self.frames()
    }
}

impl Environment {
    /// A single empty scope.
    pub fn new() -> (r: Self)
        ensures
            r@ == seq![Map::<Seq<char>, ValueModel>::empty()],
            r.enclosing is None,
    {
        let r = Environment { enclosing: None, values: StringHashMap::new() };
        assert(r.frame() =~= Map::<Seq<char>, ValueModel>::empty());
        r
    }

    /// An empty scope inside the given ones.
    pub fn new_with_enclosing(enclosing: Option<Box<Environment>>) -> (r: Self)
        ensures
            r.enclosing == enclosing,
            r@ == match enclosing {
                Some(e) => seq![Map::<Seq<char>, ValueModel>::empty()] + e@,
                None => seq![Map::<Seq<char>, ValueModel>::empty()],
            },
    {
        let r = Environment { enclosing, values: StringHashMap::new() };
        assert(r.frame() =~= Map::<Seq<char>, ValueModel>::empty());
        r
    }

    /// Puts this scope inside the given ones, in place of those it was in.
    pub fn set_enclosing_environment(&mut self, environment: Option<Box<Environment>>)
        ensures
            final(self).enclosing == environment,
            final(self).values == old(self).values,
            final(self)@ == match environment {
                Some(e) => seq![old(self).frame()] + e@,
                None => seq![old(self).frame()],
            },
    {
        self.enclosing = environment;
    }

    /// The scopes around this one.
    pub fn get_enclosing(&self) -> (r: Option<&Environment>)
        ensures
            match r {
                Some(e) => self.enclosing == Some(Box::new(*e)),
                None => self.enclosing is None,
            },
    {
        match &self.enclosing {
            Some(e) => Some(&**e),
            None => None,
        }
    }

    /// Binds the name in this scope. A name that this scope binds already is
    /// bound anew.
    pub fn define(&mut self, name: String, value: Value)
        ensures
            final(self)@ == define(old(self)@, name@, value@),
            final(self).enclosing == old(self).enclosing,
    {
        self.values.insert(name, value);
        proof {
            assert(self.frame() =~= old(self).frame().insert(name@, value@));
            assert(self@ =~= define(old(self)@, name@, value@));
        }
    }

    /// The value of the name in the innermost scope that binds it; the
    /// failure text where no scope does.
    pub fn get(&self, name: Token) -> (r: Result<Value, String>)
        ensures
            match r {
                Ok(v) => lookup(self@, name@.lexeme) == Some(v@),
                Err(e) => lookup(self@, name@.lexeme) is None && e@ == undefined_message(
                    name@.lexeme,
                ),
            },
        decreases self,
    {
        let key = name.get_lexeme();
        match self.values.get(key.as_str()) {
            Some(v) => {
                return Ok(v.clone());
            },
            None => {},
        }
        match &self.enclosing {
            Some(e) => {
                let r = e.get(name);
                proof {
                    assert(self@.drop_first() =~= e@);
                }
                r
            },
            None => {
                proof {
                    assert(self@.drop_first() =~= Seq::<Frame>::empty());
                    reveal_with_fuel(lookup, 2);
                }
                Err(String::from_str("[ERROR] ").concat(key.as_str()).concat(" is not defined!"))
            },
        }
    }

    /// Rebinds the name in the innermost scope that binds it; fails, and
    /// changes nothing, where no scope does.
    pub fn assign(&mut self, name: String, data: Value) -> (r: Result<(), String>)
        ensures
            match r {
                Ok(_) => assign(old(self)@, name@, data@) == Some(final(self)@),
                Err(e) => assign(old(self)@, name@, data@) is None && final(self)@ == old(self)@
                    && e@ == undefined_message(name@),
            },
        decreases *old(self),
    {
        if self.values.contains_key(name.as_str()) {
            self.values.insert(name, data);
            proof {
                assert(self.frame() =~= old(self).frame().insert(name@, data@));
                assert(self@ =~= old(self)@.update(0, old(self)@[0].insert(name@, data@)));
            }
            return Ok(());
        }
        let ghost name_model = name@;
        let ghost data_model = data@;
        let r = match &mut self.enclosing {
            Some(e) => e.assign(name, data),
            None => Err(
                String::from_str("[ERROR] ").concat(name.as_str()).concat(" is not defined!"),
            ),
        };
        proof {
            assert(self.frame() == old(self).frame());
            match old(self).enclosing {
                Some(e) => {
                    assert(old(self)@.drop_first() =~= e@);
                    assert(self@.drop_first() =~= self.enclosing->0@);
                    assert(self@ =~= seq![old(self)@[0]] + self.enclosing->0@);
                },
                None => {
                    assert(old(self)@.drop_first() =~= Seq::<Frame>::empty());
                    reveal_with_fuel(assign, 2);
                },
            }
        }
        r
    }
}

} // verus!
