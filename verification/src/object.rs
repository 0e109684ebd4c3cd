//! Runtime values of the language and the environment they live in.
//!
//! Values are a closed family: integers, booleans, strings, null, errors,
//! return-wrappers and functions. `ReturnValue` and `Error` are ordinary
//! values that the evaluator treats as control-flow sentinels.
//!
//! The environment is an arena of frames. A frame maps names to values and
//! optionally points to a parent frame; frames are addressed by index into
//! the arena, which lets a function value capture its defining scope (a
//! closure) without reference cycles. Name lookup walks the parent chain;
//! binding creation targets one frame.

use vstd::prelude::*;

use crate::ast::{
    block_v_str, BlockStatement, BlockV, Identifier, IdentifierV,
};
use crate::strutil::{append_str, push_char, spec_dec_i64, i64_to_string, str_eq};

verus! {

/// The kind tag a runtime value exposes.
#[allow(non_camel_case_types)]
#[derive(Debug, PartialEq, Eq, Structural, Clone, Copy)]
pub enum ObjectType {
    INTEGER,
    BOOLEAN,
    NULL,
    ERROR,
    RETURN_VALUE,
    FUNCTION,
    IDENTIFIER,
    STRING,
}

/// The printed name of a value kind, as it appears in runtime error
/// messages.
pub open spec fn spec_object_type_name(t: ObjectType) -> Seq<char> {
    match t {
        ObjectType::INTEGER => "INTEGER"@,
        ObjectType::BOOLEAN => "BOOLEAN"@,
        ObjectType::NULL => "NULL"@,
        ObjectType::ERROR => "ERROR"@,
        ObjectType::RETURN_VALUE => "RETURN_VALUE"@,
        ObjectType::FUNCTION => "FUNCTION"@,
        ObjectType::IDENTIFIER => "IDENTIFIER"@,
        ObjectType::STRING => "STRING"@,
    }
}

pub fn object_type_name(t: ObjectType) -> (s: &'static str)
    ensures
        s@ == spec_object_type_name(t),
{
    match t {
        ObjectType::INTEGER => "INTEGER",
        ObjectType::BOOLEAN => "BOOLEAN",
        ObjectType::NULL => "NULL",
        ObjectType::ERROR => "ERROR",
        ObjectType::RETURN_VALUE => "RETURN_VALUE",
        ObjectType::FUNCTION => "FUNCTION",
        ObjectType::IDENTIFIER => "IDENTIFIER",
        ObjectType::STRING => "STRING",
    }
}

// ----------------------------------------------------------------------
// Executable value types
// ----------------------------------------------------------------------

#[derive(Debug)]
pub struct StringObj {
    pub value: String,
}

#[derive(Debug)]
pub struct Integer {
    pub value: i64,
}

#[derive(Debug)]
pub struct Boolean {
    pub value: bool,
}

#[derive(Debug)]
pub struct Null {}

#[derive(Debug)]
pub struct Error {
    pub message: String,
}

#[derive(Debug)]
pub struct ReturnValue {
    pub value: Box<Object>,
}

/// A function value: parameters, body, and the arena index of the
/// environment captured when the literal was evaluated.
#[derive(Debug)]
pub struct Function {
    pub parameters: Vec<Identifier>,
    pub body: BlockStatement,
    pub env: usize,
}

/// The closed family of runtime values.
#[derive(Debug)]
pub enum Object {
    StringObj(StringObj),
    Integer(Integer),
    Boolean(Boolean),
    Null(Null),
    Error(Error),
    ReturnValue(ReturnValue),
    Function(Function),
}

// ----------------------------------------------------------------------
// Ghost views
// ----------------------------------------------------------------------

/// The mathematical model of a runtime value.
pub enum ObjV {
    StrV(Seq<char>),
    IntV(i64),
    BoolV(bool),
    NullV,
    ErrV(Seq<char>),
    RetV(Box<ObjV>),
    FuncV { parameters: Seq<IdentifierV>, body: BlockV, env: int },
}

pub open spec fn obj_view(o: Object) -> ObjV
    decreases o,
{
    match o {
        Object::StringObj(s) => ObjV::StrV(s.value@),
        Object::Integer(n) => ObjV::IntV(n.value),
        Object::Boolean(b) => ObjV::BoolV(b.value),
        Object::Null(_) => ObjV::NullV,
        Object::Error(e) => ObjV::ErrV(e.message@),
        Object::ReturnValue(r) => ObjV::RetV(Box::new(obj_view(*r.value))),
        Object::Function(f) => ObjV::FuncV {
            parameters: f.parameters@.map_values(|p: Identifier| p@),
            body: f.body@,
            env: f.env as int,
        },
    }
}

impl View for Object {
    type V = ObjV;

    open spec fn view(&self) -> ObjV {
        obj_view(*self)
    }
}

/// The kind tag of a value in the model.
pub open spec fn obj_type_of(o: ObjV) -> ObjectType {
    match o {
        ObjV::StrV(_) => ObjectType::STRING,
        ObjV::IntV(_) => ObjectType::INTEGER,
        ObjV::BoolV(_) => ObjectType::BOOLEAN,
        ObjV::NullV => ObjectType::NULL,
        ObjV::ErrV(_) => ObjectType::ERROR,
        ObjV::RetV(_) => ObjectType::RETURN_VALUE,
        ObjV::FuncV { .. } => ObjectType::FUNCTION,
    }
}

/// The trailing-comma parameter rendering a function value's `inspect`
/// uses.
pub open spec fn params_inspect(ps: Seq<IdentifierV>, i: int) -> Seq<char>
    decreases ps.len() - i,
{
    if i < 0 || i >= ps.len() {
        Seq::empty()
    } else {
        ps[i].value + ", "@ + params_inspect(ps, i + 1)
    }
}

/// The `inspect` rendering of a value: integers in decimal, booleans and
/// null by name, strings and errors as their contents, return-wrappers
/// transparently, functions with their parameters and printed body.
pub open spec fn obj_inspect(o: ObjV) -> Seq<char>
    decreases o,
{
    match o {
        ObjV::StrV(s) => s,
        ObjV::IntV(v) => spec_dec_i64(v as int),
        ObjV::BoolV(b) => if b {
            "true"@
        } else {
            "false"@
        },
        ObjV::NullV => "null"@,
        ObjV::ErrV(m) => m,
        ObjV::RetV(inner) => obj_inspect(*inner),
        ObjV::FuncV { parameters, body, .. } => "fn("@ + params_inspect(parameters, 0) + ") {\n"@
            + block_v_str(body) + "\n}"@,
    }
}

impl StringObj {
    pub fn object_type(&self) -> (t: ObjectType)
        ensures
            t == ObjectType::STRING,
    {
        ObjectType::STRING
    }

    pub fn inspect(&self) -> (r: String)
        ensures
            r@ == obj_inspect(ObjV::StrV(self.value@)),
    {
        self.value.clone()
    }
}

impl Integer {
    pub fn object_type(&self) -> (t: ObjectType)
        ensures
            t == ObjectType::INTEGER,
    {
        ObjectType::INTEGER
    }

    pub fn inspect(&self) -> (r: String)
        ensures
            r@ == obj_inspect(ObjV::IntV(self.value)),
    {
        i64_to_string(self.value)
    }
}

impl Boolean {
    pub fn object_type(&self) -> (t: ObjectType)
        ensures
            t == ObjectType::BOOLEAN,
    {
        ObjectType::BOOLEAN
    }

    pub fn inspect(&self) -> (r: String)
        ensures
            r@ == obj_inspect(ObjV::BoolV(self.value)),
    {
        let mut out = String::new();
        if self.value {
            append_str(&mut out, "true");
        } else {
            append_str(&mut out, "false");
        }
        out
    }
}

impl Null {
    pub fn object_type(&self) -> (t: ObjectType)
        ensures
            t == ObjectType::NULL,
    {
        ObjectType::NULL
    }

    pub fn inspect(&self) -> (r: String)
        ensures
            r@ == obj_inspect(ObjV::NullV),
    {
        let mut out = String::new();
        append_str(&mut out, "null");
        out
    }
}

impl Error {
    pub fn object_type(&self) -> (t: ObjectType)
        ensures
            t == ObjectType::ERROR,
    {
        ObjectType::ERROR
    }

    pub fn inspect(&self) -> (r: String)
        ensures
            r@ == obj_inspect(ObjV::ErrV(self.message@)),
    {
        self.message.clone()
    }
}

impl ReturnValue {
    pub fn object_type(&self) -> (t: ObjectType)
        ensures
            t == ObjectType::RETURN_VALUE,
    {
        ObjectType::RETURN_VALUE
    }

    pub fn inspect(&self) -> (r: String)
        ensures
            r@ == obj_inspect(obj_view(Object::ReturnValue(*self))),
        decreases *self,
    {
        self.value.inspect()
    }
}

impl Function {
    pub fn object_type(&self) -> (t: ObjectType)
        ensures
            t == ObjectType::FUNCTION,
    {
        ObjectType::FUNCTION
    }

    pub fn inspect(&self) -> (r: String)
        ensures
            r@ == obj_inspect(obj_view(Object::Function(*self))),
    {
        let ghost psv = self.parameters@.map_values(|p: Identifier| p@);
        let mut out = String::new();
        append_str(&mut out, "fn(");
        let ghost base = out@;
        let n = self.parameters.len();
        let mut i: usize = 0;
        while i < n
            invariant
                n == self.parameters.len(),
                i <= n,
                psv == self.parameters@.map_values(|p: Identifier| p@),
                out@ + params_inspect(psv, i as int) == base + params_inspect(psv, 0),
            decreases n - i,
        {
            append_str(&mut out, self.parameters[i].value.as_str());
            append_str(&mut out, ", ");
            proof {
                assert(params_inspect(psv, i as int) == psv[i as int].value + ", "@
                    + params_inspect(psv, i + 1));
                assert(out@ + params_inspect(psv, i + 1) =~= base + params_inspect(psv, 0));
            }
            i = i + 1;
        }
        append_str(&mut out, ") {\n");
        let bs = self.body.to_string();
        append_str(&mut out, bs.as_str());
        append_str(&mut out, "\n}");
        assert(out@ =~= obj_inspect(obj_view(Object::Function(*self))));
        out
    }
}

impl Object {
    pub fn object_type(&self) -> (t: ObjectType)
        ensures
            t == obj_type_of(self@),
    {
        match self {
            Object::StringObj(s) => s.object_type(),
            Object::Integer(n) => n.object_type(),
            Object::Boolean(b) => b.object_type(),
            Object::Null(nl) => nl.object_type(),
            Object::Error(e) => e.object_type(),
            Object::ReturnValue(r) => r.object_type(),
            Object::Function(f) => f.object_type(),
        }
    }

    pub fn inspect(&self) -> (r: String)
        ensures
            r@ == obj_inspect(self@),
        decreases *self,
    {
        match self {
            Object::StringObj(s) => s.inspect(),
            Object::Integer(n) => n.inspect(),
            Object::Boolean(b) => b.inspect(),
            Object::Null(nl) => nl.inspect(),
            Object::Error(e) => e.inspect(),
            Object::ReturnValue(r) => r.inspect(),
            Object::Function(f) => f.inspect(),
        }
    }

    /// A deep copy equal to this value in the model.
    pub fn duplicate(&self) -> (r: Object)
        ensures
            r@ == self@,
        decreases *self,
    {
        match self {
            Object::StringObj(s) => Object::StringObj(StringObj { value: s.value.clone() }),
            Object::Integer(n) => Object::Integer(Integer { value: n.value }),
            Object::Boolean(b) => Object::Boolean(Boolean { value: b.value }),
            Object::Null(_) => Object::Null(Null {}),
            Object::Error(e) => Object::Error(Error { message: e.message.clone() }),
            Object::ReturnValue(r) => Object::ReturnValue(
                ReturnValue { value: Box::new(r.value.duplicate()) },
            ),
            Object::Function(f) => {
                let parameters = crate::ast::duplicate_identifiers(&f.parameters);
                let r = Object::Function(
                    Function { parameters, body: f.body.duplicate(), env: f.env },
                );
                assert(r@ == self@);
                r
            },
        }
    }
}

// ----------------------------------------------------------------------
// The environment arena
// ----------------------------------------------------------------------

#[derive(Debug)]
pub struct Binding {
    pub name: String,
    pub value: Object,
}

/// One scope frame: its bindings and the arena index of its parent.
#[derive(Debug)]
pub struct Frame {
    pub bindings: Vec<Binding>,
    pub parent: Option<usize>,
}

/// The arena of scope frames. Frame 0 is the root scope of a program run;
/// frames are never removed, so indices stored in function values stay
/// valid for the life of the arena.
#[derive(Debug)]
pub struct Environment {
    pub frames: Vec<Frame>,
}

pub struct BindingV {
    pub name: Seq<char>,
    pub value: ObjV,
}

pub struct FrameV {
    pub bindings: Seq<BindingV>,
    pub parent: Option<usize>,
}

impl View for Binding {
    type V = BindingV;

    open spec fn view(&self) -> BindingV {
        BindingV { name: self.name@, value: self.value@ }
    }
}

impl View for Frame {
    type V = FrameV;

    open spec fn view(&self) -> FrameV {
        FrameV { bindings: self.bindings@.map_values(|b: Binding| b@), parent: self.parent }
    }
}

impl View for Environment {
    type V = Seq<FrameV>;

    open spec fn view(&self) -> Seq<FrameV> {
        self.frames@.map_values(|f: Frame| f@)
    }
}

/// The index of the first binding of `name` at or after `i`, if any.
pub open spec fn frame_find(bs: Seq<BindingV>, i: int, name: Seq<char>) -> Option<int>
    decreases bs.len() - i,
{
    if i < 0 || i >= bs.len() {
        Option::None
    } else if bs[i].name == name {
        Option::Some(i)
    } else {
        frame_find(bs, i + 1, name)
    }
}

/// The value bound to `name` in one frame, if any.
pub open spec fn frame_lookup(bs: Seq<BindingV>, name: Seq<char>) -> Option<ObjV> {
    match frame_find(bs, 0, name) {
        Option::Some(j) => Option::Some(bs[j].value),
        Option::None => Option::None,
    }
}

/// The value bound to `name` in the frame `id` or the nearest ancestor
/// that binds it. Walks only parent links that point strictly downward in
/// the arena, which every frame created by this crate satisfies.
pub open spec fn env_lookup(env: Seq<FrameV>, id: int, name: Seq<char>) -> Option<ObjV>
    decreases (if id >= 0 {
        id
    } else {
        0
    }),
{
    if 0 <= id < env.len() {
        match frame_lookup(env[id].bindings, name) {
            Option::Some(v) => Option::Some(v),
            Option::None => match env[id].parent {
                Option::Some(p) => if 0 <= p < id {
                    env_lookup(env, p as int, name)
                } else {
                    Option::None
                },
                Option::None => Option::None,
            },
        }
    } else {
        Option::None
    }
}

/// The arena after binding `name` to `value` in frame `id`: the binding is
/// replaced in place if the name is already bound there, appended
/// otherwise.
pub open spec fn env_set(env: Seq<FrameV>, id: int, name: Seq<char>, value: ObjV) -> Seq<FrameV> {
    if 0 <= id < env.len() {
        let f = env[id];
        let bs = match frame_find(f.bindings, 0, name) {
            Option::Some(j) => f.bindings.update(j, BindingV { name, value }),
            Option::None => f.bindings.push(BindingV { name, value }),
        };
        env.update(id, FrameV { bindings: bs, parent: f.parent })
    } else {
        env
    }
}

/// A value is well formed for an arena of `n` frames when every
/// environment index inside it points into the arena.
pub open spec fn obj_wf(o: ObjV, n: int) -> bool
    decreases o,
{
    match o {
        ObjV::RetV(inner) => obj_wf(*inner, n),
        ObjV::FuncV { env, .. } => 0 <= env < n,
        _ => true,
    }
}

pub open spec fn frame_wf(f: FrameV, n: int) -> bool {
    forall|j: int| 0 <= j < f.bindings.len() ==> obj_wf(#[trigger] f.bindings[j].value, n)
}

/// The arena invariant: parent links point strictly downward and every
/// stored value is well formed for the whole arena.
pub open spec fn env_wf(env: Seq<FrameV>) -> bool {
    forall|i: int|
        0 <= i < env.len() ==> {
            &&& frame_wf(#[trigger] env[i], env.len() as int)
            &&& match env[i].parent {
                Option::Some(p) => 0 <= p < i,
                Option::None => true,
            }
        }
}

/// Well-formedness of a value is preserved as the arena grows.
pub proof fn lemma_obj_wf_mono(o: ObjV, n1: int, n2: int)
    requires
        obj_wf(o, n1),
        n1 <= n2,
    ensures
        obj_wf(o, n2),
    decreases o,
{
    match o {
        ObjV::RetV(inner) => lemma_obj_wf_mono(*inner, n1, n2),
        _ => {},
    }
}

/// Pushing an empty frame with a valid parent preserves the arena
/// invariant.
pub proof fn lemma_env_wf_push(env: Seq<FrameV>, parent: usize)
    requires
        env_wf(env),
        parent < env.len(),
    ensures
        env_wf(env.push(FrameV { bindings: Seq::empty(), parent: Option::Some(parent) })),
{
    let env2 = env.push(FrameV { bindings: Seq::empty(), parent: Option::Some(parent) });
    assert forall|i: int| 0 <= i < env2.len() implies {
        &&& frame_wf(#[trigger] env2[i], env2.len() as int)
        &&& match env2[i].parent {
            Option::Some(p) => 0 <= p < i,
            Option::None => true,
        }
    } by {
        if i < env.len() {
            assert(env2[i] == env[i]);
            assert(frame_wf(env[i], env.len() as int));
            assert forall|j: int|
                0 <= j < env2[i].bindings.len() implies obj_wf(
                #[trigger] env2[i].bindings[j].value,
                env2.len() as int,
            ) by {
                lemma_obj_wf_mono(env[i].bindings[j].value, env.len() as int, env2.len() as int);
            }
        }
    }
}

/// Binding a well-formed value in a valid frame preserves the arena
/// invariant and the arena's length.
pub proof fn lemma_env_set_wf(env: Seq<FrameV>, id: int, name: Seq<char>, value: ObjV)
    requires
        env_wf(env),
        0 <= id < env.len(),
        obj_wf(value, env.len() as int),
    ensures
        env_wf(env_set(env, id, name, value)),
        env_set(env, id, name, value).len() == env.len(),
        forall|k: int|
            0 <= k < env.len() && k != id ==> env_set(env, id, name, value)[k] == env[k],
        env_set(env, id, name, value)[id].parent == env[id].parent,
{
    let env2 = env_set(env, id, name, value);
    assert forall|i: int| 0 <= i < env2.len() implies {
        &&& frame_wf(#[trigger] env2[i], env2.len() as int)
        &&& match env2[i].parent {
            Option::Some(p) => 0 <= p < i,
            Option::None => true,
        }
    } by {
        if i != id {
            assert(env2[i] == env[i]);
        } else {
            let f = env[id];
            match frame_find(f.bindings, 0, name) {
                Option::Some(j) => {
                    lemma_frame_find_in_range(f.bindings, 0, name);
                    assert forall|k: int|
                        0 <= k < env2[i].bindings.len() implies obj_wf(
                        #[trigger] env2[i].bindings[k].value,
                        env2.len() as int,
                    ) by {
                        if k != j {
                            assert(env2[i].bindings[k] == f.bindings[k]);
                        }
                    }
                },
                Option::None => {
                    assert forall|k: int|
                        0 <= k < env2[i].bindings.len() implies obj_wf(
                        #[trigger] env2[i].bindings[k].value,
                        env2.len() as int,
                    ) by {
                        if k < f.bindings.len() {
                            assert(env2[i].bindings[k] == f.bindings[k]);
                        }
                    }
                },
            }
        }
    }
}

/// A found index is in range and holds the name searched for.
pub proof fn lemma_frame_find_in_range(bs: Seq<BindingV>, i: int, name: Seq<char>)
    requires
        frame_find(bs, i, name) is Some,
    ensures
        i <= frame_find(bs, i, name)->0 < bs.len(),
        bs[frame_find(bs, i, name)->0].name == name,
    decreases bs.len() - i,
{
    if i < 0 || i >= bs.len() {
    } else if bs[i].name == name {
    } else {
        lemma_frame_find_in_range(bs, i + 1, name);
    }
}

/// Anything an arena lookup yields is well formed for that arena.
pub proof fn lemma_env_lookup_wf(env: Seq<FrameV>, id: int, name: Seq<char>)
    requires
        env_wf(env),
        env_lookup(env, id, name) is Some,
    ensures
        obj_wf(env_lookup(env, id, name)->0, env.len() as int),
    decreases (if id >= 0 {
        id
    } else {
        0
    }),
{
    if 0 <= id < env.len() {
        match frame_lookup(env[id].bindings, name) {
            Option::Some(_) => {
                lemma_frame_find_in_range(env[id].bindings, 0, name);
            },
            Option::None => {
                match env[id].parent {
                    Option::Some(p) => {
                        if 0 <= p < id {
                            lemma_env_lookup_wf(env, p as int, name);
                        }
                    },
                    Option::None => {},
                }
            },
        }
    }
}

/// Looks up `name` in one frame, returning the index of its binding.
fn find_in_frame(f: &Frame, name: &str) -> (r: Option<usize>)
    ensures
        match r {
            Option::Some(j) => frame_find(f@.bindings, 0, name@) == Option::Some(j as int),
            Option::None => frame_find(f@.bindings, 0, name@) is None,
        },
{
    let n = f.bindings.len();
    let mut i: usize = 0;
    while i < n
        invariant
            n == f.bindings.len(),
            i <= n,
            frame_find(f@.bindings, 0, name@) == frame_find(f@.bindings, i as int, name@),
        decreases n - i,
    {
        if str_eq(f.bindings[i].name.as_str(), name) {
            return Option::Some(i);
        }
        i = i + 1;
    }
    Option::None
}

impl Environment {
    /// A fresh arena holding one empty root frame.
    pub fn new() -> (e: Environment)
        ensures
            e@.len() == 1,
            e@[0].bindings.len() == 0,
            e@[0].parent is None,
            env_wf(e@),
    {
        let mut frames: Vec<Frame> = Vec::new();
        frames.push(Frame { bindings: Vec::new(), parent: Option::None });
        let e = Environment { frames };
        proof {
            assert(e.frames@[0]@.bindings =~= Seq::<BindingV>::empty());
            assert(e@[0] == FrameV { bindings: Seq::<BindingV>::empty(), parent: Option::None });
        }
        e
    }

    /// Adds a fresh empty frame enclosed by `outer` and returns its index.
    pub fn new_enclosed(&mut self, outer: usize) -> (id: usize)
        requires
            outer < old(self)@.len(),
        ensures
            id == old(self)@.len(),
            final(self)@ == old(self)@.push(
                FrameV { bindings: Seq::empty(), parent: Option::Some(outer) },
            ),
            env_wf(old(self)@) ==> env_wf(final(self)@),
    {
        let id = self.frames.len();
        self.frames.push(Frame { bindings: Vec::new(), parent: Option::Some(outer) });
        proof {
            assert(self.frames@[id as int]@.bindings =~= Seq::<BindingV>::empty());
            assert(self@[id as int] == FrameV {
                bindings: Seq::<BindingV>::empty(),
                parent: Option::Some(outer),
            });
            assert(self@ =~= old(self)@.push(
                FrameV { bindings: Seq::<BindingV>::empty(), parent: Option::Some(outer) },
            ));
        }
        proof {
            if env_wf(old(self)@) {
                lemma_env_wf_push(old(self)@, outer);
            }
        }
        id
    }

    /// The value bound to `name` in frame `id` or the nearest ancestor
    /// binding it, walking the parent chain on a miss.
    pub fn get(&self, id: usize, name: &str) -> (r: Option<Object>)
        ensures
            match r {
                Option::Some(o) => env_lookup(self@, id as int, name@) == Option::Some(o@),
                Option::None => env_lookup(self@, id as int, name@) is None,
            },
    {
        let mut cur = id;
        loop
            invariant
                env_lookup(self@, id as int, name@) == env_lookup(self@, cur as int, name@),
            decreases cur,
        {
            if cur >= self.frames.len() {
                return Option::None;
            }
            assert(self@[cur as int] == self.frames@[cur as int]@);
            let found = find_in_frame(&self.frames[cur], name);
            if let Option::Some(j) = found {
                proof {
                    lemma_frame_find_in_range(self@[cur as int].bindings, 0, name@);
                }
                let obj = self.frames[cur].bindings[j].value.duplicate();
                assert(obj@ == self@[cur as int].bindings[j as int].value);
                return Option::Some(obj);
            }
            assert(frame_lookup(self@[cur as int].bindings, name@) is None);
            match self.frames[cur].parent {
                Option::Some(p) => {
                    if p < cur {
                        cur = p;
                    } else {
                        return Option::None;
                    }
                },
                Option::None => {
                    return Option::None;
                },
            }
        }
    }

    /// Binds `name` to `value` in frame `id`, replacing an existing
    /// binding of the same name there and returning the replaced value.
    pub fn set(&mut self, id: usize, name: String, value: Object) -> (r: Option<Object>)
        requires
            id < old(self)@.len(),
        ensures
            final(self)@ == env_set(old(self)@, id as int, name@, value@),
            match r {
                Option::Some(o) => frame_lookup(old(self)@[id as int].bindings, name@)
                    == Option::Some(o@),
                Option::None => frame_lookup(old(self)@[id as int].bindings, name@) is None,
            },
    {
        let ghost oldenv = self@;
        let ghost nv = name@;
        let ghost vv = value@;
        let mut frame = self.frames.remove(id);
        let ghost oldframe = frame@;
        assert(oldframe == oldenv[id as int]);
        let found = find_in_frame(&frame, name.as_str());
        let r: Option<Object>;
        match found {
            Option::Some(j) => {
                proof {
                    lemma_frame_find_in_range(oldframe.bindings, 0, nv);
                }
                let old_binding = frame.bindings.remove(j);
                frame.bindings.insert(j, Binding { name, value });
                assert(frame@.bindings =~= oldframe.bindings.update(
                    j as int,
                    BindingV { name: nv, value: vv },
                ));
                r = Option::Some(old_binding.value);
            },
            Option::None => {
                frame.bindings.push(Binding { name, value });
                assert(frame@.bindings =~= oldframe.bindings.push(
                    BindingV { name: nv, value: vv },
                ));
                r = Option::None;
            },
        }
        assert(frame@.parent == oldframe.parent);
        self.frames.insert(id, frame);
        assert(self@ =~= env_set(oldenv, id as int, nv, vv));
        r
    }
}

} // verus!
