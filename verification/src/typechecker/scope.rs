//! Lexical scopes: frames of variables, constants and types, and the methods of each type.
use vstd::prelude::*;
use vstd::string::StringExecFns;

use crate::typechecker::types::{Type, TypeV, clone_fields, lemma_view_fields, opt_view, view_fields};

verus! {

/// A variable binding: its type, if known yet, and whether it may be reassigned.
#[derive(Debug)]
pub struct Binding {
    pub type_id: Option<Type>,
    pub mutable: bool,
}

/// What a variable binding says.
pub struct BindingV {
    pub type_id: Option<TypeV>,
    pub mutable: bool,
}

/// A single lexical frame: its variables, the types it defines and its constants. A later
/// entry for a name hides an earlier one.
#[derive(Debug)]
pub struct Frame {
    variables: Vec<(String, Binding)>,
    types: Vec<(String, Type)>,
    constants: Vec<(String, Type)>,
}

/// What a frame holds.
pub struct FrameV {
    pub variables: Map<Seq<char>, BindingV>,
    pub types: Map<Seq<char>, TypeV>,
    pub constants: Map<Seq<char>, TypeV>,
}

/// A stack of frames, innermost last, and the methods attached to each type.
#[derive(Debug)]
pub struct Scope {
    stacks: Vec<Frame>,
    methods: Vec<(Type, Vec<(String, Type)>)>,
}

/// What a scope holds.
pub struct ScopeV {
    pub frames: Seq<FrameV>,
    pub methods: Map<TypeV, Map<Seq<char>, TypeV>>,
}

/// An error for a type name that the innermost frame already defines.
#[derive(Debug, Clone)]
pub struct TypeAddError {
    pub name: String,
    pub type_id: Type,
}

/// An error for a name that a constant already has.
#[derive(Debug, Clone)]
pub struct VariableAddError {
    pub name: String,
}

/// An error for a method name that the type already has as a method or a field.
#[derive(Debug, Clone)]
pub struct MethodAddError {
    pub name: String,
}

pub open spec fn binding_view(b: Binding) -> BindingV {
    BindingV { type_id: opt_view(b.type_id), mutable: b.mutable }
}

/// The map that a list of variable entries describes; later entries win.
pub open spec fn variable_map(es: Seq<(String, Binding)>) -> Map<Seq<char>, BindingV>
    decreases es.len(),
{
    if es.len() == 0 {
        Map::empty()
    } else {
        variable_map(es.drop_last()).insert(es.last().0@, binding_view(es.last().1))
    }
}

/// The map that a list of named types describes; later entries win.
pub open spec fn type_map(es: Seq<(String, Type)>) -> Map<Seq<char>, TypeV>
    decreases es.len(),
{
    if es.len() == 0 {
        Map::empty()
    } else {
        type_map(es.drop_last()).insert(es.last().0@, es.last().1@)
    }
}

/// The methods of each type; later entries win.
pub open spec fn method_map(es: Seq<(Type, Vec<(String, Type)>)>) -> Map<
    TypeV,
    Map<Seq<char>, TypeV>,
>
    decreases es.len(),
{
    if es.len() == 0 {
        Map::empty()
    } else {
        method_map(es.drop_last()).insert(es.last().0@, type_map(es.last().1@))
    }
}

pub open spec fn empty_frame() -> FrameV {
    FrameV { variables: Map::empty(), types: Map::empty(), constants: Map::empty() }
}

impl Frame {
    pub closed spec fn view_frame(&self) -> FrameV {
        FrameV {
            variables: variable_map(self.variables@),
            types: type_map(self.types@),
            constants: type_map(self.constants@),
        }
    }
}

/// The views of a list of frames.
pub open spec fn view_frames(fs: Seq<Frame>) -> Seq<FrameV>
    decreases fs.len(),
{
    if fs.len() == 0 {
        Seq::empty()
    } else {
        view_frames(fs.drop_last()).push(fs.last().view_frame())
    }
}

impl View for Scope {
    type V = ScopeV;

    closed spec fn view(&self) -> ScopeV {
        ScopeV { frames: view_frames(self.stacks@), methods: method_map(self.methods@) }
    }
}

/// The innermost binding of a variable.
pub open spec fn lookup_variable(frames: Seq<FrameV>, name: Seq<char>) -> Option<BindingV>
    decreases frames.len(),
{
    if frames.len() == 0 {
        None
    } else if frames.last().variables.contains_key(name) {
        Some(frames.last().variables[name])
    } else {
        lookup_variable(frames.drop_last(), name)
    }
}

/// The innermost definition of a type name.
pub open spec fn lookup_type(frames: Seq<FrameV>, name: Seq<char>) -> Option<TypeV>
    decreases frames.len(),
{
    if frames.len() == 0 {
        None
    } else if frames.last().types.contains_key(name) {
        Some(frames.last().types[name])
    } else {
        lookup_type(frames.drop_last(), name)
    }
}

/// The innermost definition of a constant.
pub open spec fn lookup_constant(frames: Seq<FrameV>, name: Seq<char>) -> Option<TypeV>
    decreases frames.len(),
{
    if frames.len() == 0 {
        None
    } else if frames.last().constants.contains_key(name) {
        Some(frames.last().constants[name])
    } else {
        lookup_constant(frames.drop_last(), name)
    }
}

/// What a name resolves to: a constant (which has a known type) first, else a variable's
/// type slot.
pub open spec fn resolve(frames: Seq<FrameV>, name: Seq<char>) -> Option<Option<TypeV>> {
    match lookup_constant(frames, name) {
        Some(t) => Some(Some(t)),
        None => match lookup_variable(frames, name) {
            Some(b) => Some(b.type_id),
            None => None,
        },
    }
}

/// The first field of a struct type with the given name.
pub open spec fn field_of(fields: Seq<(Seq<char>, TypeV)>, name: Seq<char>) -> Option<TypeV>
    decreases fields.len(),
{
    if fields.len() == 0 {
        None
    } else if fields[0].0 == name {
        Some(fields[0].1)
    } else {
        field_of(fields.drop_first(), name)
    }
}

/// A property of a type: a struct field first, else a method of the type.
pub open spec fn property_of(
    methods: Map<TypeV, Map<Seq<char>, TypeV>>,
    t: TypeV,
    name: Seq<char>,
) -> Option<TypeV> {
    let field = match t {
        TypeV::Struct(_, fields) => field_of(fields, name),
        _ => None,
    };
    match field {
        Some(f) => Some(f),
        None => if methods.contains_key(t) && methods[t].contains_key(name) {
            Some(methods[t][name])
        } else {
            None
        },
    }
}

proof fn lemma_variable_map_entry(es: Seq<(String, Binding)>, i: int, name: Seq<char>)
    requires
        -1 <= i < es.len(),
        i >= 0 ==> es[i].0@ == name,
        forall|j: int| i < j < es.len() ==> #[trigger] es[j].0@ != name,
    ensures
        i >= 0 ==> variable_map(es).contains_key(name) && variable_map(es)[name] == binding_view(
            es[i].1,
        ),
        i < 0 ==> !variable_map(es).contains_key(name),
    decreases es.len(),
{
    if es.len() > 0 {
        if i == es.len() - 1 {
        } else {
            assert forall|j: int| i < j < es.drop_last().len() implies #[trigger] es.drop_last()[j].0@
                != name by {
                assert(es.drop_last()[j] == es[j]);
                assert(es[j].0@ != name);
            }
            assert(es[es.len() - 1].0@ != name);
            lemma_variable_map_entry(es.drop_last(), i, name);
            if i >= 0 {
                assert(es.drop_last()[i] == es[i]);
            }
        }
    }
}

proof fn lemma_type_map_entry(es: Seq<(String, Type)>, i: int, name: Seq<char>)
    requires
        -1 <= i < es.len(),
        i >= 0 ==> es[i].0@ == name,
        forall|j: int| i < j < es.len() ==> #[trigger] es[j].0@ != name,
    ensures
        i >= 0 ==> type_map(es).contains_key(name) && type_map(es)[name] == es[i].1@,
        i < 0 ==> !type_map(es).contains_key(name),
    decreases es.len(),
{
    if es.len() > 0 {
        if i == es.len() - 1 {
        } else {
            assert forall|j: int| i < j < es.drop_last().len() implies #[trigger] es.drop_last()[j].0@
                != name by {
                assert(es.drop_last()[j] == es[j]);
                assert(es[j].0@ != name);
            }
            assert(es[es.len() - 1].0@ != name);
            lemma_type_map_entry(es.drop_last(), i, name);
            if i >= 0 {
                assert(es.drop_last()[i] == es[i]);
            }
        }
    }
}

proof fn lemma_method_map_entry(es: Seq<(Type, Vec<(String, Type)>)>, i: int, t: TypeV)
    requires
        -1 <= i < es.len(),
        i >= 0 ==> es[i].0@ == t,
        forall|j: int| i < j < es.len() ==> #[trigger] es[j].0@ != t,
    ensures
        i >= 0 ==> method_map(es).contains_key(t) && method_map(es)[t] == type_map(es[i].1@),
        i < 0 ==> !method_map(es).contains_key(t),
    decreases es.len(),
{
    if es.len() > 0 {
        if i == es.len() - 1 {
        } else {
            assert forall|j: int| i < j < es.drop_last().len() implies #[trigger] es.drop_last()[j].0@
                != t by {
                assert(es.drop_last()[j] == es[j]);
                assert(es[j].0@ != t);
            }
            assert(es[es.len() - 1].0@ != t);
            lemma_method_map_entry(es.drop_last(), i, t);
            if i >= 0 {
                assert(es.drop_last()[i] == es[i]);
            }
        }
    }
}

/// The position of the last variable entry with the given name.
fn find_variable(es: &Vec<(String, Binding)>, name: &String) -> (r: Option<usize>)
    ensures
        r matches Some(i) ==> i < es@.len() && es@[i as int].0@ == name@
            && variable_map(es@).contains_key(name@) && variable_map(es@)[name@] == binding_view(
            es@[i as int].1,
        ),
        r is None ==> !variable_map(es@).contains_key(name@),
{
    let mut k: usize = es.len();
    while k > 0
        invariant
            k <= es@.len(),
            forall|j: int| k <= j < es@.len() ==> #[trigger] es@[j].0@ != name@,
        decreases k,
    {
        if es[k - 1].0 == *name {
            proof {
                lemma_variable_map_entry(es@, k - 1, name@);
            }
            return Some(k - 1);
        }
        k = k - 1;
    }
    proof {
        lemma_variable_map_entry(es@, -1, name@);
    }
    None
}

/// The position of the last named type with the given name.
fn find_named(es: &Vec<(String, Type)>, name: &String) -> (r: Option<usize>)
    ensures
        r matches Some(i) ==> i < es@.len() && es@[i as int].0@ == name@ && type_map(
            es@,
        ).contains_key(name@) && type_map(es@)[name@] == es@[i as int].1@,
        r is None ==> !type_map(es@).contains_key(name@),
{
    let mut k: usize = es.len();
    while k > 0
        invariant
            k <= es@.len(),
            forall|j: int| k <= j < es@.len() ==> #[trigger] es@[j].0@ != name@,
        decreases k,
    {
        if es[k - 1].0 == *name {
            proof {
                lemma_type_map_entry(es@, k - 1, name@);
            }
            return Some(k - 1);
        }
        k = k - 1;
    }
    proof {
        lemma_type_map_entry(es@, -1, name@);
    }
    None
}

/// The position of the last method table of the given type.
fn find_methods(es: &Vec<(Type, Vec<(String, Type)>)>, t: &Type) -> (r: Option<usize>)
    ensures
        r matches Some(i) ==> i < es@.len() && es@[i as int].0@ == t@ && method_map(
            es@,
        ).contains_key(t@) && method_map(es@)[t@] == type_map(es@[i as int].1@),
        r is None ==> !method_map(es@).contains_key(t@),
{
    let mut k: usize = es.len();
    while k > 0
        invariant
            k <= es@.len(),
            forall|j: int| k <= j < es@.len() ==> #[trigger] es@[j].0@ != t@,
        decreases k,
    {
        if es[k - 1].0.type_eq(t) {
            proof {
                lemma_method_map_entry(es@, k - 1, t@);
            }
            return Some(k - 1);
        }
        k = k - 1;
    }
    proof {
        lemma_method_map_entry(es@, -1, t@);
    }
    None
}

proof fn lemma_view_frames(fs: Seq<Frame>)
    ensures
        view_frames(fs).len() == fs.len(),
        forall|i: int| 0 <= i < fs.len() ==> #[trigger] view_frames(fs)[i] == fs[i].view_frame(),
    decreases fs.len(),
{
    if fs.len() > 0 {
        lemma_view_frames(fs.drop_last());
        assert forall|i: int| 0 <= i < fs.len() implies #[trigger] view_frames(fs)[i]
            == fs[i].view_frame() by {
            if i < fs.len() - 1 {
                assert(fs.drop_last()[i] == fs[i]);
            }
        }
    }
}

proof fn lemma_view_frames_update(fs: Seq<Frame>, i: int, f: Frame)
    requires
        0 <= i < fs.len(),
    ensures
        view_frames(fs.update(i, f)) == view_frames(fs).update(i, f.view_frame()),
{
    lemma_view_frames(fs);
    lemma_view_frames(fs.update(i, f));
    assert(view_frames(fs.update(i, f)) =~= view_frames(fs).update(i, f.view_frame()));
}

proof fn lemma_view_frames_push(fs: Seq<Frame>, f: Frame)
    ensures
        view_frames(fs.push(f)) == view_frames(fs).push(f.view_frame()),
{
    assert(fs.push(f).drop_last() =~= fs);
}

/// A frame with one more variable binding.
pub open spec fn frame_with_variable(f: FrameV, name: Seq<char>, b: BindingV) -> FrameV {
    FrameV { variables: f.variables.insert(name, b), ..f }
}

/// A frame with one more type.
pub open spec fn frame_with_type(f: FrameV, name: Seq<char>, t: TypeV) -> FrameV {
    FrameV { types: f.types.insert(name, t), ..f }
}

/// A frame with one more constant.
pub open spec fn frame_with_constant(f: FrameV, name: Seq<char>, t: TypeV) -> FrameV {
    FrameV { constants: f.constants.insert(name, t), ..f }
}

/// What checking a node keeps of a scope: as many frames, all but the innermost unchanged,
/// the innermost with the same types and constants (its variables may change), and the same
/// methods.
pub open spec fn keeps_definitions(before: ScopeV, after: ScopeV) -> bool {
    &&& after.frames.len() == before.frames.len()
    &&& after.methods == before.methods
    &&& forall|i: int| 0 <= i < before.frames.len() - 1 ==> #[trigger] after.frames[i] == before.frames[i]
    &&& before.frames.len() > 0 ==> after.frames.last().types == before.frames.last().types
        && after.frames.last().constants == before.frames.last().constants
}

/// A scope that keeps the definitions of another defines the same types and constants.
pub proof fn lemma_keeps_definitions_lookups(before: ScopeV, after: ScopeV, name: Seq<char>)
    requires
        keeps_definitions(before, after),
    ensures
        lookup_type(after.frames, name) == lookup_type(before.frames, name),
        lookup_constant(after.frames, name) == lookup_constant(before.frames, name),
{
    if before.frames.len() > 0 {
        assert(after.frames.drop_last() =~= before.frames.drop_last());
    }
}

/// Entering a frame, keeping the definitions of the frames then, and leaving the frame again
/// gives back the frames before.
pub proof fn lemma_frame_round_trip(before: Seq<FrameV>, inside: Seq<FrameV>, methods: Map<TypeV, Map<Seq<char>, TypeV>>)
    requires
        keeps_definitions(
            ScopeV { frames: before.push(empty_frame()), methods },
            ScopeV { frames: inside, methods },
        ),
    ensures
        inside.drop_last() == before,
{
    assert forall|i: int| 0 <= i < before.len() implies inside.drop_last()[i] == before[i] by {
        assert(before.push(empty_frame())[i] == before[i]);
    }
    assert(inside.drop_last() =~= before);
}

/// The index of the innermost frame that binds a variable.
/// Whether the innermost binding of a variable already has a known type other than `t`.
pub open spec fn known_otherwise(frames: Seq<FrameV>, name: Seq<char>, t: TypeV) -> bool {
    lookup_variable(frames, name) matches Some(b) && b.type_id matches Some(c) && c != t
}

pub open spec fn variable_frame(frames: Seq<FrameV>, name: Seq<char>) -> int
    decreases frames.len(),
{
    if frames.len() == 0 {
        -1
    } else if frames.last().variables.contains_key(name) {
        frames.len() - 1
    } else {
        variable_frame(frames.drop_last(), name)
    }
}

proof fn lemma_variable_frame(frames: Seq<FrameV>, name: Seq<char>)
    ensures
        -1 <= variable_frame(frames, name) < frames.len(),
        variable_frame(frames, name) >= 0 <==> lookup_variable(frames, name) is Some,
        variable_frame(frames, name) >= 0 ==> {
            let k = variable_frame(frames, name);
            &&& frames[k].variables.contains_key(name)
            &&& lookup_variable(frames, name) == Some(frames[k].variables[name])
            &&& forall|j: int| k < j < frames.len() ==> !(#[trigger] frames[j].variables.contains_key(name))
        },
        variable_frame(frames, name) < 0 ==> forall|j: int|
            0 <= j < frames.len() ==> !(#[trigger] frames[j].variables.contains_key(name)),
    decreases frames.len(),
{
    if frames.len() > 0 {
        let d = frames.drop_last();
        lemma_variable_frame(d, name);
        assert forall|j: int| 0 <= j < d.len() implies #[trigger] d[j] == frames[j] by {}
        let k = variable_frame(frames, name);
        if !frames.last().variables.contains_key(name) {
            assert(k == variable_frame(d, name));
            if k >= 0 {
                assert(frames[k] == d[k]);
                assert forall|j: int| k < j < frames.len() implies !(
                #[trigger] frames[j].variables.contains_key(name)) by {
                    if j < d.len() {
                        assert(frames[j] == d[j]);
                    }
                }
            } else {
                assert forall|j: int| 0 <= j < frames.len() implies !(
                #[trigger] frames[j].variables.contains_key(name)) by {
                    if j < d.len() {
                        assert(frames[j] == d[j]);
                    }
                }
            }
        }
    }
}

impl Frame {
    fn new() -> (f: Frame)
        ensures
            f.view_frame() == empty_frame(),
    {
        let f = Frame { variables: Vec::new(), types: Vec::new(), constants: Vec::new() };
        assert(variable_map(f.variables@) =~= Map::empty());
        assert(type_map(f.types@) =~= Map::empty());
        f
    }
}

impl Scope {
    /// A scope with one empty frame and no methods.
    pub fn new() -> (s: Scope)
        ensures
            s@.frames == seq![empty_frame()],
            s@.methods == Map::<TypeV, Map<Seq<char>, TypeV>>::empty(),
    {
        let mut stacks: Vec<Frame> = Vec::new();
        stacks.push(Frame::new());
        let s = Scope { stacks, methods: Vec::new() };
        proof {
            lemma_view_frames(s.stacks@);
            assert(view_frames(s.stacks@) =~= seq![empty_frame()]);
            assert(method_map(s.methods@) =~= Map::empty());
        }
        s
    }

    /// Enter a nested lexical region: push an empty frame.
    pub fn enter_scope(&mut self)
        ensures
            final(self)@.frames == old(self)@.frames.push(empty_frame()),
            final(self)@.methods == old(self)@.methods,
    {
        let ghost before = self.stacks@;
        self.stacks.push(Frame::new());
        proof {
            lemma_view_frames_push(before, self.stacks@.last());
        }
    }

    /// Leave the innermost lexical region: pop its frame, if there is one.
    pub fn exit_scope(&mut self)
        ensures
            old(self)@.frames.len() > 0 ==> final(self)@.frames == old(self)@.frames.drop_last(),
            old(self)@.frames.len() == 0 ==> final(self)@.frames == old(self)@.frames,
            final(self)@.methods == old(self)@.methods,
    {
        let ghost before = self.stacks@;
        let _ = self.stacks.pop();
        proof {
            if before.len() > 0 {
                assert(before =~= self.stacks@.push(before.last()));
                lemma_view_frames_push(self.stacks@, before.last());
            }
        }
    }

    /// The number of frames.
    pub fn depth(&self) -> (n: usize)
        ensures
            n == self@.frames.len(),
    {
        proof {
            lemma_view_frames(self.stacks@);
        }
        self.stacks.len()
    }

    /// The innermost definition of a constant.
    fn get_constant(&self, name: &String) -> (r: Option<Type>)
        ensures
            opt_view(r) == lookup_constant(self@.frames, name@),
    {
        proof {
            lemma_view_frames(self.stacks@);
        }
        let mut k: usize = self.stacks.len();
        assert(self@.frames.take(k as int) =~= self@.frames);
        while k > 0
            invariant
                k <= self.stacks@.len(),
                view_frames(self.stacks@).len() == self.stacks@.len(),
                forall|i: int| 0 <= i < self.stacks@.len() ==> #[trigger] view_frames(self.stacks@)[i]
                    == self.stacks@[i].view_frame(),
                lookup_constant(self@.frames, name@) == lookup_constant(
                    self@.frames.take(k as int),
                    name@,
                ),
            decreases k,
        {
            let ghost fs = self@.frames.take(k as int);
            assert(fs.last() == self.stacks@[k - 1].view_frame());
            assert(fs.drop_last() =~= self@.frames.take(k - 1));
            match find_named(&self.stacks[k - 1].constants, name) {
                Some(i) => {
                    return Some(self.stacks[k - 1].constants[i].1.clone());
                },
                None => {},
            }
            k = k - 1;
        }
        None
    }
}

impl Frame {
    fn push_variable(&mut self, name: String, b: Binding)
        ensures
            final(self).view_frame() == frame_with_variable(
                old(self).view_frame(),
                name@,
                binding_view(b),
            ),
    {
        let ghost before = self.variables@;
        self.variables.push((name, b));
        proof {
            assert(self.variables@.drop_last() =~= before);
        }
    }

    fn push_type(&mut self, name: String, t: Type)
        ensures
            final(self).view_frame() == frame_with_type(old(self).view_frame(), name@, t@),
    {
        let ghost before = self.types@;
        self.types.push((name, t));
        proof {
            assert(self.types@.drop_last() =~= before);
        }
    }

    fn push_constant(&mut self, name: String, t: Type)
        ensures
            final(self).view_frame() == frame_with_constant(old(self).view_frame(), name@, t@),
    {
        let ghost before = self.constants@;
        self.constants.push((name, t));
        proof {
            assert(self.constants@.drop_last() =~= before);
        }
    }
}

impl Scope {
    /// The innermost frame binding a variable, and the entry of that frame that binds it.
    fn find_variable_frame(&self, name: &String) -> (r: Option<(usize, usize)>)
        ensures
            r matches Some((k, i)) ==> {
                &&& k == variable_frame(self@.frames, name@)
                &&& k < self.stacks@.len()
                &&& i < self.stacks@[k as int].variables@.len()
                &&& lookup_variable(self@.frames, name@) == Some(
                    binding_view(self.stacks@[k as int].variables@[i as int].1),
                )
            },
            r is None ==> lookup_variable(self@.frames, name@) is None,
    {
        proof {
            lemma_view_frames(self.stacks@);
            lemma_variable_frame(self@.frames, name@);
        }
        let mut k: usize = self.stacks.len();
        while k > 0
            invariant
                k <= self.stacks@.len(),
                view_frames(self.stacks@).len() == self.stacks@.len(),
                forall|i: int| 0 <= i < self.stacks@.len() ==> #[trigger] view_frames(self.stacks@)[i]
                    == self.stacks@[i].view_frame(),
                forall|j: int|
                    k <= j < self.stacks@.len() ==> !(#[trigger] self@.frames[j].variables.contains_key(
                        name@,
                    )),
            decreases k,
        {
            assert(self@.frames[k - 1] == self.stacks@[k - 1].view_frame());
            match find_variable(&self.stacks[k - 1].variables, name) {
                Some(i) => {
                    proof {
                        lemma_variable_frame(self@.frames, name@);
                        let vf = variable_frame(self@.frames, name@);
                        assert(self@.frames[k - 1].variables == variable_map(
                            self.stacks@[k - 1].variables@,
                        ));
                        assert(self@.frames[k - 1].variables.contains_key(name@));
                        assert(vf >= 0);
                        if vf > k - 1 {
                            assert(!self@.frames[vf].variables.contains_key(name@));
                        }
                        if vf < k - 1 {
                            assert(!self@.frames[k - 1].variables.contains_key(name@));
                        }
                        assert(vf == k - 1);
                    }
                    return Some((k - 1, i));
                },
                None => {},
            }
            k = k - 1;
        }
        proof {
            lemma_variable_frame(self@.frames, name@);
        }
        None
    }

    /// The type slot of the innermost binding of a variable.
    pub fn get_variable(&self, name: &str) -> (r: Option<Option<Type>>)
        ensures
            match lookup_variable(self@.frames, name@) {
                Some(b) => r matches Some(t) && opt_view(t) == b.type_id,
                None => r is None,
            },
    {
        let name = String::from_str(name);
        match self.find_variable_frame(&name) {
            Some((k, i)) => {
                let slot = match &self.stacks[k].variables[i].1.type_id {
                    Some(t) => Some(t.clone()),
                    None => None,
                };
                Some(slot)
            },
            None => None,
        }
    }

    /// Whether the innermost binding of a variable may be reassigned.
    pub fn is_variable_mutable(&self, name: &str) -> (r: Option<bool>)
        ensures
            match lookup_variable(self@.frames, name@) {
                Some(b) => r == Some(b.mutable),
                None => r is None,
            },
    {
        let name = String::from_str(name);
        match self.find_variable_frame(&name) {
            Some((k, i)) => Some(self.stacks[k].variables[i].1.mutable),
            None => None,
        }
    }
}

proof fn lemma_type_map_pointwise(a: Seq<(String, Type)>, b: Seq<(String, Type)>)
    requires
        a.len() == b.len(),
        forall|i: int| 0 <= i < a.len() ==> a[i].0@ == b[i].0@ && a[i].1@ == b[i].1@,
    ensures
        type_map(a) == type_map(b),
    decreases a.len(),
{
    if a.len() > 0 {
        assert forall|i: int| 0 <= i < a.len() - 1 implies a.drop_last()[i].0@ == b.drop_last()[
            i].0@ && a.drop_last()[i].1@ == b.drop_last()[i].1@ by {
            assert(a.drop_last()[i] == a[i]);
            assert(b.drop_last()[i] == b[i]);
        }
        lemma_type_map_pointwise(a.drop_last(), b.drop_last());
    }
}

proof fn lemma_variable_map_pointwise(a: Seq<(String, Binding)>, b: Seq<(String, Binding)>)
    requires
        a.len() == b.len(),
        forall|i: int|
            0 <= i < a.len() ==> a[i].0@ == b[i].0@ && binding_view(a[i].1) == binding_view(b[i].1),
    ensures
        variable_map(a) == variable_map(b),
    decreases a.len(),
{
    if a.len() > 0 {
        assert forall|i: int| 0 <= i < a.len() - 1 implies a.drop_last()[i].0@ == b.drop_last()[
            i].0@ && binding_view(a.drop_last()[i].1) == binding_view(b.drop_last()[i].1) by {
            assert(a.drop_last()[i] == a[i]);
            assert(b.drop_last()[i] == b[i]);
        }
        lemma_variable_map_pointwise(a.drop_last(), b.drop_last());
    }
}

proof fn lemma_method_map_pointwise(
    a: Seq<(Type, Vec<(String, Type)>)>,
    b: Seq<(Type, Vec<(String, Type)>)>,
)
    requires
        a.len() == b.len(),
        forall|i: int|
            0 <= i < a.len() ==> a[i].0@ == b[i].0@ && type_map(a[i].1@) == type_map(b[i].1@),
    ensures
        method_map(a) == method_map(b),
    decreases a.len(),
{
    if a.len() > 0 {
        assert forall|i: int| 0 <= i < a.len() - 1 implies a.drop_last()[i].0@ == b.drop_last()[
            i].0@ && type_map(a.drop_last()[i].1@) == type_map(b.drop_last()[i].1@) by {
            assert(a.drop_last()[i] == a[i]);
            assert(b.drop_last()[i] == b[i]);
        }
        lemma_method_map_pointwise(a.drop_last(), b.drop_last());
    }
}

fn clone_option_type(t: &Option<Type>) -> (r: Option<Type>)
    ensures
        opt_view(r) == opt_view(*t),
{
    match t {
        Some(t) => Some(t.clone()),
        None => None,
    }
}

fn clone_variables(es: &Vec<(String, Binding)>) -> (r: Vec<(String, Binding)>)
    ensures
        variable_map(r@) == variable_map(es@),
{
    let mut r: Vec<(String, Binding)> = Vec::new();
    let mut k: usize = 0;
    while k < es.len()
        invariant
            k <= es@.len(),
            r@.len() == k,
            forall|i: int|
                0 <= i < k ==> r@[i].0@ == es@[i].0@ && binding_view(r@[i].1) == binding_view(
                    es@[i].1,
                ),
        decreases es.len() - k,
    {
        let e = &es[k];
        let b = Binding { type_id: clone_option_type(&e.1.type_id), mutable: e.1.mutable };
        r.push((e.0.clone(), b));
        k = k + 1;
    }
    proof {
        lemma_variable_map_pointwise(r@, es@);
    }
    r
}

fn clone_named_types(es: &Vec<(String, Type)>) -> (r: Vec<(String, Type)>)
    ensures
        type_map(r@) == type_map(es@),
{
    let r = clone_fields(es);
    proof {
        lemma_type_map_pointwise(r@, es@);
    }
    r
}

impl Clone for Frame {
    fn clone(&self) -> (r: Frame)
        ensures
            r.view_frame() == self.view_frame(),
    {
        Frame {
            variables: clone_variables(&self.variables),
            types: clone_named_types(&self.types),
            constants: clone_named_types(&self.constants),
        }
    }
}

impl Clone for Scope {
    fn clone(&self) -> (r: Scope)
        ensures
            r@ == self@,
    {
        let mut stacks: Vec<Frame> = Vec::new();
        let mut k: usize = 0;
        while k < self.stacks.len()
            invariant
                k <= self.stacks@.len(),
                stacks@.len() == k,
                forall|i: int| 0 <= i < k ==> stacks@[i].view_frame() == self.stacks@[i].view_frame(),
            decreases self.stacks.len() - k,
        {
            stacks.push(self.stacks[k].clone());
            k = k + 1;
        }
        let mut methods: Vec<(Type, Vec<(String, Type)>)> = Vec::new();
        let mut k: usize = 0;
        while k < self.methods.len()
            invariant
                k <= self.methods@.len(),
                methods@.len() == k,
                forall|i: int|
                    0 <= i < k ==> methods@[i].0@ == self.methods@[i].0@ && type_map(methods@[i].1@)
                        == type_map(self.methods@[i].1@),
            decreases self.methods.len() - k,
        {
            let e = &self.methods[k];
            methods.push((e.0.clone(), clone_named_types(&e.1)));
            k = k + 1;
        }
        let r = Scope { stacks, methods };
        proof {
            lemma_view_frames(r.stacks@);
            lemma_view_frames(self.stacks@);
            assert(view_frames(r.stacks@) =~= view_frames(self.stacks@));
            lemma_method_map_pointwise(r.methods@, self.methods@);
        }
        r
    }
}

impl Default for Scope {
    fn default() -> (s: Scope)
        ensures
            s@.frames == seq![empty_frame()],
            s@.methods == Map::<TypeV, Map<Seq<char>, TypeV>>::empty(),
    {
        Scope::new()
    }
}

/// The position of the first field with the given name.
fn find_field(fields: &Vec<(String, Type)>, name: &String) -> (r: Option<usize>)
    ensures
        r matches Some(i) ==> i < fields@.len() && field_of(view_fields(fields@), name@) == Some(
            fields@[i as int].1@,
        ),
        r is None ==> field_of(view_fields(fields@), name@) is None,
{
    proof {
        lemma_view_fields(fields@);
    }
    let ghost vf = view_fields(fields@);
    let mut k: usize = 0;
    assert(vf.skip(0) =~= vf);
    while k < fields.len()
        invariant
            k <= fields@.len(),
            vf == view_fields(fields@),
            vf.len() == fields@.len(),
            forall|i: int| 0 <= i < fields@.len() ==> #[trigger] vf[i] == (fields@[i].0@, fields@[i].1@),
            field_of(vf, name@) == field_of(vf.skip(k as int), name@),
        decreases fields.len() - k,
    {
        assert(vf.skip(k as int)[0] == vf[k as int]);
        if fields[k].0 == *name {
            return Some(k);
        }
        assert(vf.skip(k as int).drop_first() =~= vf.skip(k + 1));
        k = k + 1;
    }
    None
}

impl Scope {
    /// The innermost definition of a type name.
    pub fn get_type(&self, name: &str) -> (r: Option<Type>)
        ensures
            opt_view(r) == lookup_type(self@.frames, name@),
    {
        let key = String::from_str(name);
        proof {
            lemma_view_frames(self.stacks@);
        }
        let mut k: usize = self.stacks.len();
        assert(self@.frames.take(k as int) =~= self@.frames);
        while k > 0
            invariant
                k <= self.stacks@.len(),
                view_frames(self.stacks@).len() == self.stacks@.len(),
                forall|i: int| 0 <= i < self.stacks@.len() ==> #[trigger] view_frames(self.stacks@)[i]
                    == self.stacks@[i].view_frame(),
                key@ == name@,
                lookup_type(self@.frames, name@) == lookup_type(self@.frames.take(k as int), name@),
            decreases k,
        {
            let ghost fs = self@.frames.take(k as int);
            assert(fs.last() == self.stacks@[k - 1].view_frame());
            assert(fs.drop_last() =~= self@.frames.take(k - 1));
            match find_named(&self.stacks[k - 1].types, &key) {
                Some(i) => {
                    return Some(self.stacks[k - 1].types[i].1.clone());
                },
                None => {},
            }
            k = k - 1;
        }
        None
    }

    /// What a name resolves to: a constant first, else the type slot of a variable.
    pub fn resolve_name(&self, name: &str) -> (r: Option<Option<Type>>)
        ensures
            match resolve(self@.frames, name@) {
                Some(t) => r matches Some(s) && opt_view(s) == t,
                None => r is None,
            },
    {
        let owned = String::from_str(name);
        match self.get_constant(&owned) {
            Some(t) => Some(Some(t)),
            None => self.get_variable(name),
        }
    }

    /// Bind a variable in the innermost frame. It is refused when a constant has the name.
    pub fn add_variable(&mut self, name: &str, type_id: Option<Type>, mutable: bool) -> (r: Result<
        (),
        VariableAddError,
    >)
        ensures
            r is Err <==> lookup_constant(old(self)@.frames, name@) is Some,
            r matches Err(e) ==> e.name@ == name@ && final(self)@ == old(self)@,
            r is Ok ==> final(self)@.methods == old(self)@.methods,
            r is Ok && old(self)@.frames.len() == 0 ==> final(self)@.frames == old(self)@.frames,
            r is Ok && old(self)@.frames.len() > 0 ==> final(self)@.frames == old(self)@.frames.update(
                old(self)@.frames.len() - 1,
                frame_with_variable(
                    old(self)@.frames.last(),
                    name@,
                    BindingV { type_id: opt_view(type_id), mutable },
                ),
            ),
    {
        let name = String::from_str(name);
        if self.get_constant(&name).is_some() {
            return Err(VariableAddError { name });
        }
        proof {
            lemma_view_frames(self.stacks@);
        }
        let n = self.stacks.len();
        if n > 0 {
            let ghost before = self.stacks@;
            self.stacks[n - 1].push_variable(name, Binding { type_id, mutable });
            proof {
                lemma_view_frames_update(before, n - 1, self.stacks@[n - 1]);
                assert(self.stacks@ == before.update(n - 1, self.stacks@[n - 1]));
            }
        }
        Ok(())
    }

    /// Give the innermost binding of a variable a known type. A binding whose type is already
    /// known keeps it: another type is refused as a mismatch, with the known type expected.
    pub fn update_variable(&mut self, name: &str, type_id: Type) -> (r: Result<
        (),
        crate::typechecker::error::TypeCheckError,
    >)
        requires
            lookup_variable(old(self)@.frames, name@) is Some,
        ensures
            known_otherwise(old(self)@.frames, name@, type_id@) ==> (r matches Err(
                crate::typechecker::error::TypeCheckError::TypeMismatch(m, _),
            ) && m.expected@ == lookup_variable(old(self)@.frames, name@).unwrap().type_id.unwrap()
                && m.actual@ == type_id@ && final(self)@ == old(self)@),
            !known_otherwise(old(self)@.frames, name@, type_id@) ==> r is Ok,
            r is Ok ==> final(self)@.methods == old(self)@.methods,
            r is Ok ==> final(self)@.frames == old(self)@.frames.update(
                variable_frame(old(self)@.frames, name@),
                frame_with_variable(
                    old(self)@.frames[variable_frame(old(self)@.frames, name@)],
                    name@,
                    BindingV {
                        type_id: Some(type_id@),
                        mutable: lookup_variable(old(self)@.frames, name@).unwrap().mutable,
                    },
                ),
            ),
    {
        let name = String::from_str(name);
        proof {
            lemma_view_frames(self.stacks@);
        }
        match self.find_variable_frame(&name) {
            Some((k, i)) => {
                let mutable = self.stacks[k].variables[i].1.mutable;
                match &self.stacks[k].variables[i].1.type_id {
                    Some(current) => {
                        if !current.type_eq(&type_id) {
                            return Err(
                                crate::typechecker::error::TypeCheckError::TypeMismatch(
                                    crate::typechecker::error::TypeMismatch {
                                        expected: current.clone(),
                                        actual: type_id,
                                    },
                                    crate::lexer::Span { start: 0, end: 0 },
                                ),
                            );
                        }
                    },
                    None => {},
                }
                let ghost before = self.stacks@;
                self.stacks[k].push_variable(name, Binding { type_id: Some(type_id), mutable });
                proof {
                    lemma_view_frames_update(before, k as int, self.stacks@[k as int]);
                    assert(self.stacks@ == before.update(k as int, self.stacks@[k as int]));
                }
            },
            None => {},
        }
        Ok(())
    }

    /// Define a type in the innermost frame. It is refused when that frame already defines
    /// the name.
    pub fn add_type(&mut self, name: &str, type_id: Type) -> (r: Result<(), TypeAddError>)
        requires
            old(self)@.frames.len() > 0,
        ensures
            r is Err <==> old(self)@.frames.last().types.contains_key(name@),
            r matches Err(e) ==> e.name@ == name@ && e.type_id@ == type_id@ && final(self)@ == old(
                self,
            )@,
            r is Ok ==> final(self)@.methods == old(self)@.methods && final(self)@.frames == old(
                self,
            )@.frames.update(
                old(self)@.frames.len() - 1,
                frame_with_type(old(self)@.frames.last(), name@, type_id@),
            ),
    {
        let name = String::from_str(name);
        proof {
            lemma_view_frames(self.stacks@);
        }
        let n = self.stacks.len();
        assert(old(self)@.frames.last() == self.stacks@[n - 1].view_frame());
        if find_named(&self.stacks[n - 1].types, &name).is_some() {
            return Err(TypeAddError { name, type_id });
        }
        let ghost before = self.stacks@;
        self.stacks[n - 1].push_type(name, type_id);
        proof {
            lemma_view_frames_update(before, n - 1, self.stacks@[n - 1]);
            assert(self.stacks@ == before.update(n - 1, self.stacks@[n - 1]));
        }
        Ok(())
    }

    /// Define a constant in the innermost frame. It is refused when the name resolves to a
    /// constant or a variable.
    pub fn add_constant(&mut self, name: &str, type_id: Type) -> (r: Result<(), VariableAddError>)
        requires
            old(self)@.frames.len() > 0,
        ensures
            r is Err <==> resolve(old(self)@.frames, name@) is Some,
            r matches Err(e) ==> e.name@ == name@ && final(self)@ == old(self)@,
            r is Ok ==> final(self)@.methods == old(self)@.methods && final(self)@.frames == old(
                self,
            )@.frames.update(
                old(self)@.frames.len() - 1,
                frame_with_constant(old(self)@.frames.last(), name@, type_id@),
            ),
    {
        if self.resolve_name(name).is_some() {
            return Err(VariableAddError { name: String::from_str(name) });
        }
        let name = String::from_str(name);
        proof {
            lemma_view_frames(self.stacks@);
        }
        let n = self.stacks.len();
        let ghost before = self.stacks@;
        self.stacks[n - 1].push_constant(name, type_id);
        proof {
            lemma_view_frames_update(before, n - 1, self.stacks@[n - 1]);
            assert(self.stacks@ == before.update(n - 1, self.stacks@[n - 1]));
        }
        Ok(())
    }

    /// Attach a method to a type. It is refused when the type is a struct with a field of that
    /// name, or already has a method of that name.
    pub fn add_method_to_type(&mut self, type_id: Type, method_name: &str, method_type: Type) -> (r:
        Result<(), MethodAddError>)
        requires
            method_type@ is Function,
        ensures
            r is Err <==> (property_of(Map::empty(), type_id@, method_name@) is Some || (old(
                self,
            )@.methods.contains_key(type_id@) && old(self)@.methods[type_id@].contains_key(
                method_name@,
            ))),
            r matches Err(e) ==> e.name@ == method_name@ && final(self)@ == old(self)@,
            r is Ok ==> final(self)@.frames == old(self)@.frames && final(self)@.methods == old(
                self,
            )@.methods.insert(
                type_id@,
                (if old(self)@.methods.contains_key(type_id@) {
                    old(self)@.methods[type_id@]
                } else {
                    Map::empty()
                }).insert(method_name@, method_type@),
            ),
    {
        let name = String::from_str(method_name);
        match &type_id {
            Type::Struct(_, fields) => {
                if find_field(fields, &name).is_some() {
                    return Err(MethodAddError { name });
                }
            },
            _ => {},
        }
        let mut table: Vec<(String, Type)> = match find_methods(&self.methods, &type_id) {
            Some(i) => clone_named_types(&self.methods[i].1),
            None => {
                let t: Vec<(String, Type)> = Vec::new();
                assert(type_map(t@) =~= Map::empty());
                t
            },
        };
        if find_named(&table, &name).is_some() {
            return Err(MethodAddError { name });
        }
        let ghost before_table = table@;
        table.push((name, method_type));
        proof {
            assert(table@.drop_last() =~= before_table);
        }
        let ghost before = self.methods@;
        self.methods.push((type_id, table));
        proof {
            assert(self.methods@.drop_last() =~= before);
        }
        Ok(())
    }

    /// A property of a type: a field of a struct type first, else a method of the type.
    pub fn resolve_property_for_type(&self, type_id: &Type, property: &str) -> (r: Option<Type>)
        ensures
            opt_view(r) == property_of(self@.methods, type_id@, property@),
    {
        let name = String::from_str(property);
        match type_id {
            Type::Struct(_, fields) => match find_field(fields, &name) {
                Some(i) => {
                    return Some(fields[i].1.clone());
                },
                None => {},
            },
            _ => {},
        }
        match find_methods(&self.methods, type_id) {
            Some(i) => match find_named(&self.methods[i].1, &name) {
                Some(j) => Some(self.methods[i].1[j].1.clone()),
                None => None,
            },
            None => None,
        }
    }
}

/// A variable bound in the innermost frame is what its name resolves to, as long as no
/// constant has that name.
pub proof fn law_bound_variable_resolves(frames: Seq<FrameV>, name: Seq<char>, b: BindingV)
    requires
        frames.len() > 0,
        lookup_constant(frames, name) is None,
    ensures
        ({
            let after = frames.update(
                frames.len() - 1,
                frame_with_variable(frames.last(), name, b),
            );
            &&& lookup_variable(after, name) == Some(b)
            &&& resolve(after, name) == Some(b.type_id)
        }),
{
    let after = frames.update(frames.len() - 1, frame_with_variable(frames.last(), name, b));
    assert(after.drop_last() =~= frames.drop_last());
    lemma_lookup_constant_frames(frames, after, name);
}

proof fn lemma_lookup_constant_frames(a: Seq<FrameV>, b: Seq<FrameV>, name: Seq<char>)
    requires
        a.len() == b.len(),
        forall|i: int| 0 <= i < a.len() ==> #[trigger] a[i].constants == b[i].constants,
    ensures
        lookup_constant(a, name) == lookup_constant(b, name),
    decreases a.len(),
{
    if a.len() > 0 {
        assert forall|i: int| 0 <= i < a.len() - 1 implies #[trigger] a.drop_last()[i].constants
            == b.drop_last()[i].constants by {
            assert(a.drop_last()[i] == a[i]);
            assert(b.drop_last()[i] == b[i]);
        }
        lemma_lookup_constant_frames(a.drop_last(), b.drop_last(), name);
        assert(a.last().constants == b.last().constants);
    }
}

/// Entering a scope hides nothing: every name resolves as it did before.
pub proof fn law_entering_hides_nothing(frames: Seq<FrameV>, name: Seq<char>)
    ensures
        lookup_variable(frames.push(empty_frame()), name) == lookup_variable(frames, name),
        lookup_constant(frames.push(empty_frame()), name) == lookup_constant(frames, name),
        lookup_type(frames.push(empty_frame()), name) == lookup_type(frames, name),
        resolve(frames.push(empty_frame()), name) == resolve(frames, name),
{
    assert(frames.push(empty_frame()).drop_last() =~= frames);
}

/// Leaving a scope forgets what was bound in it: after entering, binding a variable and
/// leaving again, the frames are those from before.
pub proof fn law_leaving_forgets(frames: Seq<FrameV>, name: Seq<char>, b: BindingV)
    ensures
        ({
            let inner = frames.push(empty_frame());
            inner.update(inner.len() - 1, frame_with_variable(inner.last(), name, b)).drop_last()
        }) == frames,
{
    let inner = frames.push(empty_frame());
    assert(inner.update(inner.len() - 1, frame_with_variable(inner.last(), name, b)).drop_last()
        =~= frames);
}

/// A type defined in the innermost frame is what its name resolves to.
pub proof fn law_defined_type_resolves(frames: Seq<FrameV>, name: Seq<char>, t: TypeV)
    requires
        frames.len() > 0,
    ensures
        lookup_type(
            frames.update(frames.len() - 1, frame_with_type(frames.last(), name, t)),
            name,
        ) == Some(t),
{
}

/// A constant defined in the innermost frame is what its name resolves to.
pub proof fn law_defined_constant_resolves(frames: Seq<FrameV>, name: Seq<char>, t: TypeV)
    requires
        frames.len() > 0,
    ensures
        resolve(
            frames.update(frames.len() - 1, frame_with_constant(frames.last(), name, t)),
            name,
        ) == Some(Some(t)),
{
}

/// A method attached to a type that is not a struct with a field of that name is a property
/// of the type.
pub proof fn law_attached_method_resolves(
    methods: Map<TypeV, Map<Seq<char>, TypeV>>,
    t: TypeV,
    name: Seq<char>,
    m: TypeV,
)
    requires
        property_of(Map::empty(), t, name) is None,
    ensures
        property_of(
            methods.insert(
                t,
                (if methods.contains_key(t) {
                    methods[t]
                } else {
                    Map::empty()
                }).insert(name, m),
            ),
            t,
            name,
        ) == Some(m),
{
}

} // verus!
