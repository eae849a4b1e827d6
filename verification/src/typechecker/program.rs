//! Checking whole programs: signatures first, then every top level statement, then `main`.
use vstd::prelude::*;
use vstd::string::StringExecFns;

use crate::lexer::Span;
use crate::parser::ast::{
    Constant, Declaration, Function, Instance, MethodDeclaration, StructDeclaration,
    StructFieldDeclaration,
    TopLevelStatement, TypeName, TypeNameView, clone_type_names, view_names, Id,
};
use crate::typechecker::check::{
    body_fits, check_constant, check_declaration, check_function, check_struct_declaration,
    function_rule, signature_checks,
    parameter_type_names, ty, RECHECK_BUDGET,
};
use crate::typechecker::context::Context;
use crate::typechecker::error::{
    InvalidConstantType, InvalidMainSignature, MissingMainFunction, RedefinedConstant,
    RedefinedFunction, RedefinedMethod, TypeCheckError, UndefinedType,
};
use crate::typechecker::scope::{
    FrameV, ScopeV, frame_with_constant, frame_with_type, keeps_definitions,
    lemma_keeps_definitions_lookups, lookup_constant, lookup_type, lookup_variable, resolve,
};
use crate::typechecker::types::{
    Type, TypeV, is_undefined_type_error, lemma_resolve_names_prefix_error,
    lemma_resolve_type_name_same_types, lemma_resolve_type_names_same_types, lemma_view_types,
    lemma_view_fields, opt_view, resolve_type_name, resolve_type_names, view_fields, view_types,
};
use crate::typechecker::TypeInformation;

verus! {

/// The type of a function's signature, where all its type names resolve in the frames.
pub open spec fn signature_type(f: Function<()>, frames: Seq<FrameV>) -> Option<TypeV> {
    match resolve_type_names(parameter_type_names(f.parameters@), frames) {
        Ok(ps) => match resolve_type_name(f.return_type@, frames) {
            Ok(rt) => Some(TypeV::Function(ps, Box::new(rt))),
            Err(_) => None,
        },
        Err(_) => None,
    }
}

/// The function type name that a method declaration states.
pub open spec fn method_type_name(m: MethodDeclaration<()>) -> TypeNameView {
    TypeNameView::Fn(view_names(m.parameter_types@), Box::new(m.return_type@), m.position)
}

/// A scope with a constant bound in its innermost frame.
pub open spec fn with_constant(s: ScopeV, name: Seq<char>, t: TypeV) -> ScopeV {
    ScopeV {
        frames: s.frames.update(s.frames.len() - 1, frame_with_constant(s.frames.last(), name, t)),
        methods: s.methods,
    }
}

/// Whether the type names of all fields resolve in the frames.
pub open spec fn fields_resolve(fs: Seq<StructFieldDeclaration<()>>, frames: Seq<FrameV>) -> bool {
    forall|j: int| 0 <= j < fs.len() ==> resolve_type_name(#[trigger] fs[j].type_annotation@, frames) is Ok
}

/// The fields of a struct declaration with the types their names resolve to in the frames.
pub open spec fn resolved_fields(fs: Seq<StructFieldDeclaration<()>>, frames: Seq<FrameV>) -> Seq<
    (Seq<char>, TypeV),
> {
    Seq::new(
        fs.len(),
        |j: int| (fs[j].name.name@, resolve_type_name(fs[j].type_annotation@, frames)->Ok_0),
    )
}

/// The method of a type with the given name, among the methods in scope.
pub open spec fn method_of(methods: Map<TypeV, Map<Seq<char>, TypeV>>, t: TypeV, name: Seq<char>) -> Option<
    TypeV,
> {
    if methods.contains_key(t) && methods[t].contains_key(name) {
        Some(methods[t][name])
    } else {
        None
    }
}

/// A scope with a type defined in its innermost frame.
pub open spec fn with_type(s: ScopeV, name: Seq<char>, t: TypeV) -> ScopeV {
    ScopeV {
        frames: s.frames.update(s.frames.len() - 1, frame_with_type(s.frames.last(), name, t)),
        methods: s.methods,
    }
}

/// What binding a function's signature does to a scope, and when it fails.
pub open spec fn function_bound(
    f: Function<()>,
    before: ScopeV,
    after: ScopeV,
    r: Result<(), TypeCheckError>,
) -> bool {
    &&& match signature_type(f, before.frames) {
        None => r matches Err(e) && e is UndefinedType,
        Some(t) => if resolve(before.frames, f.id.name@) is Some {
            r matches Err(e) && e is RedefinedFunction
        } else {
            r is Ok && after == with_constant(before, f.id.name@, t)
        },
    }
    &&& after.frames.len() == before.frames.len()
}

/// What binding a top level constant does to a scope, and when it fails.
pub open spec fn constant_bound(
    c: Constant<()>,
    before: ScopeV,
    after: ScopeV,
    r: Result<(), TypeCheckError>,
) -> bool {
    &&& match resolve_type_name(c.type_annotation@, before.frames) {
        Err(_) => r matches Err(e) && e is InvalidConstantType,
        Ok(t) => if resolve(before.frames, c.id.name@) is Some {
            r matches Err(e) && e is RedefinedConstant
        } else {
            r is Ok && after == with_constant(before, c.id.name@, t)
        },
    }
    &&& after.frames.len() == before.frames.len()
}

/// What binding a declared name does to a scope, and when it fails.
pub open spec fn declaration_bound(
    d: Declaration<()>,
    before: ScopeV,
    after: ScopeV,
    r: Result<(), TypeCheckError>,
) -> bool {
    &&& match resolve_type_name(d.type_annotation@, before.frames) {
        Err(_) => r matches Err(e) && e is UndefinedType,
        Ok(t) => if resolve(before.frames, d.name.name@) is Some {
            r matches Err(e) && e is RedefinedConstant
        } else {
            r is Ok && after == with_constant(before, d.name.name@, t)
        },
    }
    &&& after.frames.len() == before.frames.len()
}

/// What defining a struct type does to a scope, and when it fails.
pub open spec fn struct_bound(
    d: StructDeclaration<()>,
    before: ScopeV,
    after: ScopeV,
    r: Result<(), TypeCheckError>,
) -> bool {
    &&& r is Ok <==> fields_resolve(d.fields@, before.frames)
    &&& r is Err ==> (r matches Err(e) && e is UndefinedType) && after == before
    &&& r is Ok ==> if before.frames.last().types.contains_key(d.id.name@) {
        after == before
    } else {
        after == with_type(
            before,
            d.id.name@,
            TypeV::Struct(d.id.name@, resolved_fields(d.fields@, before.frames)),
        )
    }
    &&& after.frames.len() == before.frames.len()
}

/// What attaching the methods of an instance does to a scope, and when it fails.
pub open spec fn instance_bound(
    i: Instance<()>,
    before: ScopeV,
    after: ScopeV,
    r: Result<(), TypeCheckError>,
) -> bool {
    &&& after.frames == before.frames
    &&& resolve_type_name(i.name@, before.frames) matches Err(bad) ==> r matches Err(e)
        && is_undefined_type_error(e, bad)
    &&& r is Ok ==> resolve_type_name(i.name@, before.frames) is Ok
    &&& r is Ok ==> forall|k: int|
        0 <= k < i.functions@.len() ==> signature_type(
            #[trigger] i.functions@[k],
            before.frames,
        ) is Some && method_of(
            after.methods,
            resolve_type_name(i.name@, before.frames)->Ok_0,
            i.functions@[k].id.name@,
        ) == signature_type(i.functions@[k], before.frames)
    &&& r is Ok ==> forall|k: int|
        0 <= k < i.declarations@.len() ==> resolve_type_name(
            method_type_name(#[trigger] i.declarations@[k]),
            before.frames,
        ) is Ok && method_of(
            after.methods,
            resolve_type_name(i.name@, before.frames)->Ok_0,
            i.declarations@[k].id.name@,
        ) == Some(
            resolve_type_name(method_type_name(i.declarations@[k]), before.frames)->Ok_0,
        )
}

impl Function<()> {
    /// The type of the function's signature: its parameter types and return type.
    pub fn simple_shallow_check(&self, ctx: &Context) -> (r: Result<Type, TypeCheckError>)
        ensures
            match signature_type(*self, ctx@.frames) {
                Some(t) => r matches Ok(v) && v@ == t,
                None => r matches Err(e) && e is UndefinedType,
            },
    {
        let ghost names = parameter_type_names(self.parameters@);
        let mut param_types: Vec<Type> = Vec::new();
        let mut k: usize = 0;
        while k < self.parameters.len()
            invariant
                k <= self.parameters@.len(),
                names == parameter_type_names(self.parameters@),
                resolve_type_names(names.take(k as int), ctx@.frames) == Ok::<
                    Seq<TypeV>,
                    TypeNameView,
                >(view_types(param_types@)),
            decreases self.parameters.len() - k,
        {
            let annotation = &self.parameters[k].type_annotation;
            proof {
                assert(names.take(k + 1).drop_last() =~= names.take(k as int));
                assert(names.take(k + 1).last() == annotation@);
            }
            match Type::from_type_name(annotation, ctx) {
                Ok(t) => {
                    proof {
                        assert(param_types@.push(t).drop_last() =~= param_types@);
                    }
                    param_types.push(t);
                },
                Err(_) => {
                    proof {
                        lemma_resolve_names_prefix_error(names, k + 1, ctx@.frames);
                    }
                    return Err(
                        TypeCheckError::UndefinedType(
                            UndefinedType { type_annotation: annotation.clone() },
                            annotation.position(),
                        ),
                    );
                },
            }
            k = k + 1;
        }
        proof {
            assert(names.take(self.parameters@.len() as int) =~= names);
        }
        let return_type = match Type::from_type_name(&self.return_type, ctx) {
            Ok(t) => t,
            Err(_) => {
                return Err(
                    TypeCheckError::UndefinedType(
                        UndefinedType { type_annotation: self.return_type.clone() },
                        self.return_type.position(),
                    ),
                );
            },
        };
        Ok(Type::Function { params: param_types, return_value: Box::new(return_type) })
    }

    /// Bind the function's name, as a constant of its signature type, in the innermost frame.
    pub fn shallow_check(&self, ctx: &mut Context) -> (r: Result<(), TypeCheckError>)
        requires
            old(ctx)@.frames.len() > 0,
        ensures
            match signature_type(*self, old(ctx)@.frames) {
                None => r matches Err(e) && e is UndefinedType,
                Some(t) => if resolve(old(ctx)@.frames, self.id.name@) is Some {
                    r matches Err(e) && e is RedefinedFunction
                } else {
                    r is Ok && final(ctx)@ == with_constant(old(ctx)@, self.id.name@, t)
                },
            },
            final(ctx)@.frames.len() == old(ctx)@.frames.len(),
            function_bound(*self, old(ctx)@, final(ctx)@, r),
    {
        let type_id = match self.simple_shallow_check(&*ctx) {
            Ok(t) => t,
            Err(e) => {
                return Err(e);
            },
        };
        if ctx.scope.add_constant(self.id.name.as_str(), type_id).is_err() {
            return Err(
                TypeCheckError::RedefinedFunction(
                    RedefinedFunction { function_name: self.id.name.clone() },
                    self.position,
                ),
            );
        }
        Ok(())
    }
}

impl MethodDeclaration<()> {
    /// The function type the declaration states.
    pub fn simple_shallow_check(&self, ctx: &Context) -> (r: Result<Type, TypeCheckError>)
        ensures
            match resolve_type_name(method_type_name(*self), ctx@.frames) {
                Ok(t) => r matches Ok(v) && v@ == t && t is Function,
                Err(bad) => r matches Err(e) && is_undefined_type_error(e, bad),
            },
    {
        let function_type = TypeName::Fn {
            params: clone_type_names(&self.parameter_types),
            return_type: Box::new(self.return_type.clone()),
            position: self.position,
        };
        Type::from_type_name(&function_type, ctx)
    }

    /// Bind the declared name, as a constant of the declared type, in the innermost frame.
    pub fn shallow_check(&self, ctx: &mut Context) -> (r: Result<(), TypeCheckError>)
        requires
            old(ctx)@.frames.len() > 0,
        ensures
            match resolve_type_name(method_type_name(*self), old(ctx)@.frames) {
                Err(bad) => r matches Err(e) && is_undefined_type_error(e, bad),
                Ok(t) => if resolve(old(ctx)@.frames, self.id.name@) is Some {
                    r matches Err(e) && e is RedefinedFunction
                } else {
                    r is Ok && final(ctx)@ == with_constant(old(ctx)@, self.id.name@, t)
                },
            },
            final(ctx)@.frames.len() == old(ctx)@.frames.len(),
    {
        let type_id = match self.simple_shallow_check(&*ctx) {
            Ok(t) => t,
            Err(e) => {
                return Err(e);
            },
        };
        if ctx.scope.add_constant(self.id.name.as_str(), type_id).is_err() {
            return Err(
                TypeCheckError::RedefinedFunction(
                    RedefinedFunction { function_name: self.id.name.clone() },
                    self.position,
                ),
            );
        }
        Ok(())
    }

    /// Check a method declaration: its name gets the declared function type.
    pub fn check(self, ctx: &mut Context) -> (r: Result<MethodDeclaration<TypeInformation>, TypeCheckError>)
        ensures
            r matches Ok(m) ==> m.position == self.position && ty(m.info) == Some(TypeV::Void),
            match resolve_type_name(method_type_name(self), old(ctx)@.frames) {
                Ok(t) => r matches Ok(m) && ty(m.id.info) == Some(t),
                Err(bad) => r matches Err(e) && is_undefined_type_error(e, bad),
            },
            final(ctx)@ == old(ctx)@,
    {
        let context = ctx.clone();
        let type_id = match self.simple_shallow_check(ctx) {
            Ok(t) => t,
            Err(e) => {
                return Err(e);
            },
        };
        let MethodDeclaration { id, parameter_types, return_type, position, .. } = self;
        let Id { name, position: id_position, .. } = id;
        Ok(
            MethodDeclaration {
                id: Id {
                    name,
                    info: TypeInformation { type_id: Some(type_id), context: context.clone() },
                    position: id_position,
                },
                parameter_types,
                return_type,
                info: TypeInformation { type_id: Some(Type::Void), context },
                position,
            },
        )
    }
}

impl Constant<()> {
    /// Bind the constant, with its annotated type, in the innermost frame.
    pub fn shallow_check(&self, ctx: &mut Context) -> (r: Result<(), TypeCheckError>)
        requires
            old(ctx)@.frames.len() > 0,
        ensures
            match resolve_type_name(self.type_annotation@, old(ctx)@.frames) {
                Err(_) => r matches Err(e) && e is InvalidConstantType,
                Ok(t) => if resolve(old(ctx)@.frames, self.id.name@) is Some {
                    r matches Err(e) && e is RedefinedConstant
                } else {
                    r is Ok && final(ctx)@ == with_constant(old(ctx)@, self.id.name@, t)
                },
            },
            final(ctx)@.frames.len() == old(ctx)@.frames.len(),
            constant_bound(*self, old(ctx)@, final(ctx)@, r),
    {
        let type_id = match Type::from_type_name(&self.type_annotation, ctx) {
            Ok(t) => t,
            Err(_) => {
                return Err(
                    TypeCheckError::InvalidConstantType(
                        InvalidConstantType { constant_name: self.id.name.clone() },
                        self.type_annotation.position(),
                    ),
                );
            },
        };
        if ctx.scope.add_constant(self.id.name.as_str(), type_id).is_err() {
            return Err(
                TypeCheckError::RedefinedConstant(
                    RedefinedConstant { constant_name: self.id.name.clone() },
                    self.id.position,
                ),
            );
        }
        Ok(())
    }
}

impl Declaration<()> {
    /// Bind the declared name, with its type, as a constant in the innermost frame.
    pub fn shallow_check(&self, ctx: &mut Context) -> (r: Result<(), TypeCheckError>)
        requires
            old(ctx)@.frames.len() > 0,
        ensures
            match resolve_type_name(self.type_annotation@, old(ctx)@.frames) {
                Err(_) => r matches Err(e) && e is UndefinedType,
                Ok(t) => if resolve(old(ctx)@.frames, self.name.name@) is Some {
                    r matches Err(e) && e is RedefinedConstant
                } else {
                    r is Ok && final(ctx)@ == with_constant(old(ctx)@, self.name.name@, t)
                },
            },
            final(ctx)@.frames.len() == old(ctx)@.frames.len(),
            declaration_bound(*self, old(ctx)@, final(ctx)@, r),
    {
        let type_id = match Type::from_type_name(&self.type_annotation, ctx) {
            Ok(t) => t,
            Err(_) => {
                return Err(
                    TypeCheckError::UndefinedType(
                        UndefinedType { type_annotation: self.type_annotation.clone() },
                        self.type_annotation.position(),
                    ),
                );
            },
        };
        if ctx.scope.add_constant(self.name.name.as_str(), type_id).is_err() {
            return Err(
                TypeCheckError::RedefinedConstant(
                    RedefinedConstant { constant_name: self.name.name.clone() },
                    self.name.position,
                ),
            );
        }
        Ok(())
    }
}

impl StructDeclaration<()> {
    /// Define the struct type, with the types of its fields, in the innermost frame; a type
    /// that is defined there already stays as it is.
    pub fn shallow_check(&self, ctx: &mut Context) -> (r: Result<(), TypeCheckError>)
        requires
            old(ctx)@.frames.len() > 0,
        ensures
            r is Ok <==> fields_resolve(self.fields@, old(ctx)@.frames),
            r is Err ==> (r matches Err(e) && e is UndefinedType) && final(ctx)@ == old(ctx)@,
            r is Ok ==> if old(ctx)@.frames.last().types.contains_key(self.id.name@) {
                final(ctx)@ == old(ctx)@
            } else {
                final(ctx)@ == with_type(
                    old(ctx)@,
                    self.id.name@,
                    TypeV::Struct(self.id.name@, resolved_fields(self.fields@, old(ctx)@.frames)),
                )
            },
            final(ctx)@.frames.len() == old(ctx)@.frames.len(),
            struct_bound(*self, old(ctx)@, final(ctx)@, r),
    {
        let mut field_types: Vec<(String, Type)> = Vec::new();
        let mut k: usize = 0;
        while k < self.fields.len()
            invariant
                k <= self.fields@.len(),
                field_types@.len() == k,
                forall|j: int|
                    0 <= j < k ==> #[trigger] field_types@[j].0@ == self.fields@[j].name.name@
                        && resolve_type_name(self.fields@[j].type_annotation@, ctx@.frames) == Ok::<
                        TypeV,
                        TypeNameView,
                    >(field_types@[j].1@),
            decreases self.fields.len() - k,
        {
            let field = &self.fields[k];
            match Type::from_type_name(&field.type_annotation, ctx) {
                Ok(t) => field_types.push((field.name.name.clone(), t)),
                Err(_) => {
                    return Err(
                        TypeCheckError::UndefinedType(
                            UndefinedType { type_annotation: field.type_annotation.clone() },
                            field.type_annotation.position(),
                        ),
                    );
                },
            }
            k = k + 1;
        }
        proof {
            lemma_view_fields(field_types@);
            assert(view_fields(field_types@) =~= resolved_fields(self.fields@, ctx@.frames));
            assert forall|j: int| 0 <= j < self.fields@.len() implies resolve_type_name(
                #[trigger] self.fields@[j].type_annotation@,
                ctx@.frames,
            ) is Ok by {
                assert(field_types@[j].0@ == self.fields@[j].name.name@);
            }
        }
        let type_id = Type::Struct(self.id.name.clone(), field_types);
        let _ = ctx.scope.add_type(self.id.name.as_str(), type_id);
        Ok(())
    }
}

impl Instance<()> {
    /// Attach the signature of every function and method declaration of the instance to the
    /// type it is for.
    pub fn shallow_check(&self, ctx: &mut Context) -> (r: Result<(), TypeCheckError>)
        requires
            old(ctx)@.frames.len() > 0,
        ensures
            final(ctx)@.frames == old(ctx)@.frames,
            resolve_type_name(self.name@, old(ctx)@.frames) matches Err(bad) ==> r matches Err(e)
                && is_undefined_type_error(e, bad),
            r is Ok ==> resolve_type_name(self.name@, old(ctx)@.frames) is Ok,
            r is Ok ==> forall|k: int|
                0 <= k < self.functions@.len() ==> signature_type(
                    #[trigger] self.functions@[k],
                    old(ctx)@.frames,
                ) is Some && method_of(
                    final(ctx)@.methods,
                    resolve_type_name(self.name@, old(ctx)@.frames)->Ok_0,
                    self.functions@[k].id.name@,
                ) == signature_type(self.functions@[k], old(ctx)@.frames),
            r is Ok ==> forall|k: int|
                0 <= k < self.declarations@.len() ==> resolve_type_name(
                    method_type_name(#[trigger] self.declarations@[k]),
                    old(ctx)@.frames,
                ) is Ok && method_of(
                    final(ctx)@.methods,
                    resolve_type_name(self.name@, old(ctx)@.frames)->Ok_0,
                    self.declarations@[k].id.name@,
                ) == Some(
                    resolve_type_name(method_type_name(self.declarations@[k]), old(ctx)@.frames)->Ok_0,
                ),
            instance_bound(*self, old(ctx)@, final(ctx)@, r),
    {
        let type_id = match Type::from_type_name(&self.name, ctx) {
            Ok(t) => t,
            Err(e) => {
                return Err(e);
            },
        };
        let ghost t = type_id@;
        let mut k: usize = 0;
        while k < self.functions.len()
            invariant
                ctx@.frames == old(ctx)@.frames,
                type_id@ == t,
                resolve_type_name(self.name@, old(ctx)@.frames) == Ok::<TypeV, TypeNameView>(t),
                k <= self.functions@.len(),
                forall|j: int|
                    0 <= j < k ==> signature_type(#[trigger] self.functions@[j], old(ctx)@.frames)
                        is Some && method_of(ctx@.methods, t, self.functions@[j].id.name@)
                        == signature_type(self.functions@[j], old(ctx)@.frames),
            decreases self.functions.len() - k,
        {
            let function = &self.functions[k];
            let function_type = match function.simple_shallow_check(ctx) {
                Ok(f) => f,
                Err(e) => {
                    return Err(e);
                },
            };
            if ctx.scope.add_method_to_type(type_id.clone(), function.id.name.as_str(), function_type).is_err() {
                return Err(
                    TypeCheckError::RedefinedMethod(
                        RedefinedMethod {
                            type_id,
                            function_name: function.id.name.clone(),
                        },
                        function.position,
                    ),
                );
            }
            k = k + 1;
        }
        let mut k: usize = 0;
        while k < self.declarations.len()
            invariant
                ctx@.frames == old(ctx)@.frames,
                type_id@ == t,
                resolve_type_name(self.name@, old(ctx)@.frames) == Ok::<TypeV, TypeNameView>(t),
                k <= self.declarations@.len(),
                forall|j: int|
                    0 <= j < self.functions@.len() ==> signature_type(
                        #[trigger] self.functions@[j],
                        old(ctx)@.frames,
                    ) is Some && method_of(ctx@.methods, t, self.functions@[j].id.name@)
                        == signature_type(self.functions@[j], old(ctx)@.frames),
                forall|j: int|
                    0 <= j < k ==> resolve_type_name(
                        method_type_name(#[trigger] self.declarations@[j]),
                        old(ctx)@.frames,
                    ) is Ok && method_of(ctx@.methods, t, self.declarations@[j].id.name@) == Some(
                        resolve_type_name(method_type_name(self.declarations@[j]), old(ctx)@.frames)->Ok_0,
                    ),
            decreases self.declarations.len() - k,
        {
            let declaration = &self.declarations[k];
            let declaration_type = match declaration.simple_shallow_check(ctx) {
                Ok(d) => d,
                Err(e) => {
                    return Err(e);
                },
            };
            if ctx.scope.add_method_to_type(
                type_id.clone(),
                declaration.id.name.as_str(),
                declaration_type,
            ).is_err() {
                return Err(
                    TypeCheckError::RedefinedMethod(
                        RedefinedMethod {
                            type_id,
                            function_name: declaration.id.name.clone(),
                        },
                        declaration.position,
                    ),
                );
            }
            k = k + 1;
        }
        Ok(())
    }

    /// Check an instance: in a new scope where `this` is a constant of the instance's type,
    /// every function and method declaration. The scope is left as it was.
    pub fn check(self, ctx: &mut Context) -> (r: Result<Instance<TypeInformation>, TypeCheckError>)
        ensures
            r matches Ok(i) ==> i.position == self.position && ty(i.info) == Some(TypeV::Void),
            resolve_type_name(self.name@, old(ctx)@.frames) matches Err(bad) ==> r matches Err(e)
                && is_undefined_type_error(e, bad),
            resolve_type_name(self.name@, old(ctx)@.frames) is Ok && resolve(
                old(ctx)@.frames,
                "this"@,
            ) is Some ==> (r matches Err(e) && e is RedefinedConstant),
            r matches Ok(i) ==> i.functions@.len() == self.functions@.len() && forall|k: int|
                0 <= k < self.functions@.len() ==> function_rule(
                    #[trigger] self.functions@[k],
                    i.functions@[k],
                    old(ctx)@.frames,
                ),
            r matches Ok(i) ==> i.declarations@.len() == self.declarations@.len() && forall|k: int|
                0 <= k < self.declarations@.len() ==> resolve_type_name(
                    method_type_name(#[trigger] self.declarations@[k]),
                    old(ctx)@.frames,
                ) == Ok::<TypeV, TypeNameView>(ty(i.declarations@[k].id.info).unwrap()) && ty(
                    i.declarations@[k].id.info,
                ) is Some,
            r is Ok ==> final(ctx)@ == old(ctx)@,
    {
        let context = ctx.clone();
        let Instance { name, functions, declarations, position, .. } = self;
        let type_id = match Type::from_type_name(&name, ctx) {
            Ok(t) => t,
            Err(e) => {
                return Err(e);
            },
        };
        ctx.scope.enter_scope();
        proof {
            assert(ctx@.frames.drop_last() =~= old(ctx)@.frames);
        }
        if ctx.scope.add_constant("this", type_id).is_err() {
            return Err(
                TypeCheckError::RedefinedConstant(
                    RedefinedConstant { constant_name: String::from_str("this") },
                    position,
                ),
            );
        }
        let ghost inside = ctx@;
        proof {
            assert(inside.frames.drop_last() =~= old(ctx)@.frames);
            assert forall|n: Seq<char>| #[trigger] lookup_type(inside.frames, n) == lookup_type(
                old(ctx)@.frames,
                n,
            ) by {}
        }
        let ghost orig_functions = functions@;
        let mut checked_functions: Vec<Function<TypeInformation>> = Vec::new();
        let mut rest = functions;
        while rest.len() > 0
            invariant
                keeps_definitions(inside, ctx@),
                resolve_type_name(self.name@, old(ctx)@.frames) is Ok,
                resolve(old(ctx)@.frames, "this"@) is None,
                inside.frames.len() == old(ctx)@.frames.len() + 1,
                inside.frames.drop_last() == old(ctx)@.frames,
                inside.methods == old(ctx)@.methods,
                forall|n: Seq<char>| #[trigger] lookup_type(inside.frames, n) == lookup_type(
                    old(ctx)@.frames,
                    n,
                ),
                checked_functions@.len() <= orig_functions.len(),
                rest@ == orig_functions.skip(checked_functions@.len() as int),
                forall|j: int|
                    0 <= j < checked_functions@.len() ==> function_rule(
                        #[trigger] orig_functions[j],
                        checked_functions@[j],
                        old(ctx)@.frames,
                    ),
            decreases rest.len(),
        {
            let ghost k = checked_functions@.len() as int;
            let function = rest.remove(0);
            proof {
                assert(function == orig_functions[k]);
                assert(rest@ =~= orig_functions.skip(k + 1));
            }
            let ghost before = ctx@;
            let checked = check_function(function, ctx, RECHECK_BUDGET)?;
            proof {
                assert forall|n: Seq<char>| #[trigger] lookup_type(before.frames, n) == lookup_type(
                    old(ctx)@.frames,
                    n,
                ) by {
                    lemma_keeps_definitions_lookups(inside, before, n);
                }
                lemma_function_rule_frames(function, checked, before.frames, old(ctx)@.frames);
            }
            checked_functions.push(checked);
        }
        let ghost orig_declarations = declarations@;
        let mut checked_declarations: Vec<MethodDeclaration<TypeInformation>> = Vec::new();
        let mut rest = declarations;
        while rest.len() > 0
            invariant
                keeps_definitions(inside, ctx@),
                resolve_type_name(self.name@, old(ctx)@.frames) is Ok,
                resolve(old(ctx)@.frames, "this"@) is None,
                inside.frames.len() == old(ctx)@.frames.len() + 1,
                inside.frames.drop_last() == old(ctx)@.frames,
                inside.methods == old(ctx)@.methods,
                forall|n: Seq<char>| #[trigger] lookup_type(inside.frames, n) == lookup_type(
                    old(ctx)@.frames,
                    n,
                ),
                checked_declarations@.len() <= orig_declarations.len(),
                rest@ == orig_declarations.skip(checked_declarations@.len() as int),
                forall|j: int|
                    0 <= j < checked_declarations@.len() ==> resolve_type_name(
                        method_type_name(#[trigger] orig_declarations[j]),
                        old(ctx)@.frames,
                    ) == Ok::<TypeV, TypeNameView>(ty(checked_declarations@[j].id.info).unwrap())
                        && ty(checked_declarations@[j].id.info) is Some,
            decreases rest.len(),
        {
            let ghost k = checked_declarations@.len() as int;
            let declaration = rest.remove(0);
            proof {
                assert(declaration == orig_declarations[k]);
                assert(rest@ =~= orig_declarations.skip(k + 1));
                assert forall|n: Seq<char>| #[trigger] lookup_type(ctx@.frames, n) == lookup_type(
                    old(ctx)@.frames,
                    n,
                ) by {
                    lemma_keeps_definitions_lookups(inside, ctx@, n);
                }
                lemma_resolve_type_name_same_types(
                    method_type_name(declaration),
                    ctx@.frames,
                    old(ctx)@.frames,
                );
            }
            let checked = declaration.check(ctx)?;
            checked_declarations.push(checked);
        }
        proof {
            assert(ctx@.frames.drop_last() =~= old(ctx)@.frames);
        }
        ctx.scope.exit_scope();
        proof {
            assert(ctx@.frames =~= old(ctx)@.frames);
        }
        Ok(
            Instance {
                name,
                functions: checked_functions,
                declarations: checked_declarations,
                info: TypeInformation { type_id: Some(Type::Void), context },
                position,
            },
        )
    }
}

/// The rule of a checked function holds in frames that define the same types.
proof fn lemma_function_rule_frames(
    f: Function<()>,
    c: Function<TypeInformation>,
    a: Seq<FrameV>,
    b: Seq<FrameV>,
)
    requires
        function_rule(f, c, a),
        forall|n: Seq<char>| #[trigger] lookup_type(a, n) == lookup_type(b, n),
    ensures
        function_rule(f, c, b),
{
    lemma_resolve_type_names_same_types(parameter_type_names(f.parameters@), a, b);
    lemma_resolve_type_name_same_types(f.return_type@, a, b);
}

impl TopLevelStatement<()> {
    /// Bind what the statement defines before the bodies are checked.
    pub fn shallow_check(&self, ctx: &mut Context) -> (r: Result<(), TypeCheckError>)
        requires
            old(ctx)@.frames.len() > 0,
        ensures
            final(ctx)@.frames.len() == old(ctx)@.frames.len(),
            match *self {
                TopLevelStatement::Comment(_) => r is Ok && final(ctx)@ == old(ctx)@,
                TopLevelStatement::Function(f) => function_bound(f, old(ctx)@, final(ctx)@, r),
                TopLevelStatement::Constant(c) => constant_bound(c, old(ctx)@, final(ctx)@, r),
                TopLevelStatement::Declaration(d) => declaration_bound(d, old(ctx)@, final(ctx)@, r),
                TopLevelStatement::StructDeclaration(d) => struct_bound(d, old(ctx)@, final(ctx)@, r),
                TopLevelStatement::Instance(i) => instance_bound(i, old(ctx)@, final(ctx)@, r),
            },
    {
        match self {
            TopLevelStatement::Comment(_) => Ok(()),
            TopLevelStatement::Function(inner) => inner.shallow_check(ctx),
            TopLevelStatement::Constant(inner) => inner.shallow_check(ctx),
            TopLevelStatement::Declaration(inner) => inner.shallow_check(ctx),
            TopLevelStatement::StructDeclaration(inner) => inner.shallow_check(ctx),
            TopLevelStatement::Instance(inner) => inner.shallow_check(ctx),
        }
    }

    /// Check the statement by the rule of its kind.
    pub fn check(self, ctx: &mut Context) -> (r: Result<TopLevelStatement<TypeInformation>, TypeCheckError>)
        ensures
            r matches Ok(t) ==> (t is Comment <==> self is Comment) && (t is Function <==> self is Function)
                && (t is Instance <==> self is Instance) && (t is Constant <==> self is Constant) && (
                t is Declaration <==> self is Declaration) && (t is StructDeclaration
                <==> self is StructDeclaration),
            r is Ok ==> keeps_definitions(old(ctx)@, final(ctx)@),
            self is Comment ==> r is Ok,
            r matches Ok(TopLevelStatement::Function(c)) ==> function_rule(
                self->Function_0,
                c,
                old(ctx)@.frames,
            ),
            r matches Ok(TopLevelStatement::Constant(x)) ==> ty(x.id.info) is Some
                && resolve_type_name(self->Constant_0.type_annotation@, old(ctx)@.frames) == Ok::<
                TypeV,
                TypeNameView,
            >(ty(x.id.info).unwrap()),
            self matches TopLevelStatement::Declaration(d) ==> (r is Ok <==> resolve_type_name(
                d.type_annotation@,
                old(ctx)@.frames,
            ) is Ok),
            self matches TopLevelStatement::StructDeclaration(d) ==> (r is Ok <==> forall|j: int|
                0 <= j < d.fields@.len() ==> resolve_type_name(
                    #[trigger] d.fields@[j].type_annotation@,
                    old(ctx)@.frames,
                ) is Ok),
            self matches TopLevelStatement::Function(f) ==> (signature_checks(f, old(ctx)@.frames)
                && body_fits(f, old(ctx)@.frames) ==> r is Ok && final(ctx)@ == old(ctx)@),
            self is Comment ==> final(ctx)@ == old(ctx)@,
            self matches TopLevelStatement::Function(f) ==> (f.parameters@.len() == 0
                && resolve_type_name(f.return_type@, old(ctx)@.frames) == Ok::<TypeV, TypeNameView>(
                TypeV::Void,
            ) && f.body.statements@.len() == 0 ==> r is Ok),
    {
        match self {
            TopLevelStatement::Function(f) => Ok(
                TopLevelStatement::Function(check_function(f, ctx, RECHECK_BUDGET)?),
            ),
            TopLevelStatement::Constant(c) => Ok(
                TopLevelStatement::Constant(check_constant(c, ctx, RECHECK_BUDGET)?),
            ),
            TopLevelStatement::Comment(c) => Ok(TopLevelStatement::Comment(c)),
            TopLevelStatement::Declaration(d) => Ok(
                TopLevelStatement::Declaration(check_declaration(d, ctx)?),
            ),
            TopLevelStatement::StructDeclaration(d) => Ok(
                TopLevelStatement::StructDeclaration(check_struct_declaration(d, ctx)?),
            ),
            TopLevelStatement::Instance(i) => Ok(TopLevelStatement::Instance(i.check(ctx)?)),
        }
    }
}

/// Whether a `main` of the given type is rejected for its signature: `main` must not accept
/// any arguments and must return either `void` or an integer.
pub open spec fn main_signature_rejected(params: Seq<TypeV>, return_value: TypeV) -> bool {
    params.len() != 0 || (return_value != TypeV::Void && return_value != TypeV::Integer)
}

/// What the check of `main` gives for what the name `main` resolves to.
pub open spec fn main_rule(main: Option<Option<TypeV>>) -> Result<(), bool> {
    match main {
        Some(Some(TypeV::Function(params, return_value))) => if main_signature_rejected(
            params,
            *return_value,
        ) {
            Err(true)
        } else {
            Ok(())
        },
        _ => Err(false),
    }
}

/// `main` is accepted exactly when it is a function that takes no arguments and returns
/// `void` or an integer; a `main` of another signature is refused for its signature, and a
/// missing `main`, or a `main` that is no function or has no known type, as missing.
pub proof fn law_main_signature(params: Seq<TypeV>, rv: TypeV, other: Option<Option<TypeV>>)
    ensures
        main_rule(Some(Some(TypeV::Function(params, Box::new(rv))))) is Ok <==> params.len() == 0 && (
        rv == TypeV::Void || rv == TypeV::Integer),
        main_rule(Some(Some(TypeV::Function(params, Box::new(rv))))) is Err ==> main_rule(
            Some(Some(TypeV::Function(params, Box::new(rv)))),
        ) == Err::<(), bool>(true),
        !(other matches Some(Some(TypeV::Function(_, _)))) ==> main_rule(other) == Err::<(), bool>(false),
{
}

/// A checked top level statement of the same kind as the statement it was checked from.
pub open spec fn same_kind(s: TopLevelStatement<()>, t: TopLevelStatement<TypeInformation>) -> bool {
    &&& (t is Comment <==> s is Comment)
    &&& (t is Function <==> s is Function)
    &&& (t is Instance <==> s is Instance)
    &&& (t is Constant <==> s is Constant)
    &&& (t is Declaration <==> s is Declaration)
    &&& (t is StructDeclaration <==> s is StructDeclaration)
}

/// Every type name defined in the frames names a struct type.
pub open spec fn only_struct_types(frames: Seq<FrameV>) -> bool {
    forall|x: Seq<char>| #[trigger] lookup_type(frames, x) matches Some(t) ==> t is Struct
}

/// A `main` function that takes no arguments and returns `void` or `i64`.
pub open spec fn valid_main(f: Function<()>) -> bool {
    &&& f.parameters@.len() == 0
    &&& f.return_type@ matches TypeNameView::Literal(x, _)
    &&& x == "void"@ || x == "i64"@
}

/// The type bound to the name of a function has as many parameters as the function, and
/// returns `void` or an integer only where the return type is written `void` or `i64`.
pub open spec fn signature_shape(f: Function<()>, t: TypeV) -> bool {
    &&& t matches TypeV::Function(ps, rt)
    &&& ps.len() == f.parameters@.len()
    &&& *rt == TypeV::Void ==> (f.return_type@ matches TypeNameView::Literal(x, _) && x == "void"@)
    &&& *rt == TypeV::Integer ==> (f.return_type@ matches TypeNameView::Literal(x, _) && x
        == "i64"@)
}

/// Whether a top level statement is a function named `main`.
pub open spec fn is_main_function(s: TopLevelStatement<()>) -> bool {
    s matches TopLevelStatement::Function(f) && f.id.name@ == "main"@
}

proof fn lemma_resolve_type_names_len(ts: Seq<TypeNameView>, frames: Seq<FrameV>)
    ensures
        resolve_type_names(ts, frames) matches Ok(ps) ==> ps.len() == ts.len(),
    decreases ts.len(),
{
    if ts.len() > 0 {
        lemma_resolve_type_names_len(ts.drop_last(), frames);
    }
}

/// The signature of a function, where struct types are the only types defined, has its shape.
proof fn lemma_signature_shape(f: Function<()>, frames: Seq<FrameV>)
    requires
        signature_type(f, frames) is Some,
        only_struct_types(frames),
    ensures
        signature_shape(f, signature_type(f, frames)->Some_0),
{
    lemma_resolve_type_names_len(parameter_type_names(f.parameters@), frames);
    match f.return_type@ {
        TypeNameView::Literal(x, _) => {
            assert(lookup_type(frames, x) matches Some(t) ==> t is Struct);
        },
        _ => {},
    }
}

/// Binding a constant leaves the other constants and all types as they were.
proof fn lemma_with_constant_lookups(s: ScopeV, n: Seq<char>, t: TypeV, m: Seq<char>)
    requires
        s.frames.len() > 0,
    ensures
        lookup_constant(with_constant(s, n, t).frames, m) == if m == n {
            Some(t)
        } else {
            lookup_constant(s.frames, m)
        },
        lookup_type(with_constant(s, n, t).frames, m) == lookup_type(s.frames, m),
{
    assert(with_constant(s, n, t).frames.drop_last() =~= s.frames.drop_last());
}

/// Defining a type leaves the constants and the other types as they were.
proof fn lemma_with_type_lookups(s: ScopeV, n: Seq<char>, t: TypeV, m: Seq<char>)
    requires
        s.frames.len() > 0,
    ensures
        lookup_constant(with_type(s, n, t).frames, m) == lookup_constant(s.frames, m),
        lookup_type(with_type(s, n, t).frames, m) == if m == n {
            Some(t)
        } else {
            lookup_type(s.frames, m)
        },
{
    assert(with_type(s, n, t).frames.drop_last() =~= s.frames.drop_last());
}

/// Binding what a statement other than a struct declaration defines keeps the binding of
/// `main` to a function's signature, and binds it for a function named `main`.
proof fn lemma_bound_keeps_main(
    statements: Seq<TopLevelStatement<()>>,
    k: int,
    before: ScopeV,
    after: ScopeV,
)
    requires
        0 <= k < statements.len(),
        !(statements[k] is StructDeclaration),
        before.frames.len() > 0,
        only_struct_types(before.frames),
        forall|j: int|
            0 <= j < k && #[trigger] is_main_function(statements[j]) ==> (lookup_constant(
                before.frames,
                "main"@,
            ) matches Some(t) && signature_shape(statements[j]->Function_0, t)),
        match statements[k] {
            TopLevelStatement::Comment(_) => after == before,
            TopLevelStatement::Function(f) => function_bound(f, before, after, Ok(())),
            TopLevelStatement::Constant(c) => constant_bound(c, before, after, Ok(())),
            TopLevelStatement::Declaration(d) => declaration_bound(d, before, after, Ok(())),
            TopLevelStatement::StructDeclaration(d) => struct_bound(d, before, after, Ok(())),
            TopLevelStatement::Instance(i) => instance_bound(i, before, after, Ok(())),
        },
    ensures
        only_struct_types(after.frames),
        forall|j: int|
            0 <= j < k + 1 && #[trigger] is_main_function(statements[j]) ==> (lookup_constant(
                after.frames,
                "main"@,
            ) matches Some(t) && signature_shape(statements[j]->Function_0, t)),
{
    let main = "main"@;
    match statements[k] {
        TopLevelStatement::Function(f) => {
            let t = signature_type(f, before.frames)->Some_0;
            lemma_with_constant_lookups(before, f.id.name@, t, main);
            assert forall|x: Seq<char>| #[trigger] lookup_type(after.frames, x) == lookup_type(
                before.frames,
                x,
            ) by {
                lemma_with_constant_lookups(before, f.id.name@, t, x);
            }
            if f.id.name@ == main {
                lemma_signature_shape(f, before.frames);
            }
        },
        TopLevelStatement::Constant(c) => {
            let t = resolve_type_name(c.type_annotation@, before.frames)->Ok_0;
            lemma_with_constant_lookups(before, c.id.name@, t, main);
            assert forall|x: Seq<char>| #[trigger] lookup_type(after.frames, x) == lookup_type(
                before.frames,
                x,
            ) by {
                lemma_with_constant_lookups(before, c.id.name@, t, x);
            }
        },
        TopLevelStatement::Declaration(d) => {
            let t = resolve_type_name(d.type_annotation@, before.frames)->Ok_0;
            lemma_with_constant_lookups(before, d.name.name@, t, main);
            assert forall|x: Seq<char>| #[trigger] lookup_type(after.frames, x) == lookup_type(
                before.frames,
                x,
            ) by {
                lemma_with_constant_lookups(before, d.name.name@, t, x);
            }
        },
        TopLevelStatement::Instance(_) => {
            assert(after.frames == before.frames);
        },
        _ => {},
    }
}

/// Whether one of the top level statements is a function with the given name.
pub open spec fn names_function(statements: Seq<TopLevelStatement<()>>, n: Seq<char>) -> bool {
    exists|k: int| 0 <= k < statements.len() && (#[trigger] statements[k] matches TopLevelStatement::Function(f)
        && f.id.name@ == n)
}

/// The scope after binding the signatures of the functions among the first `k` statements,
/// one after the other.
pub open spec fn bind_functions(statements: Seq<TopLevelStatement<()>>, s: ScopeV, k: int) -> ScopeV
    decreases k,
{
    if k <= 0 || k > statements.len() {
        s
    } else {
        let acc = bind_functions(statements, s, k - 1);
        match statements[k - 1] {
            TopLevelStatement::Function(f) => with_constant(
                acc,
                f.id.name@,
                signature_type(f, acc.frames)->Some_0,
            ),
            _ => acc,
        }
    }
}

/// A function of a program whose check cannot fail in a scope: its name is free, its
/// signature resolves, no parameter has the name of a constant or of a function of the
/// program, and its body fits its return type.
pub open spec fn plain_function(statements: Seq<TopLevelStatement<()>>, f: Function<()>, s: ScopeV) -> bool {
    &&& resolve(s.frames, f.id.name@) is None
    &&& signature_checks(f, s.frames)
    &&& body_fits(f, s.frames)
    &&& forall|k: int|
        0 <= k < f.parameters@.len() ==> !names_function(statements, #[trigger] f.parameters@[k].name.name@)
}

/// A program of comments and functions with distinct names that each check in the scope,
/// among them a `main` that takes nothing and returns `void` or `i64`.
pub open spec fn plain_program(statements: Seq<TopLevelStatement<()>>, s: ScopeV) -> bool {
    &&& forall|k: int|
        0 <= k < statements.len() ==> (#[trigger] statements[k] is Comment || statements[k] is Function)
    &&& forall|k: int|
        0 <= k < statements.len() ==> (#[trigger] statements[k] matches TopLevelStatement::Function(f)
            ==> plain_function(statements, f, s))
    &&& forall|a: int, b: int|
        0 <= a < b < statements.len() && #[trigger] statements[a] is Function && #[trigger] statements[b] is Function
            ==> statements[a]->Function_0.id.name@ != statements[b]->Function_0.id.name@
    &&& exists|k: int|
        0 <= k < statements.len() && #[trigger] is_main_function(statements[k]) && valid_main(
            statements[k]->Function_0,
        )
}

/// Binding function signatures keeps the types, the variables and the constants of other
/// names.
proof fn lemma_bind_functions(statements: Seq<TopLevelStatement<()>>, s: ScopeV, k: int, n: Seq<char>)
    requires
        s.frames.len() > 0,
    ensures
        bind_functions(statements, s, k).frames.len() == s.frames.len(),
        bind_functions(statements, s, k).methods == s.methods,
        lookup_type(bind_functions(statements, s, k).frames, n) == lookup_type(s.frames, n),
        lookup_variable(bind_functions(statements, s, k).frames, n) == lookup_variable(s.frames, n),
        (forall|j: int| 0 <= j < k && j < statements.len() ==> !(#[trigger] statements[j] matches TopLevelStatement::Function(f)
            && f.id.name@ == n)) ==> lookup_constant(bind_functions(statements, s, k).frames, n)
            == lookup_constant(s.frames, n),
    decreases k,
{
    if k > 0 && k <= statements.len() {
        lemma_bind_functions(statements, s, k - 1, n);
        let acc = bind_functions(statements, s, k - 1);
        match statements[k - 1] {
            TopLevelStatement::Function(f) => {
                let t = signature_type(f, acc.frames)->Some_0;
                lemma_with_constant_lookups(acc, f.id.name@, t, n);
                lemma_with_constant_variables(acc, f.id.name@, t, n);
            },
            _ => {},
        }
    }
}

/// The constant bound to the name of a function of the program, after the signatures of later
/// functions of other names are bound too, is the signature of that function.
proof fn lemma_bound_function_stays(
    statements: Seq<TopLevelStatement<()>>,
    s: ScopeV,
    m: int,
    k: int,
)
    requires
        s.frames.len() > 0,
        0 <= m < k <= statements.len(),
        statements[m] is Function,
        forall|j: int|
            m < j < k && #[trigger] statements[j] is Function ==> statements[j]->Function_0.id.name@
                != statements[m]->Function_0.id.name@,
    ensures
        lookup_constant(bind_functions(statements, s, k).frames, statements[m]->Function_0.id.name@)
            == Some(signature_type(statements[m]->Function_0, bind_functions(statements, s, m).frames)->Some_0),
    decreases k,
{
    let n = statements[m]->Function_0.id.name@;
    lemma_bind_functions(statements, s, k - 1, n);
    let acc = bind_functions(statements, s, k - 1);
    if k - 1 == m {
        let t = signature_type(statements[m]->Function_0, acc.frames)->Some_0;
        lemma_with_constant_lookups(acc, n, t, n);
    } else {
        lemma_bound_function_stays(statements, s, m, k - 1);
        match statements[k - 1] {
            TopLevelStatement::Function(f) => {
                let t = signature_type(f, acc.frames)->Some_0;
                lemma_with_constant_lookups(acc, f.id.name@, t, n);
            },
            _ => {},
        }
    }
}

/// Binding a constant leaves the variables as they were.
proof fn lemma_with_constant_variables(s: ScopeV, n: Seq<char>, t: TypeV, m: Seq<char>)
    requires
        s.frames.len() > 0,
    ensures
        lookup_variable(with_constant(s, n, t).frames, m) == lookup_variable(s.frames, m),
{
    assert(with_constant(s, n, t).frames.drop_last() =~= s.frames.drop_last());
}

/// Whether every top level statement is a comment.
pub open spec fn only_comments(statements: Seq<TopLevelStatement<()>>) -> bool {
    forall|k: int| 0 <= k < statements.len() ==> #[trigger] statements[k] is Comment
}

/// Whether no top level statement is a struct declaration.
pub open spec fn no_structs(statements: Seq<TopLevelStatement<()>>) -> bool {
    forall|k: int| 0 <= k < statements.len() ==> !(#[trigger] statements[k] is StructDeclaration)
}

/// For a program of a single function whose signature resolves in the scope and whose name is
/// not bound there yet, the type of that signature.
pub open spec fn lone_function_binds(statements: Seq<TopLevelStatement<()>>, s: ScopeV) -> Option<
    TypeV,
> {
    if statements.len() == 1 && statements[0] is Function && resolve(
        s.frames,
        statements[0]->Function_0.id.name@,
    ) is None {
        signature_type(statements[0]->Function_0, s.frames)
    } else {
        None
    }
}

/// Whether the program is a single function `main` with no parameters, a `void` return type
/// and an empty body, and `main` is not bound in the scope yet.
pub open spec fn lone_empty_main(statements: Seq<TopLevelStatement<()>>, s: ScopeV) -> bool {
    &&& statements.len() == 1
    &&& statements[0] matches TopLevelStatement::Function(f)
    &&& f.id.name@ == "main"@
    &&& f.parameters@.len() == 0
    &&& resolve_type_name(f.return_type@, s.frames) == Ok::<TypeV, TypeNameView>(TypeV::Void)
    &&& f.body.statements@.len() == 0
    &&& resolve(s.frames, "main"@) is None
}

/// A type checker for a whole program.
#[derive(Debug)]
pub struct TypeChecker {
    context: Context,
    statements: Vec<TopLevelStatement<()>>,
}

impl TypeChecker {
    /// A checker for the given statements, with an empty context.
    pub fn new(statements: Vec<TopLevelStatement<()>>) -> (t: TypeChecker)
        ensures
            t.spec_statements() == statements@,
            t.spec_context()@.frames.len() == 1,
            only_struct_types(t.spec_context()@.frames),
    {
        let context = Context::default();
        proof {
            assert forall|x: Seq<char>| #[trigger] lookup_type(context@.frames, x) is None by {
                assert(context@.frames.drop_last() =~= Seq::<FrameV>::empty());
                assert(lookup_type(context@.frames.drop_last(), x) is None);
                assert(!context@.frames.last().types.contains_key(x));
            }
        }
        TypeChecker { context, statements }
    }

    pub closed spec fn spec_statements(&self) -> Seq<TopLevelStatement<()>> {
        self.statements@
    }

    pub closed spec fn spec_context(&self) -> Context {
        self.context
    }

    /// Bind what every top level statement defines: struct types first, then the rest, in the
    /// order of the program.
    fn shallow_check(&mut self) -> (r: Result<(), TypeCheckError>)
        requires
            old(self).context@.frames.len() > 0,
            only_struct_types(old(self).context@.frames),
        ensures
            final(self).context@.frames.len() == old(self).context@.frames.len(),
            final(self).statements == old(self).statements,
            r is Ok ==> only_struct_types(final(self).context@.frames),
            r is Ok ==> forall|k: int|
                0 <= k < old(self).statements@.len() && #[trigger] is_main_function(
                    old(self).statements@[k],
                ) ==> (lookup_constant(final(self).context@.frames, "main"@) matches Some(t)
                    && signature_shape(old(self).statements@[k]->Function_0, t)),
            only_comments(old(self).statements@) ==> r is Ok && final(self).context@ == old(
                self,
            ).context@,
            plain_program(old(self).statements@, old(self).context@) ==> r is Ok && final(self).context@
                == bind_functions(
                old(self).statements@,
                old(self).context@,
                old(self).statements@.len() as int,
            ),
            lone_function_binds(old(self).statements@, old(self).context@) matches Some(t) ==> r is Ok
                && final(self).context@ == with_constant(
                old(self).context@,
                old(self).statements@[0]->Function_0.id.name@,
                t,
            ),
    {
        let ghost statements = self.statements@;
        let mut k: usize = 0;
        while k < self.statements.len()
            invariant
                self.context@.frames.len() == old(self).context@.frames.len(),
                self.statements == old(self).statements,
                statements == self.statements@,
                old(self).context@.frames.len() > 0,
                only_struct_types(self.context@.frames),
                forall|m: Seq<char>| #[trigger] lookup_constant(self.context@.frames, m)
                    == lookup_constant(old(self).context@.frames, m),
                no_structs(statements) ==> self.context@ == old(self).context@,
            decreases self.statements.len() - k,
        {
            let is_struct = match &self.statements[k] {
                TopLevelStatement::StructDeclaration(_) => true,
                _ => false,
            };
            if is_struct {
                let ghost before = self.context@;
                self.statements[k].shallow_check(&mut self.context)?;
                proof {
                    let d = statements[k as int]->StructDeclaration_0;
                    if !before.frames.last().types.contains_key(d.id.name@) {
                        let t = TypeV::Struct(d.id.name@, resolved_fields(d.fields@, before.frames));
                        assert forall|m: Seq<char>| #[trigger] lookup_constant(self.context@.frames, m)
                            == lookup_constant(old(self).context@.frames, m) by {
                            lemma_with_type_lookups(before, d.id.name@, t, m);
                        }
                        assert forall|x: Seq<char>| #[trigger] lookup_type(self.context@.frames, x)
                            == if x == d.id.name@ {
                            Some(t)
                        } else {
                            lookup_type(before.frames, x)
                        } by {
                            lemma_with_type_lookups(before, d.id.name@, t, x);
                        }
                    }
                }
            }
            k = k + 1;
        }
        let mut k: usize = 0;
        while k < self.statements.len()
            invariant
                self.context@.frames.len() == old(self).context@.frames.len(),
                self.statements == old(self).statements,
                statements == self.statements@,
                old(self).context@.frames.len() > 0,
                k <= statements.len(),
                only_struct_types(self.context@.frames),
                forall|j: int|
                    0 <= j < k && #[trigger] is_main_function(statements[j]) ==> (lookup_constant(
                        self.context@.frames,
                        "main"@,
                    ) matches Some(t) && signature_shape(statements[j]->Function_0, t)),
                only_comments(statements) ==> self.context@ == old(self).context@,
                plain_program(statements, old(self).context@) ==> self.context@ == bind_functions(
                    statements,
                    old(self).context@,
                    k as int,
                ),
                lone_function_binds(statements, old(self).context@) matches Some(t) ==> self.context@
                    == if k == 0 {
                    old(self).context@
                } else {
                    with_constant(old(self).context@, statements[0]->Function_0.id.name@, t)
                },
            decreases self.statements.len() - k,
        {
            let is_struct = match &self.statements[k] {
                TopLevelStatement::StructDeclaration(_) => true,
                _ => false,
            };
            if !is_struct {
                let ghost before = self.context@;
                proof {
                    if plain_program(statements, old(self).context@) {
                        let start = old(self).context@;
                        assert forall|n: Seq<char>| #[trigger] lookup_type(before.frames, n) == lookup_type(
                            start.frames,
                            n,
                        ) by {
                            lemma_bind_functions(statements, start, k as int, n);
                        }
                        match statements[k as int] {
                            TopLevelStatement::Function(f) => {
                                assert(plain_function(statements, f, start));
                                lemma_resolve_type_names_same_types(
                                    parameter_type_names(f.parameters@),
                                    before.frames,
                                    start.frames,
                                );
                                lemma_resolve_type_name_same_types(f.return_type@, before.frames, start.frames);
                                assert forall|j: int|
                                    0 <= j < k && j < statements.len() implies !(#[trigger] statements[j] matches TopLevelStatement::Function(g)
                                        && g.id.name@ == f.id.name@) by {
                                    if statements[j] is Function {
                                        assert(statements[k as int] is Function);
                                    }
                                }
                                lemma_bind_functions(statements, start, k as int, f.id.name@);
                            },
                            _ => {},
                        }
                    }
                }
                self.statements[k].shallow_check(&mut self.context)?;
                proof {
                    lemma_bound_keeps_main(statements, k as int, before, self.context@);
                }
            }
            k = k + 1;
        }
        Ok(())
    }

    /// Check the program: bind all signatures, check every statement in order, and check that
    /// a proper `main` function exists.
    pub fn check(self) -> (r: Result<Vec<TopLevelStatement<TypeInformation>>, TypeCheckError>)
        requires
            self.spec_context()@.frames.len() > 0,
            only_struct_types(self.spec_context()@.frames),
        ensures
            r matches Ok(v) ==> v@.len() == self.spec_statements().len() && forall|k: int|
                0 <= k < v@.len() ==> same_kind(self.spec_statements()[k], #[trigger] v@[k]),
            r is Ok ==> forall|k: int|
                0 <= k < self.spec_statements().len() && #[trigger] is_main_function(
                    self.spec_statements()[k],
                ) ==> valid_main(self.spec_statements()[k]->Function_0),
            lone_empty_main(self.spec_statements(), self.spec_context()@) ==> r is Ok,
            plain_program(self.spec_statements(), self.spec_context()@) ==> r is Ok,
            r matches Ok(v) ==> exists|bound: ScopeV|
                {
                    &&& #[trigger] bound.frames.len() == self.spec_context()@.frames.len()
                    &&& forall|k: int|
                        0 <= k < v@.len() ==> (#[trigger] v@[k] matches TopLevelStatement::Function(c)
                            ==> function_rule(self.spec_statements()[k]->Function_0, c, bound.frames))
                },
    {
        let ghost start = self.context@;
        let ghost prog = self.statements@;
        let ghost main_type = TypeV::Function(Seq::<TypeV>::empty(), Box::new(TypeV::Void));
        proof {
            if lone_empty_main(self.statements@, start) {
                let f = self.statements@[0]->Function_0;
                assert(parameter_type_names(f.parameters@) =~= Seq::<TypeNameView>::empty());
                assert(lone_function_binds(self.statements@, start) == Some(main_type));
            }
        }
        let mut checker = self;
        checker.shallow_check()?;
        let TypeChecker { mut context, statements } = checker;
        let ghost orig = statements@;
        let ghost bound = context@;
        let mut checked: Vec<TopLevelStatement<TypeInformation>> = Vec::new();
        let mut rest = statements;
        while rest.len() > 0
            invariant
                checked@.len() <= orig.len(),
                rest@ == orig.skip(checked@.len() as int),
                forall|j: int| 0 <= j < checked@.len() ==> same_kind(orig[j], #[trigger] checked@[j]),
                keeps_definitions(bound, context@),
                forall|j: int|
                    0 <= j < orig.len() && #[trigger] is_main_function(orig[j]) ==> (lookup_constant(
                        bound.frames,
                        "main"@,
                    ) matches Some(t) && signature_shape(orig[j]->Function_0, t)),
                start.frames.len() > 0,
                lone_empty_main(prog, start) ==> lone_empty_main(orig, start),
                orig == prog,
                prog == self.statements@,
                start == self.context@,
                lone_empty_main(orig, start) ==> bound == with_constant(start, "main"@, main_type)
                    && (checked@.len() == 0 ==> context@ == bound),
                bound.frames.len() == start.frames.len(),
                plain_program(orig, start) ==> context@ == bound && bound == bind_functions(
                    orig,
                    start,
                    orig.len() as int,
                ),
                forall|j: int|
                    0 <= j < checked@.len() ==> (#[trigger] checked@[j] matches TopLevelStatement::Function(c)
                        ==> function_rule(orig[j]->Function_0, c, bound.frames)),
            decreases rest.len(),
        {
            let ghost k = checked@.len() as int;
            let statement = rest.remove(0);
            proof {
                assert(statement == orig[k]);
                assert(rest@ =~= orig.skip(k + 1));
                if lone_empty_main(orig, start) {
                    let f = orig[0]->Function_0;
                    assert forall|x: Seq<char>| #[trigger] lookup_type(bound.frames, x) == lookup_type(
                        start.frames,
                        x,
                    ) by {
                        lemma_with_constant_lookups(start, "main"@, main_type, x);
                    }
                    lemma_resolve_type_name_same_types(f.return_type@, bound.frames, start.frames);
                    assert(k == 0);
                    assert(statement matches TopLevelStatement::Function(g) && g == f);
                }
            }
            let ghost before = context@;
            proof {
                if plain_program(orig, start) {
                    assert forall|n: Seq<char>| #[trigger] lookup_type(bound.frames, n) == lookup_type(
                        start.frames,
                        n,
                    ) by {
                        lemma_bind_functions(orig, start, orig.len() as int, n);
                    }
                    if statement is Function {
                        {
                            let f = statement->Function_0;
                            assert(plain_function(orig, f, start));
                            lemma_resolve_type_names_same_types(
                                parameter_type_names(f.parameters@),
                                bound.frames,
                                start.frames,
                            );
                            lemma_resolve_type_name_same_types(f.return_type@, bound.frames, start.frames);
                            assert forall|j: int|
                                0 <= j < f.parameters@.len() implies lookup_constant(
                                    bound.frames,
                                    #[trigger] f.parameters@[j].name.name@,
                                ) is None by {
                                let p = f.parameters@[j].name.name@;
                                assert(!names_function(orig, p));
                                assert forall|i: int|
                                    0 <= i < orig.len() && i < orig.len() implies !(#[trigger] orig[i] matches TopLevelStatement::Function(g)
                                        && g.id.name@ == p) by {
                                    if orig[i] matches TopLevelStatement::Function(g) && g.id.name@ == p {
                                        assert(names_function(orig, p));
                                    }
                                }
                                lemma_bind_functions(orig, start, orig.len() as int, p);
                            }
                            assert(signature_checks(f, bound.frames));
                            assert(body_fits(f, bound.frames));
                        }
                    }
                }
            }
            let c = statement.check(&mut context)?;
            proof {
                if c is Function {
                    {
                        let f = orig[k]->Function_0;
                        assert forall|x: Seq<char>| #[trigger] lookup_type(before.frames, x) == lookup_type(
                            bound.frames,
                            x,
                        ) by {
                            lemma_keeps_definitions_lookups(bound, before, x);
                        }
                        lemma_resolve_type_names_same_types(
                            parameter_type_names(f.parameters@),
                            before.frames,
                            bound.frames,
                        );
                        lemma_resolve_type_name_same_types(f.return_type@, before.frames, bound.frames);
                    }
                }
            }
            let ghost old_checked = checked@;
            checked.push(c);
            proof {
                assert forall|j: int|
                    0 <= j < checked@.len() && #[trigger] checked@[j] is Function implies function_rule(
                        orig[j]->Function_0,
                        checked@[j]->Function_0,
                        bound.frames,
                    ) by {
                    if j < old_checked.len() {
                        assert(checked@[j] == old_checked[j]);
                    }
                }
            }
        }
        proof {
            assert(orig.skip(checked@.len() as int).len() == 0);
            lemma_keeps_definitions_lookups(bound, context@, "main"@);
            if lone_empty_main(orig, start) {
                lemma_with_constant_lookups(start, "main"@, main_type, "main"@);
            }
            if plain_program(orig, start) {
                let m = choose|m: int|
                    0 <= m < orig.len() && #[trigger] is_main_function(orig[m]) && valid_main(
                        orig[m]->Function_0,
                    );
                let f = orig[m]->Function_0;
                assert forall|j: int|
                    m < j < orig.len() && #[trigger] orig[j] is Function implies orig[j]->Function_0.id.name@
                        != f.id.name@ by {
                    assert(orig[m] is Function);
                }
                lemma_bound_function_stays(orig, start, m, orig.len() as int);
                let at = bind_functions(orig, start, m);
                assert forall|n: Seq<char>| #[trigger] lookup_type(at.frames, n) == lookup_type(
                    start.frames,
                    n,
                ) by {
                    lemma_bind_functions(orig, start, m, n);
                }
                assert(parameter_type_names(f.parameters@) =~= Seq::<TypeNameView>::empty());
                lemma_resolve_type_name_same_types(f.return_type@, at.frames, start.frames);
                lemma_keeps_definitions_lookups(bound, context@, f.id.name@);
                assert(f.id.name@ == "main"@);
                let rt = resolve_type_name(f.return_type@, start.frames)->Ok_0;
                reveal_strlit("void");
                reveal_strlit("i64");
                reveal_strlit("f64");
                assert("void"@.len() == 4);
                assert("void"@ != "i64"@);
                assert("void"@ != "f64"@);
                assert(f.return_type@ matches TypeNameView::Literal(x, _) && (x == "void"@ || x == "i64"@));
                assert(rt == TypeV::Void || rt == TypeV::Integer);
                assert(resolve_type_names(Seq::<TypeNameView>::empty(), at.frames) == Ok::<Seq<TypeV>, TypeNameView>(Seq::empty()));
                assert(signature_type(f, at.frames) == Some(TypeV::Function(Seq::empty(), Box::new(rt))));
                assert(lookup_constant(context@.frames, "main"@) == Some(TypeV::Function(Seq::empty(), Box::new(rt))));
            }
        }
        check_main_function(&context)?;
        Ok(checked)
    }
}

impl TypeChecker {
    /// Validate a checked program: every node must have a known type.
    pub fn validate(statements: Vec<TopLevelStatement<TypeInformation>>) -> (r: Result<
        Vec<TopLevelStatement<crate::typechecker::ValidatedTypeInformation>>,
        crate::typechecker::TypeValidationError,
    >)
        ensures
            r matches Ok(v) ==> v@.len() == statements@.len(),
            r is Ok <==> forall|i: int|
                0 <= i < statements@.len() ==> crate::typechecker::validate::top_level_typed(
                    #[trigger] statements@[i],
                ),
    {
        crate::typechecker::validate::validate_program(statements)
    }
}

/// Check that `main` names a function that takes no parameters.
pub fn check_main_function(ctx: &Context) -> (r: Result<(), TypeCheckError>)
    ensures
        match main_rule(resolve(ctx@.frames, "main"@)) {
            Ok(()) => r is Ok,
            Err(true) => r == Err::<(), TypeCheckError>(
                TypeCheckError::InvalidMainSignature(InvalidMainSignature, Span { start: 0, end: 0 }),
            ),
            Err(false) => r == Err::<(), TypeCheckError>(
                TypeCheckError::MissingMainFunction(MissingMainFunction),
            ),
        },
{
    match ctx.scope.resolve_name("main") {
        Some(Some(Type::Function { params, return_value })) => {
            let ghost ps = view_types(params@);
            proof {
                lemma_view_types(params@);
            }
            if params.len() != 0 || (!(*return_value).type_eq(&Type::Void) && !(*return_value).type_eq(
                &Type::Integer,
            )) {
                return Err(TypeCheckError::InvalidMainSignature(InvalidMainSignature, Span { start: 0, end: 0 }));
            }
            Ok(())
        },
        _ => Err(TypeCheckError::MissingMainFunction(MissingMainFunction)),
    }
}

} // verus!
