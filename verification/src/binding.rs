//! The emitters and the assembler: from a structure's schema to the set of
//! boundary functions that make up its binding.

use vstd::prelude::*;
use crate::names::{
    alias_name, alias_name_of, base_name, base_name_of, constructor_name, constructor_name_of,
    destructor_name, destructor_name_of, getter_name, getter_name_of,
    lemma_lifecycle_names_differ, setter_name, setter_name_of,
};
use crate::schema::{
    classification_of, classify, fields_of, is_named_path, texts_of, Classification, DataModel,
    DataShape, DeriveInput, FieldModel, FieldSchema, PrimitiveKind,
};
use crate::text::str_eq;

verus! {

/// The shape of a supported field, which decides the signatures of its
/// accessors: a primitive is read and written by value; text is read into an
/// owned string and written from a foreign null-terminated buffer.
#[derive(Clone, Copy, Debug, PartialEq, Eq, Structural)]
pub enum FieldShape {
    Primitive(PrimitiveKind),
    Text,
}

/// One function of a binding.
pub struct BoundFn {
    /// The unmangled name of the function.
    pub name: String,
    /// The alias of the opaque type that its handle points to.
    pub handle: String,
}

/// The constructor and the destructor of a binding.
pub struct Lifecycle {
    pub constructor: BoundFn,
    pub destructor: BoundFn,
}

/// The getter and the setter of one field.
pub struct AccessorPair {
    pub field: String,
    pub shape: FieldShape,
    pub getter: BoundFn,
    pub setter: BoundFn,
}

/// What is emitted for the fields of a structure: the accessors of the
/// supported fields, and the names of the fields that were left out.
pub struct FieldPlan {
    pub accessors: Vec<AccessorPair>,
    pub skipped: Vec<String>,
}

/// The binding of one structure.
pub struct GeneratedBinding {
    /// The structure's identifier.
    pub ident: String,
    /// The base name that every function name starts with.
    pub name: String,
    /// The alias of the opaque type.
    pub alias: String,
    pub lifecycle: Lifecycle,
    pub accessors: Vec<AccessorPair>,
    /// The fields without accessors, in declaration order.
    pub skipped: Vec<String>,
}

/// Why generation was aborted.
#[derive(Clone, Copy, Debug, PartialEq, Eq, Structural)]
pub enum GenError {
    /// The input is not a structure.
    NotAStruct,
    /// The type of the field at this position is not a simple named path.
    UnexpectedFieldType { field: usize },
    /// The field at this position has no name.
    UnnamedField { field: usize },
    /// An accessor of the field at this position would have the name of a
    /// function that the binding already holds.
    NameCollision { field: usize },
}

impl GenError {
    /// The position of the field that generation stopped at, or -1 when it
    /// stopped before the fields were read.
    pub open spec fn position(self) -> int {
        match self {
            GenError::NotAStruct => -1,
            GenError::UnexpectedFieldType { field } => field as int,
            GenError::UnnamedField { field } => field as int,
            GenError::NameCollision { field } => field as int,
        }
    }
}

/// The mathematical content of a [`BoundFn`].
pub struct FnModel {
    pub name: Seq<char>,
    pub handle: Seq<char>,
}

/// The mathematical content of a [`Lifecycle`].
pub struct LifecycleModel {
    pub constructor: FnModel,
    pub destructor: FnModel,
}

/// The mathematical content of an [`AccessorPair`].
pub struct PairModel {
    pub field: Seq<char>,
    pub shape: FieldShape,
    pub getter: FnModel,
    pub setter: FnModel,
}

/// The mathematical content of a [`FieldPlan`].
pub struct FieldPlanModel {
    pub accessors: Seq<PairModel>,
    pub skipped: Seq<Seq<char>>,
}

/// The mathematical content of a [`GeneratedBinding`].
pub struct BindingModel {
    pub ident: Seq<char>,
    pub name: Seq<char>,
    pub alias: Seq<char>,
    pub lifecycle: LifecycleModel,
    pub accessors: Seq<PairModel>,
    pub skipped: Seq<Seq<char>>,
}

/// The contents of a sequence of accessor pairs.
pub open spec fn pairs_of(pairs: Seq<AccessorPair>) -> Seq<PairModel> {
    pairs.map_values(|p: AccessorPair| p@)
}

impl View for BoundFn {
    type V = FnModel;

    open spec fn view(&self) -> FnModel {
        FnModel { name: self.name@, handle: self.handle@ }
    }
}

impl View for Lifecycle {
    type V = LifecycleModel;

    open spec fn view(&self) -> LifecycleModel {
        LifecycleModel { constructor: self.constructor@, destructor: self.destructor@ }
    }
}

impl View for AccessorPair {
    type V = PairModel;

    open spec fn view(&self) -> PairModel {
        PairModel {
            field: self.field@,
            shape: self.shape,
            getter: self.getter@,
            setter: self.setter@,
        }
    }
}

impl View for FieldPlan {
    type V = FieldPlanModel;

    open spec fn view(&self) -> FieldPlanModel {
        FieldPlanModel { accessors: pairs_of(self.accessors@), skipped: texts_of(self.skipped@) }
    }
}

impl View for GeneratedBinding {
    type V = BindingModel;

    open spec fn view(&self) -> BindingModel {
        BindingModel {
            ident: self.ident@,
            name: self.name@,
            alias: self.alias@,
            lifecycle: self.lifecycle@,
            accessors: pairs_of(self.accessors@),
            skipped: texts_of(self.skipped@),
        }
    }
}

/// The constructor and destructor emitted under a base name.
pub open spec fn lifecycle_of(name: Seq<char>, ident: Seq<char>) -> LifecycleModel {
    LifecycleModel {
        constructor: FnModel { name: constructor_name_of(name), handle: ident },
        destructor: FnModel { name: destructor_name_of(name), handle: ident },
    }
}

/// The accessors emitted for a supported field.
pub open spec fn pair_of(
    name: Seq<char>,
    ident: Seq<char>,
    field: Seq<char>,
    shape: FieldShape,
) -> PairModel {
    PairModel {
        field,
        shape,
        getter: FnModel { name: getter_name_of(name, field), handle: ident },
        setter: FnModel { name: setter_name_of(name, field), handle: ident },
    }
}

/// The accessors emitted for a sequence of fields: one pair for each
/// supported field, in declaration order, and none for the others.
pub open spec fn accessors_of(
    name: Seq<char>,
    ident: Seq<char>,
    fields: Seq<FieldModel>,
) -> Seq<PairModel>
    decreases fields.len(),
{
    if fields.len() == 0 {
        Seq::empty()
    } else {
        let before = accessors_of(name, ident, fields.drop_last());
        let field = fields.last();
        match classification_of(field.ty) {
            Classification::Primitive(kind) => before.push(
                pair_of(name, ident, field.name->0, FieldShape::Primitive(kind)),
            ),
            Classification::Text => before.push(
                pair_of(name, ident, field.name->0, FieldShape::Text),
            ),
            Classification::Unsupported => before,
        }
    }
}

/// The names of the fields that get no accessors, in declaration order.
pub open spec fn skipped_of(fields: Seq<FieldModel>) -> Seq<Seq<char>>
    decreases fields.len(),
{
    if fields.len() == 0 {
        Seq::empty()
    } else {
        let before = skipped_of(fields.drop_last());
        if classification_of(fields.last().ty) == Classification::Unsupported {
            before.push(fields.last().name->0)
        } else {
            before
        }
    }
}

/// The names of the constructor and the destructor under a base name.
pub open spec fn lifecycle_names_of(name: Seq<char>) -> Seq<Seq<char>> {
    seq![constructor_name_of(name), destructor_name_of(name)]
}

/// The names of the accessors of a sequence of pairs, in emission order:
/// getter, then setter, pair by pair.
pub open spec fn pair_names_of(pairs: Seq<PairModel>) -> Seq<Seq<char>>
    decreases pairs.len(),
{
    if pairs.len() == 0 {
        Seq::empty()
    } else {
        pair_names_of(pairs.drop_last()).push(pairs.last().getter.name).push(
            pairs.last().setter.name,
        )
    }
}

/// The names of all functions of a binding, in emission order.
pub open spec fn function_names_of(binding: BindingModel) -> Seq<Seq<char>> {
    seq![binding.lifecycle.constructor.name, binding.lifecycle.destructor.name] + pair_names_of(
        binding.accessors,
    )
}

/// The names of the functions that are emitted before the field at position
/// `at` is reached: those of the lifecycle and of the accessors of the
/// earlier fields.
pub open spec fn names_before(
    name: Seq<char>,
    ident: Seq<char>,
    fields: Seq<FieldModel>,
    at: int,
) -> Seq<Seq<char>> {
    lifecycle_names_of(name) + pair_names_of(accessors_of(name, ident, fields.subrange(0, at)))
}

/// Whether an accessor of the field at position `at` would have the name of
/// a function emitted before it, or the getter the name of the setter.
pub open spec fn name_collides_at(
    name: Seq<char>,
    ident: Seq<char>,
    fields: Seq<FieldModel>,
    at: int,
) -> bool {
    let getter = getter_name_of(name, fields[at].name->0);
    let setter = setter_name_of(name, fields[at].name->0);
    let taken = names_before(name, ident, fields, at);
    &&& classification_of(fields[at].ty) != Classification::Unsupported
    &&& (getter == setter || taken.contains(getter) || taken.contains(setter))
}

/// Why generation cannot go past the field at position `at`, if it cannot:
/// its type is not a simple named path, or it has no name, or one of its
/// accessors would take a name that is already taken.
pub open spec fn field_error_at(
    name: Seq<char>,
    ident: Seq<char>,
    fields: Seq<FieldModel>,
    at: int,
) -> Option<GenError> {
    if !is_named_path(fields[at].ty) {
        Some(GenError::UnexpectedFieldType { field: at as usize })
    } else if fields[at].name is None {
        Some(GenError::UnnamedField { field: at as usize })
    } else if name_collides_at(name, ident, fields, at) {
        Some(GenError::NameCollision { field: at as usize })
    } else {
        None
    }
}

/// Whether generation stops with `error` at the first field that it cannot
/// go past.
pub open spec fn stops_with(
    name: Seq<char>,
    ident: Seq<char>,
    fields: Seq<FieldModel>,
    error: GenError,
) -> bool {
    &&& 0 <= error.position() < fields.len()
    &&& field_error_at(name, ident, fields, error.position()) == Some(error)
    &&& forall|j: int|
        0 <= j < error.position() ==> #[trigger] field_error_at(name, ident, fields, j) is None
}

/// Whether generation gets past every field.
pub open spec fn passes_all(name: Seq<char>, ident: Seq<char>, fields: Seq<FieldModel>) -> bool {
    forall|j: int| 0 <= j < fields.len() ==> #[trigger] field_error_at(name, ident, fields, j) is None
}

/// The binding of a structure with the given identifier and fields.
pub open spec fn binding_of(ident: Seq<char>, fields: Seq<FieldModel>) -> BindingModel {
    let name = base_name_of(ident);
    let alias = alias_name_of(name);
    BindingModel {
        ident,
        name,
        alias,
        lifecycle: lifecycle_of(name, alias),
        accessors: accessors_of(name, alias, fields),
        skipped: skipped_of(fields),
    }
}

/// Emits the constructor and the destructor of the opaque type `ident`
/// under the base name `name`.
pub fn derive_new_free(name: &str, ident: &str) -> (lifecycle: Lifecycle)
    ensures
        lifecycle@ == lifecycle_of(name@, ident@),
{
    Lifecycle {
        constructor: BoundFn { name: constructor_name(name), handle: ident.to_owned() },
        destructor: BoundFn { name: destructor_name(name), handle: ident.to_owned() },
    }
}

/// Emits the getter and the setter of a primitive field.
pub fn derive_primitive(name: &str, ident: &str, field: &str, ty: PrimitiveKind) -> (pair:
    AccessorPair)
    ensures
        pair@ == pair_of(name@, ident@, field@, FieldShape::Primitive(ty)),
{
    AccessorPair {
        field: field.to_owned(),
        shape: FieldShape::Primitive(ty),
        getter: BoundFn { name: getter_name(name, field), handle: ident.to_owned() },
        setter: BoundFn { name: setter_name(name, field), handle: ident.to_owned() },
    }
}

/// Emits the getter and the setter of a text field.
pub fn derive_string(name: &str, ident: &str, field: &str) -> (pair: AccessorPair)
    ensures
        pair@ == pair_of(name@, ident@, field@, FieldShape::Text),
{
    AccessorPair {
        field: field.to_owned(),
        shape: FieldShape::Text,
        getter: BoundFn { name: getter_name(name, field), handle: ident.to_owned() },
        setter: BoundFn { name: setter_name(name, field), handle: ident.to_owned() },
    }
}

/// Whether a name is among the names in a list.
pub fn contains_name(names: &Vec<String>, name: &str) -> (found: bool)
    ensures
        found == texts_of(names@).contains(name@),
{
    let mut i: usize = 0;
    while i < names.len()
        invariant
            i <= names.len(),
            forall|j: int| 0 <= j < i ==> texts_of(names@)[j] != name@,
        decreases names.len() - i,
    {
        if str_eq(names[i].as_str(), name) {
            assert(texts_of(names@)[i as int] == name@);
            return true;
        }
        i += 1;
    }
    false
}

/// Emits the accessors of a structure's fields.
///
/// Generation is aborted at the first field whose type is not a simple named
/// path, which has no name, or whose accessors would take the name of a
/// function emitted before: the constructor, the destructor or an accessor
/// of an earlier field. Otherwise every supported field gets its pair of
/// accessors, in declaration order, every unsupported field is recorded as
/// skipped, and no two functions have the same name.
pub fn derive_struct(name: &str, ident: &str, data: &Vec<FieldSchema>) -> (plan: Result<
    FieldPlan,
    GenError,
>)
    ensures
        match plan {
            Ok(p) => {
                &&& passes_all(name@, ident@, fields_of(data@))
                &&& p@.accessors == accessors_of(name@, ident@, fields_of(data@))
                &&& p@.skipped == skipped_of(fields_of(data@))
                &&& (lifecycle_names_of(name@) + pair_names_of(p@.accessors)).no_duplicates()
            },
            Err(e) => stops_with(name@, ident@, fields_of(data@), e),
        },
{
    let mut accessors: Vec<AccessorPair> = Vec::new();
    let mut skipped: Vec<String> = Vec::new();
    let mut names: Vec<String> = Vec::new();
    names.push(constructor_name(name));
    names.push(destructor_name(name));
    let ghost fields = fields_of(data@);
    proof {
        lemma_lifecycle_names_differ(name@);
        assert(fields.subrange(0, 0) =~= Seq::<FieldModel>::empty());
        assert(texts_of(names@) =~= names_before(name@, ident@, fields, 0));
    }
    let mut i: usize = 0;
    while i < data.len()
        invariant
            i <= data.len(),
            fields == fields_of(data@),
            forall|j: int| 0 <= j < i ==> #[trigger] field_error_at(name@, ident@, fields, j) is None,
            pairs_of(accessors@) == accessors_of(name@, ident@, fields.subrange(0, i as int)),
            texts_of(skipped@) == skipped_of(fields.subrange(0, i as int)),
            texts_of(names@) == names_before(name@, ident@, fields, i as int),
            texts_of(names@).no_duplicates(),
        decreases data.len() - i,
    {
        let field = &data[i];
        let ghost before = fields.subrange(0, i as int);
        let ghost upto = fields.subrange(0, i + 1);
        let ghost taken = texts_of(names@);
        proof {
            assert(upto.drop_last() =~= before);
            assert(upto.last() == field@);
            assert(fields[i as int] == field@);
        }
        let class = match classify(&field.ty) {
            None => {
                return Err(GenError::UnexpectedFieldType { field: i });
            },
            Some(class) => class,
        };
        let field_name = match &field.name {
            None => {
                return Err(GenError::UnnamedField { field: i });
            },
            Some(field_name) => field_name,
        };
        let pair = match class {
            Classification::Primitive(kind) => derive_primitive(
                name,
                ident,
                field_name.as_str(),
                kind,
            ),
            Classification::Text => derive_string(name, ident, field_name.as_str()),
            Classification::Unsupported => {
                let ghost old_skipped = texts_of(skipped@);
                skipped.push(field_name.clone());
                assert(texts_of(skipped@) =~= old_skipped.push(field_name@));
                assert(accessors_of(name@, ident@, upto) == accessors_of(name@, ident@, before));
                i += 1;
                continue ;
            },
        };
        let getter = pair.getter.name.as_str();
        let setter = pair.setter.name.as_str();
        if str_eq(getter, setter) || contains_name(&names, getter) || contains_name(
            &names,
            setter,
        ) {
            return Err(GenError::NameCollision { field: i });
        }
        let ghost old_pairs = pairs_of(accessors@);
        names.push(pair.getter.name.clone());
        names.push(pair.setter.name.clone());
        accessors.push(pair);
        proof {
            let new_pairs = old_pairs.push(pair@);
            assert(pairs_of(accessors@) =~= new_pairs);
            assert(new_pairs.drop_last() =~= old_pairs);
            assert(accessors_of(name@, ident@, upto) == new_pairs);
            assert(texts_of(names@) =~= taken.push(getter@).push(setter@));
            assert(names_before(name@, ident@, fields, i + 1) =~= taken.push(getter@).push(
                setter@,
            ));
        }
        i += 1;
    }
    assert(fields.subrange(0, i as int) =~= fields);
    Ok(FieldPlan { accessors, skipped })
}

/// Plans the binding of an item.
///
/// An item that is not a structure aborts generation, and so does the first
/// field that [`derive_struct`] cannot go past; then there is no binding at
/// all. Otherwise the binding holds the constructor, the destructor and, for
/// each supported field, its getter and setter, all named after the
/// structure's base name, and no two of these functions have the same name.
pub fn derive_effy(input: &DeriveInput) -> (binding: Result<GeneratedBinding, GenError>)
    ensures
        match binding {
            Ok(b) => {
                &&& input@.data matches DataModel::Struct(fields)
                &&& passes_all(
                    base_name_of(input@.ident),
                    alias_name_of(base_name_of(input@.ident)),
                    fields,
                )
                &&& b@ == binding_of(input@.ident, fields)
                &&& function_names_of(b@).no_duplicates()
            },
            Err(GenError::NotAStruct) => !(input@.data is Struct),
            Err(e) => {
                &&& input@.data matches DataModel::Struct(fields)
                &&& stops_with(
                    base_name_of(input@.ident),
                    alias_name_of(base_name_of(input@.ident)),
                    fields,
                    e,
                )
            },
        },
{
    let name = base_name(input.ident.as_str());
    let alias = alias_name(name.as_str());
    let lifecycle = derive_new_free(name.as_str(), alias.as_str());
    match &input.data {
        DataShape::Struct(data) => {
            match derive_struct(name.as_str(), alias.as_str(), data) {
                Ok(plan) => {
                    let FieldPlan { accessors, skipped } = plan;
                    let binding = GeneratedBinding {
                        ident: input.ident.clone(),
                        name,
                        alias,
                        lifecycle,
                        accessors,
                        skipped,
                    };
                    assert(function_names_of(binding@) =~= lifecycle_names_of(binding@.name)
                        + pair_names_of(binding@.accessors));
                    Ok(binding)
                },
                Err(e) => Err(e),
            }
        },
        _ => Err(GenError::NotAStruct),
    }
}

} // verus!
