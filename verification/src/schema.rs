//! The input of generation: a structure's schema, and the classifier that
//! decides which accessor shape each field's declared type calls for.

use vstd::prelude::*;
use crate::text::str_eq;

verus! {

/// One segment of a path.
pub struct PathSegment {
    pub ident: String,
    /// Whether the segment carries generic arguments.
    pub has_arguments: bool,
}

/// A field's declared type, as far as generation reads it.
pub enum TypeExpr {
    /// A path, given by its segments in order.
    Path(Vec<PathSegment>),
    /// Any other type expression: a reference, a tuple, an array and so on.
    Other,
}

/// One declared field of a structure.
pub struct FieldSchema {
    /// The field's name; a field of a tuple structure has none.
    pub name: Option<String>,
    pub ty: TypeExpr,
}

/// What kind of item the input is, with the fields of a structure.
pub enum DataShape {
    Struct(Vec<FieldSchema>),
    Enum,
    Union,
}

/// The item that a binding is requested for.
pub struct DeriveInput {
    pub ident: String,
    pub data: DataShape,
}

/// The fixed-width numeric and boolean types that cross the boundary by
/// value.
#[derive(Clone, Copy, Debug, PartialEq, Eq, Structural)]
pub enum PrimitiveKind {
    U8,
    U16,
    U32,
    U64,
    U128,
    I8,
    I16,
    I32,
    I64,
    I128,
    F32,
    F64,
    Bool,
}

/// The accessor shape that a field's type calls for.
#[derive(Clone, Copy, Debug, PartialEq, Eq, Structural)]
pub enum Classification {
    Primitive(PrimitiveKind),
    Text,
    Unsupported,
}

/// The mathematical content of a [`PathSegment`].
pub struct SegmentModel {
    pub ident: Seq<char>,
    pub has_arguments: bool,
}

/// The mathematical content of a [`TypeExpr`].
pub enum TypeModel {
    Path(Seq<SegmentModel>),
    Other,
}

/// The mathematical content of a [`FieldSchema`].
pub struct FieldModel {
    pub name: Option<Seq<char>>,
    pub ty: TypeModel,
}

/// The mathematical content of a [`DataShape`].
pub enum DataModel {
    Struct(Seq<FieldModel>),
    Enum,
    Union,
}

/// The mathematical content of a [`DeriveInput`].
pub struct InputModel {
    pub ident: Seq<char>,
    pub data: DataModel,
}

/// The texts of a sequence of strings.
pub open spec fn texts_of(strings: Seq<String>) -> Seq<Seq<char>> {
    strings.map_values(|s: String| s@)
}

/// The contents of a sequence of path segments.
pub open spec fn segments_of(segments: Seq<PathSegment>) -> Seq<SegmentModel> {
    segments.map_values(|s: PathSegment| s@)
}

/// The contents of a sequence of fields.
pub open spec fn fields_of(fields: Seq<FieldSchema>) -> Seq<FieldModel> {
    fields.map_values(|f: FieldSchema| f@)
}

impl View for PathSegment {
    type V = SegmentModel;

    open spec fn view(&self) -> SegmentModel {
        SegmentModel { ident: self.ident@, has_arguments: self.has_arguments }
    }
}

impl View for TypeExpr {
    type V = TypeModel;

    open spec fn view(&self) -> TypeModel {
        match self {
            TypeExpr::Path(segments) => TypeModel::Path(segments_of(segments@)),
            TypeExpr::Other => TypeModel::Other,
        }
    }
}

impl View for FieldSchema {
    type V = FieldModel;

    open spec fn view(&self) -> FieldModel {
        FieldModel {
            name: match self.name {
                Some(name) => Some(name@),
                None => None,
            },
            ty: self.ty@,
        }
    }
}

impl View for DataShape {
    type V = DataModel;

    open spec fn view(&self) -> DataModel {
        match self {
            DataShape::Struct(fields) => DataModel::Struct(fields_of(fields@)),
            DataShape::Enum => DataModel::Enum,
            DataShape::Union => DataModel::Union,
        }
    }
}

impl View for DeriveInput {
    type V = InputModel;

    open spec fn view(&self) -> InputModel {
        InputModel { ident: self.ident@, data: self.data@ }
    }
}

impl PrimitiveKind {
    /// The name under which the type is written in a declaration.
    pub open spec fn written_name_of(self) -> Seq<char> {
        match self {
            PrimitiveKind::U8 => "u8"@,
            PrimitiveKind::U16 => "u16"@,
            PrimitiveKind::U32 => "u32"@,
            PrimitiveKind::U64 => "u64"@,
            PrimitiveKind::U128 => "u128"@,
            PrimitiveKind::I8 => "i8"@,
            PrimitiveKind::I16 => "i16"@,
            PrimitiveKind::I32 => "i32"@,
            PrimitiveKind::I64 => "i64"@,
            PrimitiveKind::I128 => "i128"@,
            PrimitiveKind::F32 => "f32"@,
            PrimitiveKind::F64 => "f64"@,
            PrimitiveKind::Bool => "bool"@,
        }
    }

    /// The name under which the type is written in a declaration.
    pub fn written_name(self) -> (name: &'static str)
        ensures
            name@ == self.written_name_of(),
    {
        match self {
            PrimitiveKind::U8 => "u8",
            PrimitiveKind::U16 => "u16",
            PrimitiveKind::U32 => "u32",
            PrimitiveKind::U64 => "u64",
            PrimitiveKind::U128 => "u128",
            PrimitiveKind::I8 => "i8",
            PrimitiveKind::I16 => "i16",
            PrimitiveKind::I32 => "i32",
            PrimitiveKind::I64 => "i64",
            PrimitiveKind::I128 => "i128",
            PrimitiveKind::F32 => "f32",
            PrimitiveKind::F64 => "f64",
            PrimitiveKind::Bool => "bool",
        }
    }
}

/// The primitive type that a name denotes, if it denotes one.
pub open spec fn primitive_named(name: Seq<char>) -> Option<PrimitiveKind> {
    if name == PrimitiveKind::U8.written_name_of() {
        Some(PrimitiveKind::U8)
    } else if name == PrimitiveKind::U16.written_name_of() {
        Some(PrimitiveKind::U16)
    } else if name == PrimitiveKind::U32.written_name_of() {
        Some(PrimitiveKind::U32)
    } else if name == PrimitiveKind::U64.written_name_of() {
        Some(PrimitiveKind::U64)
    } else if name == PrimitiveKind::U128.written_name_of() {
        Some(PrimitiveKind::U128)
    } else if name == PrimitiveKind::I8.written_name_of() {
        Some(PrimitiveKind::I8)
    } else if name == PrimitiveKind::I16.written_name_of() {
        Some(PrimitiveKind::I16)
    } else if name == PrimitiveKind::I32.written_name_of() {
        Some(PrimitiveKind::I32)
    } else if name == PrimitiveKind::I64.written_name_of() {
        Some(PrimitiveKind::I64)
    } else if name == PrimitiveKind::I128.written_name_of() {
        Some(PrimitiveKind::I128)
    } else if name == PrimitiveKind::F32.written_name_of() {
        Some(PrimitiveKind::F32)
    } else if name == PrimitiveKind::F64.written_name_of() {
        Some(PrimitiveKind::F64)
    } else if name == PrimitiveKind::Bool.written_name_of() {
        Some(PrimitiveKind::Bool)
    } else {
        None
    }
}

/// The name of the growable text type.
pub open spec fn text_type_name() -> Seq<char> {
    "String"@
}

/// Whether a type expression is a simple named path: a path with at least
/// one segment, none of which carries generic arguments.
pub open spec fn is_named_path(ty: TypeModel) -> bool {
    &&& ty matches TypeModel::Path(segments)
    &&& segments.len() > 0
    &&& forall|i: int| 0 <= i < segments.len() ==> !(#[trigger] segments[i]).has_arguments
}

/// The classification of a simple named path: a single segment that names a
/// primitive type is that primitive; otherwise a path whose last segment
/// names the growable text type is text; anything else is unsupported.
pub open spec fn classification_of(ty: TypeModel) -> Classification
    recommends
        is_named_path(ty),
{
    let segments = ty->Path_0;
    if segments.len() == 1 && primitive_named(segments[0].ident) is Some {
        Classification::Primitive(primitive_named(segments[0].ident)->0)
    } else if segments.last().ident == text_type_name() {
        Classification::Text
    } else {
        Classification::Unsupported
    }
}

/// Looks a name up among the primitive types.
pub fn primitive_kind(name: &str) -> (kind: Option<PrimitiveKind>)
    ensures
        kind == primitive_named(name@),
{
    if str_eq(name, "u8") {
        Some(PrimitiveKind::U8)
    } else if str_eq(name, "u16") {
        Some(PrimitiveKind::U16)
    } else if str_eq(name, "u32") {
        Some(PrimitiveKind::U32)
    } else if str_eq(name, "u64") {
        Some(PrimitiveKind::U64)
    } else if str_eq(name, "u128") {
        Some(PrimitiveKind::U128)
    } else if str_eq(name, "i8") {
        Some(PrimitiveKind::I8)
    } else if str_eq(name, "i16") {
        Some(PrimitiveKind::I16)
    } else if str_eq(name, "i32") {
        Some(PrimitiveKind::I32)
    } else if str_eq(name, "i64") {
        Some(PrimitiveKind::I64)
    } else if str_eq(name, "i128") {
        Some(PrimitiveKind::I128)
    } else if str_eq(name, "f32") {
        Some(PrimitiveKind::F32)
    } else if str_eq(name, "f64") {
        Some(PrimitiveKind::F64)
    } else if str_eq(name, "bool") {
        Some(PrimitiveKind::Bool)
    } else {
        None
    }
}

/// Classifies a field's declared type. A type that is not a simple named
/// path has no classification: generation cannot go on with it. Every simple
/// named path has one, and an unsupported type is reported as such rather
/// than refused.
pub fn classify(ty: &TypeExpr) -> (class: Option<Classification>)
    ensures
        class is Some <==> is_named_path(ty@),
        class is Some ==> class->0 == classification_of(ty@),
{
    match ty {
        TypeExpr::Other => None,
        TypeExpr::Path(segments) => {
            let n = segments.len();
            if n == 0 {
                return None;
            }
            let mut i: usize = 0;
            while i < n
                invariant
                    i <= n,
                    n == segments@.len(),
                    ty@ == TypeModel::Path(segments_of(segments@)),
                    forall|j: int| 0 <= j < i ==> !(#[trigger] segments@[j]).has_arguments,
                decreases n - i,
            {
                if segments[i].has_arguments {
                    assert(segments_of(segments@)[i as int].has_arguments);
                    return None;
                }
                i += 1;
            }
            assert forall|j: int| 0 <= j < n implies !(#[trigger] segments_of(
                segments@,
            )[j]).has_arguments by {
                assert(!segments@[j].has_arguments);
            }
            let last = segments[n - 1].ident.as_str();
            assert(segments_of(segments@).last().ident == last@);
            if n == 1 {
                if let Some(kind) = primitive_kind(last) {
                    return Some(Classification::Primitive(kind));
                }
            }
            if str_eq(last, "String") {
                Some(Classification::Text)
            } else {
                Some(Classification::Unsupported)
            }
        },
    }
}

/// The names of the primitive types and of the text type differ from one
/// another.
proof fn lemma_written_names_differ()
    ensures
        forall|a: PrimitiveKind, b: PrimitiveKind|
            a.written_name_of() == b.written_name_of() ==> a == b,
        forall|a: PrimitiveKind| a.written_name_of() != text_type_name(),
{
    reveal_strlit("u8");
    reveal_strlit("u16");
    reveal_strlit("u32");
    reveal_strlit("u64");
    reveal_strlit("u128");
    reveal_strlit("i8");
    reveal_strlit("i16");
    reveal_strlit("i32");
    reveal_strlit("i64");
    reveal_strlit("i128");
    reveal_strlit("f32");
    reveal_strlit("f64");
    reveal_strlit("bool");
    reveal_strlit("String");
    assert forall|a: PrimitiveKind| #[trigger] a.written_name_of().len() <= 4 by {}
    assert(text_type_name().len() == 6);
    assert forall|a: PrimitiveKind, b: PrimitiveKind|
        a.written_name_of() == b.written_name_of() implies a == b by {
        let x = a.written_name_of();
        let y = b.written_name_of();
        assert(x.len() == y.len());
        assert(x[0] == y[0]);
        assert(x[1] == y[1]);
    }
}

/// Each primitive type is found again under its own name.
pub proof fn lemma_primitive_named_written_name(kind: PrimitiveKind)
    ensures
        primitive_named(kind.written_name_of()) == Some(kind),
{
    lemma_written_names_differ();
}

/// The path that consists of one plain identifier.
pub open spec fn plain_path(ident: Seq<char>) -> TypeModel {
    TypeModel::Path(seq![SegmentModel { ident, has_arguments: false }])
}

/// Each primitive type, written under its name, is classified as that
/// primitive, and the growable text type as text.
pub proof fn lemma_classification_of_supported(kind: PrimitiveKind)
    ensures
        is_named_path(plain_path(kind.written_name_of())),
        is_named_path(plain_path(text_type_name())),
        classification_of(plain_path(kind.written_name_of())) == Classification::Primitive(kind),
        classification_of(plain_path(text_type_name())) == Classification::Text,
{
    lemma_written_names_differ();
}

} // verus!
