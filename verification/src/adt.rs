//! The semantic model of structs, unions and enums, and its lowering from
//! syntax.
//!
//! A lowering never fails: a name that the source omits becomes the missing
//! name, a type that it omits the error type, and a definition without a
//! field list the unit shape.

use std::sync::Arc;
use vstd::prelude::*;
use either::Either;
use crate::arena::{Arena, ArenaMap};
use crate::ids::{LocalEnumVariantId, LocalStructFieldId};
use crate::name::{Name, NameView};
use crate::source::{
    EnumDef, EnumVariant, FieldList, InFile, RecordFieldDef, StructDef, TupleFieldDef, UnionDef,
};
use crate::syntax::kind::AstPtr;
use crate::trace::Trace;
use crate::type_ref::{RawVisibility, RawVisibilityView, TypeRef, TypeRefView};

verus! {

/// The three shapes of a field list.
#[derive(Debug, Copy, Clone, PartialEq, Eq, Structural)]
pub enum StructKind {
    Tuple,
    Record,
    Unit,
}

/// A single field of an enum variant or struct.
#[derive(Debug)]
pub struct StructFieldData {
    pub name: Name,
    pub type_ref: TypeRef,
    pub visibility: RawVisibility,
}

/// A field as a value.
pub struct StructFieldView {
    pub name: NameView,
    pub type_ref: TypeRefView,
    pub visibility: RawVisibilityView,
}

impl View for StructFieldData {
    type V = StructFieldView;

    open spec fn view(&self) -> StructFieldView {
        StructFieldView { name: self.name@, type_ref: self.type_ref@, visibility: self.visibility@ }
    }
}

/// The fields of a struct, a union or an enum's variant.
#[derive(Debug)]
pub enum VariantData {
    Record(Arena<StructFieldData>),
    Tuple(Arena<StructFieldData>),
    Unit,
}

/// A shape by what it means: which of the three it is, and its fields in
/// the order of their declaration.
pub struct VariantDataView {
    pub kind: StructKind,
    pub fields: Seq<StructFieldView>,
}

impl View for VariantData {
    type V = VariantDataView;

    open spec fn view(&self) -> VariantDataView {
        match self {
            VariantData::Record(fields) => VariantDataView {
                kind: StructKind::Record,
                fields: field_views(fields@),
            },
            VariantData::Tuple(fields) => VariantDataView {
                kind: StructKind::Tuple,
                fields: field_views(fields@),
            },
            VariantData::Unit => VariantDataView { kind: StructKind::Unit, fields: Seq::empty() },
        }
    }
}

/// A struct or a union: the two are modelled alike.
#[derive(Debug)]
pub struct StructData {
    pub name: Name,
    pub variant_data: Arc<VariantData>,
}

/// A struct or a union as a value.
pub struct StructDataView {
    pub name: NameView,
    pub variant_data: VariantDataView,
}

impl View for StructData {
    type V = StructDataView;

    open spec fn view(&self) -> StructDataView {
        StructDataView { name: self.name@, variant_data: self.variant_data@ }
    }
}

/// One variant of an enum.
#[derive(Debug)]
pub struct EnumVariantData {
    pub name: Name,
    pub variant_data: Arc<VariantData>,
}

/// A variant as a value.
pub struct EnumVariantView {
    pub name: NameView,
    pub variant_data: VariantDataView,
}

impl View for EnumVariantData {
    type V = EnumVariantView;

    open spec fn view(&self) -> EnumVariantView {
        EnumVariantView { name: self.name@, variant_data: self.variant_data@ }
    }
}

/// An enum: its name and its variants in the order of their declaration.
#[derive(Debug)]
pub struct EnumData {
    pub name: Name,
    pub variants: Arena<EnumVariantData>,
}

/// An enum as a value.
pub struct EnumDataView {
    pub name: NameView,
    pub variants: Seq<EnumVariantView>,
}

impl View for EnumData {
    type V = EnumDataView;

    open spec fn view(&self) -> EnumDataView {
        EnumDataView { name: self.name@, variants: variant_views(self.variants@) }
    }
}

/// The views of fields, in order.
pub open spec fn field_views(fields: Seq<StructFieldData>) -> Seq<StructFieldView> {
    Seq::new(fields.len(), |i: int| fields[i]@)
}

/// The views of variants, in order.
pub open spec fn variant_views(variants: Seq<EnumVariantData>) -> Seq<EnumVariantView> {
    Seq::new(variants.len(), |i: int| variants[i]@)
}

/// The field that the tuple field `fd` at position `i` lowers to: it is
/// named by its position.
pub open spec fn lower_tuple_field(fd: TupleFieldDef, i: int) -> StructFieldView {
    StructFieldView {
        name: NameView::TupleField(i as usize),
        type_ref: TypeRef::spec_from_ast_opt(fd.type_ref),
        visibility: RawVisibility::spec_from_ast(fd.visibility),
    }
}

/// The field that the record field `fd` lowers to.
pub open spec fn lower_record_field(fd: RecordFieldDef) -> StructFieldView {
    StructFieldView {
        name: Name::spec_from_opt(fd.name),
        type_ref: TypeRef::spec_from_ast_opt(fd.ascribed_type),
        visibility: RawVisibility::spec_from_ast(fd.visibility),
    }
}

/// The number of fields that a field list declares.
pub open spec fn field_count(ast: FieldList) -> nat {
    match ast {
        FieldList::Tuple(fl) => fl@.len(),
        FieldList::Record(fl) => fl@.len(),
        FieldList::Unit => 0,
    }
}

/// The shape that a field list is written in.
pub open spec fn shape_of(ast: FieldList) -> StructKind {
    match ast {
        FieldList::Tuple(_) => StructKind::Tuple,
        FieldList::Record(_) => StructKind::Record,
        FieldList::Unit => StructKind::Unit,
    }
}

/// The fields that a field list lowers to, in the order of the source.
pub open spec fn lowered_fields(ast: FieldList) -> Seq<StructFieldView> {
    match ast {
        FieldList::Tuple(fl) => Seq::new(fl@.len(), |i: int| lower_tuple_field(fl@[i], i)),
        FieldList::Record(fl) => Seq::new(fl@.len(), |i: int| lower_record_field(fl@[i])),
        FieldList::Unit => Seq::empty(),
    }
}

/// The nodes that the fields of a field list come from, in the order of the
/// source: a tuple field on the left, a record field on the right.
pub open spec fn field_sources(ast: FieldList) -> Seq<Either<AstPtr, AstPtr>> {
    match ast {
        FieldList::Tuple(fl) => Seq::new(
            fl@.len(),
            |i: int| Either::<AstPtr, AstPtr>::Left(fl@[i].ptr),
        ),
        FieldList::Record(fl) => Seq::new(
            fl@.len(),
            |i: int| Either::<AstPtr, AstPtr>::Right(fl@[i].ptr),
        ),
        FieldList::Unit => Seq::empty(),
    }
}

/// The semantic shape of a field list.
pub open spec fn variant_data_of(ast: FieldList) -> VariantDataView {
    VariantDataView { kind: shape_of(ast), fields: lowered_fields(ast) }
}

/// The map that binds `base + k` to `added[k]` and is `m` elsewhere.
pub open spec fn extend_origins<V>(m: Map<usize, V>, base: nat, added: Seq<V>) -> Map<usize, V> {
    Map::new(
        |id: usize| m.contains_key(id) || base <= id < base + added.len(),
        |id: usize|
            if base <= id < base + added.len() {
                added[id - base]
            } else {
                m[id]
            },
    )
}

/// The variants of an enum's syntax, none where it has no variant list.
pub open spec fn variants_of(ast: EnumDef) -> Seq<EnumVariant> {
    match ast.variant_list {
        Some(list) => list@,
        None => Seq::empty(),
    }
}

/// The variant that the syntax `var` lowers to.
pub open spec fn lower_variant(var: EnumVariant) -> EnumVariantView {
    EnumVariantView {
        name: Name::spec_from_opt(var.name),
        variant_data: variant_data_of(var.kind.spec_as_field_list()),
    }
}

/// The variants that an enum's syntax lowers to, in the order of the source.
pub open spec fn lowered_variants(ast: EnumDef) -> Seq<EnumVariantView> {
    Seq::new(variants_of(ast).len(), |i: int| lower_variant(variants_of(ast)[i]))
}

/// The nodes that the variants of an enum come from, in the order of the
/// source.
pub open spec fn variant_sources(ast: EnumDef) -> Seq<AstPtr> {
    Seq::new(variants_of(ast).len(), |i: int| variants_of(ast)[i].ptr)
}

/// The model of a struct's syntax.
pub open spec fn struct_data_of(src: StructDef) -> StructDataView {
    StructDataView {
        name: Name::spec_from_opt(src.name),
        variant_data: variant_data_of(src.kind.spec_as_field_list()),
    }
}

/// The model of a union's syntax.
pub open spec fn union_data_of(src: UnionDef) -> StructDataView {
    StructDataView {
        name: Name::spec_from_opt(src.name),
        variant_data: variant_data_of(src.spec_kind()),
    }
}

/// The model of an enum's syntax.
pub open spec fn enum_data_of(src: EnumDef) -> EnumDataView {
    EnumDataView { name: Name::spec_from_opt(src.name), variants: lowered_variants(src) }
}

/// Whether `names` holds `name` at `i` and nowhere before.
pub open spec fn is_first_named(names: Seq<NameView>, name: NameView, i: int) -> bool {
    &&& 0 <= i < names.len()
    &&& names[i] == name
    &&& forall|j: int| 0 <= j < i ==> names[j] != name
}

/// The first position at which `names` holds `name`, if it holds it.
pub open spec fn first_named(names: Seq<NameView>, name: NameView) -> Option<int> {
    if exists|i: int| is_first_named(names, name, i) {
        Some(choose|i: int| is_first_named(names, name, i))
    } else {
        None
    }
}

/// The names of fields, in order.
pub open spec fn field_names(fields: Seq<StructFieldView>) -> Seq<NameView> {
    Seq::new(fields.len(), |i: int| fields[i].name)
}

/// The names of variants, in order.
pub open spec fn variant_names(variants: Seq<EnumVariantView>) -> Seq<NameView> {
    Seq::new(variants.len(), |i: int| variants[i].name)
}

impl StructData {
    /// The model of a struct.
    pub fn struct_data_query(src: &StructDef) -> (r: Arc<StructData>)
        ensures
            r@ == struct_data_of(*src),
    {
        let name = Name::from_opt(&src.name);
        let variant_data = VariantData::new(src.kind.as_field_list());
        let variant_data = Arc::new(variant_data);
        Arc::new(StructData { name, variant_data })
    }

    /// The model of a union. Its fields are a record list where the source
    /// has a field list, and the unit shape where it has none.
    pub fn union_data_query(src: &UnionDef) -> (r: Arc<StructData>)
        ensures
            r@ == union_data_of(*src),
            r@.variant_data.kind != StructKind::Tuple,
    {
        let name = Name::from_opt(&src.name);
        let variant_data = VariantData::new(src.kind());
        let variant_data = Arc::new(variant_data);
        Arc::new(StructData { name, variant_data })
    }
}

impl EnumData {
    /// The model of an enum: its variants in the order of their
    /// declaration.
    pub fn enum_data_query(src: &EnumDef) -> (r: Arc<EnumData>)
        ensures
            r@ == enum_data_of(*src),
    {
        let name = Name::from_opt(&src.name);
        let mut trace = Trace::new_for_arena();
        proof {
            lemma_variant_count_fits(*src);
        }
        lower_enum(&mut trace, src);
        let variants = trace.into_arena();
        let r = Arc::new(EnumData { name, variants });
        assert(r@.variants =~= lowered_variants(*src));
        r
    }

    /// The first variant called `name`.
    pub fn variant(&self, name: &Name) -> (r: Option<LocalEnumVariantId>)
        ensures
            r == (match first_named(variant_names(self@.variants), name@) {
                Some(i) => Some(LocalEnumVariantId(i as usize)),
                None => None,
            }),
    {
        let ghost names = variant_names(self@.variants);
        let mut i: usize = 0;
        while i < self.variants.len()
            invariant
                i <= self.variants@.len(),
                names == variant_names(self@.variants),
                forall|j: int| 0 <= j < i ==> names[j] != name@,
            decreases self.variants@.len() - i,
        {
            if self.variants.index(i).name == *name {
                proof {
                    assert(names[i as int] == name@);
                    lemma_first_named(names, name@, i as int);
                }
                return Some(LocalEnumVariantId(i));
            }
            i = i + 1;
        }
        proof {
            lemma_not_named(names, name@);
        }
        None
    }
}

impl InFile<EnumDef> {
    /// Where each variant of the enum comes from: the map binds the index
    /// of every variant to its node.
    pub fn child_source(&self) -> (r: InFile<ArenaMap<AstPtr>>)
        ensures
            r.file_id == self.file_id,
            r.value@ == extend_origins(
                Map::<usize, AstPtr>::empty(),
                0,
                variant_sources(self.value),
            ),
    {
        let mut trace = Trace::new_for_map();
        proof {
            lemma_variant_count_fits(self.value);
        }
        lower_enum(&mut trace, &self.value);
        self.with_value(trace.into_map())
    }
}

/// Walks the variants of an enum in the order of the source and allocates
/// each in `trace`.
pub fn lower_enum(trace: &mut Trace<EnumVariantData, AstPtr>, ast: &EnumDef)
    requires
        old(trace).wf(),
        old(trace).count() + variants_of(*ast).len() <= usize::MAX,
    ensures
        final(trace).wf(),
        final(trace).count() == old(trace).count() + variants_of(*ast).len(),
        final(trace).for_arena() == old(trace).for_arena(),
        final(trace).for_map() == old(trace).for_map(),
        old(trace).for_arena() ==> variant_views(final(trace).values()) == variant_views(
            old(trace).values(),
        ) + lowered_variants(*ast),
        !old(trace).for_arena() ==> final(trace).values() == old(trace).values(),
        old(trace).for_map() ==> final(trace).origins() == extend_origins(
            old(trace).origins(),
            old(trace).count(),
            variant_sources(*ast),
        ),
        !old(trace).for_map() ==> final(trace).origins() == old(trace).origins(),
{
    match &ast.variant_list {
        Some(list) => {
            let mut i: usize = 0;
            proof {
                assert(variant_views(trace.values()) =~= variant_views(old(trace).values())
                    + lowered_variants(*ast).subrange(0, 0));
                assert(trace.origins() =~= extend_origins(
                    old(trace).origins(),
                    old(trace).count(),
                    variant_sources(*ast).subrange(0, 0),
                ));
            }
            while i < list.len()
                invariant
                    i <= list@.len(),
                    list@ == variants_of(*ast),
                    trace.wf(),
                    old(trace).count() + list@.len() <= usize::MAX,
                    trace.count() == old(trace).count() + i,
                    trace.for_arena() == old(trace).for_arena(),
                    trace.for_map() == old(trace).for_map(),
                    trace.for_arena() ==> variant_views(trace.values()) == variant_views(
                        old(trace).values(),
                    ) + lowered_variants(*ast).subrange(0, i as int),
                    !trace.for_arena() ==> trace.values() == old(trace).values(),
                    trace.for_map() ==> trace.origins() == extend_origins(
                        old(trace).origins(),
                        old(trace).count(),
                        variant_sources(*ast).subrange(0, i as int),
                    ),
                    !trace.for_map() ==> trace.origins() == old(trace).origins(),
                decreases list@.len() - i,
            {
                let var = &list[i];
                let ghost values = trace.values();
                let origin = || -> (v: AstPtr)
                    ensures
                        v == var.ptr,
                    { var.ptr };
                let data = || -> (d: EnumVariantData)
                    ensures
                        d@ == lower_variant(*var),
                    {
                        EnumVariantData {
                            name: Name::from_opt(&var.name),
                            variant_data: Arc::new(VariantData::new(var.kind.as_field_list())),
                        }
                    };
                trace.allocate(origin, data);
                proof {
                    if trace.for_arena() {
                        assert(variant_views(trace.values()) =~= variant_views(values).push(
                            lower_variant(*var),
                        ));
                        assert(lowered_variants(*ast).subrange(0, i + 1) =~= lowered_variants(
                            *ast,
                        ).subrange(0, i as int).push(lower_variant(*var)));
                        assert(variant_views(trace.values()) =~= variant_views(
                            old(trace).values(),
                        ) + lowered_variants(*ast).subrange(0, i + 1));
                    }
                    if trace.for_map() {
                        assert(trace.origins() =~= extend_origins(
                            old(trace).origins(),
                            old(trace).count(),
                            variant_sources(*ast).subrange(0, i + 1),
                        ));
                    }
                }
                i = i + 1;
            }
            proof {
                assert(lowered_variants(*ast).subrange(0, i as int) =~= lowered_variants(*ast));
                assert(variant_sources(*ast).subrange(0, i as int) =~= variant_sources(*ast));
            }
        },
        None => {
            proof {
                assert(variant_views(trace.values()) =~= variant_views(old(trace).values())
                    + lowered_variants(*ast));
                assert(trace.origins() =~= extend_origins(
                    old(trace).origins(),
                    old(trace).count(),
                    variant_sources(*ast),
                ));
            }
        },
    }
}

impl VariantData {
    /// The shape of a field list.
    pub fn new(flavor: FieldList<'_>) -> (r: VariantData)
        ensures
            r@ == variant_data_of(flavor),
    {
        let mut trace = Trace::new_for_arena();
        proof {
            lemma_field_count_fits(flavor);
        }
        let kind = lower_struct(&mut trace, &flavor);
        proof {
            assert(field_views(trace.values()) =~= lowered_fields(flavor));
        }
        match kind {
            StructKind::Tuple => VariantData::Tuple(trace.into_arena()),
            StructKind::Record => VariantData::Record(trace.into_arena()),
            StructKind::Unit => VariantData::Unit,
        }
    }

    /// The fields in the order of their declaration; none for the unit
    /// shape.
    pub fn fields(&self) -> (r: &[StructFieldData])
        ensures
            field_views(r@) == self@.fields,
            r@.len() == self@.fields.len(),
    {
        match self {
            VariantData::Record(fields) => fields.as_slice(),
            VariantData::Tuple(fields) => fields.as_slice(),
            VariantData::Unit => {
                let r: &[StructFieldData] = &[];
                assert(field_views(r@) =~= self@.fields);
                r
            },
        }
    }

    /// The first field called `name`.
    pub fn field(&self, name: &Name) -> (r: Option<LocalStructFieldId>)
        ensures
            r == (match first_named(field_names(self@.fields), name@) {
                Some(i) => Some(LocalStructFieldId(i as usize)),
                None => None,
            }),
    {
        let fields = self.fields();
        let ghost names = field_names(self@.fields);
        let mut i: usize = 0;
        while i < fields.len()
            invariant
                i <= fields@.len(),
                field_views(fields@) == self@.fields,
                names == field_names(self@.fields),
                forall|j: int| 0 <= j < i ==> names[j] != name@,
            decreases fields@.len() - i,
        {
            if fields[i].name == *name {
                proof {
                    assert(self@.fields[i as int] == fields@[i as int]@);
                    assert(names[i as int] == name@);
                    lemma_first_named(names, name@, i as int);
                }
                return Some(LocalStructFieldId(i));
            }
            proof {
                assert(self@.fields[i as int] == fields@[i as int]@);
            }
            i = i + 1;
        }
        proof {
            lemma_not_named(names, name@);
        }
        None
    }

    /// Which of the three shapes this is.
    pub fn kind(&self) -> (r: StructKind)
        ensures
            r == self@.kind,
    {
        match self {
            VariantData::Record(_) => StructKind::Record,
            VariantData::Tuple(_) => StructKind::Tuple,
            VariantData::Unit => StructKind::Unit,
        }
    }
}

/// What a definition with fields is written as.
#[derive(Debug)]
pub enum VariantSource<'a> {
    /// The variant at `local_id` of an enum.
    EnumVariant { parent: &'a EnumDef, local_id: LocalEnumVariantId },
    Struct(&'a StructDef),
    Union(&'a UnionDef),
}

impl<'a> VariantSource<'a> {
    /// Whether the source holds the definition that it names: an enum holds
    /// a variant at the index.
    pub open spec fn resolves(&self) -> bool {
        match self {
            VariantSource::EnumVariant { parent, local_id } => local_id.0 < variants_of(
                **parent,
            ).len(),
            _ => true,
        }
    }

    /// The field list of the definition.
    pub open spec fn spec_kind(&self) -> FieldList<'a> {
        match self {
            VariantSource::EnumVariant { parent, local_id } => variants_of(
                **parent,
            )[local_id.0 as int].kind.spec_as_field_list(),
            VariantSource::Struct(it) => it.kind.spec_as_field_list(),
            VariantSource::Union(it) => it.spec_kind(),
        }
    }
}

impl<'a> InFile<VariantSource<'a>> {
    /// Where each field of the definition comes from: the map binds the
    /// index of every field to its node, a tuple field on the left and a
    /// record field on the right. The call is for a definition that its
    /// source holds.
    pub fn child_source(&self) -> (r: InFile<ArenaMap<Either<AstPtr, AstPtr>>>)
        requires
            self.value.resolves(),
        ensures
            r.file_id == self.file_id,
            r.value@ == extend_origins(
                Map::<usize, Either<AstPtr, AstPtr>>::empty(),
                0,
                field_sources(self.value.spec_kind()),
            ),
    {
        let kind = match &self.value {
            VariantSource::EnumVariant { parent, local_id } => {
                // The variants of the parent are numbered in the order of
                // the source, so the index leads to the variant's own
                // syntax.
                match &parent.variant_list {
                    Some(list) => list[local_id.0].kind.as_field_list(),
                    None => FieldList::Unit,
                }
            },
            VariantSource::Struct(it) => it.kind.as_field_list(),
            VariantSource::Union(it) => it.kind(),
        };
        let mut trace = Trace::new_for_map();
        proof {
            lemma_field_count_fits(kind);
        }
        lower_struct(&mut trace, &kind);
        self.with_value(trace.into_map())
    }
}

/// Walks a field list in the order of the source, allocates each field in
/// `trace` and says which shape the list has.
pub fn lower_struct(
    trace: &mut Trace<StructFieldData, Either<AstPtr, AstPtr>>,
    ast: &FieldList<'_>,
) -> (kind: StructKind)
    requires
        old(trace).wf(),
        old(trace).count() + field_count(*ast) <= usize::MAX,
    ensures
        kind == shape_of(*ast),
        final(trace).wf(),
        final(trace).count() == old(trace).count() + field_count(*ast),
        final(trace).for_arena() == old(trace).for_arena(),
        final(trace).for_map() == old(trace).for_map(),
        old(trace).for_arena() ==> field_views(final(trace).values()) == field_views(
            old(trace).values(),
        ) + lowered_fields(*ast),
        !old(trace).for_arena() ==> final(trace).values() == old(trace).values(),
        old(trace).for_map() ==> final(trace).origins() == extend_origins(
            old(trace).origins(),
            old(trace).count(),
            field_sources(*ast),
        ),
        !old(trace).for_map() ==> final(trace).origins() == old(trace).origins(),
{
    proof {
        assert(field_views(trace.values()) =~= field_views(old(trace).values()) + lowered_fields(
            *ast,
        ).subrange(0, 0));
        assert(trace.origins() =~= extend_origins(
            old(trace).origins(),
            old(trace).count(),
            field_sources(*ast).subrange(0, 0),
        ));
    }
    match ast {
        FieldList::Tuple(fl) => {
            let mut i: usize = 0;
            while i < fl.len()
                invariant
                    i <= fl@.len(),
                    *ast == FieldList::Tuple(*fl),
                    trace.wf(),
                    old(trace).count() + fl@.len() <= usize::MAX,
                    trace.count() == old(trace).count() + i,
                    trace.for_arena() == old(trace).for_arena(),
                    trace.for_map() == old(trace).for_map(),
                    trace.for_arena() ==> field_views(trace.values()) == field_views(
                        old(trace).values(),
                    ) + lowered_fields(*ast).subrange(0, i as int),
                    !trace.for_arena() ==> trace.values() == old(trace).values(),
                    trace.for_map() ==> trace.origins() == extend_origins(
                        old(trace).origins(),
                        old(trace).count(),
                        field_sources(*ast).subrange(0, i as int),
                    ),
                    !trace.for_map() ==> trace.origins() == old(trace).origins(),
                decreases fl@.len() - i,
            {
                let fd = &fl[i];
                let ghost values = trace.values();
                let origin = || -> (v: Either<AstPtr, AstPtr>)
                    ensures
                        v == Either::<AstPtr, AstPtr>::Left(fd.ptr),
                    { Either::Left(fd.ptr) };
                let data = || -> (d: StructFieldData)
                    ensures
                        d@ == lower_tuple_field(*fd, i as int),
                    {
                        StructFieldData {
                            name: Name::new_tuple_field(i),
                            type_ref: TypeRef::from_ast_opt(&fd.type_ref),
                            visibility: RawVisibility::from_ast(&fd.visibility),
                        }
                    };
                trace.allocate(origin, data);
                proof {
                    if trace.for_arena() {
                        assert(field_views(trace.values()) =~= field_views(values).push(
                            lower_tuple_field(*fd, i as int),
                        ));
                        assert(lowered_fields(*ast).subrange(0, i + 1) =~= lowered_fields(
                            *ast,
                        ).subrange(0, i as int).push(lower_tuple_field(*fd, i as int)));
                        assert(field_views(trace.values()) =~= field_views(old(trace).values())
                            + lowered_fields(*ast).subrange(0, i + 1));
                    }
                    if trace.for_map() {
                        assert(trace.origins() =~= extend_origins(
                            old(trace).origins(),
                            old(trace).count(),
                            field_sources(*ast).subrange(0, i + 1),
                        ));
                    }
                }
                i = i + 1;
            }
            proof {
                assert(lowered_fields(*ast).subrange(0, i as int) =~= lowered_fields(*ast));
                assert(field_sources(*ast).subrange(0, i as int) =~= field_sources(*ast));
            }
            StructKind::Tuple
        },
        FieldList::Record(fl) => {
            let mut i: usize = 0;
            while i < fl.len()
                invariant
                    i <= fl@.len(),
                    *ast == FieldList::Record(*fl),
                    trace.wf(),
                    old(trace).count() + fl@.len() <= usize::MAX,
                    trace.count() == old(trace).count() + i,
                    trace.for_arena() == old(trace).for_arena(),
                    trace.for_map() == old(trace).for_map(),
                    trace.for_arena() ==> field_views(trace.values()) == field_views(
                        old(trace).values(),
                    ) + lowered_fields(*ast).subrange(0, i as int),
                    !trace.for_arena() ==> trace.values() == old(trace).values(),
                    trace.for_map() ==> trace.origins() == extend_origins(
                        old(trace).origins(),
                        old(trace).count(),
                        field_sources(*ast).subrange(0, i as int),
                    ),
                    !trace.for_map() ==> trace.origins() == old(trace).origins(),
                decreases fl@.len() - i,
            {
                let fd = &fl[i];
                let ghost values = trace.values();
                let origin = || -> (v: Either<AstPtr, AstPtr>)
                    ensures
                        v == Either::<AstPtr, AstPtr>::Right(fd.ptr),
                    { Either::Right(fd.ptr) };
                let data = || -> (d: StructFieldData)
                    ensures
                        d@ == lower_record_field(*fd),
                    {
                        StructFieldData {
                            name: Name::from_opt(&fd.name),
                            type_ref: TypeRef::from_ast_opt(&fd.ascribed_type),
                            visibility: RawVisibility::from_ast(&fd.visibility),
                        }
                    };
                trace.allocate(origin, data);
                proof {
                    if trace.for_arena() {
                        assert(field_views(trace.values()) =~= field_views(values).push(
                            lower_record_field(*fd),
                        ));
                        assert(lowered_fields(*ast).subrange(0, i + 1) =~= lowered_fields(
                            *ast,
                        ).subrange(0, i as int).push(lower_record_field(*fd)));
                        assert(field_views(trace.values()) =~= field_views(old(trace).values())
                            + lowered_fields(*ast).subrange(0, i + 1));
                    }
                    if trace.for_map() {
                        assert(trace.origins() =~= extend_origins(
                            old(trace).origins(),
                            old(trace).count(),
                            field_sources(*ast).subrange(0, i + 1),
                        ));
                    }
                }
                i = i + 1;
            }
            proof {
                assert(lowered_fields(*ast).subrange(0, i as int) =~= lowered_fields(*ast));
                assert(field_sources(*ast).subrange(0, i as int) =~= field_sources(*ast));
            }
            StructKind::Record
        },
        FieldList::Unit => {
            proof {
                assert(lowered_fields(*ast).subrange(0, 0) =~= lowered_fields(*ast));
                assert(field_sources(*ast).subrange(0, 0) =~= field_sources(*ast));
            }
            StructKind::Unit
        },
    }
}

/// The arena and the source map of a field list are aligned. Both hold one
/// entry for each declared field, under the indices from zero up, and the
/// entries under one index are about the same field: the arena holds what
/// the field lowers to, the source map the node that it was written as.
pub proof fn lemma_arena_and_source_map_aligned(ast: FieldList)
    ensures
        lowered_fields(ast).len() == field_count(ast),
        field_sources(ast).len() == field_count(ast),
        forall|id: usize|
            extend_origins(
                Map::<usize, Either<AstPtr, AstPtr>>::empty(),
                0,
                field_sources(ast),
            ).contains_key(id) <==> id < field_count(ast),
        forall|i: int|
            0 <= i < field_count(ast) ==> #[trigger] extend_origins(
                Map::<usize, Either<AstPtr, AstPtr>>::empty(),
                0,
                field_sources(ast),
            )[i as usize] == field_sources(ast)[i],
        ast matches FieldList::Tuple(fl) ==> forall|i: int|
            0 <= i < fl@.len() ==> #[trigger] lowered_fields(ast)[i] == lower_tuple_field(fl@[i], i)
                && field_sources(ast)[i] == Either::<AstPtr, AstPtr>::Left(fl@[i].ptr),
        ast matches FieldList::Record(fl) ==> forall|i: int|
            0 <= i < fl@.len() ==> #[trigger] lowered_fields(ast)[i] == lower_record_field(fl@[i])
                && field_sources(ast)[i] == Either::<AstPtr, AstPtr>::Right(fl@[i].ptr),
{
    lemma_field_count_fits(ast);
}

/// The variants of an enum and their source map are aligned in the same
/// way: entry `i` of the one is what the `i`-th variant of the source
/// lowers to, entry `i` of the other is that variant's node.
pub proof fn lemma_variants_and_source_map_aligned(ast: EnumDef)
    ensures
        lowered_variants(ast).len() == variants_of(ast).len(),
        variant_sources(ast).len() == variants_of(ast).len(),
        forall|id: usize|
            extend_origins(Map::<usize, AstPtr>::empty(), 0, variant_sources(ast)).contains_key(id)
                <==> id < variants_of(ast).len(),
        forall|i: int|
            0 <= i < variants_of(ast).len() ==> #[trigger] extend_origins(
                Map::<usize, AstPtr>::empty(),
                0,
                variant_sources(ast),
            )[i as usize] == variants_of(ast)[i].ptr && lowered_variants(ast)[i] == lower_variant(
                variants_of(ast)[i],
            ),
{
    lemma_variant_count_fits(ast);
}

/// The fields of a tuple shape are named by their positions, from zero up,
/// whatever their types are.
pub proof fn lemma_tuple_fields_named_by_position(fl: Vec<TupleFieldDef>, i: int)
    requires
        0 <= i < fl@.len(),
    ensures
        lowered_fields(FieldList::Tuple(&fl))[i].name == NameView::TupleField(i as usize),
        variant_data_of(FieldList::Tuple(&fl)).kind == StructKind::Tuple,
{
}

/// The unit shape has no fields, and no name finds one in it.
pub proof fn lemma_unit_has_no_fields(name: NameView)
    ensures
        VariantData::Unit@.kind == StructKind::Unit,
        VariantData::Unit@.fields.len() == 0,
        first_named(field_names(VariantData::Unit@.fields), name) == None::<int>,
        variant_data_of(FieldList::Unit) == VariantData::Unit@,
{
    lemma_not_named(field_names(VariantData::Unit@.fields), name);
    assert(variant_data_of(FieldList::Unit).fields =~= VariantData::Unit@.fields);
}

/// Lowering is a function of the syntax: two models of one struct are equal
/// in value, whenever and in whatever order they were built.
pub proof fn lemma_struct_lowering_deterministic(src: StructDef, a: StructData, b: StructData)
    requires
        a@ == struct_data_of(src),
        b@ == struct_data_of(src),
    ensures
        a@ == b@,
{
}

/// Two models of one union are equal in value.
pub proof fn lemma_union_lowering_deterministic(src: UnionDef, a: StructData, b: StructData)
    requires
        a@ == union_data_of(src),
        b@ == union_data_of(src),
    ensures
        a@ == b@,
{
}

/// Two models of one enum are equal in value.
pub proof fn lemma_enum_lowering_deterministic(src: EnumDef, a: EnumData, b: EnumData)
    requires
        a@ == enum_data_of(src),
        b@ == enum_data_of(src),
    ensures
        a@ == b@,
{
}

/// Two shapes of one field list are equal in value, and so are two source
/// maps of it: the walk that builds the one numbers the fields as the walk
/// that builds the other.
pub proof fn lemma_field_lowering_deterministic(
    ast: FieldList,
    a: VariantData,
    b: VariantData,
    m: Map<usize, Either<AstPtr, AstPtr>>,
    n: Map<usize, Either<AstPtr, AstPtr>>,
)
    requires
        a@ == variant_data_of(ast),
        b@ == variant_data_of(ast),
        m == extend_origins(Map::<usize, Either<AstPtr, AstPtr>>::empty(), 0, field_sources(ast)),
        n == extend_origins(Map::<usize, Either<AstPtr, AstPtr>>::empty(), 0, field_sources(ast)),
    ensures
        a@ == b@,
        m == n,
{
}

/// The model of a field list does not depend on where its fields stand in
/// the source: two tuple lists that agree in the types and visibilities of
/// their fields lower to the same fields, and so do two record lists that
/// agree in names, types and visibilities.
pub proof fn lemma_model_ignores_positions(a: FieldList, b: FieldList)
    requires
        shape_of(a) == shape_of(b),
        field_count(a) == field_count(b),
        a matches FieldList::Tuple(fa) ==> b matches FieldList::Tuple(fb) && forall|i: int|
            0 <= i < fa@.len() ==> #[trigger] fa@[i].type_ref == fb@[i].type_ref && fa@[i].visibility
                == fb@[i].visibility,
        a matches FieldList::Record(fa) ==> b matches FieldList::Record(fb) && forall|i: int|
            0 <= i < fa@.len() ==> #[trigger] fa@[i].name == fb@[i].name && fa@[i].ascribed_type
                == fb@[i].ascribed_type && fa@[i].visibility == fb@[i].visibility,
    ensures
        variant_data_of(a) == variant_data_of(b),
{
    assert(lowered_fields(a) =~= lowered_fields(b));
}

/// A name that stands at `i` and nowhere before is first found at `i`.
pub proof fn lemma_first_named(names: Seq<NameView>, name: NameView, i: int)
    requires
        0 <= i < names.len(),
        names[i] == name,
        forall|j: int| 0 <= j < i ==> names[j] != name,
    ensures
        first_named(names, name) == Some(i),
{
    assert(is_first_named(names, name, i));
    let k = choose|k: int| is_first_named(names, name, k);
    if k < i {
        assert(names[k] != name);
    } else if k > i {
        assert(names[i] != name);
    }
}

/// A name that stands nowhere is not found.
pub proof fn lemma_not_named(names: Seq<NameView>, name: NameView)
    requires
        forall|j: int| 0 <= j < names.len() ==> names[j] != name,
    ensures
        first_named(names, name) == None::<int>,
{
    assert forall|i: int| !is_first_named(names, name, i) by {
        if 0 <= i < names.len() {
            assert(names[i] != name);
        }
    }
}

/// A field list holds no more fields than a machine word counts.
pub proof fn lemma_field_count_fits(ast: FieldList)
    ensures
        field_count(ast) <= usize::MAX,
{
    match ast {
        FieldList::Tuple(fl) => {
            assert(fl.len() <= usize::MAX);
        },
        FieldList::Record(fl) => {
            assert(fl.len() <= usize::MAX);
        },
        FieldList::Unit => {},
    }
}

/// An enum holds no more variants than a machine word counts.
pub proof fn lemma_variant_count_fits(ast: EnumDef)
    ensures
        variants_of(ast).len() <= usize::MAX,
{
    match ast.variant_list {
        Some(list) => {
            assert(list.len() <= usize::MAX);
        },
        None => {},
    }
}

} // verus!
