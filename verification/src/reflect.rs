//! A shader's parameter layout as plain data, and the queries on it.
//!
//! The values are filled in by whoever talks to the shader compiler; the
//! queries answer from what was filled in.

use crate::codes::MatrixLayoutMode;
use crate::codes::ParameterCategory;
use crate::codes::ResourceAccess;
use crate::codes::ResourceShape;
use crate::codes::Stage;
use crate::codes::TypeKind;
use vstd::prelude::*;

verus! {

/// Whether `r` refers to the stored text, or both are absent.
pub open spec fn is_text_of(r: Option<&str>, stored: Option<String>) -> bool {
    match (r, stored) {
        (Some(a), Some(b)) => a@ == b@,
        (None, None) => true,
        _ => false,
    }
}

/// Whether `r` refers to the stored value, or both are absent.
pub open spec fn is_ref_of<T>(r: Option<&T>, stored: Option<T>) -> bool {
    match (r, stored) {
        (Some(a), Some(b)) => *a == b,
        (None, None) => true,
        _ => false,
    }
}

/// Whether `r` refers to the boxed value, or both are absent.
pub open spec fn is_ref_of_boxed<T>(r: Option<&T>, stored: Option<Box<T>>) -> bool {
    match (r, stored) {
        (Some(a), Some(b)) => *a == *b,
        (None, None) => true,
        _ => false,
    }
}

/// The text of an optional string.
fn text_of(stored: &Option<String>) -> (r: Option<&str>)
    ensures
        is_text_of(r, *stored),
{
    match stored {
        Some(s) => Some(s.as_str()),
        None => None,
    }
}

/// A reference to an optional value.
fn ref_of<T>(stored: &Option<T>) -> (r: Option<&T>)
    ensures
        is_ref_of(r, *stored),
{
    match stored {
        Some(v) => Some(v),
        None => None,
    }
}

/// A reference to an optional boxed value.
fn ref_of_boxed<T>(stored: &Option<Box<T>>) -> (r: Option<&T>)
    ensures
        is_ref_of_boxed(r, *stored),
{
    match stored {
        Some(v) => Some(&**v),
        None => None,
    }
}

/// A type of the shader language.
pub struct Type {
    pub scalar_type: crate::codes::ScalarType,
    pub element_count: usize,
    pub element_type: Option<Box<Type>>,
    pub row_count: u32,
    pub column_count: u32,
    pub resource_shape: ResourceShape,
    pub resource_access: ResourceAccess,
    pub resource_result_type: Option<Box<Type>>,
}

/// A type seen as a scalar.
#[derive(Clone, Copy)]
pub struct ScalarType<'a>(pub &'a Type);

impl<'a> ScalarType<'a> {
    /// The code of the scalar type.
    pub fn scalar_type(self) -> (r: crate::codes::ScalarType)
        ensures
            r == self.0.scalar_type,
    {
        self.0.scalar_type
    }
}

/// A type seen as a struct.
#[derive(Clone, Copy)]
pub struct StructType<'a>(pub &'a Type);

/// A type seen as an array or a vector.
#[derive(Clone, Copy)]
pub struct ArrayType<'a>(pub &'a Type);

impl<'a> ArrayType<'a> {
    /// The number of elements.
    pub fn element_count(self) -> (r: usize)
        ensures
            r == self.0.element_count,
    {
        self.0.element_count
    }

    /// The type of the elements.
    pub fn element_type(self) -> (r: Option<&'a Type>)
        ensures
            is_ref_of_boxed(r, self.0.element_type),
    {
        ref_of_boxed(&self.0.element_type)
    }
}

/// A type seen as a resource.
#[derive(Clone, Copy)]
pub struct ResourceType<'a>(pub &'a Type);

impl<'a> ResourceType<'a> {
    /// The shape of the resource.
    pub fn shape(self) -> (r: ResourceShape)
        ensures
            r == self.0.resource_shape,
    {
        self.0.resource_shape
    }

    /// The access the resource allows.
    pub fn access(self) -> (r: ResourceAccess)
        ensures
            r == self.0.resource_access,
    {
        self.0.resource_access
    }

    /// The type of what the resource holds.
    pub fn result_type(self) -> (r: Option<&'a Type>)
        ensures
            is_ref_of_boxed(r, self.0.resource_result_type),
    {
        ref_of_boxed(&self.0.resource_result_type)
    }
}

/// A shader variable.
pub struct Variable {
    pub name: Option<String>,
}

impl Variable {
    /// The variable's name.
    pub fn name(&self) -> (r: Option<&str>)
        ensures
            is_text_of(r, self.name),
    {
        text_of(&self.name)
    }
}

/// What a variable consumes of one parameter category: where it starts, and
/// in which space.
pub struct CategorySlot {
    pub category: ParameterCategory,
    pub offset: usize,
    pub space: usize,
}

/// The first slot of the given category.
pub open spec fn slot_of(slots: Seq<CategorySlot>, category: ParameterCategory) -> Option<
    CategorySlot,
>
    decreases slots.len(),
{
    if slots.len() == 0 {
        None
    } else if slots[0].category == category {
        Some(slots[0])
    } else {
        slot_of(slots.drop_first(), category)
    }
}

/// How a variable is laid out.
pub struct VariableLayout {
    pub variable: Option<Variable>,
    pub type_layout: Option<Box<TypeLayout>>,
    pub slots: Vec<CategorySlot>,
    pub binding_space: usize,
    pub semantic_name: Option<String>,
    pub semantic_index: usize,
}

/// How a type is laid out.
pub struct TypeLayout {
    pub ty: Option<Type>,
    pub kind: TypeKind,
    pub categories: Vec<ParameterCategory>,
    pub fields: Vec<VariableLayout>,
    pub element_type_layout: Option<Box<TypeLayout>>,
    pub element_var_layout: Option<Box<VariableLayout>>,
    pub matrix_layout_mode: MatrixLayoutMode,
}

/// The containers that hold a single element.
#[derive(Clone, Copy, Debug, PartialEq, Eq, Hash, Structural)]
pub enum SingleElementContainerType {
    ConstantBuffer,
    ParameterBlock,
    TextureBuffer,
    ShaderStorageBuffer,
}

/// The layout of a scalar type.
#[derive(Clone, Copy)]
pub struct ScalarTypeLayout<'a>(pub &'a TypeLayout);

/// The layout of a struct type.
#[derive(Clone, Copy)]
pub struct StructTypeLayout<'a>(pub &'a TypeLayout);

/// The layout of an array or vector type.
#[derive(Clone, Copy)]
pub struct ArrayTypeLayout<'a>(pub &'a TypeLayout);

/// The layout of a matrix type.
#[derive(Clone, Copy)]
pub struct MatrixTypeLayout<'a>(pub &'a TypeLayout);

/// The layout of a resource type.
#[derive(Clone, Copy)]
pub struct ResourceTypeLayout<'a>(pub &'a TypeLayout);

/// The layout of a container of a single element.
#[derive(Clone, Copy)]
pub struct ContainerTypeLayout<'a>(pub &'a TypeLayout);

/// A type layout by its kind, with the queries that the kind allows.
#[derive(Clone, Copy)]
pub enum TypeLayoutKind<'a> {
    Struct(StructTypeLayout<'a>),
    Array(ArrayTypeLayout<'a>),
    Matrix(MatrixTypeLayout<'a>),
    Vector(ArrayTypeLayout<'a>),
    Scalar(ScalarTypeLayout<'a>),
    Resource(ResourceTypeLayout<'a>),
    SingleElementContainer(ContainerTypeLayout<'a>, SingleElementContainerType),
    SamplerState,
    GenericTypeParameter,
    Interface,
    OutputStream,
    MeshOutput,
    Specialized,
    Feedback,
    Pointer,
    DynamicResource,
}

/// A type layout seen by its kind; nothing for a kind that layouts say
/// nothing of.
pub open spec fn layout_kind<'a>(layout: &'a TypeLayout) -> Option<TypeLayoutKind<'a>> {
    match layout.kind {
        TypeKind::Struct => Some(TypeLayoutKind::Struct(StructTypeLayout(layout))),
        TypeKind::Array => Some(TypeLayoutKind::Array(ArrayTypeLayout(layout))),
        TypeKind::Matrix => Some(TypeLayoutKind::Matrix(MatrixTypeLayout(layout))),
        TypeKind::Vector => Some(TypeLayoutKind::Vector(ArrayTypeLayout(layout))),
        TypeKind::Scalar => Some(TypeLayoutKind::Scalar(ScalarTypeLayout(layout))),
        TypeKind::Resource => Some(TypeLayoutKind::Resource(ResourceTypeLayout(layout))),
        TypeKind::ConstantBuffer => Some(
            TypeLayoutKind::SingleElementContainer(
                ContainerTypeLayout(layout),
                SingleElementContainerType::ConstantBuffer,
            ),
        ),
        TypeKind::ParameterBlock => Some(
            TypeLayoutKind::SingleElementContainer(
                ContainerTypeLayout(layout),
                SingleElementContainerType::ParameterBlock,
            ),
        ),
        TypeKind::TextureBuffer => Some(
            TypeLayoutKind::SingleElementContainer(
                ContainerTypeLayout(layout),
                SingleElementContainerType::TextureBuffer,
            ),
        ),
        TypeKind::ShaderStorageBuffer => Some(
            TypeLayoutKind::SingleElementContainer(
                ContainerTypeLayout(layout),
                SingleElementContainerType::ShaderStorageBuffer,
            ),
        ),
        TypeKind::SamplerState => Some(TypeLayoutKind::SamplerState),
        TypeKind::GenericTypeParameter => Some(TypeLayoutKind::GenericTypeParameter),
        TypeKind::Interface => Some(TypeLayoutKind::Interface),
        TypeKind::OutputStream => Some(TypeLayoutKind::OutputStream),
        TypeKind::MeshOutput => Some(TypeLayoutKind::MeshOutput),
        TypeKind::Specialized => Some(TypeLayoutKind::Specialized),
        TypeKind::Feedback => Some(TypeLayoutKind::Feedback),
        TypeKind::Pointer => Some(TypeLayoutKind::Pointer),
        TypeKind::DynamicResource => Some(TypeLayoutKind::DynamicResource),
        TypeKind::Other => None,
    }
}

/// The category at an index of a list, the empty category past its end.
pub open spec fn category_at(categories: Seq<ParameterCategory>, index: int) -> ParameterCategory {
    if 0 <= index < categories.len() {
        categories[index]
    } else {
        ParameterCategory(0)
    }
}

impl TypeLayout {
    /// The type that is laid out.
    pub fn ty(&self) -> (r: Option<&Type>)
        ensures
            is_ref_of(r, self.ty),
    {
        ref_of(&self.ty)
    }

    /// The layout seen by its kind.
    pub fn kind(&self) -> (r: Option<TypeLayoutKind<'_>>)
        ensures
            r == layout_kind(self),
    {
        match self.kind {
            TypeKind::Struct => Some(TypeLayoutKind::Struct(StructTypeLayout(self))),
            TypeKind::Array => Some(TypeLayoutKind::Array(ArrayTypeLayout(self))),
            TypeKind::Matrix => Some(TypeLayoutKind::Matrix(MatrixTypeLayout(self))),
            TypeKind::Vector => Some(TypeLayoutKind::Vector(ArrayTypeLayout(self))),
            TypeKind::Scalar => Some(TypeLayoutKind::Scalar(ScalarTypeLayout(self))),
            TypeKind::Resource => Some(TypeLayoutKind::Resource(ResourceTypeLayout(self))),
            TypeKind::ConstantBuffer => Some(
                TypeLayoutKind::SingleElementContainer(
                    ContainerTypeLayout(self),
                    SingleElementContainerType::ConstantBuffer,
                ),
            ),
            TypeKind::ParameterBlock => Some(
                TypeLayoutKind::SingleElementContainer(
                    ContainerTypeLayout(self),
                    SingleElementContainerType::ParameterBlock,
                ),
            ),
            TypeKind::TextureBuffer => Some(
                TypeLayoutKind::SingleElementContainer(
                    ContainerTypeLayout(self),
                    SingleElementContainerType::TextureBuffer,
                ),
            ),
            TypeKind::ShaderStorageBuffer => Some(
                TypeLayoutKind::SingleElementContainer(
                    ContainerTypeLayout(self),
                    SingleElementContainerType::ShaderStorageBuffer,
                ),
            ),
            TypeKind::SamplerState => Some(TypeLayoutKind::SamplerState),
            TypeKind::GenericTypeParameter => Some(TypeLayoutKind::GenericTypeParameter),
            TypeKind::Interface => Some(TypeLayoutKind::Interface),
            TypeKind::OutputStream => Some(TypeLayoutKind::OutputStream),
            TypeKind::MeshOutput => Some(TypeLayoutKind::MeshOutput),
            TypeKind::Specialized => Some(TypeLayoutKind::Specialized),
            TypeKind::Feedback => Some(TypeLayoutKind::Feedback),
            TypeKind::Pointer => Some(TypeLayoutKind::Pointer),
            TypeKind::DynamicResource => Some(TypeLayoutKind::DynamicResource),
            TypeKind::Other => None,
        }
    }

    /// The number of parameter categories the type consumes.
    pub fn category_count(&self) -> (n: u32)
        requires
            self.categories@.len() <= u32::MAX,
        ensures
            n == self.categories@.len(),
    {
        self.categories.len() as u32
    }

    /// The category at an index, the empty category past the last one.
    pub fn category_by_index(&self, index: u32) -> (c: ParameterCategory)
        ensures
            c == category_at(self.categories@, index as int),
    {
        if (index as usize) < self.categories.len() {
            self.categories[index as usize]
        } else {
            ParameterCategory::none()
        }
    }

    /// The parameter categories the type consumes, in order.
    pub fn categories(&self) -> (r: Vec<ParameterCategory>)
        ensures
            r@ == self.categories@,
    {
        let mut r: Vec<ParameterCategory> = Vec::new();
        let mut i: usize = 0;
        while i < self.categories.len()
            invariant
                i <= self.categories@.len(),
                r@ == self.categories@.take(i as int),
            decreases self.categories@.len() - i,
        {
            r.push(self.categories[i]);
            i = i + 1;
            assert(r@ =~= self.categories@.take(i as int));
        }
        assert(self.categories@.take(self.categories@.len() as int) =~= self.categories@);
        r
    }
}

impl<'a> ScalarTypeLayout<'a> {
    /// The scalar type that is laid out.
    pub fn ty(self) -> (r: Option<ScalarType<'a>>)
        ensures
            r is Some == self.0.ty is Some,
            r matches Some(t) ==> *t.0 == self.0.ty->0,
    {
        match &self.0.ty {
            Some(t) => Some(ScalarType(t)),
            None => None,
        }
    }

    /// The code of the scalar type that is laid out.
    pub fn scalar_type(self) -> (r: Option<crate::codes::ScalarType>)
        ensures
            r == match self.0.ty {
                Some(t) => Some(t.scalar_type),
                None => None,
            },
    {
        match self.ty() {
            Some(t) => Some(t.scalar_type()),
            None => None,
        }
    }
}

impl<'a> StructTypeLayout<'a> {
    /// The number of fields.
    pub fn field_count(self) -> (n: usize)
        ensures
            n == self.0.fields@.len(),
    {
        self.0.fields.len()
    }

    /// The layout of the field at an index.
    pub fn field_by_index(self, index: usize) -> (r: Option<&'a VariableLayout>)
        ensures
            index < self.0.fields@.len() ==> r == Some(&self.0.fields@[index as int]),
            index >= self.0.fields@.len() ==> r is None,
    {
        if index < self.0.fields.len() {
            Some(&self.0.fields[index])
        } else {
            None
        }
    }

    /// The layouts of the fields, in order.
    pub fn fields(&self) -> (r: Vec<&'a VariableLayout>)
        ensures
            r@.len() == self.0.fields@.len(),
            forall|i: int| 0 <= i < r@.len() ==> *r@[i] == self.0.fields@[i],
    {
        let layout: &'a TypeLayout = self.0;
        let mut r: Vec<&'a VariableLayout> = Vec::new();
        let mut i: usize = 0;
        while i < layout.fields.len()
            invariant
                i <= layout.fields@.len(),
                r@.len() == i,
                forall|k: int| 0 <= k < i ==> *r@[k] == layout.fields@[k],
            decreases layout.fields@.len() - i,
        {
            r.push(&layout.fields[i]);
            i = i + 1;
        }
        r
    }
}

impl<'a> ArrayTypeLayout<'a> {
    /// The array type that is laid out.
    pub fn ty(self) -> (r: Option<ArrayType<'a>>)
        ensures
            r is Some == self.0.ty is Some,
            r matches Some(t) ==> *t.0 == self.0.ty->0,
    {
        match &self.0.ty {
            Some(t) => Some(ArrayType(t)),
            None => None,
        }
    }

    /// The number of elements.
    pub fn element_count(self) -> (r: Option<usize>)
        ensures
            r == match self.0.ty {
                Some(t) => Some(t.element_count),
                None => None,
            },
    {
        match &self.0.ty {
            Some(t) => Some(t.element_count),
            None => None,
        }
    }

    /// The layout of the element type.
    pub fn element_type_layout(self) -> (r: Option<&'a TypeLayout>)
        ensures
            is_ref_of_boxed(r, self.0.element_type_layout),
    {
        ref_of_boxed(&self.0.element_type_layout)
    }

    /// The layout of an element as a variable.
    pub fn element_var_layout(self) -> (r: Option<&'a VariableLayout>)
        ensures
            is_ref_of_boxed(r, self.0.element_var_layout),
    {
        ref_of_boxed(&self.0.element_var_layout)
    }
}

impl<'a> MatrixTypeLayout<'a> {
    /// The number of rows.
    pub fn row_count(self) -> (r: Option<u32>)
        ensures
            r == match self.0.ty {
                Some(t) => Some(t.row_count),
                None => None,
            },
    {
        match &self.0.ty {
            Some(t) => Some(t.row_count),
            None => None,
        }
    }

    /// The number of columns.
    pub fn column_count(self) -> (r: Option<u32>)
        ensures
            r == match self.0.ty {
                Some(t) => Some(t.column_count),
                None => None,
            },
    {
        match &self.0.ty {
            Some(t) => Some(t.column_count),
            None => None,
        }
    }

    /// Whether the matrix is laid out by rows or by columns.
    pub fn matrix_layout_mode(self) -> (r: MatrixLayoutMode)
        ensures
            r == self.0.matrix_layout_mode,
    {
        self.0.matrix_layout_mode
    }
}

impl<'a> ResourceTypeLayout<'a> {
    /// The resource type that is laid out.
    pub fn ty(self) -> (r: Option<ResourceType<'a>>)
        ensures
            r is Some == self.0.ty is Some,
            r matches Some(t) ==> *t.0 == self.0.ty->0,
    {
        match &self.0.ty {
            Some(t) => Some(ResourceType(t)),
            None => None,
        }
    }

    /// The shape of the resource.
    pub fn shape(self) -> (r: Option<ResourceShape>)
        ensures
            r == match self.0.ty {
                Some(t) => Some(t.resource_shape),
                None => None,
            },
    {
        match self.ty() {
            Some(t) => Some(t.shape()),
            None => None,
        }
    }

    /// The access the resource allows.
    pub fn access(self) -> (r: Option<ResourceAccess>)
        ensures
            r == match self.0.ty {
                Some(t) => Some(t.resource_access),
                None => None,
            },
    {
        match self.ty() {
            Some(t) => Some(t.access()),
            None => None,
        }
    }

    /// The type of what the resource holds.
    pub fn result_type(self) -> (r: Option<&'a Type>)
        ensures
            r is Some == (self.0.ty is Some && self.0.ty->0.resource_result_type is Some),
            r matches Some(t) ==> *t == *self.0.ty->0.resource_result_type->0,
    {
        match self.ty() {
            Some(t) => t.result_type(),
            None => None,
        }
    }
}

impl<'a> ContainerTypeLayout<'a> {
    /// The layout of the element type.
    pub fn element_type_layout(self) -> (r: Option<&'a TypeLayout>)
        ensures
            is_ref_of_boxed(r, self.0.element_type_layout),
    {
        ref_of_boxed(&self.0.element_type_layout)
    }

    /// The layout of the element as a variable.
    pub fn element_var_layout(self) -> (r: Option<&'a VariableLayout>)
        ensures
            is_ref_of_boxed(r, self.0.element_var_layout),
    {
        ref_of_boxed(&self.0.element_var_layout)
    }
}

impl VariableLayout {
    /// The name of the variable that is laid out.
    pub fn name(&self) -> (r: Option<&str>)
        ensures
            r is Some == (self.variable is Some && self.variable->0.name is Some),
            r matches Some(s) ==> s@ == self.variable->0.name->0@,
    {
        match self.variable() {
            Some(v) => v.name(),
            None => None,
        }
    }

    /// The variable that is laid out.
    pub fn variable(&self) -> (r: Option<&Variable>)
        ensures
            is_ref_of(r, self.variable),
    {
        ref_of(&self.variable)
    }

    /// The layout of the variable's type.
    pub fn type_layout(&self) -> (r: Option<&TypeLayout>)
        ensures
            is_ref_of_boxed(r, self.type_layout),
    {
        ref_of_boxed(&self.type_layout)
    }

    /// The layout of the variable's type, seen by its kind.
    pub fn kind(&self) -> (r: Option<TypeLayoutKind<'_>>)
        ensures
            r == match self.type_layout {
                Some(t) => layout_kind(&*t),
                None => None,
            },
    {
        match self.type_layout() {
            Some(t) => t.kind(),
            None => None,
        }
    }

    /// The number of parameter categories the variable consumes: those of
    /// its type, none without a type layout.
    pub fn category_count(&self) -> (n: u32)
        requires
            self.type_layout matches Some(t) ==> t.categories@.len() <= u32::MAX,
        ensures
            n == match self.type_layout {
                Some(t) => t.categories@.len(),
                None => 0,
            },
    {
        match self.type_layout() {
            Some(t) => t.category_count(),
            None => 0,
        }
    }

    /// The category at an index: that of the variable's type, the empty
    /// category without a type layout.
    pub fn category_by_index(&self, index: u32) -> (c: ParameterCategory)
        ensures
            c == match self.type_layout {
                Some(t) => category_at(t.categories@, index as int),
                None => ParameterCategory(0),
            },
    {
        match self.type_layout() {
            Some(t) => t.category_by_index(index),
            None => ParameterCategory::none(),
        }
    }

    /// The parameter categories the variable consumes, in order.
    pub fn categories(&self) -> (r: Vec<ParameterCategory>)
        ensures
            r@ == match self.type_layout {
                Some(t) => t.categories@,
                None => Seq::empty(),
            },
    {
        match self.type_layout() {
            Some(t) => t.categories(),
            None => Vec::new(),
        }
    }

    /// The first slot of a category.
    fn slot(&self, category: ParameterCategory) -> (r: Option<&CategorySlot>)
        ensures
            is_ref_of(r, slot_of(self.slots@, category)),
    {
        let mut i: usize = 0;
        assert(self.slots@.skip(0) =~= self.slots@);
        while i < self.slots.len()
            invariant
                i <= self.slots@.len(),
                slot_of(self.slots@, category) == slot_of(self.slots@.skip(i as int), category),
            decreases self.slots@.len() - i,
        {
            if self.slots[i].category == category {
                assert(self.slots@.skip(i as int)[0] == self.slots@[i as int]);
                return Some(&self.slots[i]);
            }
            assert(self.slots@.skip(i as int).drop_first() =~= self.slots@.skip(i + 1));
            i = i + 1;
        }
        None
    }

    /// Where the variable starts in a category, 0 where it consumes
    /// nothing of it.
    pub fn offset(&self, category: ParameterCategory) -> (r: usize)
        ensures
            r == match slot_of(self.slots@, category) {
                Some(slot) => slot.offset,
                None => 0,
            },
    {
        match self.slot(category) {
            Some(slot) => slot.offset,
            None => 0,
        }
    }

    /// The space of the variable's binding.
    pub fn binding_space(&self) -> (r: usize)
        ensures
            r == self.binding_space,
    {
        self.binding_space
    }

    /// The space of the variable in a category, 0 where it consumes
    /// nothing of it.
    pub fn binding_space_with_category(&self, category: ParameterCategory) -> (r: usize)
        ensures
            r == match slot_of(self.slots@, category) {
                Some(slot) => slot.space,
                None => 0,
            },
    {
        match self.slot(category) {
            Some(slot) => slot.space,
            None => 0,
        }
    }

    /// The name of the variable's semantic.
    pub fn semantic_name(&self) -> (r: Option<&str>)
        ensures
            is_text_of(r, self.semantic_name),
    {
        text_of(&self.semantic_name)
    }

    /// The index of the variable's semantic.
    pub fn semantic_index(&self) -> (r: usize)
        ensures
            r == self.semantic_index,
    {
        self.semantic_index
    }
}

/// An entry point of a shader.
pub struct EntryPoint {
    pub name: Option<String>,
    pub stage: Stage,
    pub compute_thread_group_size: [u64; 3],
    pub compute_wave_size: u64,
    pub uses_any_sample_rate_input: bool,
    pub var_layout: Option<VariableLayout>,
    pub result_var_layout: Option<VariableLayout>,
}

impl EntryPoint {
    /// The entry point's name.
    pub fn name(&self) -> (r: Option<&str>)
        ensures
            is_text_of(r, self.name),
    {
        text_of(&self.name)
    }

    /// The stage the entry point is for.
    pub fn stage(&self) -> (r: Stage)
        ensures
            r == self.stage,
    {
        self.stage
    }

    /// The size of a compute thread group, by axis.
    pub fn compute_thread_group_size(&self) -> (r: [u64; 3])
        ensures
            r == self.compute_thread_group_size,
    {
        self.compute_thread_group_size
    }

    /// The wave size of a compute entry point.
    pub fn compute_wave_size(&self) -> (r: u64)
        ensures
            r == self.compute_wave_size,
    {
        self.compute_wave_size
    }

    /// Whether an input of the entry point is read at sample rate.
    pub fn uses_any_sample_rate_input(&self) -> (r: bool)
        ensures
            r == self.uses_any_sample_rate_input,
    {
        self.uses_any_sample_rate_input
    }

    /// The layout of the entry point's parameters.
    pub fn var_layout(&self) -> (r: Option<&VariableLayout>)
        ensures
            is_ref_of(r, self.var_layout),
    {
        ref_of(&self.var_layout)
    }

    /// The layout of the entry point's result.
    pub fn result_var_layout(&self) -> (r: Option<&VariableLayout>)
        ensures
            is_ref_of(r, self.result_var_layout),
    {
        ref_of(&self.result_var_layout)
    }
}

/// Whether an entry point has the given name.
pub open spec fn is_named(entry: EntryPoint, name: Seq<char>) -> bool {
    entry.name matches Some(n) && n@ == name
}

/// The layout of a whole shader program.
pub struct Shader {
    pub global_params_var_layout: Option<VariableLayout>,
    pub entry_points: Vec<EntryPoint>,
}

impl Shader {
    /// The layout of the global parameters.
    pub fn global_params_var_layout(&self) -> (r: Option<&VariableLayout>)
        ensures
            is_ref_of(r, self.global_params_var_layout),
    {
        ref_of(&self.global_params_var_layout)
    }

    /// The number of entry points.
    pub fn entry_point_count(&self) -> (n: usize)
        ensures
            n == self.entry_points@.len(),
    {
        self.entry_points.len()
    }

    /// The entry points, in order.
    pub fn entry_points(&self) -> (r: Vec<&EntryPoint>)
        ensures
            r@.len() == self.entry_points@.len(),
            forall|i: int| 0 <= i < r@.len() ==> *r@[i] == self.entry_points@[i],
    {
        let mut r: Vec<&EntryPoint> = Vec::new();
        let mut i: usize = 0;
        while i < self.entry_points.len()
            invariant
                i <= self.entry_points@.len(),
                r@.len() == i,
                forall|k: int| 0 <= k < i ==> *r@[k] == self.entry_points@[k],
            decreases self.entry_points@.len() - i,
        {
            r.push(&self.entry_points[i]);
            i = i + 1;
        }
        r
    }

    /// The first entry point of the given name.
    pub fn find_entry_point_by_name(&self, name: &str) -> (r: Option<&EntryPoint>)
        ensures
            match r {
                Some(entry) => exists|i: int|
                    0 <= i < self.entry_points@.len() && *entry == self.entry_points@[i]
                        && is_named(self.entry_points@[i], name@) && forall|k: int|
                        0 <= k < i ==> !is_named(#[trigger] self.entry_points@[k], name@),
                None => forall|k: int|
                    0 <= k < self.entry_points@.len() ==> !is_named(
                        #[trigger] self.entry_points@[k],
                        name@,
                    ),
            },
    {
        let wanted = name.to_owned();
        let mut i: usize = 0;
        while i < self.entry_points.len()
            invariant
                i <= self.entry_points@.len(),
                wanted@ == name@,
                forall|k: int| 0 <= k < i ==> !is_named(#[trigger] self.entry_points@[k], name@),
            decreases self.entry_points@.len() - i,
        {
            let entry = &self.entry_points[i];
            let found = match &entry.name {
                Some(n) => *n == wanted,
                None => false,
            };
            if found {
                return Some(entry);
            }
            i = i + 1;
        }
        None
    }

    /// The entry point at an index.
    pub fn entry_point_by_index(&self, index: usize) -> (r: Option<&EntryPoint>)
        ensures
            index < self.entry_points@.len() ==> r == Some(&self.entry_points@[index as int]),
            index >= self.entry_points@.len() ==> r is None,
    {
        if index < self.entry_points.len() {
            Some(&self.entry_points[index])
        } else {
            None
        }
    }
}

} // verus!
