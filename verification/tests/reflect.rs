use slang::codes::CompileTarget;
use slang::codes::MatrixLayoutMode;
use slang::codes::ParameterCategory;
use slang::codes::ProfileId;
use slang::codes::ResourceAccess;
use slang::codes::ResourceShape;
use slang::codes::ScalarType;
use slang::codes::Stage;
use slang::codes::TypeKind;
use slang::reflect::CategorySlot;
use slang::reflect::EntryPoint;
use slang::reflect::Shader;
use slang::reflect::SingleElementContainerType;
use slang::reflect::Type;
use slang::reflect::TypeLayout;
use slang::reflect::TypeLayoutKind;
use slang::reflect::Variable;
use slang::reflect::VariableLayout;
use slang::types::SessionDesc;
use slang::types::TargetDesc;

fn scalar(code: u32) -> Type {
    Type {
        scalar_type: ScalarType(code),
        element_count: 0,
        element_type: None,
        row_count: 0,
        column_count: 0,
        resource_shape: ResourceShape(0),
        resource_access: ResourceAccess(0),
        resource_result_type: None,
    }
}

fn layout(kind: TypeKind, ty: Option<Type>) -> TypeLayout {
    TypeLayout {
        ty,
        kind,
        categories: vec![ParameterCategory(8)],
        fields: Vec::new(),
        element_type_layout: None,
        element_var_layout: None,
        matrix_layout_mode: MatrixLayoutMode(1),
    }
}

fn variable(name: &str, type_layout: Option<TypeLayout>) -> VariableLayout {
    VariableLayout {
        variable: Some(Variable { name: Some(name.to_string()) }),
        type_layout: type_layout.map(Box::new),
        slots: vec![
            CategorySlot { category: ParameterCategory(8), offset: 16, space: 0 },
            CategorySlot { category: ParameterCategory(3), offset: 2, space: 1 },
            CategorySlot { category: ParameterCategory(8), offset: 99, space: 9 },
        ],
        binding_space: 4,
        semantic_name: Some("SV_Position".to_string()),
        semantic_index: 1,
    }
}

#[test]
fn variable_layout_answers_from_its_parts() {
    let v = variable("color", Some(layout(TypeKind::Scalar, Some(scalar(7)))));
    assert_eq!(v.name(), Some("color"));
    assert_eq!(v.variable().unwrap().name(), Some("color"));
    assert_eq!(v.semantic_name(), Some("SV_Position"));
    assert_eq!(v.semantic_index(), 1);
    assert_eq!(v.binding_space(), 4);
    assert_eq!(v.offset(ParameterCategory(8)), 16);
    assert_eq!(v.offset(ParameterCategory(3)), 2);
    assert_eq!(v.offset(ParameterCategory(5)), 0);
    assert_eq!(v.binding_space_with_category(ParameterCategory(3)), 1);
    assert_eq!(v.binding_space_with_category(ParameterCategory(8)), 0);
    assert_eq!(v.binding_space_with_category(ParameterCategory(5)), 0);
    assert_eq!(v.category_count(), 1);
    assert_eq!(v.category_by_index(0), ParameterCategory(8));
    assert_eq!(v.category_by_index(1), ParameterCategory::none());
    assert_eq!(v.categories(), vec![ParameterCategory(8)]);
    assert!(matches!(v.kind(), Some(TypeLayoutKind::Scalar(_))));
    assert!(v.type_layout().is_some());
}

#[test]
fn variable_layout_without_type_layout() {
    let mut v = variable("x", None);
    v.variable = None;
    v.semantic_name = None;
    assert_eq!(v.name(), None);
    assert!(v.variable().is_none());
    assert!(v.type_layout().is_none());
    assert!(v.kind().is_none());
    assert_eq!(v.category_count(), 0);
    assert_eq!(v.category_by_index(0), ParameterCategory::none());
    assert!(v.categories().is_empty());
    assert_eq!(v.semantic_name(), None);
    let unnamed = VariableLayout { variable: Some(Variable { name: None }), ..variable("x", None) };
    assert_eq!(unnamed.name(), None);
}

#[test]
fn type_layout_kinds() {
    let kinds = [
        TypeKind::Struct,
        TypeKind::Array,
        TypeKind::Matrix,
        TypeKind::Vector,
        TypeKind::Scalar,
        TypeKind::Resource,
        TypeKind::SamplerState,
        TypeKind::GenericTypeParameter,
        TypeKind::Interface,
        TypeKind::OutputStream,
        TypeKind::MeshOutput,
        TypeKind::Specialized,
        TypeKind::Feedback,
        TypeKind::Pointer,
        TypeKind::DynamicResource,
    ];
    for kind in kinds {
        let l = layout(kind, None);
        let seen = l.kind().unwrap();
        let same = match (kind, seen) {
            (TypeKind::Struct, TypeLayoutKind::Struct(_)) => true,
            (TypeKind::Array, TypeLayoutKind::Array(_)) => true,
            (TypeKind::Matrix, TypeLayoutKind::Matrix(_)) => true,
            (TypeKind::Vector, TypeLayoutKind::Vector(_)) => true,
            (TypeKind::Scalar, TypeLayoutKind::Scalar(_)) => true,
            (TypeKind::Resource, TypeLayoutKind::Resource(_)) => true,
            (TypeKind::SamplerState, TypeLayoutKind::SamplerState) => true,
            (TypeKind::GenericTypeParameter, TypeLayoutKind::GenericTypeParameter) => true,
            (TypeKind::Interface, TypeLayoutKind::Interface) => true,
            (TypeKind::OutputStream, TypeLayoutKind::OutputStream) => true,
            (TypeKind::MeshOutput, TypeLayoutKind::MeshOutput) => true,
            (TypeKind::Specialized, TypeLayoutKind::Specialized) => true,
            (TypeKind::Feedback, TypeLayoutKind::Feedback) => true,
            (TypeKind::Pointer, TypeLayoutKind::Pointer) => true,
            (TypeKind::DynamicResource, TypeLayoutKind::DynamicResource) => true,
            _ => false,
        };
        assert!(same, "{:?}", kind);
    }
    let containers = [
        (TypeKind::ConstantBuffer, SingleElementContainerType::ConstantBuffer),
        (TypeKind::ParameterBlock, SingleElementContainerType::ParameterBlock),
        (TypeKind::TextureBuffer, SingleElementContainerType::TextureBuffer),
        (TypeKind::ShaderStorageBuffer, SingleElementContainerType::ShaderStorageBuffer),
    ];
    for (kind, container) in containers {
        let l = layout(kind, None);
        match l.kind() {
            Some(TypeLayoutKind::SingleElementContainer(_, c)) => assert_eq!(c, container),
            _ => panic!("{:?}", kind),
        }
    }
    assert!(layout(TypeKind::Other, None).kind().is_none());
}

#[test]
fn typed_layouts_read_their_type() {
    let mut resource = scalar(0);
    resource.resource_shape = ResourceShape(2);
    resource.resource_access = ResourceAccess(1);
    resource.resource_result_type = Some(Box::new(scalar(9)));
    let l = layout(TypeKind::Resource, Some(resource));
    match l.kind() {
        Some(TypeLayoutKind::Resource(r)) => {
            assert_eq!(r.shape(), Some(ResourceShape(2)));
            assert_eq!(r.access(), Some(ResourceAccess(1)));
            assert_eq!(r.result_type().unwrap().scalar_type, ScalarType(9));
            assert_eq!(r.ty().unwrap().shape(), ResourceShape(2));
        },
        _ => panic!("not a resource"),
    }
    let l = layout(TypeKind::Resource, None);
    match l.kind() {
        Some(TypeLayoutKind::Resource(r)) => {
            assert_eq!(r.shape(), None);
            assert_eq!(r.access(), None);
            assert!(r.result_type().is_none());
            assert!(r.ty().is_none());
        },
        _ => panic!("not a resource"),
    }

    let l = layout(TypeKind::Scalar, Some(scalar(7)));
    match l.kind() {
        Some(TypeLayoutKind::Scalar(s)) => {
            assert_eq!(s.scalar_type(), Some(ScalarType(7)));
            assert_eq!(s.ty().unwrap().scalar_type(), ScalarType(7));
        },
        _ => panic!("not a scalar"),
    }

    let mut matrix = scalar(7);
    matrix.row_count = 3;
    matrix.column_count = 4;
    let l = layout(TypeKind::Matrix, Some(matrix));
    match l.kind() {
        Some(TypeLayoutKind::Matrix(m)) => {
            assert_eq!(m.row_count(), Some(3));
            assert_eq!(m.column_count(), Some(4));
            assert_eq!(m.matrix_layout_mode(), MatrixLayoutMode(1));
        },
        _ => panic!("not a matrix"),
    }

    let mut array = scalar(0);
    array.element_count = 5;
    array.element_type = Some(Box::new(scalar(7)));
    let mut l = layout(TypeKind::Array, Some(array));
    l.element_type_layout = Some(Box::new(layout(TypeKind::Scalar, Some(scalar(7)))));
    match l.kind() {
        Some(TypeLayoutKind::Array(a)) => {
            assert_eq!(a.element_count(), Some(5));
            assert_eq!(a.ty().unwrap().element_count(), 5);
            assert_eq!(a.ty().unwrap().element_type().unwrap().scalar_type, ScalarType(7));
            assert_eq!(a.element_type_layout().unwrap().kind, TypeKind::Scalar);
            assert!(a.element_var_layout().is_none());
        },
        _ => panic!("not an array"),
    }
}

#[test]
fn struct_layout_lists_its_fields() {
    let mut l = layout(TypeKind::Struct, None);
    l.fields = vec![variable("a", None), variable("b", None)];
    l.categories = vec![ParameterCategory(8), ParameterCategory(3)];
    assert_eq!(l.category_count(), 2);
    assert_eq!(l.category_by_index(1), ParameterCategory(3));
    assert_eq!(l.category_by_index(2), ParameterCategory(0));
    assert_eq!(l.categories(), vec![ParameterCategory(8), ParameterCategory(3)]);
    assert!(l.ty().is_none());
    match l.kind() {
        Some(TypeLayoutKind::Struct(s)) => {
            assert_eq!(s.field_count(), 2);
            assert_eq!(s.field_by_index(1).unwrap().name(), Some("b"));
            assert!(s.field_by_index(2).is_none());
            let names: Vec<Option<&str>> = s.fields().iter().map(|f| f.name()).collect();
            assert_eq!(names, vec![Some("a"), Some("b")]);
        },
        _ => panic!("not a struct"),
    }
}

#[test]
fn shader_lists_its_entry_points() {
    let entry = EntryPoint {
        name: Some("main".to_string()),
        stage: Stage(6),
        compute_thread_group_size: [8, 8, 1],
        compute_wave_size: 32,
        uses_any_sample_rate_input: false,
        var_layout: Some(variable("params", None)),
        result_var_layout: None,
    };
    let shader = Shader { global_params_var_layout: Some(variable("globals", None)), entry_points: vec![entry] };
    assert_eq!(shader.entry_point_count(), 1);
    assert_eq!(shader.global_params_var_layout().unwrap().name(), Some("globals"));
    let e = shader.entry_point_by_index(0).unwrap();
    assert!(shader.entry_point_by_index(1).is_none());
    assert_eq!(e.name(), Some("main"));
    assert_eq!(e.stage(), Stage(6));
    assert_eq!(e.compute_thread_group_size(), [8, 8, 1]);
    assert_eq!(e.compute_wave_size(), 32);
    assert!(!e.uses_any_sample_rate_input());
    assert_eq!(e.var_layout().unwrap().name(), Some("params"));
    assert!(e.result_var_layout().is_none());
}

#[test]
fn entry_points_are_found_by_name() {
    let entry = |name: Option<&str>, wave: u64| EntryPoint {
        name: name.map(|n| n.to_string()),
        stage: Stage(0),
        compute_thread_group_size: [1, 1, 1],
        compute_wave_size: wave,
        uses_any_sample_rate_input: true,
        var_layout: None,
        result_var_layout: None,
    };
    let shader = Shader {
        global_params_var_layout: None,
        entry_points: vec![
            entry(None, 0),
            entry(Some("vertex"), 1),
            entry(Some("fragment"), 2),
            entry(Some("vertex"), 3),
        ],
    };
    assert_eq!(shader.find_entry_point_by_name("vertex").unwrap().compute_wave_size(), 1);
    assert_eq!(shader.find_entry_point_by_name("fragment").unwrap().compute_wave_size(), 2);
    assert!(shader.find_entry_point_by_name("compute").is_none());
    assert!(shader.find_entry_point_by_name("").is_none());
    let waves: Vec<u64> = shader.entry_points().iter().map(|e| e.compute_wave_size()).collect();
    assert_eq!(waves, vec![0, 1, 2, 3]);
    assert!(shader.global_params_var_layout().is_none());
    assert!(shader.entry_points()[0].uses_any_sample_rate_input());
}

#[test]
fn descriptors_are_built_step_by_step() {
    let target = TargetDesc::default().format(CompileTarget(6)).profile(ProfileId(3));
    assert_eq!(target, TargetDesc { format: CompileTarget(6), profile: ProfileId(3) });
    assert_eq!(TargetDesc::default(), TargetDesc { format: CompileTarget(0), profile: ProfileId(0) });
    let targets = [target];
    let session = SessionDesc::new()
        .matrix_layout_mode(MatrixLayoutMode(2))
        .targets(&targets)
        .skip_spirv_validation(true);
    assert_eq!(session.matrix_layout_mode, MatrixLayoutMode(2));
    assert_eq!(session.targets, &targets);
    assert!(session.skip_spirv_validation);
    let plain = SessionDesc::new();
    assert!(plain.targets.is_empty());
    assert!(!plain.skip_spirv_validation);
    let plain = SessionDesc::default();
    assert_eq!(plain.matrix_layout_mode, MatrixLayoutMode(0));
    assert!(plain.targets.is_empty());
    assert!(!plain.skip_spirv_validation);
    assert!(ProfileId::unknown().is_unknown());
    assert!(!ProfileId(3).is_unknown());
}
