use cubeplan::ir::{
    Binding, ConstantScalarValue, CubeDim, Elem, FloatKind, IntKind, Item, Location, Scope,
    Variable, Visibility, SUBCUBE_DIM_APPROX,
};

fn all_elems() -> Vec<Elem> {
    vec![
        Elem::Float(FloatKind::F16),
        Elem::Float(FloatKind::BF16),
        Elem::Float(FloatKind::F32),
        Elem::Float(FloatKind::F64),
        Elem::Int(IntKind::I32),
        Elem::Int(IntKind::I64),
        Elem::UInt,
        Elem::Bool,
    ]
}

fn constant_elem(v: &Variable) -> Elem {
    let Variable::ConstantScalar(c) = v;
    c.elem()
}

#[test]
fn constant_tag_follows_element_not_literal() {
    for elem in all_elems() {
        assert_eq!(constant_elem(&elem.constant_from_i64(-7)), elem);
        assert_eq!(constant_elem(&elem.constant_from_u64(7)), elem);
        assert_eq!(constant_elem(&elem.constant_from_bool(true)), elem);
        assert_eq!(constant_elem(&elem.constant_from_bool(false)), elem);
    }
}

#[test]
fn constant_from_i64_values() {
    assert_eq!(
        Elem::Int(IntKind::I32).constant_from_i64(-3),
        Variable::ConstantScalar(ConstantScalarValue::Int(-3, IntKind::I32))
    );
    assert_eq!(
        Elem::Float(FloatKind::F32).constant_from_i64(-3),
        Variable::ConstantScalar(ConstantScalarValue::Float(-3, FloatKind::F32))
    );
    // C-style truncating cast into the unsigned domain
    assert_eq!(
        Elem::UInt.constant_from_i64(-1),
        Variable::ConstantScalar(ConstantScalarValue::UInt(u64::MAX))
    );
    // only strictly positive values are true
    assert_eq!(
        Elem::Bool.constant_from_i64(0),
        Variable::ConstantScalar(ConstantScalarValue::Bool(false))
    );
    assert_eq!(
        Elem::Bool.constant_from_i64(-5),
        Variable::ConstantScalar(ConstantScalarValue::Bool(false))
    );
    assert_eq!(
        Elem::Bool.constant_from_i64(9),
        Variable::ConstantScalar(ConstantScalarValue::Bool(true))
    );
}

#[test]
fn constant_from_u64_values() {
    assert_eq!(
        Elem::UInt.constant_from_u64(42),
        Variable::ConstantScalar(ConstantScalarValue::UInt(42))
    );
    // wraps into the signed domain
    assert_eq!(
        Elem::Int(IntKind::I64).constant_from_u64(u64::MAX),
        Variable::ConstantScalar(ConstantScalarValue::Int(-1, IntKind::I64))
    );
    assert_eq!(
        Elem::Bool.constant_from_u64(0),
        Variable::ConstantScalar(ConstantScalarValue::Bool(false))
    );
    assert_eq!(
        Elem::Bool.constant_from_u64(1),
        Variable::ConstantScalar(ConstantScalarValue::Bool(true))
    );
}

#[test]
fn constant_from_bool_values() {
    assert_eq!(
        Elem::Int(IntKind::I32).constant_from_bool(true),
        Variable::ConstantScalar(ConstantScalarValue::Int(1, IntKind::I32))
    );
    assert_eq!(
        Elem::UInt.constant_from_bool(false),
        Variable::ConstantScalar(ConstantScalarValue::UInt(0))
    );
    assert_eq!(
        Elem::Float(FloatKind::F64).constant_from_bool(true),
        Variable::ConstantScalar(ConstantScalarValue::Float(1, FloatKind::F64))
    );
}

#[test]
fn display_collapses_kind_detail() {
    assert_eq!(Elem::Float(FloatKind::F16).display_string(), "float");
    assert_eq!(Elem::Float(FloatKind::F64).display_string(), "float");
    assert_eq!(Elem::Int(IntKind::I32).display_string(), "int");
    assert_eq!(Elem::UInt.display_string(), "uint");
    assert_eq!(Elem::Bool.display_string(), "bool");
}

#[test]
fn item_construction() {
    let e = Elem::Float(FloatKind::F16);
    assert_eq!(Item::new(e), Item { elem: e, vectorization: 1 });
    assert_eq!(Item::vectorized(e, 4), Item { elem: e, vectorization: 4 });
    assert_eq!(Item::new(e).elem(), e);
    assert_eq!(Item::from(e), Item::new(e));
}

#[test]
fn cube_dim_default_is_square_subgroup() {
    assert_eq!(SUBCUBE_DIM_APPROX, 16);
    assert_eq!(CubeDim::default(), CubeDim { x: 16, y: 16, z: 1 });
    assert_eq!(CubeDim::new(2, 3, 4), CubeDim { x: 2, y: 3, z: 4 });
}

#[test]
fn binding_holds_its_fields() {
    let b = Binding {
        location: Location::Storage,
        visibility: Visibility::ReadWrite,
        item: Item::new(Elem::UInt),
        size: Some(64),
    };
    assert_eq!(b.location, Location::Storage);
    assert_eq!(b.visibility, Visibility::ReadWrite);
    assert_eq!(b.item.elem(), Elem::UInt);
    assert_eq!(b.size, Some(64));
    let s = Scope { depth: 0 };
    assert_eq!(s, Scope { depth: 0 });
}
