use sloth::ast::{Operand, Token, TokenType, Type};
use sloth::error::{CompileError, CompileErrorValue, TokenPosition};
use sloth::value::{value_eq, Value};

fn pos() -> TokenPosition {
    TokenPosition { line: 3, col: 9 }
}

#[test]
fn operators_parse_with_their_precedence() {
    assert_eq!(Operand::from_str("^"), Some((Operand::Pow, 0)));
    assert_eq!(Operand::from_str("*"), Some((Operand::Mul, 1)));
    assert_eq!(Operand::from_str("/"), Some((Operand::Div, 1)));
    assert_eq!(Operand::from_str("%"), Some((Operand::Mod, 1)));
    assert_eq!(Operand::from_str("+"), Some((Operand::Add, 2)));
    assert_eq!(Operand::from_str("-"), Some((Operand::Sub, 2)));
    assert_eq!(Operand::from_str("=="), Some((Operand::Equal, 3)));
    assert_eq!(Operand::from_str("!="), Some((Operand::NEqual, 3)));
    assert_eq!(Operand::from_str("<"), Some((Operand::Lt, 4)));
    assert_eq!(Operand::from_str(">"), Some((Operand::Gt, 4)));
    assert_eq!(Operand::from_str("<="), Some((Operand::LtEqual, 4)));
    assert_eq!(Operand::from_str(">="), Some((Operand::GtEqual, 4)));
}

#[test]
fn non_operators_parse_to_nothing() {
    assert_eq!(Operand::from_str(""), None);
    assert_eq!(Operand::from_str("&"), None);
    assert_eq!(Operand::from_str("=!"), None);
    assert_eq!(Operand::from_str("<=="), None);
}

fn type_token(content: &str) -> Token {
    Token { token_type: TokenType::Type, content: content.to_string(), position: pos() }
}

#[test]
fn primitive_type_names_resolve() {
    assert_eq!(Type::from(&type_token("i08")), Some(Type::I08));
    assert_eq!(Type::from(&type_token("i16")), Some(Type::I16));
    assert_eq!(Type::from(&type_token("i32")), Some(Type::I32));
    assert_eq!(Type::from(&type_token("i64")), Some(Type::I64));
    assert_eq!(Type::from(&type_token("i128")), Some(Type::I128));
    assert_eq!(Type::from(&type_token("f32")), Some(Type::F32));
    assert_eq!(Type::from(&type_token("f64")), Some(Type::F64));
    assert_eq!(Type::from(&type_token("u08")), Some(Type::U08));
    assert_eq!(Type::from(&type_token("u16")), Some(Type::U16));
    assert_eq!(Type::from(&type_token("u32")), Some(Type::U32));
    assert_eq!(Type::from(&type_token("u64")), Some(Type::U64));
    assert_eq!(Type::from(&type_token("u128")), Some(Type::U128));
    assert_eq!(Type::from(&type_token("char")), Some(Type::Char));
    assert_eq!(Type::from(&type_token("str")), Some(Type::Str));
    assert_eq!(Type::from(&type_token("bool")), Some(Type::Bool));
}

#[test]
fn unknown_type_name_resolves_to_nothing() {
    assert_eq!(Type::from(&type_token("i31")), None);
}

#[test]
fn identifier_token_resolves_to_named_type() {
    let t = Token {
        token_type: TokenType::Identifier,
        content: "Widget".to_string(),
        position: pos(),
    };
    assert_eq!(Type::from(&t), Some(Type::Identifier("Widget".to_string())));
}

#[test]
fn other_tokens_resolve_to_nothing() {
    let t = Token {
        token_type: TokenType::Keyword,
        content: "print".to_string(),
        position: pos(),
    };
    assert_eq!(Type::from(&t), None);
}

#[test]
fn compile_error_constructors_carry_position() {
    let plain = CompileError::new(CompileErrorValue::BranchTooFar);
    assert_eq!(plain.value, CompileErrorValue::BranchTooFar);
    assert_eq!(plain.position, None);
    let placed = CompileError::new_pos(CompileErrorValue::LocalOverflow, pos());
    assert_eq!(placed.value, CompileErrorValue::LocalOverflow);
    assert_eq!(placed.position, Some(pos()));
}

#[test]
fn truthiness_of_each_value_kind() {
    assert!(!Value::Null.truthy());
    assert!(!Value::Bool(false).truthy());
    assert!(Value::Bool(true).truthy());
    assert!(Value::Int(0).truthy());
    assert!(Value::Float(0.0f64.to_bits()).truthy());
    assert!(Value::Char('x').truthy());
    assert!(Value::HeapRef(0).truthy());
}

#[test]
fn value_equality_is_structural_per_variant() {
    assert!(value_eq(Value::Int(3), Value::Int(3)));
    assert!(!value_eq(Value::Int(3), Value::Int(4)));
    assert!(!value_eq(Value::Int(3), Value::Float(3.0f64.to_bits())));
    assert!(value_eq(Value::Char('a'), Value::Char('a')));
    assert!(value_eq(Value::Null, Value::Null));
    assert!(!value_eq(Value::Null, Value::Bool(false)));
}

#[test]
fn float_equality_follows_ieee_rules() {
    let nan = f64::NAN.to_bits();
    assert!(!value_eq(Value::Float(nan), Value::Float(nan)));
    let pz = 0.0f64.to_bits();
    let nz = (-0.0f64).to_bits();
    assert_ne!(pz, nz);
    assert!(value_eq(Value::Float(pz), Value::Float(nz)));
}

#[test]
fn type_compare_is_structural() {
    assert!(Type::I64.compare(&Type::I64));
    assert!(!Type::I64.compare(&Type::I32));
    let a = Type::Mut(Some(Box::new(Type::Int)));
    let b = Type::Mut(Some(Box::new(Type::Int)));
    assert!(a.compare(&b));
    assert!(!a.compare(&Type::Mut(None)));
    let s1 = Type::Signature(vec![Type::Int, Type::Bool]);
    let s2 = Type::Signature(vec![Type::Int, Type::Bool]);
    let s3 = Type::Signature(vec![Type::Int]);
    assert!(s1.compare(&s2));
    assert!(!s1.compare(&s3));
    assert!(Type::Identifier("A".to_string()).compare(&Type::Identifier("A".to_string())));
    assert!(!Type::Identifier("A".to_string()).compare(&Type::Identifier("B".to_string())));
}

#[test]
fn function_type_compare_covers_arms() {
    let f = |ret: Type| sloth::ast::FunctionSig { params: vec![Type::Int], ret: Box::new(ret) };
    let t1 = Type::Function(vec![f(Type::Bool)]);
    let t2 = Type::Function(vec![f(Type::Bool)]);
    let t3 = Type::Function(vec![f(Type::Int)]);
    assert!(t1.compare(&t2));
    assert!(!t1.compare(&t3));
}
