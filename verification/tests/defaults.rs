use schema_differ::datamodel::{
    lower_default_value, lower_prisma_value, validate_dbgenerated, DefaultAttributeValidator,
    DefaultValue, Expression, Field, PrismaValue, ScalarField, Span, ValueGenerator,
};

fn scalar_field(default_value: Option<DefaultValue>) -> Field {
    Field::ScalarField(ScalarField { default_value })
}

fn span() -> Span {
    Span { start: 3, end: 9 }
}

#[test]
fn integers_lower_to_decimal_numeric_literals() {
    let e = lower_prisma_value(&PrismaValue::Int(42));
    assert_eq!(e, Expression::NumericValue("42".to_owned(), Span { start: 0, end: 0 }));
    let e = lower_prisma_value(&PrismaValue::Int(-7));
    assert_eq!(e, Expression::NumericValue("-7".to_owned(), Span { start: 0, end: 0 }));
    let e = lower_prisma_value(&PrismaValue::BigInt(9007199254740993));
    assert_eq!(
        e,
        Expression::NumericValue("9007199254740993".to_owned(), Span { start: 0, end: 0 })
    );
    let e = lower_prisma_value(&PrismaValue::Int(i64::MIN));
    assert_eq!(
        e,
        Expression::NumericValue("-9223372036854775808".to_owned(), Span { start: 0, end: 0 })
    );
    let e = lower_prisma_value(&PrismaValue::Int(0));
    assert_eq!(e, Expression::NumericValue("0".to_owned(), Span { start: 0, end: 0 }));
}

#[test]
fn booleans_null_and_enums_lower_to_constants() {
    let e = lower_prisma_value(&PrismaValue::Boolean(true));
    assert_eq!(e, Expression::BooleanValue("true".to_owned(), Span { start: 0, end: 0 }));
    let e = lower_prisma_value(&PrismaValue::Boolean(false));
    assert_eq!(e, Expression::BooleanValue("false".to_owned(), Span { start: 0, end: 0 }));
    let e = lower_prisma_value(&PrismaValue::Null);
    assert_eq!(e, Expression::ConstantValue("null".to_owned(), Span { start: 0, end: 0 }));
    let e = lower_prisma_value(&PrismaValue::Enum("blue".to_owned()));
    assert_eq!(e, Expression::ConstantValue("blue".to_owned(), Span { start: 0, end: 0 }));
}

#[test]
fn lists_lower_element_wise() {
    let e = lower_prisma_value(&PrismaValue::List(vec![
        PrismaValue::Int(1),
        PrismaValue::String("two".to_owned()),
    ]));
    assert_eq!(
        e,
        Expression::Array(
            vec![
                Expression::NumericValue("1".to_owned(), Span { start: 0, end: 0 }),
                Expression::StringValue("two".to_owned(), Span { start: 0, end: 0 }),
            ],
            Span { start: 0, end: 0 }
        )
    );
}

#[test]
fn generator_defaults_lower_to_function_calls() {
    let dv = DefaultValue::Expression(ValueGenerator {
        name: "dbgenerated".to_owned(),
        args: vec![PrismaValue::String("now()".to_owned())],
    });
    let e = lower_default_value(dv);
    assert_eq!(
        e,
        Expression::Function(
            "dbgenerated".to_owned(),
            vec![Expression::StringValue("now()".to_owned(), Span { start: 0, end: 0 })],
            Span { start: 0, end: 0 }
        )
    );
}

#[test]
fn single_defaults_lower_to_their_value() {
    let dv = DefaultValue::Single(PrismaValue::DateTime("2020-01-01T00:00:00+00:00".to_owned()));
    let e = lower_default_value(dv);
    assert_eq!(
        e,
        Expression::StringValue("2020-01-01T00:00:00+00:00".to_owned(), Span { start: 0, end: 0 })
    );
}

#[test]
fn empty_dbgenerated_argument_is_rejected() {
    let validator = DefaultAttributeValidator;
    let field = scalar_field(Some(DefaultValue::Expression(ValueGenerator {
        name: "dbgenerated".to_owned(),
        args: vec![PrismaValue::String("".to_owned())],
    })));
    let result = validate_dbgenerated(&validator, &field, span());
    let err = result.expect_err("the empty argument must be rejected");
    assert_eq!(
        err.message,
        "dbgenerated() takes either no argument, or a single nonempty string argument."
    );
    assert_eq!(err.span, span());
}

#[test]
fn nonempty_or_absent_dbgenerated_argument_passes() {
    let validator = DefaultAttributeValidator;
    let with_arg = scalar_field(Some(DefaultValue::Expression(ValueGenerator {
        name: "dbgenerated".to_owned(),
        args: vec![PrismaValue::String("uuid_generate_v4()".to_owned())],
    })));
    assert!(validate_dbgenerated(&validator, &with_arg, span()).is_ok());
    let without_arg = scalar_field(Some(DefaultValue::Expression(ValueGenerator {
        name: "dbgenerated".to_owned(),
        args: vec![],
    })));
    assert!(validate_dbgenerated(&validator, &without_arg, span()).is_ok());
    let other_generator = scalar_field(Some(DefaultValue::Expression(ValueGenerator {
        name: "autoincrement".to_owned(),
        args: vec![],
    })));
    assert!(validate_dbgenerated(&validator, &other_generator, span()).is_ok());
    let relation = Field::RelationField;
    assert!(validate_dbgenerated(&validator, &relation, span()).is_ok());
}

#[test]
fn serialize_renders_one_default_attribute() {
    let validator = DefaultAttributeValidator;
    let field = scalar_field(Some(DefaultValue::Single(PrismaValue::Int(3))));
    let attributes = validator.serialize(&field);
    assert_eq!(attributes.len(), 1);
    assert_eq!(attributes[0].name, "default");
    assert_eq!(attributes[0].arguments.len(), 1);
    assert_eq!(attributes[0].arguments[0].name, "");
    assert_eq!(
        attributes[0].arguments[0].value,
        Expression::NumericValue("3".to_owned(), Span { start: 0, end: 0 })
    );
    let bare = scalar_field(None);
    assert!(validator.serialize(&bare).is_empty());
    assert_eq!(validator.attribute_name(), "default");
}
