//! Lowering of datamodel default values to attribute expressions: the value
//! side of the builtin default attribute, rendered back into expression form,
//! and the validation of database-generated default expressions.

use vstd::prelude::*;

verus! {

/// A source location; lowered expressions carry the empty span.
#[derive(Clone, Copy, Debug, PartialEq, Eq, Structural)]
pub struct Span {
    pub start: usize,
    pub end: usize,
}

impl Span {
    pub open spec fn empty_spec() -> Span {
        Span { start: 0, end: 0 }
    }

    /// The span of generated code.
    pub fn empty() -> (r: Span)
        ensures
            r == Span::empty_spec(),
    {
        Span { start: 0, end: 0 }
    }
}

/// A scalar value of the data model, held in its rendered form where the
/// underlying type is foreign to the lowering (calendar times, decimals,
/// UUIDs, JSON documents and encoded byte strings are carried as text).
#[derive(Debug, PartialEq, Eq)]
pub enum PrismaValue {
    Boolean(bool),
    String(String),
    Enum(String),
    DateTime(String),
    Float(String),
    Int(i64),
    BigInt(i64),
    Null,
    Uuid(String),
    Json(String),
    List(Vec<PrismaValue>),
    Xml(String),
    Bytes(String),
}

/// A generator expression, such as a database-generated default.
#[derive(Debug, PartialEq, Eq)]
pub struct ValueGenerator {
    pub name: String,
    pub args: Vec<PrismaValue>,
}

/// A field's default: a single value or a generator expression.
#[derive(Debug, PartialEq, Eq)]
pub enum DefaultValue {
    Single(PrismaValue),
    Expression(ValueGenerator),
}

/// An attribute-argument expression of the schema language.
#[derive(Debug, PartialEq, Eq)]
pub enum Expression {
    NumericValue(String, Span),
    BooleanValue(String, Span),
    StringValue(String, Span),
    ConstantValue(String, Span),
    Function(String, Vec<Expression>, Span),
    Array(Vec<Expression>, Span),
}

#[derive(Debug, PartialEq, Eq)]
pub struct Argument {
    pub name: String,
    pub value: Expression,
}

#[derive(Debug, PartialEq, Eq)]
pub struct Attribute {
    pub name: String,
    pub arguments: Vec<Argument>,
}

/// A schema-validation error: a message and the place it points at.
#[derive(Clone, Debug, PartialEq, Eq)]
pub struct DatamodelError {
    pub message: String,
    pub span: Span,
}

/// A field of the data model, reduced to what default handling reads: its
/// optional default value, or the fact that it is a relation field.
#[derive(Debug, PartialEq, Eq)]
pub enum Field {
    ScalarField(ScalarField),
    RelationField,
}

#[derive(Debug, PartialEq, Eq)]
pub struct ScalarField {
    pub default_value: Option<DefaultValue>,
}

impl Field {
    /// The field's default value, when one is set.
    pub open spec fn default_value_spec(self) -> Option<DefaultValue> {
        match self {
            Field::ScalarField(sf) => sf.default_value,
            Field::RelationField => Option::None,
        }
    }

    pub fn default_value(&self) -> (r: Option<&DefaultValue>)
        ensures
            match r {
                Option::Some(dv) => self.default_value_spec() == Option::Some(*dv),
                Option::None => self.default_value_spec() is None,
            },
    {
        match self {
            Field::ScalarField(sf) => {
                match &sf.default_value {
                    Option::Some(dv) => Option::Some(dv),
                    Option::None => Option::None,
                }
            },
            Field::RelationField => Option::None,
        }
    }
}

// --- Decimal rendering of integers ---------------------------------------------------

/// The character of one decimal digit.
pub open spec fn dec_digit(d: int) -> char {
    ((48 + d) as u8) as char
}

/// The decimal rendering of a non-negative integer.
pub open spec fn dec_str_nat(n: int) -> Seq<char>
    decreases n,
{
    if n < 10 {
        seq![dec_digit(n)]
    } else {
        dec_str_nat(n / 10).push(dec_digit(n % 10))
    }
}

/// The decimal rendering of an integer, with a leading minus sign when
/// negative.
pub open spec fn dec_str_int(n: int) -> Seq<char> {
    if n < 0 {
        seq!['-'] + dec_str_nat(-n)
    } else {
        dec_str_nat(n)
    }
}

fn digit_str(d: u64) -> (r: String)
    requires
        d < 10,
    ensures
        r@ == seq![dec_digit(d as int)],
{
    let r = match d {
        0 => String::from_str("0"),
        1 => String::from_str("1"),
        2 => String::from_str("2"),
        3 => String::from_str("3"),
        4 => String::from_str("4"),
        5 => String::from_str("5"),
        6 => String::from_str("6"),
        7 => String::from_str("7"),
        8 => String::from_str("8"),
        _ => String::from_str("9"),
    };
    proof {
        reveal_strlit("0");
        reveal_strlit("1");
        reveal_strlit("2");
        reveal_strlit("3");
        reveal_strlit("4");
        reveal_strlit("5");
        reveal_strlit("6");
        reveal_strlit("7");
        reveal_strlit("8");
        reveal_strlit("9");
        assert(r@ =~= seq![dec_digit(d as int)]);
    }
    r
}

fn u64_to_string(n: u64) -> (r: String)
    ensures
        r@ == dec_str_nat(n as int),
    decreases n,
{
    if n < 10 {
        digit_str(n)
    } else {
        let mut prefix = u64_to_string(n / 10);
        let last = digit_str(n % 10);
        prefix.append(last.as_str());
        proof {
            assert(prefix@ =~= dec_str_nat((n / 10) as int).push(dec_digit((n % 10) as int)));
        }
        prefix
    }
}

/// Render an integer in decimal notation.
fn i64_to_string(n: i64) -> (r: String)
    ensures
        r@ == dec_str_int(n as int),
{
    if n >= 0 {
        u64_to_string(n as u64)
    } else {
        let magnitude: u64 = if n == i64::MIN {
            9223372036854775808u64
        } else {
            (-n) as u64
        };
        let mut out = String::from_str("-");
        let digits = u64_to_string(magnitude);
        out.append(digits.as_str());
        proof {
            reveal_strlit("-");
            assert(magnitude as int == -(n as int));
            assert(out@ =~= seq!['-'] + dec_str_nat(-(n as int)));
        }
        out
    }
}

// --- Lowering ------------------------------------------------------------------------

/// What it means for an expression to be the lowering of a scalar value:
/// booleans render as boolean literals, numbers in decimal notation, enum
/// values and null as bare constants, lists element-wise as arrays, and every
/// other value as its text rendering in a string literal. Lowered expressions
/// carry the empty span.
pub open spec fn lowers_to(pv: PrismaValue, e: Expression) -> bool
    decreases pv,
{
    match pv {
        PrismaValue::Boolean(b) => e matches Expression::BooleanValue(s, sp) && s@ == (if b {
            "true"@
        } else {
            "false"@
        }) && sp == Span::empty_spec(),
        PrismaValue::String(v) => e matches Expression::StringValue(s, sp) && s@ == v@ && sp
            == Span::empty_spec(),
        PrismaValue::Enum(v) => e matches Expression::ConstantValue(s, sp) && s@ == v@ && sp
            == Span::empty_spec(),
        PrismaValue::DateTime(v) => e matches Expression::StringValue(s, sp) && s@ == v@ && sp
            == Span::empty_spec(),
        PrismaValue::Float(v) => e matches Expression::NumericValue(s, sp) && s@ == v@ && sp
            == Span::empty_spec(),
        PrismaValue::Int(n) => e matches Expression::NumericValue(s, sp) && s@ == dec_str_int(
            n as int,
        ) && sp == Span::empty_spec(),
        PrismaValue::BigInt(n) => e matches Expression::NumericValue(s, sp) && s@ == dec_str_int(
            n as int,
        ) && sp == Span::empty_spec(),
        PrismaValue::Null => e matches Expression::ConstantValue(s, sp) && s@ == "null"@ && sp
            == Span::empty_spec(),
        PrismaValue::Uuid(v) => e matches Expression::StringValue(s, sp) && s@ == v@ && sp
            == Span::empty_spec(),
        PrismaValue::Json(v) => e matches Expression::StringValue(s, sp) && s@ == v@ && sp
            == Span::empty_spec(),
        PrismaValue::List(vs) => e matches Expression::Array(es, sp) && es@.len() == vs@.len() && sp
            == Span::empty_spec() && (forall|i: int|
            0 <= i < vs@.len() ==> lowers_to(#[trigger] vs@[i], es@[i])),
        PrismaValue::Xml(v) => e matches Expression::StringValue(s, sp) && s@ == v@ && sp
            == Span::empty_spec(),
        PrismaValue::Bytes(v) => e matches Expression::StringValue(s, sp) && s@ == v@ && sp
            == Span::empty_spec(),
    }
}

/// Lower one scalar value to its expression form.
pub fn lower_prisma_value(pv: &PrismaValue) -> (r: Expression)
    ensures
        lowers_to(*pv, r),
    decreases *pv,
{
    match pv {
        PrismaValue::Boolean(b) => {
            if *b {
                Expression::BooleanValue(String::from_str("true"), Span::empty())
            } else {
                Expression::BooleanValue(String::from_str("false"), Span::empty())
            }
        },
        PrismaValue::String(v) => Expression::StringValue(v.clone(), Span::empty()),
        PrismaValue::Enum(v) => Expression::ConstantValue(v.clone(), Span::empty()),
        PrismaValue::DateTime(v) => Expression::StringValue(v.clone(), Span::empty()),
        PrismaValue::Float(v) => Expression::NumericValue(v.clone(), Span::empty()),
        PrismaValue::Int(n) => Expression::NumericValue(i64_to_string(*n), Span::empty()),
        PrismaValue::BigInt(n) => Expression::NumericValue(i64_to_string(*n), Span::empty()),
        PrismaValue::Null => Expression::ConstantValue(String::from_str("null"), Span::empty()),
        PrismaValue::Uuid(v) => Expression::StringValue(v.clone(), Span::empty()),
        PrismaValue::Json(v) => Expression::StringValue(v.clone(), Span::empty()),
        PrismaValue::List(vs) => {
            let mut out: Vec<Expression> = Vec::new();
            let mut i: usize = 0;
            while i < vs.len()
                invariant
                    *pv is List,
                    (*pv)->List_0 == *vs,
                    i <= vs@.len(),
                    out@.len() == i,
                    forall|k: int| 0 <= k < i ==> lowers_to(#[trigger] vs@[k], out@[k]),
                decreases vs@.len() - i,
            {
                proof {
                    assert(decreases_to!(*pv => (*pv)->List_0));
                    assert(decreases_to!(*vs => vs@));
                    assert(decreases_to!(vs@ => vs@[i as int]));
                }
                let e = lower_prisma_value(&vs[i]);
                out.push(e);
                i = i + 1;
            }
            Expression::Array(out, Span::empty())
        },
        PrismaValue::Xml(v) => Expression::StringValue(v.clone(), Span::empty()),
        PrismaValue::Bytes(v) => Expression::StringValue(v.clone(), Span::empty()),
    }
}

/// What it means for an expression to be the lowering of a default value: a
/// single value lowers as the value itself, a generator expression as a call
/// of the generator's name on its lowered arguments.
pub open spec fn default_lowers_to(dv: DefaultValue, e: Expression) -> bool {
    match dv {
        DefaultValue::Single(v) => lowers_to(v, e),
        DefaultValue::Expression(g) => e matches Expression::Function(name, es, sp) && name@
            == g.name@ && es@.len() == g.args@.len() && sp == Span::empty_spec() && (forall|i: int|
            0 <= i < g.args@.len() ==> lowers_to(#[trigger] g.args@[i], es@[i])),
    }
}

fn lower_default_value_ref(dv: &DefaultValue) -> (r: Expression)
    ensures
        default_lowers_to(*dv, r),
{
    match dv {
        DefaultValue::Single(v) => lower_prisma_value(v),
        DefaultValue::Expression(g) => {
            let mut out: Vec<Expression> = Vec::new();
            let mut i: usize = 0;
            while i < g.args.len()
                invariant
                    i <= g.args@.len(),
                    out@.len() == i,
                    forall|k: int| 0 <= k < i ==> lowers_to(#[trigger] g.args@[k], out@[k]),
                decreases g.args@.len() - i,
            {
                let e = lower_prisma_value(&g.args[i]);
                out.push(e);
                i = i + 1;
            }
            Expression::Function(g.name.clone(), out, Span::empty())
        },
    }
}

/// Lower a default value to the expression form the attribute carries.
pub fn lower_default_value(dv: DefaultValue) -> (r: Expression)
    ensures
        default_lowers_to(dv, r),
{
    lower_default_value_ref(&dv)
}

// --- Database-generated default validation ---------------------------------------------

impl ValueGenerator {
    /// The generator stands for a database-computed default.
    pub open spec fn is_dbgenerated_spec(self) -> bool {
        self.name@ == "dbgenerated"@
    }

    /// The text argument of a database-generated default, when it has one.
    pub open spec fn as_dbgenerated_spec(self) -> Option<Seq<char>> {
        if self.is_dbgenerated_spec() && self.args@.len() == 1 && (self.args@[0] matches
        PrismaValue::String(_)) {
            match self.args@[0] {
                PrismaValue::String(s) => Option::Some(s@),
                _ => Option::None,
            }
        } else {
            Option::None
        }
    }
}

/// The default is a database-generated expression whose single argument is
/// the empty string, which the schema language rejects.
pub open spec fn dbgenerated_with_empty_arg(field: Field) -> bool {
    match field.default_value_spec() {
        Option::Some(DefaultValue::Expression(g)) => g.as_dbgenerated_spec() == Option::Some(
            Seq::<char>::empty(),
        ),
        _ => false,
    }
}

/// The validator of the builtin default attribute.
#[derive(Clone, Copy, Debug, PartialEq, Eq, Structural)]
pub struct DefaultAttributeValidator;

impl DefaultAttributeValidator {
    /// The attribute this validator is responsible for.
    pub fn attribute_name(&self) -> (r: &'static str)
        ensures
            r@ == "default"@,
    {
        "default"
    }

    /// An attribute-validation failure at the given place.
    pub fn new_attribute_validation_error(&self, message: &str, span: Span) -> (r: Result<
        (),
        DatamodelError,
    >)
        ensures
            r matches Result::Err(e) && e.message@ == message@ && e.span == span,
    {
        Result::Err(DatamodelError { message: String::from_str(message), span })
    }

    /// Render a field's default back into its attribute form: one default
    /// attribute holding the lowered value, or nothing when the field has no
    /// default.
    pub fn serialize(&self, field: &Field) -> (r: Vec<Attribute>)
        ensures
            match field.default_value_spec() {
                Option::Some(dv) => r@.len() == 1 && r@[0].name@ == "default"@
                    && r@[0].arguments@.len() == 1 && r@[0].arguments@[0].name@ == Seq::<
                    char,
                >::empty() && default_lowers_to(dv, r@[0].arguments@[0].value),
                Option::None => r@.len() == 0,
            },
    {
        match field.default_value() {
            Option::Some(default_value) => {
                let lowered = lower_default_value_ref(default_value);
                let argument = Argument { name: String::new(), value: lowered };
                let mut arguments: Vec<Argument> = Vec::new();
                arguments.push(argument);
                let attribute = Attribute {
                    name: String::from_str(self.attribute_name()),
                    arguments,
                };
                let mut out: Vec<Attribute> = Vec::new();
                out.push(attribute);
                out
            },
            Option::None => Vec::new(),
        }
    }
}

/// Reject a database-generated default whose single argument is the empty
/// string; every other default passes.
pub fn validate_dbgenerated(
    validator: &DefaultAttributeValidator,
    field: &Field,
    span: Span,
) -> (r: Result<(), DatamodelError>)
    ensures
        r is Err <==> dbgenerated_with_empty_arg(*field),
        r matches Result::Err(e) ==> e.span == span,
{
    match field.default_value() {
        Option::Some(DefaultValue::Expression(g)) => {
            let dbgen = String::from_str("dbgenerated");
            if g.name == dbgen && g.args.len() == 1 {
                match &g.args[0] {
                    PrismaValue::String(s) => {
                        if s.as_str().unicode_len() == 0 {
                            proof {
                                assert(s@ =~= Seq::<char>::empty());
                            }
                            return validator.new_attribute_validation_error(
                                "dbgenerated() takes either no argument, or a single nonempty string argument.",
                                span,
                            );
                        }
                        proof {
                            assert(s@ != Seq::<char>::empty());
                        }
                        Result::Ok(())
                    },
                    _ => Result::Ok(()),
                }
            } else {
                Result::Ok(())
            }
        },
        _ => Result::Ok(()),
    }
}

} // verus!
