//! The abstract syntax tree of a C translation unit, and the values the
//! parser's contracts describe its parts with.

use vstd::prelude::*;
use crate::source::SourceLocation;

verus! {

/// A translation unit: its declarations in order.
#[derive(Debug)]
pub struct Program {
    pub declarations: Vec<Declaration>,
}

/// A top-level declaration.
#[derive(Debug)]
pub enum Declaration {
    FunctionDeclaration(FunctionDeclaration),
    Error,
}

/// A function definition.
#[derive(Debug)]
pub struct FunctionDeclaration {
    pub name: String,
    pub return_type: Type,
    pub parameters: Vec<Parameter>,
    pub body: CompoundStatement,
    pub location: SourceLocation,
}

/// A C type.
#[derive(Debug, PartialEq)]
pub enum Type {
    Int,
    Char,
    Float,
    Double,
    Long,
    Short,
    Void,
    Unsigned(Box<Type>),
    Pointer(Box<Type>),
}

/// A function parameter.
#[derive(Debug)]
pub struct Parameter {
    pub name: String,
    pub param_type: Type,
    pub location: SourceLocation,
}

/// A statement.
#[derive(Debug)]
pub enum Statement {
    Return(ReturnStatement),
    Compound(CompoundStatement),
    Expression(ExpressionStatement),
    If(Box<IfStatement>),
    While(WhileStatement),
    Null,
}

/// A block: its statements and where it starts.
#[derive(Debug)]
pub struct CompoundStatement {
    pub statements: Vec<Statement>,
    pub location: SourceLocation,
}

/// A `return` statement.
#[derive(Debug)]
pub struct ReturnStatement {
    pub expression: Option<Expression>,
    pub location: SourceLocation,
}

/// An expression used as a statement.
#[derive(Debug)]
pub struct ExpressionStatement {
    expression: Expression,
    location: SourceLocation,
}

/// An `if` statement.
#[derive(Debug)]
pub struct IfStatement {
    condition: Expression,
    then_branch: Box<Statement>,
    else_branch: Option<Box<Statement>>,
    location: SourceLocation,
}

/// A `while` statement.
#[derive(Debug)]
pub struct WhileStatement {
    condition: Expression,
    body: Box<Statement>,
    location: SourceLocation,
}

/// An expression.
#[derive(Debug)]
pub enum Expression {
    IntegerLiteral(i64, SourceLocation),
    /// A floating-point literal, held as the IEEE-754 bits of its `f64` value.
    FloatLiteral(u64, SourceLocation),
    StringLiteral(String, SourceLocation),
    CharLiteral(char, SourceLocation),
    Identifier(String, SourceLocation),
    BinaryOp(Box<BinaryOpExpression>),
    UnaryOp(Box<UnaryOpExpression>),
    FunctionCall(Box<FunctionCallExpression>),
    Assignment(Box<AssignmentExpression>),
}

/// A binary operation.
#[derive(Debug)]
pub struct BinaryOpExpression {
    operator: BinaryOperator,
    left: Box<Expression>,
    right: Box<Expression>,
    location: SourceLocation,
}

/// A unary operation.
#[derive(Debug)]
pub struct UnaryOpExpression {
    operator: UnaryOperator,
    operand: Expression,
    location: SourceLocation,
}

/// A function call.
#[derive(Debug)]
pub struct FunctionCallExpression {
    name: String,
    arguments: Vec<Expression>,
    location: SourceLocation,
}

/// An assignment to a variable.
#[derive(Debug)]
pub struct AssignmentExpression {
    target: String,
    value: Box<Expression>,
    location: SourceLocation,
}

/// Unary operators.
#[derive(Debug)]
pub enum UnaryOperator {
    Negate,
    LogicalNot,
    BitwiseNot,
    Dereference,
    AddressOf,
    PreIncrement,
    PostIncrement,
    PreDecrement,
    PostDecrement,
}

/// Binary operators.
#[derive(Debug)]
pub enum BinaryOperator {
    Add,
    Subtract,
    Multiply,
    Divide,
    Modulus,
    Equal,
    NotEqual,
    LessThan,
    GreaterThan,
    LessThanOrEqual,
    GreaterThanOrEqual,
    LogicalAnd,
    LogicalOr,
    BitwiseAnd,
    BitwiseOr,
    BitwiseXor,
    ShiftLeft,
    ShiftRight,
}

/// A parameter as a value.
pub struct ParamModel {
    pub name: Seq<char>,
    pub param_type: Type,
    pub location: SourceLocation,
}

impl View for Parameter {
    type V = ParamModel;

    open spec fn view(&self) -> ParamModel {
        ParamModel { name: self.name@, param_type: self.param_type, location: self.location }
    }
}

/// A block as a value.
pub struct CompoundModel {
    pub statements: Seq<Statement>,
    pub location: SourceLocation,
}

impl View for CompoundStatement {
    type V = CompoundModel;

    open spec fn view(&self) -> CompoundModel {
        CompoundModel { statements: self.statements@, location: self.location }
    }
}

/// A function definition as a value.
pub struct FunctionModel {
    pub name: Seq<char>,
    pub return_type: Type,
    pub parameters: Seq<ParamModel>,
    pub body: CompoundModel,
    pub location: SourceLocation,
}

impl View for FunctionDeclaration {
    type V = FunctionModel;

    open spec fn view(&self) -> FunctionModel {
        FunctionModel {
            name: self.name@,
            return_type: self.return_type,
            parameters: self.parameters@.map_values(|p: Parameter| p@),
            body: self.body@,
            location: self.location,
        }
    }
}

/// A declaration as a value.
pub enum DeclarationModel {
    Function(FunctionModel),
    Error,
}

impl View for Declaration {
    type V = DeclarationModel;

    open spec fn view(&self) -> DeclarationModel {
        match self {
            Declaration::FunctionDeclaration(f) => DeclarationModel::Function(f@),
            Declaration::Error => DeclarationModel::Error,
        }
    }
}

impl View for Program {
    type V = Seq<DeclarationModel>;

    open spec fn view(&self) -> Seq<DeclarationModel> {
        self.declarations@.map_values(|d: Declaration| d@)
    }
}

} // verus!
