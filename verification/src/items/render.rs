use crate::items::item::assign_expr::assign::Assign;
use crate::items::item::assign_expr::assign_and::{AssignAnd, AssignAndType};
use crate::items::item::assign_expr::literal::number::NumberDiag;
use crate::items::item::assign_expr::literal::string::StringDiag;
use crate::items::item::assign_expr::literal::{Literal, LiteralType};
use crate::items::item::assign_expr::{AssignExpr, AssignExprType};
use crate::items::item::block::distruct::call::CallBlockDistruct;
use crate::items::item::ident::Ident;
use crate::slice::Slice;
use vstd::prelude::*;
use vstd::string::StringExecFns;

verus! {

/// How a name is shown: `Ident(name)`.
pub open spec fn ident_text(i: Ident) -> Seq<char> {
    "Ident("@ + i.0.source@ + ")"@
}

/// How the kind of a literal is shown.
pub open spec fn literal_type_text(t: LiteralType) -> Seq<char> {
    match t {
        LiteralType::Number => "Number"@,
        LiteralType::String => "String"@,
    }
}

/// How a literal is shown: `Literal(Kind(text))`.
pub open spec fn literal_text(l: Literal) -> Seq<char> {
    "Literal("@ + literal_type_text(l.type_) + "("@ + l.slice.source@ + "))"@
}

/// How an operation of an assignment is shown.
pub open spec fn assign_and_type_text(t: AssignAndType) -> Seq<char> {
    match t {
        AssignAndType::Add => "Add(+=)"@,
        AssignAndType::Sub => "Sub(-=)"@,
        AssignAndType::Mul => "Mul(*=)"@,
        AssignAndType::Div => "Div(/=)"@,
    }
}

/// How a plain assignment is shown.
pub open spec fn assign_text(a: Assign) -> Seq<char> {
    "AssignAnd("@ + ident_text(a.0.left) + " = "@ + literal_text(a.0.right) + ")"@
}

/// How an assignment with the operation `t` is shown.
pub open spec fn assign_and_text(t: AssignAndType, a: Assign) -> Seq<char> {
    "AssignAnd("@ + ident_text(a.0.left) + " "@ + assign_and_type_text(t) + " "@ + literal_text(
        a.0.right,
    ) + ")"@
}

impl<'s> Slice<'s> {
    /// The text of the slice.
    pub fn to_string(&self) -> (r: String)
        ensures
            r@ == self.source@,
    {
        String::from_str(self.source)
    }
}

impl<'s> Ident<'s> {
    pub fn to_string(&self) -> (r: String)
        ensures
            r@ == ident_text(*self),
    {
        String::from_str("Ident(").concat(self.0.source).concat(")")
    }
}

impl LiteralType {
    pub fn to_string(&self) -> (r: String)
        ensures
            r@ == literal_type_text(*self),
    {
        match self {
            LiteralType::Number => String::from_str("Number"),
            LiteralType::String => String::from_str("String"),
        }
    }
}

impl<'s> Literal<'s> {
    pub fn to_string(&self) -> (r: String)
        ensures
            r@ == literal_text(*self),
    {
        let kind = self.type_.to_string();
        String::from_str("Literal(").concat(kind.as_str()).concat("(").concat(self.slice.source).concat(
            "))",
        )
    }
}

impl AssignAndType {
    pub fn to_string(&self) -> (r: String)
        ensures
            r@ == assign_and_type_text(*self),
    {
        match self {
            AssignAndType::Add => String::from_str("Add(+=)"),
            AssignAndType::Sub => String::from_str("Sub(-=)"),
            AssignAndType::Mul => String::from_str("Mul(*=)"),
            AssignAndType::Div => String::from_str("Div(/=)"),
        }
    }
}

impl<'s> Assign<'s> {
    pub fn to_string(&self) -> (r: String)
        ensures
            r@ == assign_text(*self),
    {
        let left = self.0.left.to_string();
        let right = self.0.right.to_string();
        String::from_str("AssignAnd(").concat(left.as_str()).concat(" = ").concat(right.as_str()).concat(
            ")",
        )
    }

    /// How the assignment is shown with the operation `t`.
    fn to_string_with(&self, t: AssignAndType) -> (r: String)
        ensures
            r@ == assign_and_text(t, *self),
    {
        let left = self.0.left.to_string();
        let op = t.to_string();
        let right = self.0.right.to_string();
        String::from_str("AssignAnd(").concat(left.as_str()).concat(" ").concat(op.as_str()).concat(
            " ",
        ).concat(right.as_str()).concat(")")
    }
}

impl<'s> AssignAnd<'s> {
    pub fn to_string(&self) -> (r: String)
        ensures
            r@ == assign_and_text(self.type_, self.val),
    {
        self.val.to_string_with(self.type_)
    }
}

impl<'s> AssignExpr<'s> {
    /// Shown as the plain assignment or the assignment with an operation it is.
    pub fn to_string(&self) -> (r: String)
        ensures
            r@ == match self.type_ {
                AssignExprType::Assign => assign_text(self.val),
                AssignExprType::AssignAnd(t) => assign_and_text(t, self.val),
            },
    {
        match self.type_ {
            AssignExprType::Assign => self.val.to_string(),
            AssignExprType::AssignAnd(t) => self.val.to_string_with(t),
        }
    }
}

impl<'s> CallBlockDistruct<'s> {
    pub fn to_string(&self) -> (r: String)
        ensures
            r@ == "NamedDistruct("@ + ident_text(self.name) + ")"@,
    {
        let name = self.name.to_string();
        String::from_str("NamedDistruct(").concat(name.as_str()).concat(")")
    }
}

impl NumberDiag {
    /// What the diagnostic says.
    pub fn to_string(&self) -> (r: String)
        ensures
            r@ == match self {
                NumberDiag::StartsWithNumber => "Должно начинатся с числа"@,
                NumberDiag::MustBeNumber => "Должно быть число"@,
            },
    {
        match self {
            NumberDiag::StartsWithNumber => String::from_str("Должно начинатся с числа"),
            NumberDiag::MustBeNumber => String::from_str("Должно быть число"),
        }
    }
}

impl StringDiag {
    /// What the diagnostic says.
    pub fn to_string(&self) -> (r: String)
        ensures
            r@ == match self {
                StringDiag::StartsWithQuote => "Должно начинатся с \""@,
                StringDiag::EndsWithQuote => "Должно заканчиватся на \""@,
            },
    {
        match self {
            StringDiag::StartsWithQuote => String::from_str("Должно начинатся с \""),
            StringDiag::EndsWithQuote => String::from_str("Должно заканчиватся на \""),
        }
    }
}

} // verus!
