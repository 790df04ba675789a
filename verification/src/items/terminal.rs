use crate::items::item::assign_expr::assign::left_right::LeftRightDiag;
use crate::items::item::assign_expr::assign::AssignDiag;
use crate::items::item::assign_expr::assign_and::AssignAndDiag;
use crate::items::item::assign_expr::literal::number::NumberDiag;
use crate::items::item::assign_expr::literal::string::StringDiag;
use crate::items::item::assign_expr::literal::LiteralDiag;
use crate::items::item::assign_expr::AssignExprDiag;
use crate::items::item::block::distruct::call::CallBlockDistructDiag;
use crate::items::item::block::distruct::init::InitBlockDistructDiag;
use crate::items::item::block::distruct::BlockDistructDiag;
use crate::items::item::block::init::named::NamedBlockDiag;
use crate::items::item::block::init::unnamed::UnnamedBlockDiag;
use crate::items::item::block::init::InitBlockDiag;
use crate::items::item::block::BlockDiag;
use crate::items::item::ident::IdentDiag;
use crate::items::item::ItemDiag;
use crate::items::shared::distribution::DistributionDiag;
use vstd::prelude::*;
use vstd::string::StringExecFns;

verus! {

/// A diagnostic that holds no other: what a nested diagnostic comes down to.
#[derive(PartialEq, Debug, Clone, Copy, Eq)]
pub enum TerminalDiag {
    Ident(IdentDiag),
    Number(NumberDiag),
    String(StringDiag),
    Distribution(DistributionDiag),
    UnnamedBlock(UnnamedBlockDiag),
    AssignAnd(AssignAndDiag),
    Assign(AssignDiag),
}

/// The diagnostic a diagnostic of a literal comes down to.
pub open spec fn literal_terminal(d: LiteralDiag) -> TerminalDiag {
    match d {
        LiteralDiag::Number(n) => TerminalDiag::Number(n),
        LiteralDiag::String(s) => TerminalDiag::String(s),
    }
}

/// The diagnostic a diagnostic of an assignment comes down to.
pub open spec fn assign_terminal(d: AssignDiag) -> TerminalDiag {
    match d {
        AssignDiag::LeftRight(LeftRightDiag::Left(i)) => TerminalDiag::Ident(i),
        AssignDiag::LeftRight(LeftRightDiag::Right(l)) => literal_terminal(l),
        AssignDiag::ExpectEqual => TerminalDiag::Assign(d),
    }
}

/// The diagnostic a diagnostic of a named block comes down to.
pub open spec fn named_terminal(d: NamedBlockDiag) -> TerminalDiag {
    match d {
        NamedBlockDiag::Name(i) => TerminalDiag::Ident(i),
        NamedBlockDiag::UnnamedBlock(u) => TerminalDiag::UnnamedBlock(u),
    }
}

/// The diagnostic a diagnostic of an item comes down to.
pub open spec fn item_terminal(d: ItemDiag) -> TerminalDiag {
    match d {
        ItemDiag::Block(BlockDiag::Distruct(BlockDistructDiag::Call(c))) => match c {
            CallBlockDistructDiag::Name(i) => TerminalDiag::Ident(i),
            CallBlockDistructDiag::Distribution(x) => TerminalDiag::Distribution(x),
        },
        ItemDiag::Block(BlockDiag::Distruct(BlockDistructDiag::Init(i))) => match i {
            InitBlockDistructDiag::NamedBlock(n) => named_terminal(n),
            InitBlockDistructDiag::Distribution(x) => TerminalDiag::Distribution(x),
        },
        ItemDiag::Block(BlockDiag::Init(InitBlockDiag::Named(n))) => named_terminal(n),
        ItemDiag::Block(BlockDiag::Init(InitBlockDiag::Unnamed(u))) => TerminalDiag::UnnamedBlock(u),
        ItemDiag::AssignExpr(AssignExprDiag::Assign(a)) => assign_terminal(a),
        ItemDiag::AssignExpr(AssignExprDiag::AssignAnd(a)) => match a {
            AssignAndDiag::Assign(inner) => assign_terminal(inner),
            AssignAndDiag::ExpectOperator => TerminalDiag::AssignAnd(a),
        },
        ItemDiag::Literal(l) => literal_terminal(l),
        ItemDiag::Ident(i) => TerminalDiag::Ident(i),
    }
}

impl LiteralDiag {
    /// Adds what the diagnostic comes down to to `memo`.
    pub fn tmp(&self, memo: &mut Vec<TerminalDiag>)
        ensures
            final(memo)@ == old(memo)@.push(literal_terminal(*self)),
    {
        match self {
            LiteralDiag::Number(n) => memo.push(TerminalDiag::Number(*n)),
            LiteralDiag::String(s) => memo.push(TerminalDiag::String(*s)),
        }
    }
}

impl AssignDiag {
    /// Adds what the diagnostic comes down to to `memo`.
    pub fn tmp(&self, memo: &mut Vec<TerminalDiag>)
        ensures
            final(memo)@ == old(memo)@.push(assign_terminal(*self)),
    {
        match self {
            AssignDiag::LeftRight(LeftRightDiag::Left(i)) => memo.push(TerminalDiag::Ident(*i)),
            AssignDiag::LeftRight(LeftRightDiag::Right(l)) => l.tmp(memo),
            AssignDiag::ExpectEqual => memo.push(TerminalDiag::Assign(*self)),
        }
    }
}

impl AssignAndDiag {
    /// Adds what the diagnostic comes down to to `memo`.
    pub fn tmp(&self, memo: &mut Vec<TerminalDiag>)
        ensures
            final(memo)@ == old(memo)@.push(
                match *self {
                    AssignAndDiag::Assign(inner) => assign_terminal(inner),
                    AssignAndDiag::ExpectOperator => TerminalDiag::AssignAnd(*self),
                },
            ),
    {
        match self {
            AssignAndDiag::Assign(inner) => inner.tmp(memo),
            AssignAndDiag::ExpectOperator => memo.push(TerminalDiag::AssignAnd(*self)),
        }
    }
}

impl NamedBlockDiag {
    /// Adds what the diagnostic comes down to to `memo`.
    pub fn tmp(&self, memo: &mut Vec<TerminalDiag>)
        ensures
            final(memo)@ == old(memo)@.push(named_terminal(*self)),
    {
        match self {
            NamedBlockDiag::Name(i) => memo.push(TerminalDiag::Ident(*i)),
            NamedBlockDiag::UnnamedBlock(u) => memo.push(TerminalDiag::UnnamedBlock(*u)),
        }
    }
}

impl ItemDiag {
    /// Adds what the diagnostic comes down to to `memo`.
    pub fn tmp(&self, memo: &mut Vec<TerminalDiag>)
        ensures
            final(memo)@ == old(memo)@.push(item_terminal(*self)),
    {
        match self {
            ItemDiag::Block(BlockDiag::Distruct(BlockDistructDiag::Call(c))) => match c {
                CallBlockDistructDiag::Name(i) => memo.push(TerminalDiag::Ident(*i)),
                CallBlockDistructDiag::Distribution(x) => memo.push(TerminalDiag::Distribution(*x)),
            },
            ItemDiag::Block(BlockDiag::Distruct(BlockDistructDiag::Init(i))) => match i {
                InitBlockDistructDiag::NamedBlock(n) => n.tmp(memo),
                InitBlockDistructDiag::Distribution(x) => memo.push(TerminalDiag::Distribution(*x)),
            },
            ItemDiag::Block(BlockDiag::Init(InitBlockDiag::Named(n))) => n.tmp(memo),
            ItemDiag::Block(BlockDiag::Init(InitBlockDiag::Unnamed(u))) => memo.push(
                TerminalDiag::UnnamedBlock(*u),
            ),
            ItemDiag::AssignExpr(AssignExprDiag::Assign(a)) => a.tmp(memo),
            ItemDiag::AssignExpr(AssignExprDiag::AssignAnd(a)) => a.tmp(memo),
            ItemDiag::Literal(l) => l.tmp(memo),
            ItemDiag::Ident(i) => memo.push(TerminalDiag::Ident(*i)),
        }
    }
}

impl TerminalDiag {
    /// The name of the kind of diagnostic.
    pub fn get_info(&self) -> (r: String)
        ensures
            r@ == match self {
                TerminalDiag::Ident(_) => "IdentDiag"@,
                TerminalDiag::Number(_) => "NumberDiag"@,
                TerminalDiag::String(_) => "StringDiag"@,
                TerminalDiag::Distribution(_) => "DistributionDiag"@,
                TerminalDiag::UnnamedBlock(_) => "UnnamedBlockDiag"@,
                TerminalDiag::AssignAnd(_) => "AssignAndDiag"@,
                TerminalDiag::Assign(_) => "AssignDiag"@,
            },
    {
        match self {
            TerminalDiag::Ident(_) => String::from_str("IdentDiag"),
            TerminalDiag::Number(_) => String::from_str("NumberDiag"),
            TerminalDiag::String(_) => String::from_str("StringDiag"),
            TerminalDiag::Distribution(_) => String::from_str("DistributionDiag"),
            TerminalDiag::UnnamedBlock(_) => String::from_str("UnnamedBlockDiag"),
            TerminalDiag::AssignAnd(_) => String::from_str("AssignAndDiag"),
            TerminalDiag::Assign(_) => String::from_str("AssignDiag"),
        }
    }
}

} // verus!
