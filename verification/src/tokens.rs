//! List of lexemes.
//!
//! Every lexeme of the language stands in one enumerated table, each kind
//! beside its fixed text; the table is immutable and complete.

use vstd::prelude::*;

verus! {

/// The kinds of lexeme the language knows.
#[derive(Clone, Copy, Debug, PartialEq, Eq, Structural)]
pub enum TokenKind {
    Abstract,
    And,
    Array,
    As,
    Break,
    Callable,
    Case,
    Catch,
    Class,
    Clone,
    Const,
    Continue,
    Declare,
    Default,
    Die,
    Do,
    Dollars,
    Echo,
    Else,
    Elseif,
    Empty,
    Enddeclare,
    Endfor,
    Endforeach,
    Endif,
    Endswitch,
    Endwhile,
    Equal,
    Eval,
    Exit,
    Extends,
    Final,
    Finally,
    For,
    Foreach,
    Function,
    Global,
    Goto,
    If,
    Implements,
    Include,
    IncludeOnce,
    Instanceof,
    Insteadof,
    Interface,
    Isset,
    List,
    Namespace,
    New,
    Or,
    Plus,
    Print,
    Private,
    Protected,
    Public,
    Require,
    RequireOnce,
    Return,
    SemiColon,
    Static,
    Switch,
    Throw,
    Trait,
    Try,
    Unset,
    Use,
    Var,
    While,
    Xor,
    Yield,
    YieldFrom,
}

/// The fixed text of each lexeme.
pub open spec fn spec_token_text(k: TokenKind) -> Seq<char> {
    match k {
            TokenKind::Abstract => "abstract"@,
            TokenKind::And => "and"@,
            TokenKind::Array => "array"@,
            TokenKind::As => "as"@,
            TokenKind::Break => "break"@,
            TokenKind::Callable => "callable"@,
            TokenKind::Case => "case"@,
            TokenKind::Catch => "catch"@,
            TokenKind::Class => "class"@,
            TokenKind::Clone => "clone"@,
            TokenKind::Const => "const"@,
            TokenKind::Continue => "continue"@,
            TokenKind::Declare => "declare"@,
            TokenKind::Default => "default"@,
            TokenKind::Die => "die"@,
            TokenKind::Do => "do"@,
            TokenKind::Dollars => "$"@,
            TokenKind::Echo => "echo"@,
            TokenKind::Else => "else"@,
            TokenKind::Elseif => "elseif"@,
            TokenKind::Empty => "empty"@,
            TokenKind::Enddeclare => "enddeclare"@,
            TokenKind::Endfor => "endfor"@,
            TokenKind::Endforeach => "endforeach"@,
            TokenKind::Endif => "endif"@,
            TokenKind::Endswitch => "endswitch"@,
            TokenKind::Endwhile => "endwhile"@,
            TokenKind::Equal => "="@,
            TokenKind::Eval => "eval"@,
            TokenKind::Exit => "exit"@,
            TokenKind::Extends => "extends"@,
            TokenKind::Final => "final"@,
            TokenKind::Finally => "finally"@,
            TokenKind::For => "for"@,
            TokenKind::Foreach => "foreach"@,
            TokenKind::Function => "function"@,
            TokenKind::Global => "global"@,
            TokenKind::Goto => "goto"@,
            TokenKind::If => "if"@,
            TokenKind::Implements => "implements"@,
            TokenKind::Include => "include"@,
            TokenKind::IncludeOnce => "include_once"@,
            TokenKind::Instanceof => "instanceof"@,
            TokenKind::Insteadof => "insteadof"@,
            TokenKind::Interface => "interface"@,
            TokenKind::Isset => "isset"@,
            TokenKind::List => "list"@,
            TokenKind::Namespace => "namespace"@,
            TokenKind::New => "new"@,
            TokenKind::Or => "or"@,
            TokenKind::Plus => "+"@,
            TokenKind::Print => "print"@,
            TokenKind::Private => "private"@,
            TokenKind::Protected => "protected"@,
            TokenKind::Public => "public"@,
            TokenKind::Require => "require"@,
            TokenKind::RequireOnce => "require_once"@,
            TokenKind::Return => "return"@,
            TokenKind::SemiColon => ";"@,
            TokenKind::Static => "static"@,
            TokenKind::Switch => "switch"@,
            TokenKind::Throw => "throw"@,
            TokenKind::Trait => "trait"@,
            TokenKind::Try => "try"@,
            TokenKind::Unset => "unset"@,
            TokenKind::Use => "use"@,
            TokenKind::Var => "var"@,
            TokenKind::While => "while"@,
            TokenKind::Xor => "xor"@,
            TokenKind::Yield => "yield"@,
            TokenKind::YieldFrom => "yield from"@,
    }
}

/// The fixed text of each lexeme.
pub fn token_text(k: TokenKind) -> (t: &'static str)
    ensures
        t@ == spec_token_text(k),
{
    match k {
            TokenKind::Abstract => "abstract",
            TokenKind::And => "and",
            TokenKind::Array => "array",
            TokenKind::As => "as",
            TokenKind::Break => "break",
            TokenKind::Callable => "callable",
            TokenKind::Case => "case",
            TokenKind::Catch => "catch",
            TokenKind::Class => "class",
            TokenKind::Clone => "clone",
            TokenKind::Const => "const",
            TokenKind::Continue => "continue",
            TokenKind::Declare => "declare",
            TokenKind::Default => "default",
            TokenKind::Die => "die",
            TokenKind::Do => "do",
            TokenKind::Dollars => "$",
            TokenKind::Echo => "echo",
            TokenKind::Else => "else",
            TokenKind::Elseif => "elseif",
            TokenKind::Empty => "empty",
            TokenKind::Enddeclare => "enddeclare",
            TokenKind::Endfor => "endfor",
            TokenKind::Endforeach => "endforeach",
            TokenKind::Endif => "endif",
            TokenKind::Endswitch => "endswitch",
            TokenKind::Endwhile => "endwhile",
            TokenKind::Equal => "=",
            TokenKind::Eval => "eval",
            TokenKind::Exit => "exit",
            TokenKind::Extends => "extends",
            TokenKind::Final => "final",
            TokenKind::Finally => "finally",
            TokenKind::For => "for",
            TokenKind::Foreach => "foreach",
            TokenKind::Function => "function",
            TokenKind::Global => "global",
            TokenKind::Goto => "goto",
            TokenKind::If => "if",
            TokenKind::Implements => "implements",
            TokenKind::Include => "include",
            TokenKind::IncludeOnce => "include_once",
            TokenKind::Instanceof => "instanceof",
            TokenKind::Insteadof => "insteadof",
            TokenKind::Interface => "interface",
            TokenKind::Isset => "isset",
            TokenKind::List => "list",
            TokenKind::Namespace => "namespace",
            TokenKind::New => "new",
            TokenKind::Or => "or",
            TokenKind::Plus => "+",
            TokenKind::Print => "print",
            TokenKind::Private => "private",
            TokenKind::Protected => "protected",
            TokenKind::Public => "public",
            TokenKind::Require => "require",
            TokenKind::RequireOnce => "require_once",
            TokenKind::Return => "return",
            TokenKind::SemiColon => ";",
            TokenKind::Static => "static",
            TokenKind::Switch => "switch",
            TokenKind::Throw => "throw",
            TokenKind::Trait => "trait",
            TokenKind::Try => "try",
            TokenKind::Unset => "unset",
            TokenKind::Use => "use",
            TokenKind::Var => "var",
            TokenKind::While => "while",
            TokenKind::Xor => "xor",
            TokenKind::Yield => "yield",
            TokenKind::YieldFrom => "yield from",
    }
}

} // verus!
