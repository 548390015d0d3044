//! A single token, taken straight out of the source code by the scanner.

use vstd::prelude::*;

use crate::literal::SpecValue;
use crate::literal::Value;
use crate::token_type::TokenType;

verus! {

/// A token: its lexical category, the exact source text that produced it,
/// the scanned literal value when it carries one (nil otherwise), and the
/// 1-based source line it was found on.
#[derive(Debug)]
pub struct Token {
    pub kind: TokenType,
    pub lexeme: String,
    pub literal: Value,
    pub line: usize,
}

/// The mathematical shape of a token.
pub struct SpecToken {
    pub kind: TokenType,
    pub lexeme: Seq<char>,
    pub literal: SpecValue,
    pub line: int,
}

impl View for Token {
    type V = SpecToken;

    open spec fn view(&self) -> SpecToken {
        SpecToken {
            kind: self.kind,
            lexeme: self.lexeme@,
            literal: self.literal@,
            line: self.line as int,
        }
    }
}

impl DeepView for Token {
    type V = SpecToken;

    open spec fn deep_view(&self) -> SpecToken {
        self.view()
    }
}

impl Clone for Token {
    fn clone(&self) -> (r: Self)
        ensures
            r@ == self@,
    {
        Token {
            kind: self.kind,
            lexeme: self.lexeme.clone(),
            literal: self.literal.clone(),
            line: self.line,
        }
    }
}

impl Token {
    pub fn new(kind: TokenType, lexeme: String, literal: Value, line: usize) -> (r: Self)
        ensures
            r@ == (SpecToken { kind, lexeme: lexeme@, literal: literal@, line: line as int }),
    {
        Token { kind, lexeme, literal, line }
    }
}


/// The name of a lexical category, as its token renders it.
pub open spec fn spec_kind_name(k: TokenType) -> Seq<char> {
    if k == TokenType::LEFT_PAREN {
        "LEFT_PAREN"@
    } else if k == TokenType::RIGHT_PAREN {
        "RIGHT_PAREN"@
    } else if k == TokenType::LEFT_BRACE {
        "LEFT_BRACE"@
    } else if k == TokenType::RIGHT_BRACE {
        "RIGHT_BRACE"@
    } else if k == TokenType::COMMA {
        "COMMA"@
    } else if k == TokenType::DOT {
        "DOT"@
    } else if k == TokenType::MINUS {
        "MINUS"@
    } else if k == TokenType::PLUS {
        "PLUS"@
    } else if k == TokenType::SEMICOLON {
        "SEMICOLON"@
    } else if k == TokenType::SLASH {
        "SLASH"@
    } else if k == TokenType::STAR {
        "STAR"@
    } else if k == TokenType::BANG {
        "BANG"@
    } else if k == TokenType::BANG_EQUAL {
        "BANG_EQUAL"@
    } else if k == TokenType::EQUAL {
        "EQUAL"@
    } else if k == TokenType::EQUAL_EQUAL {
        "EQUAL_EQUAL"@
    } else if k == TokenType::GREATER {
        "GREATER"@
    } else if k == TokenType::GREATER_EQUAL {
        "GREATER_EQUAL"@
    } else if k == TokenType::LESS {
        "LESS"@
    } else if k == TokenType::LESS_EQUAL {
        "LESS_EQUAL"@
    } else if k == TokenType::IDENTIFIER {
        "IDENTIFIER"@
    } else if k == TokenType::STRING {
        "STRING"@
    } else if k == TokenType::NUMBER {
        "NUMBER"@
    } else if k == TokenType::AND {
        "AND"@
    } else if k == TokenType::CLASS {
        "CLASS"@
    } else if k == TokenType::ELSE {
        "ELSE"@
    } else if k == TokenType::FALSE {
        "FALSE"@
    } else if k == TokenType::FUN {
        "FUN"@
    } else if k == TokenType::FOR {
        "FOR"@
    } else if k == TokenType::IF {
        "IF"@
    } else if k == TokenType::NIL {
        "NIL"@
    } else if k == TokenType::OR {
        "OR"@
    } else if k == TokenType::PRINT {
        "PRINT"@
    } else if k == TokenType::RETURN {
        "RETURN"@
    } else if k == TokenType::SUPER {
        "SUPER"@
    } else if k == TokenType::THIS {
        "THIS"@
    } else if k == TokenType::TRUE {
        "TRUE"@
    } else if k == TokenType::VAR {
        "VAR"@
    } else if k == TokenType::WHILE {
        "WHILE"@
    } else {
        "EOF"@
    }
}

/// The name of a lexical category.
pub fn kind_name(k: TokenType) -> (r: String)
    ensures
        r@ == spec_kind_name(k),
{
    match k {
        TokenType::LEFT_PAREN => String::from_str("LEFT_PAREN"),
        TokenType::RIGHT_PAREN => String::from_str("RIGHT_PAREN"),
        TokenType::LEFT_BRACE => String::from_str("LEFT_BRACE"),
        TokenType::RIGHT_BRACE => String::from_str("RIGHT_BRACE"),
        TokenType::COMMA => String::from_str("COMMA"),
        TokenType::DOT => String::from_str("DOT"),
        TokenType::MINUS => String::from_str("MINUS"),
        TokenType::PLUS => String::from_str("PLUS"),
        TokenType::SEMICOLON => String::from_str("SEMICOLON"),
        TokenType::SLASH => String::from_str("SLASH"),
        TokenType::STAR => String::from_str("STAR"),
        TokenType::BANG => String::from_str("BANG"),
        TokenType::BANG_EQUAL => String::from_str("BANG_EQUAL"),
        TokenType::EQUAL => String::from_str("EQUAL"),
        TokenType::EQUAL_EQUAL => String::from_str("EQUAL_EQUAL"),
        TokenType::GREATER => String::from_str("GREATER"),
        TokenType::GREATER_EQUAL => String::from_str("GREATER_EQUAL"),
        TokenType::LESS => String::from_str("LESS"),
        TokenType::LESS_EQUAL => String::from_str("LESS_EQUAL"),
        TokenType::IDENTIFIER => String::from_str("IDENTIFIER"),
        TokenType::STRING => String::from_str("STRING"),
        TokenType::NUMBER => String::from_str("NUMBER"),
        TokenType::AND => String::from_str("AND"),
        TokenType::CLASS => String::from_str("CLASS"),
        TokenType::ELSE => String::from_str("ELSE"),
        TokenType::FALSE => String::from_str("FALSE"),
        TokenType::FUN => String::from_str("FUN"),
        TokenType::FOR => String::from_str("FOR"),
        TokenType::IF => String::from_str("IF"),
        TokenType::NIL => String::from_str("NIL"),
        TokenType::OR => String::from_str("OR"),
        TokenType::PRINT => String::from_str("PRINT"),
        TokenType::RETURN => String::from_str("RETURN"),
        TokenType::SUPER => String::from_str("SUPER"),
        TokenType::THIS => String::from_str("THIS"),
        TokenType::TRUE => String::from_str("TRUE"),
        TokenType::VAR => String::from_str("VAR"),
        TokenType::WHILE => String::from_str("WHILE"),
        TokenType::EOF => String::from_str("EOF"),
    }
}

/// The text a token renders as: its kind, its lexeme, and what its literal
/// prints as, space-separated.
pub open spec fn spec_token_text(t: SpecToken) -> Seq<char> {
    spec_kind_name(t.kind) + " "@ + t.lexeme + " "@ + crate::literal::spec_stringify(t.literal)
}

impl Token {
    /// Render this token as text.
    pub fn to_string(&self) -> (r: String)
        ensures
            r@ == spec_token_text(self@),
    {
        let mut s = kind_name(self.kind);
        s.append(" ");
        s.append(self.lexeme.as_str());
        s.append(" ");
        let lit = self.literal.stringify();
        s.append(lit.as_str());
        s
    }
}

} // verus!
