//! The closed set of lexical categories and the reserved-word table.
use vstd::prelude::*;

verus! {

/// One lexeme of the language, classified.
#[derive(Debug, Clone, PartialEq)]
pub enum Token {
    Ident(String),
    /// A string literal, holding its contents without the quotes.
    String(String),
    /// A number literal, held as decimal text. The scanner always writes it
    /// in canonical form: no leading zeros in the whole part (but one digit
    /// at least), no trailing zeros in the fraction, and no point when the
    /// fraction is empty (`6`, `45.67`). A value built by hand is rendered
    /// as it was written.
    Number(String),
    True,
    False,
    Comma,
    Dot,
    Plus,
    Minus,
    Star,
    Slash,
    Eq,
    EqEq,
    Not,
    Ne,
    Gt,
    Ge,
    Lt,
    Le,
    And,
    Or,
    If,
    Else,
    For,
    While,
    Nil,
    Fun,
    Class,
    Return,
    Super,
    This,
    Var,
    Print,
    LeftParen,
    RightParen,
    LeftBrace,
    RightBrace,
    Semicolon,
    Eof,
}

/// The mathematical value of a token: a payload-carrying token is seen
/// through the characters of its payload, any other token as itself.
pub enum Tok {
    Plain(Token),
    Ident(Seq<char>),
    Str(Seq<char>),
    Num(Seq<char>),
}

impl View for Token {
    type V = Tok;

    open spec fn view(&self) -> Tok {
        match self {
            Token::Ident(s) => Tok::Ident(s@),
            Token::String(s) => Tok::Str(s@),
            Token::Number(s) => Tok::Num(s@),
            _ => Tok::Plain(*self),
        }
    }
}

pub open spec fn toks(v: Seq<Token>) -> Seq<Tok> {
    v.map_values(|t: Token| t@)
}

/// The reserved word spelled `w`, if any.
pub open spec fn keyword_of(w: Seq<char>) -> Option<Token> {
    if w == "and"@ {
        Some(Token::And)
    } else if w == "class"@ {
        Some(Token::Class)
    } else if w == "else"@ {
        Some(Token::Else)
    } else if w == "false"@ {
        Some(Token::False)
    } else if w == "for"@ {
        Some(Token::For)
    } else if w == "fun"@ {
        Some(Token::Fun)
    } else if w == "if"@ {
        Some(Token::If)
    } else if w == "nil"@ {
        Some(Token::Nil)
    } else if w == "or"@ {
        Some(Token::Or)
    } else if w == "print"@ {
        Some(Token::Print)
    } else if w == "return"@ {
        Some(Token::Return)
    } else if w == "super"@ {
        Some(Token::Super)
    } else if w == "this"@ {
        Some(Token::This)
    } else if w == "true"@ {
        Some(Token::True)
    } else if w == "var"@ {
        Some(Token::Var)
    } else if w == "while"@ {
        Some(Token::While)
    } else {
        None
    }
}

/// The token for the word `w`: a reserved word, or else an identifier.
pub open spec fn word_tok(w: Seq<char>) -> Tok {
    match keyword_of(w) {
        Some(k) => Tok::Plain(k),
        None => Tok::Ident(w),
    }
}

/// The textual form of a token: the payload of a literal or identifier, the
/// canonical spelling of any other token.
pub open spec fn spelling(t: Tok) -> Seq<char> {
    match t {
        Tok::Ident(s) => s,
        Tok::Str(s) => s,
        Tok::Num(s) => s,
        Tok::Plain(k) => match k {
            Token::True => "true"@,
            Token::False => "false"@,
            Token::Comma => ","@,
            Token::Dot => "."@,
            Token::Plus => "+"@,
            Token::Minus => "-"@,
            Token::Star => "*"@,
            Token::Slash => "/"@,
            Token::Eq => "="@,
            Token::EqEq => "=="@,
            Token::Not => "!"@,
            Token::Ne => "!="@,
            Token::Gt => ">"@,
            Token::Ge => ">="@,
            Token::Lt => "<"@,
            Token::Le => "<="@,
            Token::And => "and"@,
            Token::Or => "or"@,
            Token::If => "if"@,
            Token::Else => "else"@,
            Token::For => "for"@,
            Token::While => "while"@,
            Token::Nil => "nil"@,
            Token::Fun => "fun"@,
            Token::Class => "class"@,
            Token::Return => "return"@,
            Token::Super => "super"@,
            Token::This => "this"@,
            Token::Var => "var"@,
            Token::Print => "print"@,
            Token::LeftParen => "("@,
            Token::RightParen => ")"@,
            Token::LeftBrace => "{"@,
            Token::RightBrace => "}"@,
            Token::Semicolon => ";"@,
            Token::Eof => "EOF"@,
            Token::Ident(s) => s@,
            Token::String(s) => s@,
            Token::Number(s) => s@,
        },
    }
}

fn is_word(w: &String, lit: &str) -> (r: bool)
    ensures
        r == (w@ == lit@),
{
    *w == String::from_str(lit)
}

/// Looks `w` up among the reserved words.
pub fn keyword(w: &String) -> (r: Option<Token>)
    ensures
        r == keyword_of(w@),
{
    if is_word(w, "and") {
        Some(Token::And)
    } else if is_word(w, "class") {
        Some(Token::Class)
    } else if is_word(w, "else") {
        Some(Token::Else)
    } else if is_word(w, "false") {
        Some(Token::False)
    } else if is_word(w, "for") {
        Some(Token::For)
    } else if is_word(w, "fun") {
        Some(Token::Fun)
    } else if is_word(w, "if") {
        Some(Token::If)
    } else if is_word(w, "nil") {
        Some(Token::Nil)
    } else if is_word(w, "or") {
        Some(Token::Or)
    } else if is_word(w, "print") {
        Some(Token::Print)
    } else if is_word(w, "return") {
        Some(Token::Return)
    } else if is_word(w, "super") {
        Some(Token::Super)
    } else if is_word(w, "this") {
        Some(Token::This)
    } else if is_word(w, "true") {
        Some(Token::True)
    } else if is_word(w, "var") {
        Some(Token::Var)
    } else if is_word(w, "while") {
        Some(Token::While)
    } else {
        None
    }
}

impl Token {
    /// A copy of this token.
    pub fn duplicate(&self) -> (r: Token)
        ensures
            r@ == self@,
    {
        match self {
            Token::Ident(s) => Token::Ident(s.clone()),
            Token::String(s) => Token::String(s.clone()),
            Token::Number(s) => Token::Number(s.clone()),
            Token::True => Token::True,
            Token::False => Token::False,
            Token::Comma => Token::Comma,
            Token::Dot => Token::Dot,
            Token::Plus => Token::Plus,
            Token::Minus => Token::Minus,
            Token::Star => Token::Star,
            Token::Slash => Token::Slash,
            Token::Eq => Token::Eq,
            Token::EqEq => Token::EqEq,
            Token::Not => Token::Not,
            Token::Ne => Token::Ne,
            Token::Gt => Token::Gt,
            Token::Ge => Token::Ge,
            Token::Lt => Token::Lt,
            Token::Le => Token::Le,
            Token::And => Token::And,
            Token::Or => Token::Or,
            Token::If => Token::If,
            Token::Else => Token::Else,
            Token::For => Token::For,
            Token::While => Token::While,
            Token::Nil => Token::Nil,
            Token::Fun => Token::Fun,
            Token::Class => Token::Class,
            Token::Return => Token::Return,
            Token::Super => Token::Super,
            Token::This => Token::This,
            Token::Var => Token::Var,
            Token::Print => Token::Print,
            Token::LeftParen => Token::LeftParen,
            Token::RightParen => Token::RightParen,
            Token::LeftBrace => Token::LeftBrace,
            Token::RightBrace => Token::RightBrace,
            Token::Semicolon => Token::Semicolon,
            Token::Eof => Token::Eof,
        }
    }

    /// The textual form of this token.
    pub fn spelling(&self) -> (r: String)
        ensures
            r@ == spelling(self@),
    {
        match self {
            Token::Ident(s) => s.clone(),
            Token::String(s) => s.clone(),
            Token::Number(s) => s.clone(),
            Token::True => String::from_str("true"),
            Token::False => String::from_str("false"),
            Token::Comma => String::from_str(","),
            Token::Dot => String::from_str("."),
            Token::Plus => String::from_str("+"),
            Token::Minus => String::from_str("-"),
            Token::Star => String::from_str("*"),
            Token::Slash => String::from_str("/"),
            Token::Eq => String::from_str("="),
            Token::EqEq => String::from_str("=="),
            Token::Not => String::from_str("!"),
            Token::Ne => String::from_str("!="),
            Token::Gt => String::from_str(">"),
            Token::Ge => String::from_str(">="),
            Token::Lt => String::from_str("<"),
            Token::Le => String::from_str("<="),
            Token::And => String::from_str("and"),
            Token::Or => String::from_str("or"),
            Token::If => String::from_str("if"),
            Token::Else => String::from_str("else"),
            Token::For => String::from_str("for"),
            Token::While => String::from_str("while"),
            Token::Nil => String::from_str("nil"),
            Token::Fun => String::from_str("fun"),
            Token::Class => String::from_str("class"),
            Token::Return => String::from_str("return"),
            Token::Super => String::from_str("super"),
            Token::This => String::from_str("this"),
            Token::Var => String::from_str("var"),
            Token::Print => String::from_str("print"),
            Token::LeftParen => String::from_str("("),
            Token::RightParen => String::from_str(")"),
            Token::LeftBrace => String::from_str("{"),
            Token::RightBrace => String::from_str("}"),
            Token::Semicolon => String::from_str(";"),
            Token::Eof => String::from_str("EOF"),
        }
    }
}

} // verus!
