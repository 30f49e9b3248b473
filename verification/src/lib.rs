//! A small dynamically typed scripting language: a tokenizer that folds
//! matched brackets into nested group tokens, a backtracking recursive
//! parser, and a tree-walking evaluator over a copy-on-call environment.
use vstd::prelude::*;
use vstd::string::StringExecFns;

pub mod interpreter;
pub mod intrinsics;
pub mod laws;
pub mod numerics;
pub mod parser;
pub mod strutil;
pub mod tokenizer;
pub mod types;

verus! {

/// A position in a source file: the file's name plus a 1-based row and column.
/// It is attached to every token and to every error.
#[derive(Debug, Clone, PartialEq)]
pub struct FilePos {
    pub file: String,
    pub row: usize,
    pub col: usize,
}

/// Spec-level image of a `FilePos`.
#[verifier::ext_equal]
pub struct PosV {
    pub file: Seq<char>,
    pub row: int,
    pub col: int,
}

impl View for FilePos {
    type V = PosV;

    open spec fn view(&self) -> PosV {
        PosV { file: self.file@, row: self.row as int, col: self.col as int }
    }
}

impl FilePos {
    pub fn new(file: &str, row: usize, col: usize) -> (p: Self)
        ensures
            p@.file == file@ && p@.row == row as int && p@.col == col as int,
    {
        FilePos { file: file.to_owned(), row, col }
    }

    /// The position used for values that the implementation itself creates.
    pub fn internal() -> (p: Self)
        ensures
            p@.file == "internal"@ && p@.row == 0 && p@.col == 0,
    {
        FilePos { file: "internal".to_owned(), row: 0, col: 0 }
    }

    /// A placeholder position for errors that have no better one.
    pub fn temp() -> (p: Self)
        ensures
            p@.file == "undefined"@ && p@.row == 0 && p@.col == 0,
    {
        FilePos { file: "undefined".to_owned(), row: 0, col: 0 }
    }

    pub fn clone(&self) -> (p: Self)
        ensures
            p@ == self@,
    {
        FilePos { file: self.file.clone(), row: self.row, col: self.col }
    }
}

/// The one error type the driver reports: any stage's error, with its kind
/// folded into the message.
#[derive(Debug)]
pub struct SandError {
    pub pos: FilePos,
    pub msg: String,
}

impl View for SandError {
    type V = tokenizer::TokErrV;

    open spec fn view(&self) -> tokenizer::TokErrV {
        tokenizer::TokErrV { msg: self.msg@, pos: self.pos@ }
    }
}

impl SandError {
    pub fn from_token(e: tokenizer::TokenError) -> (r: Self)
        ensures
            r@.msg == "TOKEN_ERROR: "@ + e@.msg,
            r@.pos == e@.pos,
    {
        let mut m = String::from_str("TOKEN_ERROR: ");
        m.append(e.msg.as_str());
        SandError { pos: e.pos, msg: m }
    }

    pub fn from_parse(e: parser::ParseError) -> (r: Self)
        ensures
            r@.msg == "PARSE_ERROR: "@ + e@.msg,
            r@.pos == e@.pos,
    {
        let mut m = String::from_str("PARSE_ERROR: ");
        m.append(e.msg.as_str());
        SandError { pos: e.pos, msg: m }
    }

    pub fn from_interpreting(e: interpreter::InterpretingError) -> (r: Self)
        ensures
            r@.msg == "INTERPRETING_ERROR: "@ + e@.msg,
            r@.pos == e@.pos,
    {
        let mut m = String::from_str("INTERPRETING_ERROR: ");
        m.append(e.msg.as_str());
        SandError { pos: e.pos, msg: m }
    }

    pub fn from_type(e: types::TypeError) -> (r: Self)
        ensures
            r@.msg == "TYPE_ERROR: "@ + e@.msg,
            r@.pos == e@.pos,
    {
        let mut m = String::from_str("TYPE_ERROR: ");
        m.append(e.msg.as_str());
        SandError { pos: e.pos, msg: m }
    }

    /// The rendered form: `<file>:<row>:<col>: <message>`.
    pub fn message(&self) -> (r: String)
        ensures
            r@ == self@.pos.file + ":"@ + crate::strutil::dec_digits(self.pos.row as nat) + ":"@
                + crate::strutil::dec_digits(self.pos.col as nat) + ": "@ + self@.msg,
    {
        let mut m = self.pos.file.clone();
        m.append(":");
        m.append(crate::strutil::usize_string(self.pos.row).as_str());
        m.append(":");
        m.append(crate::strutil::usize_string(self.pos.col).as_str());
        m.append(": ");
        m.append(self.msg.as_str());
        m
    }
}

} // verus!
