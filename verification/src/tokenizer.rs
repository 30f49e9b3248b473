//! The tokenizer: source text in, positioned tokens out.  Matched brackets
//! are folded into a single nested `Group` token, so the parser never sees a
//! bare bracket.  The executable tokenizer is verified against the spec
//! functions `spec_tokenize` / `scan_*`, which state exactly which tokens
//! (or which error) a given text produces.
use vstd::prelude::*;

use crate::numerics::num_of_text;
use crate::strutil::{chars_of, push_char};
use crate::{FilePos, PosV};

verus! {

/// The kind of bracket a group was written with.
#[derive(Debug, Clone, Copy, PartialEq, Eq, Structural)]
pub enum GroupType {
    Paren,
    Brack,
    Curly,
}

/// Spec-level image of a token.
#[verifier::ext_equal]
pub enum TokTypeV {
    StrLit(Seq<char>),
    CharLit(char),
    Number(u64),
    Word(Seq<char>),
    Punct(char),
    Group { gt: GroupType, toks: Seq<TokV> },
}

#[verifier::ext_equal]
pub struct TokV {
    pub kind: TokTypeV,
    pub pos: PosV,
}

#[derive(Debug, PartialEq)]
pub enum TokenType {
    StringLit(String),
    CharLit(char),
    Number(u64),
    String(String),
    Char(char),
    Group { gtype: GroupType, tokens: Vec<Token> },
}

#[derive(Debug, PartialEq)]
pub struct Token {
    pub kind: TokenType,
    pub pos: FilePos,
}

#[derive(Debug, PartialEq)]
pub struct TokenError {
    pub msg: String,
    pub pos: FilePos,
}

/// Spec-level image of a `TokenError`.
#[verifier::ext_equal]
pub struct TokErrV {
    pub msg: Seq<char>,
    pub pos: PosV,
}

impl View for TokenError {
    type V = TokErrV;

    open spec fn view(&self) -> TokErrV {
        TokErrV { msg: self.msg@, pos: self.pos@ }
    }
}

impl TokenError {
    pub fn new(msg: &str, pos: &FilePos) -> (e: Self)
        ensures
            e@.msg == msg@ && e@.pos == pos@,
    {
        TokenError { msg: msg.to_owned(), pos: pos.clone() }
    }
}

pub open spec fn tok_view(t: Token) -> TokV
    decreases t,
{
    TokV {
        kind: match t.kind {
            TokenType::StringLit(s) => TokTypeV::StrLit(s@),
            TokenType::CharLit(c) => TokTypeV::CharLit(c),
            TokenType::Number(n) => TokTypeV::Number(n),
            TokenType::String(s) => TokTypeV::Word(s@),
            TokenType::Char(c) => TokTypeV::Punct(c),
            TokenType::Group { gtype, tokens } => TokTypeV::Group {
                gt: gtype,
                toks: toks_view(tokens@),
            },
        },
        pos: t.pos@,
    }
}

pub open spec fn toks_view(ts: Seq<Token>) -> Seq<TokV>
    decreases ts,
{
    if ts.len() == 0 {
        Seq::empty()
    } else {
        seq![tok_view(ts[0])] + toks_view(ts.drop_first())
    }
}

pub proof fn lemma_toks_view(ts: Seq<Token>)
    ensures
        toks_view(ts).len() == ts.len(),
        forall|i: int| 0 <= i < ts.len() ==> toks_view(ts)[i] == tok_view(ts[i]),
    decreases ts.len(),
{
    if ts.len() > 0 {
        lemma_toks_view(ts.drop_first());
    }
}

pub proof fn lemma_toks_view_push(ts: Seq<Token>, t: Token)
    ensures
        toks_view(ts.push(t)) == toks_view(ts).push(tok_view(t)),
    decreases ts.len(),
{
    lemma_toks_view(ts);
    lemma_toks_view(ts.push(t));
    assert(ts.push(t).len() == ts.len() + 1);
    assert(toks_view(ts.push(t)) =~= toks_view(ts).push(tok_view(t))) by {
        lemma_toks_view(ts);
        lemma_toks_view(ts.push(t));
        assert(forall|i: int| 0 <= i < ts.len() ==> ts.push(t)[i] == ts[i]);
        assert(ts.push(t)[ts.len() as int] == t);
    }
}

/// Character classes, by code point, exactly as the tokenizer tests them.
pub open spec fn is_digit(c: char) -> bool {
    '0' as u32 <= c as u32 && c as u32 <= '9' as u32
}

pub open spec fn is_letter(c: char) -> bool {
    ('a' as u32 <= c as u32 && c as u32 <= 'z' as u32) || ('A' as u32 <= c as u32 && c as u32
        <= 'Z' as u32)
}

/// Identifier continuation: letters, digits and underscore; the start
/// character admits no digit, so a digit always begins a number.
pub open spec fn is_word_char(c: char) -> bool {
    is_letter(c) || is_digit(c) || c == '_'
}

pub open spec fn is_open_bracket(c: char) -> bool {
    c == '(' || c == '[' || c == '{'
}

pub open spec fn is_close_bracket(c: char) -> bool {
    c == ')' || c == ']' || c == '}'
}

pub open spec fn group_of_char(c: char) -> GroupType {
    if c == '(' || c == ')' {
        GroupType::Paren
    } else if c == '[' || c == ']' {
        GroupType::Brack
    } else {
        GroupType::Curly
    }
}

impl GroupType {
    pub fn of_char(c: char) -> (g: Self)
        requires
            is_open_bracket(c) || is_close_bracket(c),
        ensures
            g == group_of_char(c),
    {
        if c == '(' || c == ')' {
            GroupType::Paren
        } else if c == '[' || c == ']' {
            GroupType::Brack
        } else {
            GroupType::Curly
        }
    }
}

/// An open group the tokenizer is still filling: its bracket kind, the
/// position of its opener, and the tokens gathered so far.
#[verifier::ext_equal]
pub struct FrameV {
    pub gt: GroupType,
    pub pos: PosV,
    pub toks: Seq<TokV>,
}

/// The tokenizer's whole state between characters.
#[verifier::ext_equal]
pub struct TokSt {
    pub i: int,
    pub row: int,
    pub col: int,
    pub stack: Seq<FrameV>,
    pub out: Seq<TokV>,
}

#[verifier::ext_equal]
pub enum TokRes {
    Done(Seq<TokV>),
    Fail(TokErrV),
}

/// Appends a finished token: to the innermost open group if one exists,
/// otherwise to the top-level output.
pub open spec fn spec_push(stack: Seq<FrameV>, out: Seq<TokV>, t: TokV) -> (Seq<FrameV>, Seq<
    TokV,
>) {
    if stack.len() == 0 {
        (stack, out.push(t))
    } else {
        let f = stack.last();
        (stack.update(stack.len() - 1, FrameV { gt: f.gt, pos: f.pos, toks: f.toks.push(t) }), out)
    }
}

/// The first index at or after `i` holding a newline, or the end of input:
/// where a `#` comment stops.
pub open spec fn scan_comment(s: Seq<char>, i: int) -> int
    decreases s.len() - i,
{
    if i < s.len() && s[i] != '\n' {
        scan_comment(s, i + 1)
    } else {
        i
    }
}

/// A scanned identifier run: the text gathered, the index after it, and the
/// column reached.
#[verifier::ext_equal]
pub struct WordScan {
    pub text: Seq<char>,
    pub end: int,
    pub col: int,
}

pub open spec fn scan_word(s: Seq<char>, i: int, text: Seq<char>, col: int) -> WordScan
    decreases s.len() - i,
{
    if i < s.len() && is_word_char(s[i]) {
        scan_word(s, i + 1, text.push(s[i]), col + 1)
    } else {
        WordScan { text, end: i, col }
    }
}

/// A scanned number run.  `Trail` means the run ended in a dot that is not
/// followed by a digit, so the dot becomes a punctuation token of its own;
/// `EofDot` means the input ended right after that dot.
#[verifier::ext_equal]
pub enum NumScan {
    Plain { text: Seq<char>, end: int, col: int },
    Trail { text: Seq<char>, end: int, col: int },
    EofDot,
}

pub open spec fn scan_number(s: Seq<char>, i: int, text: Seq<char>, col: int) -> NumScan
    decreases s.len() - i,
{
    if i < s.len() && is_digit(s[i]) {
        scan_number(s, i + 1, text.push(s[i]), col + 1)
    } else if i < s.len() && s[i] == '.' {
        if i + 1 < s.len() {
            if is_digit(s[i + 1]) {
                scan_number(s, i + 1, text.push('.'), col)
            } else {
                NumScan::Trail { text, end: i + 1, col }
            }
        } else {
            NumScan::EofDot
        }
    } else {
        NumScan::Plain { text, end: i, col }
    }
}

/// What `\x` decodes to inside a string literal, or `None` for an unknown
/// escape.
pub open spec fn escape_in_string(c: char) -> Option<char> {
    if c == 'n' {
        Some('\n')
    } else if c == 't' {
        Some('\t')
    } else if c == 'r' {
        Some('\r')
    } else if c == '"' {
        Some('"')
    } else {
        None
    }
}

/// What `\x` decodes to inside a character literal.
pub open spec fn escape_in_char(c: char) -> Option<char> {
    if c == 'n' {
        Some('\n')
    } else if c == 't' {
        Some('\t')
    } else if c == 'r' {
        Some('\r')
    } else if c == '\'' {
        Some('\'')
    } else {
        None
    }
}

/// A scanned string-literal body, after the opening quote.
#[verifier::ext_equal]
pub enum StrScan {
    Closed { text: Seq<char>, end: int, col: int },
    BadEscape,
    EofEscape,
    Unclosed,
}

pub open spec fn scan_string(s: Seq<char>, i: int, text: Seq<char>, col: int) -> StrScan
    decreases s.len() - i,
{
    if i >= s.len() {
        StrScan::Unclosed
    } else if s[i] == '"' {
        StrScan::Closed { text, end: i + 1, col }
    } else if s[i] == '\\' {
        if i + 1 < s.len() {
            match escape_in_string(s[i + 1]) {
                Some(d) => scan_string(s, i + 2, text.push(d), col),
                None => StrScan::BadEscape,
            }
        } else {
            StrScan::EofEscape
        }
    } else {
        scan_string(s, i + 1, text.push(s[i]), col + 1)
    }
}

pub open spec fn fail(msg: Seq<char>, pos: PosV) -> TokRes {
    TokRes::Fail(TokErrV { msg, pos })
}

pub proof fn lemma_scan_comment_bounds(s: Seq<char>, i: int)
    requires
        0 <= i <= s.len(),
    ensures
        i <= scan_comment(s, i) <= s.len(),
    decreases s.len() - i,
{
    if i < s.len() && s[i] != '\n' {
        lemma_scan_comment_bounds(s, i + 1);
    }
}

pub proof fn lemma_scan_word_bounds(s: Seq<char>, i: int, text: Seq<char>, col: int)
    requires
        0 <= i <= s.len(),
    ensures
        i <= scan_word(s, i, text, col).end <= s.len(),
        scan_word(s, i, text, col).col <= col + (scan_word(s, i, text, col).end - i),
    decreases s.len() - i,
{
    if i < s.len() && is_word_char(s[i]) {
        lemma_scan_word_bounds(s, i + 1, text.push(s[i]), col + 1);
    }
}

pub proof fn lemma_scan_number_bounds(s: Seq<char>, i: int, text: Seq<char>, col: int)
    requires
        0 <= i <= s.len(),
    ensures
        (match scan_number(s, i, text, col) {
            NumScan::Plain { end, col: c2, .. } => i <= end <= s.len() && c2 <= col + (end - i),
            NumScan::Trail { end, col: c2, .. } => i < end <= s.len() && c2 <= col + (end - i),
            NumScan::EofDot => true,
        }),
    decreases s.len() - i,
{
    if i < s.len() && is_digit(s[i]) {
        lemma_scan_number_bounds(s, i + 1, text.push(s[i]), col + 1);
    } else if i < s.len() && s[i] == '.' && i + 1 < s.len() && is_digit(s[i + 1]) {
        lemma_scan_number_bounds(s, i + 1, text.push('.'), col);
    }
}

pub proof fn lemma_scan_string_bounds(s: Seq<char>, i: int, text: Seq<char>, col: int)
    requires
        0 <= i <= s.len(),
    ensures
        (match scan_string(s, i, text, col) {
            StrScan::Closed { end, col: c2, .. } => i < end <= s.len() && c2 <= col + (end - i),
            _ => true,
        }),
    decreases s.len() - i,
{
    if i < s.len() && s[i] != '"' {
        if s[i] == '\\' {
            if i + 1 < s.len() && escape_in_string(s[i + 1]) is Some {
                lemma_scan_string_bounds(s, i + 2, text.push(escape_in_string(s[i + 1])->0), col);
            }
        } else {
            lemma_scan_string_bounds(s, i + 1, text.push(s[i]), col + 1);
        }
    }
}

/// One step of the tokenizer per recursive call, from the state `st`; `start`
/// is the position the whole run was seeded with, used by the error for a
/// group left open at the end of input.
pub open spec fn spec_tok(s: Seq<char>, start: PosV, st: TokSt) -> TokRes
    decreases s.len() - st.i,
    via spec_tok_decreases
{
    if st.i < 0 {
        TokRes::Done(st.out)  // never reached from spec_tokenize
    } else if st.i >= s.len() {
        if st.stack.len() > 0 {
            fail("Mismatched parenthesis"@, start)
        } else {
            TokRes::Done(st.out)
        }
    } else {
        let c = s[st.i];
        let pos = PosV { file: start.file, row: st.row, col: st.col };
        if c == ' ' || c == '\t' {
            spec_tok(s, start, TokSt { i: st.i + 1, col: st.col + 1, ..st })
        } else if c == '\n' {
            spec_tok(s, start, TokSt { i: st.i + 1, row: st.row + 1, col: 1, ..st })
        } else if c == '#' {
            spec_tok(s, start, TokSt { i: scan_comment(s, st.i + 1), ..st })
        } else if is_open_bracket(c) {
            let frame = FrameV { gt: group_of_char(c), pos, toks: Seq::empty() };
            spec_tok(
                s,
                start,
                TokSt { i: st.i + 1, col: st.col + 1, stack: st.stack.push(frame), ..st },
            )
        } else if is_close_bracket(c) {
            if st.stack.len() == 0 {
                fail("Mismatched parenthesis"@, pos)
            } else {
                let f = st.stack.last();
                if f.gt == group_of_char(c) {
                    let t = TokV { kind: TokTypeV::Group { gt: f.gt, toks: f.toks }, pos: f.pos };
                    let popped = st.stack.drop_last();
                    let (stack2, out2) = spec_push(popped, st.out, t);
                    spec_tok(
                        s,
                        start,
                        TokSt { i: st.i + 1, col: st.col + 1, stack: stack2, out: out2, ..st },
                    )
                } else {
                    fail("Mismatched parenthesis"@, pos)
                }
            }
        } else if is_digit(c) {
            match scan_number(s, st.i + 1, seq![c], st.col) {
                NumScan::EofDot => fail("Unexpected end of number"@, pos),
                NumScan::Plain { text, end, col } => match num_of_text(text) {
                    Some(b) => {
                        let t = TokV { kind: TokTypeV::Number(b), pos };
                        let (stack2, out2) = spec_push(st.stack, st.out, t);
                        spec_tok(
                            s,
                            start,
                            TokSt { i: end, col: col + 1, stack: stack2, out: out2, ..st },
                        )
                    },
                    None => fail("Bad int"@, pos),
                },
                NumScan::Trail { text, end, col } => match num_of_text(text) {
                    Some(b) => {
                        let t = TokV { kind: TokTypeV::Number(b), pos };
                        let (stack2, out2) = spec_push(st.stack, st.out, t);
                        let dot = TokV { kind: TokTypeV::Punct('.'), pos };
                        let (stack3, out3) = spec_push(stack2, out2, dot);
                        spec_tok(
                            s,
                            start,
                            TokSt { i: end, col: col + 1, stack: stack3, out: out3, ..st },
                        )
                    },
                    None => fail("Bad int"@, pos),
                },
            }
        } else if is_letter(c) || c == '_' {
            let w = scan_word(s, st.i + 1, seq![c], st.col);
            let t = TokV { kind: TokTypeV::Word(w.text), pos };
            let (stack2, out2) = spec_push(st.stack, st.out, t);
            spec_tok(s, start, TokSt { i: w.end, col: w.col + 1, stack: stack2, out: out2, ..st })
        } else if c == '"' {
            match scan_string(s, st.i + 1, Seq::empty(), st.col) {
                StrScan::Closed { text, end, col } => {
                    let t = TokV { kind: TokTypeV::StrLit(text), pos };
                    let (stack2, out2) = spec_push(st.stack, st.out, t);
                    spec_tok(
                        s,
                        start,
                        TokSt { i: end, col: col + 1, stack: stack2, out: out2, ..st },
                    )
                },
                StrScan::BadEscape => fail("Unknown escaped character"@, pos),
                StrScan::EofEscape => fail("Expected an escaped character but found nothing"@, pos),
                StrScan::Unclosed => fail("Mismatched double quotation mark"@, pos),
            }
        } else if c == '\'' {
            if st.i + 1 >= s.len() {
                fail("Mismatched single quotation mark"@, pos)
            } else if s[st.i + 1] == '\\' {
                if st.i + 2 >= s.len() {
                    fail("Expected an escaped character but found nothing"@, pos)
                } else {
                    match escape_in_char(s[st.i + 2]) {
                        None => fail("Unknown escaped character"@, pos),
                        Some(d) => {
                            if st.i + 3 >= s.len() || s[st.i + 3] != '\'' {
                                fail("Mismatched single quotation mark"@, pos)
                            } else {
                                let t = TokV { kind: TokTypeV::CharLit(d), pos };
                                let (stack2, out2) = spec_push(st.stack, st.out, t);
                                spec_tok(
                                    s,
                                    start,
                                    TokSt {
                                        i: st.i + 4,
                                        col: st.col + 1,
                                        stack: stack2,
                                        out: out2,
                                        ..st
                                    },
                                )
                            }
                        },
                    }
                }
            } else {
                if st.i + 2 >= s.len() || s[st.i + 2] != '\'' {
                    fail("Mismatched single quotation mark"@, pos)
                } else {
                    let t = TokV { kind: TokTypeV::CharLit(s[st.i + 1]), pos };
                    let (stack2, out2) = spec_push(st.stack, st.out, t);
                    spec_tok(
                        s,
                        start,
                        TokSt { i: st.i + 3, col: st.col + 1, stack: stack2, out: out2, ..st },
                    )
                }
            }
        } else {
            let t = TokV { kind: TokTypeV::Punct(c), pos };
            let (stack2, out2) = spec_push(st.stack, st.out, t);
            spec_tok(
                s,
                start,
                TokSt { i: st.i + 1, col: st.col + 1, stack: stack2, out: out2, ..st },
            )
        }
    }
}

#[via_fn]
proof fn spec_tok_decreases(s: Seq<char>, start: PosV, st: TokSt) {
    if 0 <= st.i < s.len() {
        lemma_scan_comment_bounds(s, st.i + 1);
        lemma_scan_word_bounds(s, st.i + 1, seq![s[st.i]], st.col);
        lemma_scan_number_bounds(s, st.i + 1, seq![s[st.i]], st.col);
        lemma_scan_string_bounds(s, st.i + 1, Seq::empty(), st.col);
    }
}

/// What tokenizing `s` from position `start` yields: the exact token
/// sequence, or the exact error.
pub open spec fn spec_tokenize(s: Seq<char>, start: PosV) -> TokRes {
    spec_tok(
        s,
        start,
        TokSt { i: 0, row: start.row, col: start.col, stack: Seq::empty(), out: Seq::empty() },
    )
}

// ---------------------------------------------------------------------------
// The executable tokenizer, verified against the spec functions above.
// ---------------------------------------------------------------------------
/// An open group under construction.
struct Frame {
    gt: GroupType,
    pos: FilePos,
    toks: Vec<Token>,
}

spec fn frame_view(f: Frame) -> FrameV {
    FrameV { gt: f.gt, pos: f.pos@, toks: toks_view(f.toks@) }
}

spec fn frames_view(fs: Seq<Frame>) -> Seq<FrameV>
    decreases fs,
{
    if fs.len() == 0 {
        Seq::empty()
    } else {
        seq![frame_view(fs[0])] + frames_view(fs.drop_first())
    }
}

proof fn lemma_frames_view(fs: Seq<Frame>)
    ensures
        frames_view(fs).len() == fs.len(),
        forall|i: int| 0 <= i < fs.len() ==> frames_view(fs)[i] == frame_view(fs[i]),
    decreases fs.len(),
{
    if fs.len() > 0 {
        lemma_frames_view(fs.drop_first());
    }
}

proof fn lemma_frames_view_push(fs: Seq<Frame>, f: Frame)
    ensures
        frames_view(fs.push(f)) == frames_view(fs).push(frame_view(f)),
{
    lemma_frames_view(fs);
    lemma_frames_view(fs.push(f));
    assert(frames_view(fs.push(f)) =~= frames_view(fs).push(frame_view(f)));
}

proof fn lemma_frames_view_drop_last(fs: Seq<Frame>)
    requires
        fs.len() > 0,
    ensures
        frames_view(fs.drop_last()) == frames_view(fs).drop_last(),
        frame_view(fs.last()) == frames_view(fs).last(),
{
    lemma_frames_view(fs);
    lemma_frames_view(fs.drop_last());
    assert(frames_view(fs.drop_last()) =~= frames_view(fs).drop_last());
}

fn is_digit_exec(c: char) -> (r: bool)
    ensures
        r == is_digit(c),
{
    let u = c as u32;
    u >= '0' as u32 && u <= '9' as u32
}

fn is_letter_exec(c: char) -> (r: bool)
    ensures
        r == is_letter(c),
{
    let u = c as u32;
    (u >= 'a' as u32 && u <= 'z' as u32) || (u >= 'A' as u32 && u <= 'Z' as u32)
}

fn is_word_char_exec(c: char) -> (r: bool)
    ensures
        r == is_word_char(c),
{
    is_letter_exec(c) || is_digit_exec(c) || c == '_'
}

fn skip_comment(chars: &Vec<char>, i: usize) -> (r: usize)
    requires
        i <= chars@.len(),
    ensures
        r == scan_comment(chars@, i as int),
        i <= r <= chars@.len(),
    decreases chars@.len() - i,
{
    if i < chars.len() && chars[i] != '\n' {
        skip_comment(chars, i + 1)
    } else {
        i
    }
}

enum NumScanExec {
    Plain { end: usize, col: usize },
    Trail { end: usize, col: usize },
    EofDot,
}

fn scan_number_exec(chars: &Vec<char>, i: usize, text: &mut String, col: usize) -> (r:
    NumScanExec)
    requires
        i <= chars@.len(),
        col + (chars@.len() - i) <= usize::MAX,
    ensures
        (match scan_number(chars@, i as int, old(text)@, col as int) {
            NumScan::Plain { text: t2, end, col: c2 } => r matches NumScanExec::Plain {
                end: e,
                col: c,
            } && e == end && c == c2 && final(text)@ == t2,
            NumScan::Trail { text: t2, end, col: c2 } => r matches NumScanExec::Trail {
                end: e,
                col: c,
            } && e == end && c == c2 && final(text)@ == t2,
            NumScan::EofDot => r matches NumScanExec::EofDot,
        }),
    decreases chars@.len() - i,
{
    if i < chars.len() && is_digit_exec(chars[i]) {
        push_char(text, chars[i]);
        scan_number_exec(chars, i + 1, text, col + 1)
    } else if i < chars.len() && chars[i] == '.' {
        if i + 1 < chars.len() {
            if is_digit_exec(chars[i + 1]) {
                push_char(text, '.');
                scan_number_exec(chars, i + 1, text, col)
            } else {
                NumScanExec::Trail { end: i + 1, col }
            }
        } else {
            NumScanExec::EofDot
        }
    } else {
        NumScanExec::Plain { end: i, col }
    }
}

struct WordScanExec {
    end: usize,
    col: usize,
}

fn scan_word_exec(chars: &Vec<char>, i: usize, text: &mut String, col: usize) -> (r: WordScanExec)
    requires
        i <= chars@.len(),
        col + (chars@.len() - i) <= usize::MAX,
    ensures
        ({
            let w = scan_word(chars@, i as int, old(text)@, col as int);
            r.end == w.end && r.col == w.col && final(text)@ == w.text
        }),
    decreases chars@.len() - i,
{
    if i < chars.len() && is_word_char_exec(chars[i]) {
        push_char(text, chars[i]);
        scan_word_exec(chars, i + 1, text, col + 1)
    } else {
        WordScanExec { end: i, col }
    }
}

fn escape_string_exec(c: char) -> (r: Option<char>)
    ensures
        r == escape_in_string(c),
{
    if c == 'n' {
        Some('\n')
    } else if c == 't' {
        Some('\t')
    } else if c == 'r' {
        Some('\r')
    } else if c == '"' {
        Some('"')
    } else {
        None
    }
}

fn escape_char_exec(c: char) -> (r: Option<char>)
    ensures
        r == escape_in_char(c),
{
    if c == 'n' {
        Some('\n')
    } else if c == 't' {
        Some('\t')
    } else if c == 'r' {
        Some('\r')
    } else if c == '\'' {
        Some('\'')
    } else {
        None
    }
}

enum StrScanExec {
    Closed { end: usize, col: usize },
    BadEscape,
    EofEscape,
    Unclosed,
}

fn scan_string_exec(chars: &Vec<char>, i: usize, text: &mut String, col: usize) -> (r: StrScanExec)
    requires
        i <= chars@.len(),
        col + (chars@.len() - i) <= usize::MAX,
    ensures
        (match scan_string(chars@, i as int, old(text)@, col as int) {
            StrScan::Closed { text: t2, end, col: c2 } => r matches StrScanExec::Closed {
                end: e,
                col: c,
            } && e == end && c == c2 && final(text)@ == t2,
            StrScan::BadEscape => r matches StrScanExec::BadEscape,
            StrScan::EofEscape => r matches StrScanExec::EofEscape,
            StrScan::Unclosed => r matches StrScanExec::Unclosed,
        }),
    decreases chars@.len() - i,
{
    if i >= chars.len() {
        StrScanExec::Unclosed
    } else if chars[i] == '"' {
        StrScanExec::Closed { end: i + 1, col }
    } else if chars[i] == '\\' {
        if i + 1 < chars.len() {
            match escape_string_exec(chars[i + 1]) {
                Some(d) => {
                    push_char(text, d);
                    scan_string_exec(chars, i + 2, text, col)
                },
                None => StrScanExec::BadEscape,
            }
        } else {
            StrScanExec::EofEscape
        }
    } else {
        let c = chars[i];
        push_char(text, c);
        scan_string_exec(chars, i + 1, text, col + 1)
    }
}

/// Appends a finished token to the innermost open group, or to the top-level
/// output when no group is open.
fn push_token(stack: &mut Vec<Frame>, out: &mut Vec<Token>, t: Token)
    ensures
        ({
            let (s2, o2) = spec_push(
                frames_view(old(stack)@),
                toks_view(old(out)@),
                tok_view(t),
            );
            frames_view(final(stack)@) == s2 && toks_view(final(out)@) == o2
        }),
{
    proof {
        lemma_frames_view(old(stack)@);
    }
    if stack.len() == 0 {
        let ghost t0 = t;
        out.push(t);
        proof {
            lemma_toks_view_push(old(out)@, t0);
        }
    } else {
        let ghost os = old(stack)@;
        let mut f = stack.pop().unwrap();
        let ghost toks0 = f.toks@;
        let ghost t0 = t;
        f.toks.push(t);
        stack.push(f);
        proof {
            lemma_toks_view_push(toks0, t0);
            lemma_frames_view(os);
            lemma_frames_view(final(stack)@);
            let (s2, o2) = spec_push(frames_view(os), toks_view(old(out)@), tok_view(t0));
            assert(frames_view(final(stack)@) =~= s2);
        }
    }
}


fn char_lit_token(c: char, pos: FilePos) -> (t: Token)
    ensures
        tok_view(t) == (TokV { kind: TokTypeV::CharLit(c), pos: pos@ }),
{
    Token { kind: TokenType::CharLit(c), pos }
}

fn punct_token(c: char, pos: FilePos) -> (t: Token)
    ensures
        tok_view(t) == (TokV { kind: TokTypeV::Punct(c), pos: pos@ }),
{
    Token { kind: TokenType::Char(c), pos }
}

/// Turns source text into a sequence of top-level tokens, folding each
/// matched bracket pair into a single nested `Group` token.  The returned
/// tokens, or the returned error, are exactly what `spec_tokenize` states
/// for this text and starting position.
pub fn tokenize_str(src: &str, pos: FilePos) -> (r: Result<Vec<Token>, TokenError>)
    requires
        pos@.row + src@.len() <= usize::MAX,
        pos@.col + src@.len() <= usize::MAX,
    ensures
        (match r {
            Ok(toks) => spec_tokenize(src@, pos@) == TokRes::Done(toks_view(toks@)),
            Err(e) => spec_tokenize(src@, pos@) == TokRes::Fail(e@),
        }),
{
    let ghost s = src@;
    let ghost start = pos@;
    let chars = chars_of(src);
    let n = chars.len();

    let mut i: usize = 0;
    let mut row: usize = pos.row;
    let mut col: usize = pos.col;
    let mut stack: Vec<Frame> = Vec::new();
    let mut out: Vec<Token> = Vec::new();

    while i < n
        invariant
            chars@ == s,
            s == src@,
            n == s.len(),
            i <= n,
            col + (n - i) <= usize::MAX,
            row + (n - i) <= usize::MAX,
            pos@ == start,
            pos@.row + s.len() <= usize::MAX,
            spec_tok(
                s,
                start,
                TokSt {
                    i: i as int,
                    row: row as int,
                    col: col as int,
                    stack: frames_view(stack@),
                    out: toks_view(out@),
                },
            ) == spec_tokenize(s, start),
        decreases n - i,
    {
        let ghost st0 = TokSt {
            i: i as int,
            row: row as int,
            col: col as int,
            stack: frames_view(stack@),
            out: toks_view(out@),
        };
        let c = chars[i];
        let cur = FilePos { file: pos.file.clone(), row, col };
        if c == ' ' || c == '\t' {
            i = i + 1;
            col = col + 1;
        } else if c == '\n' {
            i = i + 1;
            row = row + 1;
            col = 1;
        } else if c == '#' {
            i = skip_comment(&chars, i + 1);
        } else if c == '(' || c == '[' || c == '{' {
            let g = GroupType::of_char(c);
            let ghost fs0 = stack@;
            stack.push(Frame { gt: g, pos: cur, toks: Vec::new() });
            proof {
                lemma_frames_view_push(fs0, stack@.last());
            }
            i = i + 1;
            col = col + 1;
        } else if c == ')' || c == ']' || c == '}' {
            if stack.len() == 0 {
                proof {
                    lemma_frames_view(stack@);
                }
                return Err(TokenError::new("Mismatched parenthesis", &cur));
            }
            let ghost fs0 = stack@;
            proof {
                lemma_frames_view_drop_last(fs0);
            }
            let f = stack.pop().unwrap();
            let g = GroupType::of_char(c);
            if f.gt != g {
                return Err(TokenError::new("Mismatched parenthesis", &cur));
            }
            let t = Token { kind: TokenType::Group { gtype: f.gt, tokens: f.toks }, pos: f.pos };
            push_token(&mut stack, &mut out, t);
            i = i + 1;
            col = col + 1;
        } else if is_digit_exec(c) {
            let mut text = String::new();
            push_char(&mut text, c);
            proof {
                assert(text@ =~= seq![c]);
                lemma_scan_number_bounds(s, i + 1 as int, seq![c], col as int);
            }
            let sc = scan_number_exec(&chars, i + 1, &mut text, col);
            match sc {
                NumScanExec::EofDot => {
                    return Err(TokenError::new("Unexpected end of number", &cur));
                },
                NumScanExec::Plain { end, col: c2 } => {
                    match crate::numerics::bits_of_decimal(text.as_str()) {
                        Some(b) => {
                            let t = Token { kind: TokenType::Number(b), pos: cur };
                            push_token(&mut stack, &mut out, t);
                            i = end;
                            col = c2 + 1;
                        },
                        None => {
                            return Err(TokenError::new("Bad int", &cur));
                        },
                    }
                },
                NumScanExec::Trail { end, col: c2 } => {
                    match crate::numerics::bits_of_decimal(text.as_str()) {
                        Some(b) => {
                            let t = Token { kind: TokenType::Number(b), pos: cur.clone() };
                            push_token(&mut stack, &mut out, t);
                            let dot = Token { kind: TokenType::Char('.'), pos: cur };
                            push_token(&mut stack, &mut out, dot);
                            i = end;
                            col = c2 + 1;
                        },
                        None => {
                            return Err(TokenError::new("Bad int", &cur));
                        },
                    }
                },
            }
        } else if is_letter_exec(c) || c == '_' {
            let mut text = String::new();
            push_char(&mut text, c);
            proof {
                assert(text@ =~= seq![c]);
                lemma_scan_word_bounds(s, i + 1 as int, seq![c], col as int);
            }
            let w = scan_word_exec(&chars, i + 1, &mut text, col);
            let t = Token { kind: TokenType::String(text), pos: cur };
            push_token(&mut stack, &mut out, t);
            i = w.end;
            col = w.col + 1;
        } else if c == '"' {
            let mut text = String::new();
            proof {
                assert(text@ =~= Seq::<char>::empty());
                lemma_scan_string_bounds(s, i + 1 as int, Seq::empty(), col as int);
            }
            let sc = scan_string_exec(&chars, i + 1, &mut text, col);
            match sc {
                StrScanExec::Closed { end, col: c2 } => {
                    let t = Token { kind: TokenType::StringLit(text), pos: cur };
                    push_token(&mut stack, &mut out, t);
                    i = end;
                    col = c2 + 1;
                },
                StrScanExec::BadEscape => {
                    return Err(TokenError::new("Unknown escaped character", &cur));
                },
                StrScanExec::EofEscape => {
                    return Err(
                        TokenError::new("Expected an escaped character but found nothing", &cur),
                    );
                },
                StrScanExec::Unclosed => {
                    return Err(TokenError::new("Mismatched double quotation mark", &cur));
                },
            }
        } else if c == '\'' {
            if i + 1 >= n {
                return Err(TokenError::new("Mismatched single quotation mark", &cur));
            }
            let c1 = chars[i + 1];
            if c1 == '\\' {
                if i + 2 >= n {
                    return Err(
                        TokenError::new("Expected an escaped character but found nothing", &cur),
                    );
                }
                match escape_char_exec(chars[i + 2]) {
                    None => {
                        return Err(TokenError::new("Unknown escaped character", &cur));
                    },
                    Some(d) => {
                        if i + 3 >= n {
                            return Err(TokenError::new("Mismatched single quotation mark", &cur));
                        }
                        if chars[i + 3] != '\'' {
                            return Err(TokenError::new("Mismatched single quotation mark", &cur));
                        }
                        let t = char_lit_token(d, cur);
                        proof {
                            assert(t.pos@ =~= PosV { file: start.file, row: st0.row, col: st0.col });
                        }
                        push_token(&mut stack, &mut out, t);
                        i = i + 4;
                        col = col + 1;
                    },
                }
            } else {
                if i + 2 >= n {
                    return Err(TokenError::new("Mismatched single quotation mark", &cur));
                }
                if chars[i + 2] != '\'' {
                    return Err(TokenError::new("Mismatched single quotation mark", &cur));
                }
                let t = char_lit_token(c1, cur);
                proof {
                    assert(t.pos@ =~= PosV { file: start.file, row: st0.row, col: st0.col });
                }
                push_token(&mut stack, &mut out, t);
                i = i + 3;
                col = col + 1;
            }
        } else {
            let t = punct_token(c, cur);
            proof {
                assert(t.pos@ =~= PosV { file: start.file, row: st0.row, col: st0.col });
            }
            push_token(&mut stack, &mut out, t);
            i = i + 1;
            col = col + 1;
        }
    }
    proof {
        lemma_frames_view(stack@);
    }
    if stack.len() > 0 {
        return Err(TokenError::new("Mismatched parenthesis", &pos));
    }
    Ok(out)
}

} // verus!
