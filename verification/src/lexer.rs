//! Tokenizer: turns input text into block-header and content-line tokens,
//! in strict (uppercase-only) or tolerant (case-repairing) mode.

use vstd::prelude::*;
use crate::ast::{BlockKind, Span, spec_kind_of};
use crate::errors::ApexResult;
use crate::text::{
    chars_of, chars_to_string, is_upper, spec_is_upper, spec_lines, spec_lower, spec_trim,
    split_lines, trim_chars,
};

verus! {

/// Mathematical model of a [`Token`].
pub enum TokenV {
    Header(BlockKind, Span),
    Line(Seq<char>, Span),
    Eof,
}

/// Token types produced by the lexer.
#[derive(Debug, Clone, PartialEq, Eq)]
pub enum Token {
    /// Block header (e.g., "TASK", "PLAN")
    BlockHeader(BlockKind, Span),
    /// Content line (non-header text)
    Line(String, Span),
    /// End of input
    Eof,
}

impl View for Token {
    type V = TokenV;

    open spec fn view(&self) -> TokenV {
        match self {
            Token::BlockHeader(k, sp) => TokenV::Header(*k, *sp),
            Token::Line(s, sp) => TokenV::Line(s@, *sp),
            Token::Eof => TokenV::Eof,
        }
    }
}

impl DeepView for Token {
    type V = TokenV;

    open spec fn deep_view(&self) -> TokenV {
        self@
    }
}

impl Token {
    /// Get the span, if this token has one.
    pub fn span(&self) -> (r: Option<&Span>)
        ensures
            match self@ {
                TokenV::Header(_, sp) => r matches Some(s) && *s == sp,
                TokenV::Line(_, sp) => r matches Some(s) && *s == sp,
                TokenV::Eof => r is None,
            },
    {
        match self {
            Token::BlockHeader(_, span) => Some(span),
            Token::Line(_, span) => Some(span),
            Token::Eof => None,
        }
    }
}

/// Parser mode: strict requires exact uppercase headers; tolerant accepts
/// any casing and records each repair.
#[derive(Debug, Clone, Copy, PartialEq, Eq, Structural)]
pub enum ParseMode {
    /// Headers MUST be uppercase; other casings are ordinary content
    Strict,
    /// Accept lowercase/mixed-case headers, record fixes
    Tolerant,
}

impl Default for ParseMode {
    /// Strict mode is the default.
    fn default() -> (r: ParseMode)
        ensures
            r == ParseMode::Strict,
    {
        ParseMode::Strict
    }
}

/// Mathematical model of a [`ParseFix`].
pub struct ParseFixV {
    pub line: usize,
    pub description: Seq<char>,
}

/// A repair recorded while lexing in tolerant mode.
#[derive(Debug, Clone, PartialEq, Eq)]
pub struct ParseFix {
    pub line: usize,
    pub description: String,
}

impl View for ParseFix {
    type V = ParseFixV;

    open spec fn view(&self) -> ParseFixV {
        ParseFixV { line: self.line, description: self.description@ }
    }
}

impl DeepView for ParseFix {
    type V = ParseFixV;

    open spec fn deep_view(&self) -> ParseFixV {
        self@
    }
}

// --- Header recognition ---

/// Whether every character is an ASCII uppercase letter or an underscore.
pub open spec fn all_upper_or_underscore(s: Seq<char>) -> bool {
    forall|i: int| 0 <= i < s.len() ==> spec_is_upper(#[trigger] s[i]) || s[i] == '_'
}

/// Strict header recognition: the trimmed line must be entirely uppercase
/// letters or underscores and spell a canonical block name.
pub open spec fn strict_header_kind(line: Seq<char>) -> Option<BlockKind> {
    let t = spec_trim(line);
    if all_upper_or_underscore(t) {
        spec_kind_of(spec_lower(t))
    } else {
        None
    }
}

/// Tolerant header recognition: the trimmed line must spell a canonical
/// block name in any casing.
pub open spec fn tolerant_header_kind(line: Seq<char>) -> Option<BlockKind> {
    spec_kind_of(spec_lower(spec_trim(line)))
}

/// Whether a tolerant-mode header needed a case repair.
pub open spec fn tolerant_fixed(line: Seq<char>) -> bool {
    tolerant_header_kind(line) is Some && !all_upper_or_underscore(spec_trim(line))
}

/// Header recognition under the given mode.
pub open spec fn header_kind(line: Seq<char>, mode: ParseMode) -> Option<BlockKind> {
    match mode {
        ParseMode::Strict => strict_header_kind(line),
        ParseMode::Tolerant => tolerant_header_kind(line),
    }
}

/// The description recorded for a repaired header.
pub open spec fn spec_fix_desc(line: Seq<char>, kind: BlockKind) -> Seq<char> {
    "Normalized header '"@ + spec_trim(line) + "' to '"@ + kind.spec_name() + "'"@
}

/// The token that one input line becomes under the given mode.
pub open spec fn spec_token_of(line: Seq<char>, lineno: usize, mode: ParseMode) -> TokenV {
    match header_kind(line, mode) {
        Some(k) => TokenV::Header(
            k,
            Span { start_line: lineno, end_line: lineno, start_col: 1, end_col: 1 },
        ),
        None => TokenV::Line(
            line,
            Span { start_line: lineno, end_line: lineno, start_col: 1, end_col: 1 },
        ),
    }
}

/// The token stream for `lines[start..]`, one token per line plus a final
/// end-of-input token; line numbers are 1-indexed from the whole input.
pub open spec fn spec_tokens_from(lines: Seq<Seq<char>>, start: int, mode: ParseMode) -> Seq<
    TokenV,
> {
    Seq::new(
        (lines.len() - start + 1) as nat,
        |i: int|
            if i < lines.len() - start {
                spec_token_of(lines[start + i], (start + i + 1) as usize, mode)
            } else {
                TokenV::Eof
            },
    )
}

/// The token stream of a whole line list.
pub open spec fn spec_tokens(lines: Seq<Seq<char>>, mode: ParseMode) -> Seq<TokenV> {
    spec_tokens_from(lines, 0, mode)
}

/// The fix entry recorded for line number `n` (1-indexed) of `lines`.
pub open spec fn spec_fix_at(lines: Seq<Seq<char>>, n: int) -> ParseFixV {
    ParseFixV {
        line: n as usize,
        description: spec_fix_desc(lines[n - 1], tolerant_header_kind(lines[n - 1]).unwrap()),
    }
}

/// The repairs recorded while lexing lines `start+1 ..= end` in tolerant
/// mode, in line order.
pub open spec fn spec_fixes_range(lines: Seq<Seq<char>>, start: int, end: int) -> Seq<ParseFixV>
    decreases end - start,
{
    if start >= end {
        Seq::empty()
    } else {
        spec_fixes_range(lines, start, end - 1) + (if tolerant_fixed(lines[end - 1]) {
            seq![spec_fix_at(lines, end)]
        } else {
            Seq::empty()
        })
    }
}

/// The repairs recorded from position `start` on under the given mode: none
/// in strict mode.
pub open spec fn spec_mode_fixes(
    lines: Seq<Seq<char>>,
    start: int,
    mode: ParseMode,
) -> Seq<ParseFixV> {
    match mode {
        ParseMode::Strict => Seq::empty(),
        ParseMode::Tolerant => spec_fixes_range(lines, start, lines.len() as int),
    }
}

/// Mathematical model of a [`Lexer`].
pub struct LexerV {
    pub lines: Seq<Seq<char>>,
    pub line_idx: int,
    pub mode: ParseMode,
    pub fixes: Seq<ParseFixV>,
}

/// Lexer state: the input split into lines, a cursor, the mode, and the
/// repairs recorded so far.
pub struct Lexer {
    /// Lines split from input
    lines: Vec<String>,
    /// Current line index (0-based)
    line_idx: usize,
    /// Parser mode (strict or tolerant)
    mode: ParseMode,
    /// Fixes applied in tolerant mode
    pub fixes: Vec<ParseFix>,
}

impl View for Lexer {
    type V = LexerV;

    closed spec fn view(&self) -> LexerV {
        LexerV {
            lines: self.lines.deep_view(),
            line_idx: self.line_idx as int,
            mode: self.mode,
            fixes: self.fixes.deep_view(),
        }
    }
}

impl Lexer {
    /// The cursor never runs past the line list.
    pub open spec fn wf(self) -> bool {
        0 <= self@.line_idx <= self@.lines.len()
    }

    /// Create a new lexer over the input, in strict mode.
    pub fn new(input: &str) -> (r: Lexer)
        ensures
            r.wf(),
            r@.lines == spec_lines(input@),
            r@.line_idx == 0,
            r@.mode == ParseMode::Strict,
            r@.fixes.len() == 0,
    {
        Lexer::with_mode(input, ParseMode::Strict)
    }

    /// Create a new lexer over the input, with the given mode.
    pub fn with_mode(input: &str, mode: ParseMode) -> (r: Lexer)
        ensures
            r.wf(),
            r@.lines == spec_lines(input@),
            r@.line_idx == 0,
            r@.mode == mode,
            r@.fixes.len() == 0,
    {
        let raw = split_lines(input);
        let mut lines: Vec<String> = Vec::new();
        let mut i: usize = 0;
        while i < raw.len()
            invariant
                i <= raw@.len(),
                raw.deep_view().len() == raw@.len(),
                forall|k: int| 0 <= k < raw@.len() ==> raw.deep_view()[k] == #[trigger] raw@[k]@,
                lines.deep_view().len() == i,
                forall|k: int| 0 <= k < i ==> lines.deep_view()[k] == raw.deep_view()[k],
            decreases raw@.len() - i,
        {
            let ghost lv = lines@;
            lines.push(chars_to_string(&raw[i]));
            proof {
                assert(forall|k: int| 0 <= k < lv.len() ==> lines@[k] == lv[k]);
            }
            i = i + 1;
        }
        proof {
            assert(lines.deep_view() =~= raw.deep_view());
        }
        Lexer { lines, line_idx: 0, mode, fixes: Vec::new() }
    }

    /// Check if at end of input.
    pub fn is_eof(&self) -> (r: bool)
        ensures
            r == (self@.line_idx >= self@.lines.len()),
    {
        self.line_idx >= self.lines.len()
    }

    /// Current line number (1-indexed for user display).
    pub fn current_line_number(&self) -> (r: usize)
        requires
            self.wf(),
            self@.line_idx < self@.lines.len() || self@.lines.len() < usize::MAX,
        ensures
            r == self@.line_idx + 1,
    {
        // the machine-level line count bounds the cursor, so the increment fits
        let n = self.lines.len();
        proof {
            assert(self.line_idx <= n);
        }
        self.line_idx + 1
    }

    /// Peek at the current line without consuming it.
    pub fn peek_line(&self) -> (r: Option<&String>)
        requires
            self.wf(),
        ensures
            r is Some <==> self@.line_idx < self@.lines.len(),
            r matches Some(l) ==> l@ == self@.lines[self@.line_idx],
    {
        if self.line_idx < self.lines.len() {
            Some(&self.lines[self.line_idx])
        } else {
            None
        }
    }

    /// Check if a line is a block header in strict mode: only exact
    /// uppercase names qualify.
    pub fn is_block_header_strict(line: &str) -> (r: Option<BlockKind>)
        ensures
            r == strict_header_kind(line@),
    {
        let t = trim_chars(&chars_of(line));
        let mut i: usize = 0;
        let mut all_upper = true;
        while i < t.len()
            invariant
                i <= t@.len(),
                all_upper ==> forall|k: int|
                    0 <= k < i ==> spec_is_upper(#[trigger] t@[k]) || t@[k] == '_',
                !all_upper ==> !all_upper_or_underscore(t@),
            decreases t@.len() - i,
        {
            let c = t[i];
            if !(is_upper(c) || c == '_') {
                proof {
                    assert(!(spec_is_upper(t@[i as int]) || t@[i as int] == '_'));
                }
                all_upper = false;
            }
            i = i + 1;
        }
        if all_upper {
            let ts = chars_to_string(&t);
            BlockKind::from_str(ts.as_str())
        } else {
            None
        }
    }

    /// Check if a line is a block header in tolerant mode, and whether it
    /// needed a case repair.
    pub fn is_block_header_tolerant(line: &str) -> (r: Option<(BlockKind, bool)>)
        ensures
            r is Some <==> tolerant_header_kind(line@) is Some,
            r matches Some((k, fixed)) ==> Some(k) == tolerant_header_kind(line@) && fixed
                == tolerant_fixed(line@),
    {
        let t = trim_chars(&chars_of(line));
        let ts = chars_to_string(&t);
        match BlockKind::from_str(ts.as_str()) {
            Some(kind) => {
                let strict = Lexer::is_block_header_strict(line);
                let was_fixed = strict.is_none();
                proof {
                    if strict_header_kind(line@) is Some {
                        assert(all_upper_or_underscore(spec_trim(line@)));
                    }
                }
                Some((kind, was_fixed))
            },
            None => None,
        }
    }

    /// Recognize a header under the current mode, recording a repair in
    /// tolerant mode when the casing differed.
    fn check_block_header(&mut self, line: &str, line_num: usize) -> (r: Option<BlockKind>)
        ensures
            r == header_kind(line@, old(self)@.mode),
            final(self)@.lines == old(self)@.lines,
            final(self)@.line_idx == old(self)@.line_idx,
            final(self)@.mode == old(self)@.mode,
            final(self)@.fixes == if old(self)@.mode is Tolerant && tolerant_fixed(line@) {
                old(self)@.fixes.push(
                    ParseFixV {
                        line: line_num,
                        description: spec_fix_desc(
                            line@,
                            tolerant_header_kind(line@).unwrap(),
                        ),
                    },
                )
            } else {
                old(self)@.fixes
            },
    {
        match self.mode {
            ParseMode::Strict => Lexer::is_block_header_strict(line),
            ParseMode::Tolerant => {
                match Lexer::is_block_header_tolerant(line) {
                    Some((kind, was_fixed)) => {
                        if was_fixed {
                            let t = trim_chars(&chars_of(line));
                            let mut desc = String::from_str("Normalized header '");
                            let ts = chars_to_string(&t);
                            desc.append(ts.as_str());
                            desc.append("' to '");
                            desc.append(kind.as_str());
                            desc.append("'");
                            let ghost fv = self.fixes.deep_view();
                            let ghost ov = self.fixes@;
                            let fix = ParseFix { line: line_num, description: desc };
                            let ghost fixv = fix@;
                            self.fixes.push(fix);
                            proof {
                                assert forall|k: int|
                                    0 <= k < self.fixes@.len() implies self.fixes@[k].deep_view()
                                    == fv.push(fixv)[k] by {
                                    if k < ov.len() {
                                        assert(self.fixes@[k] == ov[k]);
                                    }
                                }
                                assert(self.fixes.deep_view() =~= fv.push(fixv));
                            }
                        }
                        Some(kind)
                    },
                    None => None,
                }
            },
        }
    }

    /// Get the next token, advancing past one line; at end of input this
    /// returns the end-of-input token and changes nothing.
    pub fn next_token(&mut self) -> (r: ApexResult<Token>)
        requires
            old(self).wf(),
        ensures
            final(self).wf(),
            final(self)@.lines == old(self)@.lines,
            final(self)@.mode == old(self)@.mode,
            r is Ok,
            ({
                let lv = old(self)@;
                if lv.line_idx >= lv.lines.len() {
                    &&& r matches Ok(t) && t@ == TokenV::Eof
                    &&& final(self)@.line_idx == lv.line_idx
                    &&& final(self)@.fixes == lv.fixes
                } else {
                    let line = lv.lines[lv.line_idx];
                    &&& final(self)@.line_idx == lv.line_idx + 1
                    &&& r matches Ok(t) && t@ == spec_token_of(
                        line,
                        (lv.line_idx + 1) as usize,
                        lv.mode,
                    )
                    &&& final(self)@.fixes == if lv.mode is Tolerant && tolerant_fixed(line) {
                        lv.fixes.push(spec_fix_at(lv.lines, lv.line_idx + 1))
                    } else {
                        lv.fixes
                    }
                }
            }),
    {
        if self.is_eof() {
            return Ok(Token::Eof);
        }
        let line = self.lines[self.line_idx].clone();
        let line_num = self.current_line_number();
        self.line_idx = self.line_idx + 1;

        if let Some(kind) = self.check_block_header(line.as_str(), line_num) {
            return Ok(Token::BlockHeader(kind, Span::line(line_num)));
        }
        Ok(Token::Line(line, Span::line(line_num)))
    }

    /// Tokenize the rest of the input into one token per line, ending with
    /// the end-of-input token.
    pub fn tokenize_all(&mut self) -> (r: ApexResult<Vec<Token>>)
        requires
            old(self).wf(),
        ensures
            final(self).wf(),
            final(self)@.lines == old(self)@.lines,
            final(self)@.mode == old(self)@.mode,
            final(self)@.line_idx == final(self)@.lines.len(),
            r matches Ok(toks) && toks.deep_view() == spec_tokens_from(
                old(self)@.lines,
                old(self)@.line_idx,
                old(self)@.mode,
            ),
            final(self)@.fixes == old(self)@.fixes + spec_mode_fixes(
                old(self)@.lines,
                old(self)@.line_idx,
                old(self)@.mode,
            ),
    {
        let ghost lines = old(self)@.lines;
        let ghost start = old(self)@.line_idx;
        let ghost mode = old(self)@.mode;
        let ghost toks_spec = spec_tokens_from(lines, start, mode);
        let mut tokens: Vec<Token> = Vec::new();
        proof {
            if mode is Tolerant {
                assert(spec_fixes_range(lines, start, start) =~= Seq::<ParseFixV>::empty());
                assert(old(self)@.fixes + spec_fixes_range(lines, start, start) =~= old(
                    self,
                )@.fixes);
            } else {
                assert(old(self)@.fixes + Seq::<ParseFixV>::empty() =~= old(self)@.fixes);
            }
        }
        loop
            invariant_except_break
                self.wf(),
                self@.lines == lines,
                self@.mode == mode,
                start <= self@.line_idx <= lines.len(),
                toks_spec == spec_tokens_from(lines, start, mode),
                tokens.deep_view().len() == self@.line_idx - start,
                forall|k: int|
                    0 <= k < tokens.deep_view().len() ==> tokens.deep_view()[k] == spec_tokens_from(
                        lines,
                        start,
                        mode,
                    )[k],
                self@.fixes == old(self)@.fixes + (match mode {
                    ParseMode::Strict => Seq::<ParseFixV>::empty(),
                    ParseMode::Tolerant => spec_fixes_range(lines, start, self@.line_idx),
                }),
            ensures
                self.wf(),
                self@.lines == lines,
                self@.mode == mode,
                self@.line_idx == lines.len(),
                tokens.deep_view() == spec_tokens_from(lines, start, mode),
                self@.fixes == old(self)@.fixes + spec_mode_fixes(lines, start, mode),
            decreases lines.len() - self@.line_idx + 1,
        {
            let ghost idx = self@.line_idx;
            let token = self.next_token();
            let token = match token {
                Ok(t) => t,
                Err(e) => {
                    return Err(e);
                },
            };
            let is_eof = matches!(token, Token::Eof);
            let ghost tv = token@;
            let ghost dv = tokens.deep_view();
            let ghost ov = tokens@;
            tokens.push(token);
            proof {
                assert forall|k: int|
                    0 <= k < tokens@.len() implies tokens@[k].deep_view() == dv.push(tv)[k] by {
                    if k < ov.len() {
                        assert(tokens@[k] == ov[k]);
                    }
                }
                assert(tokens.deep_view() =~= dv.push(tv));
                if idx < lines.len() {
                    assert(tv == toks_spec[idx - start]);
                    if mode is Tolerant {
                        if tolerant_fixed(lines[idx]) {
                            assert(self@.fixes =~= old(self)@.fixes + spec_fixes_range(
                                lines,
                                start,
                                idx + 1,
                            ));
                        } else {
                            assert(spec_fixes_range(lines, start, idx + 1) =~= spec_fixes_range(
                                lines,
                                start,
                                idx,
                            ) + Seq::<ParseFixV>::empty());
                            assert(spec_fixes_range(lines, start, idx + 1) =~= spec_fixes_range(
                                lines,
                                start,
                                idx,
                            ));
                        }
                    }
                } else {
                    assert(tv == TokenV::Eof);
                    assert(tv == toks_spec[idx - start]);
                }
            }
            if is_eof {
                proof {
                    assert(idx == lines.len());
                    assert(tokens.deep_view() =~= toks_spec);
                    if mode is Tolerant {
                        assert(self@.fixes == old(self)@.fixes + spec_fixes_range(
                            lines,
                            start,
                            lines.len() as int,
                        ));
                    }
                }
                break;
            }
            proof {
                if idx >= lines.len() {
                    assert(tv == TokenV::Eof);
                    assert(false);
                }
            }
        }
        Ok(tokens)
    }

    /// Reset the lexer to the beginning, clearing recorded fixes.
    pub fn reset(&mut self)
        ensures
            final(self).wf(),
            final(self)@.lines == old(self)@.lines,
            final(self)@.mode == old(self)@.mode,
            final(self)@.line_idx == 0,
            final(self)@.fixes.len() == 0,
    {
        self.line_idx = 0;
        self.fixes = Vec::new();
    }

    /// Get the current parse mode.
    pub fn mode(&self) -> (r: ParseMode)
        ensures
            r == self@.mode,
    {
        self.mode
    }

    /// Consume the lexer, keeping the repairs it recorded.
    pub fn into_fixes(self) -> (r: Vec<ParseFix>)
        ensures
            r.deep_view() == self@.fixes,
    {
        self.fixes
    }
}

} // verus!
