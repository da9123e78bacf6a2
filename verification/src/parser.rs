//! Parser: groups the token stream into an ordered list of blocks, delimited
//! by header tokens; content before the first header is discarded.

use vstd::prelude::*;
use crate::ast::{ApexDocument, Block, BlockV, Span};
use crate::errors::ApexResult;
use crate::lexer::{
    Lexer, ParseFix, ParseFixV, ParseMode, Token, TokenV, spec_mode_fixes, spec_tokens,
    spec_tokens_from,
};
use crate::text::{push_deep, spec_lines};

verus! {

/// A block extended by one content line: the line is appended and the span
/// stretches down to that line.
pub open spec fn push_content(b: BlockV, line: Seq<char>, sp: Span) -> BlockV {
    BlockV {
        kind: b.kind,
        lines: b.lines.push(line),
        span: Span {
            start_line: b.span.start_line,
            end_line: sp.end_line,
            start_col: 1,
            end_col: 1,
        },
    }
}

/// The block opened by a header token: no content yet, span on the header
/// line alone.
pub open spec fn opened_block(kind: crate::ast::BlockKind, sp: Span) -> BlockV {
    BlockV {
        kind,
        lines: Seq::empty(),
        span: Span {
            start_line: sp.start_line,
            end_line: sp.start_line,
            start_col: 1,
            end_col: 1,
        },
    }
}

/// The emitted form of an open block, if one is open.
pub open spec fn flushed(cur: Option<BlockV>) -> Seq<BlockV> {
    match cur {
        Some(b) => seq![b],
        None => Seq::empty(),
    }
}

/// The blocks produced by one pass over the token stream: a header opens a
/// block, content lines extend the open block (and are dropped when no block
/// is open yet), and the end of input flushes the open block.
pub open spec fn spec_parse_toks(toks: Seq<TokenV>, cur: Option<BlockV>) -> Seq<BlockV>
    decreases toks.len(),
{
    if toks.len() == 0 {
        flushed(cur)
    } else {
        match toks[0] {
            TokenV::Eof => flushed(cur),
            TokenV::Header(k, sp) => flushed(cur) + spec_parse_toks(
                toks.drop_first(),
                Some(opened_block(k, sp)),
            ),
            TokenV::Line(s, sp) => match cur {
                Some(b) => spec_parse_toks(toks.drop_first(), Some(push_content(b, s, sp))),
                None => spec_parse_toks(toks.drop_first(), None),
            },
        }
    }
}

/// The blocks that a whole input parses to under the given mode.
pub open spec fn spec_parse(lines: Seq<Seq<char>>, mode: ParseMode) -> Seq<BlockV> {
    spec_parse_toks(spec_tokens(lines, mode), None)
}

/// The model of the open block held by the parser loop.
pub open spec fn cur_view(cur: &Option<Block>) -> Option<BlockV> {
    match cur {
        Some(b) => Some(b@),
        None => None,
    }
}

/// Parse a token stream into a document; the version field stays unset.
pub fn parse_tokens(tokens: &Vec<Token>) -> (r: ApexResult<ApexDocument>)
    ensures
        r matches Ok(doc) && doc@.blocks == spec_parse_toks(tokens.deep_view(), None)
            && doc@.version is None,
{
    let ghost full = tokens.deep_view();
    let n = tokens.len();
    let mut blocks: Vec<Block> = Vec::new();
    let mut cur: Option<Block> = None;
    let mut i: usize = 0;
    proof {
        assert(full.skip(0) =~= full);
        assert(blocks.deep_view() + spec_parse_toks(full, None) =~= spec_parse_toks(full, None));
    }
    loop
        invariant_except_break
            i <= n,
            n == tokens@.len(),
            full == tokens.deep_view(),
            full.len() == n,
            forall|k: int| 0 <= k < n ==> full[k] == #[trigger] tokens@[k]@,
            spec_parse_toks(full, None) == blocks.deep_view() + spec_parse_toks(
                full.skip(i as int),
                cur_view(&cur),
            ),
        ensures
            blocks.deep_view() == spec_parse_toks(full, None),
        decreases n - i + 1,
    {
        let ghost pre = blocks.deep_view();
        let ghost cv = cur_view(&cur);
        let ghost suf = full.skip(i as int);
        if i == n {
            proof {
                assert(suf =~= Seq::<TokenV>::empty());
            }
            match cur {
                Some(b) => {
                    push_deep(&mut blocks, b);
                    proof {
                        assert(blocks.deep_view() =~= pre + flushed(cv));
                    }
                },
                None => {
                    proof {
                        assert(blocks.deep_view() =~= pre + flushed(cv));
                    }
                },
            }
            break;
        }
        proof {
            assert(suf[0] == full[i as int]);
            assert(suf.drop_first() =~= full.skip(i + 1));
        }
        match &tokens[i] {
            Token::Eof => {
                match cur {
                    Some(b) => {
                        push_deep(&mut blocks, b);
                        proof {
                            assert(blocks.deep_view() =~= pre + flushed(cv));
                        }
                    },
                    None => {
                        proof {
                            assert(blocks.deep_view() =~= pre + flushed(cv));
                        }
                    },
                }
                break;
            },
            Token::BlockHeader(kind, header_span) => {
                let opened = Block::new(
                    *kind,
                    Vec::new(),
                    Span::new(header_span.start_line, header_span.start_line),
                );
                proof {
                    assert(opened@.lines =~= Seq::<Seq<char>>::empty());
                    assert(opened@ == opened_block(*kind, *header_span));
                }
                match cur {
                    Some(b) => {
                        push_deep(&mut blocks, b);
                        proof {
                            assert(blocks.deep_view() =~= pre + flushed(cv));
                            assert((pre + flushed(cv)) + spec_parse_toks(
                                full.skip(i + 1),
                                Some(opened@),
                            ) =~= pre + (flushed(cv) + spec_parse_toks(
                                full.skip(i + 1),
                                Some(opened@),
                            )));
                        }
                    },
                    None => {
                        proof {
                            assert(flushed(cv) + spec_parse_toks(full.skip(i + 1), Some(opened@))
                                =~= spec_parse_toks(full.skip(i + 1), Some(opened@)));
                        }
                    },
                }
                cur = Some(opened);
                i = i + 1;
            },
            Token::Line(content, span) => {
                match cur {
                    Some(mut b) => {
                        let ghost bv = b@;
                        let line = content.clone();
                        push_deep(&mut b.lines, line);
                        b.span = Span::new(b.span.start_line, span.end_line);
                        proof {
                            assert(b@ == push_content(bv, content@, *span));
                        }
                        cur = Some(b);
                    },
                    None => {
                        cur = None;
                    },
                }
                i = i + 1;
            },
        }
    }
    Ok(ApexDocument::with_blocks(blocks))
}

/// Parse an APEX string into a document AST, in strict mode.
pub fn parse_str(input: &str) -> (r: ApexResult<ApexDocument>)
    ensures
        r matches Ok(doc) && doc@.blocks == spec_parse(spec_lines(input@), ParseMode::Strict)
            && doc@.version is None,
{
    let mut lexer = Lexer::new(input);
    let tokens = match lexer.tokenize_all() {
        Ok(t) => t,
        Err(e) => {
            return Err(e);
        },
    };
    parse_tokens(&tokens)
}

/// A parsed document together with the repairs applied in tolerant mode.
#[derive(Debug, Clone)]
pub struct ParseResult {
    pub document: ApexDocument,
    pub fixes: Vec<ParseFix>,
}

/// Parse an APEX string with the given mode, returning any repairs recorded.
pub fn parse_str_with_mode(input: &str, mode: ParseMode) -> (r: ApexResult<ParseResult>)
    ensures
        r matches Ok(pr) && pr.document@.blocks == spec_parse(spec_lines(input@), mode)
            && pr.document@.version is None && pr.fixes.deep_view() == spec_mode_fixes(
            spec_lines(input@),
            0,
            mode,
        ),
{
    let mut lexer = Lexer::with_mode(input, mode);
    let tokens = match lexer.tokenize_all() {
        Ok(t) => t,
        Err(e) => {
            return Err(e);
        },
    };
    let document = match parse_tokens(&tokens) {
        Ok(d) => d,
        Err(e) => {
            return Err(e);
        },
    };
    proof {
        assert(Seq::<ParseFixV>::empty() + spec_mode_fixes(spec_lines(input@), 0, mode)
            =~= spec_mode_fixes(spec_lines(input@), 0, mode));
    }
    Ok(ParseResult { document, fixes: lexer.into_fixes() })
}

/// Parser configuration.
#[derive(Debug, Clone)]
pub struct ParserConfig {
    /// Allow unknown block types (skip them)
    pub allow_unknown_blocks: bool,
    /// Allow content before first block
    pub allow_leading_content: bool,
    /// Strict mode - fail on any irregularity
    pub strict: bool,
}

impl Default for ParserConfig {
    /// The default configuration: tolerate leading content, reject unknown
    /// blocks, and stay non-strict.
    fn default() -> (r: ParserConfig)
        ensures
            r.allow_unknown_blocks == false,
            r.allow_leading_content == true,
            r.strict == false,
    {
        ParserConfig { allow_unknown_blocks: false, allow_leading_content: true, strict: false }
    }
}

impl ParserConfig {
    /// Strict parsing mode.
    pub fn strict() -> (r: ParserConfig)
        ensures
            r.allow_unknown_blocks == false,
            r.allow_leading_content == false,
            r.strict == true,
    {
        ParserConfig { allow_unknown_blocks: false, allow_leading_content: false, strict: true }
    }

    /// Tolerant parsing mode.
    pub fn tolerant() -> (r: ParserConfig)
        ensures
            r.allow_unknown_blocks == true,
            r.allow_leading_content == true,
            r.strict == false,
    {
        ParserConfig { allow_unknown_blocks: true, allow_leading_content: true, strict: false }
    }
}

/// One consumed token peels off the head of the remaining token stream.
proof fn lemma_tokens_from_step(lines: Seq<Seq<char>>, i: int, mode: ParseMode)
    requires
        0 <= i < lines.len(),
    ensures
        spec_tokens_from(lines, i, mode).drop_first() =~= spec_tokens_from(lines, i + 1, mode),
        spec_tokens_from(lines, i, mode)[0] == crate::lexer::spec_token_of(
            lines[i],
            (i + 1) as usize,
            mode,
        ),
{
}

/// Whether a block's span covers exactly its header line followed by its
/// content lines.
pub open spec fn block_span_covers(b: BlockV) -> bool {
    b.span.end_line == b.span.start_line + b.lines.len()
}

proof fn lemma_parse_spans_rec(lines: Seq<Seq<char>>, i: int, mode: ParseMode, cur: Option<BlockV>)
    requires
        0 <= i <= lines.len(),
        lines.len() < usize::MAX,
        cur matches Some(b) ==> block_span_covers(b) && b.span.end_line == i,
    ensures
        forall|k: int|
            0 <= k < spec_parse_toks(spec_tokens_from(lines, i, mode), cur).len()
                ==> block_span_covers(
                #[trigger] spec_parse_toks(spec_tokens_from(lines, i, mode), cur)[k],
            ),
    decreases lines.len() - i,
{
    let toks = spec_tokens_from(lines, i, mode);
    if i == lines.len() {
        assert(toks[0] == TokenV::Eof);
        assert(spec_parse_toks(toks, cur) == flushed(cur));
    } else {
        lemma_tokens_from_step(lines, i, mode);
        let rest = spec_tokens_from(lines, i + 1, mode);
        match crate::lexer::header_kind(lines[i], mode) {
            Some(k) => {
                let sp = Span {
                    start_line: (i + 1) as usize,
                    end_line: (i + 1) as usize,
                    start_col: 1,
                    end_col: 1,
                };
                let opened = opened_block(k, sp);
                assert(block_span_covers(opened) && opened.span.end_line == i + 1);
                lemma_parse_spans_rec(lines, i + 1, mode, Some(opened));
                assert(spec_parse_toks(toks, cur) == flushed(cur) + spec_parse_toks(
                    rest,
                    Some(opened),
                ));
                assert forall|j: int|
                    0 <= j < spec_parse_toks(toks, cur).len() implies block_span_covers(
                    #[trigger] spec_parse_toks(toks, cur)[j],
                ) by {
                    if j >= flushed(cur).len() {
                        assert(spec_parse_toks(toks, cur)[j] == spec_parse_toks(
                            rest,
                            Some(opened),
                        )[j - flushed(cur).len()]);
                    }
                }
            },
            None => {
                match cur {
                    Some(b) => {
                        let sp = Span {
                            start_line: (i + 1) as usize,
                            end_line: (i + 1) as usize,
                            start_col: 1,
                            end_col: 1,
                        };
                        let nb = push_content(b, lines[i], sp);
                        assert(block_span_covers(nb) && nb.span.end_line == i + 1);
                        lemma_parse_spans_rec(lines, i + 1, mode, Some(nb));
                        assert(spec_parse_toks(toks, cur) == spec_parse_toks(rest, Some(nb)));
                    },
                    None => {
                        lemma_parse_spans_rec(lines, i + 1, mode, None);
                        assert(spec_parse_toks(toks, cur) == spec_parse_toks(rest, None));
                    },
                }
            },
        }
    }
}

/// Every parsed block's span covers its header line plus its content lines:
/// the end line is the start line plus the number of content lines.
pub proof fn lemma_block_spans_cover(lines: Seq<Seq<char>>, mode: ParseMode)
    requires
        lines.len() < usize::MAX,
    ensures
        forall|k: int|
            0 <= k < spec_parse(lines, mode).len() ==> block_span_covers(
                #[trigger] spec_parse(lines, mode)[k],
            ),
{
    lemma_parse_spans_rec(lines, 0, mode, None);
}

} // verus!
