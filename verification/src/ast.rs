//! Abstract syntax tree for APEX documents: source spans, the closed set of
//! block kinds, blocks, and the document container.

use vstd::prelude::*;
use crate::text::{
    chars_of, chars_to_string, content_lines_of, join_nl, lower_chars, eq_str, spec_content_lines,
    spec_join_nl, spec_lower, spec_trim, trim_chars,
};

verus! {

/// Source location span for diagnostics: inclusive 1-indexed line and column
/// ranges.
#[derive(Debug, Clone, Copy, PartialEq, Eq, Structural)]
pub struct Span {
    /// Start line (1-indexed)
    pub start_line: usize,
    /// End line (1-indexed, inclusive)
    pub end_line: usize,
    /// Start column (1-indexed)
    pub start_col: usize,
    /// End column (1-indexed)
    pub end_col: usize,
}

impl Span {
    /// A span covering the given line range, columns defaulting to 1.
    pub fn new(start_line: usize, end_line: usize) -> (r: Span)
        ensures
            r == (Span { start_line, end_line, start_col: 1, end_col: 1 }),
    {
        Span { start_line, end_line, start_col: 1, end_col: 1 }
    }

    /// A single-line span.
    pub fn line(line: usize) -> (r: Span)
        ensures
            r == (Span { start_line: line, end_line: line, start_col: 1, end_col: 1 }),
    {
        Span::new(line, line)
    }

    /// The minimal span covering both spans: earliest start, latest end, with
    /// each column taken from the span that wins the corresponding line tie.
    pub fn merge(&self, other: &Span) -> (r: Span)
        ensures
            r == self.spec_merge(*other),
    {
        Span {
            start_line: if self.start_line < other.start_line {
                self.start_line
            } else {
                other.start_line
            },
            end_line: if self.end_line > other.end_line {
                self.end_line
            } else {
                other.end_line
            },
            start_col: if self.start_line <= other.start_line {
                self.start_col
            } else {
                other.start_col
            },
            end_col: if self.end_line >= other.end_line {
                self.end_col
            } else {
                other.end_col
            },
        }
    }

    pub open spec fn spec_merge(self, other: Span) -> Span {
        Span {
            start_line: if self.start_line <= other.start_line {
                self.start_line
            } else {
                other.start_line
            },
            end_line: if self.end_line >= other.end_line {
                self.end_line
            } else {
                other.end_line
            },
            start_col: if self.start_line <= other.start_line {
                self.start_col
            } else {
                other.start_col
            },
            end_col: if self.end_line >= other.end_line {
                self.end_col
            } else {
                other.end_col
            },
        }
    }
}

impl Default for Span {
    /// The default span: line 1, column 1.
    fn default() -> (r: Span)
        ensures
            r == (Span { start_line: 1, end_line: 1, start_col: 1, end_col: 1 }),
    {
        Span::new(1, 1)
    }
}

/// Block type identifiers (uppercase keywords).
#[derive(Debug, Clone, Copy, PartialEq, Eq, Hash, Structural)]
pub enum BlockKind {
    /// TASK - Required. Single-line task description.
    Task,
    /// GOALS - Optional. Success criteria.
    Goals,
    /// PLAN - Optional. Ordered execution steps.
    Plan,
    /// CONSTRAINTS - Optional. Execution constraints.
    Constraints,
    /// VALIDATION - Optional. Post-execution checks.
    Validation,
    /// TOOLS - Optional. Tool declarations.
    Tools,
    /// DIFF - Optional. Expected file changes.
    Diff,
    /// CONTEXT - Optional. Pre-loaded context.
    Context,
    /// META - Optional. Metadata key-value pairs.
    Meta,
}

/// The block kind whose canonical name case-folds to `l`, if any.
pub open spec fn spec_kind_of(l: Seq<char>) -> Option<BlockKind> {
    if l == "task"@ {
        Some(BlockKind::Task)
    } else if l == "goals"@ {
        Some(BlockKind::Goals)
    } else if l == "plan"@ {
        Some(BlockKind::Plan)
    } else if l == "constraints"@ {
        Some(BlockKind::Constraints)
    } else if l == "validation"@ {
        Some(BlockKind::Validation)
    } else if l == "tools"@ {
        Some(BlockKind::Tools)
    } else if l == "diff"@ {
        Some(BlockKind::Diff)
    } else if l == "context"@ {
        Some(BlockKind::Context)
    } else if l == "meta"@ {
        Some(BlockKind::Meta)
    } else {
        None
    }
}

impl BlockKind {
    /// The canonical uppercase name of this kind.
    pub open spec fn spec_name(self) -> Seq<char> {
        match self {
            BlockKind::Task => "TASK"@,
            BlockKind::Goals => "GOALS"@,
            BlockKind::Plan => "PLAN"@,
            BlockKind::Constraints => "CONSTRAINTS"@,
            BlockKind::Validation => "VALIDATION"@,
            BlockKind::Tools => "TOOLS"@,
            BlockKind::Diff => "DIFF"@,
            BlockKind::Context => "CONTEXT"@,
            BlockKind::Meta => "META"@,
        }
    }

    /// Parse a block kind from a string, ignoring letter case.
    pub fn from_str(s: &str) -> (r: Option<BlockKind>)
        ensures
            r == spec_kind_of(spec_lower(s@)),
    {
        let l = lower_chars(&chars_of(s));
        if eq_str(&l, "task") {
            Some(BlockKind::Task)
        } else if eq_str(&l, "goals") {
            Some(BlockKind::Goals)
        } else if eq_str(&l, "plan") {
            Some(BlockKind::Plan)
        } else if eq_str(&l, "constraints") {
            Some(BlockKind::Constraints)
        } else if eq_str(&l, "validation") {
            Some(BlockKind::Validation)
        } else if eq_str(&l, "tools") {
            Some(BlockKind::Tools)
        } else if eq_str(&l, "diff") {
            Some(BlockKind::Diff)
        } else if eq_str(&l, "context") {
            Some(BlockKind::Context)
        } else if eq_str(&l, "meta") {
            Some(BlockKind::Meta)
        } else {
            None
        }
    }

    /// The canonical uppercase name.
    pub fn as_str(&self) -> (r: &'static str)
        ensures
            r@ == self.spec_name(),
    {
        match self {
            BlockKind::Task => "TASK",
            BlockKind::Goals => "GOALS",
            BlockKind::Plan => "PLAN",
            BlockKind::Constraints => "CONSTRAINTS",
            BlockKind::Validation => "VALIDATION",
            BlockKind::Tools => "TOOLS",
            BlockKind::Diff => "DIFF",
            BlockKind::Context => "CONTEXT",
            BlockKind::Meta => "META",
        }
    }

    /// Whether the block must be present in every document (only TASK).
    pub fn is_required(&self) -> (r: bool)
        ensures
            r == (*self is Task),
    {
        matches!(self, BlockKind::Task)
    }

    /// Whether an empty block of this kind is acceptable without warning.
    pub fn allows_empty(&self) -> (r: bool)
        ensures
            r == (*self is Context || *self is Meta),
    {
        matches!(self, BlockKind::Context | BlockKind::Meta)
    }
}

/// Mathematical model of a [`Block`].
pub struct BlockV {
    pub kind: BlockKind,
    pub lines: Seq<Seq<char>>,
    pub span: Span,
}

/// A single block in an APEX document.
#[derive(Debug, Clone)]
pub struct Block {
    /// Block type
    pub kind: BlockKind,
    /// Raw content lines (without the header)
    pub lines: Vec<String>,
    /// Source location
    pub span: Span,
}

impl View for Block {
    type V = BlockV;

    open spec fn view(&self) -> BlockV {
        BlockV { kind: self.kind, lines: self.lines.deep_view(), span: self.span }
    }
}

/// Whether every line of the block is blank after trimming.
pub open spec fn spec_block_is_empty(b: BlockV) -> bool {
    forall|i: int| 0 <= i < b.lines.len() ==> spec_trim(#[trigger] b.lines[i]).len() == 0
}

impl Block {
    /// Create a new block.
    pub fn new(kind: BlockKind, lines: Vec<String>, span: Span) -> (r: Block)
        ensures
            r@ == (BlockV { kind, lines: lines.deep_view(), span }),
    {
        Block { kind, lines, span }
    }

    /// Whether the block has no content line with visible characters.
    pub fn is_empty(&self) -> (r: bool)
        ensures
            r == spec_block_is_empty(self@),
    {
        let mut i: usize = 0;
        while i < self.lines.len()
            invariant
                i <= self.lines@.len(),
                self.lines.deep_view().len() == self.lines@.len(),
                forall|k: int|
                    0 <= k < self.lines@.len() ==> self.lines.deep_view()[k]
                        == #[trigger] self.lines@[k]@,
                forall|k: int|
                    0 <= k < i ==> spec_trim(#[trigger] self.lines.deep_view()[k]).len() == 0,
            decreases self.lines@.len() - i,
        {
            let t = trim_chars(&chars_of(&self.lines[i]));
            if t.len() > 0 {
                proof {
                    assert(!spec_block_is_empty(self@)) by {
                        assert(spec_trim(self@.lines[i as int]).len() > 0);
                    }
                }
                return false;
            }
            i = i + 1;
        }
        true
    }

    /// The trimmed, non-blank content lines, in order.
    pub fn content_lines(&self) -> (r: Vec<String>)
        ensures
            r.deep_view() == spec_content_lines(self@.lines),
    {
        let cs = content_lines_of(&self.lines);
        let mut r: Vec<String> = Vec::new();
        let mut i: usize = 0;
        while i < cs.len()
            invariant
                i <= cs@.len(),
                cs.deep_view().len() == cs@.len(),
                forall|k: int| 0 <= k < cs@.len() ==> cs.deep_view()[k] == #[trigger] cs@[k]@,
                r.deep_view().len() == i,
                forall|k: int| 0 <= k < i ==> r.deep_view()[k] == cs.deep_view()[k],
            decreases cs@.len() - i,
        {
            let ghost rv = r@;
            r.push(chars_to_string(&cs[i]));
            proof {
                assert(forall|k: int| 0 <= k < rv.len() ==> r@[k] == rv[k]);
            }
            i = i + 1;
        }
        proof {
            assert(r.deep_view() =~= cs.deep_view());
        }
        r
    }

    /// The content lines joined by single newlines.
    pub fn content(&self) -> (r: String)
        ensures
            r@ == spec_join_nl(spec_content_lines(self@.lines)),
    {
        let cs = content_lines_of(&self.lines);
        let joined = join_nl(&cs);
        chars_to_string(&joined)
    }
}

/// Mathematical model of an [`ApexDocument`].
pub struct DocV {
    pub blocks: Seq<BlockV>,
    pub version: Option<Seq<char>>,
}

/// Complete APEX document (parsed AST).
#[derive(Debug, Clone)]
pub struct ApexDocument {
    /// All blocks in document order
    pub blocks: Vec<Block>,
    /// APEX version if specified in META
    pub version: Option<String>,
}

impl View for ApexDocument {
    type V = DocV;

    open spec fn view(&self) -> DocV {
        DocV {
            blocks: self.blocks.deep_view(),
            version: match self.version {
                Some(ref v) => Some(v@),
                None => None,
            },
        }
    }
}

impl DeepView for Block {
    type V = BlockV;

    open spec fn deep_view(&self) -> BlockV {
        self@
    }
}

/// The predicate selecting blocks of one kind.
pub open spec fn kind_pred(kind: BlockKind) -> spec_fn(BlockV) -> bool {
    |b: BlockV| b.kind == kind
}

/// The blocks of the given kind, in document order.
pub open spec fn blocks_of_kind(blocks: Seq<BlockV>, kind: BlockKind) -> Seq<BlockV> {
    blocks.filter(kind_pred(kind))
}

/// The index of the first block of the given kind, or `blocks.len()` if none.
pub open spec fn first_kind_idx(blocks: Seq<BlockV>, kind: BlockKind) -> int
    decreases blocks.len(),
{
    if blocks.len() == 0 {
        0
    } else if blocks[0].kind == kind {
        0
    } else {
        1 + first_kind_idx(blocks.drop_first(), kind)
    }
}

pub proof fn lemma_first_kind_idx(blocks: Seq<BlockV>, kind: BlockKind)
    ensures
        0 <= first_kind_idx(blocks, kind) <= blocks.len(),
        first_kind_idx(blocks, kind) < blocks.len() ==> blocks[first_kind_idx(
            blocks,
            kind,
        )].kind == kind,
        forall|j: int| 0 <= j < first_kind_idx(blocks, kind) ==> blocks[j].kind != kind,
    decreases blocks.len(),
{
    if blocks.len() > 0 && blocks[0].kind != kind {
        let t = blocks.drop_first();
        lemma_first_kind_idx(t, kind);
        assert forall|j: int| 0 <= j < first_kind_idx(blocks, kind) implies blocks[j].kind
            != kind by {
            if j > 0 {
                assert(blocks[j] == t[j - 1]);
            }
        }
    }
}

impl ApexDocument {
    /// Create an empty document.
    pub fn new() -> (r: ApexDocument)
        ensures
            r@.blocks.len() == 0,
            r@.version is None,
    {
        ApexDocument { blocks: Vec::new(), version: None }
    }

    /// Create a document from its blocks, with no version.
    pub fn with_blocks(blocks: Vec<Block>) -> (r: ApexDocument)
        ensures
            r@.blocks == blocks.deep_view(),
            r@.version is None,
    {
        ApexDocument { blocks, version: None }
    }

    /// Get the first block of the given kind, if any.
    pub fn get_block(&self, kind: BlockKind) -> (r: Option<&Block>)
        ensures
            r is Some <==> first_kind_idx(self@.blocks, kind) < self@.blocks.len(),
            r matches Some(b) ==> b@ == self@.blocks[first_kind_idx(self@.blocks, kind)]
                && b@.kind == kind,
    {
        proof {
            lemma_first_kind_idx(self@.blocks, kind);
        }
        let n = self.blocks.len();
        let mut i: usize = 0;
        while i < n
            invariant
                i <= n,
                n == self.blocks@.len(),
                self@.blocks.len() == n,
                forall|k: int| 0 <= k < n ==> self@.blocks[k] == #[trigger] self.blocks@[k]@,
                forall|k: int| 0 <= k < i ==> #[trigger] self@.blocks[k].kind != kind,
            decreases n - i,
        {
            if kind_eq(self.blocks[i].kind, kind) {
                proof {
                    lemma_first_kind_idx_unique(self@.blocks, kind, i as int);
                }
                return Some(&self.blocks[i]);
            }
            i = i + 1;
        }
        proof {
            lemma_first_kind_idx_unique(self@.blocks, kind, n as int);
        }
        None
    }

    /// Get every block of the given kind, in order.
    pub fn get_blocks(&self, kind: BlockKind) -> (r: Vec<&Block>)
        ensures
            r.deep_view() == blocks_of_kind(self@.blocks, kind),
    {
        let n = self.blocks.len();
        let mut r: Vec<&Block> = Vec::new();
        let mut i: usize = 0;
        proof {
            reveal(Seq::filter);
            assert(self@.blocks.take(0) =~= Seq::<BlockV>::empty());
            assert(r.deep_view() =~= blocks_of_kind(self@.blocks.take(0), kind));
        }
        while i < n
            invariant
                i <= n,
                n == self.blocks@.len(),
                self@.blocks.len() == n,
                forall|k: int| 0 <= k < n ==> self@.blocks[k] == #[trigger] self.blocks@[k]@,
                r.deep_view() == blocks_of_kind(self@.blocks.take(i as int), kind),
            decreases n - i,
        {
            let ghost dr = r.deep_view();
            let ghost rv = r@;
            if kind_eq(self.blocks[i].kind, kind) {
                r.push(&self.blocks[i]);
                proof {
                    assert forall|k: int| 0 <= k < r@.len() implies r@[k].deep_view() == dr.push(
                        self@.blocks[i as int],
                    )[k] by {
                        if k < rv.len() {
                            assert(r@[k] == rv[k]);
                        }
                    }
                    assert(r.deep_view() =~= dr.push(self@.blocks[i as int]));
                }
            }
            i = i + 1;
            proof {
                reveal(Seq::filter);
                let cur = self@.blocks.take(i as int);
                assert(cur.drop_last() =~= self@.blocks.take(i - 1));
                assert(cur.last() == self@.blocks[i - 1]);
            }
        }
        proof {
            assert(self@.blocks.take(n as int) =~= self@.blocks);
        }
        r
    }

    /// Count blocks of the given kind.
    pub fn count_blocks(&self, kind: BlockKind) -> (r: usize)
        ensures
            r == blocks_of_kind(self@.blocks, kind).len(),
    {
        let bs = self.get_blocks(kind);
        bs.len()
    }

    /// First TASK block, if any.
    pub fn task(&self) -> (r: Option<&Block>)
        ensures
            r is Some <==> first_kind_idx(self@.blocks, BlockKind::Task) < self@.blocks.len(),
            r matches Some(b) ==> b@ == self@.blocks[first_kind_idx(
                self@.blocks,
                BlockKind::Task,
            )] && b@.kind == BlockKind::Task,
    {
        self.get_block(BlockKind::Task)
    }

    /// First GOALS block, if any.
    pub fn goals(&self) -> (r: Option<&Block>)
        ensures
            r is Some <==> first_kind_idx(self@.blocks, BlockKind::Goals) < self@.blocks.len(),
            r matches Some(b) ==> b@ == self@.blocks[first_kind_idx(
                self@.blocks,
                BlockKind::Goals,
            )] && b@.kind == BlockKind::Goals,
    {
        self.get_block(BlockKind::Goals)
    }

    /// First PLAN block, if any.
    pub fn plan(&self) -> (r: Option<&Block>)
        ensures
            r is Some <==> first_kind_idx(self@.blocks, BlockKind::Plan) < self@.blocks.len(),
            r matches Some(b) ==> b@ == self@.blocks[first_kind_idx(
                self@.blocks,
                BlockKind::Plan,
            )] && b@.kind == BlockKind::Plan,
    {
        self.get_block(BlockKind::Plan)
    }

    /// First CONSTRAINTS block, if any.
    pub fn constraints(&self) -> (r: Option<&Block>)
        ensures
            r is Some <==> first_kind_idx(self@.blocks, BlockKind::Constraints)
                < self@.blocks.len(),
            r matches Some(b) ==> b@ == self@.blocks[first_kind_idx(
                self@.blocks,
                BlockKind::Constraints,
            )] && b@.kind == BlockKind::Constraints,
    {
        self.get_block(BlockKind::Constraints)
    }

    /// First VALIDATION block, if any.
    pub fn validation(&self) -> (r: Option<&Block>)
        ensures
            r is Some <==> first_kind_idx(self@.blocks, BlockKind::Validation)
                < self@.blocks.len(),
            r matches Some(b) ==> b@ == self@.blocks[first_kind_idx(
                self@.blocks,
                BlockKind::Validation,
            )] && b@.kind == BlockKind::Validation,
    {
        self.get_block(BlockKind::Validation)
    }

    /// First TOOLS block, if any.
    pub fn tools(&self) -> (r: Option<&Block>)
        ensures
            r is Some <==> first_kind_idx(self@.blocks, BlockKind::Tools) < self@.blocks.len(),
            r matches Some(b) ==> b@ == self@.blocks[first_kind_idx(
                self@.blocks,
                BlockKind::Tools,
            )] && b@.kind == BlockKind::Tools,
    {
        self.get_block(BlockKind::Tools)
    }

    /// First DIFF block, if any.
    pub fn diff(&self) -> (r: Option<&Block>)
        ensures
            r is Some <==> first_kind_idx(self@.blocks, BlockKind::Diff) < self@.blocks.len(),
            r matches Some(b) ==> b@ == self@.blocks[first_kind_idx(
                self@.blocks,
                BlockKind::Diff,
            )] && b@.kind == BlockKind::Diff,
    {
        self.get_block(BlockKind::Diff)
    }

    /// First CONTEXT block, if any.
    pub fn context(&self) -> (r: Option<&Block>)
        ensures
            r is Some <==> first_kind_idx(self@.blocks, BlockKind::Context) < self@.blocks.len(),
            r matches Some(b) ==> b@ == self@.blocks[first_kind_idx(
                self@.blocks,
                BlockKind::Context,
            )] && b@.kind == BlockKind::Context,
    {
        self.get_block(BlockKind::Context)
    }

    /// First META block, if any.
    pub fn meta(&self) -> (r: Option<&Block>)
        ensures
            r is Some <==> first_kind_idx(self@.blocks, BlockKind::Meta) < self@.blocks.len(),
            r matches Some(b) ==> b@ == self@.blocks[first_kind_idx(
                self@.blocks,
                BlockKind::Meta,
            )] && b@.kind == BlockKind::Meta,
    {
        self.get_block(BlockKind::Meta)
    }
}

impl Default for ApexDocument {
    /// An empty document.
    fn default() -> (r: ApexDocument)
        ensures
            r@.blocks.len() == 0,
            r@.version is None,
    {
        ApexDocument::new()
    }
}

/// Compare two block kinds.
pub fn kind_eq(a: BlockKind, b: BlockKind) -> (r: bool)
    ensures
        r == (a == b),
{
    a == b
}

proof fn lemma_no_kind_filter_empty(blocks: Seq<BlockV>, kind: BlockKind)
    requires
        forall|j: int| 0 <= j < blocks.len() ==> (#[trigger] blocks[j]).kind != kind,
    ensures
        blocks_of_kind(blocks, kind).len() == 0,
    decreases blocks.len(),
{
    reveal(Seq::filter);
    if blocks.len() > 0 {
        let pre = blocks.drop_last();
        assert(forall|j: int| 0 <= j < pre.len() ==> (#[trigger] pre[j]).kind != kind);
        lemma_no_kind_filter_empty(pre, kind);
        assert(!(kind_pred(kind)(blocks.last())));
    }
}

/// The first block of a kind in document order heads the kind-filtered list.
pub proof fn lemma_first_of_kind(blocks: Seq<BlockV>, kind: BlockKind)
    requires
        blocks_of_kind(blocks, kind).len() > 0,
    ensures
        first_kind_idx(blocks, kind) < blocks.len(),
        blocks[first_kind_idx(blocks, kind)] == blocks_of_kind(blocks, kind)[0],
{
    lemma_first_kind_idx(blocks, kind);
    let idx = first_kind_idx(blocks, kind);
    let pred = kind_pred(kind);
    let head = blocks.take(idx);
    assert(forall|j: int| 0 <= j < head.len() ==> (#[trigger] head[j]).kind != kind);
    lemma_no_kind_filter_empty(head, kind);
    assert(blocks =~= head + blocks.skip(idx));
    Seq::filter_distributes_over_add(head, blocks.skip(idx), pred);
    assert(blocks_of_kind(blocks, kind) =~= blocks.skip(idx).filter(pred));
    if idx == blocks.len() {
        assert(blocks.skip(idx) =~= Seq::<BlockV>::empty());
        reveal(Seq::filter);
        assert(false);
    } else {
        let single = seq![blocks[idx]];
        assert(blocks.skip(idx) =~= single + blocks.skip(idx + 1));
        Seq::filter_distributes_over_add(single, blocks.skip(idx + 1), pred);
        reveal(Seq::filter);
        assert(single.drop_last() =~= Seq::<BlockV>::empty());
        assert(pred(single.last()));
        assert(single.filter(pred) =~= single);
        assert(blocks_of_kind(blocks, kind)[0] == blocks[idx]);
    }
}

proof fn lemma_first_kind_idx_unique(blocks: Seq<BlockV>, kind: BlockKind, k: int)
    requires
        0 <= k <= blocks.len(),
        k < blocks.len() ==> blocks[k].kind == kind,
        forall|j: int| 0 <= j < k ==> blocks[j].kind != kind,
    ensures
        k < blocks.len() ==> first_kind_idx(blocks, kind) == k,
        k == blocks.len() ==> first_kind_idx(blocks, kind) >= blocks.len(),
    decreases k,
{
    if blocks.len() == 0 {
    } else if k == 0 {
    } else {
        let t = blocks.drop_first();
        assert(forall|j: int| 0 <= j < k - 1 ==> t[j].kind != kind);
        lemma_first_kind_idx_unique(t, kind, k - 1);
    }
}

} // verus!
