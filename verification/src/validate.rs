//! Validator: enforces structural rules on a parsed document, builds one
//! typed view per block kind present, canonicalizes constraints, checks tool
//! names against a registry, and enforces the version policy per mode.

use vstd::prelude::*;
use crate::ast::{ApexDocument, Block, BlockKind, BlockV, DocV, blocks_of_kind, first_kind_idx,
    lemma_first_kind_idx, lemma_first_of_kind, spec_block_is_empty};
use crate::errors::{ApexError, ApexErrorKind, ApexResult, ErrV};
use crate::sem::{canonicalize, spec_canon};
use crate::text::{
    chars_of, chars_to_string, contains_at, find_char_from, lemma_find, push_deep, spec_contains,
    spec_content_lines, spec_find, spec_join_nl, spec_lower, spec_parse_u32, spec_trim,
    lower_chars, eq_str, parse_u32_chars, trim_chars,
};
use crate::tool_registry::{ToolRegistry, RegV, extract_tool_name, spec_extract_tool_name,
    spec_is_valid};

verus! {

/// Validation mode for documents.
#[derive(Debug, Clone, Copy, PartialEq, Eq, Structural)]
pub enum ValidationMode {
    /// Strict: requires a compatible version, rejects unknown tools
    Strict,
    /// Lenient: allows missing version, unknown tools produce warnings
    Lenient,
    /// Legacy: no version checking, no tool-registry enforcement
    Legacy,
}

impl Default for ValidationMode {
    /// Strict mode is the default.
    fn default() -> (r: ValidationMode)
        ensures
            r == ValidationMode::Strict,
    {
        ValidationMode::Strict
    }
}

// --- Validated view types ---

/// Validated TASK view.
#[derive(Debug, Clone)]
pub struct TaskView {
    /// Single task description line
    pub line: String,
}

impl View for TaskView {
    type V = Seq<char>;

    open spec fn view(&self) -> Seq<char> {
        self.line@
    }
}

/// Validated GOALS view.
#[derive(Debug, Clone)]
pub struct GoalsView {
    /// Individual goal items
    pub goals: Vec<String>,
}

impl View for GoalsView {
    type V = Seq<Seq<char>>;

    open spec fn view(&self) -> Seq<Seq<char>> {
        self.goals.deep_view()
    }
}

/// Validated PLAN view.
#[derive(Debug, Clone)]
pub struct PlanView {
    /// Ordered execution steps
    pub steps: Vec<String>,
}

impl View for PlanView {
    type V = Seq<Seq<char>>;

    open spec fn view(&self) -> Seq<Seq<char>> {
        self.steps.deep_view()
    }
}

/// Validated CONSTRAINTS view.
#[derive(Debug, Clone)]
pub struct ConstraintsView {
    /// Constraint rules, canonicalized
    pub rules: Vec<String>,
}

impl View for ConstraintsView {
    type V = Seq<Seq<char>>;

    open spec fn view(&self) -> Seq<Seq<char>> {
        self.rules.deep_view()
    }
}

/// Validated VALIDATION view.
#[derive(Debug, Clone)]
pub struct ValidationView {
    /// Validation conditions
    pub conditions: Vec<String>,
}

impl View for ValidationView {
    type V = Seq<Seq<char>>;

    open spec fn view(&self) -> Seq<Seq<char>> {
        self.conditions.deep_view()
    }
}

/// Mathematical model of a [`ToolDeclaration`].
pub struct ToolDeclV {
    pub name: Seq<char>,
    pub arguments: Option<Seq<char>>,
    pub raw: Seq<char>,
}

/// Tool declaration parsed from a TOOLS block line.
#[derive(Debug, Clone)]
pub struct ToolDeclaration {
    /// Tool name
    pub name: String,
    /// Raw argument string (unparsed)
    pub arguments: Option<String>,
    /// Original line
    pub raw: String,
}

impl View for ToolDeclaration {
    type V = ToolDeclV;

    open spec fn view(&self) -> ToolDeclV {
        ToolDeclV {
            name: self.name@,
            arguments: match self.arguments {
                Some(ref a) => Some(a@),
                None => None,
            },
            raw: self.raw@,
        }
    }
}

impl DeepView for ToolDeclaration {
    type V = ToolDeclV;

    open spec fn deep_view(&self) -> ToolDeclV {
        self@
    }
}

/// Validated TOOLS view.
#[derive(Debug, Clone)]
pub struct ToolsView {
    /// Tool declarations
    pub tools: Vec<ToolDeclaration>,
}

impl View for ToolsView {
    type V = Seq<ToolDeclV>;

    open spec fn view(&self) -> Seq<ToolDeclV> {
        self.tools.deep_view()
    }
}

/// DIFF format marker.
#[derive(Debug, Clone, Copy, PartialEq, Eq, Structural)]
pub enum DiffFormat {
    /// Unified diff format (can be machine-validated)
    Unified,
    /// Raw code or description
    Raw,
    /// No format marker
    Unspecified,
}

impl Default for DiffFormat {
    /// Unspecified, as for documents without a marker.
    fn default() -> (r: DiffFormat)
        ensures
            r == DiffFormat::Unspecified,
    {
        DiffFormat::Unspecified
    }
}

/// Mathematical model of a [`DiffView`].
pub struct DiffV {
    pub format: DiffFormat,
    pub changes: Seq<Seq<char>>,
}

/// Validated DIFF view.
#[derive(Debug, Clone)]
pub struct DiffView {
    /// Format marker if present
    pub format: DiffFormat,
    /// Expected file changes (excluding the format marker line)
    pub changes: Vec<String>,
}

impl View for DiffView {
    type V = DiffV;

    open spec fn view(&self) -> DiffV {
        DiffV { format: self.format, changes: self.changes.deep_view() }
    }
}

/// Validated CONTEXT view.
#[derive(Debug, Clone)]
pub struct ContextView {
    /// Context lines
    pub lines: Vec<String>,
}

impl View for ContextView {
    type V = Seq<Seq<char>>;

    open spec fn view(&self) -> Seq<Seq<char>> {
        self.lines.deep_view()
    }
}

/// Validated META view: key-value pairs in insertion order; a key repeated
/// on a later line wins on lookup.
#[derive(Debug, Clone)]
pub struct MetaView {
    /// Key-value metadata pairs
    pub entries: Vec<(String, String)>,
}

impl View for MetaView {
    type V = Seq<(Seq<char>, Seq<char>)>;

    open spec fn view(&self) -> Seq<(Seq<char>, Seq<char>)> {
        self.entries.deep_view()
    }
}

/// The value bound to a key: the last entry with that key wins.
pub open spec fn spec_lookup(es: Seq<(Seq<char>, Seq<char>)>, key: Seq<char>) -> Option<Seq<char>>
    decreases es.len(),
{
    if es.len() == 0 {
        None
    } else if es.last().0 == key {
        Some(es.last().1)
    } else {
        spec_lookup(es.drop_last(), key)
    }
}

/// Whether a version string is compatible: its major component (before the
/// first dot) must parse as exactly 1.
pub open spec fn spec_version_compatible(v: Seq<char>) -> bool {
    spec_parse_u32(v.take(spec_find(v, '.'))) == Some(1u32)
}

impl MetaView {
    /// The value bound to a key, if any.
    pub fn get(&self, key: &str) -> (r: Option<&String>)
        ensures
            match spec_lookup(self@, key@) {
                Some(v) => r matches Some(s) && s@ == v,
                None => r is None,
            },
    {
        let kv = chars_of(key);
        let n = self.entries.len();
        let mut i: usize = n;
        proof {
            assert(self@.take(n as int) =~= self@);
        }
        while i > 0
            invariant
                i <= n,
                n == self.entries@.len(),
                kv@ == key@,
                self@.len() == n,
                forall|k: int|
                    0 <= k < n ==> self@[k] == (#[trigger] self.entries@[k].0@, self.entries@[k].1@),
                spec_lookup(self@, key@) == spec_lookup(self@.take(i as int), key@),
            decreases i,
        {
            proof {
                assert(self@.take(i as int).last() == self@[i - 1]);
                assert(self@.take(i as int).drop_last() =~= self@.take(i - 1));
            }
            if eq_str(&kv, self.entries[i - 1].0.as_str()) {
                return Some(&self.entries[i - 1].1);
            }
            i = i - 1;
        }
        proof {
            assert(self@.take(0) =~= Seq::<(Seq<char>, Seq<char>)>::empty());
        }
        None
    }

    /// The APEX version recorded in META, if present.
    pub fn version(&self) -> (r: Option<&String>)
        ensures
            match spec_lookup(self@, "version"@) {
                Some(v) => r matches Some(s) && s@ == v,
                None => r is None,
            },
    {
        self.get("version")
    }

    /// Whether the recorded version is compatible with this implementation:
    /// a missing version is compatible; otherwise the major component must
    /// be exactly 1.
    pub fn is_version_compatible(&self) -> (r: bool)
        ensures
            r == match spec_lookup(self@, "version"@) {
                None => true,
                Some(v) => spec_version_compatible(v),
            },
    {
        match self.version() {
            None => true,
            Some(v) => {
                let vc = chars_of(v.as_str());
                let dot = find_char_from(&vc, 0, '.');
                proof {
                    lemma_find(vc@, '.');
                }
                let mut first: Vec<char> = Vec::new();
                let mut i: usize = 0;
                while i < dot
                    invariant
                        i <= dot,
                        dot <= vc@.len(),
                        first@ == vc@.subrange(0, i as int),
                    decreases dot - i,
                {
                    first.push(vc[i]);
                    i = i + 1;
                    assert(first@ =~= vc@.subrange(0, i as int));
                }
                proof {
                    assert(vc@.take(dot as int) =~= vc@.subrange(0, dot as int));
                }
                match parse_u32_chars(&first) {
                    Some(n) => n == 1,
                    None => false,
                }
            },
        }
    }

    /// The recorded parse fixes, if any were stored.
    pub fn parse_fixes(&self) -> (r: Option<&String>)
        ensures
            match spec_lookup(self@, "parse_fixes"@) {
                Some(v) => r matches Some(s) && s@ == v,
                None => r is None,
            },
    {
        self.get("parse_fixes")
    }
}

// --- Spec-level view builders ---

/// The first block of a kind, if any.
pub open spec fn first_block(blocks: Seq<BlockV>, kind: BlockKind) -> Option<BlockV> {
    if first_kind_idx(blocks, kind) < blocks.len() {
        Some(blocks[first_kind_idx(blocks, kind)])
    } else {
        None
    }
}

/// The TASK view: all content lines joined by newlines.
pub open spec fn spec_task_view(b: BlockV) -> Seq<char> {
    spec_join_nl(spec_content_lines(b.lines))
}

/// Line-list views (GOALS, PLAN, VALIDATION, CONTEXT): the content lines.
pub open spec fn spec_lines_view(b: BlockV) -> Seq<Seq<char>> {
    spec_content_lines(b.lines)
}

/// The CONSTRAINTS view: each content line canonicalized.
pub open spec fn spec_constraints_view(b: BlockV) -> Seq<Seq<char>> {
    spec_content_lines(b.lines).map_values(|l: Seq<char>| spec_canon(l))
}

/// One TOOLS line parsed into a declaration: the part before `'('` is the
/// name; what follows, without the parentheses, is the raw argument string.
pub open spec fn spec_tool_decl(line: Seq<char>) -> ToolDeclV {
    let t = spec_trim(line);
    let j = spec_find(t, '(');
    if j < t.len() {
        let rest = t.skip(j);
        let args = if rest.len() >= 2 && rest.last() == ')' {
            rest.subrange(1, rest.len() - 1)
        } else {
            rest.subrange(1, rest.len() as int)
        };
        ToolDeclV { name: spec_trim(t.take(j)), arguments: Some(args), raw: line }
    } else {
        ToolDeclV { name: t, arguments: None, raw: line }
    }
}

/// The TOOLS view: each content line parsed into a declaration.
pub open spec fn spec_tools_view(b: BlockV) -> Seq<ToolDeclV> {
    spec_content_lines(b.lines).map_values(|l: Seq<char>| spec_tool_decl(l))
}

/// The extracted tool names of a TOOLS block, in order.
pub open spec fn spec_tool_names(b: BlockV) -> Seq<Seq<char>> {
    spec_content_lines(b.lines).map_values(|l: Seq<char>| spec_extract_tool_name(l))
}

/// The index of the first name the registry rejects, or `names.len()`.
pub open spec fn first_invalid_idx(names: Seq<Seq<char>>, reg: RegV) -> int
    decreases names.len(),
{
    if names.len() == 0 {
        0
    } else if !spec_is_valid(reg, names[0]) {
        0
    } else {
        1 + first_invalid_idx(names.drop_first(), reg)
    }
}

pub proof fn lemma_first_invalid_idx(names: Seq<Seq<char>>, reg: RegV)
    ensures
        0 <= first_invalid_idx(names, reg) <= names.len(),
        first_invalid_idx(names, reg) < names.len() ==> !spec_is_valid(
            reg,
            names[first_invalid_idx(names, reg)],
        ),
        forall|j: int| 0 <= j < first_invalid_idx(names, reg) ==> spec_is_valid(reg, names[j]),
    decreases names.len(),
{
    if names.len() > 0 && spec_is_valid(reg, names[0]) {
        let t = names.drop_first();
        lemma_first_invalid_idx(t, reg);
        assert forall|j: int| 0 <= j < first_invalid_idx(names, reg) implies spec_is_valid(
            reg,
            names[j],
        ) by {
            if j > 0 {
                assert(names[j] == t[j - 1]);
            }
        }
    }
}

/// The warning recorded for an unknown tool in lenient mode.
pub open spec fn spec_tool_degraded_msg(name: Seq<char>) -> Seq<char> {
    "Unknown tool '"@ + name + "' (tool_degraded)"@
}

/// The lenient-mode warnings: one per rejected name, in order.
pub open spec fn spec_lenient_tool_warnings(names: Seq<Seq<char>>, reg: RegV) -> Seq<Seq<char>>
    decreases names.len(),
{
    if names.len() == 0 {
        Seq::empty()
    } else {
        spec_lenient_tool_warnings(names.drop_last(), reg) + (if !spec_is_valid(
            reg,
            names.last(),
        ) {
            seq![spec_tool_degraded_msg(names.last())]
        } else {
            Seq::empty()
        })
    }
}

/// The tool warnings added while building the TOOLS view: only lenient mode
/// with a registry and a TOOLS block produces any.
pub open spec fn spec_tool_warnings(
    blocks: Seq<BlockV>,
    mode: ValidationMode,
    reg: Option<RegV>,
) -> Seq<Seq<char>> {
    match (first_block(blocks, BlockKind::Tools), reg) {
        (Some(b), Some(rv)) => if mode is Lenient {
            spec_lenient_tool_warnings(spec_tool_names(b), rv)
        } else {
            Seq::empty()
        },
        _ => Seq::empty(),
    }
}

/// The DIFF view: a first line spelling `unified` or `raw` in any casing is
/// a format marker and is consumed; anything else leaves the format
/// unspecified.
pub open spec fn spec_diff_view(b: BlockV) -> DiffV {
    let ls = spec_content_lines(b.lines);
    if ls.len() == 0 {
        DiffV { format: DiffFormat::Unspecified, changes: Seq::empty() }
    } else {
        let fl = spec_lower(ls[0]);
        if fl == "unified"@ {
            DiffV { format: DiffFormat::Unified, changes: ls.drop_first() }
        } else if fl == "raw"@ {
            DiffV { format: DiffFormat::Raw, changes: ls.drop_first() }
        } else {
            DiffV { format: DiffFormat::Unspecified, changes: ls }
        }
    }
}

/// One META line parsed as `key=value` or `key: value`; the first matching
/// delimiter wins, and a line with neither is skipped.
pub open spec fn spec_meta_entry(line: Seq<char>) -> Option<(Seq<char>, Seq<char>)> {
    if spec_find(line, '=') < line.len() {
        let i = spec_find(line, '=');
        Some((spec_trim(line.take(i)), spec_trim(line.skip(i + 1))))
    } else if spec_find(line, ':') < line.len() {
        let i = spec_find(line, ':');
        Some((spec_trim(line.take(i)), spec_trim(line.skip(i + 1))))
    } else {
        None
    }
}

/// The META entries: each content line parsed, malformed lines skipped.
pub open spec fn spec_meta_entries(lines: Seq<Seq<char>>) -> Seq<(Seq<char>, Seq<char>)>
    decreases lines.len(),
{
    if lines.len() == 0 {
        Seq::empty()
    } else {
        spec_meta_entries(lines.drop_last()) + (match spec_meta_entry(lines.last()) {
            Some(kv) => seq![kv],
            None => Seq::empty(),
        })
    }
}

/// The META view of a block.
pub open spec fn spec_meta_view(b: BlockV) -> Seq<(Seq<char>, Seq<char>)> {
    spec_meta_entries(spec_content_lines(b.lines))
}

// --- Warnings and the validation outcome ---

/// The warning recorded for an empty block whose kind disallows emptiness.
pub open spec fn spec_empty_warning(kind: BlockKind) -> Seq<char> {
    "Empty "@ + kind.spec_name() + " block"@
}

/// The structural warnings: one per empty non-TASK block whose kind does not
/// allow emptiness, in document order.
pub open spec fn spec_empty_warnings(blocks: Seq<BlockV>) -> Seq<Seq<char>>
    decreases blocks.len(),
{
    if blocks.len() == 0 {
        Seq::empty()
    } else {
        let b = blocks.last();
        spec_empty_warnings(blocks.drop_last()) + (if !(b.kind is Context || b.kind is Meta)
            && spec_block_is_empty(b) && !(b.kind is Task) {
            seq![spec_empty_warning(b.kind)]
        } else {
            Seq::empty()
        })
    }
}

/// The version warnings added under strict mode: a missing META block or a
/// META without a version key warns rather than fails.
pub open spec fn spec_version_warnings(blocks: Seq<BlockV>, mode: ValidationMode) -> Seq<
    Seq<char>,
> {
    if mode is Strict {
        match first_block(blocks, BlockKind::Meta) {
            Some(b) => {
                if spec_lookup(spec_meta_view(b), "version"@) is None {
                    seq!["Missing version in META (v1.1 requires version=1.1)"@]
                } else {
                    Seq::empty()
                }
            },
            None => seq!["Missing META block (v1.1 requires version=1.1)"@],
        }
    } else {
        Seq::empty()
    }
}

/// Mathematical model of a [`ValidatedDocument`].
pub struct ValidatedV {
    pub doc: DocV,
    pub task: Seq<char>,
    pub goals: Option<Seq<Seq<char>>>,
    pub plan: Option<Seq<Seq<char>>>,
    pub constraints: Option<Seq<Seq<char>>>,
    pub validation: Option<Seq<Seq<char>>>,
    pub tools: Option<Seq<ToolDeclV>>,
    pub diff: Option<DiffV>,
    pub context: Option<Seq<Seq<char>>>,
    pub meta: Option<Seq<(Seq<char>, Seq<char>)>>,
    pub meta_fixes: Seq<Seq<char>>,
    pub warnings: Seq<Seq<char>>,
}

/// The strict-mode error for an incompatible version.
pub open spec fn spec_unsupported_version_msg(v: Seq<char>) -> Seq<char> {
    "Unsupported APEX version: "@ + v
}

/// The whole validation outcome for a document under a mode and an optional
/// registry: either the first structural violation, or the validated views
/// with their warnings.
pub open spec fn spec_validate(doc: DocV, mode: ValidationMode, reg: Option<RegV>) -> Result<
    ValidatedV,
    ErrV,
> {
    let blocks = doc.blocks;
    let tasks = blocks_of_kind(blocks, BlockKind::Task);
    if tasks.len() == 0 {
        Err(
            ErrV {
                kind: ApexErrorKind::MissingTask,
                message: "APEX document must contain exactly one TASK block"@,
                line: None,
                column: None,
            },
        )
    } else if tasks.len() > 1 {
        Err(
            ErrV {
                kind: ApexErrorKind::MultipleTasks,
                message: "APEX document contains multiple TASK blocks"@,
                line: Some(tasks[1].span.start_line),
                column: None,
            },
        )
    } else if spec_block_is_empty(tasks[0]) {
        Err(
            ErrV {
                kind: ApexErrorKind::EmptyRequiredBlock,
                message: ApexError::spec_empty_block_msg("TASK"@),
                line: Some(tasks[0].span.start_line),
                column: None,
            },
        )
    } else {
        let tools_block = first_block(blocks, BlockKind::Tools);
        let strict_tool_error = mode is Strict && reg is Some && tools_block is Some
            && first_invalid_idx(spec_tool_names(tools_block.unwrap()), reg.unwrap())
            < spec_tool_names(tools_block.unwrap()).len();
        if strict_tool_error {
            let names = spec_tool_names(tools_block.unwrap());
            let bad = names[first_invalid_idx(names, reg.unwrap())];
            Err(
                ErrV {
                    kind: ApexErrorKind::InvalidToolName,
                    message: ToolRegistry::spec_unknown_tool_msg(bad),
                    line: None,
                    column: None,
                },
            )
        } else {
            let meta = match first_block(blocks, BlockKind::Meta) {
                Some(b) => Some(spec_meta_view(b)),
                None => None,
            };
            let bad_version = mode is Strict && meta is Some && match spec_lookup(
                meta.unwrap(),
                "version"@,
            ) {
                Some(v) => !spec_version_compatible(v),
                None => false,
            };
            if bad_version {
                Err(
                    ErrV {
                        kind: ApexErrorKind::ValidationFailure,
                        message: spec_unsupported_version_msg(
                            spec_lookup(meta.unwrap(), "version"@).unwrap(),
                        ),
                        line: None,
                        column: None,
                    },
                )
            } else {
                Ok(
                    ValidatedV {
                        doc,
                        task: spec_task_view(tasks[0]),
                        goals: match first_block(blocks, BlockKind::Goals) {
                            Some(b) => Some(spec_lines_view(b)),
                            None => None,
                        },
                        plan: match first_block(blocks, BlockKind::Plan) {
                            Some(b) => Some(spec_lines_view(b)),
                            None => None,
                        },
                        constraints: match first_block(blocks, BlockKind::Constraints) {
                            Some(b) => Some(spec_constraints_view(b)),
                            None => None,
                        },
                        validation: match first_block(blocks, BlockKind::Validation) {
                            Some(b) => Some(spec_lines_view(b)),
                            None => None,
                        },
                        tools: match tools_block {
                            Some(b) => Some(spec_tools_view(b)),
                            None => None,
                        },
                        diff: match first_block(blocks, BlockKind::Diff) {
                            Some(b) => Some(spec_diff_view(b)),
                            None => None,
                        },
                        context: match first_block(blocks, BlockKind::Context) {
                            Some(b) => Some(spec_lines_view(b)),
                            None => None,
                        },
                        meta,
                        meta_fixes: Seq::empty(),
                        warnings: spec_empty_warnings(blocks) + spec_tool_warnings(
                            blocks,
                            mode,
                            reg,
                        ) + spec_version_warnings(blocks, mode),
                    },
                )
            }
        }
    }
}

/// Fully validated APEX document.
#[derive(Debug, Clone)]
pub struct ValidatedDocument {
    /// Original AST
    pub doc: ApexDocument,
    /// Required TASK (always present after validation)
    pub task: TaskView,
    /// Optional validated blocks
    pub goals: Option<GoalsView>,
    pub plan: Option<PlanView>,
    pub constraints: Option<ConstraintsView>,
    pub validation: Option<ValidationView>,
    pub tools: Option<ToolsView>,
    pub diff: Option<DiffView>,
    pub context: Option<ContextView>,
    pub meta: Option<MetaView>,
    /// Parse/validation fixes applied (tolerant mode)
    pub meta_fixes: Vec<String>,
    /// Validation warnings (non-fatal issues)
    pub warnings: Vec<String>,
}

impl View for ValidatedDocument {
    type V = ValidatedV;

    open spec fn view(&self) -> ValidatedV {
        ValidatedV {
            doc: self.doc@,
            task: self.task@,
            goals: match self.goals {
                Some(ref v) => Some(v@),
                None => None,
            },
            plan: match self.plan {
                Some(ref v) => Some(v@),
                None => None,
            },
            constraints: match self.constraints {
                Some(ref v) => Some(v@),
                None => None,
            },
            validation: match self.validation {
                Some(ref v) => Some(v@),
                None => None,
            },
            tools: match self.tools {
                Some(ref v) => Some(v@),
                None => None,
            },
            diff: match self.diff {
                Some(ref v) => Some(v@),
                None => None,
            },
            context: match self.context {
                Some(ref v) => Some(v@),
                None => None,
            },
            meta: match self.meta {
                Some(ref v) => Some(v@),
                None => None,
            },
            meta_fixes: self.meta_fixes.deep_view(),
            warnings: self.warnings.deep_view(),
        }
    }
}

/// The model of an optional registry argument.
pub open spec fn reg_view(registry: Option<&ToolRegistry>) -> Option<RegV> {
    match registry {
        Some(r) => Some(r@),
        None => None,
    }
}

/// Validate a parsed document in legacy mode: no version enforcement and no
/// tool registry.
pub fn validate(doc: ApexDocument) -> (r: ApexResult<ValidatedDocument>)
    ensures
        match spec_validate(doc@, ValidationMode::Legacy, None) {
            Ok(v) => r matches Ok(vd) && vd@ == v,
            Err(e) => r matches Err(err) && err@ == e,
        },
{
    validate_with_mode(doc, ValidationMode::Legacy, None)
}

/// Validate a parsed document under a mode, checking tool names against the
/// registry when one is supplied.
pub fn validate_with_mode(
    doc: ApexDocument,
    mode: ValidationMode,
    registry: Option<&ToolRegistry>,
) -> (r: ApexResult<ValidatedDocument>)
    ensures
        match spec_validate(doc@, mode, reg_view(registry)) {
            Ok(v) => r matches Ok(vd) && vd@ == v,
            Err(e) => r matches Err(err) && err@ == e,
        },
{
    let mut warnings: Vec<String> = Vec::new();

    // Rule 1: exactly one TASK block.
    let task_count = doc.count_blocks(BlockKind::Task);
    if task_count == 0 {
        return Err(ApexError::missing_task());
    }
    if task_count > 1 {
        let tasks = doc.get_blocks(BlockKind::Task);
        let second_line = tasks[1].span.start_line;
        return Err(ApexError::multiple_tasks(second_line));
    }

    // Rule 2: the TASK block cannot be empty.
    let ghost tasks_g = blocks_of_kind(doc@.blocks, BlockKind::Task);
    let task_block = match doc.task() {
        Some(b) => b,
        None => {
            proof {
                lemma_first_kind_idx(doc@.blocks, BlockKind::Task);
                lemma_first_of_kind(doc@.blocks, BlockKind::Task);
                assert(false);
            }
            return Err(ApexError::missing_task());
        },
    };
    proof {
        lemma_first_kind_idx(doc@.blocks, BlockKind::Task);
        lemma_first_of_kind(doc@.blocks, BlockKind::Task);
        assert(task_block@ == tasks_g[0]);
    }
    if task_block.is_empty() {
        let line = task_block.span.start_line;
        return Err(ApexError::empty_block("TASK", Some(line)));
    }

    // Rule 3: an empty block of a kind that disallows emptiness warns.
    let nb = doc.blocks.len();
    let mut bi: usize = 0;
    proof {
        assert(doc@.blocks.take(0) =~= Seq::<BlockV>::empty());
        assert(warnings.deep_view() =~= spec_empty_warnings(doc@.blocks.take(0)));
    }
    while bi < nb
        invariant
            bi <= nb,
            nb == doc.blocks@.len(),
            doc@.blocks.len() == nb,
            forall|k: int| 0 <= k < nb ==> doc@.blocks[k] == #[trigger] doc.blocks@[k]@,
            warnings.deep_view() == spec_empty_warnings(doc@.blocks.take(bi as int)),
        decreases nb - bi,
    {
        let b = &doc.blocks[bi];
        let ghost pre = warnings.deep_view();
        if !b.kind.allows_empty() && b.is_empty() && !matches!(b.kind, BlockKind::Task) {
            let mut w = String::from_str("Empty ");
            w.append(b.kind.as_str());
            w.append(" block");
            push_deep(&mut warnings, w);
            proof {
                assert(warnings.deep_view() =~= pre + seq![spec_empty_warning(b@.kind)]);
            }
        } else {
            proof {
                assert(warnings.deep_view() =~= pre + Seq::<Seq<char>>::empty());
            }
        }
        bi = bi + 1;
        proof {
            assert(doc@.blocks.take(bi as int).drop_last() =~= doc@.blocks.take(bi - 1));
            assert(doc@.blocks.take(bi as int).last() == doc@.blocks[bi - 1]);
        }
    }
    proof {
        assert(doc@.blocks.take(nb as int) =~= doc@.blocks);
    }

    // Build the typed views.
    let task = TaskView { line: task_block.content() };
    let goals = match doc.goals() {
        Some(b) => Some(GoalsView { goals: b.content_lines() }),
        None => None,
    };
    let plan = match doc.plan() {
        Some(b) => Some(PlanView { steps: b.content_lines() }),
        None => None,
    };
    let constraints = match doc.constraints() {
        Some(b) => Some(parse_constraints_view_canonical(b)),
        None => None,
    };
    let validation = match doc.validation() {
        Some(b) => Some(ValidationView { conditions: b.content_lines() }),
        None => None,
    };
    let tools = match doc.tools() {
        Some(b) => match parse_tools_view_with_registry(b, mode, registry, &mut warnings) {
            Ok(t) => Some(t),
            Err(e) => {
                return Err(e);
            },
        },
        None => None,
    };
    let diff = match doc.diff() {
        Some(b) => Some(parse_diff_view(b)),
        None => None,
    };
    let context = match doc.context() {
        Some(b) => Some(ContextView { lines: b.content_lines() }),
        None => None,
    };
    let meta = match doc.meta() {
        Some(b) => Some(parse_meta_view(b)),
        None => None,
    };

    // Version enforcement under strict mode.
    if matches!(mode, ValidationMode::Strict) {
        let ghost pre = warnings.deep_view();
        match &meta {
            Some(m) => {
                match m.version() {
                    Some(v) => {
                        if !m.is_version_compatible() {
                            let msg = String::from_str("Unsupported APEX version: ").concat(
                                v.as_str(),
                            );
                            return Err(ApexError::new(ApexErrorKind::ValidationFailure, msg));
                        }
                        proof {
                            assert(warnings.deep_view() =~= pre + spec_version_warnings(
                                doc@.blocks,
                                mode,
                            ));
                        }
                    },
                    None => {
                        push_deep(
                            &mut warnings,
                            String::from_str("Missing version in META (v1.1 requires version=1.1)"),
                        );
                        proof {
                            assert(warnings.deep_view() =~= pre + spec_version_warnings(
                                doc@.blocks,
                                mode,
                            ));
                        }
                    },
                }
            },
            None => {
                push_deep(
                    &mut warnings,
                    String::from_str("Missing META block (v1.1 requires version=1.1)"),
                );
                proof {
                    assert(warnings.deep_view() =~= pre + spec_version_warnings(
                        doc@.blocks,
                        mode,
                    ));
                }
            },
        }
    } else {
        proof {
            assert(warnings.deep_view() =~= warnings.deep_view() + spec_version_warnings(
                doc@.blocks,
                mode,
            ));
        }
    }

    Ok(
        ValidatedDocument {
            doc,
            task,
            goals,
            plan,
            constraints,
            validation,
            tools,
            diff,
            context,
            meta,
            meta_fixes: Vec::new(),
            warnings,
        },
    )
}

// --- View parsers ---

fn parse_constraints_view_canonical(block: &Block) -> (r: ConstraintsView)
    ensures
        r@ == spec_constraints_view(block@),
{
    let lines = block.content_lines();
    let mut rules: Vec<String> = Vec::new();
    let n = lines.len();
    let mut i: usize = 0;
    while i < n
        invariant
            i <= n,
            n == lines@.len(),
            lines.deep_view().len() == n,
            forall|k: int| 0 <= k < n ==> lines.deep_view()[k] == #[trigger] lines@[k]@,
            lines.deep_view() == spec_content_lines(block@.lines),
            rules.deep_view().len() == i,
            forall|k: int|
                0 <= k < i ==> rules.deep_view()[k] == spec_canon(lines.deep_view()[k]),
        decreases n - i,
    {
        push_deep(&mut rules, canonicalize(lines[i].as_str()));
        i = i + 1;
    }
    proof {
        assert(rules.deep_view() =~= spec_constraints_view(block@));
    }
    ConstraintsView { rules }
}

/// Parse one tool declaration line.
fn parse_tool_declaration(line: &str) -> (r: ApexResult<ToolDeclaration>)
    ensures
        r matches Ok(d) && d@ == spec_tool_decl(line@),
{
    let t = trim_chars(&chars_of(line));
    let n = t.len();
    let j = find_char_from(&t, 0, '(');
    proof {
        lemma_find(t@, '(');
    }
    if j < n {
        let mut head: Vec<char> = Vec::new();
        let mut i: usize = 0;
        while i < j
            invariant
                i <= j <= t@.len(),
                head@ == t@.subrange(0, i as int),
            decreases j - i,
        {
            head.push(t[i]);
            i = i + 1;
            assert(head@ =~= t@.subrange(0, i as int));
        }
        proof {
            assert(t@.take(j as int) =~= t@.subrange(0, j as int));
        }
        let name_chars = trim_chars(&head);
        let name = chars_to_string(&name_chars);

        let ghost rest = t@.skip(j as int);
        let close_paren = t[n - 1] == ')' && n - j >= 2;
        let upper = if close_paren {
            n - 1
        } else {
            n
        };
        let mut args: Vec<char> = Vec::new();
        let mut i2: usize = j + 1;
        while i2 < upper
            invariant
                j + 1 <= i2 <= upper <= t@.len(),
                args@ == t@.subrange(j + 1, i2 as int),
            decreases upper - i2,
        {
            args.push(t[i2]);
            i2 = i2 + 1;
            assert(args@ =~= t@.subrange(j + 1, i2 as int));
        }
        proof {
            assert(rest.len() == n - j);
            assert(rest.last() == t@[n - 1]);
            if rest.len() >= 2 && rest.last() == ')' {
                assert(rest.subrange(1, rest.len() - 1) =~= t@.subrange(j + 1, n - 1));
            } else {
                assert(rest.subrange(1, rest.len() as int) =~= t@.subrange(j + 1, n as int));
            }
        }
        Ok(
            ToolDeclaration {
                name,
                arguments: Some(chars_to_string(&args)),
                raw: String::from_str(line),
            },
        )
    } else {
        Ok(
            ToolDeclaration {
                name: chars_to_string(&t),
                arguments: None,
                raw: String::from_str(line),
            },
        )
    }
}

/// Parse the TOOLS view, checking each extracted name against the registry:
/// a rejected name is a hard error under strict mode, a warning under
/// lenient mode, and silently accepted under legacy mode.
fn parse_tools_view_with_registry(
    block: &Block,
    mode: ValidationMode,
    registry: Option<&ToolRegistry>,
    warnings: &mut Vec<String>,
) -> (r: ApexResult<ToolsView>)
    ensures
        ({
            let names = spec_tool_names(block@);
            let invalid = reg_view(registry) matches Some(rv) && first_invalid_idx(names, rv)
                < names.len();
            if mode is Strict && invalid {
                &&& r matches Err(e) && e@ == (ErrV {
                    kind: ApexErrorKind::InvalidToolName,
                    message: ToolRegistry::spec_unknown_tool_msg(
                        names[first_invalid_idx(names, reg_view(registry).unwrap())],
                    ),
                    line: None,
                    column: None,
                })
            } else {
                &&& r matches Ok(t) && t@ == spec_tools_view(block@)
                &&& final(warnings).deep_view() == old(warnings).deep_view() + (
                if mode is Lenient && reg_view(registry) is Some {
                    spec_lenient_tool_warnings(names, reg_view(registry).unwrap())
                } else {
                    Seq::empty()
                })
            }
        }),
{
    let lines = block.content_lines();
    let ghost names = spec_tool_names(block@);
    let mut tools: Vec<ToolDeclaration> = Vec::new();
    let n = lines.len();
    let mut i: usize = 0;
    proof {
        assert(names.take(0) =~= Seq::<Seq<char>>::empty());
        assert(warnings.deep_view() + Seq::<Seq<char>>::empty() =~= warnings.deep_view());
    }
    while i < n
        invariant
            i <= n,
            n == lines@.len(),
            lines.deep_view().len() == n,
            forall|k: int| 0 <= k < n ==> lines.deep_view()[k] == #[trigger] lines@[k]@,
            lines.deep_view() == spec_content_lines(block@.lines),
            names == spec_tool_names(block@),
            names.len() == n,
            forall|k: int| 0 <= k < n ==> names[k] == spec_extract_tool_name(lines.deep_view()[k]),
            tools.deep_view().len() == i,
            forall|k: int|
                0 <= k < i ==> tools.deep_view()[k] == spec_tool_decl(lines.deep_view()[k]),
            reg_view(registry) matches Some(rv) ==> (mode is Strict ==> forall|k: int|
                0 <= k < i ==> spec_is_valid(rv, names[k])),
            warnings.deep_view() == old(warnings).deep_view() + (
            if mode is Lenient && reg_view(registry) is Some {
                spec_lenient_tool_warnings(names.take(i as int), reg_view(registry).unwrap())
            } else {
                Seq::<Seq<char>>::empty()
            }),
        decreases n - i,
    {
        let line = &lines[i];
        let tool_name = extract_tool_name(line.as_str());

        if let Some(reg) = registry {
            if !reg.is_valid(tool_name.as_str()) {
                match mode {
                    ValidationMode::Strict => {
                        proof {
                            lemma_first_invalid_unique(names, reg@, i as int);
                        }
                        let msg = String::from_str("Unknown tool '").concat(
                            tool_name.as_str(),
                        ).concat("' not in registry");
                        return Err(ApexError::new(ApexErrorKind::InvalidToolName, msg));
                    },
                    ValidationMode::Lenient => {
                        let ghost pre = warnings.deep_view();
                        let mut w = String::from_str("Unknown tool '");
                        w.append(tool_name.as_str());
                        w.append("' (tool_degraded)");
                        push_deep(warnings, w);
                        proof {
                            assert(names.take(i + 1).drop_last() =~= names.take(i as int));
                            assert(names.take(i + 1).last() == names[i as int]);
                            assert(warnings.deep_view() =~= old(warnings).deep_view()
                                + spec_lenient_tool_warnings(names.take(i + 1), reg@));
                        }
                    },
                    ValidationMode::Legacy => {
                    },
                }
            } else {
                proof {
                    if mode is Lenient {
                        assert(names.take(i + 1).drop_last() =~= names.take(i as int));
                        assert(names.take(i + 1).last() == names[i as int]);
                        assert(spec_lenient_tool_warnings(names.take(i + 1), reg@)
                            =~= spec_lenient_tool_warnings(names.take(i as int), reg@));
                    }
                }
            }
        }

        let tool = match parse_tool_declaration(line.as_str()) {
            Ok(t) => t,
            Err(e) => {
                return Err(e);
            },
        };
        push_deep(&mut tools, tool);
        i = i + 1;
    }
    proof {
        assert(tools.deep_view() =~= spec_tools_view(block@));
        match reg_view(registry) {
            Some(rv) => {
                if mode is Strict {
                    lemma_first_invalid_unique(names, rv, n as int);
                }
                if mode is Lenient {
                    assert(names.take(n as int) =~= names);
                }
            },
            None => {},
        }
    }
    Ok(ToolsView { tools })
}

proof fn lemma_first_invalid_unique(names: Seq<Seq<char>>, reg: RegV, k: int)
    requires
        0 <= k <= names.len(),
        k < names.len() ==> !spec_is_valid(reg, names[k]),
        forall|j: int| 0 <= j < k ==> spec_is_valid(reg, names[j]),
    ensures
        k < names.len() ==> first_invalid_idx(names, reg) == k,
        k == names.len() ==> first_invalid_idx(names, reg) >= names.len(),
    decreases k,
{
    if names.len() == 0 {
    } else if k == 0 {
    } else {
        let t = names.drop_first();
        assert(forall|j: int| 0 <= j < k - 1 ==> spec_is_valid(reg, t[j]));
        lemma_first_invalid_unique(t, reg, k - 1);
    }
}

/// Parse the DIFF view, consuming a leading `unified` or `raw` marker line.
fn parse_diff_view(block: &Block) -> (r: DiffView)
    ensures
        r@ == spec_diff_view(block@),
{
    let lines = block.content_lines();
    if lines.len() == 0 {
        let changes: Vec<String> = Vec::new();
        proof {
            assert(changes.deep_view() =~= Seq::<Seq<char>>::empty());
        }
        return DiffView { format: DiffFormat::Unspecified, changes };
    }
    let first_line = lower_chars(&chars_of(lines[0].as_str()));
    let (format, skip_first) = if eq_str(&first_line, "unified") {
        (DiffFormat::Unified, true)
    } else if eq_str(&first_line, "raw") {
        (DiffFormat::Raw, true)
    } else {
        (DiffFormat::Unspecified, false)
    };
    let start: usize = if skip_first {
        1
    } else {
        0
    };
    let mut changes: Vec<String> = Vec::new();
    let n = lines.len();
    let mut i: usize = start;
    while i < n
        invariant
            start <= i <= n,
            n == lines@.len(),
            lines.deep_view().len() == n,
            forall|k: int| 0 <= k < n ==> lines.deep_view()[k] == #[trigger] lines@[k]@,
            changes.deep_view().len() == i - start,
            forall|k: int|
                0 <= k < i - start ==> changes.deep_view()[k] == lines.deep_view()[k + start],
        decreases n - i,
    {
        push_deep(&mut changes, lines[i].clone());
        i = i + 1;
    }
    proof {
        let ls = lines.deep_view();
        if start == 1 {
            assert(changes.deep_view() =~= ls.drop_first());
        } else {
            assert(changes.deep_view() =~= ls);
        }
    }
    DiffView { format, changes }
}

/// Parse the META view from `key=value` / `key: value` lines.
fn parse_meta_view(block: &Block) -> (r: MetaView)
    ensures
        r@ == spec_meta_view(block@),
{
    let lines = block.content_lines();
    let mut entries: Vec<(String, String)> = Vec::new();
    let n = lines.len();
    let mut i: usize = 0;
    proof {
        assert(lines.deep_view().take(0) =~= Seq::<Seq<char>>::empty());
        assert(entries.deep_view() =~= spec_meta_entries(lines.deep_view().take(0)));
    }
    while i < n
        invariant
            i <= n,
            n == lines@.len(),
            lines.deep_view().len() == n,
            forall|k: int| 0 <= k < n ==> lines.deep_view()[k] == #[trigger] lines@[k]@,
            lines.deep_view() == spec_content_lines(block@.lines),
            entries.deep_view() == spec_meta_entries(lines.deep_view().take(i as int)),
        decreases n - i,
    {
        let lv = chars_of(lines[i].as_str());
        let m = lv.len();
        let ghost pre = entries.deep_view();
        let eq_idx = find_char_from(&lv, 0, '=');
        proof {
            lemma_find(lv@, '=');
            lemma_find(lv@, ':');
        }
        let delim = if eq_idx < m {
            eq_idx
        } else {
            find_char_from(&lv, 0, ':')
        };
        if delim < m {
            let mut keyc: Vec<char> = Vec::new();
            let mut k: usize = 0;
            while k < delim
                invariant
                    k <= delim <= lv@.len(),
                    keyc@ == lv@.subrange(0, k as int),
                decreases delim - k,
            {
                keyc.push(lv[k]);
                k = k + 1;
                assert(keyc@ =~= lv@.subrange(0, k as int));
            }
            let mut valc: Vec<char> = Vec::new();
            let mut k2: usize = delim + 1;
            while k2 < m
                invariant
                    delim + 1 <= k2 <= m,
                    m == lv@.len(),
                    valc@ == lv@.subrange(delim + 1, k2 as int),
                decreases m - k2,
            {
                valc.push(lv[k2]);
                k2 = k2 + 1;
                assert(valc@ =~= lv@.subrange(delim + 1, k2 as int));
            }
            let key = chars_to_string(&trim_chars(&keyc));
            let value = chars_to_string(&trim_chars(&valc));
            proof {
                assert(lv@.take(delim as int) =~= lv@.subrange(0, delim as int));
                assert(lv@.skip(delim + 1) =~= lv@.subrange(delim + 1, m as int));
            }
            push_deep(&mut entries, (key, value));
            proof {
                assert(spec_meta_entry(lv@) == Some(
                    (spec_trim(lv@.take(delim as int)), spec_trim(lv@.skip(delim + 1))),
                ));
                assert(entries.deep_view() =~= pre + seq![spec_meta_entry(lv@).unwrap()]);
            }
        } else {
            proof {
                assert(spec_meta_entry(lv@) is None);
                assert(entries.deep_view() =~= pre + Seq::<(Seq<char>, Seq<char>)>::empty());
            }
        }
        i = i + 1;
        proof {
            let cur = lines.deep_view().take(i as int);
            assert(cur.drop_last() =~= lines.deep_view().take(i - 1));
            assert(cur.last() == lines.deep_view()[i - 1]);
        }
    }
    proof {
        assert(lines.deep_view().take(n as int) =~= lines.deep_view());
    }
    MetaView { entries }
}

// --- Laws on the validation outcome ---

proof fn lemma_unknown_tool_msg_contains(name: Seq<char>)
    ensures
        spec_contains(ToolRegistry::spec_unknown_tool_msg(name), "Unknown tool"@),
{
    reveal_strlit("Unknown tool '");
    reveal_strlit("Unknown tool");
    let msg = ToolRegistry::spec_unknown_tool_msg(name);
    assert(msg.subrange(0, 12) =~= "Unknown tool"@);
    assert(contains_at(msg, "Unknown tool"@, 0));
}

proof fn lemma_degraded_msg_contains(name: Seq<char>)
    ensures
        spec_contains(spec_tool_degraded_msg(name), "tool_degraded"@),
{
    reveal_strlit("Unknown tool '");
    reveal_strlit("' (tool_degraded)");
    reveal_strlit("tool_degraded");
    let msg = spec_tool_degraded_msg(name);
    let p: int = 14 + name.len() as int + 3;
    assert forall|t: int| 0 <= t < 13 implies msg[p + t] == "tool_degraded"@[t] by {
        assert(msg[p + t] == "' (tool_degraded)"@[3 + t]);
    }
    assert(msg.subrange(p, p + 13) =~= "tool_degraded"@);
    assert(contains_at(msg, "tool_degraded"@, p));
}

proof fn lemma_lenient_warning_exists(names: Seq<Seq<char>>, reg: RegV, k: int)
    requires
        0 <= k < names.len(),
        !spec_is_valid(reg, names[k]),
    ensures
        exists|j: int|
            0 <= j < spec_lenient_tool_warnings(names, reg).len()
                && #[trigger] spec_lenient_tool_warnings(names, reg)[j] == spec_tool_degraded_msg(
                names[k],
            ),
    decreases names.len(),
{
    let ws = spec_lenient_tool_warnings(names, reg);
    if k == names.len() - 1 {
        let pre = spec_lenient_tool_warnings(names.drop_last(), reg);
        assert(ws[pre.len() as int] == spec_tool_degraded_msg(names[k]));
    } else {
        let t = names.drop_last();
        assert(t[k] == names[k]);
        lemma_lenient_warning_exists(t, reg, k);
        let pre = spec_lenient_tool_warnings(t, reg);
        let j = choose|j: int|
            0 <= j < pre.len() && #[trigger] pre[j] == spec_tool_degraded_msg(t[k]);
        assert(ws[j] == pre[j]);
    }
}

/// Strict mode with a tool registry: a TOOLS block declaring a name the
/// registry rejects makes validation fail, with an invalid-tool error whose
/// message contains "Unknown tool" -- for every document that passes the
/// TASK rules.
pub proof fn lemma_strict_unknown_tool_fails(doc: DocV, reg: RegV, k: int)
    requires
        blocks_of_kind(doc.blocks, BlockKind::Task).len() == 1,
        !spec_block_is_empty(blocks_of_kind(doc.blocks, BlockKind::Task)[0]),
        first_block(doc.blocks, BlockKind::Tools) is Some,
        0 <= k < spec_tool_names(first_block(doc.blocks, BlockKind::Tools)->Some_0).len(),
        !spec_is_valid(
            reg,
            spec_tool_names(first_block(doc.blocks, BlockKind::Tools)->Some_0)[k],
        ),
    ensures
        spec_validate(doc, ValidationMode::Strict, Some(reg)) is Err,
        (spec_validate(doc, ValidationMode::Strict, Some(reg))->Err_0).kind
            == ApexErrorKind::InvalidToolName,
        spec_contains(
            (spec_validate(doc, ValidationMode::Strict, Some(reg))->Err_0).message,
            "Unknown tool"@,
        ),
{
    let names = spec_tool_names(first_block(doc.blocks, BlockKind::Tools)->Some_0);
    lemma_first_invalid_idx(names, reg);
    if first_invalid_idx(names, reg) >= names.len() {
        assert(spec_is_valid(reg, names[k]));
        assert(false);
    }
    lemma_unknown_tool_msg_contains(names[first_invalid_idx(names, reg)]);
}

/// Lenient mode with a tool registry: the same rejected name does not fail
/// validation; instead a warning containing "tool_degraded" is recorded.
pub proof fn lemma_lenient_unknown_tool_warns(doc: DocV, reg: RegV, k: int)
    requires
        blocks_of_kind(doc.blocks, BlockKind::Task).len() == 1,
        !spec_block_is_empty(blocks_of_kind(doc.blocks, BlockKind::Task)[0]),
        first_block(doc.blocks, BlockKind::Tools) is Some,
        0 <= k < spec_tool_names(first_block(doc.blocks, BlockKind::Tools)->Some_0).len(),
        !spec_is_valid(
            reg,
            spec_tool_names(first_block(doc.blocks, BlockKind::Tools)->Some_0)[k],
        ),
    ensures
        spec_validate(doc, ValidationMode::Lenient, Some(reg)) is Ok,
        exists|j: int|
            0 <= j < (spec_validate(doc, ValidationMode::Lenient, Some(reg))->Ok_0).warnings.len()
                && spec_contains(
                #[trigger] (spec_validate(doc, ValidationMode::Lenient, Some(reg))
                    ->Ok_0).warnings[j],
                "tool_degraded"@,
            ),
{
    let names = spec_tool_names(first_block(doc.blocks, BlockKind::Tools)->Some_0);
    let v = spec_validate(doc, ValidationMode::Lenient, Some(reg))->Ok_0;
    let ew = spec_empty_warnings(doc.blocks);
    let tw = spec_lenient_tool_warnings(names, reg);
    assert(v.warnings =~= ew + tw + Seq::<Seq<char>>::empty());
    lemma_lenient_warning_exists(names, reg, k);
    let j = choose|j: int|
        0 <= j < tw.len() && #[trigger] tw[j] == spec_tool_degraded_msg(names[k]);
    lemma_degraded_msg_contains(names[k]);
    assert(v.warnings[ew.len() + j] == tw[j]);
    assert(spec_contains(v.warnings[ew.len() + j], "tool_degraded"@));
}

/// Legacy mode: the registry is not consulted at all; validation succeeds
/// and the warnings are exactly the structural ones, with no tool warning.
pub proof fn lemma_legacy_ignores_tools(doc: DocV, reg: RegV)
    requires
        blocks_of_kind(doc.blocks, BlockKind::Task).len() == 1,
        !spec_block_is_empty(blocks_of_kind(doc.blocks, BlockKind::Task)[0]),
    ensures
        spec_validate(doc, ValidationMode::Legacy, Some(reg)) is Ok,
        (spec_validate(doc, ValidationMode::Legacy, Some(reg))->Ok_0).warnings
            == spec_empty_warnings(doc.blocks),
{
    let v = spec_validate(doc, ValidationMode::Legacy, Some(reg))->Ok_0;
    assert(v.warnings =~= spec_empty_warnings(doc.blocks));
}

/// Strict mode without a META block: validation still succeeds (provided no
/// tool failure applies) and the last warning reports the missing META.
pub proof fn lemma_strict_missing_meta_warns(doc: DocV, reg: Option<RegV>)
    requires
        blocks_of_kind(doc.blocks, BlockKind::Task).len() == 1,
        !spec_block_is_empty(blocks_of_kind(doc.blocks, BlockKind::Task)[0]),
        first_block(doc.blocks, BlockKind::Meta) is None,
        !(reg is Some && first_block(doc.blocks, BlockKind::Tools) is Some && first_invalid_idx(
            spec_tool_names(first_block(doc.blocks, BlockKind::Tools)->Some_0),
            reg->Some_0,
        ) < spec_tool_names(first_block(doc.blocks, BlockKind::Tools)->Some_0).len()),
    ensures
        spec_validate(doc, ValidationMode::Strict, reg) is Ok,
        (spec_validate(doc, ValidationMode::Strict, reg)->Ok_0).warnings.len() > 0,
        (spec_validate(doc, ValidationMode::Strict, reg)->Ok_0).warnings.last()
            == "Missing META block (v1.1 requires version=1.1)"@,
        spec_contains(
            (spec_validate(doc, ValidationMode::Strict, reg)->Ok_0).warnings.last(),
            "Missing META"@,
        ),
{
    let v = spec_validate(doc, ValidationMode::Strict, reg)->Ok_0;
    let vw = spec_version_warnings(doc.blocks, ValidationMode::Strict);
    assert(vw =~= seq!["Missing META block (v1.1 requires version=1.1)"@]);
    assert(v.warnings.last() == "Missing META block (v1.1 requires version=1.1)"@);
    reveal_strlit("Missing META block (v1.1 requires version=1.1)");
    reveal_strlit("Missing META");
    assert(v.warnings.last().subrange(0, 12) =~= "Missing META"@);
    assert(contains_at(v.warnings.last(), "Missing META"@, 0));
}

/// A document that validates successfully holds exactly one TASK block, and
/// that block is not empty; its content is the task view.
pub proof fn lemma_validated_has_one_task(doc: DocV, mode: ValidationMode, reg: Option<RegV>)
    requires
        spec_validate(doc, mode, reg) is Ok,
    ensures
        blocks_of_kind(doc.blocks, BlockKind::Task).len() == 1,
        !spec_block_is_empty(blocks_of_kind(doc.blocks, BlockKind::Task)[0]),
        (spec_validate(doc, mode, reg)->Ok_0).task == spec_task_view(
            blocks_of_kind(doc.blocks, BlockKind::Task)[0],
        ),
{
}

} // verus!
