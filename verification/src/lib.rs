//! APEX: a line-oriented planning document format.
//!
//! The library parses a document made of uppercase-keyword blocks (TASK,
//! GOALS, PLAN, CONSTRAINTS, VALIDATION, TOOLS, DIFF, CONTEXT, META) into an
//! abstract syntax tree, validates its structure, canonicalizes constraint
//! text, and interprets the result into an executable plan of ordered,
//! tool-bound steps with inferred sequential dependencies.

use vstd::prelude::*;

pub mod ast;
pub mod errors;
pub mod interpreter;
pub mod lexer;
pub mod parser;
pub mod sem;
pub mod tool_registry;
pub mod validate;
pub mod text;

pub use ast::{ApexDocument, Block, BlockKind, Span};
pub use errors::{ApexError, ApexErrorKind, ApexResult};
pub use interpreter::{
    ExecutionPlan, ExecutionStep, ExecutionState, StepStatus, ToolInvocation, build_execution_plan,
};
pub use lexer::{Lexer, Token, ParseMode, ParseFix};
pub use parser::{parse_str, parse_str_with_mode, ParseResult, ParserConfig};
pub use sem::{Constraint, Precedence, Semantics, normalize_constraint, canonicalize};
pub use tool_registry::{ToolRegistry, valid_tools, extract_tool_name};
pub use validate::{ValidatedDocument, validate, validate_with_mode, DiffFormat, ValidationMode};

use crate::ast::{BlockV, DocV, blocks_of_kind, first_kind_idx, spec_block_is_empty};
use crate::interpreter::{spec_plan, spec_steps, spec_tool_invs};
use crate::parser::spec_parse;
use crate::text::spec_lines;
use crate::tool_registry::RegV;
use crate::validate::spec_validate;

verus! {

/// APEX format version supported by this crate.
pub const APEX_VERSION: &'static str = "1.1";

/// Minimum supported APEX version.
pub const APEX_MIN_VERSION: &'static str = "1.0";

/// The document that an input string parses to in strict mode.
pub open spec fn spec_parsed_doc(input: Seq<char>) -> DocV {
    DocV { blocks: spec_parse(spec_lines(input), ParseMode::Strict), version: None }
}

/// Parse and validate APEX input in one call, in legacy validation mode.
pub fn parse_and_validate(input: &str) -> (r: ApexResult<ValidatedDocument>)
    ensures
        match spec_validate(spec_parsed_doc(input@), ValidationMode::Legacy, None) {
            Ok(v) => r matches Ok(vd) && vd@ == v,
            Err(e) => r matches Err(err) && err@ == e,
        },
{
    let doc = match parse_str(input) {
        Ok(d) => d,
        Err(e) => {
            return Err(e);
        },
    };
    proof {
        assert(doc@ == spec_parsed_doc(input@));
    }
    validate(doc)
}

/// The full pipeline: parse, validate in legacy mode, and interpret.
pub fn parse_full(input: &str) -> (r: ApexResult<ExecutionPlan>)
    ensures
        match spec_validate(spec_parsed_doc(input@), ValidationMode::Legacy, None) {
            Ok(v) => r matches Ok(p) && p@ == spec_plan(v),
            Err(e) => r matches Err(err) && err@ == e,
        },
{
    let validated = match parse_and_validate(input) {
        Ok(v) => v,
        Err(e) => {
            return Err(e);
        },
    };
    build_execution_plan(&validated)
}

/// A document with exactly one non-empty TASK block and no other block
/// validates successfully under every mode and registry, and its execution
/// plan has no steps.
pub proof fn lemma_single_task_empty_plan(doc: DocV, mode: ValidationMode, reg: Option<RegV>)
    requires
        doc.blocks.len() == 1,
        doc.blocks[0].kind == BlockKind::Task,
        !spec_block_is_empty(doc.blocks[0]),
    ensures
        spec_validate(doc, mode, reg) is Ok,
        spec_plan((spec_validate(doc, mode, reg)->Ok_0)).steps.len() == 0,
{
    let b = doc.blocks[0];
    let blocks = doc.blocks;
    assert(blocks =~= seq![b]);
    proof_singleton_filter(blocks, b);
    let tasks = blocks_of_kind(blocks, BlockKind::Task);
    assert(tasks.len() == 1 && tasks[0] == b);
    lemma_singleton_other_kind(blocks, b, BlockKind::Tools);
    lemma_singleton_other_kind(blocks, b, BlockKind::Meta);
    lemma_singleton_other_kind(blocks, b, BlockKind::Plan);
    let v = (spec_validate(doc, mode, reg)->Ok_0);
    assert(v.plan is None);
    assert(spec_steps(v.plan, spec_tool_invs(v.tools)) =~= Seq::<interpreter::StepV>::empty());
}

proof fn lemma_singleton_other_kind(blocks: Seq<BlockV>, b: BlockV, kind: BlockKind)
    requires
        blocks =~= seq![b],
        b.kind != kind,
    ensures
        first_kind_idx(blocks, kind) == 1,
{
    let rest = blocks.drop_first();
    assert(rest =~= Seq::<BlockV>::empty());
    assert(first_kind_idx(rest, kind) == 0);
    assert(blocks[0] == b);
}

proof fn proof_singleton_filter(blocks: Seq<BlockV>, b: BlockV)
    requires
        blocks =~= seq![b],
        b.kind == BlockKind::Task,
    ensures
        blocks_of_kind(blocks, BlockKind::Task) =~= seq![b],
{
    reveal(Seq::filter);
    assert(blocks.drop_last() =~= Seq::<BlockV>::empty());
    assert(blocks.last() == b);
}

} // verus!
