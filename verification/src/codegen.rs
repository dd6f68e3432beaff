//! Lowering from the abstract syntax tree to the intermediate
//! representation. Lowering is total over well-formed trees and a pure
//! function of its input: each construct translates one-to-one, and the
//! instruction list of every lowered function ends in `Ret`.

use vstd::prelude::*;

use crate::types::AsmAst;
use crate::types::AsmFunctionDefinition;
use crate::types::AsmFunctionDefinitionV;
use crate::types::Ast;
use crate::types::Exp;
use crate::types::FunctionDefinition;
use crate::types::FunctionDefinitionV;
use crate::types::Instruction;
use crate::types::Operand;
use crate::types::Statement;

verus! {

/// The operand an expression lowers to: a constant becomes an immediate
/// carrying the same value.
pub open spec fn spec_convert_exp(e: Exp) -> Operand {
    match e {
        Exp::Constant(i) => Operand::Imm(i),
    }
}

/// The instructions a statement lowers to: `return «e»` becomes a move of
/// the lowered expression into the return-value register, then `Ret`.
pub open spec fn spec_convert_statement(s: Statement) -> Seq<Instruction> {
    match s {
        Statement::Return(e) => seq![
            Instruction::Mov(spec_convert_exp(e), Operand::Register),
            Instruction::Ret,
        ],
    }
}

/// The function a syntax-tree function lowers to: the same name, and the
/// instructions of its body.
pub open spec fn spec_gen(fd: FunctionDefinitionV) -> AsmFunctionDefinitionV {
    AsmFunctionDefinitionV { name: fd.name, instructions: spec_convert_statement(fd.body) }
}

/// The invariant of the intermediate representation holds of everything
/// lowering produces: the instruction list is never empty, and its last
/// instruction is always `Ret`.
pub proof fn lemma_gen_ends_in_ret(fd: FunctionDefinitionV)
    ensures
        spec_gen(fd).instructions.len() > 0,
        spec_gen(fd).instructions.last() == Instruction::Ret,
{
}

fn convert_exp(exp: Exp) -> (r: Operand)
    ensures
        r == spec_convert_exp(exp),
{
    match exp {
        Exp::Constant(i) => Operand::Imm(i),
    }
}

fn convert_statement(stmt: Statement) -> (r: Vec<Instruction>)
    ensures
        r@ == spec_convert_statement(stmt),
{
    let Statement::Return(exp) = stmt;
    let v = convert_exp(exp);
    let r = vec![Instruction::Mov(v, Operand::Register), Instruction::Ret];
    proof {
        assert(r@ =~= spec_convert_statement(stmt));
    }
    r
}

fn convert_function(fun: FunctionDefinition) -> (r: AsmFunctionDefinition)
    ensures
        r@ == spec_gen(fun@),
{
    let FunctionDefinition { name, body } = fun;
    let instructions = convert_statement(body);
    AsmFunctionDefinition { name, instructions }
}

/// Lowers a whole program. The result is fully determined by the input:
/// lowering the same tree twice yields structurally identical output.
pub fn gen(program: Ast) -> (r: AsmAst)
    ensures
        r@ == spec_gen(program@),
{
    let Ast::Program(fn_def) = program;
    let function = convert_function(fn_def);
    AsmAst::Program(function)
}

} // verus!
