//! Textual emission: renders the intermediate representation as assembly
//! text. The platform decides only the label decoration and whether the
//! GNU-stack note trailer is appended; the instruction lines themselves are
//! platform-independent.

use vstd::prelude::*;

use crate::types::AsmAst;
use crate::types::AsmFunctionDefinition;
use crate::types::AsmFunctionDefinitionV;
use crate::types::Instruction;
use crate::types::Operand;
use crate::types::Platform;
use crate::types::spec_label;

verus! {

/// The decimal digit character for a value below ten.
pub open spec fn dec_digit(d: nat) -> char {
    if d == 0 {
        '0'
    } else if d == 1 {
        '1'
    } else if d == 2 {
        '2'
    } else if d == 3 {
        '3'
    } else if d == 4 {
        '4'
    } else if d == 5 {
        '5'
    } else if d == 6 {
        '6'
    } else if d == 7 {
        '7'
    } else if d == 8 {
        '8'
    } else {
        '9'
    }
}

/// The decimal rendering of a natural number, most significant digit first,
/// with no leading zeros (except for zero itself).
pub open spec fn dec_digits(n: nat) -> Seq<char>
    decreases n,
{
    if n < 10 {
        seq![dec_digit(n)]
    } else {
        dec_digits(n / 10) + seq![dec_digit(n % 10)]
    }
}

/// The decimal rendering of an integer: a minus sign before the digits of
/// the magnitude when negative.
pub open spec fn dec_int(i: int) -> Seq<char> {
    if i < 0 {
        seq!['-'] + dec_digits((-i) as nat)
    } else {
        dec_digits(i as nat)
    }
}

/// The one-character string for a decimal digit value.
fn digit_str(d: u32) -> (r: &'static str)
    requires
        d < 10,
    ensures
        r@ =~= seq![dec_digit(d as nat)],
{
    proof {
        reveal_strlit("0");
        reveal_strlit("1");
        reveal_strlit("2");
        reveal_strlit("3");
        reveal_strlit("4");
        reveal_strlit("5");
        reveal_strlit("6");
        reveal_strlit("7");
        reveal_strlit("8");
        reveal_strlit("9");
    }
    match d {
        0 => "0",
        1 => "1",
        2 => "2",
        3 => "3",
        4 => "4",
        5 => "5",
        6 => "6",
        7 => "7",
        8 => "8",
        _ => "9",
    }
}

fn append_u32_dec(out: &mut String, n: u32)
    ensures
        final(out)@ == old(out)@ + dec_digits(n as nat),
    decreases n,
{
    if n >= 10 {
        proof {
            assert(n / 10 < n) by (nonlinear_arith)
                requires
                    n >= 10,
            ;
        }
        append_u32_dec(out, n / 10);
    }
    let d = digit_str(n % 10);
    out.append(d);
    proof {
        if n < 10 {
            assert(n % 10 == n);
            assert(old(out)@ + seq![dec_digit(n as nat)] =~= final(out)@);
        } else {
            assert(old(out)@ + (dec_digits((n / 10) as nat) + seq![dec_digit((n % 10) as nat)])
                =~= (old(out)@ + dec_digits((n / 10) as nat)) + seq![dec_digit((n % 10) as nat)]);
        }
    }
}

fn append_i32_dec(out: &mut String, i: i32)
    ensures
        final(out)@ == old(out)@ + dec_int(i as int),
{
    if i < 0 {
        out.append("-");
        let neg: i64 = -(i as i64);
        let mag: u32 = neg as u32;
        append_u32_dec(out, mag);
        proof {
            reveal_strlit("-");
            assert("-"@ =~= seq!['-']);
            assert(old(out)@ + ("-"@ + dec_digits(mag as nat)) =~= (old(out)@ + "-"@)
                + dec_digits(mag as nat));
        }
    } else {
        append_u32_dec(out, i as u32);
    }
}

/// The text an operand renders to: the fixed accumulator register name, or
/// the immediate's value behind a literal-value marker.
pub open spec fn spec_show_operand(op: Operand) -> Seq<char> {
    match op {
        Operand::Register => "%eax"@,
        Operand::Imm(i) => "$"@ + dec_int(i as int),
    }
}

/// Renders one operand.
pub fn show_operand(operand: &Operand) -> (r: String)
    ensures
        r@ == spec_show_operand(*operand),
{
    match operand {
        Operand::Register => String::from_str("%eax"),
        Operand::Imm(i) => {
            let mut s = String::from_str("$");
            append_i32_dec(&mut s, *i);
            s
        },
    }
}

/// The line an instruction renders to, newline included.
pub open spec fn spec_instruction_text(instr: Instruction) -> Seq<char> {
    match instr {
        Instruction::Mov(src, dst) => "\tmovl "@ + spec_show_operand(src) + ", "@
            + spec_show_operand(dst) + "\n"@,
        Instruction::Ret => "\tret\n"@,
    }
}

/// The lines an instruction sequence renders to, in order.
pub open spec fn spec_instructions_text(instrs: Seq<Instruction>) -> Seq<char>
    decreases instrs.len(),
{
    if instrs.len() == 0 {
        Seq::<char>::empty()
    } else {
        spec_instructions_text(instrs.drop_last()) + spec_instruction_text(instrs.last())
    }
}

/// Appends the rendering of one instruction.
pub fn emit_instruction(out: &mut String, instr: &Instruction)
    ensures
        final(out)@ == old(out)@ + spec_instruction_text(*instr),
{
    match instr {
        Instruction::Mov(src, dst) => {
            let src_text = show_operand(src);
            let dst_text = show_operand(dst);
            out.append("\tmovl ");
            out.append(src_text.as_str());
            out.append(", ");
            out.append(dst_text.as_str());
            out.append("\n");
            proof {
                assert(final(out)@ =~= old(out)@ + spec_instruction_text(*instr));
            }
        },
        Instruction::Ret => {
            out.append("\tret\n");
        },
    }
}

/// The platform-dependent head of a rendered function: the declare-global
/// directive and the label line.
pub open spec fn spec_function_head(name: Seq<char>, p: Platform) -> Seq<char> {
    ".globl "@ + spec_label(p, name) + "\n"@ + spec_label(p, name) + ":\n"@
}

/// The text a whole function renders to.
pub open spec fn spec_function_text(f: AsmFunctionDefinitionV, p: Platform) -> Seq<char> {
    spec_function_head(f.name, p) + spec_instructions_text(f.instructions)
}

/// Appends the rendering of a whole function: head, then instruction lines.
pub fn emit_function(out: &mut String, func: &AsmFunctionDefinition, settings: &Platform)
    ensures
        final(out)@ == old(out)@ + spec_function_text(func@, *settings),
{
    let label = settings.show_label(func.name.as_str());
    out.append(".globl ");
    out.append(label.as_str());
    out.append("\n");
    out.append(label.as_str());
    out.append(":\n");
    proof {
        assert(out@ =~= old(out)@ + spec_function_head(func@.name, *settings));
    }
    let ghost head_done = out@;
    let n = func.instructions.len();
    let mut idx: usize = 0;
    while idx < n
        invariant
            n == func.instructions.len(),
            idx <= n,
            out@ == head_done + spec_instructions_text(func.instructions@.take(idx as int)),
        decreases n - idx,
    {
        emit_instruction(out, &func.instructions[idx]);
        proof {
            let taken = func.instructions@.take(idx as int + 1);
            assert(taken.drop_last() =~= func.instructions@.take(idx as int));
            assert(taken.last() == func.instructions@[idx as int]);
            assert(head_done + spec_instructions_text(taken) =~= (head_done
                + spec_instructions_text(taken.drop_last())) + spec_instruction_text(
                taken.last(),
            ));
        }
        idx = idx + 1;
    }
    proof {
        assert(func.instructions@.take(n as int) =~= func.instructions@);
        assert(final(out)@ =~= old(out)@ + spec_function_text(func@, *settings));
    }
}

/// The platform-dependent trailer: Linux appends the note directive that
/// disables the executable stack, OsX appends nothing.
pub open spec fn spec_stack_note(p: Platform) -> Seq<char> {
    match p {
        Platform::Linux => "\t.section .note.GNU-stack,\"\",@progbits\n"@,
        Platform::OsX => Seq::<char>::empty(),
    }
}

/// Appends the platform's trailer.
pub fn emit_stack_note(out: &mut String, settings: &Platform)
    ensures
        final(out)@ == old(out)@ + spec_stack_note(*settings),
{
    match settings {
        Platform::Linux => {
            out.append("\t.section .note.GNU-stack,\"\",@progbits\n");
        },
        Platform::OsX => {
            proof {
                assert(final(out)@ =~= old(out)@ + Seq::<char>::empty());
            }
        },
    }
}

/// The complete assembly text of a program on a platform.
pub open spec fn spec_emit(prog: AsmFunctionDefinitionV, p: Platform) -> Seq<char> {
    spec_function_text(prog, p) + spec_stack_note(p)
}

/// Renders a whole program as assembly text. Writing the text to a file is
/// the caller's business.
pub fn emit(program: &AsmAst, settings: &Platform) -> (r: String)
    ensures
        r@ == spec_emit(program@, *settings),
{
    let mut out = String::new();
    let function_def = match program {
        AsmAst::Program(fd) => fd,
    };
    emit_function(&mut out, function_def, settings);
    emit_stack_note(&mut out, settings);
    proof {
        assert(out@ =~= spec_emit(program@, *settings));
    }
    out
}

/// The platforms vary the emitted text only at its edges: for any function,
/// the two renderings share the same instruction lines, and differ only in
/// the head (label decoration) and in the trailer (present on Linux only,
/// absent on OsX).
pub proof fn lemma_emit_platform_variance(f: AsmFunctionDefinitionV)
    ensures
        spec_emit(f, Platform::Linux) == spec_function_head(f.name, Platform::Linux)
            + spec_instructions_text(f.instructions) + spec_stack_note(Platform::Linux),
        spec_emit(f, Platform::OsX) == spec_function_head(f.name, Platform::OsX)
            + spec_instructions_text(f.instructions),
{
    assert(spec_emit(f, Platform::Linux) =~= spec_function_head(f.name, Platform::Linux)
        + spec_instructions_text(f.instructions) + spec_stack_note(Platform::Linux));
    assert(spec_emit(f, Platform::OsX) =~= spec_function_head(f.name, Platform::OsX)
        + spec_instructions_text(f.instructions));
}

} // verus!
