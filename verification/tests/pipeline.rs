use nqcc::codegen::gen;
use nqcc::compile::compile;
use nqcc::compile::CompileError;
use nqcc::emit::emit;
use nqcc::lex::lex;
use nqcc::lex::LexErrorKind;
use nqcc::parse::parse;
use nqcc::parse::Expected;
use nqcc::types::AsmAst;
use nqcc::types::AsmFunctionDefinition;
use nqcc::types::Instruction;
use nqcc::types::Operand;
use nqcc::types::Platform;
use nqcc::types::Stage;

fn minimal_ast() -> nqcc::types::Ast {
    let tokens = lex("int main(void){return 2;}").unwrap();
    parse(&tokens).unwrap()
}

#[test]
fn lowering_minimal_program() {
    let lowered = gen(minimal_ast());
    let AsmAst::Program(fd) = lowered;
    assert_eq!(fd.name, String::from("main"));
    assert_eq!(
        fd.instructions,
        vec![
            Instruction::Mov(Operand::Imm(2), Operand::Register),
            Instruction::Ret,
        ]
    );
}

#[test]
fn lowering_deterministic() {
    let AsmAst::Program(fd1) = gen(minimal_ast());
    let AsmAst::Program(fd2) = gen(minimal_ast());
    assert_eq!(fd1.name, fd2.name);
    assert_eq!(fd1.instructions, fd2.instructions);
}

#[test]
fn emission_platform_variance() {
    let linux = emit(&gen(minimal_ast()), &Platform::Linux);
    let osx = emit(&gen(minimal_ast()), &Platform::OsX);
    let linux_lines: Vec<&str> = linux.lines().collect();
    let osx_lines: Vec<&str> = osx.lines().collect();
    assert_eq!(
        linux_lines,
        vec![
            ".globl main",
            "main:",
            "\tmovl $2, %eax",
            "\tret",
            "\t.section .note.GNU-stack,\"\",@progbits",
        ]
    );
    assert_eq!(
        osx_lines,
        vec![".globl _main", "_main:", "\tmovl $2, %eax", "\tret"]
    );
    // The instruction lines are identical on both platforms.
    assert_eq!(&linux_lines[2..4], &osx_lines[2..4]);
}

#[test]
fn show_label_decoration() {
    assert_eq!(Platform::OsX.show_label("main"), String::from("_main"));
    assert_eq!(Platform::Linux.show_label("main"), String::from("main"));
}

#[test]
fn emit_negative_immediate() {
    let fd = AsmFunctionDefinition {
        name: String::from("main"),
        instructions: vec![
            Instruction::Mov(Operand::Imm(-5), Operand::Register),
            Instruction::Ret,
        ],
    };
    let text = emit(&AsmAst::Program(fd), &Platform::Linux);
    assert!(text.contains("\tmovl $-5, %eax\n"));
}

#[test]
fn end_to_end_linux() {
    let out = compile(
        &Stage::Codegen,
        "int main(void){ return 42; }",
        &Platform::Linux,
    )
    .unwrap();
    let text = out.unwrap();
    assert_eq!(
        text,
        ".globl main\nmain:\n\tmovl $42, %eax\n\tret\n\t.section .note.GNU-stack,\"\",@progbits\n"
    );
    // The required pieces stand in order: the directive, the label, the
    // move of the immediate into the accumulator, the return, the note.
    let globl = text.find(".globl main").unwrap();
    let label = text.find("main:").unwrap();
    let mov = text.find("movl $42, %eax").unwrap();
    let ret = text.find("\tret").unwrap();
    let note = text.find(".note.GNU-stack").unwrap();
    assert!(globl < label && label < mov && mov < ret && ret < note);
}

#[test]
fn end_to_end_osx() {
    let out = compile(
        &Stage::Codegen,
        "int main(void){ return 0; }",
        &Platform::OsX,
    )
    .unwrap();
    let text = out.unwrap();
    assert_eq!(text, ".globl _main\n_main:\n\tmovl $0, %eax\n\tret\n");
}

#[test]
fn compile_lex_stage_discards_output() {
    let out = compile(&Stage::Lex, "int main(void){return 2;}", &Platform::Linux).unwrap();
    assert_eq!(out, None);
}

#[test]
fn compile_parse_stage_discards_output() {
    let out = compile(&Stage::Parse, "int main(void){return 2;}", &Platform::Linux).unwrap();
    assert_eq!(out, None);
}

#[test]
fn compile_reports_lex_error() {
    let err = compile(&Stage::Lex, "1x", &Platform::Linux).unwrap_err();
    match err {
        CompileError::Lex(e) => assert_eq!(e.kind, LexErrorKind::MalformedConstant),
        CompileError::Parse(_) => panic!("expected a lexing failure"),
    }
}

#[test]
fn compile_reports_parse_error() {
    let err = compile(
        &Stage::Parse,
        "int main(void){return 2;};",
        &Platform::Linux,
    )
    .unwrap_err();
    match err {
        CompileError::Parse(e) => assert!(matches!(e.expected, Expected::EndOfFile)),
        CompileError::Lex(_) => panic!("expected a parse failure"),
    }
}
