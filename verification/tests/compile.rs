use symb_anafis::bytecode::compile::{compile_to_vir, CompileError, ConstRef};
use symb_anafis::bytecode::gvn::number_values;
use symb_anafis::bytecode::instruction::FnOp;
use symb_anafis::bytecode::vir::{VInstruction, VReg};
use symb_anafis::expr::Expr;
use symb_anafis::number::Num;

fn num(i: i64) -> Expr {
    Expr::number(Num::integer(i))
}

fn names(v: &[&str]) -> Vec<String> {
    v.iter().map(|s| s.to_string()).collect()
}

#[test]
fn square_plus_parameter_compiles_to_two_instructions() {
    let e = Expr::add_expr(Expr::pow_static(Expr::symbol("x"), num(2)), Expr::symbol("y"));
    let p = compile_to_vir(&e, &names(&["x", "y"]), &vec![]).unwrap();
    assert_eq!(
        p.instrs,
        vec![
            VInstruction::Square { dest: VReg::Temp(0), src: VReg::Param(0) },
            VInstruction::Add2 { dest: VReg::Temp(1), a: VReg::Temp(0), b: VReg::Param(1) },
        ]
    );
    assert_eq!(p.result, VReg::Temp(1));
    assert_eq!(p.pool, vec![ConstRef::Number(Num::integer(0)), ConstRef::Number(Num::integer(2))]);
    assert_eq!(p.next_temp, 2);
}

#[test]
fn constants_enter_the_pool_once_and_named_constants_by_position() {
    let e = Expr::product(vec![Expr::symbol("pi"), num(3), Expr::symbol("x"), num(3)]);
    let p = compile_to_vir(&e, &names(&["x"]), &names(&["e", "pi"])).unwrap();
    assert_eq!(
        p.pool,
        vec![ConstRef::Number(Num::integer(0)), ConstRef::Named(1), ConstRef::Number(Num::integer(3))]
    );
    // the factors that are not literals first, then the literals
    assert_eq!(
        p.instrs,
        vec![VInstruction::Mul {
            dest: VReg::Temp(0),
            srcs: vec![VReg::Const(1), VReg::Param(0), VReg::Const(2), VReg::Const(2)],
        }]
    );
}

#[test]
fn a_literal_one_factor_passes_the_other_on() {
    let e = Expr::mul_expr(num(1), Expr::symbol("x"));
    let p = compile_to_vir(&e, &names(&["x"]), &vec![]).unwrap();
    assert!(p.instrs.is_empty());
    assert_eq!(p.result, VReg::Param(0));
    let e = Expr::mul_expr(num(5), Expr::symbol("x"));
    let p = compile_to_vir(&e, &names(&["x"]), &vec![]).unwrap();
    assert_eq!(p.instrs, vec![VInstruction::Mul2 { dest: VReg::Temp(0), a: VReg::Const(1), b: VReg::Param(0) }]);
}

#[test]
fn functions_and_logarithms_pick_their_operations() {
    let e = Expr::func("log10", Expr::func("sin", Expr::symbol("t")));
    let p = compile_to_vir(&e, &names(&["t"]), &vec![]).unwrap();
    assert_eq!(
        p.instrs,
        vec![
            VInstruction::Builtin1 { dest: VReg::Temp(0), op: FnOp::Sin, arg: VReg::Param(0) },
            VInstruction::Builtin2 { dest: VReg::Temp(1), op: FnOp::Log, arg1: VReg::Const(1), arg2: VReg::Temp(0) },
        ]
    );
    let e = Expr::func("log", Expr::symbol("t"));
    let p = compile_to_vir(&e, &names(&["t"]), &vec![]).unwrap();
    assert_eq!(p.instrs, vec![VInstruction::Builtin1 { dest: VReg::Temp(0), op: FnOp::Ln, arg: VReg::Param(0) }]);
}

#[test]
fn exponents_choose_dedicated_instructions() {
    let half = Expr::number(Num::new(5, 1));
    let p = compile_to_vir(&Expr::pow_static(Expr::symbol("x"), half), &names(&["x"]), &vec![]).unwrap();
    assert_eq!(
        p.instrs,
        vec![VInstruction::BuiltinFun { dest: VReg::Temp(0), op: FnOp::Sqrt, args: vec![VReg::Param(0)] }]
    );
    let p = compile_to_vir(&Expr::pow_static(Expr::symbol("x"), num(7)), &names(&["x"]), &vec![]).unwrap();
    assert_eq!(p.instrs, vec![VInstruction::Powi { dest: VReg::Temp(0), src: VReg::Param(0), n: 7 }]);
    let p = compile_to_vir(&Expr::pow_static(Expr::symbol("x"), Expr::symbol("y")), &names(&["x", "y"]), &vec![]).unwrap();
    assert_eq!(p.instrs, vec![VInstruction::Pow { dest: VReg::Temp(0), base: VReg::Param(0), exp: VReg::Param(1) }]);
}

#[test]
fn unbound_symbols_unknown_functions_and_derivatives_are_refused() {
    let e = Expr::add_expr(Expr::symbol("x"), Expr::symbol("z"));
    assert!(matches!(compile_to_vir(&e, &names(&["x"]), &vec![]), Err(CompileError::UnboundVariable(s)) if s == "z"));
    let e = Expr::func("foo", Expr::symbol("x"));
    assert!(matches!(compile_to_vir(&e, &names(&["x"]), &vec![]), Err(CompileError::UnsupportedFunction(s)) if s == "foo"));
    let e = Expr::derivative(Expr::symbol("x"), "x", 1);
    assert!(matches!(compile_to_vir(&e, &names(&["x"]), &vec![]), Err(CompileError::UnsupportedExpression)));
    // the first failing node, children first, decides
    let e = Expr::func("foo", Expr::symbol("w"));
    assert!(matches!(compile_to_vir(&e, &names(&["x"]), &vec![]), Err(CompileError::UnboundVariable(s)) if s == "w"));
}

#[test]
fn a_repeated_parameter_name_reads_its_last_position() {
    let p = compile_to_vir(&Expr::symbol("x"), &names(&["x", "y", "x"]), &vec![]).unwrap();
    assert_eq!(p.result, VReg::Param(2));
}

#[test]
fn value_numbering_drops_repeats_and_renames_their_readers() {
    let t = VReg::Temp;
    let p = VReg::Param;
    let instrs = vec![
        VInstruction::Add2 { dest: t(0), a: p(0), b: p(1) },
        VInstruction::Add2 { dest: t(1), a: p(1), b: p(0) },
        VInstruction::Mul2 { dest: t(2), a: t(1), b: t(0) },
        VInstruction::Sub { dest: t(3), a: p(0), b: p(1) },
        VInstruction::Sub { dest: t(4), a: p(1), b: p(0) },
        VInstruction::Builtin1 { dest: t(5), op: FnOp::Sin, arg: t(1) },
        VInstruction::Builtin1 { dest: t(6), op: FnOp::Cos, arg: t(0) },
        VInstruction::Builtin1 { dest: t(7), op: FnOp::Sin, arg: t(0) },
    ];
    let (out, result) = number_values(instrs, Some(t(7)));
    assert_eq!(
        out,
        vec![
            VInstruction::Add2 { dest: t(0), a: p(0), b: p(1) },
            VInstruction::Mul2 { dest: t(2), a: t(0), b: t(0) },
            VInstruction::Sub { dest: t(3), a: p(0), b: p(1) },
            VInstruction::Sub { dest: t(4), a: p(1), b: p(0) },
            VInstruction::Builtin1 { dest: t(5), op: FnOp::Sin, arg: t(0) },
            VInstruction::Builtin1 { dest: t(6), op: FnOp::Cos, arg: t(0) },
        ]
    );
    assert_eq!(result, Some(t(5)));
}

#[test]
fn value_numbering_compares_sums_by_how_often_each_register_is_read() {
    let t = VReg::Temp;
    let p = VReg::Param;
    let instrs = vec![
        VInstruction::Add { dest: t(0), srcs: vec![p(0), p(1), p(0)] },
        VInstruction::Add { dest: t(1), srcs: vec![p(1), p(0), p(0)] },
        VInstruction::Add { dest: t(2), srcs: vec![p(1), p(1), p(0)] },
    ];
    let (out, result) = number_values(instrs, Some(t(1)));
    assert_eq!(out.len(), 2);
    assert_eq!(result, Some(t(0)));
}
