use automata::dsl::{
    alive, and, const_u32, equal, gt, gte, if_then_else, lt, lte, neighbors, or, set_result, void,
    Expr, Statement,
};
use automata::kernel::{compile_kernel, kernel_source, KERNEL_HEAD, KERNEL_TAIL};

fn classic_rule() -> Statement {
    if_then_else(
        or(
            equal(neighbors(), const_u32(3)),
            and(equal(neighbors(), const_u32(2)), equal(alive(), const_u32(1))),
        ),
        set_result(const_u32(1)),
        set_result(const_u32(0)),
    )
}

#[test]
fn leaves_compile_to_their_names() {
    assert_eq!(const_u32(0).to_shader(), "0u");
    assert_eq!(const_u32(3).to_shader(), "3u");
    assert_eq!(const_u32(4294967295).to_shader(), "4294967295u");
    assert_eq!(const_u32(1024).to_shader(), "1024u");
    assert_eq!(alive().to_shader(), "is_alive");
    assert_eq!(neighbors().to_shader(), "num_neighbors");
}

#[test]
fn comparisons_compile_to_zero_one_values() {
    assert_eq!(gt(neighbors(), const_u32(2)).to_shader(), "u32((num_neighbors) > (2u))");
    assert_eq!(gte(neighbors(), const_u32(2)).to_shader(), "u32((num_neighbors) >= (2u))");
    assert_eq!(lt(neighbors(), const_u32(2)).to_shader(), "u32((num_neighbors) < (2u))");
    assert_eq!(lte(neighbors(), const_u32(2)).to_shader(), "u32((num_neighbors) <= (2u))");
    assert_eq!(equal(alive(), const_u32(1)).to_shader(), "u32((is_alive) == (1u))");
}

#[test]
fn logic_compiles_to_bitwise_operators() {
    assert_eq!(and(alive(), const_u32(1)).to_shader(), "((is_alive) & (1u))");
    assert_eq!(or(alive(), neighbors()).to_shader(), "((is_alive) | (num_neighbors))");
    assert_eq!(
        and(gt(neighbors(), const_u32(1)), lt(neighbors(), const_u32(4))).to_shader(),
        "((u32((num_neighbors) > (1u))) & (u32((num_neighbors) < (4u))))"
    );
}

#[test]
fn statements_compile() {
    assert_eq!(void().to_shader(), "");
    assert_eq!(set_result(alive()).to_shader(), "result = is_alive;");
    assert_eq!(
        if_then_else(equal(neighbors(), const_u32(3)), set_result(const_u32(1)), void())
            .to_shader(),
        "if ((u32((num_neighbors) == (3u))) != 0u) { result = 1u; } else {  }"
    );
    assert_eq!(
        classic_rule().to_shader(),
        "if ((((u32((num_neighbors) == (3u))) | (((u32((num_neighbors) == (2u))) & \
         (u32((is_alive) == (1u))))))) != 0u) { result = 1u; } else { result = 0u; }"
    );
}

#[test]
fn compiling_twice_gives_identical_text() {
    let rule = classic_rule();
    assert_eq!(rule.to_shader(), rule.to_shader());
    let copy = rule.clone();
    assert_eq!(rule.to_shader(), copy.to_shader());
    assert_eq!(compile_kernel(&rule), compile_kernel(&copy));
    let e = or(gt(alive(), neighbors()), const_u32(7));
    assert_eq!(e.to_shader(), e.clone().to_shader());
}

#[test]
fn kernel_is_template_around_rule() {
    let text = kernel_source("result = 1u;");
    assert_eq!(text, format!("{}result = 1u;{}", KERNEL_HEAD, KERNEL_TAIL));
    let rule = classic_rule();
    let kernel = compile_kernel(&rule);
    assert!(kernel.starts_with(KERNEL_HEAD));
    assert!(kernel.ends_with(KERNEL_TAIL));
    assert_eq!(
        &kernel[KERNEL_HEAD.len()..kernel.len() - KERNEL_TAIL.len()],
        rule.to_shader().as_str()
    );
}

#[test]
fn expressions_evaluate_on_zero_one_domain() {
    assert_eq!(const_u32(9).eval(0, 0), 9);
    assert_eq!(alive().eval(1, 5), 1);
    assert_eq!(neighbors().eval(1, 5), 5);
    assert_eq!(gt(neighbors(), const_u32(2)).eval(0, 3), 1);
    assert_eq!(gt(neighbors(), const_u32(3)).eval(0, 3), 0);
    assert_eq!(gte(neighbors(), const_u32(3)).eval(0, 3), 1);
    assert_eq!(lt(neighbors(), const_u32(3)).eval(0, 3), 0);
    assert_eq!(lte(neighbors(), const_u32(3)).eval(0, 3), 1);
    assert_eq!(equal(neighbors(), const_u32(3)).eval(0, 3), 1);
    assert_eq!(and(const_u32(6), const_u32(3)).eval(0, 0), 2);
    assert_eq!(or(const_u32(6), const_u32(3)).eval(0, 0), 7);
}

#[test]
fn classic_rule_decides_like_life() {
    let rule = classic_rule();
    for n in 0..27u32 {
        let born = rule.run(0, n, 0);
        let kept = rule.run(1, n, 0);
        assert_eq!(born, if n == 3 { 1 } else { 0 });
        assert_eq!(kept, if n == 2 || n == 3 { 1 } else { 0 });
    }
}

#[test]
fn statements_run() {
    assert_eq!(void().run(1, 3, 7), 7);
    assert_eq!(set_result(neighbors()).run(1, 3, 7), 3);
    let s = if_then_else(alive(), set_result(const_u32(5)), void());
    assert_eq!(s.run(1, 0, 9), 5);
    assert_eq!(s.run(0, 0, 9), 9);
}

#[test]
fn missing_assignment_is_detected() {
    assert!(classic_rule().sets_result_on_every_path());
    assert!(set_result(alive()).sets_result_on_every_path());
    assert!(!void().sets_result_on_every_path());
    let partial = if_then_else(alive(), set_result(const_u32(1)), void());
    assert!(!partial.sets_result_on_every_path());
}

#[test]
fn constructors_build_the_tree() {
    assert!(matches!(const_u32(4), Expr::U32(4)));
    assert!(matches!(alive(), Expr::Alive));
    assert!(matches!(neighbors(), Expr::Neighbors));
    assert!(matches!(gt(alive(), neighbors()), Expr::Gt(_, _)));
    assert!(matches!(void(), Statement::Void));
    assert!(matches!(set_result(alive()), Statement::SetResult(Expr::Alive)));
}
