use std::rc::Rc;
use unabs::machine::{new, SEither, State, StateFlag, Value};
use unabs::parse::parse_term;
use unabs::term::{app, Term};

fn run_to_end(state: State) -> (String, Rc<Value>) {
    let mut out: Vec<char> = Vec::new();
    match state.run(u64::MAX, &mut out) {
        SEither::V(v) => (out.iter().collect(), v),
        SEither::S(_) => panic!("the machine did not finish"),
    }
}

fn eval_text(src: &str) -> (String, String) {
    let term = match parse_term(src) {
        Ok(t) => t,
        Err(_) => panic!("parse error"),
    };
    let (out, v) = run_to_end(new(term));
    (out, v.to_text())
}

#[test]
fn identity_returns_argument() {
    assert_eq!(eval_text("`iv"), (String::new(), "v".to_string()));
    assert_eq!(eval_text("`i`ks"), (String::new(), "`ks".to_string()));
}

#[test]
fn constant_returns_first_argument() {
    assert_eq!(eval_text("``kvi"), (String::new(), "v".to_string()));
    assert_eq!(eval_text("``k`kis"), (String::new(), "`ki".to_string()));
}

#[test]
fn skk_is_identity() {
    assert_eq!(eval_text("```skkv"), (String::new(), "v".to_string()));
    assert_eq!(eval_text("```skk`kd"), (String::new(), "`kd".to_string()));
}

#[test]
fn output_passes_argument_through() {
    assert_eq!(eval_text("`.ai"), ("a".to_string(), "i".to_string()));
}

#[test]
fn output_chaining() {
    assert_eq!(eval_text("`.A.B"), ("A".to_string(), ".B".to_string()));
}

#[test]
fn newline_output() {
    assert_eq!(eval_text("`ri"), ("\n".to_string(), "i".to_string()));
    assert_eq!(eval_text("`.\ni"), ("\n".to_string(), "i".to_string()));
}

#[test]
fn capture_at_top_level() {
    assert_eq!(eval_text("`ci"), (String::new(), "`c()".to_string()));
}

#[test]
fn continuation_is_reusable() {
    // The chain captured under `.a` is resumed twice: once with the captured
    // continuation itself, once with `i`, so `.a` writes twice.
    assert_eq!(eval_text("``.a`cii"), ("aa".to_string(), "i".to_string()));
}

#[test]
fn delay_keeps_operand_unevaluated() {
    assert_eq!(eval_text("`d`.ai"), (String::new(), "`d[`.ai]".to_string()));
}

#[test]
fn delay_forces_on_application() {
    assert_eq!(eval_text("``d`.aiv"), ("a".to_string(), "v".to_string()));
}

#[test]
fn delay_forces_once() {
    // The promise is applied to itself, then to `v`: `.a` runs the first time
    // only.
    assert_eq!(eval_text("````sii`d`.aiv"), ("a".to_string(), "v".to_string()));
}

#[test]
fn delay_of_value() {
    // `d` applied by `s` to a reduced value delays nothing.
    assert_eq!(eval_text("```s`kdi.a"), (String::new(), "`d.a".to_string()));
}

#[test]
fn void_swallows_arguments() {
    assert_eq!(eval_text("``v.ai"), (String::new(), "v".to_string()));
}

#[test]
fn s_partial_applications() {
    assert_eq!(eval_text("`sk"), (String::new(), "`sk".to_string()));
    assert_eq!(eval_text("``ski"), (String::new(), "``ski".to_string()));
}

#[test]
fn step_reports_each_mode() {
    let term = app(Term::I, Term::V);
    let mut state = new(term);
    let mut out: Vec<char> = Vec::new();
    let mut flags: Vec<StateFlag> = Vec::new();
    let value = loop {
        flags.push(state.flag());
        match state.step(&mut out) {
            SEither::S(s) => state = s,
            SEither::V(v) => break v,
        }
    };
    assert!(flags[0] == StateFlag::Eval);
    assert!(flags.contains(&StateFlag::ApplyT));
    assert!(flags.contains(&StateFlag::ApplyV));
    assert!(flags[flags.len() - 1] == StateFlag::ApplyK);
    assert_eq!(value.to_text(), "v");
    assert!(out.is_empty());
}

#[test]
fn extract_only_when_finished() {
    let state = new(Term::K);
    assert!(state.extract().is_none());
    let mut out: Vec<char> = Vec::new();
    let state = match state.step(&mut out) {
        SEither::S(s) => s,
        SEither::V(_) => panic!("finished too early"),
    };
    match state.extract() {
        Some(v) => assert_eq!(v.to_text(), "k"),
        None => panic!("the machine should be finished"),
    }
}

#[test]
fn run_stops_when_fuel_runs_out() {
    // ``sii``sii loops for ever.
    let term = match parse_term("```sii``sii") {
        Ok(t) => t,
        Err(_) => panic!("parse error"),
    };
    let mut out: Vec<char> = Vec::new();
    match new(term).run(1000, &mut out) {
        SEither::S(s) => {
            let mut more: Vec<char> = Vec::new();
            assert!(matches!(s.run(1000, &mut more), SEither::S(_)));
        }
        SEither::V(_) => panic!("the loop finished"),
    }
    assert!(out.is_empty());
}

#[test]
fn run_with_zero_fuel_on_fresh_state() {
    let mut out: Vec<char> = Vec::new();
    match new(Term::I).run(0, &mut out) {
        SEither::S(s) => assert!(s.flag() == StateFlag::Eval),
        SEither::V(_) => panic!("no step was allowed"),
    }
}

#[test]
fn render_shows_registers() {
    let state = new(app(Term::I, Term::V));
    assert_eq!(state.render(), "State: Eval\nTerm: [`iv]\nKont: ()");
    let mut out: Vec<char> = Vec::new();
    let state = match state.step(&mut out) {
        SEither::S(s) => s,
        SEither::V(_) => panic!("finished too early"),
    };
    assert_eq!(state.render(), "State: Eval\nTerm: [i]\nKont: `()[v]");
}

#[test]
fn capture_cost_does_not_grow_with_depth() {
    // Thousands of captures, each under a chain of thousands of frames.
    let ci = Rc::new(app(Term::C, Term::I));
    let mut inner = ci;
    for _ in 0..13 {
        let left = Rc::new(Term::App(Rc::new(Term::K), inner.clone()));
        inner = Rc::new(Term::App(left, inner));
    }
    let mut term = inner;
    for _ in 0..5000 {
        term = Rc::new(Term::App(Rc::new(Term::I), term));
    }
    let start = std::time::Instant::now();
    let mut out: Vec<char> = Vec::new();
    let state = new(Term::App(Rc::new(Term::I), term));
    let v = match state.run(u64::MAX, &mut out) {
        SEither::V(v) => v,
        SEither::S(_) => panic!("the machine did not finish"),
    };
    assert!(matches!(*v, Value::C1(_)));
    assert!(start.elapsed().as_secs() < 10);
}
