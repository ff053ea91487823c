use vstd::prelude::*;
use std::rc::Rc;
use crate::term::Term;

verus! {

/// What reducing a term gives.
///
/// Composite values hold their parts through `Rc`: a value may be referenced
/// from a register and from continuation frames at once, and is never
/// changed after it is built.
pub enum Value {
    I0,
    S0,
    K0,
    V0,
    D0,
    C0,
    Put0(char),
    S1(Rc<Value>),
    S2(Rc<Value>, Rc<Value>),
    K1(Rc<Value>),
    /// `d` applied to a term that was not evaluated; the `usize` names the
    /// slot of the machine's memo store that keeps the forced function.
    D1T(usize, Rc<Term>),
    /// `d` applied to a value that was already reduced.
    D1V(Rc<Value>),
    /// A captured continuation.
    C1(Option<Rc<Kont>>),
}

/// A frame of pending work, linked to the rest of the chain.
///
/// Frames are never changed after they are built, so a chain can be shared by
/// any number of captured continuations: capturing costs one `Rc` handle.
pub enum Kont {
    /// The right operand of an application is still to be evaluated.
    BindT(Rc<Term>, Option<Rc<Kont>>),
    /// The function is known; its argument is being evaluated.
    BindV(Rc<Value>, Option<Rc<Kont>>),
    /// The argument is known; the function (a forced promise) is being evaluated.
    BindW(Rc<Value>, Option<Rc<Kont>>),
    /// `s` waits for its first branch: holds the second branch and the argument.
    SWait(Rc<Value>, Rc<Value>, Option<Rc<Kont>>),
    /// The result being returned is the forced value of a promise slot.
    Memo(usize, Option<Rc<Kont>>),
}

/// The registers of the machine: one of four modes.
pub enum Mode {
    Eval(Rc<Term>, Option<Rc<Kont>>),
    ApplyT(Rc<Value>, Rc<Term>, Option<Rc<Kont>>),
    ApplyV(Rc<Value>, Rc<Value>, Option<Rc<Kont>>),
    ApplyK(Option<Rc<Kont>>, Rc<Value>),
}

/// Which of the four modes a state is in.
#[derive(PartialEq, Eq, Structural)]
pub enum StateFlag {
    Eval,
    ApplyT,
    ApplyV,
    ApplyK,
}

/// A running machine: its registers, and the memo store of forced promises.
pub struct State {
    mode: Mode,
    store: Vec<Option<Rc<Value>>>,
}

/// The mathematical model of a machine state.
pub struct Machine {
    pub mode: Mode,
    pub store: Seq<Option<Rc<Value>>>,
}

/// What one step of the machine gives: the next state, or the final value.
pub enum SEither {
    S(State),
    V(Rc<Value>),
}

impl View for State {
    type V = Machine;

    closed spec fn view(&self) -> Machine {
        Machine { mode: self.mode, store: self.store@ }
    }
}

// ---------------------------------------------------------------------------
// The transition relation

/// The value of a primitive term; an application has none.
pub open spec fn prim_value(t: Term) -> Value {
    match t {
        Term::I => Value::I0,
        Term::S => Value::S0,
        Term::K => Value::K0,
        Term::V => Value::V0,
        Term::D => Value::D0,
        Term::C => Value::C0,
        Term::R => Value::Put0('\n'),
        Term::Put(c) => Value::Put0(c),
        Term::App(_, _) => Value::I0,
    }
}

pub open spec fn push(f: Kont) -> Option<Rc<Kont>> {
    Some(Rc::new(f))
}

pub open spec fn eval_spec(t: Rc<Term>, k: Option<Rc<Kont>>) -> Mode {
    match *t {
        Term::App(a, b) => Mode::Eval(a, push(Kont::BindT(b, k))),
        _ => Mode::ApplyK(k, Rc::new(prim_value(*t))),
    }
}

/// The combinator rule table: the function value `f` applied to `w`.
pub open spec fn apply_v_spec(
    f: Rc<Value>,
    w: Rc<Value>,
    k: Option<Rc<Kont>>,
    store: Seq<Option<Rc<Value>>>,
) -> Mode {
    match *f {
        Value::I0 => Mode::ApplyK(k, w),
        Value::Put0(_) => Mode::ApplyK(k, w),
        Value::K0 => Mode::ApplyK(k, Rc::new(Value::K1(w))),
        Value::K1(x) => Mode::ApplyK(k, x),
        Value::V0 => Mode::ApplyK(k, f),
        Value::C0 => Mode::ApplyV(w, Rc::new(Value::C1(k)), k),
        Value::C1(k0) => Mode::ApplyK(k0, w),
        Value::D0 => Mode::ApplyK(k, Rc::new(Value::D1V(w))),
        Value::D1T(id, t) => match store[id as int] {
            Some(g) => Mode::ApplyV(g, w, k),
            None => Mode::Eval(t, push(Kont::Memo(id, push(Kont::BindW(w, k))))),
        },
        Value::D1V(g) => Mode::ApplyV(g, w, k),
        Value::S0 => Mode::ApplyK(k, Rc::new(Value::S1(w))),
        Value::S1(x) => Mode::ApplyK(k, Rc::new(Value::S2(x, w))),
        Value::S2(x, y) => Mode::ApplyV(x, w, push(Kont::SWait(y, w, k))),
    }
}

/// A machine whose continuation is exhausted in resume mode is finished.
pub open spec fn is_final(m: Machine) -> bool {
    m.mode matches Mode::ApplyK(None, _)
}

/// The final value of a finished machine.
pub open spec fn final_value(m: Machine) -> Rc<Value> {
    match m.mode {
        Mode::ApplyK(_, w) => w,
        _ => Rc::new(Value::I0),
    }
}

/// One transition. A finished machine stays as it is.
pub open spec fn next(m: Machine) -> Machine {
    match m.mode {
        Mode::Eval(t, k) => Machine { mode: eval_spec(t, k), store: m.store },
        Mode::ApplyT(f, t, k) => match *f {
            Value::D0 => Machine {
                mode: Mode::ApplyK(k, Rc::new(Value::D1T(m.store.len() as usize, t))),
                store: m.store.push(None),
            },
            _ => Machine { mode: Mode::Eval(t, push(Kont::BindV(f, k))), store: m.store },
        },
        Mode::ApplyV(f, w, k) => Machine { mode: apply_v_spec(f, w, k, m.store), store: m.store },
        Mode::ApplyK(None, _) => m,
        Mode::ApplyK(Some(fr), w) => match *fr {
            Kont::BindT(t, rest) => Machine { mode: Mode::ApplyT(w, t, rest), store: m.store },
            Kont::BindV(f, rest) => Machine { mode: Mode::ApplyV(f, w, rest), store: m.store },
            Kont::BindW(x, rest) => Machine { mode: Mode::ApplyV(w, x, rest), store: m.store },
            Kont::SWait(g, x, rest) => Machine {
                mode: Mode::ApplyV(g, x, push(Kont::BindV(w, rest))),
                store: m.store,
            },
            Kont::Memo(id, rest) => Machine {
                mode: Mode::ApplyK(rest, w),
                store: m.store.update(id as int, Some(w)),
            },
        },
    }
}

/// The characters that the transition out of `m` writes: one for an output
/// primitive applied to a value, none otherwise.
pub open spec fn emits(m: Machine) -> Seq<char> {
    match m.mode {
        Mode::ApplyV(f, _, _) => match *f {
            Value::Put0(c) => seq![c],
            _ => Seq::empty(),
        },
        _ => Seq::empty(),
    }
}

/// The machine after `n` transitions.
pub open spec fn steps(m: Machine, n: nat) -> Machine
    decreases n,
{
    if n == 0 {
        m
    } else {
        steps(next(m), (n - 1) as nat)
    }
}

/// What `n` transitions write, in order.
pub open spec fn output(m: Machine, n: nat) -> Seq<char>
    decreases n,
{
    if n == 0 {
        Seq::empty()
    } else {
        emits(m) + output(next(m), (n - 1) as nat)
    }
}

/// The number of transitions, at most `n`, that running `m` takes: it stops at
/// the first finished machine.
pub open spec fn run_len(m: Machine, n: nat) -> nat
    decreases n,
{
    if is_final(m) || n == 0 {
        0
    } else {
        1 + run_len(next(m), (n - 1) as nat)
    }
}

// ---------------------------------------------------------------------------
// Well-formedness: every promise slot named in the state exists.

pub open spec fn wf_value(v: Value, n: nat) -> bool
    decreases v,
{
    match v {
        Value::S1(a) => wf_value(*a, n),
        Value::S2(a, b) => wf_value(*a, n) && wf_value(*b, n),
        Value::K1(a) => wf_value(*a, n),
        Value::D1T(id, _) => id < n,
        Value::D1V(a) => wf_value(*a, n),
        Value::C1(k) => wf_kont(k, n),
        _ => true,
    }
}

pub open spec fn wf_kont(k: Option<Rc<Kont>>, n: nat) -> bool
    decreases k,
{
    match k {
        None => true,
        Some(f) => match *f {
            Kont::BindT(_, r) => wf_kont(r, n),
            Kont::BindV(v, r) => wf_value(*v, n) && wf_kont(r, n),
            Kont::BindW(v, r) => wf_value(*v, n) && wf_kont(r, n),
            Kont::SWait(a, b, r) => wf_value(*a, n) && wf_value(*b, n) && wf_kont(r, n),
            Kont::Memo(id, r) => id < n && wf_kont(r, n),
        },
    }
}

pub open spec fn wf_mode(m: Mode, n: nat) -> bool {
    match m {
        Mode::Eval(_, k) => wf_kont(k, n),
        Mode::ApplyT(v, _, k) => wf_value(*v, n) && wf_kont(k, n),
        Mode::ApplyV(v, w, k) => wf_value(*v, n) && wf_value(*w, n) && wf_kont(k, n),
        Mode::ApplyK(k, w) => wf_value(*w, n) && wf_kont(k, n),
    }
}

pub open spec fn wf_store(s: Seq<Option<Rc<Value>>>) -> bool {
    forall|i: int|
        0 <= i < s.len() && #[trigger] s[i] is Some ==> wf_value(*s[i]->Some_0, s.len())
}

/// A machine is well formed when every promise slot that its registers, its
/// continuation or its store name exists.
pub open spec fn wf(m: Machine) -> bool {
    &&& wf_mode(m.mode, m.store.len())
    &&& wf_store(m.store)
    &&& m.store.len() <= usize::MAX
}

proof fn lemma_wf_value_mono(v: &Value, n: nat, m: nat)
    requires
        wf_value(*v, n),
        n <= m,
    ensures
        wf_value(*v, m),
    decreases v,
{
    match v {
        Value::S1(a) => lemma_wf_value_mono(&**a, n, m),
        Value::S2(a, b) => {
            lemma_wf_value_mono(&**a, n, m);
            lemma_wf_value_mono(&**b, n, m);
        },
        Value::K1(a) => lemma_wf_value_mono(&**a, n, m),
        Value::D1V(a) => lemma_wf_value_mono(&**a, n, m),
        Value::C1(k) => lemma_wf_kont_mono(k, n, m),
        _ => {},
    }
}

proof fn lemma_wf_kont_mono(k: &Option<Rc<Kont>>, n: nat, m: nat)
    requires
        wf_kont(*k, n),
        n <= m,
    ensures
        wf_kont(*k, m),
    decreases k,
{
    match k {
        None => {},
        Some(f) => match &**f {
            Kont::BindT(_, r) => lemma_wf_kont_mono(r, n, m),
            Kont::BindV(v, r) => {
                lemma_wf_value_mono(&**v, n, m);
                lemma_wf_kont_mono(r, n, m);
            },
            Kont::BindW(v, r) => {
                lemma_wf_value_mono(&**v, n, m);
                lemma_wf_kont_mono(r, n, m);
            },
            Kont::SWait(a, b, r) => {
                lemma_wf_value_mono(&**a, n, m);
                lemma_wf_value_mono(&**b, n, m);
                lemma_wf_kont_mono(r, n, m);
            },
            Kont::Memo(_, r) => lemma_wf_kont_mono(r, n, m),
        },
    }
}

proof fn lemma_wf_store_push(s: Seq<Option<Rc<Value>>>)
    requires
        wf_store(s),
    ensures
        wf_store(s.push(None)),
{
    let s2 = s.push(None);
    assert forall|i: int| 0 <= i < s2.len() && #[trigger] s2[i] is Some implies wf_value(
        *s2[i]->Some_0,
        s2.len(),
    ) by {
        if i == s.len() {
            assert(s2[i] is None);
        } else {
            assert(s2[i] == s[i]);
            lemma_wf_value_mono(&*s[i]->Some_0, s.len(), s2.len());
        }
    }
}

proof fn lemma_wf_store_update(s: Seq<Option<Rc<Value>>>, id: int, w: Rc<Value>)
    requires
        wf_store(s),
        wf_value(*w, s.len()),
        0 <= id < s.len(),
    ensures
        wf_store(s.update(id, Some(w))),
{
    let s2 = s.update(id, Some(w));
    assert forall|i: int| 0 <= i < s2.len() && #[trigger] s2[i] is Some implies wf_value(
        *s2[i]->Some_0,
        s2.len(),
    ) by {
        if i != id {
            assert(s2[i] == s[i]);
        }
    }
}

/// Every transition keeps the registers and the store well formed.
pub proof fn lemma_next_wf(m: Machine)
    requires
        wf(m),
    ensures
        wf_mode(next(m).mode, next(m).store.len()),
        wf_store(next(m).store),
        next(m).store.len() <= m.store.len() + 1,
{
    let n = m.store.len();
    match &m.mode {
        Mode::ApplyT(f, _, k) => {
            if let Value::D0 = &**f {
                lemma_wf_kont_mono(k, n, n + 1);
                lemma_wf_store_push(m.store);
            }
        },
        Mode::ApplyV(f, w, k) => {
            if let Value::D1T(id, _) = &**f {
                let slot = m.store[*id as int];
                if slot is Some {
                    assert(wf_value(*slot->Some_0, n));
                } else {
                    assert(wf_kont(push(Kont::BindW(*w, *k)), n));
                }
            }
        },
        Mode::ApplyK(Some(fr), w) => {
            if let Kont::Memo(id, _) = &**fr {
                lemma_wf_store_update(m.store, *id as int, *w);
            }
        },
        _ => {},
    }
}

proof fn lemma_steps_next(m: Machine, n: nat)
    ensures
        steps(m, n + 1) == next(steps(m, n)),
        output(m, n + 1) == output(m, n) + emits(steps(m, n)),
    decreases n,
{
    if n > 0 {
        lemma_steps_next(next(m), (n - 1) as nat);
        assert(steps(m, n + 1) == steps(next(m), n));
        assert(steps(m, n) == steps(next(m), (n - 1) as nat));
        assert(output(m, n + 1) == emits(m) + output(next(m), n));
        assert(output(m, n) == emits(m) + output(next(m), (n - 1) as nat));
        assert(output(m, n + 1) =~= output(m, n) + emits(steps(m, n)));
    } else {
        assert(output(m, 1) =~= emits(m) + output(next(m), 0));
        assert(output(m, 1) =~= output(m, 0) + emits(steps(m, 0)));
    }
}

// ---------------------------------------------------------------------------
// The transitions, executed

/// Another handle on the same chain: capturing a continuation costs this and
/// nothing more.
fn share(k: &Option<Rc<Kont>>) -> (r: Option<Rc<Kont>>)
    ensures
        r == *k,
{
    match k {
        Some(f) => Some(f.clone()),
        None => None,
    }
}

fn eval(t: Rc<Term>, k: Option<Rc<Kont>>) -> (r: Mode)
    ensures
        r == eval_spec(t, k),
{
    match &*t {
        Term::I => Mode::ApplyK(k, Rc::new(Value::I0)),
        Term::S => Mode::ApplyK(k, Rc::new(Value::S0)),
        Term::K => Mode::ApplyK(k, Rc::new(Value::K0)),
        Term::V => Mode::ApplyK(k, Rc::new(Value::V0)),
        Term::D => Mode::ApplyK(k, Rc::new(Value::D0)),
        Term::C => Mode::ApplyK(k, Rc::new(Value::C0)),
        Term::R => Mode::ApplyK(k, Rc::new(Value::Put0('\n'))),
        Term::Put(c) => Mode::ApplyK(k, Rc::new(Value::Put0(*c))),
        Term::App(a, b) => Mode::Eval(a.clone(), Some(Rc::new(Kont::BindT(b.clone(), k)))),
    }
}

/// Applies `f` to the term `t`. Only here does `d` stop evaluation: its
/// operand becomes a promise in a fresh slot of the store.
fn apply_t(
    f: Rc<Value>,
    t: Rc<Term>,
    k: Option<Rc<Kont>>,
    store: &mut Vec<Option<Rc<Value>>>,
) -> (r: Mode)
    ensures
        (Machine { mode: r, store: final(store)@ }) == next(
            Machine { mode: Mode::ApplyT(f, t, k), store: old(store)@ },
        ),
{
    match &*f {
        Value::D0 => {
            let id: usize = store.len();
            store.push(None);
            Mode::ApplyK(k, Rc::new(Value::D1T(id, t)))
        },
        _ => Mode::Eval(t, Some(Rc::new(Kont::BindV(f, k)))),
    }
}

/// Applies the function value `f` to the value `w`; an output primitive
/// writes its character to `out`.
fn apply_v(
    f: Rc<Value>,
    w: Rc<Value>,
    k: Option<Rc<Kont>>,
    store: &Vec<Option<Rc<Value>>>,
    out: &mut Vec<char>,
) -> (r: Mode)
    requires
        wf_value(*f, store@.len()),
    ensures
        r == apply_v_spec(f, w, k, store@),
        final(out)@ == old(out)@ + emits(
            Machine { mode: Mode::ApplyV(f, w, k), store: store@ },
        ),
{
    match &*f {
        Value::I0 => Mode::ApplyK(k, w),
        Value::Put0(c) => {
            out.push(*c);
            proof {
                assert(final(out)@ =~= old(out)@ + seq![*c]);
            }
            Mode::ApplyK(k, w)
        },
        Value::K0 => Mode::ApplyK(k, Rc::new(Value::K1(w))),
        Value::K1(x) => Mode::ApplyK(k, x.clone()),
        Value::V0 => Mode::ApplyK(k, f.clone()),
        Value::C0 => {
            let captured = Rc::new(Value::C1(share(&k)));
            Mode::ApplyV(w, captured, k)
        },
        Value::C1(k0) => Mode::ApplyK(share(k0), w),
        Value::D0 => Mode::ApplyK(k, Rc::new(Value::D1V(w))),
        Value::D1T(id, t) => match &store[*id] {
            Some(g) => Mode::ApplyV(g.clone(), w, k),
            None => {
                let wait = Some(Rc::new(Kont::BindW(w, k)));
                Mode::Eval(t.clone(), Some(Rc::new(Kont::Memo(*id, wait))))
            },
        },
        Value::D1V(g) => Mode::ApplyV(g.clone(), w, k),
        Value::S0 => Mode::ApplyK(k, Rc::new(Value::S1(w))),
        Value::S1(x) => Mode::ApplyK(k, Rc::new(Value::S2(x.clone(), w))),
        Value::S2(x, y) => {
            let wait = Some(Rc::new(Kont::SWait(y.clone(), w.clone(), k)));
            Mode::ApplyV(x.clone(), w, wait)
        },
    }
}

/// Pops the frame `fr` and hands it the value `w`.
fn apply_k(fr: Rc<Kont>, w: Rc<Value>, store: &mut Vec<Option<Rc<Value>>>) -> (r: Mode)
    requires
        wf_kont(Some(fr), old(store)@.len()),
    ensures
        (Machine { mode: r, store: final(store)@ }) == next(
            Machine { mode: Mode::ApplyK(Some(fr), w), store: old(store)@ },
        ),
{
    match &*fr {
        Kont::BindT(t, rest) => Mode::ApplyT(w, t.clone(), share(rest)),
        Kont::BindV(f, rest) => Mode::ApplyV(f.clone(), w, share(rest)),
        Kont::BindW(x, rest) => Mode::ApplyV(w, x.clone(), share(rest)),
        Kont::SWait(g, x, rest) => {
            let wait = Some(Rc::new(Kont::BindV(w, share(rest))));
            Mode::ApplyV(g.clone(), x.clone(), wait)
        },
        Kont::Memo(id, rest) => {
            store.set(*id, Some(w.clone()));
            Mode::ApplyK(share(rest), w)
        },
    }
}

/// The machine that evaluates `t` with nothing left to do afterwards.
pub fn new(t: Term) -> (r: State)
    ensures
        r@ == (Machine { mode: Mode::Eval(Rc::new(t), None), store: Seq::empty() }),
        wf(r@),
{
    State { mode: Mode::Eval(Rc::new(t), None), store: Vec::new() }
}

impl State {
    /// One transition: the next state, or the final value of a finished
    /// machine. The character that the transition writes, if any, is pushed
    /// onto `out`.
    pub fn step(self, out: &mut Vec<char>) -> (r: SEither)
        requires
            wf(self@),
        ensures
            final(out)@ == old(out)@ + emits(self@),
            match r {
                SEither::S(s) => !is_final(self@) && s@ == next(self@) && wf(s@),
                SEither::V(v) => is_final(self@) && v == final_value(self@),
            },
    {
        proof {
            lemma_next_wf(self@);
        }
        let State { mode, mut store } = self;
        let mode = match mode {
            Mode::Eval(t, k) => eval(t, k),
            Mode::ApplyT(f, t, k) => apply_t(f, t, k, &mut store),
            Mode::ApplyV(f, w, k) => apply_v(f, w, k, &store, out),
            Mode::ApplyK(Some(fr), w) => apply_k(fr, w, &mut store),
            Mode::ApplyK(None, w) => {
                return SEither::V(w);
            },
        };
        let _ = store.len();
        SEither::S(State { mode, store })
    }

    /// The final value if the machine is finished.
    pub fn extract(&self) -> (r: Option<Rc<Value>>)
        ensures
            r matches Some(v) ==> is_final(self@) && v == final_value(self@),
            r is None ==> !is_final(self@),
    {
        match &self.mode {
            Mode::ApplyK(None, w) => Some(w.clone()),
            _ => None,
        }
    }

    /// The registers of the machine.
    pub fn registers(&self) -> (r: &Mode)
        ensures
            *r == self@.mode,
    {
        &self.mode
    }

    /// The mode the machine is in.
    pub fn flag(&self) -> (r: StateFlag)
        ensures
            r == StateFlag::Eval <==> self@.mode is Eval,
            r == StateFlag::ApplyT <==> self@.mode is ApplyT,
            r == StateFlag::ApplyV <==> self@.mode is ApplyV,
            r == StateFlag::ApplyK <==> self@.mode is ApplyK,
    {
        match &self.mode {
            Mode::Eval(..) => StateFlag::Eval,
            Mode::ApplyT(..) => StateFlag::ApplyT,
            Mode::ApplyV(..) => StateFlag::ApplyV,
            Mode::ApplyK(..) => StateFlag::ApplyK,
        }
    }

    /// Runs the machine for at most `fuel` transitions, stopping at the first
    /// finished machine. Gives its final value, or the state reached when the
    /// fuel ran out; the characters written meanwhile are pushed onto `out`.
    pub fn run(self, fuel: u64, out: &mut Vec<char>) -> (r: SEither)
        requires
            wf(self@),
        ensures
            final(out)@ == old(out)@ + output(self@, run_len(self@, fuel as nat)),
            match r {
                SEither::S(s) => {
                    &&& run_len(self@, fuel as nat) == fuel
                    &&& s@ == steps(self@, fuel as nat)
                    &&& !is_final(s@)
                    &&& wf(s@)
                },
                SEither::V(v) => {
                    let m = steps(self@, run_len(self@, fuel as nat));
                    is_final(m) && v == final_value(m)
                },
            },
    {
        let ghost start = self@;
        let mut state = self;
        let mut i: u64 = 0;
        while i < fuel
            invariant
                start == self@,
                i <= fuel,
                wf(state@),
                state@ == steps(start, i as nat),
                run_len(start, fuel as nat) == i + run_len(state@, (fuel - i) as nat),
                out@ == old(out)@ + output(start, i as nat),
            decreases fuel - i,
        {
            proof {
                lemma_steps_next(start, i as nat);
            }
            let ghost before = state@;
            match state.step(out) {
                SEither::S(s) => {
                    state = s;
                },
                SEither::V(v) => {
                    proof {
                        assert(output(start, i as nat) + emits(before) =~= output(start, i as nat));
                        assert(run_len(before, (fuel - i) as nat) == 0);
                    }
                    return SEither::V(v);
                },
            }
            i = i + 1;
        }
        proof {
            assert(run_len(state@, 0) == 0);
        }
        match state.extract() {
            Some(v) => SEither::V(v),
            None => SEither::S(state),
        }
    }
}

} // verus!
