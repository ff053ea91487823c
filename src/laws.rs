use vstd::prelude::*;
use std::rc::Rc;
use crate::term::Term;
use crate::machine::{Kont, Machine, Mode, Value, emits, next, output, push, steps};

verus! {

/// Applying `i` to any value `a` gives `a` itself, writes nothing and leaves
/// the store as it was.
pub proof fn law_identity(a: Rc<Value>, k: Option<Rc<Kont>>, store: Seq<Option<Rc<Value>>>)
    ensures
        ({
            let m = Machine { mode: Mode::ApplyV(Rc::new(Value::I0), a, k), store };
            &&& next(m) == Machine { mode: Mode::ApplyK(k, a), store }
            &&& emits(m) == Seq::<char>::empty()
        }),
{
}

/// Applying `k` to `a`, then the function that gives to any `b`, yields `a`.
pub proof fn law_constant(
    a: Rc<Value>,
    b: Rc<Value>,
    k: Option<Rc<Kont>>,
    store: Seq<Option<Rc<Value>>>,
)
    ensures
        ({
            let f = Rc::new(Value::K1(a));
            &&& next(Machine { mode: Mode::ApplyV(Rc::new(Value::K0), a, k), store })
                == Machine { mode: Mode::ApplyK(k, f), store }
            &&& next(Machine { mode: Mode::ApplyV(f, b, k), store })
                == Machine { mode: Mode::ApplyK(k, a), store }
        }),
{
}

/// `s` applied to `k` and then to `k` gives a function that, applied to any
/// `a`, returns `a` after six transitions that write nothing.
pub proof fn law_skk(a: Rc<Value>, k: Option<Rc<Kont>>, store: Seq<Option<Rc<Value>>>)
    ensures
        ({
            let kk = Rc::new(Value::K0);
            let s1 = Rc::new(Value::S1(kk));
            let s2 = Rc::new(Value::S2(kk, kk));
            let m = Machine { mode: Mode::ApplyV(s2, a, k), store };
            &&& next(Machine { mode: Mode::ApplyV(Rc::new(Value::S0), kk, k), store })
                == Machine { mode: Mode::ApplyK(k, s1), store }
            &&& next(Machine { mode: Mode::ApplyV(s1, kk, k), store }) == Machine {
                mode: Mode::ApplyK(k, s2),
                store,
            }
            &&& steps(m, 6) == Machine { mode: Mode::ApplyK(k, a), store }
            &&& output(m, 6) == Seq::<char>::empty()
        }),
{
    let kk = Rc::new(Value::K0);
    let ka = Rc::new(Value::K1(a));
    let m0 = Machine { mode: Mode::ApplyV(Rc::new(Value::S2(kk, kk)), a, k), store };
    let m1 = Machine { mode: Mode::ApplyV(kk, a, push(Kont::SWait(kk, a, k))), store };
    let m2 = Machine { mode: Mode::ApplyK(push(Kont::SWait(kk, a, k)), ka), store };
    let m3 = Machine { mode: Mode::ApplyV(kk, a, push(Kont::BindV(ka, k))), store };
    let m4 = Machine { mode: Mode::ApplyK(push(Kont::BindV(ka, k)), ka), store };
    let m5 = Machine { mode: Mode::ApplyV(ka, ka, k), store };
    let m6 = Machine { mode: Mode::ApplyK(k, a), store };
    assert(next(m0) == m1);
    assert(next(m1) == m2);
    assert(next(m2) == m3);
    assert(next(m3) == m4);
    assert(next(m4) == m5);
    assert(next(m5) == m6);
    assert(steps(m5, 1) == m6) by {
        assert(steps(m6, 0) == m6);
    }
    assert(steps(m4, 2) == m6);
    assert(steps(m3, 3) == m6);
    assert(steps(m2, 4) == m6);
    assert(steps(m1, 5) == m6);
    assert(steps(m0, 6) == m6);
    assert(output(m5, 1) =~= Seq::<char>::empty()) by {
        assert(output(m6, 0) == Seq::<char>::empty());
    }
    assert(output(m4, 2) =~= Seq::<char>::empty());
    assert(output(m3, 3) =~= Seq::<char>::empty());
    assert(output(m2, 4) =~= Seq::<char>::empty());
    assert(output(m1, 5) =~= Seq::<char>::empty());
    assert(output(m0, 6) =~= Seq::<char>::empty());
}

/// An output primitive applied to `w` writes its character once and passes
/// `w` on.
pub proof fn law_output(c: char, w: Rc<Value>, k: Option<Rc<Kont>>, store: Seq<Option<Rc<Value>>>)
    ensures
        ({
            let m = Machine { mode: Mode::ApplyV(Rc::new(Value::Put0(c)), w, k), store };
            &&& next(m) == Machine { mode: Mode::ApplyK(k, w), store }
            &&& emits(m) == seq![c]
        }),
{
}

/// A promise is forced at most once. Applied while its slot is empty, it
/// evaluates its term under a frame that records the result; that frame
/// fills the slot with the function that comes back; applied once the slot is
/// filled, to any argument, it goes straight to that function, evaluating
/// nothing and writing nothing.
pub proof fn law_promise_forced_once(
    id: usize,
    t: Rc<Term>,
    g: Rc<Value>,
    w1: Rc<Value>,
    w2: Rc<Value>,
    k1: Option<Rc<Kont>>,
    k2: Option<Rc<Kont>>,
    rest: Option<Rc<Kont>>,
    store: Seq<Option<Rc<Value>>>,
)
    requires
        id < store.len(),
        store[id as int] is None,
    ensures
        ({
            let p = Rc::new(Value::D1T(id, t));
            let forced = store.update(id as int, Some(g));
            let again = Machine { mode: Mode::ApplyV(p, w2, k2), store: forced };
            &&& next(Machine { mode: Mode::ApplyV(p, w1, k1), store }) == Machine {
                mode: Mode::Eval(t, push(Kont::Memo(id, push(Kont::BindW(w1, k1))))),
                store,
            }
            &&& next(Machine { mode: Mode::ApplyK(push(Kont::Memo(id, rest)), g), store })
                == Machine { mode: Mode::ApplyK(rest, g), store: forced }
            &&& next(again) == Machine { mode: Mode::ApplyV(g, w2, k2), store: forced }
            &&& emits(again) == Seq::<char>::empty()
        }),
{
    assert(store.update(id as int, Some(g))[id as int] == Some(g));
}

/// Capturing hands the argument the current chain itself, kept as the outer
/// continuation too; invoking a captured chain, as many times as one likes,
/// drops the current chain and resumes the captured one.
pub proof fn law_capture(
    w: Rc<Value>,
    x: Rc<Value>,
    k: Option<Rc<Kont>>,
    k0: Option<Rc<Kont>>,
    store: Seq<Option<Rc<Value>>>,
)
    ensures
        ({
            let captured = Rc::new(Value::C1(k));
            next(Machine { mode: Mode::ApplyV(Rc::new(Value::C0), w, k), store })
                == Machine { mode: Mode::ApplyV(w, captured, k), store }
        }),
        ({
            let resumed = Machine { mode: Mode::ApplyK(k0, x), store };
            next(Machine { mode: Mode::ApplyV(Rc::new(Value::C1(k0)), x, k), store }) == resumed
        }),
{
}

} // verus!
