use vstd::prelude::*;
use std::rc::Rc;
use crate::term::Term;
use crate::machine::{Kont, Value, Mode, State, StateFlag};

verus! {

// Terms, values, continuations and states are all written in the grammar of
// programs: a primitive as its letter, an output primitive as `.` and its
// character (`r` for a newline), an application as a backquote followed by its
// two parts. A promise shows its delayed term in brackets, a captured
// continuation shows its chain in parentheses, with `()` for the hole.

pub open spec fn put_text(c: char) -> Seq<char> {
    if c == '\n' {
        seq!['r']
    } else {
        seq!['.', c]
    }
}

pub open spec fn term_text(t: Term) -> Seq<char>
    decreases t,
{
    match t {
        Term::I => seq!['i'],
        Term::S => seq!['s'],
        Term::K => seq!['k'],
        Term::V => seq!['v'],
        Term::D => seq!['d'],
        Term::C => seq!['c'],
        Term::R => seq!['r'],
        Term::Put(c) => put_text(c),
        Term::App(a, b) => seq!['`'] + term_text(*a) + term_text(*b),
    }
}

pub open spec fn value_text(v: Value) -> Seq<char>
    decreases v,
{
    match v {
        Value::I0 => seq!['i'],
        Value::S0 => seq!['s'],
        Value::K0 => seq!['k'],
        Value::V0 => seq!['v'],
        Value::D0 => seq!['d'],
        Value::C0 => seq!['c'],
        Value::Put0(c) => put_text(c),
        Value::S1(a) => seq!['`', 's'] + value_text(*a),
        Value::S2(a, b) => seq!['`', '`', 's'] + value_text(*a) + value_text(*b),
        Value::K1(a) => seq!['`', 'k'] + value_text(*a),
        Value::D1T(_, t) => seq!['`', 'd', '['] + term_text(*t) + seq![']'],
        Value::D1V(a) => seq!['`', 'd'] + value_text(*a),
        Value::C1(k) => seq!['`', 'c', '('] + match k {
            None => Seq::<char>::empty(),
            Some(_) => ctx_text(k, seq!['(', ')']),
        } + seq![')'],
    }
}

/// The chain `k` written around `inner`: each frame, from the top one down,
/// wraps what is inside it.
pub open spec fn ctx_text(k: Option<Rc<Kont>>, inner: Seq<char>) -> Seq<char>
    decreases k,
{
    match k {
        None => inner,
        Some(f) => match *f {
            Kont::BindT(t, r) => ctx_text(
                r,
                seq!['`'] + inner + seq!['['] + term_text(*t) + seq![']'],
            ),
            Kont::BindV(v, r) => ctx_text(r, seq!['`'] + value_text(*v) + inner),
            Kont::BindW(w, r) => ctx_text(r, seq!['`'] + inner + value_text(*w)),
            Kont::SWait(g, x, r) => ctx_text(
                r,
                seq!['`'] + inner + seq!['`'] + value_text(*g) + value_text(*x),
            ),
            Kont::Memo(_, r) => ctx_text(r, inner),
        },
    }
}

/// A continuation: `()` for the empty one.
pub open spec fn kont_text(k: Option<Rc<Kont>>) -> Seq<char> {
    ctx_text(k, seq!['(', ')'])
}

pub open spec fn flag_text(m: Mode) -> Seq<char> {
    match m {
        Mode::Eval(..) => seq!['E', 'v', 'a', 'l'],
        Mode::ApplyT(..) => seq!['A', 'p', 'p', 'l', 'y', 'T'],
        Mode::ApplyV(..) => seq!['A', 'p', 'p', 'l', 'y', 'V'],
        Mode::ApplyK(..) => seq!['A', 'p', 'p', 'l', 'y', 'K'],
    }
}

pub open spec fn line(label: Seq<char>, body: Seq<char>) -> Seq<char> {
    label + seq![':', ' '] + body + seq!['\n']
}

/// The registers of a machine, one per line, then its continuation.
pub open spec fn mode_text(m: Mode) -> Seq<char> {
    let head = line(seq!['S', 't', 'a', 't', 'e'], flag_text(m));
    let value = seq!['V', 'a', 'l', 'u', 'e'];
    let term = seq!['T', 'e', 'r', 'm'];
    let kont = seq!['K', 'o', 'n', 't', ':', ' '];
    match m {
        Mode::Eval(t, k) => head + line(term, seq!['['] + term_text(*t) + seq![']']) + kont
            + kont_text(k),
        Mode::ApplyT(v, t, k) => head + line(value, value_text(*v)) + line(
            term,
            seq!['['] + term_text(*t) + seq![']'],
        ) + kont + kont_text(k),
        Mode::ApplyV(v, w, k) => head + line(value, value_text(*v)) + line(
            seq!['W', 'a', 'l', 'u', 'e'],
            value_text(*w),
        ) + kont + kont_text(k),
        Mode::ApplyK(k, v) => head + line(value, value_text(*v)) + kont + kont_text(k),
    }
}

/// Relies on `FromIterator<char> for String`: the string holds the characters
/// in order.
#[verifier::external_body]
fn string_of(cs: &Vec<char>) -> (r: String)
    ensures
        r@ == cs@,
{
    cs.iter().collect()
}

fn push_all(out: &mut Vec<char>, s: &[char])
    ensures
        final(out)@ == old(out)@ + s@,
{
    let mut i: usize = 0;
    while i < s.len()
        invariant
            i <= s@.len(),
            out@ == old(out)@ + s@.subrange(0, i as int),
        decreases s@.len() - i,
    {
        out.push(s[i]);
        i = i + 1;
        proof {
            assert(out@ =~= old(out)@ + s@.subrange(0, i as int));
        }
    }
    proof {
        assert(s@.subrange(0, s@.len() as int) =~= s@);
    }
}

fn write_put(c: char, out: &mut Vec<char>)
    ensures
        final(out)@ == old(out)@ + put_text(c),
{
    if c == '\n' {
        out.push('r');
        proof {
            assert(final(out)@ =~= old(out)@ + put_text(c));
        }
    } else {
        out.push('.');
        out.push(c);
        proof {
            assert(final(out)@ =~= old(out)@ + put_text(c));
        }
    }
}

fn write_term(t: &Term, out: &mut Vec<char>)
    ensures
        final(out)@ == old(out)@ + term_text(*t),
    decreases t,
{
    match t {
        Term::I => push_all(out, &['i']),
        Term::S => push_all(out, &['s']),
        Term::K => push_all(out, &['k']),
        Term::V => push_all(out, &['v']),
        Term::D => push_all(out, &['d']),
        Term::C => push_all(out, &['c']),
        Term::R => push_all(out, &['r']),
        Term::Put(c) => write_put(*c, out),
        Term::App(a, b) => {
            out.push('`');
            write_term(&**a, out);
            write_term(&**b, out);
            proof {
                assert(final(out)@ =~= old(out)@ + term_text(*t));
            }
        },
    }
}

fn write_value(v: &Value, out: &mut Vec<char>)
    ensures
        final(out)@ == old(out)@ + value_text(*v),
    decreases v,
{
    let ghost start = out@;
    match v {
        Value::I0 => push_all(out, &['i']),
        Value::S0 => push_all(out, &['s']),
        Value::K0 => push_all(out, &['k']),
        Value::V0 => push_all(out, &['v']),
        Value::D0 => push_all(out, &['d']),
        Value::C0 => push_all(out, &['c']),
        Value::Put0(c) => write_put(*c, out),
        Value::S1(a) => {
            push_all(out, &['`', 's']);
            write_value(&**a, out);
        },
        Value::S2(a, b) => {
            push_all(out, &['`', '`', 's']);
            write_value(&**a, out);
            write_value(&**b, out);
        },
        Value::K1(a) => {
            push_all(out, &['`', 'k']);
            write_value(&**a, out);
        },
        Value::D1T(_, t) => {
            push_all(out, &['`', 'd', '[']);
            write_term(&**t, out);
            out.push(']');
        },
        Value::D1V(a) => {
            push_all(out, &['`', 'd']);
            write_value(&**a, out);
        },
        Value::C1(k) => {
            push_all(out, &['`', 'c', '(']);
            if k.is_some() {
                let mut text = write_ctx(k, vec!['(', ')']);
                out.append(&mut text);
            }
            out.push(')');
        },
    }
    proof {
        assert(out@ =~= start + value_text(*v));
    }
}

/// Writes the chain `k` around `inner`.
fn write_ctx(k: &Option<Rc<Kont>>, inner: Vec<char>) -> (r: Vec<char>)
    ensures
        r@ == ctx_text(*k, inner@),
    decreases k,
{
    match k {
        None => inner,
        Some(f) => {
            let mut text: Vec<char> = Vec::new();
            let mut inner = inner;
            let ghost inner0 = inner@;
            match &**f {
                Kont::BindT(t, r) => {
                    text.push('`');
                    text.append(&mut inner);
                    text.push('[');
                    write_term(&**t, &mut text);
                    text.push(']');
                    proof {
                        assert(text@ =~= seq!['`'] + inner0 + seq!['['] + term_text(**t) + seq![']']);
                    }
                    write_ctx(r, text)
                },
                Kont::BindV(v, r) => {
                    text.push('`');
                    write_value(&**v, &mut text);
                    text.append(&mut inner);
                    proof {
                        assert(text@ =~= seq!['`'] + value_text(**v) + inner0);
                    }
                    write_ctx(r, text)
                },
                Kont::BindW(w, r) => {
                    text.push('`');
                    text.append(&mut inner);
                    write_value(&**w, &mut text);
                    proof {
                        assert(text@ =~= seq!['`'] + inner0 + value_text(**w));
                    }
                    write_ctx(r, text)
                },
                Kont::SWait(g, x, r) => {
                    text.push('`');
                    text.append(&mut inner);
                    text.push('`');
                    write_value(&**g, &mut text);
                    write_value(&**x, &mut text);
                    proof {
                        assert(text@ =~= seq!['`'] + inner0 + seq!['`'] + value_text(**g) + value_text(
                            **x,
                        ));
                    }
                    write_ctx(r, text)
                },
                Kont::Memo(_, r) => write_ctx(r, inner),
            }
        },
    }
}

impl Term {
    /// The term in the grammar of programs.
    pub fn to_text(&self) -> (r: String)
        ensures
            r@ == term_text(*self),
    {
        let mut out: Vec<char> = Vec::new();
        write_term(self, &mut out);
        string_of(&out)
    }
}

impl Value {
    /// The value in the grammar of programs.
    pub fn to_text(&self) -> (r: String)
        ensures
            r@ == value_text(*self),
    {
        let mut out: Vec<char> = Vec::new();
        write_value(self, &mut out);
        string_of(&out)
    }
}

/// A continuation in the grammar of programs, `()` standing for the hole.
pub fn kont_to_text(k: &Option<Rc<Kont>>) -> (r: String)
    ensures
        r@ == kont_text(*k),
{
    string_of(&write_ctx(k, vec!['(', ')']))
}

fn write_line_start(label: &[char], out: &mut Vec<char>)
    ensures
        final(out)@ == old(out)@ + label@ + seq![':', ' '],
{
    push_all(out, label);
    push_all(out, &[':', ' ']);
    proof {
        assert(final(out)@ =~= old(out)@ + label@ + seq![':', ' ']);
    }
}

impl State {
    /// The state for a step-by-step display: its mode, its registers one per
    /// line, then its continuation.
    pub fn render(&self) -> (r: String)
        ensures
            r@ == mode_text(self@.mode),
    {
        let mut out: Vec<char> = Vec::new();
        let flag: &[char] = match self.flag() {
            StateFlag::Eval => &['E', 'v', 'a', 'l'],
            StateFlag::ApplyT => &['A', 'p', 'p', 'l', 'y', 'T'],
            StateFlag::ApplyV => &['A', 'p', 'p', 'l', 'y', 'V'],
            StateFlag::ApplyK => &['A', 'p', 'p', 'l', 'y', 'K'],
        };
        write_line_start(&['S', 't', 'a', 't', 'e'], &mut out);
        push_all(&mut out, flag);
        out.push('\n');
        let ghost head = out@;
        proof {
            assert(head =~= line(seq!['S', 't', 'a', 't', 'e'], flag_text(self@.mode)));
        }
        let k = match self.registers() {
            Mode::Eval(t, k) => {
                write_line_start(&['T', 'e', 'r', 'm'], &mut out);
                out.push('[');
                write_term(&**t, &mut out);
                out.push(']');
                out.push('\n');
                k
            },
            Mode::ApplyT(v, t, k) => {
                write_line_start(&['V', 'a', 'l', 'u', 'e'], &mut out);
                write_value(&**v, &mut out);
                out.push('\n');
                write_line_start(&['T', 'e', 'r', 'm'], &mut out);
                out.push('[');
                write_term(&**t, &mut out);
                out.push(']');
                out.push('\n');
                k
            },
            Mode::ApplyV(v, w, k) => {
                write_line_start(&['V', 'a', 'l', 'u', 'e'], &mut out);
                write_value(&**v, &mut out);
                out.push('\n');
                write_line_start(&['W', 'a', 'l', 'u', 'e'], &mut out);
                write_value(&**w, &mut out);
                out.push('\n');
                k
            },
            Mode::ApplyK(k, v) => {
                write_line_start(&['V', 'a', 'l', 'u', 'e'], &mut out);
                write_value(&**v, &mut out);
                out.push('\n');
                k
            },
        };
        write_line_start(&['K', 'o', 'n', 't'], &mut out);
        let mut chain = write_ctx(k, vec!['(', ')']);
        out.append(&mut chain);
        proof {
            let m = self@.mode;
            let value = seq!['V', 'a', 'l', 'u', 'e'];
            let term = seq!['T', 'e', 'r', 'm'];
            match m {
                Mode::Eval(t, k) => {
                    assert(out@ =~= head + line(term, seq!['['] + term_text(*t) + seq![']'])
                        + seq!['K', 'o', 'n', 't', ':', ' '] + kont_text(k));
                },
                Mode::ApplyT(v, t, k) => {
                    assert(out@ =~= head + line(value, value_text(*v)) + line(
                        term,
                        seq!['['] + term_text(*t) + seq![']'],
                    ) + seq!['K', 'o', 'n', 't', ':', ' '] + kont_text(k));
                },
                Mode::ApplyV(v, w, k) => {
                    assert(out@ =~= head + line(value, value_text(*v)) + line(
                        seq!['W', 'a', 'l', 'u', 'e'],
                        value_text(*w),
                    ) + seq!['K', 'o', 'n', 't', ':', ' '] + kont_text(k));
                },
                Mode::ApplyK(k, v) => {
                    assert(out@ =~= head + line(value, value_text(*v)) + seq![
                        'K',
                        'o',
                        'n',
                        't',
                        ':',
                        ' ',
                    ] + kont_text(k));
                },
            }
        }
        string_of(&out)
    }
}

} // verus!
