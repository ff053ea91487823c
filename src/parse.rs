use vstd::prelude::*;
use std::rc::Rc;
use crate::term::Term;

verus! {

/// A lexical unit of a program: the application mark, or a primitive.
#[derive(PartialEq, Eq, Structural)]
pub enum Token {
    Tick,
    I,
    S,
    K,
    V,
    D,
    C,
    R,
    Put(char),
}

/// Why a program text was refused.
#[derive(PartialEq, Eq, Structural)]
pub enum ParseError {
    /// A character that starts no token, or a `.` at the very end.
    Lexical,
    /// The tokens do not form exactly one term.
    Syntax,
}

/// The token of a primitive term.
pub open spec fn leaf_token(t: Term) -> Token {
    match t {
        Term::I => Token::I,
        Term::S => Token::S,
        Term::K => Token::K,
        Term::V => Token::V,
        Term::D => Token::D,
        Term::C => Token::C,
        Term::R => Token::R,
        Term::Put(c) => Token::Put(c),
        Term::App(_, _) => Token::Tick,
    }
}

/// The tokens of a term, in prefix order.
pub open spec fn term_tokens(t: Term) -> Seq<Token>
    decreases t,
{
    match t {
        Term::App(a, b) => seq![Token::Tick] + term_tokens(*a) + term_tokens(*b),
        _ => seq![leaf_token(t)],
    }
}

pub open spec fn is_blank(c: char) -> bool {
    c == ' ' || c == '\t' || c == '\n' || c == '\r'
}

pub open spec fn letter_token(c: char) -> Option<Token> {
    if c == 'i' {
        Some(Token::I)
    } else if c == 's' {
        Some(Token::S)
    } else if c == 'k' {
        Some(Token::K)
    } else if c == 'v' {
        Some(Token::V)
    } else if c == 'd' {
        Some(Token::D)
    } else if c == 'c' {
        Some(Token::C)
    } else if c == 'r' {
        Some(Token::R)
    } else {
        None
    }
}

pub open spec fn cons(t: Token, rest: Option<Seq<Token>>) -> Option<Seq<Token>> {
    match rest {
        Some(ts) => Some(seq![t] + ts),
        None => None,
    }
}

/// The tokens of a text, or `None` where it holds a character that starts no
/// token. Blanks separate nothing and are skipped; `#` starts a comment that
/// runs to the end of its line; `.` takes the next character, whatever it is,
/// as the one to write. `in_comment` says whether the text starts inside a
/// comment.
pub open spec fn lex(s: Seq<char>, in_comment: bool) -> Option<Seq<Token>>
    decreases s.len(),
{
    if s.len() == 0 {
        Some(Seq::empty())
    } else {
        let c = s[0];
        let rest = s.subrange(1, s.len() as int);
        if in_comment {
            lex(rest, c != '\n')
        } else if is_blank(c) {
            lex(rest, false)
        } else if c == '#' {
            lex(rest, true)
        } else if c == '`' {
            cons(Token::Tick, lex(rest, false))
        } else if c == '.' {
            if s.len() < 2 {
                None
            } else {
                cons(Token::Put(s[1]), lex(s.subrange(2, s.len() as int), false))
            }
        } else {
            match letter_token(c) {
                Some(t) => cons(t, lex(rest, false)),
                None => None,
            }
        }
    }
}

pub open spec fn tokens_of(s: Seq<char>) -> Option<Seq<Token>> {
    lex(s, false)
}

pub open spec fn glue(p: Seq<Token>, o: Option<Seq<Token>>) -> Option<Seq<Token>> {
    match o {
        Some(r) => Some(p + r),
        None => None,
    }
}

/// Relies on `str::chars` collected into a `Vec`: the characters of the
/// string, in order.
#[verifier::external_body]
fn chars_of(s: &str) -> (r: Vec<char>)
    ensures
        r@ == s@,
{
    s.chars().collect()
}

fn letter(c: char) -> (r: Option<Token>)
    ensures
        r == letter_token(c),
{
    if c == 'i' {
        Some(Token::I)
    } else if c == 's' {
        Some(Token::S)
    } else if c == 'k' {
        Some(Token::K)
    } else if c == 'v' {
        Some(Token::V)
    } else if c == 'd' {
        Some(Token::D)
    } else if c == 'c' {
        Some(Token::C)
    } else if c == 'r' {
        Some(Token::R)
    } else {
        None
    }
}

proof fn lemma_push_concat(a: Seq<Token>, x: Token, r: Seq<Token>)
    ensures
        a.push(x) + r == a + (seq![x] + r),
{
    assert(a.push(x) + r =~= a + (seq![x] + r));
}

/// Splits a text into tokens.
pub fn tokenize(s: &Vec<char>) -> (r: Option<Vec<Token>>)
    ensures
        match r {
            Some(ts) => tokens_of(s@) == Some(ts@),
            None => tokens_of(s@) is None,
        },
{
    let mut out: Vec<Token> = Vec::new();
    let mut in_comment = false;
    let mut i: usize = 0;
    let n = s.len();
    proof {
        assert(s@.subrange(0, n as int) =~= s@);
        match lex(s@, false) {
            Some(r) => {
                assert(out@ + r =~= r);
            },
            None => {},
        }
    }
    while i < n
        invariant
            n == s@.len(),
            i <= n,
            tokens_of(s@) == glue(out@, lex(s@.subrange(i as int, n as int), in_comment)),
        decreases n - i,
    {
        let ghost rest = s@.subrange(i as int, n as int);
        let ghost after = s@.subrange(i + 1, n as int);
        proof {
            assert(rest.subrange(1, rest.len() as int) =~= after);
        }
        let c = s[i];
        if in_comment {
            in_comment = c != '\n';
            i = i + 1;
        } else if c == ' ' || c == '\t' || c == '\n' || c == '\r' {
            i = i + 1;
        } else if c == '#' {
            in_comment = true;
            i = i + 1;
        } else if c == '.' {
            if i + 1 >= n {
                return None;
            }
            let d = s[i + 1];
            proof {
                assert(rest.subrange(2, rest.len() as int) =~= s@.subrange(i + 2, n as int));
                assert(rest[1] == d);
                let x = Token::Put(d);
                match lex(s@.subrange(i + 2, n as int), false) {
                    Some(r) => {
                        lemma_push_concat(out@, x, r);
                    },
                    None => {},
                }
            }
            out.push(Token::Put(d));
            i = i + 2;
        } else {
            let t = if c == '`' {
                Token::Tick
            } else {
                match letter(c) {
                    Some(t) => t,
                    None => {
                        return None;
                    },
                }
            };
            proof {
                match lex(after, false) {
                    Some(r) => {
                        lemma_push_concat(out@, t, r);
                    },
                    None => {},
                }
            }
            out.push(t);
            i = i + 1;
        }
    }
    proof {
        assert(out@ + Seq::<Token>::empty() =~= out@);
    }
    Some(out)
}

pub open spec fn tokens_len(t: &Term) -> int {
    term_tokens(*t).len() as int
}

/// `p` is the start of `s`.
pub open spec fn starts(s: Seq<Token>, p: Seq<Token>) -> bool {
    p.len() <= s.len() && s.subrange(0, p.len() as int) == p
}

/// Prefix notation is unambiguous: two terms whose tokens both start `s` are
/// the same term.
proof fn lemma_prefix_unique(t1: &Term, t2: &Term, s: Seq<Token>)
    requires
        starts(s, term_tokens(*t1)),
        starts(s, term_tokens(*t2)),
    ensures
        *t1 == *t2,
    decreases t1,
{
    let toks1 = term_tokens(*t1);
    let toks2 = term_tokens(*t2);
    assert(toks1[0] == s[0]);
    assert(toks2[0] == s[0]);
    match (t1, t2) {
        (Term::App(a1, b1), Term::App(a2, b2)) => {
            let s1 = s.subrange(1, s.len() as int);
            let la1: int = tokens_len(&a1);
            let la2: int = tokens_len(&a2);
            assert(s1.subrange(0, la1) =~= toks1.subrange(1, 1 + la1));
            assert(toks1.subrange(1, 1 + la1) =~= term_tokens(**a1));
            assert(s1.subrange(0, la2) =~= toks2.subrange(1, 1 + la2));
            assert(toks2.subrange(1, 1 + la2) =~= term_tokens(**a2));
            lemma_prefix_unique(&**a1, &**a2, s1);
            let s2 = s.subrange(1 + la1, s.len() as int);
            let lb1: int = tokens_len(&b1);
            let lb2: int = tokens_len(&b2);
            assert(s2.subrange(0, lb1) =~= toks1.subrange(1 + la1, toks1.len() as int));
            assert(toks1.subrange(1 + la1, toks1.len() as int) =~= term_tokens(**b1));
            assert(s2.subrange(0, lb2) =~= toks2.subrange(1 + la2, toks2.len() as int));
            assert(toks2.subrange(1 + la2, toks2.len() as int) =~= term_tokens(**b2));
            lemma_prefix_unique(&**b1, &**b2, s2);
        },
        (Term::App(..), _) => {},
        (_, Term::App(..)) => {},
        _ => {},
    }
}

proof fn lemma_tokens_nonempty(t: Term)
    ensures
        term_tokens(t).len() >= 1,
        term_tokens(t)[0] == leaf_token(t),
{
    match t {
        Term::App(a, b) => {
            assert((seq![Token::Tick] + term_tokens(*a) + term_tokens(*b))[0] == Token::Tick);
        },
        _ => {},
    }
}

fn leaf(tok: &Token) -> (r: Term)
    requires
        *tok != Token::Tick,
    ensures
        leaf_token(r) == *tok,
        !(r is App),
{
    match tok {
        Token::I => Term::I,
        Token::S => Term::S,
        Token::K => Term::K,
        Token::V => Term::V,
        Token::D => Term::D,
        Token::C => Term::C,
        Token::R => Term::R,
        Token::Put(c) => Term::Put(*c),
        Token::Tick => Term::I,
    }
}

/// Reads one term from the tokens at `i`: the term and the position after it,
/// or `None` when no term's tokens start there.
fn parse_at(ts: &Vec<Token>, i: usize) -> (r: Option<(Term, usize)>)
    requires
        i <= ts@.len(),
    ensures
        match r {
            Some((t, j)) => i < j <= ts@.len() && ts@.subrange(i as int, j as int) == term_tokens(t),
            None => forall|t: Term|
                !starts(#[trigger] ts@.subrange(i as int, ts@.len() as int), term_tokens(t)),
        },
    decreases ts@.len() - i,
{
    let ghost rest = ts@.subrange(i as int, ts@.len() as int);
    if i >= ts.len() {
        proof {
            assert forall|t: Term| !starts(rest, term_tokens(t)) by {
                lemma_tokens_nonempty(t);
            }
        }
        return None;
    }
    match &ts[i] {
        Token::Tick => {
            match parse_at(ts, i + 1) {
                None => {
                    proof {
                        assert forall|t: Term| !starts(rest, term_tokens(t)) by {
                            lemma_tokens_nonempty(t);
                            if starts(rest, term_tokens(t)) {
                                if let Term::App(a, b) = t {
                                    let la: int = tokens_len(&a);
                                    assert(ts@.subrange(i + 1, ts@.len() as int).subrange(0, la)
                                        =~= term_tokens(t).subrange(1, 1 + la));
                                    assert(term_tokens(t).subrange(1, 1 + la) =~= term_tokens(*a));
                                    assert(starts(ts@.subrange(i + 1, ts@.len() as int), term_tokens(*a)));
                                }
                            }
                        }
                    }
                    None
                },
                Some((a, j)) => match parse_at(ts, j) {
                    None => {
                        proof {
                            assert forall|t: Term| !starts(rest, term_tokens(t)) by {
                                lemma_tokens_nonempty(t);
                                if starts(rest, term_tokens(t)) {
                                    if let Term::App(a2, b2) = t {
                                        let la: int = tokens_len(&a2);
                                        let s1 = ts@.subrange(i + 1, ts@.len() as int);
                                        assert(s1.subrange(0, la) =~= term_tokens(t).subrange(1, 1 + la));
                                        assert(term_tokens(t).subrange(1, 1 + la) =~= term_tokens(*a2));
                                        assert(s1.subrange(0, (j - i - 1) as int) =~= term_tokens(a));
                                        lemma_prefix_unique(&a, &*a2, s1);
                                        let lb: int = tokens_len(&b2);
                                        let s2 = ts@.subrange(j as int, ts@.len() as int);
                                        assert(s2.subrange(0, lb) =~= term_tokens(t).subrange(
                                            1 + la,
                                            term_tokens(t).len() as int,
                                        ));
                                        assert(term_tokens(t).subrange(1 + la, term_tokens(t).len() as int)
                                            =~= term_tokens(*b2));
                                        assert(starts(s2, term_tokens(*b2)));
                                    }
                                }
                            }
                        }
                        None
                    },
                    Some((b, k)) => {
                        let t = Term::App(Rc::new(a), Rc::new(b));
                        proof {
                            assert(ts@.subrange(i as int, k as int) =~= seq![Token::Tick]
                                + ts@.subrange(i + 1, j as int) + ts@.subrange(j as int, k as int));
                        }
                        Some((t, k))
                    },
                },
            }
        },
        tok => {
            let t = leaf(tok);
            proof {
                assert(ts@.subrange(i as int, i + 1) =~= seq![leaf_token(t)]);
            }
            Some((t, i + 1))
        },
    }
}

/// Reads a program: exactly one term, with blanks and comments anywhere
/// between tokens.
pub fn parse_term(s: &str) -> (r: Result<Term, ParseError>)
    ensures
        match r {
            Ok(t) => tokens_of(s@) == Some(term_tokens(t)),
            Err(ParseError::Lexical) => tokens_of(s@) is None,
            Err(ParseError::Syntax) => tokens_of(s@) matches Some(ts) && forall|t: Term|
                #[trigger] term_tokens(t) != ts,
        },
{
    let cs = chars_of(s);
    let ts = match tokenize(&cs) {
        Some(ts) => ts,
        None => {
            return Err(ParseError::Lexical);
        },
    };
    match parse_at(&ts, 0) {
        Some((t, j)) => {
            if j == ts.len() {
                proof {
                    assert(ts@.subrange(0, j as int) =~= ts@);
                }
                Ok(t)
            } else {
                proof {
                    assert forall|t2: Term| #[trigger] term_tokens(t2) != ts@ by {
                        if term_tokens(t2) == ts@ {
                            assert(ts@.subrange(0, ts@.len() as int) =~= ts@);
                            assert(starts(ts@, term_tokens(t2)));
                            assert(ts@.subrange(0, 0 + j) == term_tokens(t));
                            lemma_prefix_unique(&t, &t2, ts@);
                        }
                    }
                }
                Err(ParseError::Syntax)
            }
        },
        None => {
            proof {
                assert forall|t2: Term| #[trigger] term_tokens(t2) != ts@ by {
                    assert(ts@.subrange(0, ts@.len() as int) =~= ts@);
                    if term_tokens(t2) == ts@ {
                        assert(starts(ts@.subrange(0, ts@.len() as int), term_tokens(t2)));
                    }
                }
            }
            Err(ParseError::Syntax)
        },
    }
}

} // verus!
