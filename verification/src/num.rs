//! The wire token that stands for one double-precision coordinate.
//!
//! On the wire a coordinate is a JSON number, rendered by the sender's
//! serializer; a non-finite double is rendered as `null`. The library keeps
//! a coordinate as that token text, validated against the token grammar, so
//! the encoder can splice it into a frame unchanged. The embedding program
//! renders its doubles to tokens; tests can write tokens directly.

use vstd::prelude::*;
use vstd::string::StrSliceExecFns;

verus! {

/// One step of the deterministic scanner for a coordinate token: a JSON
/// number (RFC 8259 `number`) or the four letters `null`. State 0 is the
/// start state and 9 the absorbing reject state; see `token_accept` for the
/// accepting states.
pub open spec fn token_step(st: u8, c: char) -> u8 {
    if st == 0 {
        // start
        if c == '-' {
            1
        } else if c == '0' {
            2
        } else if '1' <= c && c <= '9' {
            3
        } else if c == 'n' {
            10
        } else {
            9
        }
    } else if st == 1 {
        // after the minus sign
        if c == '0' {
            2
        } else if '1' <= c && c <= '9' {
            3
        } else {
            9
        }
    } else if st == 2 {
        // integer part is a single zero
        if c == '.' {
            4
        } else if c == 'e' || c == 'E' {
            6
        } else {
            9
        }
    } else if st == 3 {
        // inside the integer digits
        if '0' <= c && c <= '9' {
            3
        } else if c == '.' {
            4
        } else if c == 'e' || c == 'E' {
            6
        } else {
            9
        }
    } else if st == 4 {
        // after the decimal point
        if '0' <= c && c <= '9' {
            5
        } else {
            9
        }
    } else if st == 5 {
        // inside the fraction digits
        if '0' <= c && c <= '9' {
            5
        } else if c == 'e' || c == 'E' {
            6
        } else {
            9
        }
    } else if st == 6 {
        // after the exponent marker
        if c == '+' || c == '-' {
            7
        } else if '0' <= c && c <= '9' {
            8
        } else {
            9
        }
    } else if st == 7 {
        // after the exponent sign
        if '0' <= c && c <= '9' {
            8
        } else {
            9
        }
    } else if st == 8 {
        // inside the exponent digits
        if '0' <= c && c <= '9' {
            8
        } else {
            9
        }
    } else if st == 10 {
        // after 'n'
        if c == 'u' {
            11
        } else {
            9
        }
    } else if st == 11 {
        // after 'nu'
        if c == 'l' {
            12
        } else {
            9
        }
    } else if st == 12 {
        // after 'nul'
        if c == 'l' {
            13
        } else {
            9
        }
    } else {
        // reject (9), or complete 'null' (13) followed by anything
        9
    }
}

/// The scanner state after reading all of `s` from the start state.
pub open spec fn token_scan(s: Seq<char>) -> u8
    decreases s.len(),
{
    if s.len() == 0 {
        0
    } else {
        token_step(token_scan(s.drop_last()), s.last())
    }
}

/// The accepting states: a complete integer part, fraction digits,
/// exponent digits, or the word `null`.
pub open spec fn token_accept(st: u8) -> bool {
    st == 2 || st == 3 || st == 5 || st == 8 || st == 13
}

/// `s` is a well-formed coordinate token: a JSON number or `null`.
pub open spec fn is_number_token(s: Seq<char>) -> bool {
    token_accept(token_scan(s))
}

/// The characters a token may contain: sign, digit, decimal point,
/// exponent marker, and the letters of `null`. The frame's separators
/// (commas, brackets, braces, quotes) are not among them.
pub open spec fn token_char(c: char) -> bool {
    c == '-' || c == '+' || c == '.' || c == 'e' || c == 'E' || c == 'n' || c == 'u' || c == 'l'
        || ('0' <= c && c <= '9')
}

proof fn lemma_scan_not_reject(s: Seq<char>)
    requires
        token_scan(s) != 9,
    ensures
        forall|i: int| 0 <= i < s.len() ==> token_char(#[trigger] s[i]),
    decreases s.len(),
{
    if s.len() > 0 {
        // the reject state absorbs, so no prefix was rejected either
        assert(token_scan(s) == token_step(token_scan(s.drop_last()), s.last()));
        assert(token_scan(s.drop_last()) != 9);
        lemma_scan_not_reject(s.drop_last());
        if !token_char(s.last()) {
            assert(token_step(token_scan(s.drop_last()), s.last()) == 9);
        }
        assert forall|i: int| 0 <= i < s.len() implies token_char(#[trigger] s[i]) by {
            if i < s.len() - 1 {
                assert(s[i] == s.drop_last()[i]);
            } else {
                assert(s[i] == s.last());
            }
        }
    }
}

/// An accepted token is not empty and consists of token characters only.
pub proof fn lemma_token_chars(s: Seq<char>)
    requires
        is_number_token(s),
    ensures
        s.len() > 0,
        forall|i: int| 0 <= i < s.len() ==> token_char(#[trigger] s[i]),
{
    lemma_scan_not_reject(s);
}

fn token_step_exec(st: u8, c: char) -> (r: u8)
    ensures
        r == token_step(st, c),
{
    if st == 0 {
        if c == '-' {
            1
        } else if c == '0' {
            2
        } else if '1' <= c && c <= '9' {
            3
        } else if c == 'n' {
            10
        } else {
            9
        }
    } else if st == 1 {
        if c == '0' {
            2
        } else if '1' <= c && c <= '9' {
            3
        } else {
            9
        }
    } else if st == 2 {
        if c == '.' {
            4
        } else if c == 'e' || c == 'E' {
            6
        } else {
            9
        }
    } else if st == 3 {
        if '0' <= c && c <= '9' {
            3
        } else if c == '.' {
            4
        } else if c == 'e' || c == 'E' {
            6
        } else {
            9
        }
    } else if st == 4 {
        if '0' <= c && c <= '9' {
            5
        } else {
            9
        }
    } else if st == 5 {
        if '0' <= c && c <= '9' {
            5
        } else if c == 'e' || c == 'E' {
            6
        } else {
            9
        }
    } else if st == 6 {
        if c == '+' || c == '-' {
            7
        } else if '0' <= c && c <= '9' {
            8
        } else {
            9
        }
    } else if st == 7 {
        if '0' <= c && c <= '9' {
            8
        } else {
            9
        }
    } else if st == 8 {
        if '0' <= c && c <= '9' {
            8
        } else {
            9
        }
    } else if st == 10 {
        if c == 'u' {
            11
        } else {
            9
        }
    } else if st == 11 {
        if c == 'l' {
            12
        } else {
            9
        }
    } else if st == 12 {
        if c == 'l' {
            13
        } else {
            9
        }
    } else {
        9
    }
}

/// Runs the token scanner over `s`.
pub fn scan_token(s: &str) -> (r: bool)
    ensures
        r == is_number_token(s@),
{
    let n = s.unicode_len();
    let mut st: u8 = 0;
    let mut i: usize = 0;
    while i < n
        invariant
            i <= n,
            n == s@.len(),
            st == token_scan(s@.take(i as int)),
        decreases n - i,
    {
        let c = s.get_char(i);
        st = token_step_exec(st, c);
        proof {
            let t = s@.take(i + 1);
            assert(t.drop_last() =~= s@.take(i as int));
            assert(t.last() == s@[i as int]);
        }
        i += 1;
    }
    proof {
        assert(s@.take(n as int) =~= s@);
    }
    token_accept_exec(st)
}

fn token_accept_exec(st: u8) -> (r: bool)
    ensures
        r == token_accept(st),
{
    st == 2 || st == 3 || st == 5 || st == 8 || st == 13
}

/// A validated coordinate token. Every value of this type holds text that
/// the token scanner accepts, so splicing it into a frame keeps the frame
/// parseable.
pub struct Num {
    text: String,
}

impl View for Num {
    type V = Seq<char>;

    closed spec fn view(&self) -> Seq<char> {
        self.text@
    }
}

impl DeepView for Num {
    type V = Seq<char>;

    open spec fn deep_view(&self) -> Seq<char> {
        self.view()
    }
}

impl Clone for Num {
    fn clone(&self) -> (r: Self)
        ensures
            r@ == self@,
    {
        Num { text: self.text.clone() }
    }
}

impl Num {
    /// Every constructed token satisfies the grammar.
    pub open spec fn wf(&self) -> bool {
        is_number_token(self.view())
    }

    /// Accepts `text` exactly when it is a well-formed coordinate token.
    pub fn new(text: String) -> (r: Option<Num>)
        ensures
            r is Some <==> is_number_token(text@),
            r is Some ==> r->0@ == text@ && r->0.wf(),
    {
        if scan_token(text.as_str()) {
            Some(Num { text })
        } else {
            None
        }
    }

    /// The token text.
    pub fn as_str(&self) -> (r: &str)
        ensures
            r@ == self@,
    {
        self.text.as_str()
    }
}

} // verus!
