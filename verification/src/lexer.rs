use crate::job::texts;
use crate::text::{chars_of, push_char};
use vstd::prelude::*;
use vstd::string::*;

verus! {

/// Whether a character is white space: one of the code points that Unicode
/// counts as `White_Space`.
pub open spec fn is_space(c: char) -> bool {
    let n: u32 = c as u32;
    (0x09 <= n && n <= 0x0D) || n == 0x20 || n == 0x85 || n == 0xA0 || n == 0x1680 || (0x2000 <= n
        && n <= 0x200A) || n == 0x2028 || n == 0x2029 || n == 0x202F || n == 0x205F || n == 0x3000
}

/// Whether a character is white space.
pub fn is_whitespace(c: char) -> (r: bool)
    ensures
        r == is_space(c),
{
    let n: u32 = c as u32;
    (0x09 <= n && n <= 0x0D) || n == 0x20 || n == 0x85 || n == 0xA0 || n == 0x1680 || (0x2000 <= n
        && n <= 0x200A) || n == 0x2028 || n == 0x2029 || n == 0x202F || n == 0x205F || n == 0x3000
}

/// Where the tokenizer stands after a run of characters.
pub struct LexState {
    /// The tokens that are complete.
    pub tokens: Seq<Seq<char>>,
    /// The token that is being read.
    pub pending: Seq<char>,
    /// Whether a double quote is open.
    pub in_quotes: bool,
}

/// What one character does to the tokenizer. A double quote opens or closes
/// a quoted stretch and is dropped. White space outside quotes ends the
/// token that is being read, if there is one. Any other character, and white
/// space inside quotes, joins the token.
pub open spec fn lex_step(st: LexState, c: char) -> LexState {
    if c == '"' {
        LexState { in_quotes: !st.in_quotes, ..st }
    } else if is_space(c) && !st.in_quotes {
        if st.pending.len() > 0 {
            LexState { tokens: st.tokens.push(st.pending), pending: Seq::empty(), ..st }
        } else {
            st
        }
    } else {
        LexState { pending: st.pending.push(c), ..st }
    }
}

/// The tokenizer after the characters of `s`, read from the left.
pub open spec fn lex(s: Seq<char>) -> LexState
    decreases s.len(),
{
    if s.len() == 0 {
        LexState { tokens: Seq::empty(), pending: Seq::empty(), in_quotes: false }
    } else {
        lex_step(lex(s.drop_last()), s.last())
    }
}

/// The tokens of a text: the complete ones, then the one that the end of the
/// text cuts off, if it is not empty.
pub open spec fn tokens_of(s: Seq<char>) -> Seq<Seq<char>> {
    let st = lex(s);
    if st.pending.len() > 0 {
        st.tokens.push(st.pending)
    } else {
        st.tokens
    }
}

/// Splits a text into tokens at white space; double quotes keep white space
/// inside a token and are themselves dropped. No token is empty.
pub fn tokenize(input: &str) -> (tokens: Vec<String>)
    ensures
        texts(tokens@) == tokens_of(input@),
{
    let v = chars_of(input);
    let mut tokens: Vec<String> = Vec::new();
    let mut cur = String::new();
    let mut in_quotes = false;
    let mut i: usize = 0;
    assert(v@.subrange(0, 0) =~= Seq::<char>::empty());
    assert(texts(tokens@) =~= Seq::<Seq<char>>::empty());
    while i < v.len()
        invariant
            i <= v.len(),
            lex(v@.subrange(0, i as int)) == (LexState {
                tokens: texts(tokens@),
                pending: cur@,
                in_quotes,
            }),
        decreases v.len() - i,
    {
        let ch = v[i];
        let ghost before = texts(tokens@);
        proof {
            let next = v@.subrange(0, i + 1);
            assert(next.drop_last() =~= v@.subrange(0, i as int));
            assert(next.last() == ch);
        }
        if ch == '"' {
            in_quotes = !in_quotes;
        } else if is_whitespace(ch) && !in_quotes {
            if !cur.as_str().is_empty() {
                tokens.push(cur);
                cur = String::new();
                assert(texts(tokens@) =~= before.push(lex(v@.subrange(0, i as int)).pending));
            }
        } else {
            push_char(&mut cur, ch);
        }
        i += 1;
    }
    assert(v@.subrange(0, i as int) =~= v@);
    if !cur.as_str().is_empty() {
        let ghost before = texts(tokens@);
        tokens.push(cur);
        assert(texts(tokens@) =~= before.push(cur@));
    }
    tokens
}

} // verus!
