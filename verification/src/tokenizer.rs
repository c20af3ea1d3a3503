//! Path-data lexer.
//!
//! Splits a path-data string into command letters and numeric-literal texts
//! in one forward pass. Any ASCII letter is its own token; `-` always starts
//! a new numeric token; a second `.` inside a numeric token closes it and
//! starts a new one; `e`/`E` inside a numeric token is consumed together
//! with an immediately following sign; `,` and whitespace close the current
//! token without emitting anything; any other character is ignored. The
//! lexer never fails.

use vstd::prelude::*;

verus! {

/// One lexical item of the path-data grammar.
#[derive(Debug, Clone, PartialEq, Eq)]
pub enum Token {
    /// A single ASCII letter.
    Command(char),
    /// The text of one signed numeric literal. Arc flag bits are numeric
    /// tokens, read back as flags where the grammar calls for one.
    Number(String),
}

/// Mathematical image of a [`Token`].
pub ghost enum TokenView {
    Command(char),
    Number(Seq<char>),
}

impl View for Token {
    type V = TokenView;

    open spec fn view(&self) -> TokenView {
        match self {
            Token::Command(c) => TokenView::Command(*c),
            Token::Number(t) => TokenView::Number(t@),
        }
    }
}

/// An ASCII letter.
pub open spec fn spec_is_letter(c: char) -> bool {
    ('a' <= c && c <= 'z') || ('A' <= c && c <= 'Z')
}

/// An ASCII decimal digit.
pub open spec fn spec_is_digit(c: char) -> bool {
    '0' <= c && c <= '9'
}

/// A whitespace character: the Unicode `White_Space` set, which is what
/// `char::is_whitespace` tests.
pub open spec fn spec_is_space(c: char) -> bool {
    ||| c == ' '
    ||| c == '\t'
    ||| c == '\n'
    ||| c == '\u{B}'
    ||| c == '\u{C}'
    ||| c == '\r'
    ||| c == '\u{85}'
    ||| c == '\u{A0}'
    ||| c == '\u{1680}'
    ||| ('\u{2000}' <= c && c <= '\u{200A}')
    ||| c == '\u{2028}'
    ||| c == '\u{2029}'
    ||| c == '\u{202F}'
    ||| c == '\u{205F}'
    ||| c == '\u{3000}'
}

/// Runtime test for [`spec_is_letter`].
pub fn is_letter_ch(c: char) -> (r: bool)
    ensures
        r == spec_is_letter(c),
{
    ('a' <= c && c <= 'z') || ('A' <= c && c <= 'Z')
}

/// Runtime test for [`spec_is_digit`].
pub fn is_digit_ch(c: char) -> (r: bool)
    ensures
        r == spec_is_digit(c),
{
    '0' <= c && c <= '9'
}

/// Runtime test for [`spec_is_space`].
pub fn is_space_ch(c: char) -> (r: bool)
    ensures
        r == spec_is_space(c),
{
    c == ' ' || c == '\t' || c == '\n' || c == '\u{B}' || c == '\u{C}' || c == '\r'
        || c == '\u{85}' || c == '\u{A0}' || c == '\u{1680}'
        || ('\u{2000}' <= c && c <= '\u{200A}') || c == '\u{2028}' || c == '\u{2029}'
        || c == '\u{202F}' || c == '\u{205F}' || c == '\u{3000}'
}

/// Relies on `String::push`: appends exactly one character.
#[verifier::external_body]
pub(crate) fn push_char(s: &mut String, c: char)
    ensures
        (*final(s))@ == (*old(s))@.push(c),
{
    s.push(c)
}

/// The pending numeric text as tokens: nothing if it is empty, else one
/// `Number` token.
pub open spec fn flush(cur: Seq<char>) -> Seq<TokenView> {
    if cur.len() == 0 {
        seq![]
    } else {
        seq![TokenView::Number(cur)]
    }
}

/// The tokens produced from `s` from position `i` on, with `cur` the
/// numeric text accumulated so far.
pub open spec fn spec_tokenize_from(s: Seq<char>, i: int, cur: Seq<char>) -> Seq<TokenView>
    decreases s.len() - i,
{
    if i < 0 || i >= s.len() {
        flush(cur)
    } else {
        let c = s[i];
        if (c == 'e' || c == 'E') && cur.len() > 0 {
            if i + 1 < s.len() && (s[i + 1] == '+' || s[i + 1] == '-') {
                spec_tokenize_from(s, i + 2, cur.push(c).push(s[i + 1]))
            } else {
                spec_tokenize_from(s, i + 1, cur.push(c))
            }
        } else if spec_is_letter(c) {
            flush(cur) + seq![TokenView::Command(c)] + spec_tokenize_from(s, i + 1, seq![])
        } else if c == '-' {
            flush(cur) + spec_tokenize_from(s, i + 1, seq!['-'])
        } else if c == '.' {
            if cur.contains('.') {
                flush(cur) + spec_tokenize_from(s, i + 1, seq!['.'])
            } else {
                spec_tokenize_from(s, i + 1, cur.push('.'))
            }
        } else if spec_is_digit(c) {
            spec_tokenize_from(s, i + 1, cur.push(c))
        } else if c == ',' || spec_is_space(c) {
            flush(cur) + spec_tokenize_from(s, i + 1, seq![])
        } else {
            spec_tokenize_from(s, i + 1, cur)
        }
    }
}

/// The token sequence of a whole path-data string.
pub open spec fn spec_tokenize(s: Seq<char>) -> Seq<TokenView> {
    spec_tokenize_from(s, 0, seq![])
}

/// Closes the pending numeric token, if any, and hands back an empty
/// accumulator.
fn close_pending(toks: &mut Vec<Token>, cur: String) -> (new_cur: String)
    ensures
        (*final(toks))@.map_values(|t: Token| t@) == (*old(toks))@.map_values(|t: Token| t@)
            + flush(cur@),
        new_cur@ == Seq::<char>::empty(),
{
    if cur.as_str().is_empty() {
        proof {
            assert((*toks)@.map_values(|t: Token| t@) =~~= (*old(toks))@.map_values(
                |t: Token| t@,
            ) + flush(cur@));
        }
        cur
    } else {
        let ghost cur_v = cur@;
        toks.push(Token::Number(cur));
        proof {
            assert((*toks)@.map_values(|t: Token| t@) =~~= (*old(toks))@.map_values(
                |t: Token| t@,
            ) + flush(cur_v));
        }
        String::new()
    }
}

/// Lexes a path-data string into its token sequence.
pub fn tokenize_svg_path(d: &str) -> (tokens: Vec<Token>)
    ensures
        tokens@.map_values(|t: Token| t@) == spec_tokenize(d@),
{
    let n = d.unicode_len();
    let mut toks: Vec<Token> = Vec::new();
    let mut cur = String::new();
    let mut i: usize = 0;

    while i < n
        invariant
            n == d@.len(),
            i <= n,
            spec_tokenize(d@) == toks@.map_values(|t: Token| t@) + spec_tokenize_from(
                d@,
                i as int,
                cur@,
            ),
        decreases n - i,
    {
        let ghost s = d@;
        let ghost i0 = i as int;
        let ghost cur0 = cur@;
        let ghost m0 = toks@.map_values(|t: Token| t@);
        let c = d.get_char(i);
        let cur_empty = cur.as_str().is_empty();
        if (c == 'e' || c == 'E') && !cur_empty {
            push_char(&mut cur, c);
            let mut consumed: usize = 1;
            if i + 1 < n {
                let c2 = d.get_char(i + 1);
                if c2 == '+' || c2 == '-' {
                    push_char(&mut cur, c2);
                    consumed = 2;
                }
            }
            i += consumed;
            proof {
                assert(spec_tokenize_from(s, i0, cur0) == spec_tokenize_from(s, i as int, cur@));
            }
        } else if is_letter_ch(c) {
            cur = close_pending(&mut toks, cur);
            toks.push(Token::Command(c));
            i += 1;
            proof {
                assert(toks@.map_values(|t: Token| t@) =~~= m0 + flush(cur0) + seq![
                    TokenView::Command(c),
                ]);
                assert(spec_tokenize_from(s, i0, cur0) =~~= flush(cur0) + seq![
                    TokenView::Command(c),
                ] + spec_tokenize_from(s, i as int, cur@));
                assert(spec_tokenize(s) =~~= toks@.map_values(|t: Token| t@)
                    + spec_tokenize_from(s, i as int, cur@));
            }
        } else if c == '-' {
            cur = close_pending(&mut toks, cur);
            push_char(&mut cur, c);
            i += 1;
            proof {
                assert(cur@ =~= seq!['-']);
                assert(spec_tokenize_from(s, i0, cur0) =~~= flush(cur0) + spec_tokenize_from(
                    s,
                    i as int,
                    cur@,
                ));
                assert(spec_tokenize(s) =~~= toks@.map_values(|t: Token| t@)
                    + spec_tokenize_from(s, i as int, cur@));
            }
        } else if c == '.' {
            let has_dot = contains_dot(&cur);
            if has_dot {
                cur = close_pending(&mut toks, cur);
            }
            push_char(&mut cur, c);
            i += 1;
            proof {
                if cur0.contains('.') {
                    assert(cur@ =~= seq!['.']);
                    assert(spec_tokenize_from(s, i0, cur0) =~~= flush(cur0) + spec_tokenize_from(
                        s,
                        i as int,
                        cur@,
                    ));
                    assert(spec_tokenize(s) =~~= toks@.map_values(|t: Token| t@)
                        + spec_tokenize_from(s, i as int, cur@));
                } else {
                    assert(spec_tokenize_from(s, i0, cur0) == spec_tokenize_from(
                        s,
                        i as int,
                        cur@,
                    ));
                }
            }
        } else if is_digit_ch(c) {
            push_char(&mut cur, c);
            i += 1;
            proof {
                assert(spec_tokenize_from(s, i0, cur0) == spec_tokenize_from(s, i as int, cur@));
            }
        } else if c == ',' || is_space_ch(c) {
            cur = close_pending(&mut toks, cur);
            i += 1;
            proof {
                assert(spec_tokenize_from(s, i0, cur0) =~~= flush(cur0) + spec_tokenize_from(
                    s,
                    i as int,
                    cur@,
                ));
                assert(spec_tokenize(s) =~~= toks@.map_values(|t: Token| t@)
                    + spec_tokenize_from(s, i as int, cur@));
            }
        } else {
            i += 1;
            proof {
                assert(spec_tokenize_from(s, i0, cur0) == spec_tokenize_from(s, i as int, cur@));
            }
        }
    }

    let ghost m1 = toks@.map_values(|t: Token| t@);
    let ghost cur1 = cur@;
    if !cur.as_str().is_empty() {
        toks.push(Token::Number(cur));
    }
    proof {
        assert(toks@.map_values(|t: Token| t@) =~~= m1 + flush(cur1));
        assert(toks@.map_values(|t: Token| t@) =~~= spec_tokenize(d@));
    }
    toks
}

/// The text a token stands for: the letter itself for a command, the
/// literal text for a number.
pub open spec fn token_text(t: TokenView) -> Seq<char> {
    match t {
        TokenView::Command(c) => seq![c],
        TokenView::Number(x) => x,
    }
}

/// Concatenation of the texts of all tokens, in order.
pub open spec fn token_texts(ts: Seq<TokenView>) -> Seq<char>
    decreases ts.len(),
{
    if ts.len() == 0 {
        seq![]
    } else {
        token_text(ts[0]) + token_texts(ts.skip(1))
    }
}

/// A character that forms part of a numeric literal or a command letter
/// (as opposed to separators, signs after exponents, and ignored text).
pub open spec fn significant_char(c: char) -> bool {
    spec_is_letter(c) || spec_is_digit(c) || c == '.' || c == '-'
}

/// The significance predicate as a function value, for `Seq::filter`.
pub open spec fn sig_pred() -> spec_fn(char) -> bool {
    |c: char| significant_char(c)
}

/// A character that can stand inside a numeric token's text.
pub open spec fn number_char(c: char) -> bool {
    spec_is_digit(c) || c == '.' || c == '-' || c == '+' || c == 'e' || c == 'E'
}

/// Shape of a single lexed token: a command is one ASCII letter; a number
/// is nonempty and holds only numeric-literal characters.
pub open spec fn token_wf(t: TokenView) -> bool {
    match t {
        TokenView::Command(c) => spec_is_letter(c),
        TokenView::Number(x) => x.len() > 0 && (forall|k: int|
            0 <= k < x.len() ==> number_char(x[k])),
    }
}

proof fn lemma_texts_flush(cur: Seq<char>)
    ensures
        token_texts(flush(cur)) == cur,
{
    reveal_with_fuel(token_texts, 2);
    if cur.len() == 0 {
        assert(token_texts(flush(cur)) =~= cur);
    } else {
        assert(seq![TokenView::Number(cur)].skip(1) =~= Seq::<TokenView>::empty());
        assert(token_texts(flush(cur)) =~= cur);
    }
}

proof fn lemma_texts_single(t: TokenView)
    ensures
        token_texts(seq![t]) == token_text(t),
{
    reveal_with_fuel(token_texts, 2);
    assert(seq![t].skip(1) =~= Seq::<TokenView>::empty());
    assert(token_texts(seq![t]) =~= token_text(t));
}

proof fn lemma_token_texts_add(a: Seq<TokenView>, b: Seq<TokenView>)
    ensures
        token_texts(a + b) == token_texts(a) + token_texts(b),
    decreases a.len(),
{
    if a.len() == 0 {
        assert(a + b =~= b);
        assert(token_texts(a) + token_texts(b) =~= token_texts(b));
    } else {
        assert((a + b).skip(1) =~= a.skip(1) + b);
        lemma_token_texts_add(a.skip(1), b);
        assert(token_texts(a + b) =~= token_texts(a) + token_texts(b));
    }
}

proof fn lemma_filter_insignificant(c: char)
    requires
        !significant_char(c),
    ensures
        seq![c].filter(sig_pred()) == Seq::<char>::empty(),
{
    reveal_with_fuel(Seq::filter, 2);
    assert(seq![c].drop_last() =~= Seq::<char>::empty());
}

proof fn lemma_tokenize_from_covers(s: Seq<char>, i: int, cur: Seq<char>)
    requires
        0 <= i <= s.len(),
    ensures
        token_texts(spec_tokenize_from(s, i, cur)).filter(sig_pred()) == (cur + s.skip(
            i,
        )).filter(sig_pred()),
    decreases s.len() - i,
{
    broadcast use Seq::filter_distributes_over_add;

    if i >= s.len() {
        assert(s.skip(i) =~= Seq::<char>::empty());
        assert(cur + s.skip(i) =~= cur);
        lemma_texts_flush(cur);
    } else {
        let c = s[i];
        assert(s.skip(i) =~= seq![c] + s.skip(i + 1));
        if (c == 'e' || c == 'E') && cur.len() > 0 {
            if i + 1 < s.len() && (s[i + 1] == '+' || s[i + 1] == '-') {
                let d = s[i + 1];
                assert(s.skip(i + 1) =~= seq![d] + s.skip(i + 2));
                lemma_tokenize_from_covers(s, i + 2, cur.push(c).push(d));
                assert(cur.push(c).push(d) + s.skip(i + 2) =~= cur + s.skip(i));
            } else {
                lemma_tokenize_from_covers(s, i + 1, cur.push(c));
                assert(cur.push(c) + s.skip(i + 1) =~= cur + s.skip(i));
            }
        } else if spec_is_letter(c) {
            lemma_tokenize_from_covers(s, i + 1, seq![]);
            lemma_token_texts_add(flush(cur) + seq![TokenView::Command(c)], spec_tokenize_from(s, i + 1, seq![]));
            lemma_token_texts_add(flush(cur), seq![TokenView::Command(c)]);
            lemma_texts_flush(cur);
            lemma_texts_single(TokenView::Command(c));
            assert(Seq::<char>::empty() + s.skip(i + 1) =~= s.skip(i + 1));
            assert(token_texts(spec_tokenize_from(s, i, cur)).filter(sig_pred()) =~= (cur + s.skip(
                i,
            )).filter(sig_pred()));
        } else if c == '-' {
            lemma_tokenize_from_covers(s, i + 1, seq!['-']);
            lemma_token_texts_add(flush(cur), spec_tokenize_from(s, i + 1, seq!['-']));
            lemma_texts_flush(cur);
            assert(seq!['-'] + s.skip(i + 1) =~= seq![c] + s.skip(i + 1));
            assert(token_texts(spec_tokenize_from(s, i, cur)).filter(sig_pred()) =~= (cur + s.skip(
                i,
            )).filter(sig_pred()));
        } else if c == '.' {
            if cur.contains('.') {
                lemma_tokenize_from_covers(s, i + 1, seq!['.']);
                lemma_token_texts_add(flush(cur), spec_tokenize_from(s, i + 1, seq!['.']));
                lemma_texts_flush(cur);
                assert(seq!['.'] + s.skip(i + 1) =~= seq![c] + s.skip(i + 1));
                assert(token_texts(spec_tokenize_from(s, i, cur)).filter(sig_pred()) =~= (cur
                    + s.skip(i)).filter(sig_pred()));
            } else {
                lemma_tokenize_from_covers(s, i + 1, cur.push('.'));
                assert(cur.push('.') + s.skip(i + 1) =~= cur + s.skip(i));
            }
        } else if spec_is_digit(c) {
            lemma_tokenize_from_covers(s, i + 1, cur.push(c));
            assert(cur.push(c) + s.skip(i + 1) =~= cur + s.skip(i));
        } else if c == ',' || spec_is_space(c) {
            lemma_tokenize_from_covers(s, i + 1, seq![]);
            lemma_token_texts_add(flush(cur), spec_tokenize_from(s, i + 1, seq![]));
            lemma_texts_flush(cur);
            lemma_filter_insignificant(c);
            assert(Seq::<char>::empty() + s.skip(i + 1) =~= s.skip(i + 1));
            assert((cur + s.skip(i)).filter(sig_pred()) =~= cur.filter(sig_pred()) + seq![
                c,
            ].filter(sig_pred()) + s.skip(i + 1).filter(sig_pred()));
            assert(token_texts(spec_tokenize_from(s, i, cur)).filter(sig_pred()) =~= (cur + s.skip(
                i,
            )).filter(sig_pred()));
        } else {
            lemma_tokenize_from_covers(s, i + 1, cur);
            lemma_filter_insignificant(c);
            assert((cur + s.skip(i)).filter(sig_pred()) =~= cur.filter(sig_pred()) + seq![
                c,
            ].filter(sig_pred()) + s.skip(i + 1).filter(sig_pred()));
            assert(token_texts(spec_tokenize_from(s, i, cur)).filter(sig_pred()) =~= (cur + s.skip(
                i,
            )).filter(sig_pred()));
        }
    }
}

/// Law: re-tokenizing keeps exactly the significant characters of the
/// input, in order — the lexer neither skips nor duplicates a character
/// that forms part of a numeric literal or a command letter (whitespace and
/// commas excluded).
pub proof fn lemma_tokenize_preserves_significant_chars(s: Seq<char>)
    ensures
        token_texts(spec_tokenize(s)).filter(sig_pred()) == s.filter(sig_pred()),
{
    lemma_tokenize_from_covers(s, 0, seq![]);
    assert(Seq::<char>::empty() + s.skip(0) =~= s);
}

proof fn lemma_tokenize_from_wf(s: Seq<char>, i: int, cur: Seq<char>)
    requires
        0 <= i <= s.len(),
        forall|k: int| 0 <= k < cur.len() ==> number_char(cur[k]),
    ensures
        forall|k: int|
            0 <= k < spec_tokenize_from(s, i, cur).len() ==> token_wf(
                #[trigger] spec_tokenize_from(s, i, cur)[k],
            ),
    decreases s.len() - i,
{
    let r = spec_tokenize_from(s, i, cur);
    assert(cur.len() > 0 ==> token_wf(TokenView::Number(cur)));
    if i >= s.len() {
        if cur.len() > 0 {
            assert(r =~= seq![TokenView::Number(cur)]);
        }
    } else {
        let c = s[i];
        if (c == 'e' || c == 'E') && cur.len() > 0 {
            if i + 1 < s.len() && (s[i + 1] == '+' || s[i + 1] == '-') {
                lemma_tokenize_from_wf(s, i + 2, cur.push(c).push(s[i + 1]));
                assert(r == spec_tokenize_from(s, i + 2, cur.push(c).push(s[i + 1])));
            } else {
                lemma_tokenize_from_wf(s, i + 1, cur.push(c));
                assert(r == spec_tokenize_from(s, i + 1, cur.push(c)));
            }
        } else if spec_is_letter(c) {
            lemma_tokenize_from_wf(s, i + 1, seq![]);
            assert(r == flush(cur) + seq![TokenView::Command(c)] + spec_tokenize_from(
                s,
                i + 1,
                seq![],
            ));
            assert(forall|k: int| 0 <= k < r.len() ==> token_wf(#[trigger] r[k]));
        } else if c == '-' {
            lemma_tokenize_from_wf(s, i + 1, seq!['-']);
            assert(r == flush(cur) + spec_tokenize_from(s, i + 1, seq!['-']));
            assert(forall|k: int| 0 <= k < r.len() ==> token_wf(#[trigger] r[k]));
        } else if c == '.' {
            if cur.contains('.') {
                lemma_tokenize_from_wf(s, i + 1, seq!['.']);
                assert(r == flush(cur) + spec_tokenize_from(s, i + 1, seq!['.']));
                assert(forall|k: int| 0 <= k < r.len() ==> token_wf(#[trigger] r[k]));
            } else {
                lemma_tokenize_from_wf(s, i + 1, cur.push('.'));
                assert(r == spec_tokenize_from(s, i + 1, cur.push('.')));
            }
        } else if spec_is_digit(c) {
            lemma_tokenize_from_wf(s, i + 1, cur.push(c));
            assert(r == spec_tokenize_from(s, i + 1, cur.push(c)));
        } else if c == ',' || spec_is_space(c) {
            lemma_tokenize_from_wf(s, i + 1, seq![]);
            assert(r == flush(cur) + spec_tokenize_from(s, i + 1, seq![]));
            assert(forall|k: int| 0 <= k < r.len() ==> token_wf(#[trigger] r[k]));
        } else {
            lemma_tokenize_from_wf(s, i + 1, cur);
            assert(r == spec_tokenize_from(s, i + 1, cur));
        }
    }
}

/// Every token the lexer produces is well formed: commands are single
/// ASCII letters, numbers are nonempty texts of numeric-literal characters.
pub proof fn lemma_tokenize_tokens_wf(s: Seq<char>)
    ensures
        forall|k: int|
            0 <= k < spec_tokenize(s).len() ==> token_wf(#[trigger] spec_tokenize(s)[k]),
{
    lemma_tokenize_from_wf(s, 0, seq![]);
}

/// Whether the pending numeric text already holds a decimal point.
fn contains_dot(s: &String) -> (r: bool)
    ensures
        r == s@.contains('.'),
{
    let st = s.as_str();
    let n = st.unicode_len();
    let mut i: usize = 0;
    while i < n
        invariant
            n == st@.len(),
            st@ == s@,
            i <= n,
            forall|k: int| 0 <= k < i ==> s@[k] != '.',
        decreases n - i,
    {
        if st.get_char(i) == '.' {
            return true;
        }
        i += 1;
    }
    false
}

} // verus!
