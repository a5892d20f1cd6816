//! The reader: from text to tokens, and from tokens to a form.

use vstd::prelude::*;
use vstd::slice::*;
use vstd::string::*;
use crate::builtin::env::{EnvView, RispEnv};
use crate::exp::{ErrView, ExpView, RispErr, RispExp, lemma_views_push, named, views};
use crate::host::HostNum;
use crate::ir::backend::{CallView, next_ref};
use crate::ir::operate::build_int32_value;

verus! {

/// `c` is white space: a code point with the Unicode property `White_Space`.
pub open spec fn is_space(c: char) -> bool {
    let n = c as u32;
    ||| 0x09 <= n <= 0x0D
    ||| n == 0x20
    ||| n == 0x85
    ||| n == 0xA0
    ||| n == 0x1680
    ||| 0x2000 <= n <= 0x200A
    ||| n == 0x2028
    ||| n == 0x2029
    ||| n == 0x202F
    ||| n == 0x205F
    ||| n == 0x3000
}

/// `c` is one of the two parentheses.
pub open spec fn is_paren(c: char) -> bool {
    c == '(' || c == ')'
}

/// The pending word as a token, if there is one.
pub open spec fn flushed(word: Seq<char>) -> Seq<Seq<char>> {
    if word.len() > 0 {
        seq![word]
    } else {
        Seq::empty()
    }
}

/// The tokens of `text` read after the pending word `word`: white space ends a
/// word, a parenthesis ends a word and is a token by itself, and any other
/// character extends the word.
pub open spec fn scanned(text: Seq<char>, word: Seq<char>) -> Seq<Seq<char>>
    decreases text.len(),
{
    if text.len() == 0 {
        flushed(word)
    } else if is_space(text[0]) {
        flushed(word) + scanned(text.skip(1), Seq::empty())
    } else if is_paren(text[0]) {
        flushed(word) + seq![seq![text[0]]] + scanned(text.skip(1), Seq::empty())
    } else {
        scanned(text.skip(1), word.push(text[0]))
    }
}

/// The tokens of `text`: each parenthesis, and each longest run of characters
/// that are neither white space nor parentheses, in order.
pub open spec fn tokens_of(text: Seq<char>) -> Seq<Seq<char>> {
    scanned(text, Seq::empty())
}

/// The texts of `tokens`, in order.
pub open spec fn texts(tokens: Seq<String>) -> Seq<Seq<char>> {
    Seq::new(tokens.len(), |i: int| tokens[i]@)
}

/// Whether `c` is white space.
pub fn char_is_space(c: char) -> (b: bool)
    ensures
        b == is_space(c),
{
    let n = c as u32;
    (0x09 <= n && n <= 0x0D) || n == 0x20 || n == 0x85 || n == 0xA0 || n == 0x1680 || (0x2000 <= n
        && n <= 0x200A) || n == 0x2028 || n == 0x2029 || n == 0x202F || n == 0x205F || n == 0x3000
}

/// Splits `expr` into its tokens.
pub fn tokenize(expr: &str) -> (tokens: Vec<String>)
    ensures
        texts(tokens@) == tokens_of(expr@),
{
    let n = expr.unicode_len();
    let mut tokens: Vec<String> = Vec::new();
    let mut start: usize = 0;
    let mut i: usize = 0;
    proof {
        assert(expr@.skip(0) =~= expr@);
        assert(expr@.subrange(0, 0) =~= Seq::<char>::empty());
        assert(texts(tokens@) =~= Seq::<Seq<char>>::empty());
        assert(texts(tokens@) + tokens_of(expr@) =~= tokens_of(expr@));
    }
    while i < n
        invariant
            start <= i <= n,
            n == expr@.len(),
            texts(tokens@) + scanned(expr@.skip(i as int), expr@.subrange(start as int, i as int))
                == tokens_of(expr@),
        decreases n - i,
    {
        let c = expr.get_char(i);
        let ghost rest = expr@.skip(i as int);
        let ghost word = expr@.subrange(start as int, i as int);
        let ghost before = texts(tokens@);
        proof {
            assert(rest[0] == c);
            assert(rest.skip(1) =~= expr@.skip(i + 1));
        }
        if char_is_space(c) || c == '(' || c == ')' {
            if start < i {
                let token = expr.substring_char(start, i);
                tokens.push(String::from_str(token));
                proof {
                    assert(texts(tokens@) =~= before + flushed(word));
                }
            } else {
                proof {
                    assert(texts(tokens@) =~= before + flushed(word));
                }
            }
            if !char_is_space(c) {
                let ghost flushed_before = texts(tokens@);
                let token = expr.substring_char(i, i + 1);
                tokens.push(String::from_str(token));
                proof {
                    assert(expr@.subrange(i as int, i + 1) =~= seq![c]);
                    assert(texts(tokens@) =~= flushed_before + seq![seq![c]]);
                    assert(texts(tokens@) + scanned(expr@.skip(i + 1), Seq::empty()) =~= before + (
                    flushed(word) + seq![seq![c]] + scanned(rest.skip(1), Seq::empty())));
                }
            } else {
                proof {
                    assert(texts(tokens@) + scanned(expr@.skip(i + 1), Seq::empty()) =~= before + (
                    flushed(word) + scanned(rest.skip(1), Seq::empty())));
                }
            }
            start = i + 1;
            proof {
                assert(expr@.subrange(i + 1, i + 1) =~= Seq::<char>::empty());
            }
        } else {
            proof {
                assert(expr@.subrange(start as int, i + 1) =~= word.push(c));
            }
        }
        i = i + 1;
    }
    let ghost before = texts(tokens@);
    let ghost word = expr@.subrange(start as int, n as int);
    proof {
        assert(expr@.skip(n as int) =~= Seq::<char>::empty());
    }
    if start < n {
        let token = expr.substring_char(start, n);
        tokens.push(String::from_str(token));
        proof {
            assert(texts(tokens@) =~= before + flushed(word));
        }
    } else {
        proof {
            assert(texts(tokens@) =~= before + flushed(word));
        }
    }
    tokens
}

/// A token, together with what only floating-point parsing can tell of it: the
/// bit pattern of the number its text spells, or `None` if it spells none.
#[derive(Debug, PartialEq, Eq)]
pub struct Token {
    pub text: String,
    pub number: Option<u64>,
}

/// What a [`Token`] holds.
pub struct TokenView {
    pub text: Seq<char>,
    pub number: Option<u64>,
}

impl View for Token {
    type V = TokenView;

    open spec fn view(&self) -> TokenView {
        TokenView { text: self.text@, number: self.number }
    }
}

/// The tokens of a list, by their views.
pub open spec fn token_views(tokens: Seq<Token>) -> Seq<TokenView> {
    Seq::new(tokens.len(), |i: int| tokens[i]@)
}

/// The outcome of reading one form: the form and the tokens after it.
pub type Parsed = Result<(ExpView, Seq<TokenView>), ErrView>;

/// The atom that `token` stands for: a token that spells a number is that
/// number, with the 32-bit constant it converts to as its handle,
/// unmaterialized; any other token is a symbol.
pub open spec fn atom(env: EnvView, token: TokenView) -> (ExpView, EnvView) {
    match token.number {
        Some(bits) => (
            ExpView::Number(HostNum::Lit(bits), (next_ref(env.llvm), false)),
            env.emit(CallView::ConstNumber { value: HostNum::Lit(bits) }),
        ),
        None => (ExpView::Symbol(token.text), env),
    }
}

/// Reading one form from the front of `tokens`: `(` opens a list, `)` is
/// unexpected, anything else is an atom.
pub open spec fn parsed(tokens: Seq<TokenView>, env: EnvView) -> (Parsed, EnvView)
    decreases tokens.len(), 0nat,
{
    if tokens.len() == 0 {
        (Err(ErrView::NoToken), env)
    } else if tokens[0].text == "("@ {
        parsed_items(tokens.skip(1), env, Seq::empty())
    } else if tokens[0].text == ")"@ {
        (Err(ErrView::UnexpectedClose), env)
    } else {
        (Ok((atom(env, tokens[0]).0, tokens.skip(1))), atom(env, tokens[0]).1)
    }
}

/// Reading the rest of a list whose items so far are `items`: forms are read
/// one after the other until `)` closes the list; the tokens must not end
/// before that.
pub open spec fn parsed_items(tokens: Seq<TokenView>, env: EnvView, items: Seq<ExpView>) -> (
    Parsed,
    EnvView,
)
    decreases tokens.len(), 1nat,
{
    if tokens.len() == 0 {
        (Err(ErrView::MissingClose), env)
    } else if tokens[0].text == ")"@ {
        (Ok((ExpView::List(items), tokens.skip(1))), env)
    } else {
        let (item, env1) = parsed(tokens, env);
        match item {
            Err(error) => (Err(error), env1),
            Ok((form, rest)) => if rest.len() < tokens.len() {
                parsed_items(rest, env1, items.push(form))
            } else {
                (Err(ErrView::NoToken), env1)
            },
        }
    }
}

/// A form takes at least one token: what is left after it is shorter.
pub proof fn lemma_parsed_shorter(tokens: Seq<TokenView>, env: EnvView)
    ensures
        parsed(tokens, env).0 matches Ok((_, rest)) ==> rest.len() < tokens.len(),
    decreases tokens.len(), 0nat,
{
    if tokens.len() > 0 && tokens[0].text == "("@ {
        lemma_parsed_items_shorter(tokens.skip(1), env, Seq::empty());
    }
}

/// A list takes at least its closing token: what is left after it is shorter.
pub proof fn lemma_parsed_items_shorter(tokens: Seq<TokenView>, env: EnvView, items: Seq<ExpView>)
    ensures
        parsed_items(tokens, env, items).0 matches Ok((_, rest)) ==> rest.len() < tokens.len(),
    decreases tokens.len(), 1nat,
{
    if tokens.len() > 0 && tokens[0].text != ")"@ {
        let (item, env1) = parsed(tokens, env);
        lemma_parsed_shorter(tokens, env);
        if let Ok((form, rest)) = item {
            lemma_parsed_items_shorter(rest, env1, items.push(form));
        }
    }
}

/// The outcome of reading a form, by its views.
pub open spec fn parse_outcome(r: Result<(RispExp, &[Token]), RispErr>) -> Parsed {
    match r {
        Ok((form, rest)) => Ok((form@, token_views(rest@))),
        Err(error) => Err(error@),
    }
}

/// The atom that `token` stands for.
pub fn parse_atom(env: &mut RispEnv, token: &Token) -> (r: RispExp)
    ensures
        (r@, final(env)@) == atom(old(env)@, token@),
{
    match token.number {
        Some(bits) => {
            let value = HostNum::Lit(bits);
            let constant = build_int32_value(&mut env.llvm, &value);
            RispExp::Number(value, (constant, false))
        },
        None => RispExp::Symbol(token.text.clone()),
    }
}

/// Reads one form from the front of `tokens` and returns it with the tokens
/// after it.
pub fn parse<'a>(env: &mut RispEnv, tokens: &'a [Token]) -> (r: Result<
    (RispExp, &'a [Token]),
    RispErr,
>)
    ensures
        (parse_outcome(r), final(env)@) == parsed(token_views(tokens@), old(env)@),
    decreases tokens@.len(), 0nat,
{
    if tokens.len() == 0 {
        return Err(RispErr::NoToken);
    }
    let token = &tokens[0];
    let rest = slice_subrange(tokens, 1, tokens.len());
    proof {
        assert(token_views(rest@) =~= token_views(tokens@).skip(1));
    }
    if named(&token.text, "(") {
        read_seq(env, rest)
    } else if named(&token.text, ")") {
        Err(RispErr::UnexpectedClose)
    } else {
        Ok((parse_atom(env, token), rest))
    }
}

/// Reads the items of a list, up to and including the `)` that closes it, and
/// returns the list with the tokens after it.
pub fn read_seq<'a>(env: &mut RispEnv, tokens: &'a [Token]) -> (r: Result<
    (RispExp, &'a [Token]),
    RispErr,
>)
    ensures
        (parse_outcome(r), final(env)@) == parsed_items(
            token_views(tokens@),
            old(env)@,
            Seq::empty(),
        ),
    decreases tokens@.len(), 1nat,
{
    let mut res: Vec<RispExp> = Vec::new();
    let mut xs = tokens;
    let ghost start = env@;
    proof {
        assert(views(res@) =~= Seq::<ExpView>::empty());
    }
    loop
        invariant
            xs@.len() <= tokens@.len(),
            start == old(env)@,
            parsed_items(token_views(xs@), env@, views(res@)) == parsed_items(
                token_views(tokens@),
                start,
                Seq::empty(),
            ),
        decreases xs@.len(),
    {
        if xs.len() == 0 {
            return Err(RispErr::MissingClose);
        }
        if named(&xs[0].text, ")") {
            let rest = slice_subrange(xs, 1, xs.len());
            proof {
                assert(token_views(rest@) =~= token_views(xs@).skip(1));
            }
            return Ok((RispExp::List(res), rest));
        }
        proof {
            lemma_parsed_shorter(token_views(xs@), env@);
        }
        let (exp, new_xs) = match parse(env, xs) {
            Ok(item) => item,
            Err(error) => {
                return Err(error);
            },
        };
        proof {
            lemma_views_push(res@, exp);
        }
        res.push(exp);
        xs = new_xs;
    }
}

} // verus!
