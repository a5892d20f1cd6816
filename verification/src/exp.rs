//! The values that flow through evaluation, and the errors that end it.

use vstd::prelude::*;
use vstd::string::*;
use crate::host::HostNum;
use crate::ir::backend::ValueRef;

verus! {

/// A built-in operation.
#[derive(Clone, Copy, Debug, PartialEq, Eq, Structural)]
pub enum Builtin {
    Add,
    Sub,
    Mul,
    Div,
    Printf,
    Input,
}

/// An expression value.
#[derive(Debug, PartialEq, Eq)]
pub enum RispExp {
    /// Absence of a value.
    Null,
    /// An identifier, resolved against the symbol table.
    Symbol(String),
    /// A number: its host value and its backend reference. The flag says
    /// whether the reference already is the computed value (`true`) or names a
    /// storage location that has to be loaded first (`false`).
    Number(HostNum, (ValueRef, bool)),
    /// A parsed form, or a list value.
    List(Vec<RispExp>),
    /// A built-in operation bound to its name.
    Func(String, Builtin),
}

/// What a [`RispExp`] holds.
pub enum ExpView {
    Null,
    Symbol(Seq<char>),
    Number(HostNum, (ValueRef, bool)),
    List(Seq<ExpView>),
    Func(Seq<char>, Builtin),
}

/// What the expression `e` holds.
pub open spec fn exp_view(e: RispExp) -> ExpView
    decreases e,
{
    match e {
        RispExp::Null => ExpView::Null,
        RispExp::Symbol(name) => ExpView::Symbol(name@),
        RispExp::Number(value, handle) => ExpView::Number(value, handle),
        RispExp::List(items) => ExpView::List(views(items@)),
        RispExp::Func(name, op) => ExpView::Func(name@, op),
    }
}

/// The views of the items of `items`, in order.
pub open spec fn views(items: Seq<RispExp>) -> Seq<ExpView>
    decreases items,
{
    if items.len() == 0 {
        Seq::empty()
    } else {
        views(items.drop_last()).push(exp_view(items.last()))
    }
}

impl View for RispExp {
    type V = ExpView;

    open spec fn view(&self) -> ExpView {
        exp_view(*self)
    }
}

/// `views` maps item by item.
pub proof fn lemma_views(items: Seq<RispExp>)
    ensures
        views(items).len() == items.len(),
        forall|i: int| 0 <= i < items.len() ==> (#[trigger] views(items)[i]) == items[i]@,
    decreases items.len(),
{
    if items.len() > 0 {
        lemma_views(items.drop_last());
    }
}

/// `views` of a list with one more item.
pub proof fn lemma_views_push(items: Seq<RispExp>, item: RispExp)
    ensures
        views(items.push(item)) == views(items).push(item@),
{
    assert(items.push(item).drop_last() =~= items);
}

/// `views` of a part of a list.
pub proof fn lemma_views_subrange(items: Seq<RispExp>, from: int, to: int)
    requires
        0 <= from <= to <= items.len(),
    ensures
        views(items.subrange(from, to)) == views(items).subrange(from, to),
{
    lemma_views(items);
    lemma_views(items.subrange(from, to));
    assert(views(items.subrange(from, to)) =~= views(items).subrange(from, to));
}

/// Why an evaluation stopped without a value.
#[derive(Debug, PartialEq, Eq)]
pub enum RispErr {
    /// A form was expected where the tokens end.
    NoToken,
    /// A `)` stands where a form was expected.
    UnexpectedClose,
    /// The tokens end inside a list.
    MissingClose,
    /// The name is not in the symbol table.
    UnresolvedSymbol(String),
    /// An argument that has to be a number is not one.
    TypeMismatch,
    /// The operation was given fewer arguments than it needs.
    Arity,
    /// An empty list was evaluated.
    EmptyList,
    /// The first form of a list did not evaluate to a function.
    NotAFunction,
    /// A function value stands where it is not being called.
    UnexpectedForm,
    /// The function's name has no dispatch rule.
    FunctionNotFound,
    /// `input` was applied without a storage location to read into.
    MissingSlot,
    /// `input` was reached after every supplied line had been used.
    InputExhausted,
}

/// What a [`RispErr`] holds.
pub enum ErrView {
    NoToken,
    UnexpectedClose,
    MissingClose,
    UnresolvedSymbol(Seq<char>),
    TypeMismatch,
    Arity,
    EmptyList,
    NotAFunction,
    UnexpectedForm,
    FunctionNotFound,
    MissingSlot,
    InputExhausted,
}

impl View for RispErr {
    type V = ErrView;

    open spec fn view(&self) -> ErrView {
        match self {
            RispErr::NoToken => ErrView::NoToken,
            RispErr::UnexpectedClose => ErrView::UnexpectedClose,
            RispErr::MissingClose => ErrView::MissingClose,
            RispErr::UnresolvedSymbol(name) => ErrView::UnresolvedSymbol(name@),
            RispErr::TypeMismatch => ErrView::TypeMismatch,
            RispErr::Arity => ErrView::Arity,
            RispErr::EmptyList => ErrView::EmptyList,
            RispErr::NotAFunction => ErrView::NotAFunction,
            RispErr::UnexpectedForm => ErrView::UnexpectedForm,
            RispErr::FunctionNotFound => ErrView::FunctionNotFound,
            RispErr::MissingSlot => ErrView::MissingSlot,
            RispErr::InputExhausted => ErrView::InputExhausted,
        }
    }
}

/// The outcome of an evaluation, by its views.
pub open spec fn outcome(r: Result<RispExp, RispErr>) -> Result<ExpView, ErrView> {
    match r {
        Ok(value) => Ok(value@),
        Err(error) => Err(error@),
    }
}

/// A piece of the text of a value: text as it stands, or a number that is
/// still to be written in decimal.
#[derive(Debug, PartialEq, Eq)]
pub enum TextPiece {
    Text(String),
    Number(HostNum),
}

/// What a [`TextPiece`] holds.
pub enum PieceView {
    Text(Seq<char>),
    Number(HostNum),
}

impl View for TextPiece {
    type V = PieceView;

    open spec fn view(&self) -> PieceView {
        match self {
            TextPiece::Text(text) => PieceView::Text(text@),
            TextPiece::Number(value) => PieceView::Number(*value),
        }
    }
}

/// The pieces of a list, by their views.
pub open spec fn piece_views(pieces: Seq<TextPiece>) -> Seq<PieceView> {
    Seq::new(pieces.len(), |i: int| pieces[i]@)
}

/// The text of the value `exp`, in pieces: a symbol is its name, a number is
/// the number, a list is its items between parentheses with a comma between
/// them, a function is `Function` and its name, and `Null` is `null`.
pub open spec fn rendered(exp: ExpView) -> Seq<PieceView>
    decreases exp, 0nat,
{
    match exp {
        ExpView::Null => seq![PieceView::Text("null"@)],
        ExpView::Symbol(name) => seq![PieceView::Text(name)],
        ExpView::Number(value, _) => seq![PieceView::Number(value)],
        ExpView::List(items) => seq![PieceView::Text("("@)] + rendered_items(items) + seq![
            PieceView::Text(")"@),
        ],
        ExpView::Func(name, _) => seq![PieceView::Text("Function "@ + name)],
    }
}

/// The texts of `items`, with a comma between one and the next.
pub open spec fn rendered_items(items: Seq<ExpView>) -> Seq<PieceView>
    decreases items, 0nat,
{
    if items.len() == 0 {
        Seq::empty()
    } else if items.len() == 1 {
        rendered(items[0])
    } else {
        rendered_items(items.drop_last()) + seq![PieceView::Text(","@)] + rendered(items.last())
    }
}

/// The text that says why an evaluation stopped.
pub open spec fn message_text(error: ErrView) -> Seq<char> {
    match error {
        ErrView::NoToken => "could not get token"@,
        ErrView::UnexpectedClose => "unexpected `)`"@,
        ErrView::MissingClose => "could not find closing `)`"@,
        ErrView::UnresolvedSymbol(name) => "unexpected symbol k='"@ + name + "'"@,
        ErrView::TypeMismatch => "expected a number"@,
        ErrView::Arity => "Missing argument!"@,
        ErrView::EmptyList => "expected a non-empty list"@,
        ErrView::NotAFunction => "first form must be a function"@,
        ErrView::UnexpectedForm => "unexpected form"@,
        ErrView::FunctionNotFound => "function not found"@,
        ErrView::MissingSlot => "no location to read into"@,
        ErrView::InputExhausted => "no input line left"@,
    }
}

impl RispErr {
    /// The text that says why the evaluation stopped.
    pub fn message(&self) -> (text: String)
        ensures
            text@ == message_text(self@),
    {
        match self {
            RispErr::NoToken => String::from_str("could not get token"),
            RispErr::UnexpectedClose => String::from_str("unexpected `)`"),
            RispErr::MissingClose => String::from_str("could not find closing `)`"),
            RispErr::UnresolvedSymbol(name) => String::from_str("unexpected symbol k='").concat(
                name.as_str(),
            ).concat("'"),
            RispErr::TypeMismatch => String::from_str("expected a number"),
            RispErr::Arity => String::from_str("Missing argument!"),
            RispErr::EmptyList => String::from_str("expected a non-empty list"),
            RispErr::NotAFunction => String::from_str("first form must be a function"),
            RispErr::UnexpectedForm => String::from_str("unexpected form"),
            RispErr::FunctionNotFound => String::from_str("function not found"),
            RispErr::MissingSlot => String::from_str("no location to read into"),
            RispErr::InputExhausted => String::from_str("no input line left"),
        }
    }
}

/// Appends copies of the pieces `more` to `pieces`.
fn extend_pieces(pieces: &mut Vec<TextPiece>, more: &Vec<TextPiece>)
    ensures
        piece_views(final(pieces)@) == piece_views(old(pieces)@) + piece_views(more@),
{
    let mut i: usize = 0;
    proof {
        assert(piece_views(pieces@) =~= piece_views(old(pieces)@) + piece_views(more@).take(0));
    }
    while i < more.len()
        invariant
            i <= more.len(),
            piece_views(pieces@) == piece_views(old(pieces)@) + piece_views(more@).take(i as int),
        decreases more.len() - i,
    {
        let ghost before = piece_views(pieces@);
        let copy = match &more[i] {
            TextPiece::Text(text) => TextPiece::Text(text.clone()),
            TextPiece::Number(value) => TextPiece::Number(value.duplicate()),
        };
        pieces.push(copy);
        proof {
            assert(piece_views(pieces@) =~= before.push(more@[i as int]@));
            assert(piece_views(more@).take(i + 1) =~= piece_views(more@).take(i as int).push(
                more@[i as int]@,
            ));
        }
        i = i + 1;
    }
    proof {
        assert(piece_views(more@).take(more@.len() as int) =~= piece_views(more@));
    }
}

/// Whether `name` is spelled `literal`.
pub fn named(name: &String, literal: &str) -> (b: bool)
    ensures
        b == (name@ == literal@),
{
    *name == String::from_str(literal)
}

impl RispExp {
    /// The text of the value, in pieces. Numbers are left to whoever can write
    /// a double in decimal; everything around them is fixed here.
    pub fn render(&self) -> (pieces: Vec<TextPiece>)
        ensures
            piece_views(pieces@) == rendered(self@),
        decreases self@,
    {
        let mut pieces: Vec<TextPiece> = Vec::new();
        match self {
            RispExp::Null => {
                pieces.push(TextPiece::Text(String::from_str("null")));
                proof {
                    assert(piece_views(pieces@) =~= rendered(self@));
                }
            },
            RispExp::Symbol(name) => {
                pieces.push(TextPiece::Text(name.clone()));
                proof {
                    assert(piece_views(pieces@) =~= rendered(self@));
                }
            },
            RispExp::Number(value, _) => {
                pieces.push(TextPiece::Number(value.duplicate()));
                proof {
                    assert(piece_views(pieces@) =~= rendered(self@));
                }
            },
            RispExp::Func(name, _) => {
                pieces.push(
                    TextPiece::Text(String::from_str("Function ").concat(name.as_str())),
                );
                proof {
                    assert(piece_views(pieces@) =~= rendered(self@));
                }
            },
            RispExp::List(items) => {
                pieces.push(TextPiece::Text(String::from_str("(")));
                let ghost open = piece_views(pieces@);
                proof {
                    lemma_views(items@);
                    assert(open =~= seq![PieceView::Text("("@)]);
                    assert(views(items@).take(0) =~= Seq::<ExpView>::empty());
                    assert(piece_views(pieces@) =~= open + rendered_items(
                        views(items@).take(0),
                    ));
                }
                let mut i: usize = 0;
                while i < items.len()
                    invariant
                        i <= items.len(),
                        self@ == ExpView::List(views(items@)),
                        views(items@).len() == items@.len(),
                        forall|j: int|
                            0 <= j < items@.len() ==> (#[trigger] views(items@)[j])
                                == items@[j]@,
                        piece_views(pieces@) == open + rendered_items(
                            views(items@).take(i as int),
                        ),
                    decreases items.len() - i,
                {
                    let ghost before = piece_views(pieces@);
                    let ghost done = views(items@).take(i as int);
                    let ghost next = views(items@).take(i + 1);
                    proof {
                        assert(decreases_to!(self@ => self@->List_0[i as int]));
                        assert(next.drop_last() =~= done);
                        assert(next.last() == items@[i as int]@);
                    }
                    if i > 0 {
                        pieces.push(TextPiece::Text(String::from_str(",")));
                    }
                    let ghost with_comma = piece_views(pieces@);
                    let item = items[i].render();
                    extend_pieces(&mut pieces, &item);
                    proof {
                        if i > 0 {
                            assert(with_comma =~= before + seq![PieceView::Text(","@)]);
                            assert(piece_views(pieces@) =~= open + (rendered_items(done) + seq![
                                PieceView::Text(","@),
                            ] + rendered(next.last())));
                        } else {
                            assert(with_comma =~= before);
                            assert(rendered_items(done) =~= Seq::<PieceView>::empty());
                            assert(next[0] == next.last());
                            assert(piece_views(pieces@) =~= open + rendered(next.last()));
                        }
                    }
                    i = i + 1;
                }
                let ghost inner = piece_views(pieces@);
                pieces.push(TextPiece::Text(String::from_str(")")));
                proof {
                    assert(views(items@).take(items@.len() as int) =~= views(items@));
                    assert(piece_views(pieces@) =~= inner + seq![PieceView::Text(")"@)]);
                }
            },
        }
        pieces
    }

    /// A copy of the value.
    pub fn duplicate(&self) -> (r: RispExp)
        ensures
            r@ == self@,
        decreases self@,
    {
        match self {
            RispExp::Null => RispExp::Null,
            RispExp::Symbol(name) => RispExp::Symbol(name.clone()),
            RispExp::Number(value, handle) => RispExp::Number(value.duplicate(), *handle),
            RispExp::List(items) => {
                let mut copies: Vec<RispExp> = Vec::new();
                let mut i: usize = 0;
                while i < items.len()
                    invariant
                        i <= items.len(),
                        copies@.len() == i,
                        self@ == ExpView::List(views(items@)),
                        forall|j: int| 0 <= j < i ==> (#[trigger] copies@[j])@ == items@[j]@,
                    decreases items.len() - i,
                {
                    proof {
                        lemma_views(items@);
                        assert(decreases_to!(self@ => self@->List_0[i as int]));
                    }
                    let copy = items[i].duplicate();
                    copies.push(copy);
                    i = i + 1;
                }
                proof {
                    lemma_views(copies@);
                    lemma_views(items@);
                    assert(views(copies@) =~= views(items@));
                }
                RispExp::List(copies)
            },
            RispExp::Func(name, op) => RispExp::Func(name.clone(), *op),
        }
    }
}

} // verus!
