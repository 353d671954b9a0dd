//! Texts of one form: fixed words, and values between them.
//!
//! Two texts have the same wording if they are one form filled in with two lists of values: the
//! words are the same, and every value stands whole in its place.

use vstd::prelude::*;

verus! {

/// A piece of a form.
pub enum Piece {
    /// Fixed words.
    Words(Seq<char>),
    /// The place of the next value.
    Value,
}

/// Words and places for values, in order.
pub struct Form {
    pub pieces: Seq<Piece>,
}

impl Form {
    /// A form that says nothing.
    pub closed spec fn blank() -> Form {
        Form { pieces: Seq::empty() }
    }

    /// The form with some words more.
    pub closed spec fn says(self, words: Seq<char>) -> Form {
        Form { pieces: self.pieces.push(Piece::Words(words)) }
    }

    /// The form with a place more.
    pub closed spec fn gives(self) -> Form {
        Form { pieces: self.pieces.push(Piece::Value) }
    }

    /// How many values the form takes.
    pub closed spec fn places(self) -> nat
        decreases self.pieces.len(),
    {
        if self.pieces.len() == 0 {
            0
        } else {
            let before = Form { pieces: self.pieces.drop_last() }.places();
            match self.pieces.last() {
                Piece::Words(_) => before,
                Piece::Value => before + 1,
            }
        }
    }

    /// The form with the values in their places, the first in the first place.
    pub closed spec fn filled(self, values: Seq<Seq<char>>) -> Seq<char>
        decreases self.pieces.len(),
    {
        if self.pieces.len() == 0 {
            Seq::empty()
        } else {
            let before = Form { pieces: self.pieces.drop_last() };
            match self.pieces.last() {
                Piece::Words(words) => before.filled(values) + words,
                Piece::Value => before.filled(values) + values[before.places() as int],
            }
        }
    }
}

/// Whether a text is a form, filled in with these values.
pub open spec fn fits(text: Seq<char>, form: Form, values: Seq<Seq<char>>) -> bool {
    form.places() == values.len() && form.filled(values) == text
}

/// Whether two texts are one form, filled in with these values: every value stands in its text
/// once and whole, in this order, and all else is the same in both.
pub open spec fn same_wording(
    a: Seq<char>,
    a_values: Seq<Seq<char>>,
    b: Seq<char>,
    b_values: Seq<Seq<char>>,
) -> bool {
    exists|form: Form| #[trigger] fits(a, form, a_values) && fits(b, form, b_values)
}

/// A form that says nothing takes no values.
pub broadcast proof fn lemma_blank()
    ensures
        #[trigger] Form::blank().places() == 0,
{
}

/// The first words of a form.
pub broadcast proof fn lemma_first_words(words: Seq<char>, values: Seq<Seq<char>>)
    ensures
        #[trigger] Form::blank().says(words).filled(values) == words,
{
    let form = Form::blank().says(words);
    assert(form.pieces.drop_last() =~= Form::blank().pieces);
    assert(Form { pieces: form.pieces.drop_last() }.filled(values) =~= Seq::<char>::empty());
    assert(Seq::<char>::empty() + words =~= words);
}

/// Words take no values.
pub broadcast proof fn lemma_words_take_none(form: Form, words: Seq<char>)
    ensures
        #[trigger] form.says(words).places() == form.places(),
{
    assert(form.says(words).pieces.drop_last() =~= form.pieces);
}

/// Words follow what stands before them.
pub broadcast proof fn lemma_words_follow(form: Form, words: Seq<char>, values: Seq<Seq<char>>)
    ensures
        #[trigger] form.says(words).filled(values) == form.filled(values) + words,
{
    assert(form.says(words).pieces.drop_last() =~= form.pieces);
}

/// A place takes one value.
pub broadcast proof fn lemma_place_takes_one(form: Form)
    ensures
        #[trigger] form.gives().places() == form.places() + 1,
{
    assert(form.gives().pieces.drop_last() =~= form.pieces);
}

/// A place holds the next value.
pub broadcast proof fn lemma_value_follows(form: Form, values: Seq<Seq<char>>)
    ensures
        #[trigger] form.gives().filled(values) == form.filled(values)
            + values[form.places() as int],
{
    assert(form.gives().pieces.drop_last() =~= form.pieces);
}

pub broadcast group group_forms {
    lemma_blank,
    lemma_first_words,
    lemma_words_take_none,
    lemma_words_follow,
    lemma_place_takes_one,
    lemma_value_follows,
}

} // verus!
