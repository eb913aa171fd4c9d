//! Window declarations as the operator writes them.
//!
//! A declaration text has the form
//! `<weekday>|<HH:MM>-<HH:MM>[,<HH:MM>-<HH:MM>...]`: a weekday, a bar, and
//! one or more windows separated by commas, each a start and an end
//! separated by a hyphen. Reading a text only cuts it up; whether the parts
//! name a weekday and times of day is decided when the schedule is built.

use vstd::prelude::*;

use crate::text::head;
use crate::text::lemma_first_index;
use crate::text::pieces;
use crate::text::second_field;
use crate::text::second_of;
use crate::text::split_first;

verus! {

/// A declaration as contracts see it: its three texts.
pub struct DeclarationView {
    pub weekday: Seq<char>,
    pub start: Seq<char>,
    pub end: Seq<char>,
}

/// One window as declared: the name of its weekday and the texts of its two
/// ends, none of them checked yet.
#[derive(Clone, Debug, PartialEq, Eq)]
pub struct WindowDeclaration {
    pub weekday: String,
    pub start: String,
    pub end: String,
}

impl View for WindowDeclaration {
    type V = DeclarationView;

    open spec fn view(&self) -> DeclarationView {
        DeclarationView { weekday: self.weekday@, start: self.start@, end: self.end@ }
    }
}

/// A list of declarations as contracts see it.
pub open spec fn declaration_views(declarations: Seq<WindowDeclaration>) -> Seq<DeclarationView> {
    declarations.map_values(|d: WindowDeclaration| d@)
}

/// The declaration that one window text makes for `weekday`: the start is
/// what stands before the first hyphen, the end what stands between the
/// first and the second.
pub open spec fn declared_window(weekday: Seq<char>, window: Seq<char>) -> DeclarationView {
    DeclarationView {
        weekday,
        start: head(window, '-'),
        end: second_field(window, '-'),
    }
}

/// The declarations that the window texts make for `weekday`, in order.
pub open spec fn declared_windows(weekday: Seq<char>, windows: Seq<Seq<char>>) -> Seq<
    DeclarationView,
> {
    windows.map_values(|window: Seq<char>| declared_window(weekday, window))
}

/// The declarations that a declaration text holds: one for each window
/// between the first bar and the second, all for the weekday named before
/// the first bar. A text without a bar declares one window without ends.
pub open spec fn declarations_in(text: Seq<char>) -> Seq<DeclarationView> {
    declared_windows(head(text, '|'), pieces(second_field(text, '|'), ','))
}

/// The declarations that a list of declaration texts holds, in order.
pub open spec fn declarations_in_all(texts: Seq<Seq<char>>) -> Seq<DeclarationView>
    decreases texts.len(),
{
    if texts.len() == 0 {
        Seq::empty()
    } else {
        declarations_in_all(texts.drop_last()) + declarations_in(texts.last())
    }
}

/// The texts of a list of strings.
pub open spec fn text_views(texts: Seq<String>) -> Seq<Seq<char>> {
    texts.map_values(|text: String| text@)
}

/// Cuts a declaration text into its window declarations and adds them to
/// `declarations`.
pub fn read_declaration(text: &str, declarations: &mut Vec<WindowDeclaration>)
    ensures
        declaration_views(final(declarations)@) == declaration_views(old(declarations)@)
            + declarations_in(text@),
{
    let ghost before = declaration_views(declarations@);
    let weekday = split_first(text, '|').0;
    let listed = second_of(text, '|');
    let mut rest = listed;
    let ghost mut taken: Seq<Seq<char>> = Seq::empty();
    loop
        invariant_except_break
            taken + pieces(rest@, ',') == pieces(listed@, ','),
            declaration_views(declarations@) == before + declared_windows(weekday@, taken),
        invariant
            weekday@ == head(text@, '|'),
        ensures
            declaration_views(declarations@) == before + declared_windows(
                weekday@,
                pieces(listed@, ','),
            ),
        decreases rest@.len(),
    {
        let parts = split_first(rest, ',');
        let window = parts.0;
        let declaration = WindowDeclaration {
            weekday: String::from_str(weekday),
            start: String::from_str(split_first(window, '-').0),
            end: String::from_str(second_of(window, '-')),
        };
        proof {
            assert(declaration@ == declared_window(weekday@, window@));
            assert(declaration_views(declarations@.push(declaration)) == declaration_views(
                declarations@,
            ).push(declaration@));
            assert(declared_windows(weekday@, taken.push(window@)) == declared_windows(
                weekday@,
                taken,
            ).push(declared_window(weekday@, window@)));
        }
        declarations.push(declaration);
        match parts.1 {
            Some(behind) => {
                proof {
                    assert(pieces(rest@, ',') == seq![window@] + pieces(behind@, ','));
                    assert(taken.push(window@) + pieces(behind@, ',') == taken + pieces(
                        rest@,
                        ',',
                    ));
                    taken = taken.push(window@);
                }
                rest = behind;
            },
            None => {
                proof {
                    lemma_first_index(rest@, ',');
                    assert(window@ == rest@);
                    assert(pieces(rest@, ',') == seq![window@]);
                    assert(taken.push(window@) == taken + pieces(rest@, ','));
                }
                break ;
            },
        }
    }
}

/// Cuts declaration texts into window declarations, in the order of the
/// texts and, within a text, of its windows.
pub fn read_declarations(texts: &Vec<String>) -> (declarations: Vec<WindowDeclaration>)
    ensures
        declaration_views(declarations@) == declarations_in_all(text_views(texts@)),
{
    let mut declarations: Vec<WindowDeclaration> = Vec::new();
    let mut index: usize = 0;
    proof {
        assert(declaration_views(declarations@) == Seq::<DeclarationView>::empty());
    }
    while index < texts.len()
        invariant
            index <= texts.len(),
            declaration_views(declarations@) == declarations_in_all(
                text_views(texts@).subrange(0, index as int),
            ),
        decreases texts.len() - index,
    {
        proof {
            let done = text_views(texts@).subrange(0, index as int);
            let next = text_views(texts@).subrange(0, index + 1);
            assert(next.drop_last() == done);
            assert(next.last() == texts@[index as int]@);
        }
        read_declaration(texts[index].as_str(), &mut declarations);
        index = index + 1;
    }
    proof {
        assert(text_views(texts@).subrange(0, index as int) == text_views(texts@));
    }
    declarations
}

} // verus!
