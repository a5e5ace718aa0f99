//! Cut, copy and paste in a text box. Positions count characters.

use vstd::prelude::*;
use vstd::utf8::encode_utf8;
use crate::text::{cat, cat3, chars_of, opt_text, string_of};

verus! {

/// The selected part of a text of `n` characters, given the two ends of the selection in any
/// order. Ends beyond the text are moved to its end. Without a caret everything is selected.
pub open spec fn selection(n: int, caret: Option<(usize, usize)>) -> (int, int) {
    match caret {
        Some((a, b)) => {
            let (s, e) = if a <= b {
                (a as int, b as int)
            } else {
                (b as int, a as int)
            };
            (
                if s <= n {
                    s
                } else {
                    n
                },
                if e <= n {
                    e
                } else {
                    n
                },
            )
        },
        None => (0, n),
    }
}

/// The part of a text of `n` characters that a paste replaces: the selection. Without a caret
/// nothing is replaced, and the paste goes to the end.
pub open spec fn paste_selection(n: int, caret: Option<(usize, usize)>) -> (int, int) {
    match caret {
        Some(_) => selection(n, caret),
        None => (n, n),
    }
}

/// The selected part of a text.
pub fn cursor_char_range(text: &str, caret: Option<(usize, usize)>) -> (r: (usize, usize))
    ensures
        (r.0 as int, r.1 as int) == selection(text@.len() as int, caret),
        r.0 <= r.1 <= text@.len(),
{
    let v = chars_of(text);
    let n: usize = v.len();
    match caret {
        Some((a, b)) => {
            let (s, e): (usize, usize) = if a <= b {
                (a, b)
            } else {
                (b, a)
            };
            (
                if s <= n {
                    s
                } else {
                    n
                },
                if e <= n {
                    e
                } else {
                    n
                },
            )
        },
        None => (0, n),
    }
}

/// Where the character with the given index begins among the bytes of the text, in UTF-8; the end
/// of the text for an index beyond it.
pub open spec fn byte_of(text: Seq<char>, char_idx: int) -> nat {
    encode_utf8(
        text.take(
            if char_idx <= text.len() {
                char_idx
            } else {
                text.len() as int
            },
        ),
    ).len()
}

/// Where the character with the given index begins among the bytes of the text.
pub fn char_to_byte(text: &str, char_idx: usize) -> (r: usize)
    ensures
        r == byte_of(text@, char_idx as int),
{
    let v = chars_of(text);
    let end: usize = if char_idx <= v.len() {
        char_idx
    } else {
        v.len()
    };
    let before = string_of(&v, 0, end);
    assert(before@ =~= text@.take(end as int));
    before.as_str().as_bytes().len()
}

/// What an edit gives: the text, what goes to the clipboard if anything does, and where the caret
/// goes if it moves.
pub struct Edited {
    pub text: String,
    pub copied: Option<String>,
    pub caret: Option<(usize, usize)>,
}

/// What an edit says.
#[verifier::ext_equal]
pub struct EditedView {
    pub text: Seq<char>,
    pub copied: Option<Seq<char>>,
    pub caret: Option<(usize, usize)>,
}

impl View for Edited {
    type V = EditedView;

    open spec fn view(&self) -> EditedView {
        EditedView { text: self.text@, copied: opt_text(self.copied), caret: self.caret }
    }
}

/// What a copy takes of a text.
pub open spec fn copied_from(text: Seq<char>, caret: Option<(usize, usize)>) -> Option<Seq<char>> {
    let (s, e) = selection(text.len() as int, caret);
    if s < e {
        Some(text.subrange(s, e))
    } else {
        None
    }
}

/// What a cut makes of a text.
pub open spec fn cut_from(text: Seq<char>, caret: Option<(usize, usize)>) -> EditedView {
    let (s, e) = selection(text.len() as int, caret);
    if s < e {
        EditedView {
            text: text.take(s) + text.skip(e),
            copied: Some(text.subrange(s, e)),
            caret: Some((s as usize, s as usize)),
        }
    } else {
        EditedView { text, copied: None, caret: None }
    }
}

/// What a paste makes of a text.
pub open spec fn pasted_into(
    text: Seq<char>,
    caret: Option<(usize, usize)>,
    pasted: Seq<char>,
) -> EditedView {
    let (s, e) = paste_selection(text.len() as int, caret);
    EditedView {
        text: text.take(s) + pasted + text.skip(e),
        copied: None,
        caret: Some(((s + pasted.len()) as usize, (s + pasted.len()) as usize)),
    }
}

/// Cuts the selection out. An empty selection changes nothing.
pub fn cut(text: &str, caret: Option<(usize, usize)>) -> (r: Edited)
    ensures
        r@ == cut_from(text@, caret),
        ({
            let (s, e) = selection(text@.len() as int, caret);
            if s < e {
                &&& r.text@ == text@.take(s) + text@.skip(e)
                &&& opt_text(r.copied) == Some(text@.subrange(s, e))
                &&& r.caret == Some((s as usize, s as usize))
            } else {
                &&& r.text@ == text@
                &&& r.copied is None
                &&& r.caret is None
            }
        }),
{
    let (s, e): (usize, usize) = cursor_char_range(text, caret);
    if s < e {
        let v = chars_of(text);
        let head = string_of(&v, 0, s);
        let middle = string_of(&v, s, e);
        let tail = string_of(&v, e, v.len());
        assert(head@ =~= text@.take(s as int));
        assert(tail@ =~= text@.skip(e as int));
        let rest = cat(head.as_str(), tail.as_str());
        Edited { text: rest, copied: Some(middle), caret: Some((s, s)) }
    } else {
        Edited { text: text.to_owned(), copied: None, caret: None }
    }
}

/// What a copy puts on the clipboard: the selection, unless it is empty.
pub fn copy(text: &str, caret: Option<(usize, usize)>) -> (r: Option<String>)
    ensures
        opt_text(r) == copied_from(text@, caret),
        ({
            let (s, e) = selection(text@.len() as int, caret);
            opt_text(r) == if s < e {
                Some(text@.subrange(s, e))
            } else {
                None
            }
        }),
{
    let (s, e): (usize, usize) = cursor_char_range(text, caret);
    if s < e {
        let v = chars_of(text);
        Some(string_of(&v, s, e))
    } else {
        None
    }
}

/// Puts `pasted` in place of the selection, and the caret behind it.
pub fn paste(text: &str, caret: Option<(usize, usize)>, pasted: &str) -> (r: Edited)
    requires
        text@.len() + pasted@.len() <= usize::MAX,
    ensures
        r@ == pasted_into(text@, caret, pasted@),
        ({
            let (s, e) = paste_selection(text@.len() as int, caret);
            &&& r.text@ == text@.take(s) + pasted@ + text@.skip(e)
            &&& r.copied is None
            &&& r.caret == Some(((s + pasted@.len()) as usize, (s + pasted@.len()) as usize))
        }),
{
    let v = chars_of(text);
    let (s, e): (usize, usize) = match caret {
        Some(_) => cursor_char_range(text, caret),
        None => (v.len(), v.len()),
    };
    let head = string_of(&v, 0, s);
    let tail = string_of(&v, e, v.len());
    assert(head@ =~= text@.take(s as int));
    assert(tail@ =~= text@.skip(e as int));
    let whole = cat3(head.as_str(), pasted, tail.as_str());
    let p = chars_of(pasted);
    let at: usize = s + p.len();
    Edited { text: whole, copied: None, caret: Some((at, at)) }
}

/// The selection of a whole text.
pub fn select_all(text: &str) -> (r: (usize, usize))
    ensures
        r.0 == 0,
        r.1 == text@.len(),
{
    let v = chars_of(text);
    (0, v.len())
}

// ---------------------------------------------------------------------------------------------
// Laws
// ---------------------------------------------------------------------------------------------

/// What was cut out and is pasted where it was cut gives the old text.
pub proof fn law_paste_undoes_cut(text: Seq<char>, caret: Option<(usize, usize)>)
    requires
        text.len() <= usize::MAX,
        ({
            let (s, e) = selection(text.len() as int, caret);
            s < e
        }),
    ensures
        ({
            let (s, e) = selection(text.len() as int, caret);
            let rest = text.take(s) + text.skip(e);
            let (at, to) = paste_selection(
                rest.len() as int,
                Some((s as usize, s as usize)),
            );
            rest.take(at) + text.subrange(s, e) + rest.skip(to) == text
        }),
{
    let (s, e) = selection(text.len() as int, caret);
    let rest = text.take(s) + text.skip(e);
    assert(rest.take(s) + text.subrange(s, e) + rest.skip(s) =~= text);
}

/// The selection lies within the text, and the order of its ends does not matter.
pub proof fn law_selection_is_within(n: nat, a: usize, b: usize)
    ensures
        ({
            let (s, e) = selection(n as int, Some((a, b)));
            0 <= s <= e <= n
        }),
        selection(n as int, Some((a, b))) == selection(n as int, Some((b, a))),
        selection(n as int, None) == (0int, n as int),
{
}

/// The selection reaches from the smaller of its ends to the larger one, each moved to the end of
/// the text if it lies beyond. A paste replaces the selection; without a caret it goes to the end,
/// while everything counts as selected.
pub proof fn law_selection_has_its_ends(n: nat, a: usize, b: usize)
    ensures
        a <= b <= n ==> selection(n as int, Some((a, b))) == (a as int, b as int),
        a <= n < b ==> selection(n as int, Some((a, b))) == (a as int, n as int),
        n < a && n < b ==> selection(n as int, Some((a, b))) == (n as int, n as int),
        paste_selection(n as int, Some((a, b))) == selection(n as int, Some((a, b))),
        paste_selection(n as int, None) == (n as int, n as int),
{
}

/// The bytes before a character are those of the characters before it; an index beyond the text
/// gives all bytes of it.
pub proof fn law_bytes_before_a_character(before: Seq<char>, rest: Seq<char>, beyond: int)
    requires
        beyond >= before.len() + rest.len(),
    ensures
        byte_of(before + rest, before.len() as int) == encode_utf8(before).len(),
        byte_of(before + rest, beyond) == encode_utf8(before + rest).len(),
{
    let text = before + rest;
    assert(text.take(before.len() as int) =~= before);
    assert(text.take(text.len() as int) =~= text);
}

/// A cut takes a part out of a text and puts just that part on the clipboard; the part is the one
/// between the ends of the selection, and all of the text without a caret. The caret stays where
/// the part was. A cut without a selection does nothing.
pub proof fn law_cut_takes_the_selection(
    head: Seq<char>,
    middle: Seq<char>,
    tail: Seq<char>,
    caret: Option<(usize, usize)>,
)
    requires
        head.len() + middle.len() + tail.len() <= usize::MAX,
        match caret {
            Some((a, b)) => {
                ||| a == head.len() && b == head.len() + middle.len()
                ||| b == head.len() && a == head.len() + middle.len()
            },
            None => head.len() == 0 && tail.len() == 0,
        },
    ensures
        ({
            let r = cut_from(head + middle + tail, caret);
            &&& r.text == if middle.len() > 0 {
                head + tail
            } else {
                head + middle + tail
            }
            &&& middle.len() > 0 ==> r.copied == Some(middle)
            &&& middle.len() > 0 ==> r.caret == Some((head.len() as usize, head.len() as usize))
            &&& middle.len() == 0 ==> r.copied is None && r.caret is None
            &&& copied_from(head + middle + tail, caret) == r.copied
        }),
{
    let text = head + middle + tail;
    let s = head.len() as int;
    let e = s + middle.len();
    assert(selection(text.len() as int, caret) == (s, e));
    assert(text.take(s) =~= head);
    assert(text.skip(e) =~= tail);
    assert(text.subrange(s, e) =~= middle);
}

/// A paste puts the pasted text in place of the selection and the caret behind it; without a caret
/// it puts it at the end. The clipboard stays.
pub proof fn law_paste_replaces_the_selection(
    head: Seq<char>,
    middle: Seq<char>,
    tail: Seq<char>,
    caret: Option<(usize, usize)>,
    pasted: Seq<char>,
)
    requires
        head.len() + middle.len() + tail.len() + pasted.len() <= usize::MAX,
        match caret {
            Some((a, b)) => {
                ||| a == head.len() && b == head.len() + middle.len()
                ||| b == head.len() && a == head.len() + middle.len()
            },
            None => middle.len() == 0 && tail.len() == 0,
        },
    ensures
        ({
            let r = pasted_into(head + middle + tail, caret, pasted);
            let at = (head.len() + pasted.len()) as usize;
            &&& r.text == head + pasted + tail
            &&& r.caret == Some((at, at))
            &&& r.copied is None
        }),
{
    let text = head + middle + tail;
    let s = head.len() as int;
    let e = s + middle.len();
    assert(paste_selection(text.len() as int, caret) == (s, e));
    assert(text.take(s) =~= head);
    assert(text.skip(e) =~= tail);
}

} // verus!
