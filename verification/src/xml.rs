//! Tagged-markup elements: descriptions that open as `<tag attrs>` and close
//! as `</tag>`.

use vstd::prelude::*;

use crate::scope::ConstantCloseOpener;
use crate::scope::Open;
use crate::scope::lemma_partial_chain;
use crate::scope::lemma_partial_none;
use crate::scope::partial_write;

verus! {

/// A partial write of `x` is also a partial write of `x` with more to come.
pub proof fn lemma_partial_widen(before: Seq<char>, after: Seq<char>, x: Seq<char>, y: Seq<char>)
    requires
        partial_write(before, after, x),
    ensures
        partial_write(before, after, x + y),
{
    assert(before + x =~= (before + x + y).take((before + x).len() as int));
    assert(after =~= (before + x + y).take(after.len() as int));
}

/// An element description: a tag name fixed by the element's type, and the
/// attribute text that this particular value renders after the tag name.
///
/// Every element opens as `<`, the tag name, the attribute text, `>` and a
/// newline, and closes as `</`, the tag name, `>` and a newline: the closing
/// tag depends on the type alone, which is what lets the paired closer carry
/// no data.
pub trait Element: Sized {
    /// The tag name: a function of the element type, not of any value of it.
    spec fn tag_spec() -> Seq<char>;

    /// The attribute text written after the tag name inside the opening tag.
    spec fn attrs_spec(&self) -> Seq<char>;

    /// The tag name.
    fn tag_str() -> (r: &'static str)
        ensures
            r@ == Self::tag_spec(),
    ;

    /// Write the tag name followed by this element's attribute text.
    fn tag_and_attributes<W: Open>(self, w: &mut W) -> (r: Result<(), W::Error>)
        ensures
            r is Ok ==> (*final(w)).out() == (*old(w)).out() + Self::tag_spec()
                + self.attrs_spec(),
            r is Err ==> partial_write(
                (*old(w)).out(),
                (*final(w)).out(),
                Self::tag_spec() + self.attrs_spec(),
            ),
            (*final(w)).pending_closes() == (*old(w)).pending_closes(),
    ;
}

/// Relies on String::push_str: appends the given slice onto the end of the
/// string.
#[verifier::external_body]
fn append_str(s: &mut String, piece: &str)
    ensures
        (*final(s))@ == (*old(s))@ + piece@,
{
    s.push_str(piece)
}

impl<E: Element> ConstantCloseOpener for E {
    open spec fn open_text(&self) -> Seq<char> {
        "<"@ + E::tag_spec() + self.attrs_spec() + ">\n"@
    }

    open spec fn const_close_text() -> Seq<char> {
        "</"@ + E::tag_spec() + ">\n"@
    }

    fn close_text_string() -> (r: String) {
        let mut s = "</".to_owned();
        append_str(&mut s, E::tag_str());
        append_str(&mut s, ">\n");
        s
    }

    fn add_to<W: Open>(self, w: &mut W) -> (r: Result<(), W::Error>) {
        let ghost before = (*old(w)).out();
        let ghost body = E::tag_spec() + self.attrs_spec();
        let ghost opening = self.open_text();
        match w.write_str("<") {
            Ok(()) => (),
            Err(e) => {
                proof {
                    lemma_partial_none(before, opening);
                }
                return Err(e);
            },
        }
        match self.tag_and_attributes(w) {
            Ok(()) => (),
            Err(e) => {
                proof {
                    lemma_partial_chain(before, (*final(w)).out(), "<"@, body);
                    lemma_partial_widen(before, (*final(w)).out(), "<"@ + body, ">\n"@);
                    assert("<"@ + body + ">\n"@ =~= opening);
                }
                return Err(e);
            },
        }
        let ghost written = (*final(w)).out();
        match w.write_str(">\n") {
            Ok(()) => (),
            Err(e) => {
                proof {
                    lemma_partial_none(written, ">\n"@);
                    lemma_partial_chain(before, written, "<"@ + body, ">\n"@);
                    assert("<"@ + body + ">\n"@ =~= opening);
                }
                return Err(e);
            },
        }
        proof {
            assert((*final(w)).out() =~= before + opening);
        }
        Ok(())
    }

    fn remove_from<W: Open>(w: &mut W) -> (r: Result<(), W::Error>) {
        let ghost before = (*old(w)).out();
        let ghost closing = Self::const_close_text();
        match w.write_str("</") {
            Ok(()) => (),
            Err(e) => {
                proof {
                    lemma_partial_none(before, closing);
                }
                return Err(e);
            },
        }
        match w.write_str(E::tag_str()) {
            Ok(()) => (),
            Err(e) => {
                proof {
                    lemma_partial_none(before + "</"@, E::tag_spec());
                    lemma_partial_chain(before, (*final(w)).out(), "</"@, E::tag_spec());
                    lemma_partial_widen(
                        before,
                        (*final(w)).out(),
                        "</"@ + E::tag_spec(),
                        ">\n"@,
                    );
                    assert("</"@ + E::tag_spec() + ">\n"@ =~= closing);
                }
                return Err(e);
            },
        }
        let ghost written = (*final(w)).out();
        match w.write_str(">\n") {
            Ok(()) => (),
            Err(e) => {
                proof {
                    lemma_partial_none(written, ">\n"@);
                    lemma_partial_chain(before, written, "</"@ + E::tag_spec(), ">\n"@);
                    assert("</"@ + E::tag_spec() + ">\n"@ =~= closing);
                }
                return Err(e);
            },
        }
        proof {
            assert((*final(w)).out() =~= before + closing);
        }
        Ok(())
    }
}

/// An element with a tag name and nothing else: it renders no attributes of
/// its own, and decorators add any that are wanted.
pub trait SimpleElement: Sized {
    /// The tag name: a function of the element type, not of any value of it.
    spec fn tag_spec() -> Seq<char>;

    /// The tag name.
    fn tag_str() -> (r: &'static str)
        ensures
            r@ == Self::tag_spec(),
    ;
}

impl<E: SimpleElement> Element for E {
    open spec fn tag_spec() -> Seq<char> {
        <E as SimpleElement>::tag_spec()
    }

    open spec fn attrs_spec(&self) -> Seq<char> {
        Seq::empty()
    }

    fn tag_str() -> (r: &'static str) {
        <E as SimpleElement>::tag_str()
    }

    fn tag_and_attributes<W: Open>(self, w: &mut W) -> (r: Result<(), W::Error>) {
        let ghost before = (*old(w)).out();
        let ghost body = <E as Element>::tag_spec() + self.attrs_spec();
        match w.write_str(<E as SimpleElement>::tag_str()) {
            Ok(()) => {
                proof {
                    assert((*final(w)).out() =~= before + body);
                }
                Ok(())
            },
            Err(e) => {
                proof {
                    lemma_partial_none(before, body);
                }
                Err(e)
            },
        }
    }
}

} // verus!
