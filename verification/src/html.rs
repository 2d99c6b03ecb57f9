//! A small vocabulary of markup elements and attribute decorators layered on
//! top of the scope protocol.

use vstd::prelude::*;

use crate::scope::Open;
use crate::scope::lemma_partial_chain;
use crate::scope::lemma_partial_none;
use crate::scope::partial_write;
use crate::xml::Element;
use crate::xml::SimpleElement;
use crate::xml::lemma_partial_widen;

verus! {

/// The text one attribute renders: a space, the key, `="`, the value, `"`.
pub open spec fn attr_fragment(key: Seq<char>, val: Seq<char>) -> Seq<char> {
    " "@ + key + "=\""@ + val + "\""@
}

/// The `html` element.
pub struct Html;

impl SimpleElement for Html {
    open spec fn tag_spec() -> Seq<char> {
        "html"@
    }

    fn tag_str() -> (r: &'static str) {
        "html"
    }
}

/// The `head` element.
pub struct Head;

impl SimpleElement for Head {
    open spec fn tag_spec() -> Seq<char> {
        "head"@
    }

    fn tag_str() -> (r: &'static str) {
        "head"
    }
}

/// The `body` element.
pub struct Body;

impl SimpleElement for Body {
    open spec fn tag_spec() -> Seq<char> {
        "body"@
    }

    fn tag_str() -> (r: &'static str) {
        "body"
    }
}

/// The `main` element.
pub struct Main;

impl SimpleElement for Main {
    open spec fn tag_spec() -> Seq<char> {
        "main"@
    }

    fn tag_str() -> (r: &'static str) {
        "main"
    }
}

/// The `header` element.
pub struct Header;

impl SimpleElement for Header {
    open spec fn tag_spec() -> Seq<char> {
        "header"@
    }

    fn tag_str() -> (r: &'static str) {
        "header"
    }
}

/// The `div` element.
pub struct Div;

impl SimpleElement for Div {
    open spec fn tag_spec() -> Seq<char> {
        "div"@
    }

    fn tag_str() -> (r: &'static str) {
        "div"
    }
}

/// The `p` element.
pub struct P;

impl SimpleElement for P {
    open spec fn tag_spec() -> Seq<char> {
        "p"@
    }

    fn tag_str() -> (r: &'static str) {
        "p"
    }
}

/// The `h1` element.
pub struct H1;

impl SimpleElement for H1 {
    open spec fn tag_spec() -> Seq<char> {
        "h1"@
    }

    fn tag_str() -> (r: &'static str) {
        "h1"
    }
}

/// The `h2` element.
pub struct H2;

impl SimpleElement for H2 {
    open spec fn tag_spec() -> Seq<char> {
        "h2"@
    }

    fn tag_str() -> (r: &'static str) {
        "h2"
    }
}

/// The `ul` element.
pub struct Ul;

impl SimpleElement for Ul {
    open spec fn tag_spec() -> Seq<char> {
        "ul"@
    }

    fn tag_str() -> (r: &'static str) {
        "ul"
    }
}

/// The `ol` element.
pub struct Ol;

impl SimpleElement for Ol {
    open spec fn tag_spec() -> Seq<char> {
        "ol"@
    }

    fn tag_str() -> (r: &'static str) {
        "ol"
    }
}

/// The `li` element.
pub struct Li;

impl SimpleElement for Li {
    open spec fn tag_spec() -> Seq<char> {
        "li"@
    }

    fn tag_str() -> (r: &'static str) {
        "li"
    }
}

/// Write a tag name followed by one `key="value"` attribute: the shared
/// body of the elements that carry a single intrinsic attribute.
fn write_tag_with_attr<W: Open>(w: &mut W, tag: &str, key: &str, val: &str) -> (r: Result<
    (),
    W::Error,
>)
    ensures
        r is Ok ==> (*final(w)).out() == (*old(w)).out() + tag@ + attr_fragment(key@, val@),
        r is Err ==> partial_write(
            (*old(w)).out(),
            (*final(w)).out(),
            tag@ + attr_fragment(key@, val@),
        ),
        (*final(w)).pending_closes() == (*old(w)).pending_closes(),
{
    let ghost before = (*old(w)).out();
    let ghost body = tag@ + attr_fragment(key@, val@);
    match w.write_str(tag) {
        Ok(()) => (),
        Err(e) => {
            proof {
                lemma_partial_none(before, body);
            }
            return Err(e);
        },
    }
    match write_attr(w, key, val) {
        Ok(()) => {
            proof {
                assert((*final(w)).out() =~= before + body);
            }
            Ok(())
        },
        Err(e) => {
            proof {
                lemma_partial_chain(before, (*final(w)).out(), tag@, attr_fragment(key@, val@));
            }
            Err(e)
        },
    }
}

/// An anchor: `a` with an `href` attribute.
pub struct A<'s> {
    /// The link target, rendered double-quoted after `href=`.
    pub href: &'s str,
}

impl<'s> Element for A<'s> {
    open spec fn tag_spec() -> Seq<char> {
        "a"@
    }

    open spec fn attrs_spec(&self) -> Seq<char> {
        attr_fragment("href"@, self.href@)
    }

    fn tag_str() -> (r: &'static str) {
        "a"
    }

    fn tag_and_attributes<W: Open>(self, w: &mut W) -> (r: Result<(), W::Error>) {
        write_tag_with_attr(w, "a", "href", self.href)
    }
}

/// An image: `img` with a `src` attribute.
pub struct Img<'s> {
    /// The image source, rendered double-quoted after `src=`.
    pub src: &'s str,
}

impl<'s> Element for Img<'s> {
    open spec fn tag_spec() -> Seq<char> {
        "img"@
    }

    open spec fn attrs_spec(&self) -> Seq<char> {
        attr_fragment("src"@, self.src@)
    }

    fn tag_str() -> (r: &'static str) {
        "img"
    }

    fn tag_and_attributes<W: Open>(self, w: &mut W) -> (r: Result<(), W::Error>) {
        write_tag_with_attr(w, "img", "src", self.src)
    }
}

/// A decorator that appends one `key="value"` attribute after the attributes
/// of the element it wraps.
pub struct Attr<'s, E> {
    key: &'s str,
    val: &'s str,
    inner: E,
}

/// Write one ` key="value"` fragment.
fn write_attr<W: Open>(w: &mut W, key: &str, val: &str) -> (r: Result<(), W::Error>)
    ensures
        r is Ok ==> (*final(w)).out() == (*old(w)).out() + attr_fragment(key@, val@),
        r is Err ==> partial_write((*old(w)).out(), (*final(w)).out(), attr_fragment(key@, val@)),
        (*final(w)).pending_closes() == (*old(w)).pending_closes(),
{
    let ghost before = (*old(w)).out();
    let ghost frag = attr_fragment(key@, val@);
    match w.write_str(" ") {
        Ok(()) => (),
        Err(e) => {
            proof {
                lemma_partial_none(before, frag);
            }
            return Err(e);
        },
    }
    match w.write_str(key) {
        Ok(()) => (),
        Err(e) => {
            proof {
                lemma_partial_none(before + " "@, key@);
                lemma_partial_chain(before, (*final(w)).out(), " "@, key@);
                lemma_partial_widen(before, (*final(w)).out(), " "@ + key@, "=\""@ + val@ + "\""@);
                assert(" "@ + key@ + ("=\""@ + val@ + "\""@) =~= frag);
            }
            return Err(e);
        },
    }
    match w.write_str("=\"") {
        Ok(()) => (),
        Err(e) => {
            proof {
                lemma_partial_none(before + " "@ + key@, "=\""@);
                lemma_partial_chain(before, (*final(w)).out(), " "@ + key@, "=\""@);
                lemma_partial_widen(before, (*final(w)).out(), " "@ + key@ + "=\""@, val@ + "\""@);
                assert(" "@ + key@ + "=\""@ + (val@ + "\""@) =~= frag);
            }
            return Err(e);
        },
    }
    match w.write_str(val) {
        Ok(()) => (),
        Err(e) => {
            proof {
                lemma_partial_none(before + " "@ + key@ + "=\""@, val@);
                lemma_partial_chain(before, (*final(w)).out(), " "@ + key@ + "=\""@, val@);
                lemma_partial_widen(
                    before,
                    (*final(w)).out(),
                    " "@ + key@ + "=\""@ + val@,
                    "\""@,
                );
                assert(" "@ + key@ + "=\""@ + val@ + "\""@ =~= frag);
            }
            return Err(e);
        },
    }
    let ghost written = (*final(w)).out();
    match w.write_str("\"") {
        Ok(()) => {
            proof {
                assert((*final(w)).out() =~= before + frag);
            }
            Ok(())
        },
        Err(e) => {
            proof {
                lemma_partial_none(written, "\""@);
                lemma_partial_chain(before, written, " "@ + key@ + "=\""@ + val@, "\""@);
                assert(" "@ + key@ + "=\""@ + val@ + "\""@ =~= frag);
            }
            Err(e)
        },
    }
}

/// Write the wrapped element's tag and attributes, then one more
/// `key="value"` attribute: the shared body of the attribute decorators.
fn write_decorated<W: Open, E: Element>(inner: E, key: &str, val: &str, w: &mut W) -> (r: Result<
    (),
    W::Error,
>)
    ensures
        r is Ok ==> (*final(w)).out() == (*old(w)).out() + E::tag_spec() + (inner.attrs_spec()
            + attr_fragment(key@, val@)),
        r is Err ==> partial_write(
            (*old(w)).out(),
            (*final(w)).out(),
            E::tag_spec() + (inner.attrs_spec() + attr_fragment(key@, val@)),
        ),
        (*final(w)).pending_closes() == (*old(w)).pending_closes(),
{
    let ghost before = (*old(w)).out();
    let ghost frag = attr_fragment(key@, val@);
    let ghost body = E::tag_spec() + (inner.attrs_spec() + frag);
    match inner.tag_and_attributes(w) {
        Ok(()) => (),
        Err(e) => {
            proof {
                lemma_partial_widen(
                    before,
                    (*final(w)).out(),
                    E::tag_spec() + inner.attrs_spec(),
                    frag,
                );
                assert(E::tag_spec() + inner.attrs_spec() + frag =~= body);
            }
            return Err(e);
        },
    }
    match write_attr(w, key, val) {
        Ok(()) => {
            proof {
                assert((*final(w)).out() =~= before + body);
            }
            Ok(())
        },
        Err(e) => {
            proof {
                lemma_partial_chain(
                    before,
                    (*final(w)).out(),
                    E::tag_spec() + inner.attrs_spec(),
                    frag,
                );
                assert(E::tag_spec() + inner.attrs_spec() + frag =~= body);
            }
            Err(e)
        },
    }
}

impl<'s, E: Element> Element for Attr<'s, E> {
    open spec fn tag_spec() -> Seq<char> {
        E::tag_spec()
    }

    closed spec fn attrs_spec(&self) -> Seq<char> {
        self.inner.attrs_spec() + attr_fragment(self.key@, self.val@)
    }

    fn tag_str() -> (r: &'static str) {
        E::tag_str()
    }

    fn tag_and_attributes<W: Open>(self, w: &mut W) -> (r: Result<(), W::Error>) {
        let Attr { key, val, inner } = self;
        write_decorated(inner, key, val, w)
    }
}

/// A decorator that appends one `id="value"` attribute after the attributes
/// of the element it wraps.
pub struct Id<'s, E> {
    val: &'s str,
    inner: E,
}

impl<'s, E: Element> Element for Id<'s, E> {
    open spec fn tag_spec() -> Seq<char> {
        E::tag_spec()
    }

    closed spec fn attrs_spec(&self) -> Seq<char> {
        self.inner.attrs_spec() + attr_fragment("id"@, self.val@)
    }

    fn tag_str() -> (r: &'static str) {
        E::tag_str()
    }

    fn tag_and_attributes<W: Open>(self, w: &mut W) -> (r: Result<(), W::Error>) {
        let Id { val, inner } = self;
        write_decorated(inner, "id", val, w)
    }
}

/// A decorator that appends one `class="value"` attribute after the
/// attributes of the element it wraps.
pub struct Class<'s, E> {
    val: &'s str,
    inner: E,
}

impl<'s, E: Element> Element for Class<'s, E> {
    open spec fn tag_spec() -> Seq<char> {
        E::tag_spec()
    }

    closed spec fn attrs_spec(&self) -> Seq<char> {
        self.inner.attrs_spec() + attr_fragment("class"@, self.val@)
    }

    fn tag_str() -> (r: &'static str) {
        E::tag_str()
    }

    fn tag_and_attributes<W: Open>(self, w: &mut W) -> (r: Result<(), W::Error>) {
        let Class { val, inner } = self;
        write_decorated(inner, "class", val, w)
    }
}

/// Attribute decoration for any element: each call wraps the element in one
/// more attribute, appended after the attributes already present, so
/// attributes render in the order the decorations were applied.
pub trait HtmlElement: Element {
    /// Append a `key="value"` attribute after this element's attributes.
    fn attr<'s>(self, key: &'s str, val: &'s str) -> (r: Attr<'s, Self>)
        ensures
            r.attrs_spec() == self.attrs_spec() + attr_fragment(key@, val@),
    {
        Attr { key, val, inner: self }
    }

    /// Append an `id="value"` attribute after this element's attributes.
    fn id<'s>(self, val: &'s str) -> (r: Id<'s, Self>)
        ensures
            r.attrs_spec() == self.attrs_spec() + attr_fragment("id"@, val@),
    {
        Id { val, inner: self }
    }

    /// Append a `class="value"` attribute after this element's attributes.
    fn class<'s>(self, val: &'s str) -> (r: Class<'s, Self>)
        ensures
            r.attrs_spec() == self.attrs_spec() + attr_fragment("class"@, val@),
    {
        Class { val, inner: self }
    }
}

impl<E: Element> HtmlElement for E {
}

} // verus!
