//! The scope-management protocol: sinks, openers, closers and the guard that
//! ties an opening tag to its matching closing tag.

use core::marker::PhantomData;
use vstd::prelude::*;

verus! {

/// Holds when `after` extends `before` by some prefix of `frag`.
///
/// A failed multi-part write leaves the sink in such a state: everything that
/// was already there stays, and at most the whole fragment was added.
pub open spec fn partial_write(before: Seq<char>, after: Seq<char>, frag: Seq<char>) -> bool {
    before.is_prefix_of(after) && after.is_prefix_of(before + frag)
}

/// Nothing written at all is a partial write of any fragment.
pub proof fn lemma_partial_none(before: Seq<char>, frag: Seq<char>)
    ensures
        partial_write(before, before, frag),
{
    assert(before =~= (before + frag).take(before.len() as int));
}

/// A sequence is a prefix of itself extended by anything.
pub proof fn lemma_prefix_concat(a: Seq<char>, x: Seq<char>)
    ensures
        a.is_prefix_of(a + x),
{
    assert(a =~= (a + x).take(a.len() as int));
}

/// Prefixes chain: a prefix of a prefix is a prefix.
pub proof fn lemma_prefix_trans(a: Seq<char>, b: Seq<char>, c: Seq<char>)
    requires
        a.is_prefix_of(b),
        b.is_prefix_of(c),
    ensures
        a.is_prefix_of(c),
{
    assert(a =~= c.take(a.len() as int));
}

/// A complete write of `x` followed by a partial write of `y` is a partial
/// write of `x + y`.
pub proof fn lemma_partial_chain(before: Seq<char>, after: Seq<char>, x: Seq<char>, y: Seq<char>)
    requires
        partial_write(before + x, after, y),
    ensures
        partial_write(before, after, x + y),
{
    assert(before =~= (before + x).take(before.len() as int));
    assert(before + x + y =~= before + (x + y));
}

/// A destination for text, and the interface through which scopes are opened.
///
/// `out()` is the full sequence of characters accepted so far, and
/// `pending_closes()` the closing texts that enclosing scopes still owe,
/// outermost first. A write either appends its whole argument and returns
/// `Ok`, or appends nothing and reports the sink's own error; either way it
/// leaves the pending closing texts alone.
pub trait Open: Sized {
    /// The error the concrete sink reports when a write fails.
    type Error;

    /// Everything this sink has accepted so far.
    spec fn out(&self) -> Seq<char>;

    /// The closing texts that scopes wrapped around this value still owe,
    /// outermost first. A plain sink owes none.
    spec fn pending_closes(&self) -> Seq<Seq<char>>;

    /// Append `s` to the sink, atomically: all of it or none of it.
    fn write_str(&mut self, s: &str) -> (r: Result<(), Self::Error>)
        ensures
            r is Ok ==> (*final(self)).out() == (*old(self)).out() + s@,
            r is Err ==> (*final(self)).out() == (*old(self)).out(),
            (*final(self)).pending_closes() == (*old(self)).pending_closes(),
    ;

    /// Write a piece of text content, as it stands, no markup around it.
    fn text(&mut self, d: &str) -> (r: Result<(), Self::Error>)
        ensures
            r is Ok ==> (*final(self)).out() == (*old(self)).out() + d@,
            r is Err ==> (*final(self)).out() == (*old(self)).out(),
            (*final(self)).pending_closes() == (*old(self)).pending_closes(),
    {
        self.write_str(d)
    }
}

impl<T: Open> Open for &mut T {
    type Error = T::Error;

    open spec fn out(&self) -> Seq<char> {
        (**self).out()
    }

    open spec fn pending_closes(&self) -> Seq<Seq<char>> {
        (**self).pending_closes()
    }

    fn write_str(&mut self, s: &str) -> (r: Result<(), T::Error>)
        ensures
            *final(*final(self)) == *final(*old(self)),
    {
        (**self).write_str(s)
    }
}

/// Open a scope by borrowing the sink: the opening tag is written and the
/// returned guard wraps the borrow, so the sink becomes reachable again once
/// the guard is released.
///
/// On failure no guard exists, so no closing tag can ever follow: the
/// sink holds at most a part of the opening tag.
pub fn ref_open<'a, T: Open, O: Opener>(w: &'a mut T, e: O) -> (r: Result<
    WriteScope<O::Close, &'a mut T>,
    T::Error,
>)
    ensures
        r matches Ok(g) ==> g.out() == (*old(w)).out() + e.open_text() && g.pending()
            == e.close_text() && (*g.writer).pending_closes() == (
        *old(w)).pending_closes() && *final(g.writer) == *final(w),
        r is Err ==> partial_write((*old(w)).out(), (*final(w)).out(), e.open_text()) && (
        *final(w)).pending_closes() == (*old(w)).pending_closes(),
{
    match e.add_to(w) {
        Ok(closer) => Ok(WriteScope { closer, writer: w }),
        Err(er) => Err(er),
    }
}

/// Open a scope by taking the sink over: the opening tag is written and the
/// returned guard owns the sink, so the sink is reachable only through the
/// guard from here on. On failure the sink is consumed with nothing to show
/// for it.
pub fn open<T: Open, O: Opener>(t: T, e: O) -> (r: Result<WriteScope<O::Close, T>, T::Error>)
    ensures
        r matches Ok(g) ==> g.out() == t.out() + e.open_text() && g.pending()
            == e.close_text() && g.writer.pending_closes() == t.pending_closes(),
{
    let mut w = t;
    match e.add_to(&mut w) {
        Ok(closer) => Ok(WriteScope { closer, writer: w }),
        Err(er) => Err(er),
    }
}

/// Open a scope, hand the guard to `f`, and release the scope when `f`
/// is done, whether it succeeded or not. The closing tag is written (or at
/// least attempted) in either case; `f`'s own error wins if both fail. `f`
/// runs exactly when the opening write succeeded: on a failed opening there
/// is no guard, and no closing tag is ever attempted.
pub fn open_scope<'a, T: Open, O: Opener, F: FnOnce(
    WriteScope<O::Close, &'a mut T>,
) -> (WriteScope<O::Close, &'a mut T>, Result<(), T::Error>)>(
    w: &'a mut T,
    e: O,
    f: F,
) -> (r: Result<(), T::Error>)
    requires
        forall|g: WriteScope<O::Close, &'a mut T>| #[trigger] call_requires(f, (g,)),
        forall|
            g: WriteScope<O::Close, &'a mut T>,
            res: (WriteScope<O::Close, &'a mut T>, Result<(), T::Error>),
        |
            #[trigger] call_ensures(f, (g,), res) ==> res.0.pending() == g.pending()
                && g.out().is_prefix_of(res.0.out()) && (*res.0.writer).pending_closes() == (
            *g.writer).pending_closes() && *final(res.0.writer) == *final(g.writer),
    ensures
        (*old(w)).out().is_prefix_of((*final(w)).out()),
        (*final(w)).pending_closes() == (*old(w)).pending_closes(),
        r is Ok ==> exists|
            gi: WriteScope<O::Close, &'a mut T>,
            res: (WriteScope<O::Close, &'a mut T>, Result<(), T::Error>),
        |
            call_ensures(f, (gi,), res) && gi.out() == (*old(w)).out() + e.open_text()
                && res.1 is Ok && (*final(w)).out() == res.0.out() + e.close_text(),
        r is Ok ==> exists|mid: Seq<char>|
            (*final(w)).out() == (*old(w)).out() + e.open_text() + mid + e.close_text(),
        r is Err ==> partial_write((*old(w)).out(), (*final(w)).out(), e.open_text()) || exists|
            gi: WriteScope<O::Close, &'a mut T>,
            res: (WriteScope<O::Close, &'a mut T>, Result<(), T::Error>),
        |
            call_ensures(f, (gi,), res) && gi.out() == (*old(w)).out() + e.open_text()
                && partial_write(res.0.out(), (*final(w)).out(), e.close_text()) && (res.1 is Err
                ==> r == res.1),
{
    let ghost out0 = (*old(w)).out();
    let g = match ref_open(w, e) {
        Ok(g) => g,
        Err(er) => {
            return Err(er);
        },
    };
    let ghost opened = g.out();
    let (g2, res) = f(g);
    let ghost fres = (g2, res);
    let ghost mid = g2.out().skip(opened.len() as int);
    proof {
        assert(opened.is_prefix_of(g2.out()));
        assert(g2.out() =~= opened + mid);
    }
    let WriteScope { mut closer, writer } = g2;
    match closer.remove_from(&mut *writer) {
        Ok(()) => {
            proof {
                assert((*writer).out() =~= out0 + e.open_text() + mid + e.close_text());
                assert((*writer).out() =~= fres.0.out() + e.close_text());
                lemma_prefix_concat(out0, e.open_text() + mid + e.close_text());
                assert(out0 + (e.open_text() + mid + e.close_text()) =~= (*writer).out());
            }
            res
        },
        Err(er) => {
            proof {
                lemma_prefix_concat(out0, e.open_text() + mid);
                assert(out0 + (e.open_text() + mid) =~= fres.0.out());
                lemma_prefix_trans(out0, fres.0.out(), (*writer).out());
            }
            match res {
                Ok(()) => Err(er),
                Err(first) => Err(first),
            }
        },
    }
}

/// The deferred action that writes a scope's closing tag.
///
/// `close_text()` is the exact text the action will write; it is fixed for
/// the closer's whole life.
pub trait Closer: Sized {
    /// The text that `remove_from` writes.
    spec fn close_text(&self) -> Seq<char>;

    /// The closing text, materialized.
    fn close_text_string(&self) -> (r: String)
        ensures
            r@ == self.close_text(),
    ;

    /// Write the closing text to `w`.
    fn remove_from<W: Open>(&mut self, w: &mut W) -> (r: Result<(), W::Error>)
        ensures
            r is Ok ==> (*final(w)).out() == (*old(w)).out() + (*old(self)).close_text(),
            r is Err ==> partial_write(
                (*old(w)).out(),
                (*final(w)).out(),
                (*old(self)).close_text(),
            ),
            (*final(w)).pending_closes() == (*old(w)).pending_closes(),
            (*final(self)).close_text() == (*old(self)).close_text(),
    ;

    /// This closer's closing text carried as data, behind the uniform
    /// [`DynConstantCloser`] type.
    fn as_boxdyn(self) -> (r: DynConstantCloser)
        ensures
            r.text_spec() == self.close_text(),
    {
        DynConstantCloser { text: self.close_text_string() }
    }
}

/// The uniform interface a guard invokes to close its scope, whichever
/// concrete closer it holds.
pub trait CloserDynComp<W: Open>: Sized {
    /// The text that `remove_from_dyn_comp` writes.
    spec fn close_text_dyn(&self) -> Seq<char>;

    /// Write the closing text to `w`.
    fn remove_from_dyn_comp(&mut self, w: &mut W) -> (r: Result<(), W::Error>)
        ensures
            r is Ok ==> (*final(w)).out() == (*old(w)).out() + (*old(self)).close_text_dyn(),
            r is Err ==> partial_write(
                (*old(w)).out(),
                (*final(w)).out(),
                (*old(self)).close_text_dyn(),
            ),
            (*final(w)).pending_closes() == (*old(w)).pending_closes(),
            (*final(self)).close_text_dyn() == (*old(self)).close_text_dyn(),
    ;
}

impl<W: Open, C: Closer> CloserDynComp<W> for C {
    open spec fn close_text_dyn(&self) -> Seq<char> {
        Closer::close_text(self)
    }

    fn remove_from_dyn_comp(&mut self, w: &mut W) -> (r: Result<(), W::Error>) {
        self.remove_from(w)
    }
}

/// A value that knows how to open a scope: it writes the opening tag and
/// hands back the closer that will later write the matching closing tag.
pub trait Opener: Sized {
    /// The closer this opener produces.
    type Close: Closer;

    /// The text `add_to` writes when it succeeds.
    spec fn open_text(&self) -> Seq<char>;

    /// The text the produced closer will later write.
    spec fn close_text(&self) -> Seq<char>;

    /// Write the opening tag to `w` and return the paired closer.
    fn add_to<W: Open>(self, w: &mut W) -> (r: Result<Self::Close, W::Error>)
        ensures
            r matches Ok(c) ==> (*final(w)).out() == (*old(w)).out() + self.open_text()
                && c.close_text() == self.close_text(),
            r is Err ==> partial_write((*old(w)).out(), (*final(w)).out(), self.open_text()),
            (*final(w)).pending_closes() == (*old(w)).pending_closes(),
    ;
}

/// An opener whose closing text depends on its type alone, so the paired
/// closer needs no runtime data at all.
pub trait ConstantCloseOpener: Sized {
    /// The text `add_to` writes when it succeeds.
    spec fn open_text(&self) -> Seq<char>;

    /// The closing text: a function of the type, not of any value of it.
    spec fn const_close_text() -> Seq<char>;

    /// The closing text, materialized.
    fn close_text_string() -> (r: String)
        ensures
            r@ == Self::const_close_text(),
    ;

    /// Write the opening tag to `w`.
    fn add_to<W: Open>(self, w: &mut W) -> (r: Result<(), W::Error>)
        ensures
            r is Ok ==> (*final(w)).out() == (*old(w)).out() + self.open_text(),
            r is Err ==> partial_write((*old(w)).out(), (*final(w)).out(), self.open_text()),
            (*final(w)).pending_closes() == (*old(w)).pending_closes(),
    ;

    /// Write the closing tag to `w`.
    fn remove_from<W: Open>(w: &mut W) -> (r: Result<(), W::Error>)
        ensures
            r is Ok ==> (*final(w)).out() == (*old(w)).out() + Self::const_close_text(),
            r is Err ==> partial_write(
                (*old(w)).out(),
                (*final(w)).out(),
                Self::const_close_text(),
            ),
            (*final(w)).pending_closes() == (*old(w)).pending_closes(),
    ;
}

/// The zero-size closer paired with a [`ConstantCloseOpener`]: all it needs
/// to know is the opener's type.
pub struct ConstantCloser<O> {
    marker: PhantomData<O>,
}

impl<O: ConstantCloseOpener> Closer for ConstantCloser<O> {
    open spec fn close_text(&self) -> Seq<char> {
        O::const_close_text()
    }

    fn close_text_string(&self) -> (r: String) {
        O::close_text_string()
    }

    fn remove_from<W: Open>(&mut self, w: &mut W) -> (r: Result<(), W::Error>) {
        O::remove_from(w)
    }
}

impl<O: ConstantCloseOpener> Opener for O {
    type Close = ConstantCloser<O>;

    open spec fn open_text(&self) -> Seq<char> {
        ConstantCloseOpener::open_text(self)
    }

    open spec fn close_text(&self) -> Seq<char> {
        O::const_close_text()
    }

    fn add_to<W: Open>(self, w: &mut W) -> (r: Result<ConstantCloser<O>, W::Error>) {
        match ConstantCloseOpener::add_to(self, w) {
            Ok(()) => Ok(ConstantCloser { marker: PhantomData }),
            Err(e) => Err(e),
        }
    }
}

/// A type-erased constant closer: the closing text is carried as data, so
/// scopes opened from different opener types share one closer type. Carrying
/// the text costs one string allocation per erased closer — the one place
/// the protocol allocates, where a concrete [`ConstantCloser`] costs
/// nothing.
pub struct DynConstantCloser {
    text: String,
}

impl DynConstantCloser {
    /// The erased closer for the opener type `O`.
    pub fn new<O: ConstantCloseOpener>() -> (r: DynConstantCloser)
        ensures
            r.text_spec() == O::const_close_text(),
    {
        DynConstantCloser { text: O::close_text_string() }
    }

    /// The closing text this closer will write.
    pub closed spec fn text_spec(&self) -> Seq<char> {
        self.text@
    }
}

impl Closer for DynConstantCloser {
    open spec fn close_text(&self) -> Seq<char> {
        self.text_spec()
    }

    fn close_text_string(&self) -> (r: String) {
        self.text.clone()
    }

    fn remove_from<W: Open>(&mut self, w: &mut W) -> (r: Result<(), W::Error>) {
        w.write_str(self.text.as_str())
    }
}

/// The guard for an open scope: it forwards writes to the sink it wraps and,
/// on release, writes the matching closing tag exactly once. Dropping a
/// guard without releasing it leaks the close obligation, so release every
/// guard with [`WriteScope::close`], [`WriteScope::close_ref`] or
/// [`open_scope`].
///
/// For a guard that borrows an outer sink, write through
/// [`WriteScope::write_str_ref`] and release with [`WriteScope::close_ref`]:
/// only those carry the clause that ties the borrow's final state back to
/// the borrowed-from value. The trait operations say just as much about the
/// output, but a proof that comes back to the outer value afterwards loses
/// the link through them.
pub struct WriteScope<E: CloserDynComp<W>, W: Open> {
    /// The pending close action.
    pub closer: E,
    /// The wrapped sink: owned, or an exclusive borrow of an outer one.
    pub writer: W,
}

impl<E: CloserDynComp<W>, W: Open> WriteScope<E, W> {
    /// The closing text this guard still owes the sink.
    pub open spec fn pending(&self) -> Seq<char> {
        self.closer.close_text_dyn()
    }

    /// Release the scope: write the closing tag and give the wrapped sink
    /// back. On failure the closing tag was at most partially written, and
    /// the sink is lost along with it; release a borrowing guard with
    /// [`WriteScope::close_ref`] to keep the sink reachable either way.
    pub fn close(self) -> (r: Result<W, W::Error>)
        ensures
            r matches Ok(w) ==> w.out() == self.out() + self.pending() && w.pending_closes()
                == self.writer.pending_closes(),
    {
        let WriteScope { mut closer, mut writer } = self;
        match closer.remove_from_dyn_comp(&mut writer) {
            Ok(()) => Ok(writer),
            Err(e) => Err(e),
        }
    }
}

impl<'a, T: Open, C: Closer> WriteScope<C, &'a mut T> {
    /// Release a borrowing scope: write the closing tag and give the borrow
    /// of the outer sink back, so the outer value is reachable again whether
    /// the closing write succeeded or not.
    pub fn close_ref(self) -> (r: Result<&'a mut T, T::Error>)
        ensures
            r matches Ok(w) ==> (*w).out() == (*old(self.writer)).out() + self.pending() && (
            *w).pending_closes() == (*old(self.writer)).pending_closes()
                && *final(w) == *final(self.writer),
            r is Err ==> partial_write(
                (*old(self.writer)).out(),
                (*final(self.writer)).out(),
                self.pending(),
            ) && (*final(self.writer)).pending_closes() == (*old(self.writer)).pending_closes(),
    {
        let WriteScope { mut closer, writer } = self;
        match closer.remove_from(&mut *writer) {
            Ok(()) => Ok(writer),
            Err(e) => Err(e),
        }
    }

    /// Append `s` through a borrowing guard: the same write as
    /// [`Open::write_str`], stated so that the borrow the guard holds is
    /// known to come back unchanged.
    pub fn write_str_ref(&mut self, s: &str) -> (r: Result<(), T::Error>)
        ensures
            r is Ok ==> (*final(self)).out() == (*old(self)).out() + s@,
            r is Err ==> (*final(self)).out() == (*old(self)).out(),
            final(self).pending() == old(self).pending(),
            (*final(self)).pending_closes() == (*old(self)).pending_closes(),
            final(self).closer == old(self).closer,
            *final(final(self).writer) == *final(old(self).writer),
    {
        self.writer.write_str(s)
    }
}

impl<C: Closer, W: Open> WriteScope<C, W> {
    /// Erase the closer's type: the guard keeps the same sink and owes the
    /// same closing text, but its closer is the uniform
    /// [`DynConstantCloser`], so guards opened from different opener types
    /// can flow through one variable.
    pub fn closer_box_dyn(self) -> (r: WriteScope<DynConstantCloser, W>)
        ensures
            r.pending() == self.pending(),
            r.writer == self.writer,
    {
        let WriteScope { closer, writer } = self;
        WriteScope { closer: closer.as_boxdyn(), writer }
    }
}

impl<O: ConstantCloseOpener, W: Open> WriteScope<ConstantCloser<O>, W> {
    /// Erase a constant closer: as [`WriteScope::closer_box_dyn`], but the
    /// closing text is recovered from the opener type alone.
    pub fn type_erase(self) -> (r: WriteScope<DynConstantCloser, W>)
        ensures
            r.pending() == self.pending(),
            r.writer == self.writer,
    {
        let WriteScope { closer: _, writer } = self;
        WriteScope { closer: DynConstantCloser::new::<O>(), writer }
    }
}

impl<E: CloserDynComp<W>, W: Open> Open for WriteScope<E, W> {
    type Error = W::Error;

    open spec fn out(&self) -> Seq<char> {
        self.writer.out()
    }

    open spec fn pending_closes(&self) -> Seq<Seq<char>> {
        self.writer.pending_closes().push(self.closer.close_text_dyn())
    }

    fn write_str(&mut self, s: &str) -> (r: Result<(), W::Error>)
        ensures
            final(self).closer == old(self).closer,
    {
        self.writer.write_str(s)
    }
}

} // verus!
