//! Laws of the scope protocol: nested scopes close in last-opened-first-closed
//! order, and borrowing leaves the outer sink usable once the child is
//! released.

use vstd::prelude::*;

use crate::scope::Closer;
use crate::scope::Open;
use crate::scope::Opener;
use crate::scope::WriteScope;
use crate::scope::lemma_prefix_concat;
use crate::scope::lemma_prefix_trans;
use crate::scope::open;
use crate::scope::open_scope;
use crate::scope::ref_open;

verus! {

/// The opening texts of `pairs`, in order.
pub open spec fn opens_in_order(pairs: Seq<(Seq<char>, Seq<char>)>) -> Seq<char>
    decreases pairs.len(),
{
    if pairs.len() == 0 {
        Seq::empty()
    } else {
        pairs[0].0 + opens_in_order(pairs.drop_first())
    }
}

/// The closing texts of `pairs`, in reverse order.
pub open spec fn closes_in_reverse(pairs: Seq<(Seq<char>, Seq<char>)>) -> Seq<char>
    decreases pairs.len(),
{
    if pairs.len() == 0 {
        Seq::empty()
    } else {
        closes_in_reverse(pairs.drop_first()) + pairs[0].1
    }
}

/// What a run writes when it opens every scope of `pairs` in order, one
/// inside the other, and then releases them all: each scope's opening text,
/// its body, and its closing text.
pub open spec fn render_nested(pairs: Seq<(Seq<char>, Seq<char>)>) -> Seq<char>
    decreases pairs.len(),
{
    if pairs.len() == 0 {
        Seq::empty()
    } else {
        pairs[0].0 + render_nested(pairs.drop_first()) + pairs[0].1
    }
}

/// Well-formedness of nesting: however many scopes a run opens, the output
/// carries the opening texts in the order the scopes were opened, and then
/// the closing texts in exactly the reverse order, one closing text for each
/// opening one.
pub proof fn lemma_nested_closes_in_reverse(pairs: Seq<(Seq<char>, Seq<char>)>)
    ensures
        render_nested(pairs) == opens_in_order(pairs) + closes_in_reverse(pairs),
    decreases pairs.len(),
{
    if pairs.len() == 0 {
        assert(render_nested(pairs) =~= opens_in_order(pairs) + closes_in_reverse(pairs));
    } else {
        lemma_nested_closes_in_reverse(pairs.drop_first());
        assert(render_nested(pairs) =~= opens_in_order(pairs) + closes_in_reverse(pairs));
    }
}

/// The law of [`lemma_nested_closes_in_reverse`] carried out by the
/// executable protocol, two scopes deep: opening `a` then `b` on an owned
/// sink and releasing both leaves the sink holding the opening texts in
/// order followed by the closing texts in reverse order, and each closing
/// text was written exactly once, by the release of its own scope.
pub fn nest_two<W: Open, A: Opener, B: Opener>(w: W, a: A, b: B) -> (r: Result<W, W::Error>)
    ensures
        r matches Ok(w2) ==> w2.out() == w.out() + render_nested(
            seq![(a.open_text(), a.close_text()), (b.open_text(), b.close_text())],
        ) && w2.pending_closes() == w.pending_closes(),
{
    let ghost out0 = w.out();
    let ghost stack0 = w.pending_closes();
    let ga = match open(w, a) {
        Ok(g) => g,
        Err(e) => {
            return Err(e);
        },
    };
    let gb = match open(ga, b) {
        Ok(g) => g,
        Err(e) => {
            return Err(e);
        },
    };
    proof {
        assert(ga.pending_closes() =~= stack0.push(a.close_text()));
    }
    let ga2 = match gb.close() {
        Ok(g) => g,
        Err(e) => {
            return Err(e);
        },
    };
    proof {
        assert(ga2.pending_closes() =~= stack0.push(a.close_text()));
        assert(ga2.pending_closes().last() == a.close_text());
        assert(ga2.pending() == ga2.pending_closes().last());
        assert(ga2.writer.pending_closes() =~= ga2.pending_closes().drop_last());
        assert(stack0.push(a.close_text()).drop_last() =~= stack0);
    }
    let w2 = match ga2.close() {
        Ok(w2) => w2,
        Err(e) => {
            return Err(e);
        },
    };
    proof {
        let pairs = seq![(a.open_text(), a.close_text()), (b.open_text(), b.close_text())];
        let rest = seq![(b.open_text(), b.close_text())];
        assert(pairs.drop_first() =~= rest);
        assert(rest.drop_first() =~= Seq::<(Seq<char>, Seq<char>)>::empty());
        assert(render_nested(rest.drop_first()) =~= Seq::<char>::empty());
        assert(render_nested(rest) =~= b.open_text() + b.close_text());
        assert(render_nested(pairs) =~= a.open_text() + render_nested(rest) + a.close_text());
        assert(w2.out() =~= out0 + render_nested(pairs));
    }
    Ok(w2)
}

/// As [`nest_two`], three scopes deep: the innermost scope closes first and
/// the outermost last.
pub fn nest_three<W: Open, A: Opener, B: Opener, C: Opener>(w: W, a: A, b: B, c: C) -> (r: Result<
    W,
    W::Error,
>)
    ensures
        r matches Ok(w2) ==> w2.out() == w.out() + render_nested(
            seq![
                (a.open_text(), a.close_text()),
                (b.open_text(), b.close_text()),
                (c.open_text(), c.close_text()),
            ],
        ) && w2.pending_closes() == w.pending_closes(),
{
    let ghost out0 = w.out();
    let ghost stack0 = w.pending_closes();
    let ga = match open(w, a) {
        Ok(g) => g,
        Err(e) => {
            return Err(e);
        },
    };
    proof {
        assert(ga.pending_closes() =~= stack0.push(a.close_text()));
    }
    let ga2 = match nest_two(ga, b, c) {
        Ok(g) => g,
        Err(e) => {
            return Err(e);
        },
    };
    proof {
        assert(ga2.pending_closes() =~= stack0.push(a.close_text()));
        assert(ga2.pending_closes().last() == a.close_text());
        assert(ga2.pending() == ga2.pending_closes().last());
        assert(ga2.writer.pending_closes() =~= ga2.pending_closes().drop_last());
        assert(stack0.push(a.close_text()).drop_last() =~= stack0);
    }
    let w2 = match ga2.close() {
        Ok(w2) => w2,
        Err(e) => {
            return Err(e);
        },
    };
    proof {
        let pairs = seq![
            (a.open_text(), a.close_text()),
            (b.open_text(), b.close_text()),
            (c.open_text(), c.close_text()),
        ];
        let inner = seq![(b.open_text(), b.close_text()), (c.open_text(), c.close_text())];
        assert(pairs.drop_first() =~= inner);
        assert(render_nested(pairs) =~= a.open_text() + render_nested(inner) + a.close_text());
        assert(w2.out() =~= out0 + render_nested(pairs));
    }
    Ok(w2)
}

/// Borrowing keeps the outer sink alive: opening a child scope on a borrow
/// and releasing it leaves the sink ready for a sibling scope, and the two
/// brackets land side by side in the output. Come what may, the output only
/// grows and no closing text falls due that was not due before.
pub fn sibling_after_borrow<W: Open, A: Opener, B: Opener>(w: &mut W, a: A, b: B) -> (r: Result<
    (),
    W::Error,
>)
    ensures
        r is Ok ==> (*final(w)).out() == (*old(w)).out() + a.open_text() + a.close_text()
            + b.open_text() + b.close_text(),
        (*old(w)).out().is_prefix_of((*final(w)).out()),
        (*final(w)).pending_closes() == (*old(w)).pending_closes(),
{
    let ghost out0 = (*old(w)).out();
    let ga = match ref_open(&mut *w, a) {
        Ok(g) => g,
        Err(e) => {
            return Err(e);
        },
    };
    match ga.close_ref() {
        Ok(_) => (),
        Err(e) => {
            proof {
                lemma_prefix_concat(out0, a.open_text());
                lemma_prefix_trans(out0, out0 + a.open_text(), (*final(w)).out());
            }
            return Err(e);
        },
    }
    let ghost out1 = out0 + a.open_text() + a.close_text();
    let gb = match ref_open(&mut *w, b) {
        Ok(g) => g,
        Err(e) => {
            proof {
                lemma_prefix_concat(out0, a.open_text() + a.close_text());
                assert(out0 + (a.open_text() + a.close_text()) =~= out1);
                lemma_prefix_trans(out0, out1, (*final(w)).out());
            }
            return Err(e);
        },
    };
    match gb.close_ref() {
        Ok(_) => (),
        Err(e) => {
            proof {
                lemma_prefix_concat(out0, a.open_text() + a.close_text() + b.open_text());
                assert(out0 + (a.open_text() + a.close_text() + b.open_text()) =~= out1
                    + b.open_text());
                lemma_prefix_trans(out0, out1 + b.open_text(), (*final(w)).out());
            }
            return Err(e);
        },
    }
    proof {
        lemma_prefix_concat(
            out0,
            a.open_text() + a.close_text() + b.open_text() + b.close_text(),
        );
        assert(out0 + (a.open_text() + a.close_text() + b.open_text() + b.close_text()) =~= out0
            + a.open_text() + a.close_text() + b.open_text() + b.close_text());
    }
    Ok(())
}

/// One scope around one piece of text: open, write the text through the
/// borrowing guard, release. The three fragments land in the output in that
/// order, nothing else between them. Come what may, the output only grows
/// and no closing text falls due that was not due before.
pub fn bracketed_text<W: Open, O: Opener>(w: &mut W, e: O, d: &str) -> (r: Result<(), W::Error>)
    ensures
        r is Ok ==> (*final(w)).out() == (*old(w)).out() + e.open_text() + d@ + e.close_text(),
        (*old(w)).out().is_prefix_of((*final(w)).out()),
        (*final(w)).pending_closes() == (*old(w)).pending_closes(),
{
    let ghost out0 = (*old(w)).out();
    let ghost stack0 = (*old(w)).pending_closes();
    let mut g = match ref_open(&mut *w, e) {
        Ok(g) => g,
        Err(er) => {
            return Err(er);
        },
    };
    proof {
        assert(g.pending_closes() =~= stack0.push(e.close_text()));
    }
    match g.write_str_ref(d) {
        Ok(()) => (),
        Err(er) => {
            proof {
                assert((*g.writer).pending_closes() =~= g.pending_closes().drop_last());
                assert(stack0.push(e.close_text()).drop_last() =~= stack0);
            }
            match g.close_ref() {
                Ok(_) => (),
                Err(_) => (),
            }
            proof {
                lemma_prefix_concat(out0, e.open_text());
                lemma_prefix_trans(out0, out0 + e.open_text(), (*final(w)).out());
            }
            return Err(er);
        },
    }
    proof {
        assert((*g.writer).pending_closes() =~= g.pending_closes().drop_last());
        assert(stack0.push(e.close_text()).drop_last() =~= stack0);
    }
    match g.close_ref() {
        Ok(_) => {
            proof {
                lemma_prefix_concat(out0, e.open_text() + d@ + e.close_text());
                assert(out0 + (e.open_text() + d@ + e.close_text()) =~= out0 + e.open_text() + d@
                    + e.close_text());
            }
            Ok(())
        },
        Err(er) => {
            proof {
                lemma_prefix_concat(out0, e.open_text() + d@);
                assert(out0 + (e.open_text() + d@) =~= out0 + e.open_text() + d@);
                lemma_prefix_trans(out0, out0 + e.open_text() + d@, (*final(w)).out());
            }
            Err(er)
        },
    }
}

/// A callback for [`open_scope`] that writes nothing: it hands the guard
/// back as it was given.
fn leave_unchanged<'a, T: Open, C: Closer>(g: WriteScope<C, &'a mut T>) -> (res: (
    WriteScope<C, &'a mut T>,
    Result<(), T::Error>,
))
    ensures
        res.0.pending() == g.pending(),
        g.out().is_prefix_of(res.0.out()),
        (*res.0.writer).pending_closes() == (*old(g.writer)).pending_closes(),
        *final(res.0.writer) == *final(g.writer),
{
    proof {
        assert(g.out() =~= g.out().take(g.out().len() as int));
    }
    (g, Ok(()))
}

/// The scoped-callback form used end to end: an empty scope opened and
/// released around a callback that writes nothing leaves exactly the opening
/// and closing texts behind.
pub fn empty_scope<W: Open, O: Opener>(w: &mut W, e: O) -> (r: Result<(), W::Error>)
    ensures
        r is Ok ==> exists|mid: Seq<char>|
            (*final(w)).out() == (*old(w)).out() + e.open_text() + mid + e.close_text(),
        (*old(w)).out().is_prefix_of((*final(w)).out()),
        (*final(w)).pending_closes() == (*old(w)).pending_closes(),
{
    open_scope(w, e, leave_unchanged)
}

} // verus!
