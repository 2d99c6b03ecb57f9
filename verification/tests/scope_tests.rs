use write_scope::Open;
use write_scope::WriteScope;
use write_scope::DynConstantCloser;
use write_scope::open;
use write_scope::open_scope;
use write_scope::ref_open;
use write_scope::html::Body;
use write_scope::html::Div;
use write_scope::html::H1;
use write_scope::html::Html;
use write_scope::html::HtmlElement;
use write_scope::html::P;
use write_scope::laws::bracketed_text;
use write_scope::laws::empty_scope;
use write_scope::laws::nest_three;
use write_scope::laws::nest_two;
use write_scope::laws::sibling_after_borrow;
use write_scope::sink::BoundedSink;
use write_scope::sink::WrapFmt;

fn rendered(sink: &WrapFmt) -> String {
    sink.buffer().iter().collect()
}

fn rendered_bounded(sink: &BoundedSink) -> String {
    sink.buffer().iter().collect()
}

#[test]
fn open_writes_opening_tag_and_close_writes_closing_tag() {
    let sink = WrapFmt::new();
    let guard = open(sink, Div).unwrap();
    let sink = guard.close().unwrap();
    assert_eq!(rendered(&sink), "<div>\n</div>\n");
}

#[test]
fn close_writes_the_closing_tag_exactly_once() {
    let sink = WrapFmt::new();
    let mut guard = open(sink, Div).unwrap();
    guard.write_str("inside").unwrap();
    let sink = guard.close().unwrap();
    let out = rendered(&sink);
    assert_eq!(out, "<div>\ninside</div>\n");
    assert_eq!(out.matches("</div>").count(), 1);
}

#[test]
fn nested_scopes_close_in_reverse_order() {
    let sink = WrapFmt::new();
    let sink = nest_two(sink, Html, Body).unwrap();
    assert_eq!(rendered(&sink), "<html>\n<body>\n</body>\n</html>\n");
}

#[test]
fn three_nested_scopes_close_innermost_first() {
    let sink = WrapFmt::new();
    let sink = nest_three(sink, Html, Body, Div).unwrap();
    assert_eq!(
        rendered(&sink),
        "<html>\n<body>\n<div>\n</div>\n</body>\n</html>\n"
    );
}

#[test]
fn borrowing_leaves_the_outer_sink_usable_for_siblings() {
    let mut sink = WrapFmt::new();
    sibling_after_borrow(&mut sink, Div, P).unwrap();
    assert_eq!(rendered(&sink), "<div>\n</div>\n<p>\n</p>\n");
}

#[test]
fn borrowed_child_then_sibling_by_hand() {
    let mut sink = WrapFmt::new();
    let child = ref_open(&mut sink, Div).unwrap();
    child.close_ref().unwrap();
    let sibling = ref_open(&mut sink, H1).unwrap();
    sibling.close_ref().unwrap();
    assert_eq!(rendered(&sink), "<div>\n</div>\n<h1>\n</h1>\n");
}

#[test]
fn text_is_written_as_it_stands() {
    let mut sink = WrapFmt::new();
    sink.text("5 < 6 & 7 > 2").unwrap();
    assert_eq!(rendered(&sink), "5 < 6 & 7 > 2");
}

#[test]
fn bracketed_text_puts_the_text_between_the_tags() {
    let mut sink = WrapFmt::new();
    bracketed_text(&mut sink, H1, "Hello!").unwrap();
    assert_eq!(rendered(&sink), "<h1>\nHello!</h1>\n");
}

#[test]
fn open_scope_closes_around_the_callback() {
    let mut sink = WrapFmt::new();
    open_scope(&mut sink, Div.id("tutu"), |mut guard| {
        let r = guard.write_str_ref("content");
        (guard, r)
    })
    .unwrap();
    assert_eq!(rendered(&sink), "<div id=\"tutu\">\ncontent</div>\n");
}

#[test]
fn open_scope_propagates_the_callback_error_and_still_closes() {
    let mut sink = WrapFmt::new();
    let r = open_scope(&mut sink, Div, |guard| (guard, Err(())));
    assert_eq!(r, Err(()));
    assert_eq!(rendered(&sink), "<div>\n</div>\n");
}

#[test]
fn open_scope_surfaces_a_close_time_failure() {
    let mut sink = BoundedSink::new(6);
    let r = open_scope(&mut sink, Div, |guard| (guard, Ok(())));
    assert_eq!(r, Err(()));
    assert_eq!(rendered_bounded(&sink), "<div>\n");
}

#[test]
fn empty_scope_leaves_only_the_two_tags() {
    let mut sink = WrapFmt::new();
    empty_scope(&mut sink, Div).unwrap();
    assert_eq!(rendered(&sink), "<div>\n</div>\n");
}

#[test]
fn type_erase_keeps_the_closing_tag() {
    let sink = WrapFmt::new();
    let guard = open(sink, Div).unwrap();
    let erased = guard.type_erase();
    let sink = erased.close().unwrap();
    assert_eq!(rendered(&sink), "<div>\n</div>\n");
}

#[test]
fn closer_box_dyn_keeps_the_closing_tag() {
    let sink = WrapFmt::new();
    let guard = open(sink, P).unwrap();
    let erased = guard.closer_box_dyn();
    let sink = erased.close().unwrap();
    assert_eq!(rendered(&sink), "<p>\n</p>\n");
}

#[test]
fn erased_guards_from_different_elements_share_one_type() {
    for pick_div in [true, false] {
        let mut sink = WrapFmt::new();
        let erased = if pick_div {
            ref_open(&mut sink, Div).unwrap().type_erase()
        } else {
            ref_open(&mut sink, H1).unwrap().type_erase()
        };
        erased.close_ref().unwrap();
        let out = rendered(&sink);
        if pick_div {
            assert_eq!(out, "<div>\n</div>\n");
        } else {
            assert_eq!(out, "<h1>\n</h1>\n");
        }
    }
}

#[test]
fn dyn_constant_closer_new_closes_its_element() {
    let mut sink = WrapFmt::new();
    sink.write_str("<div>\n").unwrap();
    let guard = WriteScope { closer: DynConstantCloser::new::<Div>(), writer: sink };
    let sink = guard.close().unwrap();
    assert_eq!(rendered(&sink), "<div>\n</div>\n");
}

#[test]
fn failed_opening_write_produces_no_guard_and_no_closing_tag() {
    let mut sink = BoundedSink::new(0);
    let r = ref_open(&mut sink, Div);
    assert!(r.is_err());
    assert_eq!(rendered_bounded(&sink), "");
}

#[test]
fn failure_inside_the_opening_tag_leaves_only_a_partial_opening() {
    let mut sink = BoundedSink::new(3);
    let r = ref_open(&mut sink, Div);
    assert!(r.is_err());
    let out = rendered_bounded(&sink);
    assert!("<div>\n".starts_with(&out));
    assert!(!out.contains("</"));
}

#[test]
fn bounded_sink_accepts_exactly_its_capacity() {
    let mut sink = BoundedSink::new(6);
    let guard = ref_open(&mut sink, Div).unwrap();
    assert!(guard.close_ref().is_err());
    assert_eq!(rendered_bounded(&sink), "<div>\n");
}

#[test]
fn end_to_end_scenario() {
    let sink = WrapFmt::new();
    let html = open(sink, Html).unwrap();
    let mut body = open(html, Body).unwrap();
    {
        let mut toto = ref_open(&mut body, Div.id("toto").id("babar")).unwrap();
        ref_open(&mut toto, Div.id("toto_1")).unwrap().close_ref().unwrap();
        ref_open(&mut toto, Div.id("toto_2")).unwrap().close_ref().unwrap();
        toto.close_ref().unwrap();
    }
    ref_open(&mut body, Div.id("tata")).unwrap().close_ref().unwrap();
    open_scope(&mut body, Div.id("tutu"), |mut tutu| {
        {
            let mut h = ref_open(&mut tutu, H1).unwrap();
            h.write_str_ref("Hello!").unwrap();
            h.close_ref().unwrap();
        }
        {
            let mut p = ref_open(&mut tutu, P).unwrap();
            p.write_str_ref("Beautiful morning!").unwrap();
            p.close_ref().unwrap();
        }
        (tutu, Ok(()))
    })
    .unwrap();
    ref_open(&mut body, Div).unwrap().close_ref().unwrap();
    let html = body.close().unwrap();
    let sink = html.close().unwrap();
    let expected = "<html>\n<body>\n<div id=\"toto\" id=\"babar\">\n<div id=\"toto_1\">\n</div>\n<div id=\"toto_2\">\n</div>\n</div>\n<div id=\"tata\">\n</div>\n<div id=\"tutu\">\n<h1>\nHello!</h1>\n<p>\nBeautiful morning!</p>\n</div>\n<div>\n</div>\n</body>\n</html>\n";
    assert_eq!(rendered(&sink), expected);
}
