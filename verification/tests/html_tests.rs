use write_scope::open;
use write_scope::ref_open;
use write_scope::html::A;
use write_scope::html::Body;
use write_scope::html::Div;
use write_scope::html::H2;
use write_scope::html::Head;
use write_scope::html::Header;
use write_scope::html::HtmlElement;
use write_scope::html::Img;
use write_scope::html::Li;
use write_scope::html::Main;
use write_scope::html::Ol;
use write_scope::html::Ul;
use write_scope::sink::WrapFmt;

fn rendered(sink: &WrapFmt) -> String {
    sink.buffer().iter().collect()
}

#[test]
fn attributes_render_in_decoration_order_and_are_not_deduplicated() {
    let mut sink = WrapFmt::new();
    let guard = ref_open(&mut sink, Div.id("toto").id("babar")).unwrap();
    guard.close_ref().unwrap();
    assert_eq!(rendered(&sink), "<div id=\"toto\" id=\"babar\">\n</div>\n");
}

#[test]
fn base_attributes_come_before_decorations() {
    let mut sink = WrapFmt::new();
    let guard = ref_open(&mut sink, A { href: "x" }.id("link")).unwrap();
    guard.close_ref().unwrap();
    assert_eq!(rendered(&sink), "<a href=\"x\" id=\"link\">\n</a>\n");
}

#[test]
fn attr_id_and_class_each_render_their_fragment() {
    let mut sink = WrapFmt::new();
    let e = Div.attr("role", "note").id("n1").class("wide");
    ref_open(&mut sink, e).unwrap().close_ref().unwrap();
    assert_eq!(
        rendered(&sink),
        "<div role=\"note\" id=\"n1\" class=\"wide\">\n</div>\n"
    );
}

#[test]
fn an_empty_attribute_set_renders_the_bare_tag() {
    let mut sink = WrapFmt::new();
    ref_open(&mut sink, Div).unwrap().close_ref().unwrap();
    assert_eq!(rendered(&sink), "<div>\n</div>\n");
}

#[test]
fn anchor_renders_href_double_quoted() {
    let sink = WrapFmt::new();
    let guard = open(sink, A { href: "https://example.org" }).unwrap();
    let sink = guard.close().unwrap();
    assert_eq!(rendered(&sink), "<a href=\"https://example.org\">\n</a>\n");
}

#[test]
fn image_renders_src_double_quoted() {
    let sink = WrapFmt::new();
    let guard = open(sink, Img { src: "cat.png" }).unwrap();
    let sink = guard.close().unwrap();
    assert_eq!(rendered(&sink), "<img src=\"cat.png\">\n</img>\n");
}

#[test]
fn every_simple_element_uses_its_own_tag() {
    let cases: Vec<(&str, fn(&mut WrapFmt))> = vec![
        ("head", |s| {
            ref_open(s, Head).unwrap().close_ref().unwrap();
        }),
        ("body", |s| {
            ref_open(s, Body).unwrap().close_ref().unwrap();
        }),
        ("main", |s| {
            ref_open(s, Main).unwrap().close_ref().unwrap();
        }),
        ("header", |s| {
            ref_open(s, Header).unwrap().close_ref().unwrap();
        }),
        ("h2", |s| {
            ref_open(s, H2).unwrap().close_ref().unwrap();
        }),
        ("ul", |s| {
            ref_open(s, Ul).unwrap().close_ref().unwrap();
        }),
        ("ol", |s| {
            ref_open(s, Ol).unwrap().close_ref().unwrap();
        }),
        ("li", |s| {
            ref_open(s, Li).unwrap().close_ref().unwrap();
        }),
    ];
    for (tag, run) in cases {
        let mut sink = WrapFmt::new();
        run(&mut sink);
        assert_eq!(rendered(&sink), format!("<{}>\n</{}>\n", tag, tag));
    }
}

#[test]
fn list_markup_nests_items_inside_the_list() {
    let mut sink = WrapFmt::new();
    let mut ul = ref_open(&mut sink, Ul).unwrap();
    {
        let mut li = ref_open(&mut ul, Li).unwrap();
        li.write_str_ref("one").unwrap();
        li.close_ref().unwrap();
    }
    {
        let mut li = ref_open(&mut ul, Li).unwrap();
        li.write_str_ref("two").unwrap();
        li.close_ref().unwrap();
    }
    ul.close_ref().unwrap();
    assert_eq!(
        rendered(&sink),
        "<ul>\n<li>\none</li>\n<li>\ntwo</li>\n</ul>\n"
    );
}
