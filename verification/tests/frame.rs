use rust_wasm_dodrio_templating::frame::Frame;
use rust_wasm_dodrio_templating::html_template_mod::{empty_div, HtmlOrSvg};
use rust_wasm_dodrio_templating::namespace::SVG_NAMESPACE;
use rust_wasm_dodrio_templating::node::{bind_listener, Attribute, Element, Listener, Node};

fn frame_of(tag_name: &str) -> Frame<u8> {
    Frame::new(Element::new(tag_name.to_string(), None), HtmlOrSvg::Html)
}

fn leaf(tag_name: &str) -> Element<u8> {
    Element::new(tag_name.to_string(), None)
}

#[test]
fn new_element_is_empty() {
    let element: Element<u8> = Element::new("svg".to_string(), Some(SVG_NAMESPACE));
    assert_eq!(
        element,
        Element {
            tag_name: "svg".to_string(),
            namespace: Some("http://www.w3.org/2000/svg"),
            listeners: vec![],
            attributes: vec![],
            children: vec![],
        }
    );
}

#[test]
fn empty_div_is_an_empty_div() {
    let node: Node<u8> = empty_div();
    assert_eq!(node, Node::Element(leaf("div")));
}

#[test]
fn new_frame_has_nothing_pending() {
    let frame = frame_of("div");
    assert_eq!(
        frame,
        Frame {
            element: leaf("div"),
            html_or_svg: HtmlOrSvg::Html,
            replace_string: None,
            replace_vec_nodes: None,
            replace_boolean: None,
        }
    );
}

#[test]
fn child_frame_is_resolved_and_has_nothing_pending() {
    let mut frame = frame_of("div");
    frame.replace_string = Some("pending".to_string());
    frame.replace_vec_nodes = Some(vec![]);
    frame.replace_boolean = Some(false);
    let child = frame.start_child("svg");
    assert_eq!(
        child,
        Frame {
            element: Element::new("svg".to_string(), Some(SVG_NAMESPACE)),
            html_or_svg: HtmlOrSvg::Svg,
            replace_string: None,
            replace_vec_nodes: None,
            replace_boolean: None,
        }
    );
    let grandchild = child.start_child("foreignObject");
    assert_eq!(grandchild.element.namespace, Some(SVG_NAMESPACE));
    assert_eq!(grandchild.html_or_svg, HtmlOrSvg::Html);
    assert_eq!(grandchild.start_child("p").element.namespace, None);
}

#[test]
fn attribute_takes_the_pending_string() {
    let mut frame = frame_of("input");
    frame.replace_string = Some("new &amp; good".to_string());
    frame.add_attribute("value", "old");
    frame.add_attribute("title", "&lt;own&gt;");
    assert_eq!(
        frame.element.attributes,
        vec![
            Attribute { name: "value".to_string(), value: "new & good".to_string() },
            Attribute { name: "title".to_string(), value: "<own>".to_string() },
        ]
    );
    assert_eq!(frame.replace_string, None);
}

#[test]
fn text_takes_the_pending_string() {
    let mut frame = frame_of("p");
    frame.replace_string = Some("new".to_string());
    frame.add_text("old");
    frame.add_text("own &quot;text&quot;");
    assert_eq!(
        frame.element.children,
        vec![Node::Text("new".to_string()), Node::Text("own \"text\"".to_string())]
    );
    assert_eq!(frame.replace_string, None);
}

#[test]
fn listener_leaves_what_is_pending() {
    let mut frame = frame_of("button");
    frame.replace_string = Some("new".to_string());
    frame.add_listener("click", 7);
    frame.add_listener("keyup", 8);
    assert_eq!(
        frame.element.listeners,
        vec![
            Listener { event: "click".to_string(), callback: 7 },
            Listener { event: "keyup".to_string(), callback: 8 },
        ]
    );
    assert_eq!(frame.replace_string, Some("new".to_string()));
}

#[test]
fn event_has_one_listener() {
    let mut frame = frame_of("button");
    frame.add_listener("click", 1);
    frame.add_listener("keyup", 2);
    frame.add_listener("click", 3);
    assert_eq!(
        frame.element.listeners,
        vec![
            Listener { event: "keyup".to_string(), callback: 2 },
            Listener { event: "click".to_string(), callback: 3 },
        ]
    );
    frame.add_listener("keyup", 4);
    frame.add_listener("Click", 5);
    assert_eq!(
        frame.element.listeners,
        vec![
            Listener { event: "click".to_string(), callback: 3 },
            Listener { event: "keyup".to_string(), callback: 4 },
            Listener { event: "Click".to_string(), callback: 5 },
        ]
    );
}

#[test]
fn binding_takes_out_every_earlier_listener_for_the_event() {
    let mut listeners = vec![
        Listener { event: "click".to_string(), callback: 1 },
        Listener { event: "click".to_string(), callback: 2 },
        Listener { event: "input".to_string(), callback: 3 },
        Listener { event: "click".to_string(), callback: 4 },
    ];
    bind_listener(&mut listeners, "click", 5);
    assert_eq!(
        listeners,
        vec![
            Listener { event: "input".to_string(), callback: 3 },
            Listener { event: "click".to_string(), callback: 5 },
        ]
    );
    let mut none: Vec<Listener<u8>> = Vec::new();
    bind_listener(&mut none, "", 6);
    assert_eq!(none, vec![Listener { event: "".to_string(), callback: 6 }]);
}

#[test]
fn child_is_added_where_nothing_is_pending() {
    let mut frame = frame_of("div");
    frame.replace_string = Some("new".to_string());
    frame.add_child(leaf("p"));
    assert_eq!(frame.element.children, vec![Node::Element(leaf("p"))]);
    assert_eq!(frame.replace_string, Some("new".to_string()));
    assert_eq!(frame.replace_boolean, None);
    assert_eq!(frame.replace_vec_nodes, None);
}

#[test]
fn child_is_added_where_it_stays() {
    let mut frame = frame_of("div");
    frame.replace_boolean = Some(true);
    frame.add_child(leaf("p"));
    assert_eq!(frame.element.children, vec![Node::Element(leaf("p"))]);
    assert_eq!(frame.replace_boolean, None);
}

#[test]
fn child_is_left_out_where_it_does_not_stay() {
    let mut frame = frame_of("div");
    frame.add_child(leaf("a"));
    frame.replace_boolean = Some(false);
    frame.add_child(leaf("p"));
    assert_eq!(frame.element.children, vec![Node::Element(leaf("a"))]);
    assert_eq!(frame.replace_boolean, None);
    frame.add_child(leaf("b"));
    assert_eq!(frame.element.children, vec![Node::Element(leaf("a")), Node::Element(leaf("b"))]);
}

#[test]
fn pending_nodes_take_the_place_of_the_child() {
    let mut frame = frame_of("div");
    frame.add_child(leaf("a"));
    frame.replace_vec_nodes = Some(vec![Node::Text("x".to_string()), Node::Element(leaf("y"))]);
    frame.add_child(leaf("p"));
    assert_eq!(
        frame.element.children,
        vec![Node::Element(leaf("a")), Node::Text("x".to_string()), Node::Element(leaf("y"))]
    );
    assert_eq!(frame.replace_vec_nodes, None);
}

#[test]
fn pending_nodes_stay_pending_where_the_child_does_not_stay() {
    let mut frame = frame_of("div");
    frame.replace_vec_nodes = Some(vec![Node::Text("x".to_string())]);
    frame.replace_boolean = Some(false);
    frame.add_child(leaf("p"));
    assert_eq!(frame.element.children, vec![]);
    assert_eq!(frame.replace_vec_nodes, Some(vec![Node::Text("x".to_string())]));
    assert_eq!(frame.replace_boolean, None);
    frame.add_child(leaf("q"));
    assert_eq!(frame.element.children, vec![Node::Text("x".to_string())]);
    assert_eq!(frame.replace_vec_nodes, None);
}
