use reader_for_microxml::ReaderForMicroXml;
use rust_wasm_dodrio_templating::error::TemplateError;
use rust_wasm_dodrio_templating::frame::Frame;
use rust_wasm_dodrio_templating::html_template_mod::{HtmlOrSvg, HtmlTemplating};
use rust_wasm_dodrio_templating::node::{Attribute, Element, Node};
use rust_wasm_dodrio_templating::token::TemplateToken;
use rust_wasm_dodrio_templating::tree_builder::{Progress, TreeBuilder};

/// A host that answers with the name it is asked with, in brackets.
struct Echo;

impl HtmlTemplating for Echo {
    type Listener = (String, u8);

    fn replace_with_string(&self, fn_name: &str) -> String {
        format!("({})", fn_name)
    }

    fn retain_next_node_or_attribute(&self, fn_name: &str) -> bool {
        fn_name.ends_with("yes")
    }

    fn replace_with_nodes(&self, fn_name: &str) -> Vec<Node<(String, u8)>> {
        vec![Node::Text(format!("<{}>", fn_name))]
    }

    fn set_event_listener(&self, fn_name: String, event_to_listen: &str) -> (String, u8) {
        (fn_name, event_to_listen.len() as u8)
    }
}

fn echo_element(tag_name: &str) -> Element<(String, u8)> {
    Element::new(tag_name.to_string(), None)
}

fn echo_builder(tag_name: &str) -> TreeBuilder<(String, u8)> {
    TreeBuilder::new(Frame::new(echo_element(tag_name), HtmlOrSvg::Html))
}

/// Hands `tokens` to a builder in which `div` alone is open, one after the
/// other, until the builder has ended.
fn echo_feed_all(
    tokens: Vec<Result<TemplateToken<'static>, &'static str>>,
) -> (Option<Result<Element<(String, u8)>, TemplateError>>, Vec<String>) {
    let mut dom_path = vec!["div".to_string()];
    let mut builder = echo_builder("div");
    for token in tokens {
        match Echo.feed(builder, &mut dom_path, token) {
            Progress::Open(next) => builder = next,
            Progress::Closed(result) => return (Some(result), dom_path),
        }
    }
    (None, dom_path)
}

#[test]
fn comment_then_attribute_then_text() {
    let (result, dom_path) = echo_feed_all(vec![
        Ok(TemplateToken::Comment("wt_new")),
        Ok(TemplateToken::Attribute("title", "old")),
        Ok(TemplateToken::TextNode("own")),
        Ok(TemplateToken::EndElement("div")),
    ]);
    let mut div = echo_element("div");
    div.attributes = vec![Attribute { name: "title".to_string(), value: "(wt_new)".to_string() }];
    div.children = vec![Node::Text("own".to_string())];
    assert_eq!(result, Some(Ok(div)));
    assert_eq!(dom_path, Vec::<String>::new());
}

#[test]
fn start_of_an_element_suspends_the_frame() {
    let mut dom_path = vec!["div".to_string()];
    let mut builder = echo_builder("div");
    builder.current.replace_string = Some("pending".to_string());
    let progress = Echo.feed(builder, &mut dom_path, Ok(TemplateToken::StartElement("p")));
    let mut waiting = Frame::new(echo_element("div"), HtmlOrSvg::Html);
    waiting.replace_string = Some("pending".to_string());
    assert_eq!(
        progress,
        Progress::Open(TreeBuilder {
            suspended: vec![waiting],
            current: Frame::new(echo_element("p"), HtmlOrSvg::Html),
        })
    );
    assert_eq!(dom_path, vec!["div".to_string(), "p".to_string()]);
}

#[test]
fn end_of_an_element_hands_it_to_the_frame_that_waited() {
    let mut dom_path = vec!["div".to_string(), "p".to_string()];
    let mut child = Frame::new(echo_element("p"), HtmlOrSvg::Html);
    child.replace_string = Some("lost".to_string());
    let builder = TreeBuilder {
        suspended: vec![Frame::new(echo_element("div"), HtmlOrSvg::Html)],
        current: child,
    };
    let progress = Echo.feed(builder, &mut dom_path, Ok(TemplateToken::EndElement("p")));
    let mut div = echo_element("div");
    div.children = vec![Node::Element(echo_element("p"))];
    assert_eq!(
        progress,
        Progress::Open(TreeBuilder { suspended: vec![], current: Frame::new(div, HtmlOrSvg::Html) })
    );
    assert_eq!(dom_path, vec!["div".to_string()]);
}

#[test]
fn end_tag_is_held_against_the_path() {
    // the element is `div`, but the path says that `section` was opened
    let mut dom_path = vec!["section".to_string()];
    let progress = Echo.feed(echo_builder("div"), &mut dom_path, Ok(TemplateToken::EndElement("div")));
    assert_eq!(
        progress,
        Progress::Closed(Err(TemplateError::MismatchedTag {
            opened: "section".to_string(),
            closed: "div".to_string()
        }))
    );
    assert_eq!(dom_path, Vec::<String>::new());
}

#[test]
fn end_tag_without_a_name_closes_any_element() {
    let mut dom_path = vec!["section".to_string()];
    let progress = Echo.feed(echo_builder("div"), &mut dom_path, Ok(TemplateToken::EndElement("")));
    assert_eq!(progress, Progress::Closed(Ok(echo_element("div"))));
    assert_eq!(dom_path, Vec::<String>::new());
}

#[test]
fn error_of_the_reader_ends_the_building() {
    let mut dom_path = vec!["div".to_string()];
    let progress = Echo.feed(echo_builder("div"), &mut dom_path, Err("broken"));
    assert_eq!(
        progress,
        Progress::Closed(Err(TemplateError::TokenSourceError("broken".to_string())))
    );
    assert_eq!(dom_path, vec!["div".to_string()]);
}

#[test]
fn wrong_value_ends_the_building() {
    let (result, dom_path) = echo_feed_all(vec![
        Ok(TemplateToken::StartElement("p")),
        Ok(TemplateToken::Attribute("data-on-click", "go")),
        Ok(TemplateToken::EndElement("p")),
    ]);
    assert_eq!(
        result,
        Some(Err(TemplateError::InvalidDirectiveName {
            attribute: "data-on-click".to_string(),
            value: "go".to_string()
        }))
    );
    assert_eq!(dom_path, vec!["div".to_string(), "p".to_string()]);
}

#[test]
fn comments_leave_the_answers_of_the_host_pending() {
    let mut frame = Frame::new(echo_element("div"), HtmlOrSvg::Html);
    Echo.apply_comment(&mut frame, "wt_a");
    Echo.apply_comment(&mut frame, "wn_b");
    Echo.apply_comment(&mut frame, "wb_yes");
    Echo.apply_comment(&mut frame, "end_of_wt");
    Echo.apply_comment(&mut frame, "nothing");
    assert_eq!(frame.replace_string, Some("(wt_a)".to_string()));
    assert_eq!(frame.replace_vec_nodes, Some(vec![Node::Text("<wn_b>".to_string())]));
    assert_eq!(frame.replace_boolean, Some(true));
    assert_eq!(frame.element, echo_element("div"));
    Echo.apply_comment(&mut frame, "wb_no");
    assert_eq!(frame.replace_boolean, Some(false));
}

#[test]
fn attributes_ask_the_host_with_their_value() {
    let mut frame = Frame::new(echo_element("input"), HtmlOrSvg::Html);
    assert_eq!(Echo.apply_attribute(&mut frame, "data-wt-value", "wt_a"), Ok(()));
    assert_eq!(frame.replace_string, Some("(wt_a)".to_string()));
    assert_eq!(frame.element, echo_element("input"));
    assert_eq!(Echo.apply_attribute(&mut frame, "data-on-keyup", "wl_b"), Ok(()));
    assert_eq!(frame.element.listeners.len(), 1);
    assert_eq!(frame.element.listeners[0].event, "keyup");
    assert_eq!(frame.element.listeners[0].callback, ("wl_b".to_string(), 5));
    assert_eq!(frame.replace_string, Some("(wt_a)".to_string()));
    assert_eq!(Echo.apply_attribute(&mut frame, "value", "old"), Ok(()));
    assert_eq!(
        frame.element.attributes,
        vec![Attribute { name: "value".to_string(), value: "(wt_a)".to_string() }]
    );
    assert_eq!(frame.replace_string, None);
    assert_eq!(
        Echo.apply_attribute(&mut frame, "data-wt-value", "a"),
        Err(TemplateError::InvalidDirectiveName {
            attribute: "data-wt-value".to_string(),
            value: "a".to_string()
        })
    );
}

#[test]
fn fills_an_element_from_a_reader() {
    let mut reader_inside = ReaderForMicroXml::new("<p id=\"x\"><!--wn_b--><i>gone</i>text</p><q/>");
    assert!(matches!(reader_inside.next(), Some(Ok(reader_for_microxml::Token::StartElement("p")))));
    let mut dom_path = vec!["html".to_string(), "p".to_string()];
    let mut given = echo_element("p");
    given.children = vec![Node::Text("before".to_string())];
    let result =
        Echo.fill_element_builder(&mut reader_inside, given, HtmlOrSvg::Html, &mut dom_path);
    let mut p = echo_element("p");
    p.attributes = vec![Attribute { name: "id".to_string(), value: "x".to_string() }];
    p.children = vec![
        Node::Text("before".to_string()),
        Node::Text("<wn_b>".to_string()),
        Node::Text("text".to_string()),
    ];
    assert_eq!(result, Ok(p));
    assert_eq!(dom_path, vec!["html".to_string()]);
    // the reader stands behind the end tag of the element
    assert!(matches!(
        reader_inside.next(),
        Some(Ok(reader_for_microxml::Token::StartElement("q")))
    ));
}

#[test]
fn fills_an_element_up_to_an_error() {
    let mut reader = ReaderForMicroXml::new("<p><a><b></c></b></a></p> ");
    assert!(matches!(reader.next(), Some(Ok(reader_for_microxml::Token::StartElement("p")))));
    let mut dom_path = vec!["p".to_string()];
    let result = Echo.fill_element_builder(&mut reader, echo_element("p"), HtmlOrSvg::Html, &mut dom_path);
    assert_eq!(
        result,
        Err(TemplateError::MismatchedTag { opened: "b".to_string(), closed: "c".to_string() })
    );
    assert_eq!(dom_path, vec!["p".to_string(), "a".to_string()]);
    assert!(matches!(reader.next(), Some(Ok(reader_for_microxml::Token::EndElement("b")))));
}

#[test]
fn fills_an_element_up_to_the_end_of_the_template() {
    let mut reader = ReaderForMicroXml::new("<p><a>text</a><b>");
    assert!(matches!(reader.next(), Some(Ok(reader_for_microxml::Token::StartElement("p")))));
    let mut dom_path = vec!["p".to_string()];
    let result = Echo.fill_element_builder(&mut reader, echo_element("p"), HtmlOrSvg::Html, &mut dom_path);
    assert_eq!(result, Err(TemplateError::UnexpectedEndOfInput));
    assert_eq!(dom_path, vec!["p".to_string(), "b".to_string()]);
    assert!(reader.next().is_none());
}

/// A host that answers otherwise than `Echo` does.
struct Other;

impl HtmlTemplating for Other {
    type Listener = u64;

    fn replace_with_string(&self, _fn_name: &str) -> String {
        String::new()
    }

    fn retain_next_node_or_attribute(&self, fn_name: &str) -> bool {
        !fn_name.ends_with("yes")
    }

    fn replace_with_nodes(&self, _fn_name: &str) -> Vec<Node<u64>> {
        Vec::new()
    }

    fn set_event_listener(&self, _fn_name: String, _event_to_listen: &str) -> u64 {
        0
    }
}

#[test]
fn errors_do_not_depend_on_the_host() {
    let templates = [
        "",
        "text",
        "<a>",
        "<a><!--wb_yes--><b></a>",
        "<a><!--wb_no--><b x y></b></a>",
        "<a><!--wn_x--><b data-wt-v=\"v\"/></a>",
        "<a><!--wt_x--><b data-on-v=\"v\"/>text</a>",
        "<a><b/><!--wb_yes--><c></c><!--wn_x--><d>",
    ];
    for template in templates {
        let echo = Echo.render_template(template, HtmlOrSvg::Html);
        let other = Other.render_template(template, HtmlOrSvg::Svg);
        match (echo, other) {
            (Err(left), Err(right)) => assert_eq!(left, right),
            (left, right) => panic!("{}: {:?} and {:?}", template, left, right),
        }
    }
    let well_formed = "<a><!--wb_yes--><b>x</b><!--wn_x--><c data-on-v=\"\"/>y</a>";
    assert!(Echo.render_template(well_formed, HtmlOrSvg::Html).is_ok());
    assert!(Other.render_template(well_formed, HtmlOrSvg::Svg).is_ok());
}

#[test]
fn renders_a_template_that_can_be_read_to_its_end() {
    let mut a = echo_element("a");
    a.children = vec![Node::Text("(wt_x)".to_string())];
    assert_eq!(Echo.render_readable("<a><!--wt_x-->y</a>", HtmlOrSvg::Html), Ok(Node::Element(a)));
    assert_eq!(Echo.render_readable(" ", HtmlOrSvg::Html), Err(TemplateError::NoRootElement));
}

#[test]
fn elements_may_be_nested_deeply() {
    let depth = 400;
    let mut template = String::new();
    for _ in 0..depth {
        template.push_str("<div>");
    }
    template.push_str("text");
    for _ in 0..depth {
        template.push_str("</div>");
    }
    let mut node = match Echo.render_template(&template, HtmlOrSvg::Html) {
        Ok(node) => node,
        Err(error) => panic!("{:?}", error),
    };
    let mut found = 0;
    loop {
        match node {
            Node::Element(mut element) => {
                assert_eq!(element.tag_name, "div");
                assert_eq!(element.children.len(), 1);
                found += 1;
                node = element.children.remove(0);
            }
            Node::Text(text) => {
                assert_eq!(text, "text");
                break;
            }
        }
    }
    assert_eq!(found, depth);
}
