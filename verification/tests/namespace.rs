use rust_wasm_dodrio_templating::html_template_mod::HtmlOrSvg;
use rust_wasm_dodrio_templating::namespace::{resolve_namespace, SVG_NAMESPACE};

#[test]
fn svg_namespace_is_the_one_of_the_w3c() {
    assert_eq!(SVG_NAMESPACE, "http://www.w3.org/2000/svg");
}

#[test]
fn html_element_among_html() {
    assert_eq!(resolve_namespace(HtmlOrSvg::Html, "div"), (None, HtmlOrSvg::Html));
    assert_eq!(resolve_namespace(HtmlOrSvg::Html, ""), (None, HtmlOrSvg::Html));
    assert_eq!(resolve_namespace(HtmlOrSvg::Html, "SVG"), (None, HtmlOrSvg::Html));
}

#[test]
fn svg_element_is_svg_wherever_it_is() {
    assert_eq!(resolve_namespace(HtmlOrSvg::Html, "svg"), (Some(SVG_NAMESPACE), HtmlOrSvg::Svg));
    assert_eq!(resolve_namespace(HtmlOrSvg::Svg, "svg"), (Some(SVG_NAMESPACE), HtmlOrSvg::Svg));
}

#[test]
fn element_among_svg_is_svg() {
    assert_eq!(resolve_namespace(HtmlOrSvg::Svg, "circle"), (Some(SVG_NAMESPACE), HtmlOrSvg::Svg));
    assert_eq!(resolve_namespace(HtmlOrSvg::Svg, "div"), (Some(SVG_NAMESPACE), HtmlOrSvg::Svg));
}

#[test]
fn foreign_object_has_html_children() {
    assert_eq!(
        resolve_namespace(HtmlOrSvg::Svg, "foreignObject"),
        (Some(SVG_NAMESPACE), HtmlOrSvg::Html)
    );
    assert_eq!(resolve_namespace(HtmlOrSvg::Html, "foreignObject"), (None, HtmlOrSvg::Html));
    assert_eq!(
        resolve_namespace(HtmlOrSvg::Svg, "foreignobject"),
        (Some(SVG_NAMESPACE), HtmlOrSvg::Svg)
    );
}

#[test]
fn svg_then_foreign_object_then_html() {
    let (svg, inside_svg) = resolve_namespace(HtmlOrSvg::Html, "svg");
    let (foreign, inside_foreign) = resolve_namespace(inside_svg, "foreignObject");
    let (div, inside_div) = resolve_namespace(inside_foreign, "div");
    assert_eq!(svg, Some(SVG_NAMESPACE));
    assert_eq!(foreign, Some(SVG_NAMESPACE));
    assert_eq!(div, None);
    assert_eq!(inside_div, HtmlOrSvg::Html);
}
