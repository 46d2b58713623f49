//! Html and svg elements in one template: svg elements carry a namespace,
//! html elements carry none, and `foreignObject` puts html inside svg.

use vstd::prelude::*;
use crate::text::same_text;

verus! {

/// Svg elements are different because they have a namespace.
#[derive(Clone, Copy, Debug, PartialEq, Eq, Structural)]
pub enum HtmlOrSvg {
    /// html element
    Html,
    /// svg element
    Svg,
}

/// The namespace of svg elements.
pub const SVG_NAMESPACE: &'static str = "http://www.w3.org/2000/svg";

/// The namespace that elements of the kind `html_or_svg` carry.
pub open spec fn namespace_of(html_or_svg: HtmlOrSvg) -> Option<Seq<char>> {
    match html_or_svg {
        HtmlOrSvg::Html => None,
        HtmlOrSvg::Svg => Some(SVG_NAMESPACE@),
    }
}

/// What the element `tag_name` is itself, found among elements of the kind
/// `html_or_svg_parent`: `svg` is always svg, any other is what its
/// surroundings are.
pub open spec fn own_kind(html_or_svg_parent: HtmlOrSvg, tag_name: Seq<char>) -> HtmlOrSvg {
    if tag_name == "svg"@ {
        HtmlOrSvg::Svg
    } else {
        html_or_svg_parent
    }
}

/// What the children of the element `tag_name` are: html inside
/// `foreignObject`, else what the element itself is.
pub open spec fn children_kind(html_or_svg_parent: HtmlOrSvg, tag_name: Seq<char>) -> HtmlOrSvg {
    if tag_name == "foreignObject"@ {
        HtmlOrSvg::Html
    } else {
        own_kind(html_or_svg_parent, tag_name)
    }
}

/// The namespace of the element `tag_name`, if it has one.
pub open spec fn own_namespace(html_or_svg_parent: HtmlOrSvg, tag_name: Seq<char>) -> Option<
    Seq<char>,
> {
    namespace_of(own_kind(html_or_svg_parent, tag_name))
}

/// The characters of an optional string.
pub open spec fn optional_text(text: Option<&'static str>) -> Option<Seq<char>> {
    match text {
        Some(text) => Some(text@),
        None => None,
    }
}

/// The namespace of the element `tag_name` found among elements of the kind
/// `html_or_svg_parent`, and the kind of its children.
pub fn resolve_namespace(html_or_svg_parent: HtmlOrSvg, tag_name: &str) -> (resolved: (
    Option<&'static str>,
    HtmlOrSvg,
))
    ensures
        optional_text(resolved.0) == own_namespace(html_or_svg_parent, tag_name@),
        resolved.1 == children_kind(html_or_svg_parent, tag_name@),
{
    let own = if same_text(tag_name, "svg") {
        HtmlOrSvg::Svg
    } else {
        html_or_svg_parent
    };
    let namespace = match own {
        HtmlOrSvg::Html => None,
        HtmlOrSvg::Svg => Some(SVG_NAMESPACE),
    };
    let children = if same_text(tag_name, "foreignObject") {
        HtmlOrSvg::Html
    } else {
        own
    };
    (namespace, children)
}

/// Inside `svg`, a `foreignObject` is svg itself and its children are html:
/// whatever surrounds the `svg` element, it and the `foreignObject` in it
/// carry the svg namespace, and an element in that `foreignObject` carries
/// none, unless it is `svg` again.
pub proof fn lemma_foreign_object_inside_svg(html_or_svg_parent: HtmlOrSvg, tag_name: Seq<char>)
    requires
        tag_name != "svg"@,
    ensures
        own_namespace(html_or_svg_parent, "svg"@) == Some(SVG_NAMESPACE@),
        own_namespace(children_kind(html_or_svg_parent, "svg"@), "foreignObject"@) == Some(
            SVG_NAMESPACE@,
        ),
        own_namespace(
            children_kind(children_kind(html_or_svg_parent, "svg"@), "foreignObject"@),
            tag_name,
        ) is None,
{
    reveal_strlit("svg");
    reveal_strlit("foreignObject");
}

} // verus!
