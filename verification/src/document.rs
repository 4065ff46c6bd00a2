//! A whole `HTML` document: a fixed head around a body that the caller supplies.

use vstd::prelude::*;
use crate::element::{HtmlElement, INDENT};
use crate::model::{render, ElementView};
use crate::text::{join_lines, join_strs, slice_texts, NL};

verus! {

/// Reference of the `HTML` standard.
pub const HREF_XMLNS: &'static str = "http://www.w3.org/1999/xhtml";

/// Download link for normal font.
pub const HREF_FONT_NORMAL: &'static str =
    "https://fonts.googleapis.com/css2?family=Barlow:ital,wght@0,300;0,400;0,500;0,600;1,300;1,400;1,500;1,600&display=swap";

/// Download link for condensed font.
pub const HREF_FONT_CONDENSED: &'static str =
    "https://fonts.googleapis.com/css2?family=Barlow+Condensed:ital,wght@0,300;0,400;0,500;0,600;1,300;1,400;1,500;1,600&display=swap";

/// Download link for monospaced font.
pub const HREF_FONT_MONO: &'static str =
    "https://fonts.googleapis.com/css2?family=JetBrains+Mono:ital,wght@0,300;0,400;0,500;0,600;1,300;1,400;1,500;1,600&display=swap";

/// Definition of used `HTML` heading levels.
pub enum HeadingLevel {
    H1,
    H2,
    H3,
}

/// A void `<link>` element that refers to the stylesheet at `href`.
pub open spec fn stylesheet_link(href: Seq<char>) -> ElementView {
    ElementView::empty("link"@, true).with_attribute("rel"@, "stylesheet"@).with_attribute(
        "href"@,
        href,
    )
}

/// The `<head>` of every document: the character set, the title, the three
/// font stylesheets, and a `<style>` element that holds `styles`, one rule per line.
pub open spec fn head_tree(styles: Seq<Seq<char>>) -> ElementView {
    ElementView::empty("head"@, false).with_child(
        ElementView::empty("meta"@, true).with_attribute("charset"@, "UTF-8"@),
    ).with_child(ElementView::empty("title"@, false).with_content("DMN Model"@)).with_child(
        stylesheet_link(HREF_FONT_NORMAL@),
    ).with_child(stylesheet_link(HREF_FONT_CONDENSED@)).with_child(
        stylesheet_link(HREF_FONT_MONO@),
    ).with_child(ElementView::empty("style"@, false).with_content(join_lines(styles)))
}

/// The root of a document: an `<html>` element with the language and the
/// namespace as attributes, and the head and `body` as children.
pub open spec fn document_tree(
    lang: Seq<char>,
    styles: Seq<Seq<char>>,
    body: ElementView,
) -> ElementView {
    ElementView::empty("html"@, false).with_attribute("lang"@, lang).with_attribute(
        "xmlns"@,
        HREF_XMLNS@,
    ).with_child(head_tree(styles)).with_child(body)
}

/// The text of a document with the root `root`: the document type on a line
/// of its own, then the root at no indentation.
pub open spec fn document_text(root: ElementView) -> Seq<char> {
    "<!DOCTYPE html>"@ + seq!['\n'] + render(root, 0, INDENT as nat)
}

/// Structure representing whole `HTML` document.
pub struct HtmlDocument {
    root: HtmlElement,
}

impl View for HtmlDocument {
    type V = ElementView;

    /// The root element of the document.
    closed spec fn view(&self) -> ElementView {
        self.root@
    }
}

impl HtmlDocument {
    /// Creates a document in the language `lang`, with `styles` as its style
    /// rules and `body` as its body.
    pub fn new(lang: &str, styles: &[&str], body: HtmlElement) -> (document: Self)
        ensures
            document@ == document_tree(lang@, slice_texts(styles@), body@),
    {
        let mut root = HtmlElement::new("html");
        root.set_attr_text("lang", lang);
        root.set_attr_text("xmlns", HREF_XMLNS);
        // prepare HTML header
        let mut head = HtmlElement::new("head");
        // <meta>
        let mut meta = HtmlElement::new_void("meta");
        meta.set_attr_text("charset", "UTF-8");
        head.add_child(meta);
        // <title>
        let mut title = HtmlElement::new("title");
        title.set_content("DMN Model");
        head.add_child(title);
        // add link to normal font
        head.add_child(Self::link(HREF_FONT_NORMAL));
        // add link to condensed font
        head.add_child(Self::link(HREF_FONT_CONDENSED));
        // add link to monospaced font
        head.add_child(Self::link(HREF_FONT_MONO));
        // <style>
        let mut style = HtmlElement::new("style");
        style.set_content(join_strs(styles).as_str());
        head.add_child(style);
        // finalize header
        root.add_child(head);
        // add HTML document body
        root.add_child(body);
        Self { root }
    }

    /// A link to the stylesheet at `href`.
    fn link(href: &str) -> (link: HtmlElement)
        ensures
            link@ == stylesheet_link(href@),
    {
        let mut link = HtmlElement::new_void("link");
        link.set_attr_text("rel", "stylesheet");
        link.set_attr_text("href", href);
        link
    }

    /// Converts `HTML` document into text.
    pub fn to_string(&self) -> (out: String)
        ensures
            out@ == document_text(self@),
    {
        let mut buffer = String::from_str("<!DOCTYPE html>");
        buffer.push(NL);
        self.root.write(0, &mut buffer);
        buffer
    }
}

} // verus!
