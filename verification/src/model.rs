//! The mathematical model of an element tree and of the text it stands for.

use vstd::prelude::*;
use crate::text::{join_lines, lines, spaces};

verus! {

/// One attribute of an element: a name and a value, both as written.
pub ghost struct AttributeView {
    pub name: Seq<char>,
    pub value: Seq<char>,
}

/// An element of the tree: a tag name, attributes in the order in which they
/// were set, an optional text content, children in the order in which they
/// were added, and whether the element is void (has no closing tag).
pub ghost struct ElementView {
    pub name: Seq<char>,
    pub attributes: Seq<AttributeView>,
    pub content: Option<Seq<char>>,
    pub children: Seq<ElementView>,
    pub void: bool,
}

impl ElementView {
    /// An element with a name and nothing else.
    pub open spec fn empty(name: Seq<char>, void: bool) -> ElementView {
        ElementView {
            name,
            attributes: Seq::empty(),
            content: None,
            children: Seq::empty(),
            void,
        }
    }

    /// This element with one more attribute, after those it has.
    pub open spec fn with_attribute(self, name: Seq<char>, value: Seq<char>) -> ElementView {
        ElementView { attributes: self.attributes.push(AttributeView { name, value }), ..self }
    }

    /// This element with one more child, after those it has.
    pub open spec fn with_child(self, child: ElementView) -> ElementView {
        ElementView { children: self.children.push(child), ..self }
    }

    /// This element with `child` added if there is one, else unchanged.
    pub open spec fn with_optional_child(self, child: Option<ElementView>) -> ElementView {
        match child {
            Some(c) => self.with_child(c),
            None => self,
        }
    }

    /// This element with `children` added in order, after those it has.
    pub open spec fn with_children(self, children: Seq<ElementView>) -> ElementView {
        ElementView { children: self.children + children, ..self }
    }

    /// This element with `text` as its content, in place of any earlier one.
    pub open spec fn with_content(self, text: Seq<char>) -> ElementView {
        ElementView { content: Some(text), ..self }
    }
}

/// The text of one attribute: a space, the name, and the value in double
/// quotes behind an equals sign. The value is written as it is.
pub open spec fn attribute_text(a: AttributeView) -> Seq<char> {
    seq![' '] + a.name + seq!['=', '"'] + a.value + seq!['"']
}

/// The texts of the first `n` of `attributes`, one after the other.
pub open spec fn attributes_text_first(attributes: Seq<AttributeView>, n: nat) -> Seq<char>
    decreases n,
{
    if n == 0 {
        Seq::empty()
    } else {
        attributes_text_first(attributes, (n - 1) as nat) + attribute_text(attributes[n - 1])
    }
}

/// The texts of all `attributes`, one after the other.
pub open spec fn attributes_text(attributes: Seq<AttributeView>) -> Seq<char> {
    attributes_text_first(attributes, attributes.len())
}

/// The start of an element's text: the indentation, `<`, the name and the attributes.
pub open spec fn open_tag(e: ElementView, indent: nat) -> Seq<char> {
    spaces(indent) + seq!['<'] + e.name + attributes_text(e.attributes)
}

/// The closing tag of an element named `name`.
pub open spec fn close_tag(name: Seq<char>) -> Seq<char> {
    seq!['<', '/'] + name + seq!['>']
}

/// Each of `lines` behind `indent` spaces.
pub open spec fn indented(lines: Seq<Seq<char>>, indent: nat) -> Seq<Seq<char>> {
    Seq::new(lines.len(), |i: int| spaces(indent) + lines[i])
}

/// What follows the opening tag of an element whose inside takes lines of
/// its own: the end of the opening tag, the `items` one per line, and the
/// closing tag on a line of its own at the element's indentation.
pub open spec fn block(name: Seq<char>, items: Seq<Seq<char>>, indent: nat) -> Seq<char> {
    seq!['>', '\n'] + join_lines(items) + seq!['\n'] + spaces(indent) + close_tag(name)
}

/// What follows the opening tag of an element without children.
pub open spec fn leaf_tail(e: ElementView, indent: nat, unit: nat) -> Seq<char> {
    match e.content {
        Some(text) => {
            if lines(text).len() > 1 {
                block(e.name, indented(lines(text), indent + unit), indent)
            } else {
                seq!['>'] + text + close_tag(e.name)
            }
        },
        None => {
            if e.void {
                seq!['>']
            } else {
                seq!['/', '>']
            }
        },
    }
}

/// The text of the element `e` written at `indent` spaces, with each level
/// of the tree `unit` spaces further in than the one above it.
///
/// Children, where there are any, come before content: the content of an
/// element that has children is not written.
pub open spec fn render(e: ElementView, indent: nat, unit: nat) -> Seq<char>
    decreases e,
{
    open_tag(e, indent) + if e.children.len() > 0 {
        block(e.name, render_each(e.children, indent + unit, unit), indent)
    } else {
        leaf_tail(e, indent, unit)
    }
}

/// The texts of `elements`, each written at `indent` spaces.
pub open spec fn render_each(elements: Seq<ElementView>, indent: nat, unit: nat) -> Seq<Seq<char>>
    decreases elements,
{
    Seq::new(
        elements.len(),
        |i: int|
            if 0 <= i < elements.len() {
                render(elements[i], indent, unit)
            } else {
                Seq::empty()
            },
    )
}

/// `render_each` has one text for each element, the text of that element.
pub proof fn lemma_render_each(elements: Seq<ElementView>, indent: nat, unit: nat)
    ensures
        render_each(elements, indent, unit).len() == elements.len(),
        forall|i: int|
            0 <= i < elements.len() ==> #[trigger] render_each(elements, indent, unit)[i] == render(
                elements[i],
                indent,
                unit,
            ),
{
}

} // verus!
