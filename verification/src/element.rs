//! The element tree and the functions that build it and write it out.

use vstd::prelude::*;
use vstd::string::to_string_from_display_ensures;
use crate::model::{
    attribute_text, attributes_text_first, block, close_tag, indented, leaf_tail,
    lemma_render_each, open_tag, render, render_each, AttributeView, ElementView,
};
use crate::text::{
    join_first, lemma_spaces_add, lines, spaces, spaces_of, split_lines, texts, NL,
};

verus! {

/// Common indentation value.
pub const INDENT: usize = 2;

struct HtmlAttribute {
    name: String,
    value: String,
}

impl View for HtmlAttribute {
    type V = AttributeView;

    closed spec fn view(&self) -> AttributeView {
        AttributeView { name: self.name@, value: self.value@ }
    }
}

/// An `HTML` element, the owner of its attributes, content and children.
pub struct HtmlElement {
    name: String,
    attributes: Vec<HtmlAttribute>,
    content: Option<String>,
    children: Vec<HtmlElement>,
    void: bool,
}

/// The views of a sequence of elements, in order.
pub open spec fn element_views(elements: Seq<HtmlElement>) -> Seq<ElementView> {
    Seq::new(elements.len(), |i: int| elements[i]@)
}

impl View for HtmlElement {
    type V = ElementView;

    closed spec fn view(&self) -> ElementView {
        self.tree()
    }
}

impl HtmlElement {
    spec fn tree(&self) -> ElementView
        decreases self,
    {
        ElementView {
            name: self.name@,
            attributes: Seq::new(self.attributes.len() as nat, |i: int| self.attributes[i]@),
            content: match self.content {
                Some(text) => Some(text@),
                None => None,
            },
            children: Seq::new(
                self.children.len() as nat,
                |i: int|
                    if 0 <= i < self.children.len() {
                        self.children[i].tree()
                    } else {
                        arbitrary()
                    },
            ),
            void: self.void,
        }
    }

    /// Creates a new `HTML` element with specified name.
    pub fn new(name: &str) -> (e: Self)
        ensures
            e@ == ElementView::empty(name@, false),
    {
        let e = Self {
            name: String::from_str(name),
            attributes: Vec::new(),
            content: None,
            children: Vec::new(),
            void: false,
        };
        assert(e@.attributes =~= Seq::empty());
        assert(e@.children =~= Seq::empty());
        e
    }

    /// Creates a new `HTML` void element with specified name.
    pub fn new_void(name: &str) -> (e: Self)
        ensures
            e@ == ElementView::empty(name@, true),
    {
        let e = Self {
            name: String::from_str(name),
            attributes: Vec::new(),
            content: None,
            children: Vec::new(),
            void: true,
        };
        assert(e@.attributes =~= Seq::empty());
        assert(e@.children =~= Seq::empty());
        e
    }

    /// Creates a new `<div>` element, with `class` as its class where one is given.
    pub fn new_div(class: Option<&str>) -> (e: Self)
        ensures
            e@ == match class {
                Some(class_name) => ElementView::empty("div"@, false).with_attribute(
                    "class"@,
                    class_name@,
                ),
                None => ElementView::empty("div"@, false),
            },
    {
        let mut element = Self::new("div");
        if let Some(class_name) = class {
            element.set_class(class_name);
        }
        element
    }

    /// Sets an attribute of the `HTML` element to the text that `value` displays as.
    pub fn set_attr<T: core::fmt::Display>(&mut self, name: &str, value: T)
        ensures
            exists|text: String| #[trigger]
                to_string_from_display_ensures::<T>(&value, text) && final(self)@ == old(
                    self,
                )@.with_attribute(name@, text@),
    {
        let text = value.to_string();
        self.set_attr_text(name, text.as_str());
    }

    /// Sets an attribute of the `HTML` element to `value`, as it is.
    pub fn set_attr_text(&mut self, name: &str, value: &str)
        ensures
            final(self)@ == old(self)@.with_attribute(name@, value@),
    {
        let attribute = HtmlAttribute { name: String::from_str(name), value: String::from_str(value) };
        self.attributes.push(attribute);
        assert(self@.attributes =~= old(self)@.attributes.push(attribute@));
        assert(self@.children =~= old(self)@.children);
    }

    /// Sets a `class` attribute of the `HTML` element.
    pub fn set_class(&mut self, class: &str)
        ensures
            final(self)@ == old(self)@.with_attribute("class"@, class@),
    {
        self.set_attr_text("class", class);
    }

    /// Adds a child element.
    pub fn add_child(&mut self, e: HtmlElement)
        ensures
            final(self)@ == old(self)@.with_child(e@),
    {
        self.children.push(e);
        assert(self@.attributes =~= old(self)@.attributes);
        assert(self@.children =~= old(self)@.children.push(e@));
    }

    /// Adds an optional child element.
    pub fn add_child_opt(&mut self, e: Option<HtmlElement>)
        ensures
            final(self)@ == old(self)@.with_optional_child(
                match e {
                    Some(element) => Some(element@),
                    None => None,
                },
            ),
    {
        if let Some(element) = e {
            self.add_child(element);
        }
    }

    /// Adds multiple children elements.
    pub fn add_children(&mut self, elements: Vec<HtmlElement>)
        ensures
            final(self)@ == old(self)@.with_children(element_views(elements@)),
    {
        let mut elements = elements;
        let ghost added = elements@;
        self.children.append(&mut elements);
        assert(self@.attributes =~= old(self)@.attributes);
        assert(self@.children =~= old(self)@.children + element_views(added));
    }

    /// Sets the content of the `HTML` element.
    pub fn set_content(&mut self, content: &str)
        ensures
            final(self)@ == old(self)@.with_content(content@),
    {
        self.content = Some(String::from_str(content));
        assert(self@.attributes =~= old(self)@.attributes);
        assert(self@.children =~= old(self)@.children);
    }

    /// Serializes the element to its textual representation at `indent`
    /// spaces, each level of the tree `INDENT` spaces further in, and appends
    /// it to `buffer`.
    pub fn write(&self, indent: usize, buffer: &mut String)
        ensures
            final(buffer)@ == old(buffer)@ + render(self@, indent as nat, INDENT as nat),
    {
        self.write_with(indent, INDENT, buffer);
    }

    /// Serializes the element at `indent` spaces, each level of the tree `unit`
    /// spaces further in than the one above it, and appends the text to `buffer`.
    pub fn write_with(&self, indent: usize, unit: usize, buffer: &mut String)
        ensures
            final(buffer)@ == old(buffer)@ + render(self@, indent as nat, unit as nat),
    {
        let pad = spaces_of(indent);
        let step = spaces_of(unit);
        self.emit(pad.as_str(), step.as_str(), buffer);
    }

    /// The text of the element at no indentation, each level of the tree
    /// `INDENT` spaces further in than the one above it.
    pub fn to_string(&self) -> (out: String)
        ensures
            out@ == render(self@, 0, INDENT as nat),
    {
        let mut out = String::new();
        self.write(0, &mut out);
        assert(Seq::<char>::empty() + render(self@, 0, INDENT as nat) =~= render(self@, 0, INDENT as nat));
        out
    }

    /// Appends the opening tag without its end: `pad`, `<`, the name and the attributes.
    fn emit_open(&self, pad: &str, buffer: &mut String)
        requires
            pad@ == spaces(pad@.len()),
        ensures
            final(buffer)@ == old(buffer)@ + open_tag(self@, pad@.len()),
    {
        buffer.append(pad);
        buffer.push('<');
        buffer.append(self.name.as_str());
        let ghost head = buffer@;
        assert(head =~= old(buffer)@ + (spaces(pad@.len()) + seq!['<'] + self@.name));
        let mut i: usize = 0;
        while i < self.attributes.len()
            invariant
                i <= self.attributes.len(),
                buffer@ == head + attributes_text_first(self@.attributes, i as nat),
            decreases self.attributes.len() - i,
        {
            let ghost before = buffer@;
            let attribute = &self.attributes[i];
            buffer.push(' ');
            buffer.append(attribute.name.as_str());
            buffer.push('=');
            buffer.push('"');
            buffer.append(attribute.value.as_str());
            buffer.push('"');
            assert(self@.attributes[i as int] == attribute@);
            assert(buffer@ =~= before + attribute_text(attribute@));
            assert(buffer@ =~= head + attributes_text_first(self@.attributes, (i + 1) as nat));
            i = i + 1;
        }
        assert(buffer@ =~= old(buffer)@ + open_tag(self@, pad@.len()));
    }

    /// Appends what ends a block: a newline, `pad` and the closing tag.
    fn emit_block_end(&self, pad: &str, buffer: &mut String)
        ensures
            final(buffer)@ == old(buffer)@ + seq!['\n'] + pad@ + close_tag(self@.name),
    {
        buffer.push(NL);
        buffer.append(pad);
        self.emit_close(buffer);
    }

    /// Appends the closing tag.
    fn emit_close(&self, buffer: &mut String)
        ensures
            final(buffer)@ == old(buffer)@ + close_tag(self@.name),
    {
        buffer.push('<');
        buffer.push('/');
        buffer.append(self.name.as_str());
        buffer.push('>');
        assert(buffer@ =~= old(buffer)@ + close_tag(self@.name));
    }

    /// Appends what follows the opening tag of an element without children.
    fn emit_leaf_tail(&self, pad: &str, step: &str, buffer: &mut String)
        requires
            pad@ == spaces(pad@.len()),
            step@ == spaces(step@.len()),
            self@.children.len() == 0,
        ensures
            final(buffer)@ == old(buffer)@ + leaf_tail(self@, pad@.len(), step@.len()),
    {
        match &self.content {
            Some(content) => {
                let content_lines = split_lines(content.as_str());
                if content_lines.len() > 1 {
                    let mut inner = String::from_str(pad);
                    inner.append(step);
                    proof {
                        lemma_spaces_add(pad@.len(), step@.len());
                    }
                    let ghost items = indented(lines(content@), pad@.len() + step@.len());
                    buffer.push('>');
                    buffer.push(NL);
                    let ghost head = buffer@;
                    let mut i: usize = 0;
                    while i < content_lines.len()
                        invariant
                            i <= content_lines.len(),
                            texts(content_lines@) == lines(content@),
                            items == indented(lines(content@), pad@.len() + step@.len()),
                            inner@ == spaces(pad@.len() + step@.len()),
                            buffer@ == head + join_first(items, i as nat),
                        decreases content_lines.len() - i,
                    {
                        let ghost before = buffer@;
                        if i > 0 {
                            buffer.push(NL);
                        }
                        buffer.append(inner.as_str());
                        buffer.append(content_lines[i].as_str());
                        proof {
                            assert(texts(content_lines@)[i as int] == content_lines@[i as int]@);
                            assert(items[i as int] == inner@ + content_lines@[i as int]@);
                            if i > 0 {
                                assert(buffer@ =~= before + seq!['\n'] + items[i as int]);
                            } else {
                                assert(buffer@ =~= before + items[i as int]);
                            }
                            assert(buffer@ =~= head + join_first(items, (i + 1) as nat));
                        }
                        i = i + 1;
                    }
                    self.emit_block_end(pad, buffer);
                    proof {
                        assert(texts(content_lines@).len() == content_lines@.len());
                        assert(items.len() == content_lines@.len());
                        assert(buffer@ =~= old(buffer)@ + block(self@.name, items, pad@.len()));
                    }
                } else {
                    buffer.push('>');
                    buffer.append(content.as_str());
                    self.emit_close(buffer);
                    proof {
                        assert(texts(content_lines@).len() == content_lines@.len());
                        assert(buffer@ =~= old(buffer)@ + (seq!['>'] + content@ + close_tag(self@.name)));
                    }
                }
            },
            None => {
                if self.void {
                    buffer.push('>');
                    assert(buffer@ =~= old(buffer)@ + seq!['>']);
                } else {
                    buffer.push('/');
                    buffer.push('>');
                    assert(buffer@ =~= old(buffer)@ + seq!['/', '>']);
                }
            },
        }
    }

    /// Appends the text of the element, written behind `pad`, each level of
    /// the tree `step` further in than the one above it.
    fn emit(&self, pad: &str, step: &str, buffer: &mut String)
        requires
            pad@ == spaces(pad@.len()),
            step@ == spaces(step@.len()),
        ensures
            final(buffer)@ == old(buffer)@ + render(self@, pad@.len(), step@.len()),
        decreases self,
    {
        self.emit_open(pad, buffer);
        let ghost opened = buffer@;
        if self.children.is_empty() {
            self.emit_leaf_tail(pad, step, buffer);
            assert(buffer@ =~= old(buffer)@ + render(self@, pad@.len(), step@.len()));
        } else {
            let mut inner = String::from_str(pad);
            inner.append(step);
            let ghost deeper = pad@.len() + step@.len();
            let ghost items = render_each(self@.children, deeper, step@.len());
            proof {
                lemma_spaces_add(pad@.len(), step@.len());
                lemma_render_each(self@.children, deeper, step@.len());
            }
            buffer.push('>');
            buffer.push(NL);
            let ghost head = buffer@;
            let mut i: usize = 0;
            while i < self.children.len()
                invariant
                    i <= self.children.len(),
                    step@ == spaces(step@.len()),
                    inner@ == spaces(deeper),
                    deeper == pad@.len() + step@.len(),
                    items == render_each(self@.children, deeper, step@.len()),
                    items.len() == self.children.len(),
                    forall|k: int| 0 <= k < items.len() ==> #[trigger] items[k] == render(self@.children[k], deeper, step@.len()),
                    buffer@ == head + join_first(items, i as nat),
                decreases self.children.len() - i,
            {
                let ghost before = buffer@;
                if i > 0 {
                    buffer.push(NL);
                }
                let child = &self.children[i];
                assert(self@.children[i as int] == child@);
                child.emit(inner.as_str(), step, buffer);
                proof {
                    if i > 0 {
                        assert(buffer@ =~= before + seq!['\n'] + items[i as int]);
                    } else {
                        assert(buffer@ =~= before + items[i as int]);
                    }
                    assert(buffer@ =~= head + join_first(items, (i + 1) as nat));
                }
                i = i + 1;
            }
            self.emit_block_end(pad, buffer);
            proof {
                assert(self@.children.len() == self.children.len());
                assert(buffer@ =~= opened + block(self@.name, items, pad@.len()));
                assert(buffer@ =~= old(buffer)@ + render(self@, pad@.len(), step@.len()));
            }
        }
    }
}

} // verus!