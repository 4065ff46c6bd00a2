//! What holds of every tree and of its text.

use vstd::prelude::*;
use vstd::utf8::encode_utf8;
use crate::model::{
    attribute_text, attributes_text, attributes_text_first, block, close_tag, open_tag, render,
    render_each, AttributeView, ElementView,
};
use crate::text::{join_lines, lemma_line_end, line_end, lines, lines_from, spaces};

verus! {

/// Writing one tree twice, at one indentation and with one width of a level,
/// behind the same text, gives the same text both times, character for
/// character and byte for byte.
pub proof fn lemma_same_tree_same_text(
    tree: ElementView,
    indent: nat,
    unit: nat,
    before: Seq<char>,
    first: Seq<char>,
    second: Seq<char>,
)
    requires
        first == before + render(tree, indent, unit),
        second == before + render(tree, indent, unit),
    ensures
        first == second,
        encode_utf8(first) == encode_utf8(second),
{
}

/// The element `e` after the first `n` of `calls` have each set one attribute.
pub open spec fn after_setting(e: ElementView, calls: Seq<AttributeView>, n: nat) -> ElementView
    decreases n,
{
    if n == 0 {
        e
    } else {
        after_setting(e, calls, (n - 1) as nat).with_attribute(calls[n - 1].name, calls[n - 1].value)
    }
}

/// Setting attributes one after the other leaves them in the order of the
/// calls, after those that the element had, and changes nothing else.
pub proof fn lemma_attributes_keep_call_order(e: ElementView, calls: Seq<AttributeView>, n: nat)
    requires
        n <= calls.len(),
    ensures
        after_setting(e, calls, n) == (ElementView {
            attributes: e.attributes + calls.take(n as int),
            ..e
        }),
    decreases n,
{
    if n == 0 {
        assert(e.attributes + calls.take(0) =~= e.attributes);
    } else {
        lemma_attributes_keep_call_order(e, calls, (n - 1) as nat);
        assert((e.attributes + calls.take(n - 1)).push(calls[n - 1]) =~= e.attributes + calls.take(
            n as int,
        ));
    }
}

/// After any run of calls that each set one attribute, the opening tag is the
/// one from before the calls followed by the texts of the attributes in the
/// order of the calls.
pub proof fn lemma_attributes_written_in_call_order(
    e: ElementView,
    calls: Seq<AttributeView>,
    indent: nat,
)
    ensures
        open_tag(after_setting(e, calls, calls.len()), indent) == open_tag(e, indent)
            + attributes_text(calls),
{
    lemma_attributes_keep_call_order(e, calls, calls.len());
    assert(calls.take(calls.len() as int) =~= calls);
    lemma_attributes_text_concat(e.attributes, calls);
    assert(open_tag(after_setting(e, calls, calls.len()), indent) =~= open_tag(e, indent)
        + attributes_text(calls));
}

/// Attributes are written in their order: the text of two runs of attributes
/// is the text of the first run followed by the text of the second.
pub proof fn lemma_attributes_text_concat(first: Seq<AttributeView>, second: Seq<AttributeView>)
    ensures
        attributes_text(first + second) == attributes_text(first) + attributes_text(second),
{
    lemma_attributes_text_first_concat(first, second, second.len());
    assert((first + second).len() == first.len() + second.len());
}

proof fn lemma_attributes_text_first_concat(
    first: Seq<AttributeView>,
    second: Seq<AttributeView>,
    n: nat,
)
    requires
        n <= second.len(),
    ensures
        attributes_text_first(first + second, first.len() + n) == attributes_text(first)
            + attributes_text_first(second, n),
    decreases n,
{
    if n == 0 {
        lemma_attributes_text_first_prefix(first + second, first, first.len());
        assert(attributes_text(first) + Seq::<char>::empty() =~= attributes_text(first));
    } else {
        lemma_attributes_text_first_concat(first, second, (n - 1) as nat);
        assert((first + second)[first.len() + n - 1] == second[n - 1]);
        assert(attributes_text(first) + attributes_text_first(second, (n - 1) as nat)
            + attribute_text(second[n - 1]) =~= attributes_text(first) + (attributes_text_first(
            second,
            (n - 1) as nat,
        ) + attribute_text(second[n - 1])));
    }
}

proof fn lemma_attributes_text_first_prefix(a: Seq<AttributeView>, b: Seq<AttributeView>, n: nat)
    requires
        n <= a.len(),
        n <= b.len(),
        forall|i: int| 0 <= i < n ==> a[i] == b[i],
    ensures
        attributes_text_first(a, n) == attributes_text_first(b, n),
    decreases n,
{
    if n > 0 {
        lemma_attributes_text_first_prefix(a, b, (n - 1) as nat);
    }
}

/// A new attribute is written behind those that the element had, and ahead
/// of whatever ends the opening tag.
pub proof fn lemma_new_attribute_is_written_last(
    e: ElementView,
    name: Seq<char>,
    value: Seq<char>,
    indent: nat,
)
    ensures
        open_tag(e.with_attribute(name, value), indent) == open_tag(e, indent) + attribute_text(
            AttributeView { name, value },
        ),
{
    let a = AttributeView { name, value };
    lemma_attributes_text_first_prefix(e.attributes.push(a), e.attributes, e.attributes.len());
    assert(open_tag(e.with_attribute(name, value), indent) =~= open_tag(e, indent) + attribute_text(
        a,
    ));
}

/// The content of an element that has a child leaves no trace in its text:
/// the text is the one of the same element without content.
pub proof fn lemma_children_hide_content(e: ElementView, indent: nat, unit: nat)
    requires
        e.children.len() > 0,
    ensures
        render(e, indent, unit) == render(ElementView { content: None, ..e }, indent, unit),
{
}

/// An element without content and children is written as its opening tag,
/// ended by `>` where it is void and by `/>` where it is not.
pub proof fn lemma_empty_element_text(e: ElementView, indent: nat, unit: nat)
    requires
        e.children.len() == 0,
        e.content is None,
    ensures
        render(e, indent, unit) == open_tag(e, indent) + if e.void {
            seq!['>']
        } else {
            seq!['/', '>']
        },
{
}

/// The text of every element begins with as many spaces as its indentation,
/// and then `<`.
pub proof fn lemma_text_begins_at_indent(e: ElementView, indent: nat, unit: nat)
    ensures
        render(e, indent, unit).len() > indent,
        render(e, indent, unit).take(indent as int) == spaces(indent),
        render(e, indent, unit)[indent as int] == '<',
{
    assert(render(e, indent, unit).take(indent as int) =~= spaces(indent));
}

/// The text of an element with children: its opening tag, then each child on
/// lines of its own and one level further in, then the closing tag on a line
/// of its own at the element's indentation.
pub proof fn lemma_children_one_level_in(e: ElementView, indent: nat, unit: nat)
    requires
        e.children.len() > 0,
    ensures
        render(e, indent, unit) == open_tag(e, indent) + seq!['>', '\n'] + join_lines(
            render_each(e.children, indent + unit, unit),
        ) + seq!['\n'] + spaces(indent) + close_tag(e.name),
        render_each(e.children, indent + unit, unit).len() == e.children.len(),
        forall|i: int|
            0 <= i < e.children.len() ==> #[trigger] render_each(
                e.children,
                indent + unit,
                unit,
            )[i] == render(e.children[i], indent + unit, unit),
{
    let items = render_each(e.children, indent + unit, unit);
    assert(open_tag(e, indent) + block(e.name, items, indent) =~= open_tag(e, indent) + seq![
        '>',
        '\n',
    ] + join_lines(items) + seq!['\n'] + spaces(indent) + close_tag(e.name));
}

/// A text has more than one line exactly where a newline stands in it that
/// is not its last character.
pub proof fn lemma_multi_line_has_inner_newline(text: Seq<char>)
    ensures
        lines(text).len() > 1 <==> exists|k: int| 0 <= k && k + 1 < text.len() && text[k] == '\n',
{
    if text.len() > 0 {
        lemma_line_end(text, 0);
        let end = line_end(text, 0);
        if end < text.len() {
            assert(lines_from(text, end + 1).len() > 0 <==> end + 1 < text.len()) by {
                if end + 1 < text.len() {
                    lemma_line_end(text, end + 1);
                }
            }
            if end + 1 < text.len() {
                assert(0 <= end && end + 1 < text.len() && text[end] == '\n');
            }
        }
    }
}

/// Adding no child changes nothing: the text is the one that the element had.
pub proof fn lemma_absent_child_changes_nothing(e: ElementView, indent: nat, unit: nat)
    ensures
        e.with_optional_child(None) == e,
        render(e.with_optional_child(None), indent, unit) == render(e, indent, unit),
{
}

/// Adding several children is adding them one after the other.
pub proof fn lemma_children_one_by_one(e: ElementView, children: Seq<ElementView>, child: ElementView)
    ensures
        e.with_children(Seq::empty()) == e,
        e.with_children(children.push(child)) == e.with_children(children).with_child(child),
{
    assert(e.children + Seq::<ElementView>::empty() =~= e.children);
    assert(e.children + children.push(child) =~= (e.children + children).push(child));
}

} // verus!
