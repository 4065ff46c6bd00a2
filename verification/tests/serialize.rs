use html_tree::{HtmlElement, INDENT};

fn text_at(element: &HtmlElement, indent: usize) -> String {
    let mut buffer = String::new();
    element.write(indent, &mut buffer);
    buffer
}

#[test]
fn single_line_content_stays_on_one_line() {
    let mut span = HtmlElement::new("span");
    span.set_content("x");
    assert_eq!(span.to_string(), "<span>x</span>");
    assert_eq!(text_at(&span, 0), "<span>x</span>");
}

#[test]
fn multi_line_content_is_indented_one_level() {
    let mut p = HtmlElement::new("p");
    p.set_content("a\nb");
    assert_eq!(text_at(&p, 0), "<p>\n  a\n  b\n</p>");
}

#[test]
fn multi_line_content_at_deeper_indent() {
    let mut p = HtmlElement::new("p");
    p.set_content("a\nb\nc");
    assert_eq!(text_at(&p, 4), "    <p>\n      a\n      b\n      c\n    </p>");
}

#[test]
fn serializing_twice_gives_identical_bytes() {
    let mut root = HtmlElement::new_div(Some("outer"));
    let mut inner = HtmlElement::new("p");
    inner.set_content("one\ntwo");
    root.add_child(inner);
    root.add_child(HtmlElement::new_void("br"));
    let first = text_at(&root, 2);
    let second = text_at(&root, 2);
    assert_eq!(first.as_bytes(), second.as_bytes());
    assert_eq!(root.to_string(), root.to_string());
}

#[test]
fn write_appends_to_what_the_buffer_holds() {
    let mut buffer = String::from("<!-- head -->");
    HtmlElement::new("hr").write(0, &mut buffer);
    assert_eq!(buffer, "<!-- head --><hr/>");
}

#[test]
fn attributes_are_written_in_call_order() {
    let mut e = HtmlElement::new("a");
    e.set_attr("href", "x.html");
    e.set_attr("id", "first");
    e.set_class("wide");
    e.set_attr("title", "t");
    assert_eq!(e.to_string(), "<a href=\"x.html\" id=\"first\" class=\"wide\" title=\"t\"/>");
}

#[test]
fn repeated_attributes_are_all_written() {
    let mut e = HtmlElement::new("a");
    e.set_attr("class", "one");
    e.set_class("two");
    e.set_attr_text("class", "one");
    assert_eq!(e.to_string(), "<a class=\"one\" class=\"two\" class=\"one\"/>");
}

#[test]
fn attribute_values_are_not_escaped() {
    let mut e = HtmlElement::new("a");
    e.set_attr("title", "a \"b\" <c> & d");
    assert_eq!(e.to_string(), "<a title=\"a \"b\" <c> & d\"/>");
}

#[test]
fn numeric_attribute_values_are_written_in_decimal() {
    let mut e = HtmlElement::new("td");
    e.set_attr("colspan", 12);
    e.set_attr("data-offset", -7i64);
    e.set_attr("data-big", u64::MAX);
    assert_eq!(
        e.to_string(),
        "<td colspan=\"12\" data-offset=\"-7\" data-big=\"18446744073709551615\"/>"
    );
}

#[test]
fn owned_and_borrowed_strings_are_attribute_values() {
    let mut e = HtmlElement::new("i");
    e.set_attr("a", String::from("owned"));
    e.set_attr("b", &String::from("borrowed"));
    e.set_attr("c", 'c');
    e.set_attr("d", true);
    assert_eq!(e.to_string(), "<i a=\"owned\" b=\"borrowed\" c=\"c\" d=\"true\"/>");
}

#[test]
fn children_take_precedence_over_content() {
    let mut with_content = HtmlElement::new("section");
    with_content.set_content("hidden words");
    with_content.add_child(HtmlElement::new("p"));
    let mut without_content = HtmlElement::new("section");
    without_content.add_child(HtmlElement::new("p"));
    let text = with_content.to_string();
    assert!(!text.contains("hidden words"));
    assert_eq!(text, without_content.to_string());
    assert_eq!(text, "<section>\n  <p/>\n</section>");
}

#[test]
fn content_set_after_children_is_not_written() {
    let mut e = HtmlElement::new("section");
    e.add_child(HtmlElement::new("p"));
    e.set_content("late\ncontent");
    assert_eq!(e.to_string(), "<section>\n  <p/>\n</section>");
}

#[test]
fn void_element_has_no_slash() {
    let mut e = HtmlElement::new_void("name");
    e.set_attr("attr", "v");
    assert_eq!(e.to_string(), "<name attr=\"v\">");
}

#[test]
fn empty_element_closes_itself() {
    let mut e = HtmlElement::new("name");
    e.set_attr("attr", "v");
    assert_eq!(e.to_string(), "<name attr=\"v\"/>");
}

#[test]
fn empty_elements_without_attributes() {
    assert_eq!(HtmlElement::new_void("br").to_string(), "<br>");
    assert_eq!(HtmlElement::new("br").to_string(), "<br/>");
    assert_eq!(text_at(&HtmlElement::new_void("br"), 3), "   <br>");
}

#[test]
fn void_element_with_content_is_written_like_any_other() {
    let mut e = HtmlElement::new_void("meta");
    e.set_content("x");
    assert_eq!(e.to_string(), "<meta>x</meta>");
    let mut parent = HtmlElement::new_void("meta");
    parent.add_child(HtmlElement::new_void("br"));
    assert_eq!(parent.to_string(), "<meta>\n  <br>\n</meta>");
}

#[test]
fn nested_elements_are_indented_by_one_unit() {
    let mut child = HtmlElement::new("div");
    child.set_content("hi");
    let mut root = HtmlElement::new("div");
    root.add_child(child);
    assert_eq!(root.to_string(), "<div>\n  <div>hi</div>\n</div>");
    assert_eq!(text_at(&root, 2), "  <div>\n    <div>hi</div>\n  </div>");
}

#[test]
fn three_levels_of_nesting() {
    let mut leaf = HtmlElement::new("td");
    leaf.set_content("1\n2");
    let mut row = HtmlElement::new("tr");
    row.add_child(leaf);
    row.add_child(HtmlElement::new("td"));
    let mut table = HtmlElement::new("table");
    table.set_attr("border", 1);
    table.add_child(row);
    table.add_child(HtmlElement::new("tr"));
    assert_eq!(
        table.to_string(),
        "<table border=\"1\">\n  <tr>\n    <td>\n      1\n      2\n    </td>\n    <td/>\n  </tr>\n  <tr/>\n</table>"
    );
}

#[test]
fn children_are_written_in_the_order_added() {
    let mut list = HtmlElement::new("ul");
    for name in ["a", "b", "c"] {
        let mut item = HtmlElement::new("li");
        item.set_content(name);
        list.add_child(item);
    }
    assert_eq!(list.to_string(), "<ul>\n  <li>a</li>\n  <li>b</li>\n  <li>c</li>\n</ul>");
}

#[test]
fn absent_optional_child_changes_nothing() {
    let mut with_call = HtmlElement::new("div");
    with_call.set_content("text");
    with_call.add_child_opt(None);
    let mut without_call = HtmlElement::new("div");
    without_call.set_content("text");
    assert_eq!(with_call.to_string(), without_call.to_string());
    assert_eq!(with_call.to_string(), "<div>text</div>");

    let mut parent = HtmlElement::new("div");
    parent.add_child(HtmlElement::new("p"));
    let before = parent.to_string();
    parent.add_child_opt(None);
    assert_eq!(parent.to_string(), before);
}

#[test]
fn present_optional_child_is_added() {
    let mut with_opt = HtmlElement::new("div");
    with_opt.add_child_opt(Some(HtmlElement::new("p")));
    let mut with_plain = HtmlElement::new("div");
    with_plain.add_child(HtmlElement::new("p"));
    assert_eq!(with_opt.to_string(), with_plain.to_string());
    assert_eq!(with_opt.to_string(), "<div>\n  <p/>\n</div>");
}

#[test]
fn add_children_is_repeated_add_child() {
    let mut at_once = HtmlElement::new("ol");
    at_once.add_child(HtmlElement::new("li"));
    at_once.add_children(vec![HtmlElement::new("a"), HtmlElement::new_void("b"), HtmlElement::new("c")]);
    let mut one_by_one = HtmlElement::new("ol");
    one_by_one.add_child(HtmlElement::new("li"));
    one_by_one.add_child(HtmlElement::new("a"));
    one_by_one.add_child(HtmlElement::new_void("b"));
    one_by_one.add_child(HtmlElement::new("c"));
    assert_eq!(at_once.to_string(), one_by_one.to_string());
    assert_eq!(at_once.to_string(), "<ol>\n  <li/>\n  <a/>\n  <b>\n  <c/>\n</ol>");
}

#[test]
fn add_children_with_nothing_changes_nothing() {
    let mut e = HtmlElement::new("ol");
    e.add_children(vec![]);
    assert_eq!(e.to_string(), "<ol/>");
}

#[test]
fn new_div_with_and_without_class() {
    assert_eq!(HtmlElement::new_div(None).to_string(), "<div/>");
    assert_eq!(HtmlElement::new_div(Some("box")).to_string(), "<div class=\"box\"/>");
    assert_eq!(HtmlElement::new_div(Some("")).to_string(), "<div class=\"\"/>");
}

#[test]
fn tag_names_are_not_validated() {
    assert_eq!(HtmlElement::new("no such tag").to_string(), "<no such tag/>");
    assert_eq!(HtmlElement::new("").to_string(), "</>");
}

#[test]
fn set_content_replaces_earlier_content() {
    let mut e = HtmlElement::new("p");
    e.set_content("first\nsecond");
    e.set_content("third");
    assert_eq!(e.to_string(), "<p>third</p>");
}

#[test]
fn empty_content_is_single_line() {
    let mut e = HtmlElement::new("p");
    e.set_content("");
    assert_eq!(e.to_string(), "<p></p>");
}

#[test]
fn content_with_only_a_final_newline_is_single_line() {
    let mut e = HtmlElement::new("p");
    e.set_content("a\n");
    assert_eq!(e.to_string(), "<p>a\n</p>");
}

#[test]
fn content_lines_lose_their_line_endings() {
    let mut e = HtmlElement::new("pre");
    e.set_content("a\r\nb\n\nc\n");
    assert_eq!(e.to_string(), "<pre>\n  a\n  b\n  \n  c\n</pre>");
}

#[test]
fn content_keeps_characters_beyond_ascii() {
    let mut e = HtmlElement::new("p");
    e.set_attr("lang", "zażółć");
    e.set_content("gęślą\njaźń €");
    assert_eq!(e.to_string(), "<p lang=\"zażółć\">\n  gęślą\n  jaźń €\n</p>");
}

#[test]
fn write_uses_the_common_indentation() {
    assert_eq!(INDENT, 2);
    let mut root = HtmlElement::new("a");
    root.add_child(HtmlElement::new("b"));
    let mut by_write = String::new();
    root.write(3, &mut by_write);
    let mut by_write_with = String::new();
    root.write_with(3, INDENT, &mut by_write_with);
    assert_eq!(by_write, by_write_with);
    assert_eq!(by_write, "   <a>\n     <b/>\n   </a>");
}

#[test]
fn write_with_other_indentation_units() {
    let mut leaf = HtmlElement::new("c");
    leaf.set_content("x\ny");
    let mut middle = HtmlElement::new("b");
    middle.add_child(leaf);
    let mut root = HtmlElement::new("a");
    root.add_child(middle);
    let mut four = String::new();
    root.write_with(0, 4, &mut four);
    assert_eq!(
        four,
        "<a>\n    <b>\n        <c>\n            x\n            y\n        </c>\n    </b>\n</a>"
    );
    let mut none = String::new();
    root.write_with(1, 0, &mut none);
    assert_eq!(none, " <a>\n <b>\n <c>\n x\n y\n </c>\n </b>\n </a>");
}
