//! Writing XML markup: escaped character data and attribute values, and the
//! text of an element with its attributes, text and children.
use vstd::prelude::*;
use vstd::string::*;

use crate::text::{chars_of, push_char};
use crate::xml::Node;

verus! {

broadcast use vstd::string::group_string_axioms;

/// The escaped form of one character of element text.
pub open spec fn text_escape(c: char) -> Seq<char> {
    if c == '&' {
        seq!['&', 'a', 'm', 'p', ';']
    } else if c == '<' {
        seq!['&', 'l', 't', ';']
    } else if c == '>' {
        seq!['&', 'g', 't', ';']
    } else {
        seq![c]
    }
}

/// The escaped form of one character of an attribute value.
pub open spec fn attribute_escape(c: char) -> Seq<char> {
    if c == '"' {
        seq!['&', 'q', 'u', 'o', 't', ';']
    } else if c == '\'' {
        seq!['&', 'a', 'p', 'o', 's', ';']
    } else {
        text_escape(c)
    }
}

/// Element text with `&`, `<` and `>` replaced by their entity references.
pub open spec fn escaped_text(s: Seq<char>) -> Seq<char>
    decreases s.len(),
{
    if s.len() == 0 {
        Seq::<char>::empty()
    } else {
        escaped_text(s.drop_last()) + text_escape(s.last())
    }
}

/// An attribute value with `&`, `<`, `>`, `"` and `'` replaced by their
/// entity references.
pub open spec fn escaped_attribute(s: Seq<char>) -> Seq<char>
    decreases s.len(),
{
    if s.len() == 0 {
        Seq::<char>::empty()
    } else {
        escaped_attribute(s.drop_last()) + attribute_escape(s.last())
    }
}

fn push_escape(out: &mut String, c: char, attribute: bool)
    ensures
        final(out)@ == old(out)@ + if attribute { attribute_escape(c) } else { text_escape(c) },
{
    if c == '&' {
        out.append("&amp;");
        proof {
            reveal_strlit("&amp;");
        }
    } else if c == '<' {
        out.append("&lt;");
        proof {
            reveal_strlit("&lt;");
        }
    } else if c == '>' {
        out.append("&gt;");
        proof {
            reveal_strlit("&gt;");
        }
    } else if attribute && c == '"' {
        out.append("&quot;");
        proof {
            reveal_strlit("&quot;");
        }
    } else if attribute && c == '\'' {
        out.append("&apos;");
        proof {
            reveal_strlit("&apos;");
        }
    } else {
        push_char(out, c);
    }
    proof {
        assert(final(out)@ =~= old(out)@ + if attribute { attribute_escape(c) } else { text_escape(c) });
    }
}

fn push_escaped(out: &mut String, value: &str, attribute: bool)
    ensures
        final(out)@ == old(out)@ + if attribute { escaped_attribute(value@) } else { escaped_text(value@) },
{
    let chars = chars_of(value);
    let ghost start = out@;
    let mut i: usize = 0;
    while i < chars.len()
        invariant
            i <= chars@.len(),
            chars@ == value@,
            out@ == start + if attribute {
                escaped_attribute(chars@.take(i as int))
            } else {
                escaped_text(chars@.take(i as int))
            },
        decreases chars.len() - i,
    {
        proof {
            assert(chars@.take(i + 1).drop_last() =~= chars@.take(i as int));
        }
        push_escape(out, chars[i], attribute);
        i += 1;
        proof {
            assert(out@ =~= start + if attribute {
                escaped_attribute(chars@.take(i as int))
            } else {
                escaped_text(chars@.take(i as int))
            });
        }
    }
    proof {
        assert(chars@.take(chars@.len() as int) =~= chars@);
    }
}

/// Escapes element text.
pub fn escape_text(value: &str) -> (r: String)
    ensures
        r@ == escaped_text(value@),
{
    let mut out = String::new();
    push_escaped(&mut out, value, false);
    out
}

/// Escapes an attribute value.
pub fn escape_attribute(value: &str) -> (r: String)
    ensures
        r@ == escaped_attribute(value@),
{
    let mut out = String::new();
    push_escaped(&mut out, value, true);
    out
}

/// The attributes of a start tag: a space, the key, `="`, the escaped value
/// and `"` for each, in order.
pub open spec fn attributes_markup(attributes: Seq<(Seq<char>, Seq<char>)>) -> Seq<char>
    decreases attributes.len(),
{
    if attributes.len() == 0 {
        Seq::<char>::empty()
    } else {
        attributes_markup(attributes.drop_last()) + seq![' '] + attributes.last().0 + seq!['=', '"']
            + escaped_attribute(attributes.last().1) + seq!['"']
    }
}

fn push_attributes(out: &mut String, attributes: &[(String, String)])
    ensures
        final(out)@ == old(out)@ + attributes_markup(crate::history::fields_view(attributes@)),
{
    let ghost start = out@;
    let ghost all = crate::history::fields_view(attributes@);
    let mut i: usize = 0;
    while i < attributes.len()
        invariant
            i <= attributes@.len(),
            all == crate::history::fields_view(attributes@),
            out@ == start + attributes_markup(all.take(i as int)),
        decreases attributes.len() - i,
    {
        proof {
            assert(all.take(i + 1).drop_last() =~= all.take(i as int));
        }
        push_char(out, ' ');
        out.append(attributes[i].0.as_str());
        push_char(out, '=');
        push_char(out, '"');
        push_escaped(out, attributes[i].1.as_str(), true);
        push_char(out, '"');
        i += 1;
        proof {
            assert(out@ =~= start + attributes_markup(all.take(i as int)));
        }
    }
    proof {
        assert(all.take(attributes@.len() as int) =~= all);
    }
}

/// The markup of an element: its start tag with attributes, then either
/// ` />` when it has neither text nor children, or `>`, the escaped text,
/// the children's markup and the end tag.
pub open spec fn node_markup(n: Node) -> Seq<char>
    decreases n, 1nat,
{
    let open = seq!['<'] + n.name@ + attributes_markup(crate::history::fields_view(n.attributes@));
    if n.children@.len() == 0 && n.text@.len() == 0 {
        open + seq![' ', '/', '>']
    } else {
        open + seq!['>'] + escaped_text(n.text@) + children_markup(n.children@, n.children@.len() as int)
            + seq!['<', '/'] + n.name@ + seq!['>']
    }
}

/// The markup of the first `count` children, in order.
pub open spec fn children_markup(children: Seq<Node>, count: int) -> Seq<char>
    decreases children, 0nat, count,
{
    if count <= 0 || count > children.len() {
        Seq::<char>::empty()
    } else {
        children_markup(children, count - 1) + node_markup(children[count - 1])
    }
}

/// Writes an element and everything inside it.
pub fn node_to_xml(node: &Node) -> (r: String)
    ensures
        r@ == node_markup(*node),
    decreases node,
{
    let mut out = String::new();
    push_char(&mut out, '<');
    out.append(node.name.as_str());
    push_attributes(&mut out, node.attributes.as_slice());
    if node.children.len() == 0 && node.text.as_str().unicode_len() == 0 {
        out.append(" />");
        proof {
            reveal_strlit(" />");
            assert(out@ =~= node_markup(*node));
        }
        return out;
    }
    push_char(&mut out, '>');
    push_escaped(&mut out, node.text.as_str(), false);
    let ghost head = out@;
    let mut i: usize = 0;
    while i < node.children.len()
        invariant
            i <= node.children@.len(),
            out@ == head + children_markup(node.children@, i as int),
        decreases node.children.len() - i,
    {
        let part = node_to_xml(&node.children[i]);
        out.append(part.as_str());
        i += 1;
        proof {
            assert(out@ =~= head + children_markup(node.children@, i as int));
        }
    }
    out.append("</");
    out.append(node.name.as_str());
    push_char(&mut out, '>');
    proof {
        reveal_strlit("</");
        assert(out@ =~= node_markup(*node));
    }
    out
}

} // verus!
