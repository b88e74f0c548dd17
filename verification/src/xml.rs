//! Task XML documents: encoding detection and decoding, resource limits,
//! the element tree of untrusted documents, raw snapshots, and the entry
//! points that read and write the typed definition.
use vstd::prelude::*;
use vstd::string::*;
use vstd::utf8::{decode_utf8, valid_utf8};

use crate::error::{Error, ErrorKind};
use quick_xml::events::Event::{CData, DocType, Empty, End, Eof, GeneralRef, Start, Text};
use quick_xml::Reader;
use self::RawToken::{Chars, Close, Doctype, Entity, Failed, Leaf, Open, Section, Skipped};
use crate::text::{chars_of, is_unicode_whitespace};
use crate::history::{fields_map, fields_view, insert_field, keys_increasing};
use crate::model::TaskDefinition;
use crate::model::builder::definition_valid;
use crate::xml_read::{definition_fault, definition_read};
use crate::xml_write::{definition_markup, le_bytes, utf16_encode};

verus! {

broadcast use vstd::string::group_string_axioms;

/// Default maximum decoded XML size.
pub const DEFAULT_MAX_BYTES: usize = 8388608;

/// Default maximum XML nesting depth.
pub const DEFAULT_MAX_DEPTH: usize = 64;

/// Default maximum element count.
pub const DEFAULT_MAX_NODES: usize = 100000;

/// Resource limits for untrusted Task XML.
#[derive(Clone, Copy, Debug, Eq, PartialEq, Structural)]
pub struct ParseLimits {
    /// Maximum decoded byte count.
    pub max_bytes: usize,
    /// Maximum nesting depth.
    pub max_depth: usize,
    /// Maximum element count.
    pub max_nodes: usize,
}

impl Default for ParseLimits {
    fn default() -> (l: Self)
        ensures
            l == (ParseLimits {
                max_bytes: DEFAULT_MAX_BYTES,
                max_depth: DEFAULT_MAX_DEPTH,
                max_nodes: DEFAULT_MAX_NODES,
            }),
    {
        ParseLimits {
            max_bytes: DEFAULT_MAX_BYTES,
            max_depth: DEFAULT_MAX_DEPTH,
            max_nodes: DEFAULT_MAX_NODES,
        }
    }
}

/// Encoding detected for a raw task document.
#[derive(Clone, Copy, Debug, Eq, PartialEq, Structural)]
pub enum XmlEncoding {
    /// UTF-8, with or without a BOM.
    Utf8,
    /// Little-endian UTF-16.
    Utf16LittleEndian,
    /// Big-endian UTF-16.
    Utf16BigEndian,
}

/// An XML failure with its message.
fn xml_error(message: &str) -> (e: Error)
    ensures
        e@.kind == ErrorKind::Xml,
        e@.message == message@,
{
    Error::new(ErrorKind::Xml, message)
}

/// `std::string::String::from_utf8`, which accepts exactly the valid UTF-8
/// byte sequences and keeps their characters.
#[verifier::external_body]
fn string_from_utf8(bytes: Vec<u8>) -> (r: Option<String>)
    ensures
        match r {
            Some(s) => valid_utf8(bytes@) && s@ == decode_utf8(bytes@),
            None => !valid_utf8(bytes@),
        },
{
    String::from_utf8(bytes).ok()
}

/// `char::from_u32`, which accepts exactly the Unicode scalar values.
#[verifier::external_body]
fn char_from_u32(value: u32) -> (r: Option<char>)
    ensures
        match r {
            Some(c) => is_scalar(value) && c as u32 == value,
            None => !is_scalar(value),
        },
{
    char::from_u32(value)
}

/// Whether a value is a Unicode scalar value.
pub open spec fn is_scalar(v: u32) -> bool {
    v <= 0x10FFFF && !(0xD800 <= v <= 0xDFFF)
}

/// The characters that UTF-16 code units denote, or `None` when a surrogate
/// is unpaired.
pub open spec fn utf16_decode(units: Seq<u16>) -> Option<Seq<char>>
    decreases units.len(),
{
    if units.len() == 0 {
        Some(Seq::empty())
    } else {
        let u = units[0];
        if 0xD800 <= u <= 0xDBFF {
            if units.len() >= 2 && 0xDC00 <= units[1] <= 0xDFFF {
                let v = 0x10000 + (u - 0xD800) * 1024 + (units[1] - 0xDC00);
                match utf16_decode(units.skip(2)) {
                    Some(rest) => Some(seq![(v as u32) as char] + rest),
                    None => None,
                }
            } else {
                None
            }
        } else if 0xDC00 <= u <= 0xDFFF {
            None
        } else {
            match utf16_decode(units.skip(1)) {
                Some(rest) => Some(seq![(u as u32) as char] + rest),
                None => None,
            }
        }
    }
}

/// The 16-bit code units of byte pairs in the given order.
pub open spec fn utf16_units(bytes: Seq<u8>, little_endian: bool) -> Seq<u16> {
    Seq::new(
        bytes.len() / 2,
        |i: int|
            if little_endian {
                (bytes[2 * i] + 256 * bytes[2 * i + 1]) as u16
            } else {
                (256 * bytes[2 * i] + bytes[2 * i + 1]) as u16
            },
    )
}

fn utf16_units_exec(bytes: &[u8], little_endian: bool) -> (u: Vec<u16>)
    requires
        bytes.len() % 2 == 0,
    ensures
        u@ == utf16_units(bytes@, little_endian),
{
    let mut u: Vec<u16> = Vec::new();
    let mut i: usize = 0;
    while i < bytes.len() / 2
        invariant
            i <= bytes.len() / 2,
            bytes.len() % 2 == 0,
            u@.len() == i,
            forall|k: int| 0 <= k < i ==> #[trigger] u@[k] == utf16_units(bytes@, little_endian)[k],
        decreases bytes.len() / 2 - i,
    {
        let a = bytes[2 * i] as u16;
        let b = bytes[2 * i + 1] as u16;
        let unit: u16 = if little_endian {
            a + 256 * b
        } else {
            256 * a + b
        };
        u.push(unit);
        i += 1;
    }
    proof {
        assert(u@ =~= utf16_units(bytes@, little_endian));
    }
    u
}

fn decode_units(units: &[u16]) -> (r: Option<Vec<char>>)
    ensures
        match r {
            Some(v) => utf16_decode(units@) == Some(v@),
            None => utf16_decode(units@) is None,
        },
    decreases units.len(),
{
    if units.len() == 0 {
        return Some(Vec::new());
    }
    let u = units[0];
    if u >= 0xD800 && u <= 0xDBFF {
        if units.len() >= 2 && units[1] >= 0xDC00 && units[1] <= 0xDFFF {
            let v: u32 = 0x10000 + ((u - 0xD800) as u32) * 1024 + ((units[1] - 0xDC00) as u32);
            let rest = crate::text::slice_from_u16(units, 2);
            proof {
                assert(rest@ =~= units@.skip(2));
            }
            match (char_from_u32(v), decode_units(rest)) {
                (Some(c), Some(tail)) => {
                    let ghost t = tail@;
                    let mut out = vec![c];
                    let mut tail = tail;
                    out.append(&mut tail);
                    proof {
                        vstd::utf8::char_u32_cast(c, v);
                        assert(out@ =~= seq![(v as u32) as char] + t);
                    }
                    Some(out)
                },
                (None, _) => {
                    proof {
                        assert(false);
                    }
                    None
                },
                (_, None) => None,
            }
        } else {
            None
        }
    } else if u >= 0xDC00 && u <= 0xDFFF {
        None
    } else {
        let rest = crate::text::slice_from_u16(units, 1);
        proof {
            assert(rest@ =~= units@.skip(1));
        }
        match (char_from_u32(u as u32), decode_units(rest)) {
            (Some(c), Some(tail)) => {
                let ghost t = tail@;
                let mut out = vec![c];
                let mut tail = tail;
                out.append(&mut tail);
                proof {
                    vstd::utf8::char_u32_cast(c, u as u32);
                    assert(out@ =~= seq![((u as int) as u32) as char] + t);
                }
                Some(out)
            },
            (None, _) => {
                proof {
                    assert(false);
                }
                None
            },
            (_, None) => None,
        }
    }
}

/// What decoding raw document bytes gives: the encoding its byte order mark
/// selects and its text, or `None` when the bytes do not decode.
pub open spec fn decoded_text(bytes: Seq<u8>) -> Option<(XmlEncoding, Seq<char>)> {
    if bytes.len() >= 2 && bytes[0] == 0xFF && bytes[1] == 0xFE {
        let body = bytes.skip(2);
        if body.len() % 2 != 0 {
            None
        } else {
            match utf16_decode(utf16_units(body, true)) {
                Some(t) => Some((XmlEncoding::Utf16LittleEndian, t)),
                None => None,
            }
        }
    } else if bytes.len() >= 2 && bytes[0] == 0xFE && bytes[1] == 0xFF {
        let body = bytes.skip(2);
        if body.len() % 2 != 0 {
            None
        } else {
            match utf16_decode(utf16_units(body, false)) {
                Some(t) => Some((XmlEncoding::Utf16BigEndian, t)),
                None => None,
            }
        }
    } else {
        let body = if bytes.len() >= 3 && bytes[0] == 0xEF && bytes[1] == 0xBB && bytes[2] == 0xBF {
            bytes.skip(3)
        } else {
            bytes
        };
        if valid_utf8(body) {
            Some((XmlEncoding::Utf8, decode_utf8(body)))
        } else {
            None
        }
    }
}

/// Decodes raw bytes no longer than `max_bytes`.
fn decode_xml(bytes: &[u8], max_bytes: usize) -> (r: Result<(XmlEncoding, String), Error>)
    ensures
        match r {
            Ok((e, t)) => bytes.len() <= max_bytes && decoded_text(bytes@) == Some((e, t@)),
            Err(e) => e@.kind == ErrorKind::Xml && (bytes.len() > max_bytes || decoded_text(bytes@) is None),
        },
{
    if bytes.len() > max_bytes {
        let mut m = "XML exceeds the ".to_owned();
        m.append(crate::text::u64_to_string(max_bytes as u64).as_str());
        m.append("-byte parse limit");
        return Err(xml_error(m.as_str()));
    }
    if bytes.len() >= 2 && ((bytes[0] == 0xFF && bytes[1] == 0xFE) || (bytes[0] == 0xFE && bytes[1] == 0xFF)) {
        let little = bytes[0] == 0xFF;
        let body = vstd::slice::slice_subrange(bytes, 2, bytes.len());
        proof {
            assert(body@ =~= bytes@.skip(2));
        }
        if body.len() % 2 != 0 {
            return Err(xml_error("UTF-16 Task XML contains an incomplete code unit"));
        }
        let units = utf16_units_exec(body, little);
        match decode_units(units.as_slice()) {
            Some(chars) => {
                let text = crate::text::string_of(chars.as_slice());
                let encoding = if little {
                    XmlEncoding::Utf16LittleEndian
                } else {
                    XmlEncoding::Utf16BigEndian
                };
                return Ok((encoding, text));
            },
            None => {
                return Err(xml_error("Task XML contains invalid UTF-16"));
            },
        }
    }
    let start: usize = if bytes.len() >= 3 && bytes[0] == 0xEF && bytes[1] == 0xBB && bytes[2] == 0xBF {
        3
    } else {
        0
    };
    let body = vstd::slice::slice_subrange(bytes, start, bytes.len());
    proof {
        assert(body@ =~= bytes@.skip(start as int));
        assert(bytes@.skip(0) =~= bytes@);
    }
    match string_from_utf8(vstd::slice::slice_to_vec(body)) {
        Some(text) => Ok((XmlEncoding::Utf8, text)),
        None => Err(xml_error("Task XML is not valid UTF-8")),
    }
}

} // verus!

verus! {

/// One event of quick-xml's reader, as plain text.
pub enum RawToken {
    /// A start tag: the text between `<` and `>`.
    Open(String),
    /// A self-closing tag: the text between `<` and `/>`.
    Leaf(String),
    /// Character data with XML 1.0 line endings normalized, still escaped.
    Chars(String),
    /// The text of a CDATA section with XML 1.0 line endings normalized.
    Section(String),
    /// A general reference in character data: the name or number between
    /// `&` and `;`.
    Entity(String),
    /// An end tag.
    Close,
    /// A document type declaration.
    Doctype,
    /// An XML declaration, processing instruction or comment.
    Skipped,
    /// An error the reader reported; reading goes on after it.
    Failed(String),
}

/// The view of a reader event.
pub enum TokenView {
    /// A start tag's text.
    Start(Seq<char>),
    /// A self-closing tag's text.
    Empty(Seq<char>),
    /// Escaped character data.
    Text(Seq<char>),
    /// A CDATA section.
    CData(Seq<char>),
    /// A general reference.
    Reference(Seq<char>),
    /// An end tag.
    End,
    /// A document type declaration.
    Forbidden,
    /// A declaration, processing instruction or comment.
    Ignored,
    /// The reader's error message.
    Failed(Seq<char>),
}

impl View for RawToken {
    type V = TokenView;

    open spec fn view(&self) -> TokenView {
        match self {
            RawToken::Open(c) => TokenView::Start(c@),
            RawToken::Leaf(c) => TokenView::Empty(c@),
            RawToken::Chars(t) => TokenView::Text(t@),
            RawToken::Section(t) => TokenView::CData(t@),
            RawToken::Entity(t) => TokenView::Reference(t@),
            RawToken::Close => TokenView::End,
            RawToken::Doctype => TokenView::Forbidden,
            RawToken::Skipped => TokenView::Ignored,
            RawToken::Failed(m) => TokenView::Failed(m@),
        }
    }
}

/// The views of reader events.
pub open spec fn tokens_view(s: Seq<RawToken>) -> Seq<TokenView> {
    s.map_values(|t: RawToken| t@)
}

/// The events quick-xml's reader, in its default configuration, reads from
/// `text` until the end of the document, each error it reports standing in
/// its place among them.
pub uninterp spec fn xml_tokens(text: Seq<char>) -> Seq<TokenView>;

/// Reads every event of `text` with `quick_xml::Reader::from_str` and
/// `read_event` until the end of the document, keeping each error it
/// reports in its place.
#[verifier::external_body]
pub(crate) fn read_tokens(text: &str) -> (r: Vec<RawToken>)
    ensures
        tokens_view(r@) == xml_tokens(text@),
{
    let (mut reader, mut tokens) = (Reader::from_str(text), Vec::new());
    loop {
        tokens.push(match reader.read_event() {
            Ok(Start(e)) => Open((*e).to_owned()),
            Ok(Empty(e)) => Leaf((*e).to_owned()),
            Ok(Text(e)) => Chars(e.xml10_content().into_owned()),
            Ok(CData(e)) => Section(e.xml10_content().into_owned()),
            Ok(GeneralRef(e)) => Entity((*e).to_owned()),
            Ok(End(_)) => Close,
            Ok(DocType(_)) => Doctype,
            Ok(Eof) => return tokens,
            Ok(_) => Skipped,
            Err(error) => Failed(error.to_string()),
        });
    }
}

/// The length of a tag's name: its text up to the first XML whitespace
/// character, as quick-xml's reader splits it.
pub open spec fn tag_name_len(content: Seq<char>) -> nat
    decreases content.len(),
{
    if content.len() == 0 || is_xml_space(content[0]) {
        0
    } else {
        1 + tag_name_len(content.drop_first())
    }
}

/// Whether a character is XML whitespace: space, tab, carriage return or
/// line feed.
pub open spec fn is_xml_space(c: char) -> bool {
    c == ' ' || c == '\t' || c == '\r' || c == '\n'
}

/// The qualified name of a tag.
pub open spec fn tag_name(content: Seq<char>) -> Seq<char> {
    content.take(tag_name_len(content) as int)
}

/// The attribute text of a tag, after its name.
pub open spec fn tag_rest(content: Seq<char>) -> Seq<char> {
    content.skip(tag_name_len(content) as int)
}

proof fn lemma_tag_name_len(content: Seq<char>, i: int)
    requires
        0 <= i <= content.len(),
        forall|k: int| 0 <= k < i ==> !is_xml_space(#[trigger] content[k]),
        i == content.len() || is_xml_space(content[i]),
    ensures
        tag_name_len(content) == i,
    decreases i,
{
    if i > 0 {
        lemma_tag_name_len(content.drop_first(), i - 1);
    }
}

/// Splits a tag's text into its qualified name and its attribute text.
pub(crate) fn split_tag(content: &str) -> (r: (String, String))
    ensures
        r.0@ == tag_name(content@),
        r.1@ == tag_rest(content@),
{
    let chars = chars_of(content);
    let mut i: usize = 0;
    while i < chars.len() && !(chars[i] == ' ' || chars[i] == '\t' || chars[i] == '\r' || chars[i] == '\n')
        invariant
            chars@ == content@,
            i <= chars@.len(),
            forall|k: int| 0 <= k < i ==> !is_xml_space(#[trigger] chars@[k]),
        decreases chars.len() - i,
    {
        i += 1;
    }
    proof {
        lemma_tag_name_len(content@, i as int);
    }
    let name = crate::text::string_of(vstd::slice::slice_subrange(chars.as_slice(), 0, i));
    let rest = crate::text::string_of(vstd::slice::slice_subrange(chars.as_slice(), i, chars.len()));
    proof {
        assert(name@ =~= tag_name(content@));
        assert(rest@ =~= tag_rest(content@));
    }
    (name, rest)
}

/// One item of quick-xml's attribute iterator: the attribute's qualified
/// key and its normalized value or that value's error, or the error of a
/// malformed attribute.
pub type AttrItem = Result<(String, Result<String, String>), String>;

/// The view of an attribute item.
pub open spec fn attr_item_view(a: AttrItem) -> Result<(Seq<char>, Result<Seq<char>, Seq<char>>), Seq<char>> {
    match a {
        Ok((k, Ok(v))) => Ok((k@, Ok(v@))),
        Ok((k, Err(m))) => Ok((k@, Err(m@))),
        Err(m) => Err(m@),
    }
}

/// The views of attribute items.
pub open spec fn attr_items_view(s: Seq<AttrItem>) -> Seq<Result<(Seq<char>, Result<Seq<char>, Seq<char>>), Seq<char>>> {
    s.map_values(|a: AttrItem| attr_item_view(a))
}

/// What quick-xml's checked attribute iterator yields over the attribute
/// text of a tag, each value normalized for XML 1.0.
pub uninterp spec fn xml_attributes(raw: Seq<char>) -> Seq<Result<(Seq<char>, Result<Seq<char>, Seq<char>>), Seq<char>>>;

/// Reads the attributes of a tag's attribute text with
/// `quick_xml::events::attributes::Attributes::new` and its checks for
/// well-formed, unique attributes, normalizing each value with
/// `Attribute::normalized_value` for XML 1.0.
#[verifier::external_body]
pub(crate) fn read_attribute_items(raw: &str) -> (r: Vec<AttrItem>)
    ensures
        attr_items_view(r@) == xml_attributes(raw@),
{
    let mut attributes = quick_xml::events::attributes::Attributes::new(raw, 0);
    attributes.with_checks(true);
    let mut items = Vec::new();
    for item in attributes {
        items.push(match item {
            Ok(a) => Ok((a.key.as_ref().to_owned(), match a.normalized_value(quick_xml::XmlVersion::Implicit1_0) {
                Ok(value) => Ok(value.into_owned()),
                Err(error) => Err(error.to_string()),
            })),
            Err(error) => Err(error.to_string()),
        });
    }
    items
}

/// What `quick_xml::escape::unescape` gives for a text: the text with its
/// character and predefined entity references replaced, or `None` when a
/// reference is malformed or unknown.
pub uninterp spec fn xml_unescaped(raw: Seq<char>) -> Option<Seq<char>>;

/// `quick_xml::escape::unescape`.
#[verifier::external_body]
pub(crate) fn unescape(raw: &str) -> (r: Result<String, String>)
    ensures
        match r {
            Ok(s) => xml_unescaped(raw@) == Some(s@),
            Err(_) => xml_unescaped(raw@) is None,
        },
{
    match quick_xml::escape::unescape(raw) {
        Ok(value) => Ok(value.into_owned()),
        Err(error) => Err(error.to_string()),
    }
}

/// The part of a qualified name after its last `:`.
pub open spec fn local_part(name: Seq<char>) -> Seq<char> {
    let i = crate::path::last_index(name, ':');
    if i >= 0 {
        name.skip(i + 1)
    } else {
        name
    }
}

/// The local part of a qualified name.
pub(crate) fn local_name(name: &str) -> (r: String)
    ensures
        r@ == local_part(name@),
{
    let chars = chars_of(name);
    let mut i: usize = chars.len();
    while i > 0 && chars[i - 1] != ':'
        invariant
            i <= chars.len(),
            forall|k: int| i <= k < chars.len() ==> chars@[k] != ':',
        decreases i,
    {
        i -= 1;
    }
    proof {
        crate::path::lemma_last_index_is(chars@, ':', i - 1);
    }
    let tail = crate::text::slice_from(chars.as_slice(), i);
    proof {
        assert(tail@ =~= local_part(chars@));
    }
    crate::text::string_of(tail)
}

} // verus!

verus! {

/// Progress of the structural check of a document: open elements, elements
/// seen, and whether the root element has been completed.
#[derive(Clone, Copy, Debug, Eq, PartialEq, Structural)]
pub struct DomState {
    /// Number of open elements.
    pub depth: usize,
    /// Number of elements started so far.
    pub nodes: usize,
    /// Whether a root element has been completed.
    pub has_root: bool,
}

/// Why the structural check stopped.
#[derive(Clone, Copy, Debug, Eq, PartialEq, Structural)]
pub enum DomFault {
    /// More elements than the limit allows.
    TooManyNodes,
    /// Deeper nesting than the limit allows.
    TooDeep,
    /// A second root element.
    MultipleRoots,
    /// Non-blank text outside the root element.
    TextOutsideRoot,
    /// An end tag with no open element.
    UnexpectedEnd,
    /// A document type declaration.
    Forbidden,
    /// The document ended with open elements.
    Unclosed,
    /// The document has no root element.
    NoRoot,
}

/// A structural step of the check.
#[derive(Clone, Copy, Debug, Eq, PartialEq, Structural)]
pub enum DomStep {
    /// A start tag (`true`) or a self-closing tag (`false`) begins.
    Open(bool),
    /// A self-closing tag's attributes were read.
    Leaf,
    /// Text, blank or not.
    Text(bool),
    /// An end tag.
    Close,
    /// A document type declaration.
    Forbidden,
    /// The end of the document.
    Finish,
}

/// The state after one structural step, or the fault it raises.
pub open spec fn dom_next(s: DomState, step: DomStep, limits: ParseLimits) -> Result<DomState, DomFault> {
    match step {
        DomStep::Open(push) => if s.nodes + 1 > limits.max_nodes {
            Err(DomFault::TooManyNodes)
        } else if s.depth >= limits.max_depth {
            Err(DomFault::TooDeep)
        } else {
            Ok(DomState { depth: if push { (s.depth + 1) as usize } else { s.depth }, nodes: (s.nodes + 1) as usize, ..s })
        },
        DomStep::Leaf => if s.depth == 0 {
            if s.has_root {
                Err(DomFault::MultipleRoots)
            } else {
                Ok(DomState { has_root: true, ..s })
            }
        } else {
            Ok(s)
        },
        DomStep::Text(blank) => if s.depth == 0 && !blank {
            Err(DomFault::TextOutsideRoot)
        } else {
            Ok(s)
        },
        DomStep::Close => if s.depth == 0 {
            Err(DomFault::UnexpectedEnd)
        } else if s.depth == 1 {
            if s.has_root {
                Err(DomFault::MultipleRoots)
            } else {
                Ok(DomState { depth: 0, has_root: true, ..s })
            }
        } else {
            Ok(DomState { depth: (s.depth - 1) as usize, ..s })
        },
        DomStep::Forbidden => Err(DomFault::Forbidden),
        DomStep::Finish => if s.depth > 0 {
            Err(DomFault::Unclosed)
        } else if !s.has_root {
            Err(DomFault::NoRoot)
        } else {
            Ok(s)
        },
    }
}

/// Takes one structural step.
pub fn dom_step(s: DomState, step: DomStep, limits: ParseLimits) -> (r: Result<DomState, DomFault>)
    requires
        s.nodes <= limits.max_nodes,
        s.depth <= limits.max_depth,
    ensures
        r == dom_next(s, step, limits),
{
    match step {
        DomStep::Open(push) => if s.nodes >= limits.max_nodes {
            Err(DomFault::TooManyNodes)
        } else if s.depth >= limits.max_depth {
            Err(DomFault::TooDeep)
        } else {
            Ok(DomState { depth: if push { s.depth + 1 } else { s.depth }, nodes: s.nodes + 1, has_root: s.has_root })
        },
        DomStep::Leaf => if s.depth == 0 {
            if s.has_root {
                Err(DomFault::MultipleRoots)
            } else {
                Ok(DomState { has_root: true, ..s })
            }
        } else {
            Ok(s)
        },
        DomStep::Text(blank) => if s.depth == 0 && !blank {
            Err(DomFault::TextOutsideRoot)
        } else {
            Ok(s)
        },
        DomStep::Close => if s.depth == 0 {
            Err(DomFault::UnexpectedEnd)
        } else if s.depth == 1 {
            if s.has_root {
                Err(DomFault::MultipleRoots)
            } else {
                Ok(DomState { depth: 0, has_root: true, nodes: s.nodes })
            }
        } else {
            Ok(DomState { depth: s.depth - 1, ..s })
        },
        DomStep::Forbidden => Err(DomFault::Forbidden),
        DomStep::Finish => if s.depth > 0 {
            Err(DomFault::Unclosed)
        } else if !s.has_root {
            Err(DomFault::NoRoot)
        } else {
            Ok(s)
        },
    }
}

/// The message of a structural fault.
fn fault_error(fault: DomFault) -> (e: Error)
    ensures
        e@.kind == ErrorKind::Xml,
{
    xml_error(
        match fault {
            DomFault::TooManyNodes => "XML element count exceeds the parse limit",
            DomFault::TooDeep => "XML nesting exceeds the parse limit",
            DomFault::MultipleRoots => "Task XML contains multiple root elements",
            DomFault::TextOutsideRoot => "text is not allowed outside the root element",
            DomFault::UnexpectedEnd => "unexpected XML end element",
            DomFault::Forbidden => "DTD declarations are not allowed",
            DomFault::Unclosed => "Task XML ended before all elements were closed",
            DomFault::NoRoot => "Task XML has no root element",
        },
    )
}

/// Whether a text is empty after trimming Unicode whitespace.
pub open spec fn blank(s: Seq<char>) -> bool {
    forall|i: int| 0 <= i < s.len() ==> is_unicode_whitespace(#[trigger] s[i])
}

fn is_blank(s: &str) -> (r: bool)
    ensures
        r == blank(s@),
{
    let chars = chars_of(s);
    let mut i: usize = 0;
    while i < chars.len()
        invariant
            i <= chars.len(),
            chars@ == s@,
            forall|k: int| 0 <= k < i ==> is_unicode_whitespace(#[trigger] chars@[k]),
        decreases chars.len() - i,
    {
        if !crate::text::is_whitespace_exec(chars[i]) {
            return false;
        }
        i += 1;
    }
    true
}

/// An element of a parsed document: its local name, its attributes by local
/// name in key order, its child elements in document order and the text
/// directly inside it.
#[derive(Debug)]
pub struct Node {
    /// Local name of the element.
    pub name: String,
    /// Attributes by local name, keys increasing.
    pub attributes: Vec<(String, String)>,
    /// Child elements in document order.
    pub children: Vec<Node>,
    /// Concatenated text and CDATA directly inside the element.
    pub text: String,
}

/// An element tree as values: local name, attributes by local name, child
/// elements in document order and the text directly inside.
pub struct TreeView {
    /// Local name.
    pub name: Seq<char>,
    /// Attributes by local name.
    pub attributes: Map<Seq<char>, Seq<char>>,
    /// Child elements in document order.
    pub children: Seq<TreeView>,
    /// Text directly inside.
    pub text: Seq<char>,
}

/// The values of an element tree.
pub open spec fn node_view(n: Node) -> TreeView
    decreases n,
{
    TreeView {
        name: n.name@,
        attributes: fields_map(fields_view(n.attributes@)),
        children: nodes_view(n.children@),
        text: n.text@,
    }
}

/// The values of a sequence of element trees.
pub open spec fn nodes_view(s: Seq<Node>) -> Seq<TreeView>
    decreases s,
{
    if s.len() == 0 {
        Seq::empty()
    } else {
        nodes_view(s.subrange(0, s.len() - 1)).push(node_view(s[s.len() - 1]))
    }
}

pub(crate) proof fn lemma_nodes_view(s: Seq<Node>)
    ensures
        nodes_view(s).len() == s.len(),
        forall|i: int| 0 <= i < s.len() ==> #[trigger] nodes_view(s)[i] == node_view(s[i]),
    decreases s.len(),
{
    if s.len() > 0 {
        lemma_nodes_view(s.subrange(0, s.len() - 1));
    }
}

proof fn lemma_nodes_view_push(s: Seq<Node>, n: Node)
    ensures
        nodes_view(s.push(n)) == nodes_view(s).push(node_view(n)),
{
    assert(s.push(n).subrange(0, s.len() as int) =~= s);
}

/// The attributes of a tag by local name, a later one with the same local
/// name winning, or `None` at the first malformed attribute or value.
pub open spec fn attribute_map(items: Seq<Result<(Seq<char>, Result<Seq<char>, Seq<char>>), Seq<char>>>) -> Option<Map<Seq<char>, Seq<char>>>
    decreases items.len(),
{
    if items.len() == 0 {
        Some(Map::empty())
    } else {
        match attribute_map(items.drop_last()) {
            Some(m) => match items.last() {
                Ok((k, Ok(v))) => Some(m.insert(local_part(k), v)),
                _ => None,
            },
            None => None,
        }
    }
}

proof fn lemma_attribute_map_stops(items: Seq<Result<(Seq<char>, Result<Seq<char>, Seq<char>>), Seq<char>>>, i: int)
    requires
        0 <= i <= items.len(),
        attribute_map(items.take(i)) is None,
    ensures
        attribute_map(items) is None,
    decreases items.len() - i,
{
    if i < items.len() {
        assert(items.take(i + 1).drop_last() =~= items.take(i));
        lemma_attribute_map_stops(items, i + 1);
    } else {
        assert(items.take(i) =~= items);
    }
}

/// Reads the attributes of a tag's attribute text by local name, failing on
/// the first malformed attribute or value; a later attribute with the same
/// local name wins.
fn read_attributes(raw: &str) -> (r: Result<Vec<(String, String)>, Error>)
    ensures
        match attribute_map(xml_attributes(raw@)) {
            Some(m) => r matches Ok(a) && keys_increasing(fields_view(a@)) && fields_map(fields_view(a@)) == m,
            None => r matches Err(e) && e@.kind == ErrorKind::Xml,
        },
{
    let items = read_attribute_items(raw);
    let ghost all = xml_attributes(raw@);
    let mut out: Vec<(String, String)> = Vec::new();
    let mut i: usize = 0;
    proof {
        assert(all.take(0) =~= Seq::empty());
        assert(fields_map(fields_view(out@)) =~= Map::empty());
    }
    while i < items.len()
        invariant
            attr_items_view(items@) == all,
            all == xml_attributes(raw@),
            i <= items@.len(),
            keys_increasing(fields_view(out@)),
            attribute_map(all.take(i as int)) == Some(fields_map(fields_view(out@))),
        decreases items.len() - i,
    {
        proof {
            assert(all.take(i + 1).drop_last() =~= all.take(i as int));
            assert(all.take(i + 1).last() == attr_item_view(items@[i as int]));
        }
        match &items[i] {
            Ok((key, Ok(value))) => {
                insert_field(&mut out, local_name(key.as_str()), value.clone());
            },
            Ok((_, Err(message))) => {
                proof {
                    assert(attribute_map(all.take(i + 1)) is None);
                    lemma_attribute_map_stops(all, i + 1);
                }
                return Err(xml_error(message.as_str()));
            },
            Err(message) => {
                proof {
                    assert(attribute_map(all.take(i + 1)) is None);
                    lemma_attribute_map_stops(all, i + 1);
                }
                return Err(xml_error(message.as_str()));
            },
        }
        i += 1;
    }
    proof {
        assert(all.take(i as int) =~= all);
    }
    Ok(out)
}

/// Whether `after` is `before` with `node` added as the last child of its
/// innermost open element.
pub open spec fn child_added(before: Seq<Node>, after: Seq<Node>, node: Node) -> bool {
    &&& after.len() == before.len()
    &&& after.drop_last() == before.drop_last()
    &&& after.last().name == before.last().name
    &&& after.last().attributes == before.last().attributes
    &&& after.last().text == before.last().text
    &&& after.last().children@ == before.last().children@.push(node)
}

/// Adds a completed element to the innermost open element, or makes it the
/// root when no element is open; `false`, with nothing changed, when a root
/// already exists.
fn attach(stack: &mut Vec<Node>, root: &mut Option<Node>, node: Node) -> (ok: bool)
    ensures
        old(stack)@.len() == 0 ==> {
            &&& ok == (*old(root) is None)
            &&& final(stack)@ == old(stack)@
            &&& *final(root) == if ok { Some(node) } else { *old(root) }
        },
        old(stack)@.len() > 0 ==> ok && *final(root) == *old(root) && child_added(old(stack)@, final(stack)@, node),
{
    if stack.len() == 0 {
        if root.is_some() {
            return false;
        }
        *root = Some(node);
        true
    } else {
        let mut top = stack.pop().unwrap();
        top.children.push(node);
        stack.push(top);
        proof {
            assert(stack@.drop_last() =~= old(stack)@.drop_last());
        }
        true
    }
}

/// Appends text to the innermost open element; text outside every element
/// is dropped.
fn append_text(stack: &mut Vec<Node>, text: &str)
    ensures
        old(stack)@.len() == 0 ==> final(stack)@ == old(stack)@,
        old(stack)@.len() > 0 ==> {
            &&& final(stack)@.len() == old(stack)@.len()
            &&& final(stack)@.drop_last() == old(stack)@.drop_last()
            &&& final(stack)@.last().name == old(stack)@.last().name
            &&& final(stack)@.last().attributes == old(stack)@.last().attributes
            &&& final(stack)@.last().children == old(stack)@.last().children
            &&& final(stack)@.last().text@ == old(stack)@.last().text@ + text@
        },
{
    if stack.len() > 0 {
        let mut top = stack.pop().unwrap();
        top.text.append(text);
        stack.push(top);
        proof {
            assert(stack@.drop_last() =~= old(stack)@.drop_last());
        }
    }
}

/// Takes a structural step, turning a fault into its error.
fn checked_step(s: DomState, step: DomStep, limits: ParseLimits) -> (r: Result<DomState, Error>)
    requires
        s.nodes <= limits.max_nodes,
        s.depth <= limits.max_depth,
    ensures
        match r {
            Ok(t) => dom_next(s, step, limits) == Ok::<DomState, DomFault>(t),
            Err(e) => dom_next(s, step, limits) is Err && e@.kind == ErrorKind::Xml,
        },
{
    match dom_step(s, step, limits) {
        Ok(t) => Ok(t),
        Err(f) => Err(fault_error(f)),
    }
}

/// What reading a document has built so far: the structural state, the
/// open elements from the outermost and the completed root.
pub struct DomRun {
    /// Structural state.
    pub state: DomState,
    /// Open elements, outermost first.
    pub stack: Seq<TreeView>,
    /// The completed root element.
    pub root: Option<TreeView>,
}

/// An element with no content yet.
pub open spec fn fresh_tree(name: Seq<char>, attributes: Map<Seq<char>, Seq<char>>) -> TreeView {
    TreeView { name: local_part(name), attributes, children: Seq::empty(), text: Seq::empty() }
}

/// A completed element added to the innermost open one, or made the root
/// when none is open and no root exists yet.
pub open spec fn tree_attach(stack: Seq<TreeView>, root: Option<TreeView>, t: TreeView) -> (Seq<TreeView>, Option<TreeView>) {
    if stack.len() == 0 {
        (stack, if root is None { Some(t) } else { root })
    } else {
        let top = stack.last();
        (stack.update(stack.len() - 1, TreeView { children: top.children.push(t), ..top }), root)
    }
}

/// Text added to the innermost open element, or dropped when none is open.
pub open spec fn tree_text(stack: Seq<TreeView>, text: Seq<char>) -> Seq<TreeView> {
    if stack.len() == 0 {
        stack
    } else {
        let top = stack.last();
        stack.update(stack.len() - 1, TreeView { text: top.text + text, ..top })
    }
}

/// Decoded text added as character data: refused outside the root unless
/// blank.
pub open spec fn dom_text(r: DomRun, decoded: Option<Seq<char>>, limits: ParseLimits) -> Option<DomRun> {
    match decoded {
        Some(d) => match dom_next(r.state, DomStep::Text(blank(d)), limits) {
            Ok(s) => Some(DomRun { state: s, stack: tree_text(r.stack, d), root: r.root }),
            Err(_) => None,
        },
        None => None,
    }
}

/// One reader event applied to what was built: tags open and complete
/// elements, escaped text and references are decoded, CDATA is kept as it
/// is, and a document type declaration or a reader error stops the read.
pub open spec fn dom_token(r: DomRun, t: TokenView, limits: ParseLimits) -> Option<DomRun> {
    match t {
        TokenView::Start(c) => match dom_next(r.state, DomStep::Open(true), limits) {
            Ok(s) => match attribute_map(xml_attributes(tag_rest(c))) {
                Some(m) => Some(DomRun { state: s, stack: r.stack.push(fresh_tree(tag_name(c), m)), root: r.root }),
                None => None,
            },
            Err(_) => None,
        },
        TokenView::Empty(c) => match dom_next(r.state, DomStep::Open(false), limits) {
            Ok(s1) => match attribute_map(xml_attributes(tag_rest(c))) {
                Some(m) => match dom_next(s1, DomStep::Leaf, limits) {
                    Ok(s2) => {
                        let (stack, root) = tree_attach(r.stack, r.root, fresh_tree(tag_name(c), m));
                        Some(DomRun { state: s2, stack, root })
                    },
                    Err(_) => None,
                },
                None => None,
            },
            Err(_) => None,
        },
        TokenView::Text(raw) => dom_text(r, xml_unescaped(raw), limits),
        TokenView::Reference(x) => dom_text(r, xml_unescaped("&"@ + x + ";"@), limits),
        TokenView::CData(c) => Some(DomRun { state: r.state, stack: tree_text(r.stack, c), root: r.root }),
        TokenView::End => match dom_next(r.state, DomStep::Close, limits) {
            Ok(s) => {
                let (stack, root) = tree_attach(r.stack.drop_last(), r.root, r.stack.last());
                Some(DomRun { state: s, stack, root })
            },
            Err(_) => None,
        },
        TokenView::Forbidden => None,
        TokenView::Ignored => Some(r),
        TokenView::Failed(_) => None,
    }
}

/// Reader events applied in order from an empty document.
pub open spec fn dom_tokens(ts: Seq<TokenView>, limits: ParseLimits) -> Option<DomRun>
    decreases ts.len(),
{
    if ts.len() == 0 {
        Some(DomRun { state: DomState { depth: 0, nodes: 0, has_root: false }, stack: Seq::empty(), root: None })
    } else {
        match dom_tokens(ts.drop_last(), limits) {
            Some(r) => dom_token(r, ts.last(), limits),
            None => None,
        }
    }
}

proof fn lemma_dom_tokens_stop(ts: Seq<TokenView>, limits: ParseLimits, i: int)
    requires
        0 <= i <= ts.len(),
        dom_tokens(ts.take(i), limits) is None,
    ensures
        dom_tokens(ts, limits) is None,
    decreases ts.len() - i,
{
    if i < ts.len() {
        assert(ts.take(i + 1).drop_last() =~= ts.take(i));
        lemma_dom_tokens_stop(ts, limits, i + 1);
    } else {
        assert(ts.take(i) =~= ts);
    }
}

/// The element tree of a decoded document: within the size limit, every
/// reader event read without fault, and then every element closed and one
/// root completed.
pub open spec fn dom_outcome(text: Seq<char>, limits: ParseLimits) -> Option<TreeView> {
    if vstd::utf8::encode_utf8(text).len() > limits.max_bytes {
        None
    } else {
        match dom_tokens(xml_tokens(text), limits) {
            Some(r) => if dom_next(r.state, DomStep::Finish, limits) is Ok {
                r.root
            } else {
                None
            },
            None => None,
        }
    }
}

proof fn lemma_attach_view(before: Seq<Node>, after: Seq<Node>, r0: Option<Node>, r1: Option<Node>, node: Node)
    requires
        before.len() == 0 ==> after == before && r1 == (if r0 is None { Some(node) } else { r0 }),
        before.len() > 0 ==> r1 == r0 && child_added(before, after, node),
    ensures
        tree_attach(nodes_view(before), opt_node_view(r0), node_view(node)) == (nodes_view(after), opt_node_view(r1)),
{
    lemma_nodes_view(before);
    lemma_nodes_view(after);
    if before.len() > 0 {
        let last = before.len() - 1;
        let top = before[last];
        let top2 = after[last];
        lemma_nodes_view_push(top.children@, node);
        assert(top2.children@ == top.children@.push(node));
        let vt = node_view(top);
        let expected = nodes_view(before).update(last, TreeView { children: vt.children.push(node_view(node)), ..vt });
        assert forall|j: int| 0 <= j < after.len() implies #[trigger] nodes_view(after)[j] == expected[j] by {
            if j < last {
                assert(after.drop_last()[j] == before.drop_last()[j]);
            }
        }
        assert(nodes_view(after) =~= expected);
    }
}

proof fn lemma_text_view(before: Seq<Node>, after: Seq<Node>, text: Seq<char>)
    requires
        before.len() == 0 ==> after == before,
        before.len() > 0 ==> {
            &&& after.len() == before.len()
            &&& after.drop_last() == before.drop_last()
            &&& after.last().name == before.last().name
            &&& after.last().attributes == before.last().attributes
            &&& after.last().children == before.last().children
            &&& after.last().text@ == before.last().text@ + text
        },
    ensures
        nodes_view(after) == tree_text(nodes_view(before), text),
{
    lemma_nodes_view(before);
    lemma_nodes_view(after);
    if before.len() > 0 {
        let last = before.len() - 1;
        let vt = node_view(before[last]);
        let expected = nodes_view(before).update(last, TreeView { text: vt.text + text, ..vt });
        assert forall|j: int| 0 <= j < after.len() implies #[trigger] nodes_view(after)[j] == expected[j] by {
            if j < last {
                assert(after.drop_last()[j] == before.drop_last()[j]);
            }
        }
        assert(nodes_view(after) =~= expected);
    }
}

/// Adds decoded character data, refused outside the root unless blank.
fn dom_add_text(decoded: &str, state: &mut DomState, stack: &mut Vec<Node>, limits: ParseLimits) -> (r: Result<(), Error>)
    requires
        old(state).nodes <= limits.max_nodes,
        old(state).depth <= limits.max_depth,
        old(state).depth == old(stack)@.len(),
    ensures
        match dom_next(*old(state), DomStep::Text(blank(decoded@)), limits) {
            Ok(s) => r is Ok && *final(state) == s && nodes_view(final(stack)@) == tree_text(nodes_view(old(stack)@), decoded@),
            Err(_) => r matches Err(e) && e@.kind == ErrorKind::Xml,
        },
        final(state).nodes <= limits.max_nodes,
        final(state).depth <= limits.max_depth,
        final(state).depth == final(stack)@.len(),
        final(state).has_root == old(state).has_root,
{
    *state = checked_step(*state, DomStep::Text(is_blank(decoded)), limits)?;
    let ghost before = stack@;
    append_text(stack, decoded);
    proof {
        lemma_text_view(before, stack@, decoded@);
    }
    Ok(())
}

/// Applies one reader event to the tree being built.
fn dom_read(token: &RawToken, state: &mut DomState, stack: &mut Vec<Node>, root: &mut Option<Node>, limits: ParseLimits) -> (r: Result<(), Error>)
    requires
        old(state).nodes <= limits.max_nodes,
        old(state).depth <= limits.max_depth,
        old(state).depth == old(stack)@.len(),
        old(state).has_root <==> (*old(root) is Some),
    ensures
        match dom_token(DomRun { state: *old(state), stack: nodes_view(old(stack)@), root: opt_node_view(*old(root)) }, token@, limits) {
            Some(n) => r is Ok && n == (DomRun { state: *final(state), stack: nodes_view(final(stack)@), root: opt_node_view(*final(root)) }),
            None => r matches Err(e) && e@.kind == ErrorKind::Xml,
        },
        r is Ok ==> {
            &&& final(state).nodes <= limits.max_nodes
            &&& final(state).depth <= limits.max_depth
            &&& final(state).depth == final(stack)@.len()
            &&& final(state).has_root <==> (*final(root) is Some)
        },
{
    match token {
        RawToken::Open(content) => {
            let (qname, raw) = split_tag(content.as_str());
            *state = checked_step(*state, DomStep::Open(true), limits)?;
            let attributes = read_attributes(raw.as_str())?;
            let name = local_name(qname.as_str());
            let node = Node { name, attributes, children: Vec::new(), text: String::new() };
            proof {
                lemma_nodes_view_push(stack@, node);
                assert(nodes_view(node.children@) =~= Seq::<TreeView>::empty());
            }
            stack.push(node);
            Ok(())
        },
        RawToken::Leaf(content) => {
            let (qname, raw) = split_tag(content.as_str());
            *state = checked_step(*state, DomStep::Open(false), limits)?;
            let attributes = read_attributes(raw.as_str())?;
            let name = local_name(qname.as_str());
            *state = checked_step(*state, DomStep::Leaf, limits)?;
            let node = Node { name, attributes, children: Vec::new(), text: String::new() };
            proof {
                assert(nodes_view(node.children@) =~= Seq::<TreeView>::empty());
            }
            let ghost (s0, r0) = (stack@, *root);
            let _ = attach(stack, root, node);
            proof {
                lemma_attach_view(s0, stack@, r0, *root, node);
            }
            Ok(())
        },
        RawToken::Chars(t) => {
            let decoded = match unescape(t.as_str()) {
                Ok(decoded) => decoded,
                Err(message) => {
                    return Err(xml_error(message.as_str()));
                },
            };
            dom_add_text(decoded.as_str(), state, stack, limits)
        },
        RawToken::Section(t) => {
            let ghost before = stack@;
            append_text(stack, t.as_str());
            proof {
                lemma_text_view(before, stack@, t@);
            }
            Ok(())
        },
        RawToken::Entity(x) => {
            let mut raw = "&".to_owned();
            raw.append(x.as_str());
            raw.append(";");
            let decoded = match unescape(raw.as_str()) {
                Ok(decoded) => decoded,
                Err(message) => {
                    return Err(xml_error(message.as_str()));
                },
            };
            dom_add_text(decoded.as_str(), state, stack, limits)
        },
        RawToken::Close => {
            *state = checked_step(*state, DomStep::Close, limits)?;
            let ghost s0 = stack@;
            let node = stack.pop().unwrap();
            proof {
                lemma_nodes_view(s0);
                assert(s0.subrange(0, s0.len() - 1) =~= stack@);
                assert(nodes_view(s0).drop_last() =~= nodes_view(stack@));
            }
            let ghost (s1, r0) = (stack@, *root);
            let _ = attach(stack, root, node);
            proof {
                lemma_attach_view(s1, stack@, r0, *root, node);
            }
            Ok(())
        },
        RawToken::Doctype => Err(fault_error(DomFault::Forbidden)),
        RawToken::Skipped => Ok(()),
        RawToken::Failed(message) => Err(xml_error(message.as_str())),
    }
}

/// The view of an optional element tree.
pub open spec fn opt_node_view(n: Option<Node>) -> Option<TreeView> {
    match n {
        Some(x) => Some(node_view(x)),
        None => None,
    }
}

/// Parses a decoded document into its element tree: no document type, only
/// predefined entity and character references, one root element, no text
/// outside it, and the size, depth and element-count limits.
pub(crate) fn parse_dom(text: &str, limits: ParseLimits) -> (r: Result<Node, Error>)
    ensures
        match dom_outcome(text@, limits) {
            Some(t) => r matches Ok(n) && node_view(n) == t,
            None => r matches Err(e) && e@.kind == ErrorKind::Xml,
        },
{
    let size = text.as_bytes().len();
    if size > limits.max_bytes {
        let mut m = "decoded XML exceeds the ".to_owned();
        m.append(crate::text::u64_to_string(limits.max_bytes as u64).as_str());
        m.append("-byte parse limit");
        return Err(xml_error(m.as_str()));
    }
    let tokens = read_tokens(text);
    let ghost ts = xml_tokens(text@);
    let mut state = DomState { depth: 0, nodes: 0, has_root: false };
    let mut stack: Vec<Node> = Vec::new();
    let mut root: Option<Node> = None;
    let mut i: usize = 0;
    proof {
        assert(ts.take(0) =~= Seq::<TokenView>::empty());
        assert(nodes_view(stack@) =~= Seq::<TreeView>::empty());
    }
    while i < tokens.len()
        invariant
            tokens_view(tokens@) == ts,
            ts == xml_tokens(text@),
            i <= tokens@.len(),
            state.nodes <= limits.max_nodes,
            state.depth <= limits.max_depth,
            state.depth == stack@.len(),
            state.has_root <==> root is Some,
            size as int == vstd::utf8::encode_utf8(text@).len(),
            size <= limits.max_bytes,
            dom_tokens(ts.take(i as int), limits) == Some(
                DomRun { state, stack: nodes_view(stack@), root: opt_node_view(root) },
            ),
        decreases tokens.len() - i,
    {
        let ghost before = DomRun { state, stack: nodes_view(stack@), root: opt_node_view(root) };
        proof {
            assert(ts.take(i + 1).drop_last() =~= ts.take(i as int));
            assert(ts.take(i + 1).last() == tokens@[i as int]@);
            lemma_nodes_view(stack@);
        }
        match dom_read(&tokens[i], &mut state, &mut stack, &mut root, limits) {
            Ok(()) => {},
            Err(e) => {
                proof {
                    lemma_dom_tokens_stop(ts, limits, i + 1);
                }
                return Err(e);
            },
        }
        i += 1;
    }
    proof {
        assert(ts.take(i as int) =~= ts);
    }
    let _ = checked_step(state, DomStep::Finish, limits)?;
    Ok(root.unwrap())
}

/// Original Task XML bytes retained without normalization.
#[derive(Debug, Eq, PartialEq)]
pub struct RawTaskXml {
    bytes: Vec<u8>,
    encoding: XmlEncoding,
}

impl View for RawTaskXml {
    type V = (Seq<u8>, XmlEncoding);

    closed spec fn view(&self) -> (Seq<u8>, XmlEncoding) {
        (self.bytes@, self.encoding)
    }
}

impl Clone for RawTaskXml {
    fn clone(&self) -> (c: Self)
        ensures
            c@ == self@,
    {
        proof {
            use_type_invariant(self);
        }
        RawTaskXml { bytes: vstd::slice::slice_to_vec(self.bytes.as_slice()), encoding: self.encoding }
    }
}

/// The default parse limits.
pub open spec fn default_limits() -> ParseLimits {
    ParseLimits { max_bytes: DEFAULT_MAX_BYTES, max_depth: DEFAULT_MAX_DEPTH, max_nodes: DEFAULT_MAX_NODES }
}

/// The element tree of a document's decoded text, when it decodes and its
/// text parses within the limits.
pub open spec fn text_tree(bytes: Seq<u8>, limits: ParseLimits) -> Option<TreeView> {
    match decoded_text(bytes) {
        Some((_, t)) => dom_outcome(t, limits),
        None => None,
    }
}

/// The element tree of a raw document: its bytes within the size limit, and
/// then the tree of its decoded text.
pub open spec fn document_tree(bytes: Seq<u8>, limits: ParseLimits) -> Option<TreeView> {
    if bytes.len() > limits.max_bytes {
        None
    } else {
        text_tree(bytes, limits)
    }
}

/// Whether `r` is what reading the definition of the element tree `t` gives:
/// a definition read from a tree with those values, or the reader's error
/// when such a tree is at fault.
pub open spec fn definition_outcome(t: TreeView, r: Result<TaskDefinition, Error>) -> bool {
    match r {
        Ok(d) => exists|root: Node| node_view(root) == t && !definition_fault(root) && #[trigger] definition_read(root, d),
        Err(e) => e@.kind == ErrorKind::Xml && exists|root: Node| node_view(root) == t && #[trigger] definition_fault(root),
    }
}

impl RawTaskXml {
    #[verifier::type_invariant]
    spec fn decodable(self) -> bool {
        decoded_text(self.bytes@) matches Some((e, _)) && e == self.encoding
    }

    /// Validates and retains a raw Task XML document using default limits.
    pub fn new(bytes: Vec<u8>) -> (r: Result<Self, Error>)
        ensures
            match document_tree(bytes@, default_limits()) {
                Some(_) => r matches Ok(x) && x@.0 == bytes@ && (decoded_text(bytes@) matches Some((e, _)) && x@.1 == e),
                None => r matches Err(e) && e@.kind == ErrorKind::Xml,
            },
    {
        RawTaskXml::with_limits(bytes, ParseLimits::default())
    }

    /// Validates and retains a raw Task XML document with caller limits.
    pub fn with_limits(bytes: Vec<u8>, limits: ParseLimits) -> (r: Result<Self, Error>)
        ensures
            match document_tree(bytes@, limits) {
                Some(_) => r matches Ok(x) && x@.0 == bytes@ && (decoded_text(bytes@) matches Some((e, _)) && x@.1 == e),
                None => r matches Err(e) && e@.kind == ErrorKind::Xml,
            },
    {
        let (encoding, decoded) = decode_xml(bytes.as_slice(), limits.max_bytes)?;
        let _root = parse_dom(decoded.as_str(), limits)?;
        Ok(RawTaskXml { bytes, encoding })
    }

    /// Returns original bytes exactly as supplied.
    pub fn as_bytes(&self) -> (b: &[u8])
        ensures
            b@ == self@.0,
    {
        self.bytes.as_slice()
    }

    /// Returns the detected encoding.
    pub fn encoding(&self) -> (e: XmlEncoding)
        ensures
            e == self@.1,
    {
        self.encoding
    }

    /// Decodes the document without changing it.
    pub fn decoded(&self) -> (r: Result<String, Error>)
        ensures
            r matches Ok(t) && decoded_text(self@.0) == Some((self@.1, t@)),
    {
        proof {
            use_type_invariant(self);
        }
        match decode_xml(self.bytes.as_slice(), usize::MAX) {
            Ok((_, text)) => Ok(text),
            Err(e) => Err(e),
        }
    }
}

/// Length of the UTF-8 encoding of a text.
pub open spec fn encode_utf8_len(t: Seq<char>) -> nat {
    vstd::utf8::encode_utf8(t).len()
}


impl RawTaskXml {
    /// Parses a complete typed definition using default limits: the
    /// definition that the document's element tree holds.
    pub fn definition(&self) -> (r: Result<TaskDefinition, Error>)
        ensures
            match text_tree(self@.0, default_limits()) {
                Some(t) => definition_outcome(t, r),
                None => r matches Err(e) && e@.kind == ErrorKind::Xml,
            },
    {
        let decoded = self.decoded()?;
        let root = parse_dom(decoded.as_str(), ParseLimits::default())?;
        match crate::xml_read::definition_from_node(&root) {
            Ok(d) => {
                proof {
                    assert(definition_read(root, d));
                }
                Ok(d)
            },
            Err(e) => {
                proof {
                    assert(definition_fault(root));
                }
                Err(e)
            },
        }
    }
}

/// A document whose raw bytes are always kept, with its typed definition
/// or the reason it could not be read.
#[derive(Debug)]
pub struct TaskSnapshot {
    raw: RawTaskXml,
    typed: Result<TaskDefinition, Error>,
}

impl Clone for TaskSnapshot {
    fn clone(&self) -> (c: Self)
        ensures
            c.raw_view() == self.raw_view(),
            c.typed() is Ok <==> self.typed() is Ok,
    {
        TaskSnapshot {
            raw: self.raw.clone(),
            typed: match &self.typed {
                Ok(d) => Ok(d.clone()),
                Err(e) => Err(e.clone()),
            },
        }
    }
}

impl TaskSnapshot {
    /// The raw document's bytes and encoding.
    pub closed spec fn raw_view(&self) -> (Seq<u8>, XmlEncoding) {
        self.raw@
    }

    /// The typed definition or the error of reading it.
    pub closed spec fn typed(&self) -> Result<TaskDefinition, Error> {
        self.typed
    }

    /// Parses a snapshot while retaining its original representation.
    pub fn parse(bytes: Vec<u8>) -> (r: Result<Self, Error>)
        ensures
            match r {
                Ok(s) => {
                    &&& s.raw_view().0 == bytes@
                    &&& decoded_text(bytes@) matches Some((e, _)) && s.raw_view().1 == e
                    &&& document_tree(bytes@, default_limits()) matches Some(t) && definition_outcome(t, s.typed())
                },
                Err(e) => e@.kind == ErrorKind::Xml && document_tree(bytes@, default_limits()) is None,
            },
            document_tree(bytes@, default_limits()) is None ==> r is Err,
    {
        let raw = RawTaskXml::new(bytes)?;
        let typed = raw.definition();
        Ok(TaskSnapshot { raw, typed })
    }

    /// Returns the exact original XML.
    pub fn raw(&self) -> (r: &RawTaskXml)
        ensures
            r@ == self.raw_view(),
    {
        &self.raw
    }

    /// Returns the typed definition or its read error.
    pub fn definition(&self) -> (r: Result<&TaskDefinition, Error>)
        ensures
            match (r, self.typed()) {
                (Ok(d), Ok(t)) => *d == t,
                (Err(e), Err(t)) => e@ == t@,
                _ => false,
            },
    {
        match &self.typed {
            Ok(d) => Ok(d),
            Err(e) => Err(e.clone()),
        }
    }

    /// Consumes the snapshot and returns the typed result.
    pub fn into_definition(self) -> (r: Result<TaskDefinition, Error>)
        ensures
            r == self.typed(),
    {
        self.typed
    }
}

/// Parses UTF-8 or UTF-16 Task XML to the complete typed model.
pub fn from_bytes(bytes: &[u8]) -> (r: Result<TaskDefinition, Error>)
    ensures
        match document_tree(bytes@, default_limits()) {
            Some(t) => definition_outcome(t, r),
            None => r matches Err(e) && e@.kind == ErrorKind::Xml,
        },
{
    let raw = RawTaskXml::new(vstd::slice::slice_to_vec(bytes))?;
    raw.definition()
}

/// Whether an error refuses an invalid definition: its kind, and the
/// definition's validation findings.
pub open spec fn refuses_invalid(e: Error, definition: TaskDefinition) -> bool {
    &&& e@.kind == ErrorKind::InvalidDefinition
    &&& crate::validation::diags_view(e@.diagnostics) == crate::validation::definition_findings(definition)
}

fn encoded_string(definition: &TaskDefinition, encoding: &str) -> (r: Result<String, Error>)
    ensures
        match r {
            Ok(s) => definition_valid(*definition) && s@ == definition_markup(*definition, encoding@),
            Err(e) => !definition_valid(*definition) && refuses_invalid(e, *definition),
        },
{
    let (valid, report) = crate::xml_write::checked_findings(definition);
    if !valid {
        return Err(
            Error::new(ErrorKind::InvalidDefinition, "cannot serialize an invalid task definition").with_validation(
                report,
            ),
        );
    }
    Ok(crate::xml_write::write_definition(definition, encoding))
}

/// Writes canonical UTF-8 Task XML with an XML declaration; an invalid
/// definition is refused.
pub fn to_string(definition: &TaskDefinition) -> (r: Result<String, Error>)
    ensures
        match r {
            Ok(s) => definition_valid(*definition) && s@ == definition_markup(*definition, "UTF-8"@),
            Err(e) => !definition_valid(*definition) && refuses_invalid(e, *definition),
        },
{
    encoded_string(definition, "UTF-8")
}

/// Writes canonical UTF-16LE Task XML with a byte order mark for native
/// registration; an invalid definition is refused.
#[verifier::rlimit(40)]
pub fn to_utf16le(definition: &TaskDefinition) -> (r: Result<Vec<u8>, Error>)
    ensures
        match r {
            Ok(b) => definition_valid(*definition) && b@ == seq![0xFFu8, 0xFEu8] + le_bytes(
                utf16_encode(definition_markup(*definition, "UTF-16"@)),
            ),
            Err(e) => !definition_valid(*definition) && refuses_invalid(e, *definition),
        },
{
    let text = encoded_string(definition, "UTF-16")?;
    let mut output: Vec<u8> = Vec::new();
    output.push(0xFF);
    output.push(0xFE);
    let mut body = crate::xml_write::utf16le(text.as_str());
    let ghost b = body@;
    output.append(&mut body);
    proof {
        assert(output@ =~= seq![0xFFu8, 0xFEu8] + b);
    }
    Ok(output)
}

/// The position just past the first `?>` at or after `from`, if any.
pub open spec fn close_after(t: Seq<char>, from: int) -> Option<int>
    decreases t.len() - from,
{
    if from < 0 || from + 1 >= t.len() {
        None
    } else if t[from] == '?' && t[from + 1] == '>' {
        Some(from + 2)
    } else {
        close_after(t, from + 1)
    }
}

/// A text without its leading XML declaration: what follows the first `?>`
/// after a leading `<?xml`; the text itself when it has none.
pub open spec fn without_declaration_spec(t: Seq<char>) -> Seq<char> {
    if t.len() >= 5 && t.take(5) == seq!['<', '?', 'x', 'm', 'l'] {
        match close_after(t, 5) {
            Some(end) => t.skip(end),
            None => t,
        }
    } else {
        t
    }
}

/// Removes an optional XML declaration before text is passed through a
/// UTF-16 `BSTR`: the COM API already carries decoded characters, and a
/// byte encoding declaration can make Task Scheduler reject the XML.
pub fn without_declaration(text: &str) -> (r: String)
    ensures
        r@ == without_declaration_spec(text@),
{
    let c = chars_of(text);
    let n = c.len();
    if n >= 5 && c[0] == '<' && c[1] == '?' && c[2] == 'x' && c[3] == 'm' && c[4] == 'l' {
        proof {
            assert(c@.take(5) =~= seq!['<', '?', 'x', 'm', 'l']);
        }
        let mut i: usize = 5;
        while i < n - 1
            invariant
                5 <= i <= n,
                n == c@.len(),
                c@ == text@,
                c@.take(5) == seq!['<', '?', 'x', 'm', 'l'],
                close_after(c@, 5) == close_after(c@, i as int),
            decreases n - i,
        {
            if c[i] == '?' && c[i + 1] == '>' {
                let rest = crate::text::slice_from(c.as_slice(), i + 2);
                proof {
                    assert(rest@ =~= c@.skip(i + 2));
                }
                return crate::text::string_of(rest);
            }
            i += 1;
        }
        text.to_owned()
    } else {
        proof {
            if n >= 5 {
                assert(c@.take(5)[0] == c@[0] && c@.take(5)[1] == c@[1] && c@.take(5)[2] == c@[2]
                    && c@.take(5)[3] == c@[3] && c@.take(5)[4] == c@[4]);
            }
        }
        text.to_owned()
    }
}

} // verus!

