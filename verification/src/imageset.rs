//! PAL4 portrait imagesets: XML files that name one image file and cut it
//! into named rectangles. This module reads the portrait rectangles out
//! of an imageset's XML tree.
use vstd::prelude::*;

use crate::pal5_script::{decode_utf8_lossy, parse_u32, u32_of_text, utf8_lossy};
use crate::text::{chars_of, push_char, spec_lowercase, str_eq, string_of, to_lowercase};

verus! {

/// An XML node as plain values: whether it is an element, its tag's local
/// name, and its attributes as `(local name, value)` in document order.
pub struct XmlNode {
    pub is_element: bool,
    pub tag: String,
    pub attributes: Vec<(String, String)>,
}

pub struct XmlNodeView {
    pub is_element: bool,
    pub tag: Seq<char>,
    pub attributes: Seq<(Seq<char>, Seq<char>)>,
}

impl View for XmlNode {
    type V = XmlNodeView;

    open spec fn view(&self) -> XmlNodeView {
        XmlNodeView {
            is_element: self.is_element,
            tag: self.tag@,
            attributes: self.attributes@.map_values(|a: (String, String)| (a.0@, a.1@)),
        }
    }
}

/// What `roxmltree::Document::parse` makes of `content`: its root element
/// and the root's children, or the text of the parse error.
pub uninterp spec fn xml_root(content: Seq<char>) -> Result<(XmlNodeView, Seq<XmlNodeView>), Seq<char>>;

/// The plain view of a parse result.
pub open spec fn xml_result_view(r: Result<(XmlNode, Vec<XmlNode>), String>) -> Result<(XmlNodeView, Seq<XmlNodeView>), Seq<char>> {
    match r {
        Ok(p) => Ok((p.0@, p.1@.map_values(|n: XmlNode| n@))),
        Err(e) => Err(e@),
    }
}

/// Parses XML text with `roxmltree::Document::parse` and returns the root
/// element and its children as plain values (the error as its text).
#[verifier::external_body]
fn parse_xml_root(content: &str) -> (r: Result<(XmlNode, Vec<XmlNode>), String>)
    ensures
        xml_root(content@) == xml_result_view(r),
{
    let node = |n: roxmltree::Node| XmlNode {
        is_element: n.is_element(),
        tag: n.tag_name().name().to_string(),
        attributes: n.attributes().map(|a| (a.name().to_string(), a.value().to_string())).collect(),
    };
    match roxmltree::Document::parse(content) {
        Ok(doc) => Ok((node(doc.root_element()), doc.root_element().children().map(node).collect())),
        Err(e) => Err(e.to_string()),
    }
}

/// The value of the first attribute with local name `key`
/// (`roxmltree::Node::attribute` with a plain name).
pub open spec fn attr_value(attrs: Seq<(Seq<char>, Seq<char>)>, key: Seq<char>) -> Option<Seq<char>>
    decreases attrs.len(),
{
    if attrs.len() == 0 {
        None
    } else if attrs[0].0 == key {
        Some(attrs[0].1)
    } else {
        attr_value(attrs.drop_first(), key)
    }
}

fn find_attr(attrs: &Vec<(String, String)>, key: &str) -> (r: Option<usize>)
    ensures
        r matches Some(i) ==> i < attrs.len() && attr_value(attrs@.map_values(|a: (String, String)| (a.0@, a.1@)), key@)
            == Some(attrs@[i as int].1@),
        r is None ==> attr_value(attrs@.map_values(|a: (String, String)| (a.0@, a.1@)), key@) is None,
{
    let ghost s = attrs@.map_values(|a: (String, String)| (a.0@, a.1@));
    proof {
        assert(s.subrange(0, s.len() as int) =~= s);
    }
    let mut i: usize = 0;
    while i < attrs.len()
        invariant
            i <= attrs.len(),
            s == attrs@.map_values(|a: (String, String)| (a.0@, a.1@)),
            attr_value(s, key@) == attr_value(s.subrange(i as int, s.len() as int), key@),
        decreases attrs.len() - i,
    {
        let ghost rest = s.subrange(i as int, s.len() as int);
        if str_eq(attrs[i].0.as_str(), key) {
            return Some(i);
        }
        proof {
            assert(rest.drop_first() =~= s.subrange(i + 1, s.len() as int));
        }
        i = i + 1;
    }
    None
}

/// A portrait rectangle of an imageset.
#[derive(Debug, Clone)]
pub struct PortraitRect {
    /// The portrait's name, lowercased.
    pub name: String,
    pub x: u32,
    pub y: u32,
    pub width: u32,
    pub height: u32,
}

/// Why an `Image` node gives no portrait.
#[derive(Debug, Clone, Copy, PartialEq, Eq, Structural)]
pub enum PortraitField {
    Name,
    XPos,
    YPos,
    Width,
    Height,
}

#[derive(Debug, Clone, Copy, PartialEq, Eq, Structural)]
pub enum PortraitNodeError {
    /// The node lacks the attribute.
    Missing(PortraitField),
    /// The attribute is not a `u32`.
    NotANumber(PortraitField),
}

/// An imageset: the image file that all rectangles cut, and one outcome
/// per `Image` element child of the root, in order.
pub struct Imageset {
    pub image_file: String,
    pub images: Vec<Result<PortraitRect, PortraitNodeError>>,
}

#[derive(Debug)]
pub enum ImagesetError {
    /// The XML does not parse; the parser's message.
    Xml(String),
    /// The root element has no `Imagefile` attribute.
    MissingImagefile,
}

/// An image path with backslashes turned into slashes and a leading slash
/// added when there is none.
pub open spec fn normalize_image_path(p: Seq<char>) -> Seq<char> {
    let q = p.map_values(|c: char| if c == '\\' { '/' } else { c });
    if q.len() > 0 && q[0] == '/' {
        q
    } else {
        seq!['/'] + q
    }
}

pub open spec fn numeric_field(attrs: Seq<(Seq<char>, Seq<char>)>, key: Seq<char>, field: PortraitField) -> Result<
    u32,
    PortraitNodeError,
> {
    match attr_value(attrs, key) {
        None => Err(PortraitNodeError::Missing(field)),
        Some(v) => match u32_of_text(v) {
            Some(n) => Ok(n),
            None => Err(PortraitNodeError::NotANumber(field)),
        },
    }
}

/// The portrait an `Image` node describes, as `(name, x, y, width, height)`:
/// its attributes are read in that order and the first missing or
/// malformed one decides the error.
pub open spec fn portrait_of(attrs: Seq<(Seq<char>, Seq<char>)>) -> Result<(Seq<char>, u32, u32, u32, u32), PortraitNodeError> {
    match attr_value(attrs, "Name"@) {
        None => Err(PortraitNodeError::Missing(PortraitField::Name)),
        Some(name) => match numeric_field(attrs, "XPos"@, PortraitField::XPos) {
            Err(e) => Err(e),
            Ok(x) => match numeric_field(attrs, "YPos"@, PortraitField::YPos) {
                Err(e) => Err(e),
                Ok(y) => match numeric_field(attrs, "Width"@, PortraitField::Width) {
                    Err(e) => Err(e),
                    Ok(w) => match numeric_field(attrs, "Height"@, PortraitField::Height) {
                        Err(e) => Err(e),
                        Ok(h) => Ok((spec_lowercase(name), x, y, w, h)),
                    },
                },
            },
        },
    }
}

pub open spec fn rect_view(r: Result<PortraitRect, PortraitNodeError>) -> Result<(Seq<char>, u32, u32, u32, u32), PortraitNodeError> {
    match r {
        Ok(p) => Ok((p.name@, p.x, p.y, p.width, p.height)),
        Err(e) => Err(e),
    }
}

pub open spec fn is_image_node(n: XmlNodeView) -> bool {
    n.is_element && n.tag == "Image"@
}

/// The outcomes of the `Image` element children, in order.
pub open spec fn image_outcomes(children: Seq<XmlNodeView>) -> Seq<Result<(Seq<char>, u32, u32, u32, u32), PortraitNodeError>>
    decreases children.len(),
{
    if children.len() == 0 {
        Seq::empty()
    } else {
        let rest = image_outcomes(children.drop_last());
        if is_image_node(children.last()) {
            rest.push(portrait_of(children.last().attributes))
        } else {
            rest
        }
    }
}

fn read_numeric(attrs: &Vec<(String, String)>, key: &str, field: PortraitField) -> (r: Result<u32, PortraitNodeError>)
    ensures
        r == numeric_field(attrs@.map_values(|a: (String, String)| (a.0@, a.1@)), key@, field),
{
    match find_attr(attrs, key) {
        None => Err(PortraitNodeError::Missing(field)),
        Some(i) => {
            let v = chars_of(attrs[i].1.as_str());
            let n = v.len();
            proof {
                assert(v@.subrange(0, n as int) =~= attrs@[i as int].1@);
            }
            match parse_u32(&v, 0, n) {
                Some(x) => Ok(x),
                None => Err(PortraitNodeError::NotANumber(field)),
            }
        },
    }
}

fn read_portrait(node: &XmlNode) -> (r: Result<PortraitRect, PortraitNodeError>)
    ensures
        rect_view(r) == portrait_of(node@.attributes),
{
    let attrs = &node.attributes;
    let name = match find_attr(attrs, "Name") {
        None => {
            return Err(PortraitNodeError::Missing(PortraitField::Name));
        },
        Some(i) => to_lowercase(attrs[i].1.as_str()),
    };
    let x = match read_numeric(attrs, "XPos", PortraitField::XPos) {
        Ok(v) => v,
        Err(e) => {
            return Err(e);
        },
    };
    let y = match read_numeric(attrs, "YPos", PortraitField::YPos) {
        Ok(v) => v,
        Err(e) => {
            return Err(e);
        },
    };
    let width = match read_numeric(attrs, "Width", PortraitField::Width) {
        Ok(v) => v,
        Err(e) => {
            return Err(e);
        },
    };
    let height = match read_numeric(attrs, "Height", PortraitField::Height) {
        Ok(v) => v,
        Err(e) => {
            return Err(e);
        },
    };
    Ok(PortraitRect { name, x, y, width, height })
}

/// The image path, normalized.
fn normalize_path(p: &str) -> (r: String)
    ensures
        r@ == normalize_image_path(p@),
{
    let v = chars_of(p);
    let mut q: Vec<char> = Vec::new();
    let mut i: usize = 0;
    while i < v.len()
        invariant
            i <= v.len(),
            v@ == p@,
            q@ == v@.take(i as int).map_values(|c: char| if c == '\\' { '/' } else { c }),
        decreases v.len() - i,
    {
        let c = if v[i] == '\\' {
            '/'
        } else {
            v[i]
        };
        q.push(c);
        proof {
            assert(v@.take(i + 1).map_values(|c: char| if c == '\\' { '/' } else { c }) =~= v@.take(
                i as int,
            ).map_values(|c: char| if c == '\\' { '/' } else { c }).push(c));
        }
        i = i + 1;
    }
    proof {
        assert(v@.take(v.len() as int) =~= v@);
    }
    if q.len() > 0 && q[0] == '/' {
        string_of(&q)
    } else {
        let mut s = String::new();
        push_char(&mut s, '/');
        let rest = string_of(&q);
        crate::text::push_str(&mut s, rest.as_str());
        proof {
            assert(s@ =~= seq!['/'] + q@);
        }
        s
    }
}

/// Whether `r` is what reading the imageset text `content` gives: an
/// error when the XML does not parse or the root has no `Imagefile`, else
/// the image file and one outcome per `Image` node.
pub open spec fn imageset_read(content: Seq<char>, r: Result<Imageset, ImagesetError>) -> bool {
    match xml_root(content) {
        Err(msg) => r matches Err(ImagesetError::Xml(m)) && m@ == msg,
        Ok((root, children)) => match attr_value(root.attributes, "Imagefile"@) {
            None => r matches Err(ImagesetError::MissingImagefile),
            Some(f) => r matches Ok(set) && set.image_file@ == normalize_image_path(f)
                && set.images@.map_values(|x: Result<PortraitRect, PortraitNodeError>| rect_view(x)) == image_outcomes(children),
        },
    }
}

/// The imageset that `content` describes. Fails when the XML does not
/// parse or the root has no `Imagefile`; a malformed `Image` node only
/// fails its own entry.
pub fn read_imageset(content: &str) -> (r: Result<Imageset, ImagesetError>)
    ensures
        imageset_read(content@, r),
{
    let parsed = parse_xml_root(content);
    let (root, children) = match parsed {
        Ok(p) => p,
        Err(msg) => {
            return Err(ImagesetError::Xml(msg));
        },
    };
    let image_file = match find_attr(&root.attributes, "Imagefile") {
        None => {
            return Err(ImagesetError::MissingImagefile);
        },
        Some(i) => normalize_path(root.attributes[i].1.as_str()),
    };
    let ghost kids = children@.map_values(|n: XmlNode| n@);
    let mut images: Vec<Result<PortraitRect, PortraitNodeError>> = Vec::new();
    let mut i: usize = 0;
    while i < children.len()
        invariant
            i <= children.len(),
            kids == children@.map_values(|n: XmlNode| n@),
            images@.map_values(|x: Result<PortraitRect, PortraitNodeError>| rect_view(x)) == image_outcomes(kids.take(i as int)),
        decreases children.len() - i,
    {
        let node = &children[i];
        proof {
            assert(kids.take(i + 1).drop_last() =~= kids.take(i as int));
            assert(kids.take(i + 1).last() == node@);
            reveal_strlit("Image");
        }
        if node.is_element && str_eq(node.tag.as_str(), "Image") {
            let ghost before = images@;
            let entry = read_portrait(node);
            images.push(entry);
            proof {
                assert(images@.map_values(|x: Result<PortraitRect, PortraitNodeError>| rect_view(x)) =~= before.map_values(
                    |x: Result<PortraitRect, PortraitNodeError>| rect_view(x),
                ).push(rect_view(entry)));
            }
        }
        i = i + 1;
    }
    proof {
        assert(kids.take(kids.len() as int) =~= kids);
    }
    Ok(Imageset { image_file, images })
}

/// The imageset in the bytes of an imageset file, read as UTF-8 with
/// invalid sequences replaced.
pub fn read_imageset_bytes(data: &[u8]) -> (r: Result<Imageset, ImagesetError>)
    ensures
        imageset_read(utf8_lossy(data@), r),
{
    let content = decode_utf8_lossy(data);
    read_imageset(content.as_str())
}

} // verus!
