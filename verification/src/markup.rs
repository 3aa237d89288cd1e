//! Qualified names, attributes and markup tokens: the plain-value form of the
//! forward-only event stream that the tree builder consumes.

use vstd::prelude::*;

verus! {

/// A qualified markup name: local name, optional namespace URI, optional prefix.
/// One value type with structural (view-level) equality is used wherever
/// elements or attributes are matched or indexed.
#[derive(Debug, Clone, PartialEq, Eq)]
pub struct QName {
    pub local_name: String,
    pub namespace: Option<String>,
    pub prefix: Option<String>,
}

/// Mathematical model of a `QName`.
pub struct QNameV {
    pub local_name: Seq<char>,
    pub namespace: Option<Seq<char>>,
    pub prefix: Option<Seq<char>>,
}

/// Model of an optional owned string.
pub open spec fn opt_str_view(o: Option<String>) -> Option<Seq<char>> {
    match o {
        Some(s) => Some(s@),
        None => None,
    }
}

impl View for QName {
    type V = QNameV;

    open spec fn view(&self) -> QNameV {
        QNameV {
            local_name: self.local_name@,
            namespace: opt_str_view(self.namespace),
            prefix: opt_str_view(self.prefix),
        }
    }
}

/// One attribute of an element start tag: name and value.
#[derive(Debug, Clone, PartialEq, Eq)]
pub struct Attribute {
    pub name: QName,
    pub value: String,
}

/// Mathematical model of an `Attribute`.
pub struct AttributeV {
    pub name: QNameV,
    pub value: Seq<char>,
}

impl View for Attribute {
    type V = AttributeV;

    open spec fn view(&self) -> AttributeV {
        AttributeV { name: self.name@, value: self.value@ }
    }
}

/// Model of an attribute list.
pub open spec fn attr_views(s: Seq<Attribute>) -> Seq<AttributeV> {
    s.map_values(|a: Attribute| a@)
}

/// One event of the forward-only markup token stream. Well-formedness
/// (matching start and end tags) is the stream producer's concern, not a
/// promise of this type.
#[derive(Debug, Clone, PartialEq, Eq)]
pub enum Token {
    StartElement { name: QName, attributes: Vec<Attribute> },
    EndElement { name: QName },
    Characters(String),
    CData(String),
    Whitespace(String),
    Comment(String),
    ProcessingInstruction { name: String, data: Option<String> },
    StartDocument,
    EndDocument,
}

/// Mathematical model of a `Token`.
pub enum TokenV {
    StartElement { name: QNameV, attributes: Seq<AttributeV> },
    EndElement { name: QNameV },
    Characters(Seq<char>),
    CData(Seq<char>),
    Whitespace(Seq<char>),
    Comment(Seq<char>),
    ProcessingInstruction { name: Seq<char>, data: Option<Seq<char>> },
    StartDocument,
    EndDocument,
}

impl View for Token {
    type V = TokenV;

    open spec fn view(&self) -> TokenV {
        match self {
            Token::StartElement { name, attributes } => (TokenV::StartElement {
                name: name@,
                attributes: attr_views(attributes@),
            }),
            Token::EndElement { name } => (TokenV::EndElement { name: name@ }),
            Token::Characters(s) => TokenV::Characters(s@),
            Token::CData(s) => TokenV::CData(s@),
            Token::Whitespace(s) => TokenV::Whitespace(s@),
            Token::Comment(s) => TokenV::Comment(s@),
            Token::ProcessingInstruction { name, data } => (TokenV::ProcessingInstruction {
                name: name@,
                data: opt_str_view(*data),
            }),
            Token::StartDocument => TokenV::StartDocument,
            Token::EndDocument => TokenV::EndDocument,
        }
    }
}

/// Model of a token list.
pub open spec fn token_views(s: Seq<Token>) -> Seq<TokenV> {
    s.map_values(|t: Token| t@)
}

/// Relies on `<str as PartialEq>::eq`, documented to compare string contents.
#[verifier::external_body]
pub(crate) fn str_eq(a: &str, b: &str) -> (r: bool)
    ensures
        r == (a@ == b@),
{
    a == b
}

/// Clones an optional string, preserving its model.
pub(crate) fn clone_opt_string(o: &Option<String>) -> (r: Option<String>)
    ensures
        opt_str_view(r) == opt_str_view(*o),
{
    match o {
        Some(s) => Some(s.clone()),
        None => None,
    }
}

/// First value among `attrs` whose name has the given local name, in document
/// order; the namespace and prefix are not consulted.
pub open spec fn sp_get_attr(attrs: Seq<AttributeV>, local: Seq<char>) -> Option<Seq<char>>
    decreases attrs.len(),
{
    if attrs.len() == 0 {
        None
    } else if attrs.first().name.local_name == local {
        Some(attrs.first().value)
    } else {
        sp_get_attr(attrs.drop_first(), local)
    }
}

/// Looks an attribute up by local name alone, returning the first match in
/// document order.
pub fn get_attr(attrs: &Vec<Attribute>, local: &str) -> (r: Option<String>)
    ensures
        opt_str_view(r) == sp_get_attr(attr_views(attrs@), local@),
{
    let ghost all = attr_views(attrs@);
    let n = attrs.len();
    proof {
        assert(all.skip(0) =~= all);
    }
    for i in 0..n
        invariant
            n == attrs.len(),
            all == attr_views(attrs@),
            sp_get_attr(all, local@) == sp_get_attr(all.skip(i as int), local@),
    {
        assert(all.skip(i as int).first() == all[i as int]);
        if str_eq(attrs[i].name.local_name.as_str(), local) {
            let r = Some(attrs[i].value.clone());
            assert(sp_get_attr(all.skip(i as int), local@) == Some(all[i as int].value));
            return r;
        }
        assert(all.skip(i as int).drop_first() =~= all.skip(i + 1 as int));
    }
    assert(all.skip(n as int) =~= Seq::<AttributeV>::empty());
    None
}

/// First value among `attrs` whose name is exactly the given plain name:
/// matching local name, no namespace, no prefix.
pub open spec fn sp_get_attr_plain(attrs: Seq<AttributeV>, local: Seq<char>) -> Option<Seq<char>>
    decreases attrs.len(),
{
    if attrs.len() == 0 {
        None
    } else if attrs.first().name.local_name == local && attrs.first().name.namespace is None
        && attrs.first().name.prefix is None {
        Some(attrs.first().value)
    } else {
        sp_get_attr_plain(attrs.drop_first(), local)
    }
}

/// Looks an attribute up by its full plain name: local name equal to `local`,
/// no namespace, no prefix.
pub fn get_attr_plain(attrs: &Vec<Attribute>, local: &str) -> (r: Option<String>)
    ensures
        opt_str_view(r) == sp_get_attr_plain(attr_views(attrs@), local@),
{
    let ghost all = attr_views(attrs@);
    let n = attrs.len();
    proof {
        assert(all.skip(0) =~= all);
    }
    for i in 0..n
        invariant
            n == attrs.len(),
            all == attr_views(attrs@),
            sp_get_attr_plain(all, local@) == sp_get_attr_plain(all.skip(i as int), local@),
    {
        assert(all.skip(i as int).first() == all[i as int]);
        let a = &attrs[i];
        if str_eq(a.name.local_name.as_str(), local) && a.name.namespace.is_none()
            && a.name.prefix.is_none() {
            let r = Some(a.value.clone());
            assert(sp_get_attr_plain(all.skip(i as int), local@) == Some(all[i as int].value));
            return r;
        }
        assert(all.skip(i as int).drop_first() =~= all.skip(i + 1 as int));
    }
    assert(all.skip(n as int) =~= Seq::<AttributeV>::empty());
    None
}

/// First value among `attrs` carried by a name with prefix `xml` and local
/// name `lang`.
pub open spec fn sp_get_attr_xml_lang(attrs: Seq<AttributeV>) -> Option<Seq<char>>
    decreases attrs.len(),
{
    if attrs.len() == 0 {
        None
    } else if attrs.first().name.local_name == "lang"@ && attrs.first().name.prefix == Some(
        "xml"@,
    ) {
        Some(attrs.first().value)
    } else {
        sp_get_attr_xml_lang(attrs.drop_first())
    }
}

/// Looks the `xml:lang` attribute up: local name `lang` under prefix `xml`.
pub fn get_attr_xml_lang(attrs: &Vec<Attribute>) -> (r: Option<String>)
    ensures
        opt_str_view(r) == sp_get_attr_xml_lang(attr_views(attrs@)),
{
    let ghost all = attr_views(attrs@);
    let n = attrs.len();
    proof {
        assert(all.skip(0) =~= all);
    }
    for i in 0..n
        invariant
            n == attrs.len(),
            all == attr_views(attrs@),
            sp_get_attr_xml_lang(all) == sp_get_attr_xml_lang(all.skip(i as int)),
    {
        assert(all.skip(i as int).first() == all[i as int]);
        let a = &attrs[i];
        let prefix_is_xml = match &a.name.prefix {
            Some(p) => str_eq(p.as_str(), "xml"),
            None => false,
        };
        if str_eq(a.name.local_name.as_str(), "lang") && prefix_is_xml {
            let r = Some(a.value.clone());
            assert(sp_get_attr_xml_lang(all.skip(i as int)) == Some(all[i as int].value));
            return r;
        }
        assert(all.skip(i as int).drop_first() =~= all.skip(i + 1 as int));
    }
    assert(all.skip(n as int) =~= Seq::<AttributeV>::empty());
    None
}


/// Model of an optional value with a view.
pub open spec fn opt_view<T: View>(o: Option<T>) -> Option<T::V> {
    match o {
        Some(x) => Some(x@),
        None => None,
    }
}

/// Model of a list of values with views.
pub open spec fn seq_views<T: View>(s: Seq<T>) -> Seq<T::V> {
    s.map_values(|x: T| x@)
}

/// Model of an optional borrowed string.
pub open spec fn opt_strslice_view(o: Option<&str>) -> Option<Seq<char>> {
    match o {
        Some(s) => Some(s@),
        None => None,
    }
}

/// Whether a qualified name has exactly the given prefix, local name and
/// namespace.
pub open spec fn sp_qname_is(
    n: QNameV,
    prefix: Option<Seq<char>>,
    local: Seq<char>,
    ns: Option<Seq<char>>,
) -> bool {
    n.local_name == local && n.prefix == prefix && n.namespace == ns
}

/// Compares a qualified name against the given prefix, local name and
/// namespace.
pub(crate) fn qname_is(n: &QName, prefix: Option<&str>, local: &str, ns: Option<&str>) -> (r:
    bool)
    ensures
        r == sp_qname_is(n@, opt_strslice_view(prefix), local@, opt_strslice_view(ns)),
{
    let prefix_ok = match (&n.prefix, prefix) {
        (Some(a), Some(b)) => str_eq(a.as_str(), b),
        (None, None) => true,
        _ => false,
    };
    let ns_ok = match (&n.namespace, ns) {
        (Some(a), Some(b)) => str_eq(a.as_str(), b),
        (None, None) => true,
        _ => false,
    };
    str_eq(n.local_name.as_str(), local) && prefix_ok && ns_ok
}

/// The Dublin Core namespace, under which the metadata elements stand.
pub open spec fn dc_ns() -> Seq<char> {
    "http://purl.org/dc/elements/1.1/"@
}

/// The Dublin Core namespace, for executable comparisons.
pub fn dc_ns_str() -> (r: &'static str)
    ensures
        r@ == dc_ns(),
{
    "http://purl.org/dc/elements/1.1/"
}

/// The package-document namespace, under which manifest and spine items
/// stand.
pub open spec fn opf_ns() -> Seq<char> {
    "http://www.idpf.org/2007/opf"@
}

/// The package-document namespace, for executable comparisons.
pub fn opf_ns_str() -> (r: &'static str)
    ensures
        r@ == opf_ns(),
{
    "http://www.idpf.org/2007/opf"
}

} // verus!
