//! The boundary to the markup parser: turns raw bytes into the plain-value
//! token stream the tree builder consumes. Everything past this boundary is
//! verified against the token stream alone.

use vstd::prelude::*;

use crate::markup::{token_views, Attribute, QName, Token, TokenV};

verus! {

#[verifier::external_type_specification]
#[verifier::external_body]
pub struct ExXmlEvent(xml::reader::XmlEvent);

#[verifier::external_type_specification]
#[verifier::external_body]
pub struct ExOwnedName(xml::name::OwnedName);

#[verifier::external_type_specification]
#[verifier::external_body]
pub struct ExOwnedAttribute(xml::attribute::OwnedAttribute);

/// The token stream the markup parser derives from a byte sequence. The
/// parse is a function of the bytes alone, so the stream can be named; what
/// it holds on given bytes is not stated, and every decoder downstream is
/// verified for every value of it.
pub uninterp spec fn xml_token_stream(bytes: Seq<u8>) -> Seq<TokenV>;

/// Relies on the fields of xml's `OwnedName`: local name, namespace,
/// prefix, moved one for one.
#[verifier::external_body]
fn qname_of(n: xml::name::OwnedName) -> QName {
    QName { local_name: n.local_name, namespace: n.namespace, prefix: n.prefix }
}

/// Relies on the fields of xml's `OwnedAttribute`: name and value, moved
/// one for one.
#[verifier::external_body]
fn attrs_of(attrs: Vec<xml::attribute::OwnedAttribute>) -> Vec<Attribute> {
    attrs.into_iter().map(|a| Attribute { name: qname_of(a.name), value: a.value }).collect()
}

/// Relies on the tag-shaped variants of xml's `XmlEvent`: a start, end or
/// processing-instruction event becomes the token of the same kind, fields
/// moved one for one; anything else (a doctype declaration) becomes no
/// token.
#[verifier::external_body]
fn tag_token(e: xml::reader::XmlEvent) -> Option<Token> {
    match e {
        xml::reader::XmlEvent::StartElement { name, attributes, .. } => Some(
            Token::StartElement { name: qname_of(name), attributes: attrs_of(attributes) },
        ),
        xml::reader::XmlEvent::EndElement { name } => Some(
            Token::EndElement { name: qname_of(name) },
        ),
        xml::reader::XmlEvent::ProcessingInstruction { name, data } => Some(
            Token::ProcessingInstruction { name, data },
        ),
        _ => None,
    }
}

/// Relies on the variants of xml's `XmlEvent`: each becomes the token of
/// the same kind, payloads moved one for one.
#[verifier::external_body]
fn event_token(e: xml::reader::XmlEvent) -> Option<Token> {
    match e {
        xml::reader::XmlEvent::Characters(s) => Some(Token::Characters(s)),
        xml::reader::XmlEvent::CData(s) => Some(Token::CData(s)),
        xml::reader::XmlEvent::Whitespace(s) => Some(Token::Whitespace(s)),
        xml::reader::XmlEvent::Comment(s) => Some(Token::Comment(s)),
        xml::reader::XmlEvent::StartDocument { .. } => Some(Token::StartDocument),
        xml::reader::XmlEvent::EndDocument => Some(Token::EndDocument),
        other => tag_token(other),
    }
}

/// Relies on xml's `EventReader` over a byte slice: a forward-only event
/// stream whose well-formedness checks (matching start and end tags) are
/// the parser's; the stream is truncated at the first parse error rather
/// than failing. The result depends on the bytes alone.
#[verifier::external_body]
pub fn tokenize_xml(bytes: &[u8]) -> (r: Vec<Token>)
    ensures
        token_views(r@) == xml_token_stream(bytes@),
{
    xml::reader::EventReader::new(bytes)
        .into_iter()
        .map_while(|ev| ev.ok())
        .filter_map(event_token)
        .collect()
}

} // verus!
