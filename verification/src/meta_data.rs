//! The metadata decoder: identifiers, titles, languages, the
//! unique-identifier binding, generic descriptive elements, and best-effort
//! refinement (`meta`) elements.

use vstd::prelude::*;

use crate::error::{EPUBError, MissingElement};
use crate::markup::{
    attr_views, dc_ns, dc_ns_str, opt_str_view, opt_view, qname_is, seq_views, sp_get_attr,
    sp_get_attr_xml_lang, sp_qname_is, str_eq, Attribute, AttributeV,
};
use crate::package_document::{sp_dir_attr, get_dir, Dir};
use crate::tree::{
    elem_views, sp_attrs, sp_children, sp_filter_map, sp_find_section, sp_inner_text, ElemV,
    NodeKind, XmlElement,
};

verus! {

/// The property vocabulary of a refinement (`meta`) element.
#[allow(non_camel_case_types)]
#[derive(Debug, Clone, Copy, PartialEq, Eq, Hash, Structural)]
pub enum MetaDataProperty {
    alternate_script,
    authority,
    belongs_to_collection,
    collection_type,
    display_seq,
    file_as,
    group_position,
    identifier_type,
    meta_auth,
    role,
    source_of,
    term,
    title_type,
}

/// The refinement property a string names, if any.
pub open spec fn sp_meta_property_of(s: Seq<char>) -> Option<MetaDataProperty> {
    if s == "alternate-script"@ {
        Some(MetaDataProperty::alternate_script)
    } else if s == "authority"@ {
        Some(MetaDataProperty::authority)
    } else if s == "belongs-to-collection"@ {
        Some(MetaDataProperty::belongs_to_collection)
    } else if s == "collection-type"@ {
        Some(MetaDataProperty::collection_type)
    } else if s == "display-seq"@ {
        Some(MetaDataProperty::display_seq)
    } else if s == "file-as"@ {
        Some(MetaDataProperty::file_as)
    } else if s == "group-position"@ {
        Some(MetaDataProperty::group_position)
    } else if s == "identifier-type"@ {
        Some(MetaDataProperty::identifier_type)
    } else if s == "meta-auth"@ {
        Some(MetaDataProperty::meta_auth)
    } else if s == "role"@ {
        Some(MetaDataProperty::role)
    } else if s == "source-of"@ {
        Some(MetaDataProperty::source_of)
    } else if s == "term"@ {
        Some(MetaDataProperty::term)
    } else if s == "title-type"@ {
        Some(MetaDataProperty::title_type)
    } else {
        None
    }
}

impl MetaDataProperty {
    /// The refinement property a string names.
    pub fn from_str(s: &str) -> (r: Result<MetaDataProperty, ()>)
        ensures
            (match r {
                Ok(p) => sp_meta_property_of(s@) == Some(p),
                Err(_) => sp_meta_property_of(s@) is None,
            }),
    {
        if str_eq(s, "alternate-script") {
            Ok(MetaDataProperty::alternate_script)
        } else if str_eq(s, "authority") {
            Ok(MetaDataProperty::authority)
        } else if str_eq(s, "belongs-to-collection") {
            Ok(MetaDataProperty::belongs_to_collection)
        } else if str_eq(s, "collection-type") {
            Ok(MetaDataProperty::collection_type)
        } else if str_eq(s, "display-seq") {
            Ok(MetaDataProperty::display_seq)
        } else if str_eq(s, "file-as") {
            Ok(MetaDataProperty::file_as)
        } else if str_eq(s, "group-position") {
            Ok(MetaDataProperty::group_position)
        } else if str_eq(s, "identifier-type") {
            Ok(MetaDataProperty::identifier_type)
        } else if str_eq(s, "meta-auth") {
            Ok(MetaDataProperty::meta_auth)
        } else if str_eq(s, "role") {
            Ok(MetaDataProperty::role)
        } else if str_eq(s, "source-of") {
            Ok(MetaDataProperty::source_of)
        } else if str_eq(s, "term") {
            Ok(MetaDataProperty::term)
        } else if str_eq(s, "title-type") {
            Ok(MetaDataProperty::title_type)
        } else {
            Err(())
        }
    }

    /// The string naming this refinement property.
    pub fn to_string(&self) -> (r: String)
        ensures
            (match self {
                MetaDataProperty::alternate_script => r@ == "alternate-script"@,
                MetaDataProperty::authority => r@ == "authority"@,
                MetaDataProperty::belongs_to_collection => r@ == "belongs-to-collection"@,
                MetaDataProperty::collection_type => r@ == "collection-type"@,
                MetaDataProperty::display_seq => r@ == "display-seq"@,
                MetaDataProperty::file_as => r@ == "file-as"@,
                MetaDataProperty::group_position => r@ == "group-position"@,
                MetaDataProperty::identifier_type => r@ == "identifier-type"@,
                MetaDataProperty::meta_auth => r@ == "meta-auth"@,
                MetaDataProperty::role => r@ == "role"@,
                MetaDataProperty::source_of => r@ == "source-of"@,
                MetaDataProperty::term => r@ == "term"@,
                MetaDataProperty::title_type => r@ == "title-type"@,
            }),
    {
        let r = match self {
            MetaDataProperty::alternate_script => String::from_str("alternate-script"),
            MetaDataProperty::authority => String::from_str("authority"),
            MetaDataProperty::belongs_to_collection => String::from_str("belongs-to-collection"),
            MetaDataProperty::collection_type => String::from_str("collection-type"),
            MetaDataProperty::display_seq => String::from_str("display-seq"),
            MetaDataProperty::file_as => String::from_str("file-as"),
            MetaDataProperty::group_position => String::from_str("group-position"),
            MetaDataProperty::identifier_type => String::from_str("identifier-type"),
            MetaDataProperty::meta_auth => String::from_str("meta-auth"),
            MetaDataProperty::role => String::from_str("role"),
            MetaDataProperty::source_of => String::from_str("source-of"),
            MetaDataProperty::term => String::from_str("term"),
            MetaDataProperty::title_type => String::from_str("title-type"),
        };
        r
    }
}

/// The recognized generic descriptive element names.
#[allow(non_camel_case_types)]
#[derive(Debug, Clone, Copy, PartialEq, Eq, Hash, Structural)]
pub enum OptionalElementName {
    contributor,
    coverage,
    creator,
    date,
    description,
    format,
    publisher,
    relation,
    rights,
    source,
    subject,
    type_,
}

/// The descriptive element name a string names, if any.
pub open spec fn sp_optional_name_of(s: Seq<char>) -> Option<OptionalElementName> {
    if s == "contributor"@ {
        Some(OptionalElementName::contributor)
    } else if s == "coverage"@ {
        Some(OptionalElementName::coverage)
    } else if s == "creator"@ {
        Some(OptionalElementName::creator)
    } else if s == "date"@ {
        Some(OptionalElementName::date)
    } else if s == "description"@ {
        Some(OptionalElementName::description)
    } else if s == "format"@ {
        Some(OptionalElementName::format)
    } else if s == "publisher"@ {
        Some(OptionalElementName::publisher)
    } else if s == "relation"@ {
        Some(OptionalElementName::relation)
    } else if s == "rights"@ {
        Some(OptionalElementName::rights)
    } else if s == "source"@ {
        Some(OptionalElementName::source)
    } else if s == "subject"@ {
        Some(OptionalElementName::subject)
    } else if s == "type"@ {
        Some(OptionalElementName::type_)
    } else {
        None
    }
}

impl OptionalElementName {
    /// The descriptive element name a string names.
    pub fn from_str(s: &str) -> (r: Result<OptionalElementName, ()>)
        ensures
            (match r {
                Ok(p) => sp_optional_name_of(s@) == Some(p),
                Err(_) => sp_optional_name_of(s@) is None,
            }),
    {
        if str_eq(s, "contributor") {
            Ok(OptionalElementName::contributor)
        } else if str_eq(s, "coverage") {
            Ok(OptionalElementName::coverage)
        } else if str_eq(s, "creator") {
            Ok(OptionalElementName::creator)
        } else if str_eq(s, "date") {
            Ok(OptionalElementName::date)
        } else if str_eq(s, "description") {
            Ok(OptionalElementName::description)
        } else if str_eq(s, "format") {
            Ok(OptionalElementName::format)
        } else if str_eq(s, "publisher") {
            Ok(OptionalElementName::publisher)
        } else if str_eq(s, "relation") {
            Ok(OptionalElementName::relation)
        } else if str_eq(s, "rights") {
            Ok(OptionalElementName::rights)
        } else if str_eq(s, "source") {
            Ok(OptionalElementName::source)
        } else if str_eq(s, "subject") {
            Ok(OptionalElementName::subject)
        } else if str_eq(s, "type") {
            Ok(OptionalElementName::type_)
        } else {
            Err(())
        }
    }

    /// The string naming this descriptive element.
    pub fn to_string(&self) -> (r: String)
        ensures
            (match self {
                OptionalElementName::contributor => r@ == "contributor"@,
                OptionalElementName::coverage => r@ == "coverage"@,
                OptionalElementName::creator => r@ == "creator"@,
                OptionalElementName::date => r@ == "date"@,
                OptionalElementName::description => r@ == "description"@,
                OptionalElementName::format => r@ == "format"@,
                OptionalElementName::publisher => r@ == "publisher"@,
                OptionalElementName::relation => r@ == "relation"@,
                OptionalElementName::rights => r@ == "rights"@,
                OptionalElementName::source => r@ == "source"@,
                OptionalElementName::subject => r@ == "subject"@,
                OptionalElementName::type_ => r@ == "type"@,
            }),
    {
        match self {
            OptionalElementName::contributor => String::from_str("contributor"),
            OptionalElementName::coverage => String::from_str("coverage"),
            OptionalElementName::creator => String::from_str("creator"),
            OptionalElementName::date => String::from_str("date"),
            OptionalElementName::description => String::from_str("description"),
            OptionalElementName::format => String::from_str("format"),
            OptionalElementName::publisher => String::from_str("publisher"),
            OptionalElementName::relation => String::from_str("relation"),
            OptionalElementName::rights => String::from_str("rights"),
            OptionalElementName::source => String::from_str("source"),
            OptionalElementName::subject => String::from_str("subject"),
            OptionalElementName::type_ => String::from_str("type"),
        }
    }
}

/// An identifier associated with the rendition, such as a UUID, DOI or ISBN.
#[derive(Debug, Clone, PartialEq, Eq, Hash)]
pub struct Identifier {
    pub id: Option<String>,
    pub identifier: String,
}

/// Mathematical model of an `Identifier`.
pub struct IdentifierV {
    pub id: Option<Seq<char>>,
    pub identifier: Seq<char>,
}

impl View for Identifier {
    type V = IdentifierV;

    open spec fn view(&self) -> IdentifierV {
        IdentifierV { id: opt_str_view(self.id), identifier: self.identifier@ }
    }
}

/// An instance of a name given to the publication.
#[derive(Debug, Clone, PartialEq, Eq, Hash)]
pub struct Title {
    pub title: String,
    pub dir: Option<Dir>,
    pub id: Option<String>,
    pub xml_lang: Option<String>,
}

/// Mathematical model of a `Title`.
pub struct TitleV {
    pub title: Seq<char>,
    pub dir: Option<Dir>,
    pub id: Option<Seq<char>>,
    pub xml_lang: Option<Seq<char>>,
}

impl View for Title {
    type V = TitleV;

    open spec fn view(&self) -> TitleV {
        TitleV {
            title: self.title@,
            dir: self.dir,
            id: opt_str_view(self.id),
            xml_lang: opt_str_view(self.xml_lang),
        }
    }
}

/// A language of the rendition's content.
#[derive(Debug, Clone, PartialEq, Eq, Hash)]
pub struct Language {
    pub language: String,
    pub id: Option<String>,
}

/// Mathematical model of a `Language`.
pub struct LanguageV {
    pub language: Seq<char>,
    pub id: Option<Seq<char>>,
}

impl View for Language {
    type V = LanguageV;

    open spec fn view(&self) -> LanguageV {
        LanguageV { language: self.language@, id: opt_str_view(self.id) }
    }
}

/// A refinement (`meta`) element, parsed best-effort.
#[derive(Debug, Clone, PartialEq, Eq, Hash)]
pub struct MetaElem {
    pub value: String,
    pub dir: Option<Dir>,
    pub id: Option<String>,
    pub property: MetaDataProperty,
    pub refines: Option<String>,
    pub scheme: Option<String>,
    pub xml_lang: Option<String>,
}

/// Mathematical model of a `MetaElem`.
pub struct MetaElemV {
    pub value: Seq<char>,
    pub dir: Option<Dir>,
    pub id: Option<Seq<char>>,
    pub property: MetaDataProperty,
    pub refines: Option<Seq<char>>,
    pub scheme: Option<Seq<char>>,
    pub xml_lang: Option<Seq<char>>,
}

impl View for MetaElem {
    type V = MetaElemV;

    open spec fn view(&self) -> MetaElemV {
        MetaElemV {
            value: self.value@,
            dir: self.dir,
            id: opt_str_view(self.id),
            property: self.property,
            refines: opt_str_view(self.refines),
            scheme: opt_str_view(self.scheme),
            xml_lang: opt_str_view(self.xml_lang),
        }
    }
}

/// A generic descriptive element: contributor, coverage, creator, date,
/// description, format, publisher, relation, rights, source, subject or
/// type.
#[derive(Debug, Clone, PartialEq, Eq, Hash)]
pub struct OptionalElement {
    pub name: OptionalElementName,
    pub value: String,
    pub dir: Option<Dir>,
    pub id: Option<String>,
    pub xml_lang: Option<String>,
}

/// Mathematical model of an `OptionalElement`.
pub struct OptionalElementV {
    pub name: OptionalElementName,
    pub value: Seq<char>,
    pub dir: Option<Dir>,
    pub id: Option<Seq<char>>,
    pub xml_lang: Option<Seq<char>>,
}

impl View for OptionalElement {
    type V = OptionalElementV;

    open spec fn view(&self) -> OptionalElementV {
        OptionalElementV {
            name: self.name,
            value: self.value@,
            dir: self.dir,
            id: opt_str_view(self.id),
            xml_lang: opt_str_view(self.xml_lang),
        }
    }
}

/// The identifier record a node yields: one for each `dc:identifier`
/// element, carrying its text content and local id.
pub open spec fn sp_identifier_of(e: ElemV) -> Option<IdentifierV> {
    match e {
        ElemV::Element { name, attributes, .. } => if sp_qname_is(
            name,
            Some("dc"@),
            "identifier"@,
            Some(dc_ns()),
        ) {
            Some(IdentifierV { id: sp_get_attr(attributes, "id"@), identifier: sp_inner_text(e) })
        } else {
            None
        },
        _ => None,
    }
}

/// The title record a node yields: one for each `dc:title` element.
pub open spec fn sp_title_of(e: ElemV) -> Option<TitleV> {
    match e {
        ElemV::Element { name, attributes, .. } => if sp_qname_is(
            name,
            Some("dc"@),
            "title"@,
            Some(dc_ns()),
        ) {
            Some(
                TitleV {
                    title: sp_inner_text(e),
                    dir: sp_dir_attr(attributes),
                    id: sp_get_attr(attributes, "id"@),
                    xml_lang: sp_get_attr_xml_lang(attributes),
                },
            )
        } else {
            None
        },
        _ => None,
    }
}

/// The language record a node yields: one for each `dc:language` element.
pub open spec fn sp_language_of(e: ElemV) -> Option<LanguageV> {
    match e {
        ElemV::Element { name, attributes, .. } => if sp_qname_is(
            name,
            Some("dc"@),
            "language"@,
            Some(dc_ns()),
        ) {
            Some(LanguageV { language: sp_inner_text(e), id: sp_get_attr(attributes, "id"@) })
        } else {
            None
        },
        _ => None,
    }
}

/// The refinement record a node yields: a `meta` element with a recognized
/// property; any mismatch is silently omitted.
pub open spec fn sp_meta_of(e: ElemV) -> Option<MetaElemV> {
    match e {
        ElemV::Element { name, attributes, .. } => if sp_qname_is(
            name,
            None,
            "meta"@,
            Some(dc_ns()),
        ) {
            match sp_get_attr(attributes, "property"@) {
                Some(p) => match sp_meta_property_of(p) {
                    Some(property) => Some(
                        MetaElemV {
                            value: sp_inner_text(e),
                            dir: sp_dir_attr(attributes),
                            id: sp_get_attr(attributes, "id"@),
                            property,
                            refines: sp_get_attr(attributes, "refines"@),
                            scheme: sp_get_attr(attributes, "scheme"@),
                            xml_lang: sp_get_attr_xml_lang(attributes),
                        },
                    ),
                    None => None,
                },
                None => None,
            }
        } else {
            None
        },
        _ => None,
    }
}

/// The descriptive record a node yields: a `dc`-prefixed element in the
/// Dublin Core namespace whose local name is recognized.
pub open spec fn sp_optional_of(e: ElemV) -> Option<OptionalElementV> {
    match e {
        ElemV::Element { name, attributes, .. } => if name.prefix == Some("dc"@)
            && name.namespace == Some(dc_ns()) {
            match sp_optional_name_of(name.local_name) {
                Some(n) => Some(
                    OptionalElementV {
                        name: n,
                        value: sp_inner_text(e),
                        dir: sp_dir_attr(attributes),
                        id: sp_get_attr(attributes, "id"@),
                        xml_lang: sp_get_attr_xml_lang(attributes),
                    },
                ),
                None => None,
            }
        } else {
            None
        },
        _ => None,
    }
}

impl Identifier {
    /// Reads one `dc:identifier` element; any other node yields nothing.
    pub fn from_element(e: &XmlElement) -> (r: Option<Identifier>)
        ensures
            opt_view(r) == sp_identifier_of(e@),
    {
        match &e.kind {
            NodeKind::Element { name, attributes } => {
                if qname_is(name, Some("dc"), "identifier", Some(dc_ns_str())) {
                    let id = crate::markup::get_attr(attributes, "id");
                    let identifier = e.inner_text();
                    Some(Identifier { id, identifier })
                } else {
                    None
                }
            },
            _ => None,
        }
    }
}

impl Title {
    /// Reads one `dc:title` element; any other node yields nothing.
    pub fn from_element(e: &XmlElement) -> (r: Option<Title>)
        ensures
            opt_view(r) == sp_title_of(e@),
    {
        match &e.kind {
            NodeKind::Element { name, attributes } => {
                if qname_is(name, Some("dc"), "title", Some(dc_ns_str())) {
                    let title = e.inner_text();
                    let dir = get_dir(attributes);
                    let id = crate::markup::get_attr(attributes, "id");
                    let xml_lang = crate::markup::get_attr_xml_lang(attributes);
                    Some(Title { title, dir, id, xml_lang })
                } else {
                    None
                }
            },
            _ => None,
        }
    }
}

impl Language {
    /// Reads one `dc:language` element; any other node yields nothing.
    pub fn from_element(e: &XmlElement) -> (r: Option<Language>)
        ensures
            opt_view(r) == sp_language_of(e@),
    {
        match &e.kind {
            NodeKind::Element { name, attributes } => {
                if qname_is(name, Some("dc"), "language", Some(dc_ns_str())) {
                    let language = e.inner_text();
                    let id = crate::markup::get_attr(attributes, "id");
                    Some(Language { language, id })
                } else {
                    None
                }
            },
            _ => None,
        }
    }
}

impl MetaElem {
    /// Reads one refinement (`meta`) element; a missing or unrecognized
    /// property, or any other node, yields nothing.
    pub fn from_element(e: &XmlElement) -> (r: Option<MetaElem>)
        ensures
            opt_view(r) == sp_meta_of(e@),
    {
        match &e.kind {
            NodeKind::Element { name, attributes } => {
                if qname_is(name, None, "meta", Some(dc_ns_str())) {
                    let property = match crate::markup::get_attr(attributes, "property") {
                        Some(p) => match MetaDataProperty::from_str(p.as_str()) {
                            Ok(prop) => Some(prop),
                            Err(_) => None,
                        },
                        None => None,
                    };
                    match property {
                        Some(property) => {
                            let value = e.inner_text();
                            let dir = get_dir(attributes);
                            let id = crate::markup::get_attr(attributes, "id");
                            let refines = crate::markup::get_attr(attributes, "refines");
                            let scheme = crate::markup::get_attr(attributes, "scheme");
                            let xml_lang = crate::markup::get_attr_xml_lang(attributes);
                            Some(MetaElem { value, dir, id, property, refines, scheme, xml_lang })
                        },
                        None => None,
                    }
                } else {
                    None
                }
            },
            _ => None,
        }
    }
}

impl OptionalElement {
    /// Reads one recognized generic descriptive element; any other node
    /// yields nothing.
    pub fn from_element(e: &XmlElement) -> (r: Option<OptionalElement>)
        ensures
            opt_view(r) == sp_optional_of(e@),
    {
        match &e.kind {
            NodeKind::Element { name, attributes } => {
                let prefix_ok = match &name.prefix {
                    Some(p) => str_eq(p.as_str(), "dc"),
                    None => false,
                };
                let ns_ok = match &name.namespace {
                    Some(n) => str_eq(n.as_str(), dc_ns_str()),
                    None => false,
                };
                if prefix_ok && ns_ok {
                    match OptionalElementName::from_str(name.local_name.as_str()) {
                        Ok(n) => {
                            let value = e.inner_text();
                            let dir = get_dir(attributes);
                            let id = crate::markup::get_attr(attributes, "id");
                            let xml_lang = crate::markup::get_attr_xml_lang(attributes);
                            Some(OptionalElement { name: n, value, dir, id, xml_lang })
                        },
                        Err(_) => None,
                    }
                } else {
                    None
                }
            },
            _ => None,
        }
    }
}


/// The identifier records among `cs`, in document order.
pub open spec fn sp_identifiers(cs: Seq<ElemV>) -> Seq<IdentifierV> {
    sp_filter_map(cs, |e: ElemV| sp_identifier_of(e))
}

/// Collects every identifier record among the children, in document order.
fn collect_identifiers(children: &Vec<XmlElement>) -> (r: Vec<Identifier>)
    ensures
        seq_views(r@) == sp_identifiers(elem_views(children@)),
{
    let ghost cs = elem_views(children@);
    let mut out: Vec<Identifier> = Vec::new();
    proof {
        crate::tree::lemma_elem_views_len(children@);
        assert(cs.skip(0) =~= cs);
        assert(seq_views(out@) + sp_identifiers(cs) =~= sp_identifiers(cs));
    }
    let n = children.len();
    for i in 0..n
        invariant
            n == children.len(),
            cs == elem_views(children@),
            seq_views(out@) + sp_identifiers(cs.skip(i as int)) == sp_identifiers(cs),
    {
        proof {
            crate::tree::lemma_elem_views_index(children@, i as int);
            assert(cs.skip(i as int).first() == cs[i as int]);
            assert(cs.skip(i as int).drop_first() =~= cs.skip(i + 1 as int));
            assert(sp_identifiers(cs.skip(i as int)) == (match sp_identifier_of(cs[i as int]) {
                Some(x) => seq![x],
                None => Seq::empty(),
            }) + sp_identifiers(cs.skip(i + 1 as int)));
        }
        let ghost pre = seq_views(out@);
        match Identifier::from_element(&children[i]) {
            Some(x) => {
                let ghost xv = x@;
                out.push(x);
                proof {
                    assert(seq_views(out@) =~= pre + seq![xv]);
                }
            },
            None => {},
        }
        proof {
            assert(seq_views(out@) + sp_identifiers(cs.skip(i + 1 as int)) =~= sp_identifiers(cs));
        }
    }
    proof {
        assert(cs.skip(n as int) =~= Seq::<ElemV>::empty());
    }
    out
}

/// The title records among `cs`, in document order.
pub open spec fn sp_titles(cs: Seq<ElemV>) -> Seq<TitleV> {
    sp_filter_map(cs, |e: ElemV| sp_title_of(e))
}

/// Collects every title record among the children, in document order.
fn collect_titles(children: &Vec<XmlElement>) -> (r: Vec<Title>)
    ensures
        seq_views(r@) == sp_titles(elem_views(children@)),
{
    let ghost cs = elem_views(children@);
    let mut out: Vec<Title> = Vec::new();
    proof {
        crate::tree::lemma_elem_views_len(children@);
        assert(cs.skip(0) =~= cs);
        assert(seq_views(out@) + sp_titles(cs) =~= sp_titles(cs));
    }
    let n = children.len();
    for i in 0..n
        invariant
            n == children.len(),
            cs == elem_views(children@),
            seq_views(out@) + sp_titles(cs.skip(i as int)) == sp_titles(cs),
    {
        proof {
            crate::tree::lemma_elem_views_index(children@, i as int);
            assert(cs.skip(i as int).first() == cs[i as int]);
            assert(cs.skip(i as int).drop_first() =~= cs.skip(i + 1 as int));
            assert(sp_titles(cs.skip(i as int)) == (match sp_title_of(cs[i as int]) {
                Some(x) => seq![x],
                None => Seq::empty(),
            }) + sp_titles(cs.skip(i + 1 as int)));
        }
        let ghost pre = seq_views(out@);
        match Title::from_element(&children[i]) {
            Some(x) => {
                let ghost xv = x@;
                out.push(x);
                proof {
                    assert(seq_views(out@) =~= pre + seq![xv]);
                }
            },
            None => {},
        }
        proof {
            assert(seq_views(out@) + sp_titles(cs.skip(i + 1 as int)) =~= sp_titles(cs));
        }
    }
    proof {
        assert(cs.skip(n as int) =~= Seq::<ElemV>::empty());
    }
    out
}

/// The language records among `cs`, in document order.
pub open spec fn sp_languages(cs: Seq<ElemV>) -> Seq<LanguageV> {
    sp_filter_map(cs, |e: ElemV| sp_language_of(e))
}

/// Collects every language record among the children, in document order.
fn collect_languages(children: &Vec<XmlElement>) -> (r: Vec<Language>)
    ensures
        seq_views(r@) == sp_languages(elem_views(children@)),
{
    let ghost cs = elem_views(children@);
    let mut out: Vec<Language> = Vec::new();
    proof {
        crate::tree::lemma_elem_views_len(children@);
        assert(cs.skip(0) =~= cs);
        assert(seq_views(out@) + sp_languages(cs) =~= sp_languages(cs));
    }
    let n = children.len();
    for i in 0..n
        invariant
            n == children.len(),
            cs == elem_views(children@),
            seq_views(out@) + sp_languages(cs.skip(i as int)) == sp_languages(cs),
    {
        proof {
            crate::tree::lemma_elem_views_index(children@, i as int);
            assert(cs.skip(i as int).first() == cs[i as int]);
            assert(cs.skip(i as int).drop_first() =~= cs.skip(i + 1 as int));
            assert(sp_languages(cs.skip(i as int)) == (match sp_language_of(cs[i as int]) {
                Some(x) => seq![x],
                None => Seq::empty(),
            }) + sp_languages(cs.skip(i + 1 as int)));
        }
        let ghost pre = seq_views(out@);
        match Language::from_element(&children[i]) {
            Some(x) => {
                let ghost xv = x@;
                out.push(x);
                proof {
                    assert(seq_views(out@) =~= pre + seq![xv]);
                }
            },
            None => {},
        }
        proof {
            assert(seq_views(out@) + sp_languages(cs.skip(i + 1 as int)) =~= sp_languages(cs));
        }
    }
    proof {
        assert(cs.skip(n as int) =~= Seq::<ElemV>::empty());
    }
    out
}

/// The refinement records among `cs`, in document order.
pub open spec fn sp_metas(cs: Seq<ElemV>) -> Seq<MetaElemV> {
    sp_filter_map(cs, |e: ElemV| sp_meta_of(e))
}

/// Collects every refinement record among the children, in document order.
fn collect_metas(children: &Vec<XmlElement>) -> (r: Vec<MetaElem>)
    ensures
        seq_views(r@) == sp_metas(elem_views(children@)),
{
    let ghost cs = elem_views(children@);
    let mut out: Vec<MetaElem> = Vec::new();
    proof {
        crate::tree::lemma_elem_views_len(children@);
        assert(cs.skip(0) =~= cs);
        assert(seq_views(out@) + sp_metas(cs) =~= sp_metas(cs));
    }
    let n = children.len();
    for i in 0..n
        invariant
            n == children.len(),
            cs == elem_views(children@),
            seq_views(out@) + sp_metas(cs.skip(i as int)) == sp_metas(cs),
    {
        proof {
            crate::tree::lemma_elem_views_index(children@, i as int);
            assert(cs.skip(i as int).first() == cs[i as int]);
            assert(cs.skip(i as int).drop_first() =~= cs.skip(i + 1 as int));
            assert(sp_metas(cs.skip(i as int)) == (match sp_meta_of(cs[i as int]) {
                Some(x) => seq![x],
                None => Seq::empty(),
            }) + sp_metas(cs.skip(i + 1 as int)));
        }
        let ghost pre = seq_views(out@);
        match MetaElem::from_element(&children[i]) {
            Some(x) => {
                let ghost xv = x@;
                out.push(x);
                proof {
                    assert(seq_views(out@) =~= pre + seq![xv]);
                }
            },
            None => {},
        }
        proof {
            assert(seq_views(out@) + sp_metas(cs.skip(i + 1 as int)) =~= sp_metas(cs));
        }
    }
    proof {
        assert(cs.skip(n as int) =~= Seq::<ElemV>::empty());
    }
    out
}

/// The descriptive records among `cs`, in document order.
pub open spec fn sp_optionals(cs: Seq<ElemV>) -> Seq<OptionalElementV> {
    sp_filter_map(cs, |e: ElemV| sp_optional_of(e))
}

/// Collects every descriptive record among the children, in document order.
fn collect_optionals(children: &Vec<XmlElement>) -> (r: Vec<OptionalElement>)
    ensures
        seq_views(r@) == sp_optionals(elem_views(children@)),
{
    let ghost cs = elem_views(children@);
    let mut out: Vec<OptionalElement> = Vec::new();
    proof {
        crate::tree::lemma_elem_views_len(children@);
        assert(cs.skip(0) =~= cs);
        assert(seq_views(out@) + sp_optionals(cs) =~= sp_optionals(cs));
    }
    let n = children.len();
    for i in 0..n
        invariant
            n == children.len(),
            cs == elem_views(children@),
            seq_views(out@) + sp_optionals(cs.skip(i as int)) == sp_optionals(cs),
    {
        proof {
            crate::tree::lemma_elem_views_index(children@, i as int);
            assert(cs.skip(i as int).first() == cs[i as int]);
            assert(cs.skip(i as int).drop_first() =~= cs.skip(i + 1 as int));
            assert(sp_optionals(cs.skip(i as int)) == (match sp_optional_of(cs[i as int]) {
                Some(x) => seq![x],
                None => Seq::empty(),
            }) + sp_optionals(cs.skip(i + 1 as int)));
        }
        let ghost pre = seq_views(out@);
        match OptionalElement::from_element(&children[i]) {
            Some(x) => {
                let ghost xv = x@;
                out.push(x);
                proof {
                    assert(seq_views(out@) =~= pre + seq![xv]);
                }
            },
            None => {},
        }
        proof {
            assert(seq_views(out@) + sp_optionals(cs.skip(i + 1 as int)) =~= sp_optionals(cs));
        }
    }
    proof {
        assert(cs.skip(n as int) =~= Seq::<ElemV>::empty());
    }
    out
}

/// The first identifier, in document order, whose local id equals the
/// package's unique-identifier value.
pub open spec fn sp_find_unique(ids: Seq<IdentifierV>, uid: Seq<char>) -> Option<IdentifierV>
    decreases ids.len(),
{
    if ids.len() == 0 {
        None
    } else if ids.first().id == Some(uid) {
        Some(ids.first())
    } else {
        sp_find_unique(ids.drop_first(), uid)
    }
}

/// Copies an identifier record, preserving its model.
fn clone_identifier(x: &Identifier) -> (r: Identifier)
    ensures
        r@ == x@,
{
    Identifier {
        id: crate::markup::clone_opt_string(&x.id),
        identifier: x.identifier.clone(),
    }
}

/// Finds the identifier the unique-identifier attribute binds: the first
/// whose local id equals it, a deterministic tie-break when several match.
fn find_unique(ids: &Vec<Identifier>, uid: &str) -> (r: Option<Identifier>)
    ensures
        opt_view(r) == sp_find_unique(seq_views(ids@), uid@),
{
    let ghost ivs = seq_views(ids@);
    proof {
        assert(ivs.skip(0) =~= ivs);
    }
    let n = ids.len();
    for i in 0..n
        invariant
            n == ids.len(),
            ivs == seq_views(ids@),
            sp_find_unique(ivs, uid@) == sp_find_unique(ivs.skip(i as int), uid@),
    {
        proof {
            assert(ivs.skip(i as int).first() == ivs[i as int]);
        }
        let hit = match &ids[i].id {
            Some(s) => str_eq(s.as_str(), uid),
            None => false,
        };
        if hit {
            return Some(clone_identifier(&ids[i]));
        }
        assert(ivs.skip(i as int).drop_first() =~= ivs.skip(i + 1 as int));
    }
    assert(ivs.skip(n as int) =~= Seq::<IdentifierV>::empty());
    None
}

/// The decoded metadata section: the identifiers, the one the package's
/// unique-identifier attribute binds, the titles and languages (at least one
/// of each), the recognized descriptive elements, and the refinements.
#[derive(Debug, Clone, PartialEq, Eq)]
pub struct Metadata {
    pub identifier: Vec<Identifier>,
    pub unique_identifier: Identifier,
    pub titles: Vec<Title>,
    pub languages: Vec<Language>,
    pub attributes: Vec<Attribute>,
    pub optionals: Vec<OptionalElement>,
    pub meta: Vec<MetaElem>,
}

/// Mathematical model of a `Metadata`.
pub struct MetadataV {
    pub identifier: Seq<IdentifierV>,
    pub unique_identifier: IdentifierV,
    pub titles: Seq<TitleV>,
    pub languages: Seq<LanguageV>,
    pub attributes: Seq<AttributeV>,
    pub optionals: Seq<OptionalElementV>,
    pub meta: Seq<MetaElemV>,
}

impl View for Metadata {
    type V = MetadataV;

    open spec fn view(&self) -> MetadataV {
        MetadataV {
            identifier: seq_views(self.identifier@),
            unique_identifier: self.unique_identifier@,
            titles: seq_views(self.titles@),
            languages: seq_views(self.languages@),
            attributes: attr_views(self.attributes@),
            optionals: seq_views(self.optionals@),
            meta: seq_views(self.meta@),
        }
    }
}

/// What decoding the metadata section of a package element yields. The
/// section is located among the package element's children by local name;
/// its absence, an unresolved unique identifier, a missing title or a
/// missing language each abort with the classified failure, in that order.
pub open spec fn sp_metadata(pkg: ElemV, uid: Seq<char>) -> Result<MetadataV, EPUBError> {
    match sp_find_section(sp_children(pkg), "metadata"@) {
        None => Err(EPUBError::StructuralError(MissingElement::Metadata)),
        Some(m) => {
            let cs = sp_children(m);
            let ids = sp_identifiers(cs);
            match sp_find_unique(ids, uid) {
                None => Err(EPUBError::ReferenceError),
                Some(u) => if sp_titles(cs).len() == 0 {
                    Err(EPUBError::StructuralError(MissingElement::Title))
                } else if sp_languages(cs).len() == 0 {
                    Err(EPUBError::StructuralError(MissingElement::Language))
                } else {
                    Ok(
                        MetadataV {
                            identifier: ids,
                            unique_identifier: u,
                            titles: sp_titles(cs),
                            languages: sp_languages(cs),
                            attributes: sp_attrs(m),
                            optionals: sp_optionals(cs),
                            meta: sp_metas(cs),
                        },
                    )
                },
            }
        },
    }
}

impl Metadata {
    /// Decodes the metadata section found among the package element's
    /// children. Fails with `StructuralError` if the section, every title or
    /// every language is absent, and with `ReferenceError` if no identifier's
    /// id equals the unique-identifier value; when several match, the first
    /// in document order wins.
    pub fn new(package_element: &XmlElement, unique_identifier: &str) -> (r: Result<
        Metadata,
        EPUBError,
    >)
        ensures
            crate::error::res_view(r) == sp_metadata(package_element@, unique_identifier@),
    {
        let meta_elem = match crate::tree::section_of(package_element, "metadata") {
            Some(m) => m,
            None => {
                return Err(EPUBError::StructuralError(MissingElement::Metadata));
            },
        };
        proof {
            crate::tree::lemma_find_section_elem(
                sp_children(package_element@),
                "metadata"@,
            );
        }
        let mcs = crate::tree::element_children(meta_elem);
        let attributes = crate::tree::attributes_of(meta_elem);
        let meta = collect_metas(mcs);
        let identifier = collect_identifiers(mcs);
        let unique = match find_unique(&identifier, unique_identifier) {
            Some(u) => u,
            None => {
                return Err(EPUBError::ReferenceError);
            },
        };
        let titles = collect_titles(mcs);
        if titles.len() == 0 {
            return Err(EPUBError::StructuralError(MissingElement::Title));
        }
        let languages = collect_languages(mcs);
        if languages.len() == 0 {
            return Err(EPUBError::StructuralError(MissingElement::Language));
        }
        let optionals = collect_optionals(mcs);
        Ok(
            Metadata {
                identifier,
                unique_identifier: unique,
                titles,
                languages,
                attributes,
                optionals,
                meta,
            },
        )
    }

    /// The identifier the package's unique-identifier attribute binds.
    pub fn unique_identifier(&self) -> (r: &Identifier)
        ensures
            r@ == self@.unique_identifier,
    {
        &self.unique_identifier
    }

    /// Every identifier of the metadata section, in document order.
    pub fn identifiers(&self) -> (r: &Vec<Identifier>)
        ensures
            seq_views(r@) == self@.identifier,
    {
        &self.identifier
    }

    /// The first title in document order, if any.
    pub fn title(&self) -> (r: Option<&Title>)
        ensures
            (match r {
                Some(t) => self@.titles.len() > 0 && t@ == self@.titles[0],
                None => self@.titles.len() == 0,
            }),
    {
        if self.titles.len() > 0 {
            Some(&self.titles[0])
        } else {
            None
        }
    }

    /// Every title, in document order; decoding guarantees at least one.
    pub fn titles(&self) -> (r: &Vec<Title>)
        ensures
            seq_views(r@) == self@.titles,
    {
        &self.titles
    }

    /// The first language in document order, if any.
    pub fn language(&self) -> (r: Option<&Language>)
        ensures
            (match r {
                Some(l) => self@.languages.len() > 0 && l@ == self@.languages[0],
                None => self@.languages.len() == 0,
            }),
    {
        if self.languages.len() > 0 {
            Some(&self.languages[0])
        } else {
            None
        }
    }

    /// Every language, in document order; decoding guarantees at least one.
    pub fn languages(&self) -> (r: &Vec<Language>)
        ensures
            seq_views(r@) == self@.languages,
    {
        &self.languages
    }
}


/// A metadata section with zero title elements fails with the structural
/// title failure, regardless of its other, valid content: whenever the
/// section is present and the unique identifier resolves, but no child
/// yields a title record, decoding reports exactly the missing title.
pub proof fn lemma_missing_title_fails(pkg: ElemV, m: ElemV, uid: Seq<char>)
    requires
        sp_find_section(sp_children(pkg), "metadata"@) == Some(m),
        sp_find_unique(sp_identifiers(sp_children(m)), uid) is Some,
        sp_titles(sp_children(m)).len() == 0,
    ensures
        sp_metadata(pkg, uid) == Err::<MetadataV, EPUBError>(
            EPUBError::StructuralError(MissingElement::Title),
        ),
{
}

} // verus!
