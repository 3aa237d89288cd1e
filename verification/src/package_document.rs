//! The package document root: its required and optional attributes, and the
//! composition of the three schema decoders.

use vstd::prelude::*;

use crate::error::{res_view, EPUBError, MissingAttribute, MissingElement};
use crate::events::{tokenize_xml, xml_token_stream};
use crate::manifest::{sp_item_by_id, ItemV, Manifest, ManifestV};
use crate::markup::{
    attr_views, opt_str_view, seq_views, sp_get_attr, sp_get_attr_plain, sp_get_attr_xml_lang,
    token_views, Attribute, AttributeV, Token, TokenV,
};
use crate::meta_data::{Metadata, MetadataV};
use crate::spine::{ItemRefV, Spine, SpineV};
use crate::tree::{sp_attrs, sp_build, sp_find_seq, ElemV, Xml};

verus! {

/// A reading-direction attribute value: left-to-right or right-to-left.
#[allow(non_camel_case_types)]
#[derive(Debug, Clone, Copy, PartialEq, Eq, Hash, Structural)]
pub enum Dir {
    ltr,
    rtl,
}

/// The reading direction a string names, if any; anything else counts as
/// absent, never as an error.
pub open spec fn sp_dir_of(s: Seq<char>) -> Option<Dir> {
    if s == "ltr"@ {
        Some(Dir::ltr)
    } else if s == "rtl"@ {
        Some(Dir::rtl)
    } else {
        None
    }
}

impl Dir {
    /// The reading direction a string names.
    pub fn try_from(value: &str) -> (r: Result<Dir, ()>)
        ensures
            (match r {
                Ok(d) => sp_dir_of(value@) == Some(d),
                Err(_) => sp_dir_of(value@) is None,
            }),
    {
        if crate::markup::str_eq(value, "ltr") {
            Ok(Dir::ltr)
        } else if crate::markup::str_eq(value, "rtl") {
            Ok(Dir::rtl)
        } else {
            Err(())
        }
    }
}

/// The reading direction named by a `dir` attribute, looked up by local
/// name; an unrecognized value is treated as absent.
pub open spec fn sp_dir_attr(attrs: Seq<AttributeV>) -> Option<Dir> {
    match sp_get_attr(attrs, "dir"@) {
        Some(s) => sp_dir_of(s),
        None => None,
    }
}

/// Reads the `dir` attribute as a reading direction, treating an
/// unrecognized value as absent.
pub fn get_dir(attrs: &Vec<Attribute>) -> (r: Option<Dir>)
    ensures
        r == sp_dir_attr(crate::markup::attr_views(attrs@)),
{
    match crate::markup::get_attr(attrs, "dir") {
        Some(s) => match Dir::try_from(s.as_str()) {
            Ok(d) => Some(d),
            Err(_) => None,
        },
        None => None,
    }
}


/// The decoded package document: the package element's attributes, its
/// required unique-identifier and version values, and the three decoded
/// sections. An immutable value object; no partially valid document is ever
/// produced.
#[derive(Debug, Clone, PartialEq, Eq)]
pub struct PackageDocument {
    pub attributes: Vec<Attribute>,
    pub unique_identifier: String,
    pub version: String,
    pub meta_data: Metadata,
    pub manifest: Manifest,
    pub spine: Spine,
}

/// Mathematical model of a `PackageDocument`.
pub struct PackageDocumentV {
    pub attributes: Seq<AttributeV>,
    pub unique_identifier: Seq<char>,
    pub version: Seq<char>,
    pub meta_data: MetadataV,
    pub manifest: ManifestV,
    pub spine: SpineV,
}

impl View for PackageDocument {
    type V = PackageDocumentV;

    open spec fn view(&self) -> PackageDocumentV {
        PackageDocumentV {
            attributes: attr_views(self.attributes@),
            unique_identifier: self.unique_identifier@,
            version: self.version@,
            meta_data: self.meta_data@,
            manifest: self.manifest@,
            spine: self.spine@,
        }
    }
}

/// What decoding a forest of element trees yields: the first element named
/// `package` anywhere in the forest, in document order, is the root; its
/// absence, a missing unique-identifier or version attribute, and any
/// failure of the metadata, manifest or spine decoders — consulted in that
/// order — each abort with the classified failure. No partially valid
/// document escapes.
pub open spec fn sp_package(forest: Seq<ElemV>) -> Result<PackageDocumentV, EPUBError> {
    match sp_find_seq(forest, "package"@) {
        None => Err(EPUBError::StructuralError(MissingElement::Package)),
        Some(pkg) => {
            let attrs = sp_attrs(pkg);
            match sp_get_attr_plain(attrs, "unique-identifier"@) {
                None => Err(EPUBError::AttributeError(MissingAttribute::UniqueIdentifier)),
                Some(uid) => match sp_get_attr_plain(attrs, "version"@) {
                    None => Err(EPUBError::AttributeError(MissingAttribute::Version)),
                    Some(version) => match crate::meta_data::sp_metadata(pkg, uid) {
                        Err(e) => Err(e),
                        Ok(md) => match crate::manifest::sp_manifest(pkg) {
                            Err(e) => Err(e),
                            Ok(mf) => match crate::spine::sp_spine(pkg) {
                                Err(e) => Err(e),
                                Ok(sp) => Ok(
                                    PackageDocumentV {
                                        attributes: attrs,
                                        unique_identifier: uid,
                                        version,
                                        meta_data: md,
                                        manifest: mf,
                                        spine: sp,
                                    },
                                ),
                            },
                        },
                    },
                },
            }
        },
    }
}

/// What decoding a whole token stream yields: the forest the tree builder
/// materializes from it, decoded.
pub open spec fn sp_package_from_tokens(ts: Seq<TokenV>) -> Result<PackageDocumentV, EPUBError> {
    sp_package(sp_build(ts))
}

impl PackageDocument {
    /// Decodes a package document from a markup token stream: builds the
    /// element forest, locates the package element, reads its required and
    /// optional attributes, and delegates to the metadata, manifest and
    /// spine decoders in that order, failing fast on the first classified
    /// failure.
    pub fn new(tokens: &Vec<Token>) -> (r: Result<PackageDocument, EPUBError>)
        ensures
            res_view(r) == sp_package_from_tokens(token_views(tokens@)),
    {
        let xml = Xml::new(tokens);
        let pkg = match xml.get_by("package") {
            Some(p) => p,
            None => {
                return Err(EPUBError::StructuralError(MissingElement::Package));
            },
        };
        proof {
            crate::tree::lemma_find_seq_elem(xml@, "package"@);
        }
        let attributes = crate::tree::attributes_of(pkg);
        let unique_identifier = match crate::markup::get_attr_plain(
            &attributes,
            "unique-identifier",
        ) {
            Some(uid) => uid,
            None => {
                return Err(EPUBError::AttributeError(MissingAttribute::UniqueIdentifier));
            },
        };
        let version = match crate::markup::get_attr_plain(&attributes, "version") {
            Some(v) => v,
            None => {
                return Err(EPUBError::AttributeError(MissingAttribute::Version));
            },
        };
        let meta_data = match Metadata::new(pkg, unique_identifier.as_str()) {
            Ok(m) => m,
            Err(e) => {
                return Err(e);
            },
        };
        let manifest = match Manifest::new(pkg) {
            Ok(m) => m,
            Err(e) => {
                return Err(e);
            },
        };
        let spine = match Spine::new(pkg) {
            Ok(s) => s,
            Err(e) => {
                return Err(e);
            },
        };
        Ok(
            PackageDocument {
                attributes,
                unique_identifier,
                version,
                meta_data,
                manifest,
                spine,
            },
        )
    }

    /// Decodes a package document from raw markup bytes: the parser's token
    /// stream for those bytes, decoded. Byte-identical input yields
    /// value-equal results.
    pub fn from_xml_bytes(bytes: &[u8]) -> (r: Result<PackageDocument, EPUBError>)
        ensures
            res_view(r) == sp_package_from_tokens(xml_token_stream(bytes@)),
    {
        let tokens = tokenize_xml(bytes);
        PackageDocument::new(&tokens)
    }

    /// The package element's reading direction, if it names one; an
    /// unrecognized value is treated as absent, not as an error.
    pub fn dir(&self) -> (r: Option<Dir>)
        ensures
            r == (match sp_get_attr_plain(self@.attributes, "dir"@) {
                Some(s) => sp_dir_of(s),
                None => None::<Dir>,
            }),
    {
        match crate::markup::get_attr_plain(&self.attributes, "dir") {
            Some(s) => match Dir::try_from(s.as_str()) {
                Ok(d) => Some(d),
                Err(_) => None,
            },
            None => None,
        }
    }

    /// The package element's id attribute, if any.
    pub fn id(&self) -> (r: Option<String>)
        ensures
            opt_str_view(r) == sp_get_attr_plain(self@.attributes, "id"@),
    {
        crate::markup::get_attr_plain(&self.attributes, "id")
    }

    /// The package element's prefix attribute, if any.
    pub fn prefix(&self) -> (r: Option<String>)
        ensures
            opt_str_view(r) == sp_get_attr_plain(self@.attributes, "prefix"@),
    {
        crate::markup::get_attr_plain(&self.attributes, "prefix")
    }

    /// The package element's `xml:lang` attribute, if any.
    pub fn xml_lang(&self) -> (r: Option<String>)
        ensures
            opt_str_view(r) == sp_get_attr_xml_lang(self@.attributes),
    {
        crate::markup::get_attr_xml_lang(&self.attributes)
    }

    /// The locations of every manifest item, in document order.
    pub fn resources(&self) -> (r: Vec<String>)
        ensures
            seq_views(r@) == self@.manifest.items.map_values(|i: ItemV| i.href),
    {
        let ghost hrefs = self@.manifest.items.map_values(|i: ItemV| i.href);
        let mut out: Vec<String> = Vec::new();
        let n = self.manifest.items.len();
        for i in 0..n
            invariant
                n == self.manifest.items.len(),
                hrefs == self@.manifest.items.map_values(|i: ItemV| i.href),
                hrefs.len() == n,
                seq_views(out@) =~= hrefs.take(i as int),
        {
            let ghost pre = seq_views(out@);
            let x = self.manifest.items[i].href.clone();
            proof {
                assert(x@ == self@.manifest.items[i as int].href);
                assert(hrefs[i as int] == self@.manifest.items[i as int].href);
            }
            out.push(x);
            proof {
                assert(seq_views(out@) =~= pre.push(x@));
                assert(seq_views(out@) =~= hrefs.take(i + 1 as int));
            }
        }
        proof {
            assert(hrefs.take(n as int) =~= hrefs);
        }
        out
    }

    /// The locations of the spine's reading order, in spine order: each
    /// itemref resolved against the manifest by id, unresolved references
    /// skipped.
    pub fn spine_resources(&self) -> (r: Vec<String>)
        ensures
            seq_views(r@) == sp_spine_resources(self@.manifest.items, self@.spine.items),
    {
        let ghost items = self@.manifest.items;
        let ghost refs = self@.spine.items;
        let mut out: Vec<String> = Vec::new();
        proof {
            assert(refs.skip(0) =~= refs);
            assert(seq_views(out@) + sp_spine_resources(items, refs) =~= sp_spine_resources(
                items,
                refs,
            ));
        }
        let n = self.spine.items.len();
        for i in 0..n
            invariant
                n == self.spine.items.len(),
                items == self@.manifest.items,
                refs == self@.spine.items,
                refs.len() == n,
                seq_views(out@) + sp_spine_resources(items, refs.skip(i as int))
                    == sp_spine_resources(items, refs),
        {
            proof {
                assert(refs.skip(i as int).first() == refs[i as int]);
                assert(refs.skip(i as int).drop_first() =~= refs.skip(i + 1 as int));
            }
            let ghost pre = seq_views(out@);
            match crate::manifest::item_by_id(
                &self.manifest.items,
                self.spine.items[i].idref.as_str(),
            ) {
                Some(it) => {
                    let ghost hv = it@.href;
                    out.push(it.href.clone());
                    proof {
                        assert(seq_views(out@) =~= pre + seq![hv]);
                    }
                },
                None => {},
            }
            proof {
                assert(seq_views(out@) + sp_spine_resources(items, refs.skip(i + 1 as int))
                    =~= sp_spine_resources(items, refs));
            }
        }
        proof {
            assert(refs.skip(n as int) =~= Seq::<ItemRefV>::empty());
        }
        out
    }
}

/// The manifest locations the spine's reading order names, in spine order,
/// unresolved references skipped.
pub open spec fn sp_spine_resources(items: Seq<ItemV>, refs: Seq<ItemRefV>) -> Seq<Seq<char>>
    decreases refs.len(),
{
    if refs.len() == 0 {
        Seq::empty()
    } else {
        (match sp_item_by_id(items, refs.first().idref) {
            Some(it) => seq![it.href],
            None => Seq::empty(),
        }) + sp_spine_resources(items, refs.drop_first())
    }
}

/// Decoding is deterministic: byte-identical input decodes to value-equal
/// results — equal by content, whichever two calls produced them.
pub proof fn lemma_decode_deterministic(
    b1: &[u8],
    b2: &[u8],
    r1: Result<PackageDocument, EPUBError>,
    r2: Result<PackageDocument, EPUBError>,
)
    requires
        b1@ == b2@,
        call_ensures(PackageDocument::from_xml_bytes, (b1,), r1),
        call_ensures(PackageDocument::from_xml_bytes, (b2,), r2),
    ensures
        res_view(r1) == res_view(r2),
{
}


} // verus!
