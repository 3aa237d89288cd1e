//! The spine decoder: the ordered default reading sequence. Document order
//! is semantically meaningful and is preserved exactly: itemrefs are never
//! re-sorted, deduplicated or filtered against the manifest at decode time.

use vstd::prelude::*;

use crate::error::{res_view, EPUBError, MissingAttribute, MissingElement};
use crate::markup::{
    opf_ns, opf_ns_str, opt_str_view, opt_view, qname_is, seq_views, sp_get_attr, sp_qname_is,
    str_eq,
};
use crate::tree::{elem_views, sp_attrs, sp_children, sp_find_section, ElemV, NodeKind, XmlElement};

verus! {

/// Whether an itemref takes part in the linear reading order.
#[allow(non_camel_case_types)]
#[derive(Debug, Clone, Copy, PartialEq, Eq, Hash, Structural)]
pub enum Linear {
    yes,
    no,
}

/// The linear flag a string names, if any.
pub open spec fn sp_linear_of(s: Seq<char>) -> Option<Linear> {
    if s == "yes"@ {
        Some(Linear::yes)
    } else if s == "no"@ {
        Some(Linear::no)
    } else {
        None
    }
}

impl Linear {
    /// The linear flag a string names.
    pub fn from_str(s: &str) -> (r: Result<Linear, ()>)
        ensures
            (match r {
                Ok(l) => sp_linear_of(s@) == Some(l),
                Err(_) => sp_linear_of(s@) is None,
            }),
    {
        if str_eq(s, "yes") {
            Ok(Linear::yes)
        } else if str_eq(s, "no") {
            Ok(Linear::no)
        } else {
            Err(())
        }
    }
}

impl Default for Linear {
    /// An itemref with no `linear` attribute is linear.
    fn default() -> (r: Linear)
        ensures
            r == Linear::yes,
    {
        Linear::yes
    }
}

/// A page-progression-direction attribute value.
#[allow(non_camel_case_types)]
#[derive(Debug, Clone, Copy, PartialEq, Eq, Hash, Structural)]
pub enum PageProgressionDirection {
    ltr,
    rtl,
    default,
}

/// The page progression direction a string names, if any; anything else
/// counts as absent, never as an error.
pub open spec fn sp_ppd_of(s: Seq<char>) -> Option<PageProgressionDirection> {
    if s == "ltr"@ {
        Some(PageProgressionDirection::ltr)
    } else if s == "rtl"@ {
        Some(PageProgressionDirection::rtl)
    } else if s == "default"@ {
        Some(PageProgressionDirection::default)
    } else {
        None
    }
}

impl PageProgressionDirection {
    /// The page progression direction a string names.
    pub fn from_str(s: &str) -> (r: Result<PageProgressionDirection, ()>)
        ensures
            (match r {
                Ok(d) => sp_ppd_of(s@) == Some(d),
                Err(_) => sp_ppd_of(s@) is None,
            }),
    {
        if str_eq(s, "ltr") {
            Ok(PageProgressionDirection::ltr)
        } else if str_eq(s, "rtl") {
            Ok(PageProgressionDirection::rtl)
        } else if str_eq(s, "default") {
            Ok(PageProgressionDirection::default)
        } else {
            Err(())
        }
    }
}

/// One reading-order entry: the manifest item it references by id, whether
/// it is linear (absent means linear), and its raw properties string.
#[derive(Debug, Clone, PartialEq, Eq, Hash)]
pub struct ItemRef {
    pub id: Option<String>,
    pub idref: String,
    pub linear: Option<Linear>,
    pub properties: Option<String>,
}

/// Mathematical model of an `ItemRef`.
pub struct ItemRefV {
    pub id: Option<Seq<char>>,
    pub idref: Seq<char>,
    pub linear: Option<Linear>,
    pub properties: Option<Seq<char>>,
}

impl View for ItemRef {
    type V = ItemRefV;

    open spec fn view(&self) -> ItemRefV {
        ItemRefV {
            id: opt_str_view(self.id),
            idref: self.idref@,
            linear: self.linear,
            properties: opt_str_view(self.properties),
        }
    }
}

impl ItemRef {
    /// The effective linear flag: the stated one, or the default (linear)
    /// when the attribute was absent or unrecognized.
    pub fn effective_linear(&self) -> (r: Linear)
        ensures
            (match self.linear {
                Some(l) => r == l,
                None => r == Linear::yes,
            }),
    {
        match self.linear {
            Some(l) => l,
            None => Linear::default(),
        }
    }
}

/// What an `itemref` element yields: the parsed reading-order entry, nothing
/// for a node that is no `itemref` element, or the classified failure when
/// the required idref is absent. An unrecognized linear value counts as
/// absent.
pub open spec fn sp_itemref_of(e: ElemV) -> Result<Option<ItemRefV>, EPUBError> {
    match e {
        ElemV::Element { name, attributes, .. } => if sp_qname_is(
            name,
            None,
            "itemref"@,
            Some(opf_ns()),
        ) {
            match sp_get_attr(attributes, "idref"@) {
                None => Err(EPUBError::AttributeError(MissingAttribute::ItemRefIdref)),
                Some(idref) => Ok(
                    Some(
                        ItemRefV {
                            id: sp_get_attr(attributes, "id"@),
                            idref,
                            linear: (match sp_get_attr(attributes, "linear"@) {
                                Some(l) => sp_linear_of(l),
                                None => None,
                            }),
                            properties: sp_get_attr(attributes, "properties"@),
                        },
                    ),
                ),
            }
        } else {
            Ok(None)
        },
        _ => Ok(None),
    }
}

impl ItemRef {
    /// Reads one `itemref` element; any other node yields nothing, and an
    /// `itemref` without idref fails with the classified attribute error.
    pub fn from_element(e: &XmlElement) -> (r: Result<Option<ItemRef>, EPUBError>)
        ensures
            (match r {
                Ok(o) => sp_itemref_of(e@) == Ok::<Option<ItemRefV>, EPUBError>(opt_view(o)),
                Err(err) => sp_itemref_of(e@) == Err::<Option<ItemRefV>, EPUBError>(err),
            }),
    {
        match &e.kind {
            NodeKind::Element { name, attributes } => {
                if qname_is(name, None, "itemref", Some(opf_ns_str())) {
                    let idref = match crate::markup::get_attr(attributes, "idref") {
                        Some(idref) => idref,
                        None => {
                            return Err(EPUBError::AttributeError(MissingAttribute::ItemRefIdref));
                        },
                    };
                    let id = crate::markup::get_attr(attributes, "id");
                    let linear = match crate::markup::get_attr(attributes, "linear") {
                        Some(l) => match Linear::from_str(l.as_str()) {
                            Ok(lv) => Some(lv),
                            Err(_) => None,
                        },
                        None => None,
                    };
                    let properties = crate::markup::get_attr(attributes, "properties");
                    Ok(Some(ItemRef { id, idref, linear, properties }))
                } else {
                    Ok(None)
                }
            },
            _ => Ok(None),
        }
    }
}

/// The reading-order entries of a spine element's children, in document
/// order exactly as encountered; the first idref failure aborts the
/// collection.
pub open spec fn sp_itemrefs(cs: Seq<ElemV>) -> Result<Seq<ItemRefV>, EPUBError>
    decreases cs.len(),
{
    if cs.len() == 0 {
        Ok(Seq::empty())
    } else {
        match sp_itemref_of(cs.first()) {
            Err(e) => Err(e),
            Ok(opt) => match sp_itemrefs(cs.drop_first()) {
                Err(e) => Err(e),
                Ok(rest) => Ok(
                    (match opt {
                        Some(x) => seq![x],
                        None => Seq::empty(),
                    }) + rest,
                ),
            },
        }
    }
}

/// A collection already gathered, continued by the rest's outcome.
pub open spec fn sp_itemrefs_continue(
    pre: Seq<ItemRefV>,
    rest: Result<Seq<ItemRefV>, EPUBError>,
) -> Result<Seq<ItemRefV>, EPUBError> {
    match rest {
        Err(e) => Err(e),
        Ok(r) => Ok(pre + r),
    }
}

/// Collects every reading-order entry among the children, in document
/// order, aborting at the first idref failure.
fn collect_itemrefs(children: &Vec<XmlElement>) -> (r: Result<Vec<ItemRef>, EPUBError>)
    ensures
        (match r {
            Ok(v) => sp_itemrefs(elem_views(children@)) == Ok::<Seq<ItemRefV>, EPUBError>(
                seq_views(v@),
            ),
            Err(e) => sp_itemrefs(elem_views(children@)) == Err::<Seq<ItemRefV>, EPUBError>(e),
        }),
{
    let ghost cs = elem_views(children@);
    let mut out: Vec<ItemRef> = Vec::new();
    proof {
        crate::tree::lemma_elem_views_len(children@);
        assert(cs.skip(0) =~= cs);
        assert(sp_itemrefs_continue(seq_views(out@), sp_itemrefs(cs)) == sp_itemrefs(cs)) by {
            match sp_itemrefs(cs) {
                Ok(r) => {
                    assert(seq_views(out@) + r =~= r);
                },
                Err(_) => {},
            }
        }
    }
    let n = children.len();
    for i in 0..n
        invariant
            n == children.len(),
            cs == elem_views(children@),
            sp_itemrefs_continue(seq_views(out@), sp_itemrefs(cs.skip(i as int))) == sp_itemrefs(
                cs,
            ),
    {
        proof {
            crate::tree::lemma_elem_views_index(children@, i as int);
            assert(cs.skip(i as int).first() == cs[i as int]);
            assert(cs.skip(i as int).drop_first() =~= cs.skip(i + 1 as int));
        }
        let ghost pre = seq_views(out@);
        match ItemRef::from_element(&children[i]) {
            Err(e) => {
                return Err(e);
            },
            Ok(Some(x)) => {
                let ghost xv = x@;
                out.push(x);
                proof {
                    assert(seq_views(out@) =~= pre + seq![xv]);
                    match sp_itemrefs(cs.skip(i + 1 as int)) {
                        Ok(rest) => {
                            assert((pre + seq![xv]) + rest =~= pre + (seq![xv] + rest));
                        },
                        Err(_) => {},
                    }
                }
            },
            Ok(None) => {
                proof {
                    match sp_itemrefs(cs.skip(i + 1 as int)) {
                        Ok(rest) => {
                            assert(Seq::<ItemRefV>::empty() + rest =~= rest);
                        },
                        Err(_) => {},
                    }
                }
            },
        }
    }
    proof {
        assert(cs.skip(n as int) =~= Seq::<ElemV>::empty());
        match sp_itemrefs(cs) {
            Ok(r) => {
                assert(seq_views(out@) + Seq::<ItemRefV>::empty() =~= seq_views(out@));
            },
            Err(_) => {},
        }
    }
    Ok(out)
}

/// The decoded spine section: the default reading order, exactly as the
/// source gives it.
#[derive(Debug, Clone, PartialEq, Eq)]
pub struct Spine {
    pub id: Option<String>,
    pub page_progression_direction: Option<PageProgressionDirection>,
    pub items: Vec<ItemRef>,
}

/// Mathematical model of a `Spine`.
pub struct SpineV {
    pub id: Option<Seq<char>>,
    pub page_progression_direction: Option<PageProgressionDirection>,
    pub items: Seq<ItemRefV>,
}

impl View for Spine {
    type V = SpineV;

    open spec fn view(&self) -> SpineV {
        SpineV {
            id: opt_str_view(self.id),
            page_progression_direction: self.page_progression_direction,
            items: seq_views(self.items@),
        }
    }
}

/// What decoding the spine section of a package element yields. The section
/// is located by local name; its absence and a missing idref each abort
/// with the classified failure. An unrecognized page progression direction
/// counts as absent, and the itemref order is the source document order,
/// exactly.
pub open spec fn sp_spine(pkg: ElemV) -> Result<SpineV, EPUBError> {
    match sp_find_section(sp_children(pkg), "spine"@) {
        None => Err(EPUBError::StructuralError(MissingElement::Spine)),
        Some(m) => {
            let id = sp_get_attr(sp_attrs(m), "id"@);
            let ppd = (match sp_get_attr(sp_attrs(m), "page-progression-direction"@) {
                Some(s) => sp_ppd_of(s),
                None => None,
            });
            match sp_itemrefs(sp_children(m)) {
                Err(e) => Err(e),
                Ok(items) => Ok(SpineV { id, page_progression_direction: ppd, items }),
            }
        },
    }
}

impl Spine {
    /// Decodes the spine section found among the package element's
    /// children, preserving the source's itemref order exactly.
    pub fn new(package_element: &XmlElement) -> (r: Result<Spine, EPUBError>)
        ensures
            res_view(r) == sp_spine(package_element@),
    {
        let m = match crate::tree::section_of(package_element, "spine") {
            Some(m) => m,
            None => {
                return Err(EPUBError::StructuralError(MissingElement::Spine));
            },
        };
        proof {
            crate::tree::lemma_find_section_elem(sp_children(package_element@), "spine"@);
        }
        let attrs = crate::tree::attributes_of(m);
        let id = crate::markup::get_attr(&attrs, "id");
        let page_progression_direction = match crate::markup::get_attr(
            &attrs,
            "page-progression-direction",
        ) {
            Some(s) => match PageProgressionDirection::from_str(s.as_str()) {
                Ok(d) => Some(d),
                Err(_) => None,
            },
            None => None,
        };
        let mcs = crate::tree::element_children(m);
        let items = match collect_itemrefs(mcs) {
            Ok(v) => v,
            Err(e) => {
                return Err(e);
            },
        };
        Ok(Spine { id, page_progression_direction, items })
    }
}


/// An itemref element carrying no `linear` attribute yields an entry whose
/// linear flag is absent — and `effective_linear` then yields the default,
/// linear.
pub proof fn lemma_linear_default(e: ElemV, ir: ItemRefV)
    requires
        sp_itemref_of(e) == Ok::<Option<ItemRefV>, EPUBError>(Some(ir)),
        sp_get_attr(sp_attrs(e), "linear"@) is None,
    ensures
        ir.linear is None,
{
}

} // verus!
