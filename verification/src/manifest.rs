//! The manifest decoder: the complete list of publication resources, each
//! with its classified media type and property set, validated by the
//! fallback-chain walker.

use vstd::prelude::*;

use crate::error::{res_view, EPUBError, FallbackFault, MissingAttribute, MissingElement};
use crate::markup::{
    opf_ns, opf_ns_str, opt_str_view, opt_view, qname_is, seq_views, sp_get_attr, sp_qname_is,
    str_eq,
};
use crate::media_type::{sp_classify, ApplicationType, MediaType, MediaTypeV};
use crate::tree::{
    elem_views, sp_attrs, sp_children, sp_find_section, ElemV, NodeKind, XmlElement,
};
use vstd::string::StrSliceExecFns;

verus! {

/// The recognized manifest item property tokens.
#[allow(non_camel_case_types)]
#[derive(Debug, Clone, Copy, PartialEq, Eq, Hash, Structural)]
pub enum ManifestItemProperty {
    cover_image,
    mathml,
    nav,
    remote_resources,
    scripted,
    svg,
    switch,
}

/// The item property a token names, if any.
pub open spec fn sp_property_of(s: Seq<char>) -> Option<ManifestItemProperty> {
    if s == "cover-image"@ {
        Some(ManifestItemProperty::cover_image)
    } else if s == "mathml"@ {
        Some(ManifestItemProperty::mathml)
    } else if s == "nav"@ {
        Some(ManifestItemProperty::nav)
    } else if s == "remote_resources"@ {
        Some(ManifestItemProperty::remote_resources)
    } else if s == "scripted"@ {
        Some(ManifestItemProperty::scripted)
    } else if s == "svg"@ {
        Some(ManifestItemProperty::svg)
    } else if s == "switch"@ {
        Some(ManifestItemProperty::switch)
    } else {
        None
    }
}

impl ManifestItemProperty {
    /// The item property a token names.
    pub fn from_str(s: &str) -> (r: Result<ManifestItemProperty, ()>)
        ensures
            (match r {
                Ok(p) => sp_property_of(s@) == Some(p),
                Err(_) => sp_property_of(s@) is None,
            }),
    {
        if str_eq(s, "cover-image") {
            Ok(ManifestItemProperty::cover_image)
        } else if str_eq(s, "mathml") {
            Ok(ManifestItemProperty::mathml)
        } else if str_eq(s, "nav") {
            Ok(ManifestItemProperty::nav)
        } else if str_eq(s, "remote_resources") {
            Ok(ManifestItemProperty::remote_resources)
        } else if str_eq(s, "scripted") {
            Ok(ManifestItemProperty::scripted)
        } else if str_eq(s, "svg") {
            Ok(ManifestItemProperty::svg)
        } else if str_eq(s, "switch") {
            Ok(ManifestItemProperty::switch)
        } else {
            Err(())
        }
    }

    /// The token naming this item property.
    pub fn to_string(&self) -> (r: String)
        ensures
            (match self {
                ManifestItemProperty::cover_image => r@ == "cover-image"@,
                ManifestItemProperty::mathml => r@ == "mathml"@,
                ManifestItemProperty::nav => r@ == "nav"@,
                ManifestItemProperty::remote_resources => r@ == "remote-resources"@,
                ManifestItemProperty::scripted => r@ == "scripted"@,
                ManifestItemProperty::svg => r@ == "svg"@,
                ManifestItemProperty::switch => r@ == "switch"@,
            }),
    {
        match self {
            ManifestItemProperty::cover_image => String::from_str("cover-image"),
            ManifestItemProperty::mathml => String::from_str("mathml"),
            ManifestItemProperty::nav => String::from_str("nav"),
            ManifestItemProperty::remote_resources => String::from_str("remote-resources"),
            ManifestItemProperty::scripted => String::from_str("scripted"),
            ManifestItemProperty::svg => String::from_str("svg"),
            ManifestItemProperty::switch => String::from_str("switch"),
        }
    }
}

/// Whether a character separates property tokens.
pub open spec fn sp_is_ws(c: char) -> bool {
    c == ' ' || c == '\t' || c == '\n' || c == '\r'
}

/// Whether a character separates property tokens.
fn is_ws_char(c: char) -> (r: bool)
    ensures
        r == sp_is_ws(c),
{
    c == ' ' || c == '\t' || c == '\n' || c == '\r'
}

/// How many characters the leading token runs: up to the first separator.
pub open spec fn sp_word_len(s: Seq<char>) -> nat
    decreases s.len(),
{
    if s.len() == 0 || sp_is_ws(s.first()) {
        0
    } else {
        1 + sp_word_len(s.drop_first())
    }
}

/// The leading token never runs past the end of the string.
proof fn lemma_word_len_le(s: Seq<char>)
    ensures
        sp_word_len(s) <= s.len(),
    decreases s.len(),
{
    if s.len() > 0 && !sp_is_ws(s.first()) {
        lemma_word_len_le(s.drop_first());
    }
}

/// The whitespace-separated tokens of a string, in order.
pub open spec fn sp_split_ws(s: Seq<char>) -> Seq<Seq<char>>
    decreases s.len(),
    via sp_split_ws_dec
{
    if s.len() == 0 {
        Seq::empty()
    } else if sp_is_ws(s.first()) {
        sp_split_ws(s.drop_first())
    } else {
        seq![s.take(sp_word_len(s) as int)] + sp_split_ws(s.skip(sp_word_len(s) as int))
    }
}

#[via_fn]
proof fn sp_split_ws_dec(s: Seq<char>) {
    if s.len() > 0 && !sp_is_ws(s.first()) {
        lemma_word_len_le(s);
    }
}

/// A run of token characters bounded by a separator or the end has exactly
/// the leading token's length.
proof fn lemma_word_len(t: Seq<char>, k: int)
    requires
        0 <= k <= t.len(),
        forall|m: int| 0 <= m < k ==> !sp_is_ws(#[trigger] t[m]),
        k == t.len() || sp_is_ws(t[k]),
    ensures
        sp_word_len(t) == k,
    decreases k,
{
    if k == 0 {
    } else {
        assert(!sp_is_ws(t[0]));
        lemma_word_len(t.drop_first(), k - 1);
    }
}

/// Splits a string at whitespace into its tokens, in order.
fn split_whitespace_list(s: &str) -> (r: Vec<String>)
    ensures
        seq_views(r@) == sp_split_ws(s@),
{
    let len = s.unicode_len();
    let mut out: Vec<String> = Vec::new();
    let mut i: usize = 0;
    proof {
        assert(s@.skip(0) =~= s@);
        assert(seq_views(out@) + sp_split_ws(s@) =~= sp_split_ws(s@));
    }
    while i < len
        invariant
            i <= len,
            len == s@.len(),
            seq_views(out@) + sp_split_ws(s@.skip(i as int)) == sp_split_ws(s@),
        decreases len - i,
    {
        let c = s.get_char(i);
        if is_ws_char(c) {
            proof {
                assert(s@.skip(i as int).first() == s@[i as int]);
                assert(s@.skip(i as int).drop_first() =~= s@.skip(i + 1 as int));
            }
            i = i + 1;
        } else {
            let mut j: usize = i + 1;
            loop
                invariant
                    i < j <= len,
                    len == s@.len(),
                    forall|m: int| i <= m < j ==> !sp_is_ws(#[trigger] s@[m]),
                ensures
                    j == len || sp_is_ws(s@[j as int]),
                decreases len - j,
            {
                if j >= len {
                    break;
                }
                let cj = s.get_char(j);
                if is_ws_char(cj) {
                    break;
                }
                j = j + 1;
            }
            let word = s.substring_char(i, j).to_owned();
            let ghost pre = seq_views(out@);
            let ghost wordv = word@;
            out.push(word);
            proof {
                let t = s@.skip(i as int);
                lemma_word_len(t, j - i as int);
                assert(t.take(j - i as int) =~= s@.subrange(i as int, j as int));
                assert(t.skip(j - i as int) =~= s@.skip(j as int));
                assert(sp_split_ws(t) == seq![wordv] + sp_split_ws(s@.skip(j as int)));
                assert(seq_views(out@) =~= pre + seq![wordv]);
                assert(seq_views(out@) + sp_split_ws(s@.skip(j as int)) =~= sp_split_ws(s@));
            }
            i = j;
        }
    }
    proof {
        assert(s@.skip(len as int) =~= Seq::<char>::empty());
    }
    out
}

/// The recognized properties among a list of tokens, in order; unrecognized
/// tokens are dropped silently.
pub open spec fn sp_props_parse(ws: Seq<Seq<char>>) -> Seq<ManifestItemProperty>
    decreases ws.len(),
{
    if ws.len() == 0 {
        Seq::empty()
    } else {
        (match sp_property_of(ws.first()) {
            Some(p) => seq![p],
            None => Seq::empty(),
        }) + sp_props_parse(ws.drop_first())
    }
}

/// The property set a `properties` attribute value names: its
/// whitespace-separated tokens, each mapped through the property table,
/// unrecognized tokens dropped silently.
pub open spec fn sp_properties_of(s: Seq<char>) -> Seq<ManifestItemProperty> {
    sp_props_parse(sp_split_ws(s))
}

/// Parses a `properties` attribute value into the recognized property set.
fn parse_properties(s: &str) -> (r: Vec<ManifestItemProperty>)
    ensures
        r@ == sp_properties_of(s@),
{
    let words = split_whitespace_list(s);
    let ghost ws = seq_views(words@);
    let mut out: Vec<ManifestItemProperty> = Vec::new();
    proof {
        assert(ws.skip(0) =~= ws);
        assert(out@ + sp_props_parse(ws) =~= sp_props_parse(ws));
    }
    let n = words.len();
    for i in 0..n
        invariant
            n == words.len(),
            ws == seq_views(words@),
            out@ + sp_props_parse(ws.skip(i as int)) == sp_props_parse(ws),
    {
        proof {
            assert(ws.skip(i as int).first() == ws[i as int]);
            assert(ws.skip(i as int).drop_first() =~= ws.skip(i + 1 as int));
        }
        let ghost pre = out@;
        match ManifestItemProperty::from_str(words[i].as_str()) {
            Ok(p) => {
                out.push(p);
                proof {
                    assert(out@ =~= pre + seq![p]);
                }
            },
            Err(_) => {},
        }
        proof {
            assert(out@ + sp_props_parse(ws.skip(i + 1 as int)) =~= sp_props_parse(ws));
        }
    }
    proof {
        assert(ws.skip(n as int) =~= Seq::<Seq<char>>::empty());
    }
    out
}


/// One publication resource of the manifest: its id (unique within the
/// manifest), location, classified media type, optional fallback and media
/// overlay references, and property set.
#[derive(Debug, Clone, PartialEq, Eq, Hash)]
pub struct Item {
    pub fallback: Option<String>,
    pub href: String,
    pub id: String,
    pub media_overlay: Option<String>,
    pub media_type: MediaType,
    pub properties: Vec<ManifestItemProperty>,
}

/// Mathematical model of an `Item`.
pub struct ItemV {
    pub fallback: Option<Seq<char>>,
    pub href: Seq<char>,
    pub id: Seq<char>,
    pub media_overlay: Option<Seq<char>>,
    pub media_type: MediaTypeV,
    pub properties: Seq<ManifestItemProperty>,
}

impl View for Item {
    type V = ItemV;

    open spec fn view(&self) -> ItemV {
        ItemV {
            fallback: opt_str_view(self.fallback),
            href: self.href@,
            id: self.id@,
            media_overlay: opt_str_view(self.media_overlay),
            media_type: self.media_type@,
            properties: self.properties@,
        }
    }
}

/// What an `item` element yields: the parsed resource record, nothing for a
/// node that is no `item` element, or the classified failure when a required
/// attribute is absent. A missing media type falls back to the XHTML default
/// and an unrecognized one is classified, never rejected.
pub open spec fn sp_item_of(e: ElemV) -> Result<Option<ItemV>, EPUBError> {
    match e {
        ElemV::Element { name, attributes, .. } => if sp_qname_is(
            name,
            None,
            "item"@,
            Some(opf_ns()),
        ) {
            match sp_get_attr(attributes, "id"@) {
                None => Err(EPUBError::AttributeError(MissingAttribute::ItemId)),
                Some(id) => match sp_get_attr(attributes, "href"@) {
                    None => Err(EPUBError::AttributeError(MissingAttribute::ItemHref)),
                    Some(href) => Ok(
                        Some(
                            ItemV {
                                fallback: sp_get_attr(attributes, "fallback"@),
                                href,
                                id,
                                media_overlay: sp_get_attr(attributes, "media-overlay"@),
                                media_type: (match sp_get_attr(attributes, "media-type"@) {
                                    Some(mt) => sp_classify(mt),
                                    None => MediaTypeV::Application(ApplicationType::XHTML),
                                }),
                                properties: (match sp_get_attr(attributes, "properties"@) {
                                    Some(p) => sp_properties_of(p),
                                    None => Seq::empty(),
                                }),
                            },
                        ),
                    ),
                },
            }
        } else {
            Ok(None)
        },
        _ => Ok(None),
    }
}

impl Item {
    /// Reads one `item` element; any other node yields nothing, and an
    /// `item` without id or href fails with the classified attribute error.
    pub fn from_element(e: &XmlElement) -> (r: Result<Option<Item>, EPUBError>)
        ensures
            (match r {
                Ok(o) => sp_item_of(e@) == Ok::<Option<ItemV>, EPUBError>(opt_view(o)),
                Err(err) => sp_item_of(e@) == Err::<Option<ItemV>, EPUBError>(err),
            }),
    {
        match &e.kind {
            NodeKind::Element { name, attributes } => {
                if qname_is(name, None, "item", Some(opf_ns_str())) {
                    let id = match crate::markup::get_attr(attributes, "id") {
                        Some(id) => id,
                        None => {
                            return Err(EPUBError::AttributeError(MissingAttribute::ItemId));
                        },
                    };
                    let href = match crate::markup::get_attr(attributes, "href") {
                        Some(href) => href,
                        None => {
                            return Err(EPUBError::AttributeError(MissingAttribute::ItemHref));
                        },
                    };
                    let fallback = crate::markup::get_attr(attributes, "fallback");
                    let media_overlay = crate::markup::get_attr(attributes, "media-overlay");
                    let media_type = match crate::markup::get_attr(attributes, "media-type") {
                        Some(mt) => MediaType::from_mime(mt.as_str()),
                        None => MediaType::default(),
                    };
                    let properties = match crate::markup::get_attr(attributes, "properties") {
                        Some(p) => parse_properties(p.as_str()),
                        None => Vec::new(),
                    };
                    Ok(Some(Item { fallback, href, id, media_overlay, media_type, properties }))
                } else {
                    Ok(None)
                }
            },
            _ => Ok(None),
        }
    }
}

/// The item records of a manifest element's children, in document order; the
/// first attribute failure aborts the collection.
pub open spec fn sp_items(cs: Seq<ElemV>) -> Result<Seq<ItemV>, EPUBError>
    decreases cs.len(),
{
    if cs.len() == 0 {
        Ok(Seq::empty())
    } else {
        match sp_item_of(cs.first()) {
            Err(e) => Err(e),
            Ok(opt) => match sp_items(cs.drop_first()) {
                Err(e) => Err(e),
                Ok(rest) => Ok(
                    (match opt {
                        Some(x) => seq![x],
                        None => Seq::empty(),
                    }) + rest,
                ),
            },
        }
    }
}

/// A collection already gathered, continued by the rest's outcome.
pub open spec fn sp_items_continue(pre: Seq<ItemV>, rest: Result<Seq<ItemV>, EPUBError>) -> Result<
    Seq<ItemV>,
    EPUBError,
> {
    match rest {
        Err(e) => Err(e),
        Ok(r) => Ok(pre + r),
    }
}

/// Collects every item record among the children, in document order,
/// aborting at the first attribute failure.
fn collect_items(children: &Vec<XmlElement>) -> (r: Result<Vec<Item>, EPUBError>)
    ensures
        (match r {
            Ok(v) => sp_items(elem_views(children@)) == Ok::<Seq<ItemV>, EPUBError>(seq_views(v@)),
            Err(e) => sp_items(elem_views(children@)) == Err::<Seq<ItemV>, EPUBError>(e),
        }),
{
    let ghost cs = elem_views(children@);
    let mut out: Vec<Item> = Vec::new();
    proof {
        crate::tree::lemma_elem_views_len(children@);
        assert(cs.skip(0) =~= cs);
        assert(sp_items_continue(seq_views(out@), sp_items(cs)) == sp_items(cs)) by {
            match sp_items(cs) {
                Ok(r) => {
                    assert(seq_views(out@) + r =~= r);
                },
                Err(_) => {},
            }
        }
    }
    let n = children.len();
    for i in 0..n
        invariant
            n == children.len(),
            cs == elem_views(children@),
            sp_items_continue(seq_views(out@), sp_items(cs.skip(i as int))) == sp_items(cs),
    {
        proof {
            crate::tree::lemma_elem_views_index(children@, i as int);
            assert(cs.skip(i as int).first() == cs[i as int]);
            assert(cs.skip(i as int).drop_first() =~= cs.skip(i + 1 as int));
        }
        let ghost pre = seq_views(out@);
        match Item::from_element(&children[i]) {
            Err(e) => {
                proof {
                    assert(sp_items(cs.skip(i as int)) == Err::<Seq<ItemV>, EPUBError>(e));
                }
                return Err(e);
            },
            Ok(Some(x)) => {
                let ghost xv = x@;
                out.push(x);
                proof {
                    assert(seq_views(out@) =~= pre + seq![xv]);
                    match sp_items(cs.skip(i + 1 as int)) {
                        Ok(rest) => {
                            assert((pre + seq![xv]) + rest =~= pre + (seq![xv] + rest));
                        },
                        Err(_) => {},
                    }
                }
            },
            Ok(None) => {
                proof {
                    match sp_items(cs.skip(i + 1 as int)) {
                        Ok(rest) => {
                            assert(Seq::<ItemV>::empty() + rest =~= rest);
                        },
                        Err(_) => {},
                    }
                }
            },
        }
    }
    proof {
        assert(cs.skip(n as int) =~= Seq::<ElemV>::empty());
        match sp_items(cs) {
            Ok(r) => {
                assert(seq_views(out@) + Seq::<ItemV>::empty() =~= seq_views(out@));
            },
            Err(_) => {},
        }
    }
    Ok(out)
}


/// Whether two items of the list share an id.
pub open spec fn sp_has_dup(items: Seq<ItemV>) -> bool {
    exists|a: int, b: int| 0 <= a < b < items.len() && items[a].id == items[b].id
}

/// Decides whether any two items share an id.
fn has_duplicate_id(items: &Vec<Item>) -> (r: bool)
    ensures
        r == sp_has_dup(seq_views(items@)),
{
    let ghost ivs = seq_views(items@);
    let n = items.len();
    for i in 0..n
        invariant
            n == items.len(),
            ivs == seq_views(items@),
            forall|a: int, b: int| 0 <= a < b < n && a < i ==> ivs[a].id != ivs[b].id,
    {
        for j in (i + 1)..n
            invariant
                i < n,
                n == items.len(),
                ivs == seq_views(items@),
                forall|a: int, b: int| 0 <= a < b < n && a < i ==> ivs[a].id != ivs[b].id,
                forall|b: int| i < b < j ==> ivs[i as int].id != #[trigger] ivs[b].id,
        {
            if str_eq(items[i].id.as_str(), items[j].id.as_str()) {
                proof {
                    assert(ivs[i as int].id == ivs[j as int].id);
                }
                return true;
            }
        }
    }
    proof {
        assert(!sp_has_dup(ivs));
    }
    false
}

/// The first item of the list carrying the given id, in document order.
pub open spec fn sp_item_by_id(items: Seq<ItemV>, id: Seq<char>) -> Option<ItemV>
    decreases items.len(),
{
    if items.len() == 0 {
        None
    } else if items.first().id == id {
        Some(items.first())
    } else {
        sp_item_by_id(items.drop_first(), id)
    }
}

/// Looks an item up by id, returning the first match in document order.
pub(crate) fn item_by_id<'a>(items: &'a Vec<Item>, id: &str) -> (r: Option<&'a Item>)
    ensures
        (match r {
            Some(x) => sp_item_by_id(seq_views(items@), id@) == Some(x@),
            None => sp_item_by_id(seq_views(items@), id@) is None,
        }),
{
    let ghost ivs = seq_views(items@);
    proof {
        assert(ivs.skip(0) =~= ivs);
    }
    let n = items.len();
    for i in 0..n
        invariant
            n == items.len(),
            ivs == seq_views(items@),
            sp_item_by_id(ivs, id@) == sp_item_by_id(ivs.skip(i as int), id@),
    {
        proof {
            assert(ivs.skip(i as int).first() == ivs[i as int]);
        }
        if str_eq(items[i].id.as_str(), id) {
            return Some(&items[i]);
        }
        assert(ivs.skip(i as int).drop_first() =~= ivs.skip(i + 1 as int));
    }
    assert(ivs.skip(n as int) =~= Seq::<ItemV>::empty());
    None
}

/// One fallback walk, bounded by `fuel` steps. A core-media-type item ends
/// the walk; a non-core item must name a fallback, the fallback must target
/// an id present among the items, and an id seen twice on the same walk is a
/// circular chain.
pub open spec fn sp_chain(
    items: Seq<ItemV>,
    visited: Seq<Seq<char>>,
    it: ItemV,
    fuel: nat,
) -> Result<(), FallbackFault>
    decreases fuel,
{
    if !(it.media_type is Unrecognized) {
        Ok(())
    } else {
        match it.fallback {
            None => Err(FallbackFault::MissingFallback),
            Some(fid) => match sp_item_by_id(items, fid) {
                None => Err(FallbackFault::MissingTarget),
                Some(target) => if visited.contains(fid) {
                    Err(FallbackFault::Circular)
                } else if fuel == 0 {
                    Err(FallbackFault::Circular)
                } else {
                    sp_chain(items, visited.push(fid), target, (fuel - 1) as nat)
                },
            },
        }
    }
}

/// The fallback walk an item must pass: from the item, with nothing visited
/// and one step of room per item.
pub open spec fn sp_validate_item(items: Seq<ItemV>, it: ItemV) -> Result<(), FallbackFault> {
    sp_chain(items, Seq::empty(), it, items.len() + 1)
}

/// Decides whether a string list holds the given string.
fn contains_string(v: &Vec<String>, s: &str) -> (r: bool)
    ensures
        r == seq_views(v@).contains(s@),
{
    let n = v.len();
    for i in 0..n
        invariant
            n == v.len(),
            forall|j: int| 0 <= j < i ==> seq_views(v@)[j] != s@,
    {
        if str_eq(v[i].as_str(), s) {
            proof {
                assert(seq_views(v@)[i as int] == s@);
            }
            return true;
        }
    }
    proof {
        assert(!seq_views(v@).contains(s@));
    }
    false
}

/// Walks one item's fallback chain through the id index, reporting exactly
/// how the chain breaks if it does.
fn validate_chain<'a>(items: &'a Vec<Item>, start: &'a Item) -> (r: Result<(), FallbackFault>)
    ensures
        r == sp_validate_item(seq_views(items@), start@),
{
    let ghost ivs = seq_views(items@);
    let mut visited: Vec<String> = Vec::new();
    let mut fuel: usize = items.len();
    let mut cur: &Item = start;
    let mut first_step = true;
    proof {
        assert(seq_views(visited@) =~= Seq::<Seq<char>>::empty());
    }
    loop
        invariant
            ivs == seq_views(items@),
            (if first_step {
                fuel == items@.len() && visited@.len() == 0 && cur == start
            } else {
                true
            }),
            sp_chain(
                ivs,
                seq_views(visited@),
                cur@,
                fuel as nat + (if first_step {
                    1nat
                } else {
                    0nat
                }),
            ) == sp_validate_item(ivs, start@),
        decreases fuel + (if first_step {
            1int
        } else {
            0int
        }),
    {
        if cur.media_type.is_core_media_type() {
            return Ok(());
        }
        match &cur.fallback {
            None => {
                return Err(FallbackFault::MissingFallback);
            },
            Some(fid) => {
                match item_by_id(items, fid.as_str()) {
                    None => {
                        return Err(FallbackFault::MissingTarget);
                    },
                    Some(target) => {
                        if contains_string(&visited, fid.as_str()) {
                            return Err(FallbackFault::Circular);
                        }
                        if first_step {
                            first_step = false;
                        } else {
                            if fuel == 0 {
                                return Err(FallbackFault::Circular);
                            }
                            fuel = fuel - 1;
                        }
                        let ghost prev_visited = seq_views(visited@);
                        visited.push(fid.clone());
                        proof {
                            assert(seq_views(visited@) =~= prev_visited.push(fid@));
                        }
                        cur = target;
                    },
                }
            },
        }
    }
}


/// The fallback walks every item must pass, in document order; the first
/// broken chain is reported.
pub open spec fn sp_validate_seq(items: Seq<ItemV>, rest: Seq<ItemV>) -> Result<
    (),
    FallbackFault,
>
    decreases rest.len(),
{
    if rest.len() == 0 {
        Ok(())
    } else {
        match sp_validate_item(items, rest.first()) {
            Err(f) => Err(f),
            Ok(_) => sp_validate_seq(items, rest.drop_first()),
        }
    }
}

/// Walks every item's fallback chain, in document order, reporting the
/// first broken one.
fn validate_all(items: &Vec<Item>) -> (r: Result<(), FallbackFault>)
    ensures
        r == sp_validate_seq(seq_views(items@), seq_views(items@)),
{
    let ghost ivs = seq_views(items@);
    proof {
        assert(ivs.skip(0) =~= ivs);
    }
    let n = items.len();
    for i in 0..n
        invariant
            n == items.len(),
            ivs == seq_views(items@),
            sp_validate_seq(ivs, ivs) == sp_validate_seq(ivs, ivs.skip(i as int)),
    {
        proof {
            assert(ivs.skip(i as int).first() == ivs[i as int]);
        }
        match validate_chain(items, &items[i]) {
            Err(f) => {
                return Err(f);
            },
            Ok(_) => {},
        }
        assert(ivs.skip(i as int).drop_first() =~= ivs.skip(i + 1 as int));
    }
    assert(ivs.skip(n as int) =~= Seq::<ItemV>::empty());
    Ok(())
}

/// The first item, in document order, carrying the given property.
pub open spec fn sp_find_with_prop(items: Seq<ItemV>, p: ManifestItemProperty) -> Option<ItemV>
    decreases items.len(),
{
    if items.len() == 0 {
        None
    } else if items.first().properties.contains(p) {
        Some(items.first())
    } else {
        sp_find_with_prop(items.drop_first(), p)
    }
}

/// Decides whether an item carries the given property.
fn has_property(it: &Item, p: ManifestItemProperty) -> (r: bool)
    ensures
        r == it@.properties.contains(p),
{
    let n = it.properties.len();
    for i in 0..n
        invariant
            n == it.properties.len(),
            forall|j: int| 0 <= j < i ==> it.properties@[j] != p,
    {
        if it.properties[i] == p {
            return true;
        }
    }
    proof {
        assert(!it@.properties.contains(p));
    }
    false
}

/// Finds the first item, in document order, carrying the given property.
fn find_with_property<'a>(items: &'a Vec<Item>, p: ManifestItemProperty) -> (r: Option<
    &'a Item,
>)
    ensures
        (match r {
            Some(x) => sp_find_with_prop(seq_views(items@), p) == Some(x@),
            None => sp_find_with_prop(seq_views(items@), p) is None,
        }),
{
    let ghost ivs = seq_views(items@);
    proof {
        assert(ivs.skip(0) =~= ivs);
    }
    let n = items.len();
    for i in 0..n
        invariant
            n == items.len(),
            ivs == seq_views(items@),
            sp_find_with_prop(ivs, p) == sp_find_with_prop(ivs.skip(i as int), p),
    {
        proof {
            assert(ivs.skip(i as int).first() == ivs[i as int]);
        }
        if has_property(&items[i], p) {
            return Some(&items[i]);
        }
        assert(ivs.skip(i as int).drop_first() =~= ivs.skip(i + 1 as int));
    }
    assert(ivs.skip(n as int) =~= Seq::<ItemV>::empty());
    None
}

/// Copies a media-type classification, preserving its model.
fn clone_media_type(m: &MediaType) -> (r: MediaType)
    ensures
        r@ == m@,
{
    match m {
        MediaType::Image(t) => MediaType::Image(*t),
        MediaType::Application(t) => MediaType::Application(*t),
        MediaType::Audio(t) => MediaType::Audio(*t),
        MediaType::Text(t) => MediaType::Text(*t),
        MediaType::Unrecognized(s) => MediaType::Unrecognized(s.clone()),
    }
}

/// Copies a property list, preserving its model.
fn copy_properties(v: &Vec<ManifestItemProperty>) -> (r: Vec<ManifestItemProperty>)
    ensures
        r@ == v@,
{
    let mut out: Vec<ManifestItemProperty> = Vec::new();
    let n = v.len();
    for i in 0..n
        invariant
            n == v.len(),
            out@ =~= v@.take(i as int),
    {
        out.push(v[i]);
        assert(out@ =~= v@.take(i + 1 as int));
    }
    assert(v@.take(n as int) =~= v@);
    out
}

/// Copies an item record, preserving its model.
fn clone_item(x: &Item) -> (r: Item)
    ensures
        r@ == x@,
{
    Item {
        fallback: crate::markup::clone_opt_string(&x.fallback),
        href: x.href.clone(),
        id: x.id.clone(),
        media_overlay: crate::markup::clone_opt_string(&x.media_overlay),
        media_type: clone_media_type(&x.media_type),
        properties: copy_properties(&x.properties),
    }
}

/// The decoded manifest section: the items in document order, the derived
/// navigation item (the one carrying `nav`), and the derived cover image
/// (the first carrying `cover-image`), if any.
#[derive(Debug, Clone, PartialEq, Eq)]
pub struct Manifest {
    pub id: Option<String>,
    pub items: Vec<Item>,
    pub cover_image: Option<Item>,
    pub nav: Item,
}

/// Mathematical model of a `Manifest`.
pub struct ManifestV {
    pub id: Option<Seq<char>>,
    pub items: Seq<ItemV>,
    pub cover_image: Option<ItemV>,
    pub nav: ItemV,
}

impl View for Manifest {
    type V = ManifestV;

    open spec fn view(&self) -> ManifestV {
        ManifestV {
            id: opt_str_view(self.id),
            items: seq_views(self.items@),
            cover_image: opt_view(self.cover_image),
            nav: self.nav@,
        }
    }
}

/// What decoding the manifest section of a package element yields. The
/// section is located by local name; its absence, a missing required item
/// attribute, two items sharing an id, a broken fallback chain and the
/// absence of any navigation item each abort with the classified failure,
/// in that order. When several items carry `nav` or `cover-image`, the
/// first in document order wins, a deterministic tie-break.
pub open spec fn sp_manifest(pkg: ElemV) -> Result<ManifestV, EPUBError> {
    match sp_find_section(sp_children(pkg), "manifest"@) {
        None => Err(EPUBError::StructuralError(MissingElement::Manifest)),
        Some(m) => {
            let id = sp_get_attr(sp_attrs(m), "id"@);
            match sp_items(sp_children(m)) {
                Err(e) => Err(e),
                Ok(items) => if sp_has_dup(items) {
                    Err(EPUBError::DuplicateIdError)
                } else {
                    match sp_validate_seq(items, items) {
                        Err(f) => Err(EPUBError::FallbackChainError(f)),
                        Ok(_) => match sp_find_with_prop(items, ManifestItemProperty::nav) {
                            None => Err(EPUBError::StructuralError(MissingElement::NavItem)),
                            Some(nav) => Ok(
                                ManifestV {
                                    id,
                                    items,
                                    cover_image: sp_find_with_prop(
                                        items,
                                        ManifestItemProperty::cover_image,
                                    ),
                                    nav,
                                },
                            ),
                        },
                    }
                },
            }
        },
    }
}

impl Manifest {
    /// Decodes the manifest section found among the package element's
    /// children: parses every item, rejects duplicate ids, walks every
    /// fallback chain, and derives the navigation and cover-image items.
    pub fn new(package_element: &XmlElement) -> (r: Result<Manifest, EPUBError>)
        ensures
            res_view(r) == sp_manifest(package_element@),
    {
        let m = match crate::tree::section_of(package_element, "manifest") {
            Some(m) => m,
            None => {
                return Err(EPUBError::StructuralError(MissingElement::Manifest));
            },
        };
        proof {
            crate::tree::lemma_find_section_elem(sp_children(package_element@), "manifest"@);
        }
        let attrs = crate::tree::attributes_of(m);
        let id = crate::markup::get_attr(&attrs, "id");
        let mcs = crate::tree::element_children(m);
        let items = match collect_items(mcs) {
            Ok(v) => v,
            Err(e) => {
                return Err(e);
            },
        };
        if has_duplicate_id(&items) {
            return Err(EPUBError::DuplicateIdError);
        }
        match validate_all(&items) {
            Err(f) => {
                return Err(EPUBError::FallbackChainError(f));
            },
            Ok(_) => {},
        }
        let nav = match find_with_property(&items, ManifestItemProperty::nav) {
            Some(x) => clone_item(x),
            None => {
                return Err(EPUBError::StructuralError(MissingElement::NavItem));
            },
        };
        let cover_image = match find_with_property(&items, ManifestItemProperty::cover_image) {
            Some(x) => Some(clone_item(x)),
            None => None,
        };
        Ok(Manifest { id, items, cover_image, nav })
    }
}


/// An item of the list carries the sought id wherever the lookup resolves.
proof fn lemma_by_id_member(items: Seq<ItemV>, id: Seq<char>)
    requires
        sp_item_by_id(items, id) is Some,
    ensures
        items.map_values(|it: ItemV| it.id).contains(id),
    decreases items.len(),
{
    if items.len() > 0 {
        if items.first().id == id {
            assert(items.map_values(|it: ItemV| it.id)[0] == id);
        } else {
            lemma_by_id_member(items.drop_first(), id);
            let sub = items.drop_first().map_values(|it: ItemV| it.id);
            let k = choose|k: int| 0 <= k < sub.len() && sub[k] == id;
            assert(sub[k] == items[k + 1].id);
            assert(items.map_values(|it: ItemV| it.id)[k + 1] == id);
        }
    }
}

/// No more distinct ids can resolve against the items than there are items.
proof fn lemma_resolving_ids_bounded(items: Seq<ItemV>, ids: Seq<Seq<char>>)
    requires
        ids.no_duplicates(),
        forall|i: int| 0 <= i < ids.len() ==> sp_item_by_id(items, #[trigger] ids[i]) is Some,
    ensures
        ids.len() <= items.len(),
{
    broadcast use vstd::seq_lib::seq_to_set_is_finite;
    broadcast use vstd::set::group_set_axioms;

    let item_ids = items.map_values(|it: ItemV| it.id);
    assert forall|x: Seq<char>| ids.to_set().contains(x) implies item_ids.to_set().contains(
        x,
    ) by {
        lemma_by_id_member(items, x);
    }
    assert(ids.to_set().subset_of(item_ids.to_set()));
    ids.unique_seq_to_set();
    item_ids.lemma_cardinality_of_set();
    vstd::set_lib::lemma_len_subset(ids.to_set(), item_ids.to_set());
}

/// A manifest item whose fallback points to itself is a circular chain of
/// length one: its fallback walk fails with exactly that fault.
pub proof fn lemma_self_fallback_circular(items: Seq<ItemV>, it: ItemV)
    requires
        it.media_type is Unrecognized,
        it.fallback == Some(it.id),
        sp_item_by_id(items, it.id) == Some(it),
    ensures
        sp_validate_item(items, it) == Err::<(), FallbackFault>(FallbackFault::Circular),
{
    reveal_with_fuel(sp_chain, 3);
    let fid = it.id;
    let empty = Seq::<Seq<char>>::empty();
    assert(!empty.contains(fid));
    assert(empty.push(fid)[0] == fid);
    assert(empty.push(fid).contains(fid));
    assert(items.len() + 1 > 0);
    assert(sp_chain(items, empty.push(fid), it, (items.len() + 1 - 1) as nat) == Err::<
        (),
        FallbackFault,
    >(FallbackFault::Circular));
}

/// Two manifest items that fall back to each other are a circular chain of
/// length two: the walk from either fails with exactly that fault.
pub proof fn lemma_mutual_fallback_circular(items: Seq<ItemV>, a: ItemV, b: ItemV)
    requires
        a.media_type is Unrecognized,
        b.media_type is Unrecognized,
        a.id != b.id,
        a.fallback == Some(b.id),
        b.fallback == Some(a.id),
        sp_item_by_id(items, a.id) == Some(a),
        sp_item_by_id(items, b.id) == Some(b),
    ensures
        sp_validate_item(items, a) == Err::<(), FallbackFault>(FallbackFault::Circular),
{
    reveal_with_fuel(sp_chain, 4);
    let empty = Seq::<Seq<char>>::empty();
    assert(items.len() > 0) by {
        if items.len() == 0 {
            assert(sp_item_by_id(items, a.id) is None);
        }
    }
    assert(!empty.contains(b.id));
    let v1 = empty.push(b.id);
    assert(v1[0] == b.id);
    assert(!v1.contains(a.id));
    let v2 = v1.push(a.id);
    assert(v2[0] == b.id);
    assert(v2.contains(b.id));
    assert(sp_chain(items, v2, a, (items.len() + 1 - 2) as nat) == Err::<(), FallbackFault>(
        FallbackFault::Circular,
    ));
}

/// A finite acyclic fallback chain ending at a core media type passes the
/// fallback walk: `chain` lists the items along the walk, each non-core one
/// falling back to the next, with no id revisited and a core item at the
/// end.
pub proof fn lemma_acyclic_chain_ok(items: Seq<ItemV>, chain: Seq<ItemV>)
    requires
        chain.len() > 0,
        forall|i: int| 0 <= i < chain.len() - 1 ==> {
            &&& (#[trigger] chain[i]).media_type is Unrecognized
            &&& chain[i].fallback == Some(chain[i + 1].id)
            &&& sp_item_by_id(items, chain[i + 1].id) == Some(chain[i + 1])
        },
        !(chain.last().media_type is Unrecognized),
        forall|i: int, j: int|
            1 <= i < j < chain.len() ==> (#[trigger] chain[i]).id != (#[trigger] chain[j]).id,
    ensures
        sp_validate_item(items, chain.first()) == Ok::<(), FallbackFault>(()),
{
    let ids = chain.drop_first().map_values(|it: ItemV| it.id);
    assert(ids.no_duplicates()) by {
        assert forall|i: int, j: int| 0 <= i < j < ids.len() implies ids[i] != ids[j] by {
            assert(chain[i + 1].id != chain[j + 1].id);
        }
    }
    assert forall|i: int| 0 <= i < ids.len() implies sp_item_by_id(
        items,
        #[trigger] ids[i],
    ) is Some by {
        assert(chain[i].fallback == Some(chain[i + 1].id));
    }
    lemma_resolving_ids_bounded(items, ids);
    lemma_chain_steps_ok(items, Seq::empty(), chain, items.len() + 1);
}

/// The generalized walk along an acyclic chain: from any visited set that
/// avoids the chain's remaining ids, with at least one step of room per
/// remaining link, the walk reaches the core item.
proof fn lemma_chain_steps_ok(
    items: Seq<ItemV>,
    visited: Seq<Seq<char>>,
    chain: Seq<ItemV>,
    fuel: nat,
)
    requires
        chain.len() > 0,
        fuel >= chain.len() - 1,
        forall|i: int| 0 <= i < chain.len() - 1 ==> {
            &&& (#[trigger] chain[i]).media_type is Unrecognized
            &&& chain[i].fallback == Some(chain[i + 1].id)
            &&& sp_item_by_id(items, chain[i + 1].id) == Some(chain[i + 1])
        },
        !(chain.last().media_type is Unrecognized),
        forall|i: int| 1 <= i < chain.len() ==> !visited.contains(#[trigger] chain[i].id),
        forall|i: int, j: int|
            1 <= i < j < chain.len() ==> (#[trigger] chain[i]).id != (#[trigger] chain[j]).id,
    ensures
        sp_chain(items, visited, chain.first(), fuel) == Ok::<(), FallbackFault>(()),
    decreases chain.len(),
{
    if chain.len() == 1 {
    } else {
        let fid = chain[1].id;
        assert(chain[0].media_type is Unrecognized);
        assert(!visited.contains(fid));
        assert(fuel > 0);
        let rest = chain.drop_first();
        let visited2 = visited.push(fid);
        assert forall|i: int| 1 <= i < rest.len() implies !visited2.contains(
            #[trigger] rest[i].id,
        ) by {
            assert(rest[i] == chain[i + 1]);
            assert(chain[i + 1].id != fid);
            assert(!visited.contains(chain[i + 1].id));
            assert forall|k: int| 0 <= k < visited2.len() implies visited2[k] != rest[i].id by {
                if k < visited.len() {
                    assert(visited2[k] == visited[k]);
                } else {
                    assert(visited2[k] == fid);
                }
            }
        }
        assert forall|i: int| 0 <= i < rest.len() - 1 implies {
            &&& (#[trigger] rest[i]).media_type is Unrecognized
            &&& rest[i].fallback == Some(rest[i + 1].id)
            &&& sp_item_by_id(items, rest[i + 1].id) == Some(rest[i + 1])
        } by {
            assert(rest[i] == chain[i + 1]);
            assert(rest[i + 1] == chain[i + 2]);
        }
        assert forall|i: int, j: int| 1 <= i < j < rest.len() implies (
        #[trigger] rest[i]).id != (#[trigger] rest[j]).id by {
            assert(rest[i] == chain[i + 1]);
            assert(rest[j] == chain[j + 1]);
        }
        assert(rest.last() == chain.last());
        lemma_chain_steps_ok(items, visited2, rest, (fuel - 1) as nat);
        assert(rest.first() == chain[1]);
    }
}

/// A manifest with no item carrying the `nav` property has no navigation
/// item to derive.
proof fn lemma_no_prop_none(items: Seq<ItemV>, p: ManifestItemProperty)
    requires
        forall|i: int|
            0 <= i < items.len() ==> !(#[trigger] items[i]).properties.contains(p),
    ensures
        sp_find_with_prop(items, p) is None,
    decreases items.len(),
{
    if items.len() > 0 {
        assert(!items[0].properties.contains(p));
        lemma_no_prop_none(items.drop_first(), p);
    }
}

/// A manifest whose items parse, with unique ids and valid fallback chains,
/// but with zero items carrying the `nav` property, fails with exactly the
/// structural navigation failure.
pub proof fn lemma_no_nav_fails(pkg: ElemV, m: ElemV, items: Seq<ItemV>)
    requires
        sp_find_section(sp_children(pkg), "manifest"@) == Some(m),
        sp_items(sp_children(m)) == Ok::<Seq<ItemV>, EPUBError>(items),
        !sp_has_dup(items),
        sp_validate_seq(items, items) == Ok::<(), FallbackFault>(()),
        forall|i: int|
            0 <= i < items.len() ==> !(#[trigger] items[i]).properties.contains(
                ManifestItemProperty::nav,
            ),
    ensures
        sp_manifest(pkg) == Err::<ManifestV, EPUBError>(
            EPUBError::StructuralError(MissingElement::NavItem),
        ),
{
    lemma_no_prop_none(items, ManifestItemProperty::nav);
}

/// The first item carrying a property, when nothing before it carries it,
/// is the one found.
proof fn lemma_find_prop_at(items: Seq<ItemV>, p: ManifestItemProperty, k: int)
    requires
        0 <= k < items.len(),
        items[k].properties.contains(p),
        forall|i: int| 0 <= i < k ==> !(#[trigger] items[i]).properties.contains(p),
    ensures
        sp_find_with_prop(items, p) == Some(items[k]),
    decreases k,
{
    if k > 0 {
        assert(!items[0].properties.contains(p));
        lemma_find_prop_at(items.drop_first(), p, k - 1);
        assert(items.drop_first()[k - 1] == items[k]);
    }
}

/// When the manifest decodes and exactly one item carries the `nav`
/// property, the derived navigation reference is that item.
pub proof fn lemma_nav_unique(pkg: ElemV, mf: ManifestV, k: int)
    requires
        sp_manifest(pkg) == Ok::<ManifestV, EPUBError>(mf),
        0 <= k < mf.items.len(),
        mf.items[k].properties.contains(ManifestItemProperty::nav),
        forall|i: int|
            0 <= i < mf.items.len() && i != k ==> !(#[trigger] mf.items[i]).properties.contains(
                ManifestItemProperty::nav,
            ),
    ensures
        mf.nav == mf.items[k],
{
    lemma_find_prop_at(mf.items, ManifestItemProperty::nav, k);
}

} // verus!
