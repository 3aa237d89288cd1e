//! The tree builder: materializes a random-access forest of element trees
//! from the forward-only markup token stream.
//!
//! Decoding needs repeated lookups over the document, which a single-pass
//! token stream cannot provide. The builder folds the stream over an explicit
//! stack of open constructs (rather than recursing), so pathological nesting
//! is cut off at `DEPTH_LIMIT` instead of exhausting the call stack. A
//! malformed or prematurely exhausted stream yields no element for the
//! position it breaks at: every construct completed before that point is
//! kept, and malformed-document detection is left to the schema decoders.

use vstd::prelude::*;

use crate::markup::{
    attr_views, token_views, Attribute, AttributeV, QName, QNameV, Token, TokenV,
};

verus! {

/// Most deeply nested markup construct the builder will open; anything deeper
/// counts as malformed input.
pub const DEPTH_LIMIT: usize = 256;

/// What one tree node is: one markup construct, without its children.
#[derive(Debug, PartialEq, Eq)]
pub enum NodeKind {
    Element { name: QName, attributes: Vec<Attribute> },
    Document,
    Characters(String),
    CData(String),
    Whitespace(String),
    Comment(String),
    ProcessingInstruction { name: String, data: Option<String> },
}

/// One node of the materialized tree: a markup construct and the subtrees
/// nested in it, in document order. Leaf constructs have no children.
#[derive(Debug, PartialEq, Eq)]
pub struct XmlElement {
    pub kind: NodeKind,
    pub children: Vec<XmlElement>,
}

/// The materialized forest: one tree per completed top-level construct, in
/// document order.
#[derive(Debug, PartialEq, Eq)]
pub struct Xml {
    pub vec: Vec<XmlElement>,
}

/// Mathematical model of a tree node.
pub enum ElemV {
    Element { name: QNameV, attributes: Seq<AttributeV>, children: Seq<ElemV> },
    Document { children: Seq<ElemV> },
    Characters(Seq<char>),
    CData(Seq<char>),
    Whitespace(Seq<char>),
    Comment(Seq<char>),
    ProcessingInstruction { name: Seq<char>, data: Option<Seq<char>> },
}

/// Model of one tree node.
pub open spec fn elem_view(e: XmlElement) -> ElemV
    decreases e, 1int,
{
    match e.kind {
        NodeKind::Element { name, attributes } => (ElemV::Element {
            name: name@,
            attributes: attr_views(attributes@),
            children: elem_views(e.children@),
        }),
        NodeKind::Document => (ElemV::Document { children: elem_views(e.children@) }),
        NodeKind::Characters(s) => ElemV::Characters(s@),
        NodeKind::CData(s) => ElemV::CData(s@),
        NodeKind::Whitespace(s) => ElemV::Whitespace(s@),
        NodeKind::Comment(s) => ElemV::Comment(s@),
        NodeKind::ProcessingInstruction { name, data } => (ElemV::ProcessingInstruction {
            name: name@,
            data: crate::markup::opt_str_view(data),
        }),
    }
}

/// Model of a list of tree nodes.
pub open spec fn elem_views(s: Seq<XmlElement>) -> Seq<ElemV>
    decreases s, 0int,
{
    if s.len() == 0 {
        Seq::empty()
    } else {
        elem_views(s.drop_last()).push(elem_view(s.last()))
    }
}

pub proof fn lemma_elem_views_push(s: Seq<XmlElement>, x: XmlElement)
    ensures
        elem_views(s.push(x)) == elem_views(s).push(elem_view(x)),
{
    assert(s.push(x).drop_last() =~= s);
    assert(s.push(x).last() == x);
}

pub proof fn lemma_elem_views_len(s: Seq<XmlElement>)
    ensures
        elem_views(s).len() == s.len(),
    decreases s.len(),
{
    if s.len() > 0 {
        lemma_elem_views_len(s.drop_last());
    }
}

impl View for XmlElement {
    type V = ElemV;

    open spec fn view(&self) -> ElemV {
        elem_view(*self)
    }
}

impl View for Xml {
    type V = Seq<ElemV>;

    open spec fn view(&self) -> Seq<ElemV> {
        elem_views(self.vec@)
    }
}

/// An open construct on the builder's stack: the start tag seen so far and
/// the children completed under it.
#[derive(Debug)]
pub enum FrameKind {
    Element { name: QName, attributes: Vec<Attribute> },
    Document,
}

#[derive(Debug)]
pub struct Frame {
    pub kind: FrameKind,
    pub children: Vec<XmlElement>,
}

/// Model of an open construct.
pub enum FrameKindV {
    Element { name: QNameV, attributes: Seq<AttributeV> },
    Document,
}

pub struct FrameV {
    pub kind: FrameKindV,
    pub children: Seq<ElemV>,
}

impl View for FrameKind {
    type V = FrameKindV;

    open spec fn view(&self) -> FrameKindV {
        match self {
            FrameKind::Element { name, attributes } => (FrameKindV::Element {
                name: name@,
                attributes: attr_views(attributes@),
            }),
            FrameKind::Document => FrameKindV::Document,
        }
    }
}

impl View for Frame {
    type V = FrameV;

    open spec fn view(&self) -> FrameV {
        FrameV { kind: self.kind@, children: elem_views(self.children@) }
    }
}

/// Model of the builder's stack.
pub open spec fn frame_views(s: Seq<Frame>) -> Seq<FrameV> {
    s.map_values(|f: Frame| f@)
}

/// The whole state of the building fold: open constructs, completed
/// top-level trees, and whether the stream has turned out malformed.
pub struct BuildStateV {
    pub stack: Seq<FrameV>,
    pub done: Seq<ElemV>,
    pub failed: bool,
}

pub open spec fn sp_init() -> BuildStateV {
    BuildStateV { stack: Seq::empty(), done: Seq::empty(), failed: false }
}

/// The tree a closed construct becomes.
pub open spec fn sp_close_frame(f: FrameV) -> ElemV {
    match f.kind {
        FrameKindV::Element { name, attributes } => (ElemV::Element {
            name,
            attributes,
            children: f.children,
        }),
        FrameKindV::Document => (ElemV::Document { children: f.children }),
    }
}

/// Hands a completed tree to the enclosing open construct, or to the output
/// forest when none is open.
pub open spec fn sp_attach(st: BuildStateV, e: ElemV) -> BuildStateV {
    if st.stack.len() == 0 {
        BuildStateV { done: st.done.push(e), ..st }
    } else {
        let top = st.stack.last();
        let top2 = FrameV { children: top.children.push(e), ..top };
        BuildStateV { stack: st.stack.drop_last().push(top2), ..st }
    }
}

pub open spec fn sp_fail(st: BuildStateV) -> BuildStateV {
    BuildStateV { failed: true, ..st }
}

/// One token's effect on the building fold. A leaf token becomes a childless
/// tree at once; a start token opens a construct (subject to the depth
/// limit); an end token closes the innermost construct if it matches it, and
/// marks the stream malformed if it does not. A malformed stream stays
/// malformed: later tokens change nothing.
pub open spec fn sp_step(st: BuildStateV, t: TokenV) -> BuildStateV {
    if st.failed {
        st
    } else {
        match t {
            TokenV::Characters(s) => sp_attach(st, ElemV::Characters(s)),
            TokenV::CData(s) => sp_attach(st, ElemV::CData(s)),
            TokenV::Whitespace(s) => sp_attach(st, ElemV::Whitespace(s)),
            TokenV::Comment(s) => sp_attach(st, ElemV::Comment(s)),
            TokenV::ProcessingInstruction { name, data } => sp_attach(
                st,
                ElemV::ProcessingInstruction { name, data },
            ),
            TokenV::StartElement { name, attributes } => if st.stack.len() < DEPTH_LIMIT {
                BuildStateV {
                    stack: st.stack.push(
                        FrameV {
                            kind: FrameKindV::Element { name, attributes },
                            children: Seq::empty(),
                        },
                    ),
                    ..st
                }
            } else {
                sp_fail(st)
            },
            TokenV::StartDocument => if st.stack.len() < DEPTH_LIMIT {
                BuildStateV {
                    stack: st.stack.push(
                        FrameV { kind: FrameKindV::Document, children: Seq::empty() },
                    ),
                    ..st
                }
            } else {
                sp_fail(st)
            },
            TokenV::EndElement { name } => if st.stack.len() > 0 && (st.stack.last().kind matches
                FrameKindV::Element { name: n, .. } && n == name) {
                sp_attach(
                    BuildStateV { stack: st.stack.drop_last(), ..st },
                    sp_close_frame(st.stack.last()),
                )
            } else {
                sp_fail(st)
            },
            TokenV::EndDocument => if st.stack.len() > 0 && st.stack.last().kind is Document {
                sp_attach(
                    BuildStateV { stack: st.stack.drop_last(), ..st },
                    sp_close_frame(st.stack.last()),
                )
            } else {
                sp_fail(st)
            },
        }
    }
}

/// The building fold over a whole token stream, from the empty state.
pub open spec fn sp_run(ts: Seq<TokenV>) -> BuildStateV
    decreases ts.len(),
{
    if ts.len() == 0 {
        sp_init()
    } else {
        sp_step(sp_run(ts.drop_last()), ts.last())
    }
}

/// The forest the builder yields for a token stream: the completed top-level
/// trees, in document order; open constructs left on the stack (a prematurely
/// exhausted stream) yield no element.
pub open spec fn sp_build(ts: Seq<TokenV>) -> Seq<ElemV> {
    sp_run(ts).done
}

/// Compares two qualified names by content.
pub fn qname_eq(a: &QName, b: &QName) -> (r: bool)
    ensures
        r == (a@ == b@),
{
    let local_eq = crate::markup::str_eq(a.local_name.as_str(), b.local_name.as_str());
    let ns_eq = opt_str_eq(&a.namespace, &b.namespace);
    let prefix_eq = opt_str_eq(&a.prefix, &b.prefix);
    local_eq && ns_eq && prefix_eq
}

/// Compares two optional strings by content.
pub(crate) fn opt_str_eq(a: &Option<String>, b: &Option<String>) -> (r: bool)
    ensures
        r == (crate::markup::opt_str_view(*a) == crate::markup::opt_str_view(*b)),
{
    match (a, b) {
        (Some(x), Some(y)) => crate::markup::str_eq(x.as_str(), y.as_str()),
        (None, None) => true,
        _ => false,
    }
}

/// Copies a qualified name, preserving its model.
pub(crate) fn clone_qname(n: &QName) -> (r: QName)
    ensures
        r@ == n@,
{
    QName {
        local_name: n.local_name.clone(),
        namespace: crate::markup::clone_opt_string(&n.namespace),
        prefix: crate::markup::clone_opt_string(&n.prefix),
    }
}

/// Copies an attribute list, preserving its model.
pub(crate) fn clone_attrs(attrs: &Vec<Attribute>) -> (r: Vec<Attribute>)
    ensures
        attr_views(r@) == attr_views(attrs@),
{
    let mut out: Vec<Attribute> = Vec::new();
    let n = attrs.len();
    for i in 0..n
        invariant
            n == attrs.len(),
            out@.len() == i,
            forall|j: int| 0 <= j < i ==> (#[trigger] out@[j])@ == attrs@[j]@,
    {
        let a = &attrs[i];
        out.push(Attribute { name: clone_qname(&a.name), value: a.value.clone() });
    }
    proof {
        assert(attr_views(out@) =~= attr_views(attrs@));
    }
    out
}

/// Closes an open construct into the tree it has become.
fn close_frame(f: Frame) -> (r: XmlElement)
    ensures
        r@ == sp_close_frame(f@),
{
    let Frame { kind, children } = f;
    match kind {
        FrameKind::Element { name, attributes } => XmlElement {
            kind: NodeKind::Element { name, attributes },
            children,
        },
        FrameKind::Document => XmlElement { kind: NodeKind::Document, children },
    }
}

/// Hands a completed tree to the innermost open construct, or to the output
/// forest when none is open.
fn attach(stack: &mut Vec<Frame>, done: &mut Vec<XmlElement>, e: XmlElement)
    ensures
        (BuildStateV {
            stack: frame_views(final(stack)@),
            done: elem_views(final(done)@),
            failed: false,
        }) == sp_attach(
            BuildStateV {
                stack: frame_views(old(stack)@),
                done: elem_views(old(done)@),
                failed: false,
            },
            e@,
        ),
{
    let ghost e_v = e@;
    if stack.len() == 0 {
        proof {
            lemma_elem_views_push(done@, e);
        }
        done.push(e);
    } else {
        let mut f = stack.pop().unwrap();
        proof {
            assert(frame_views(old(stack)@).drop_last() =~= frame_views(stack@));
            assert(frame_views(old(stack)@).last() == old(stack)@.last()@);
            lemma_elem_views_push(f.children@, e);
        }
        f.children.push(e);
        stack.push(f);
        proof {
            assert(frame_views(stack@) =~= frame_views(old(stack)@).drop_last().push(f@));
        }
    }
}

impl Xml {
    /// Builds the forest of element trees the token stream describes: one
    /// tree per completed top-level construct, children in document order.
    pub fn new(tokens: &Vec<Token>) -> (r: Xml)
        ensures
            r@ == sp_build(token_views(tokens@)),
    {
        let ghost ts = token_views(tokens@);
        let mut stack: Vec<Frame> = Vec::new();
        let mut done: Vec<XmlElement> = Vec::new();
        let mut failed = false;
        let n = tokens.len();
        proof {
            assert(ts.take(0) =~= Seq::<TokenV>::empty());
            assert(frame_views(stack@) =~= Seq::<FrameV>::empty());
        }
        for i in 0..n
            invariant
                n == tokens.len(),
                ts == token_views(tokens@),
                (BuildStateV {
                    stack: frame_views(stack@),
                    done: elem_views(done@),
                    failed,
                }) == sp_run(ts.take(i as int)),
        {
            let ghost st = sp_run(ts.take(i as int));
            proof {
                assert(ts.take(i + 1 as int).drop_last() =~= ts.take(i as int));
                assert(ts.take(i + 1 as int).last() == ts[i as int]);
                assert(ts[i as int] == tokens@[i as int]@);
            }
            if !failed {
                let t = &tokens[i];
                match t {
                    Token::Characters(s) => {
                        let e = XmlElement {
                            kind: NodeKind::Characters(s.clone()),
                            children: Vec::new(),
                        };
                        assert(e@ == ElemV::Characters(s@));
                        attach(&mut stack, &mut done, e);
                    },
                    Token::CData(s) => {
                        let e = XmlElement {
                            kind: NodeKind::CData(s.clone()),
                            children: Vec::new(),
                        };
                        assert(e@ == ElemV::CData(s@));
                        attach(&mut stack, &mut done, e);
                    },
                    Token::Whitespace(s) => {
                        let e = XmlElement {
                            kind: NodeKind::Whitespace(s.clone()),
                            children: Vec::new(),
                        };
                        assert(e@ == ElemV::Whitespace(s@));
                        attach(&mut stack, &mut done, e);
                    },
                    Token::Comment(s) => {
                        let e = XmlElement {
                            kind: NodeKind::Comment(s.clone()),
                            children: Vec::new(),
                        };
                        assert(e@ == ElemV::Comment(s@));
                        attach(&mut stack, &mut done, e);
                    },
                    Token::ProcessingInstruction { name, data } => {
                        let e = XmlElement {
                            kind: NodeKind::ProcessingInstruction {
                                name: name.clone(),
                                data: crate::markup::clone_opt_string(data),
                            },
                            children: Vec::new(),
                        };
                        attach(&mut stack, &mut done, e);
                    },
                    Token::StartElement { name, attributes } => {
                        if stack.len() < DEPTH_LIMIT {
                            let f = Frame {
                                kind: FrameKind::Element {
                                    name: clone_qname(name),
                                    attributes: clone_attrs(attributes),
                                },
                                children: Vec::new(),
                            };
                            proof {
                                assert(frame_views(stack@.push(f)) =~= frame_views(stack@).push(
                                    f@,
                                ));
                                assert(elem_views(f.children@) =~= Seq::<ElemV>::empty());
                            }
                            stack.push(f);
                        } else {
                            failed = true;
                        }
                    },
                    Token::StartDocument => {
                        if stack.len() < DEPTH_LIMIT {
                            let f = Frame { kind: FrameKind::Document, children: Vec::new() };
                            proof {
                                assert(frame_views(stack@.push(f)) =~= frame_views(stack@).push(
                                    f@,
                                ));
                                assert(elem_views(f.children@) =~= Seq::<ElemV>::empty());
                            }
                            stack.push(f);
                        } else {
                            failed = true;
                        }
                    },
                    Token::EndElement { name } => {
                        let mut matched = false;
                        if stack.len() > 0 {
                            let top = &stack[stack.len() - 1];
                            match &top.kind {
                                FrameKind::Element { name: fname, .. } => {
                                    matched = qname_eq(fname, name);
                                },
                                FrameKind::Document => {},
                            }
                            proof {
                                assert(frame_views(stack@).last() == stack@.last()@);
                            }
                        }
                        if matched {
                            let ghost prev = stack@;
                            let f = stack.pop().unwrap();
                            proof {
                                assert(frame_views(stack@) =~= frame_views(prev).drop_last());
                                assert(frame_views(prev).last() == prev.last()@);
                            }
                            let e = close_frame(f);
                            attach(&mut stack, &mut done, e);
                        } else {
                            failed = true;
                        }
                    },
                    Token::EndDocument => {
                        let mut matched = false;
                        if stack.len() > 0 {
                            let top = &stack[stack.len() - 1];
                            match &top.kind {
                                FrameKind::Element { .. } => {},
                                FrameKind::Document => {
                                    matched = true;
                                },
                            }
                            proof {
                                assert(frame_views(stack@).last() == stack@.last()@);
                            }
                        }
                        if matched {
                            let ghost prev = stack@;
                            let f = stack.pop().unwrap();
                            proof {
                                assert(frame_views(stack@) =~= frame_views(prev).drop_last());
                                assert(frame_views(prev).last() == prev.last()@);
                            }
                            let e = close_frame(f);
                            attach(&mut stack, &mut done, e);
                        } else {
                            failed = true;
                        }
                    },
                }
            }
        }
        proof {
            assert(ts.take(n as int) =~= ts);
        }
        Xml { vec: done }
    }
}


/// Whether a node is an element construct whose local name is `local`.
pub open spec fn sp_found(e: ElemV, local: Seq<char>) -> bool {
    e matches ElemV::Element { name, .. } && name.local_name == local
}

/// Pre-order depth-first search for the first element with the given local
/// name, in document order.
pub open spec fn sp_find(e: ElemV, local: Seq<char>) -> Option<ElemV>
    decreases e, 1int,
{
    if sp_found(e, local) {
        Some(e)
    } else {
        match e {
            ElemV::Element { children, .. } => sp_find_seq(children, local),
            ElemV::Document { children } => sp_find_seq(children, local),
            _ => None,
        }
    }
}

/// First match of `sp_find` over a list of trees, in document order.
pub open spec fn sp_find_seq(s: Seq<ElemV>, local: Seq<char>) -> Option<ElemV>
    decreases s, 0int,
{
    if s.len() == 0 {
        None
    } else {
        match sp_find(s.first(), local) {
            Some(x) => Some(x),
            None => sp_find_seq(s.drop_first(), local),
        }
    }
}

pub proof fn lemma_elem_views_index(s: Seq<XmlElement>, i: int)
    requires
        0 <= i < s.len(),
    ensures
        elem_views(s).len() == s.len(),
        elem_views(s)[i] == elem_view(s[i]),
    decreases s.len(),
{
    lemma_elem_views_len(s);
    if i < s.len() - 1 {
        lemma_elem_views_index(s.drop_last(), i);
        assert(s.drop_last()[i] == s[i]);
    }
}

impl XmlElement {
    /// Searches this subtree, in document order, for the first element whose
    /// local name is `local`; the search considers the node itself first.
    pub fn get_by(&self, local: &str) -> (r: Option<&XmlElement>)
        ensures
            (match r {
                Some(x) => sp_find(self@, local@) == Some(x@),
                None => sp_find(self@, local@) is None,
            }),
        decreases *self,
    {
        match &self.kind {
            NodeKind::Element { name, .. } => {
                if crate::markup::str_eq(name.local_name.as_str(), local) {
                    return Some(self);
                }
            },
            NodeKind::Document => {},
            _ => {
                assert(sp_find(self@, local@) is None);
                return None;
            },
        }
        let ghost cs = elem_views(self.children@);
        proof {
            lemma_elem_views_len(self.children@);
            assert(cs.skip(0) =~= cs);
            assert(sp_find(self@, local@) == sp_find_seq(cs, local@));
        }
        let n = self.children.len();
        for i in 0..n
            invariant
                n == self.children.len(),
                cs == elem_views(self.children@),
                sp_find(self@, local@) == sp_find_seq(cs, local@),
                sp_find_seq(cs, local@) == sp_find_seq(cs.skip(i as int), local@),
        {
            proof {
                lemma_elem_views_index(self.children@, i as int);
                assert(cs.skip(i as int).first() == cs[i as int]);
            }
            let c = &self.children[i];
            let found = c.get_by(local);
            match found {
                Some(x) => {
                    return Some(x);
                },
                None => {},
            }
            assert(cs.skip(i as int).drop_first() =~= cs.skip(i + 1 as int));
        }
        assert(cs.skip(n as int) =~= Seq::<ElemV>::empty());
        None
    }
}

impl Xml {
    /// Searches the whole forest, in document order, for the first element
    /// whose local name is `local`.
    pub fn get_by(&self, local: &str) -> (r: Option<&XmlElement>)
        ensures
            (match r {
                Some(x) => sp_find_seq(self@, local@) == Some(x@),
                None => sp_find_seq(self@, local@) is None,
            }),
    {
        let ghost cs = elem_views(self.vec@);
        proof {
            lemma_elem_views_len(self.vec@);
            assert(cs.skip(0) =~= cs);
        }
        let n = self.vec.len();
        for i in 0..n
            invariant
                n == self.vec.len(),
                cs == elem_views(self.vec@),
                sp_find_seq(cs, local@) == sp_find_seq(cs.skip(i as int), local@),
        {
            proof {
                lemma_elem_views_index(self.vec@, i as int);
                assert(cs.skip(i as int).first() == cs[i as int]);
            }
            let c = &self.vec[i];
            let found = c.get_by(local);
            match found {
                Some(x) => {
                    return Some(x);
                },
                None => {},
            }
            assert(cs.skip(i as int).drop_first() =~= cs.skip(i + 1 as int));
        }
        assert(cs.skip(n as int) =~= Seq::<ElemV>::empty());
        None
    }
}

/// What one node contributes to the text content of its parent: its own data
/// for character data, the nested text for elements, nothing for comments,
/// whitespace and processing instructions.
pub open spec fn sp_text_contrib(e: ElemV) -> Seq<char>
    decreases e, 1int,
{
    match e {
        ElemV::Characters(s) => s,
        ElemV::CData(s) => s,
        ElemV::Element { children, .. } => sp_inner_text_seq(children),
        ElemV::Document { children } => sp_inner_text_seq(children),
        _ => Seq::empty(),
    }
}

/// Concatenated text contributions of a list of trees, in document order.
pub open spec fn sp_inner_text_seq(s: Seq<ElemV>) -> Seq<char>
    decreases s, 0int,
{
    if s.len() == 0 {
        Seq::empty()
    } else {
        sp_text_contrib(s.first()) + sp_inner_text_seq(s.drop_first())
    }
}

/// The text content of a node: the concatenation of descendant character
/// data, in document order, ignoring comments, whitespace runs and
/// processing instructions.
pub open spec fn sp_inner_text(e: ElemV) -> Seq<char> {
    match e {
        ElemV::Element { children, .. } => sp_inner_text_seq(children),
        ElemV::Document { children } => sp_inner_text_seq(children),
        _ => Seq::empty(),
    }
}

impl XmlElement {
    /// The node's text content: concatenated descendant character data, in
    /// document order, ignoring comments, whitespace runs and processing
    /// instructions.
    pub fn inner_text(&self) -> (r: String)
        ensures
            r@ == sp_inner_text(self@),
        decreases *self,
    {
        let mut out = String::new();
        match &self.kind {
            NodeKind::Element { .. } => {},
            NodeKind::Document => {},
            _ => {
                assert(sp_inner_text(self@) == Seq::<char>::empty());
                return out;
            },
        }
        let ghost cs = elem_views(self.children@);
        proof {
            lemma_elem_views_len(self.children@);
            assert(cs.skip(0) =~= cs);
            assert(sp_inner_text(self@) == sp_inner_text_seq(cs));
        }
        let n = self.children.len();
        for i in 0..n
            invariant
                n == self.children.len(),
                cs == elem_views(self.children@),
                sp_inner_text(self@) == sp_inner_text_seq(cs),
                out@ + sp_inner_text_seq(cs.skip(i as int)) == sp_inner_text_seq(cs),
        {
            proof {
                lemma_elem_views_index(self.children@, i as int);
                assert(cs.skip(i as int).first() == cs[i as int]);
                assert(cs.skip(i as int).drop_first() =~= cs.skip(i + 1 as int));
                assert(sp_inner_text_seq(cs.skip(i as int)) == sp_text_contrib(cs[i as int])
                    + sp_inner_text_seq(cs.skip(i + 1 as int)));
            }
            let ghost pre = out@;
            let c = &self.children[i];
            match &c.kind {
                NodeKind::Characters(s) => {
                    out.append(s.as_str());
                    assert(out@ =~= pre + sp_text_contrib(cs[i as int]));
                },
                NodeKind::CData(s) => {
                    out.append(s.as_str());
                    assert(out@ =~= pre + sp_text_contrib(cs[i as int]));
                },
                NodeKind::Element { .. } => {
                    let t = c.inner_text();
                    out.append(t.as_str());
                    assert(out@ =~= pre + sp_text_contrib(cs[i as int]));
                },
                NodeKind::Document => {
                    let t = c.inner_text();
                    out.append(t.as_str());
                    assert(out@ =~= pre + sp_text_contrib(cs[i as int]));
                },
                _ => {
                    assert(out@ =~= pre + sp_text_contrib(cs[i as int]));
                },
            }
            proof {
                assert(out@ + sp_inner_text_seq(cs.skip(i + 1 as int)) =~= pre
                    + sp_inner_text_seq(cs.skip(i as int)));
            }
        }
        assert(cs.skip(n as int) =~= Seq::<ElemV>::empty());
        out
    }
}


/// The token stream that describes one tree: its start tag, its children's
/// streams in document order, its end tag; a leaf is one token.
pub open spec fn sp_tokens_of(e: ElemV) -> Seq<TokenV>
    decreases e, 1int,
{
    match e {
        ElemV::Element { name, attributes, children } => seq![
            TokenV::StartElement { name, attributes },
        ] + sp_tokens_of_seq(children) + seq![TokenV::EndElement { name }],
        ElemV::Document { children } => seq![TokenV::StartDocument] + sp_tokens_of_seq(children)
            + seq![TokenV::EndDocument],
        ElemV::Characters(s) => seq![TokenV::Characters(s)],
        ElemV::CData(s) => seq![TokenV::CData(s)],
        ElemV::Whitespace(s) => seq![TokenV::Whitespace(s)],
        ElemV::Comment(s) => seq![TokenV::Comment(s)],
        ElemV::ProcessingInstruction { name, data } => seq![
            TokenV::ProcessingInstruction { name, data },
        ],
    }
}

/// The token stream that describes a forest, in document order.
pub open spec fn sp_tokens_of_seq(s: Seq<ElemV>) -> Seq<TokenV>
    decreases s, 0int,
{
    if s.len() == 0 {
        Seq::empty()
    } else {
        sp_tokens_of(s.first()) + sp_tokens_of_seq(s.drop_first())
    }
}

/// Whether a tree nests no deeper than `room` open constructs.
pub open spec fn sp_fits(e: ElemV, room: int) -> bool
    decreases e, 1int,
{
    match e {
        ElemV::Element { children, .. } => room > 0 && sp_fits_seq(children, room - 1),
        ElemV::Document { children } => room > 0 && sp_fits_seq(children, room - 1),
        _ => true,
    }
}

/// Whether every tree of a forest nests no deeper than `room`.
pub open spec fn sp_fits_seq(s: Seq<ElemV>, room: int) -> bool
    decreases s, 0int,
{
    s.len() == 0 || (sp_fits(s.first(), room) && sp_fits_seq(s.drop_first(), room))
}

/// The building fold over a token stream, from an arbitrary state.
pub open spec fn sp_run_from(st: BuildStateV, ts: Seq<TokenV>) -> BuildStateV
    decreases ts.len(),
{
    if ts.len() == 0 {
        st
    } else {
        sp_step(sp_run_from(st, ts.drop_last()), ts.last())
    }
}

pub proof fn lemma_run_from_concat(st: BuildStateV, a: Seq<TokenV>, b: Seq<TokenV>)
    ensures
        sp_run_from(st, a + b) == sp_run_from(sp_run_from(st, a), b),
    decreases b.len(),
{
    if b.len() == 0 {
        assert(a + b =~= a);
    } else {
        assert((a + b).drop_last() =~= a + b.drop_last());
        assert((a + b).last() == b.last());
        lemma_run_from_concat(st, a, b.drop_last());
    }
}

pub proof fn lemma_run_is_run_from(ts: Seq<TokenV>)
    ensures
        sp_run(ts) == sp_run_from(sp_init(), ts),
    decreases ts.len(),
{
    if ts.len() > 0 {
        lemma_run_is_run_from(ts.drop_last());
    }
}

/// Attaching a forest to a state, tree by tree, in document order.
pub open spec fn sp_attach_all(st: BuildStateV, s: Seq<ElemV>) -> BuildStateV
    decreases s.len(),
{
    if s.len() == 0 {
        st
    } else {
        sp_attach_all(sp_attach(st, s.first()), s.drop_first())
    }
}

pub proof fn lemma_attach_all_top(st: BuildStateV, s: Seq<ElemV>)
    requires
        st.stack.len() > 0,
    ensures
        sp_attach_all(st, s) == (BuildStateV {
            stack: st.stack.drop_last().push(
                FrameV {
                    kind: st.stack.last().kind,
                    children: st.stack.last().children + s,
                },
            ),
            ..st
        }),
    decreases s.len(),
{
    if s.len() == 0 {
        assert(st.stack.last().children + s =~= st.stack.last().children);
        assert(st.stack.drop_last().push(st.stack.last()) =~= st.stack);
        assert(st.stack.drop_last().push(
            FrameV { kind: st.stack.last().kind, children: st.stack.last().children + s },
        ) =~= st.stack);
    } else {
        let st1 = sp_attach(st, s.first());
        assert(st1.stack.len() == st.stack.len());
        lemma_attach_all_top(st1, s.drop_first());
        assert(st1.stack.drop_last() =~= st.stack.drop_last());
        assert(st.stack.last().children.push(s.first()) + s.drop_first() =~= st.stack.last().children
            + s);
    }
}

pub proof fn lemma_attach_all_root(st: BuildStateV, s: Seq<ElemV>)
    requires
        st.stack.len() == 0,
    ensures
        sp_attach_all(st, s) == (BuildStateV { done: st.done + s, ..st }),
    decreases s.len(),
{
    if s.len() == 0 {
        assert(st.done + s =~= st.done);
    } else {
        let st1 = sp_attach(st, s.first());
        lemma_attach_all_root(st1, s.drop_first());
        assert(st.done.push(s.first()) + s.drop_first() =~= st.done + s);
    }
}

/// Running the serialization of one tree attaches exactly that tree.
pub proof fn lemma_build_one(st: BuildStateV, e: ElemV)
    requires
        !st.failed,
        sp_fits(e, DEPTH_LIMIT as int - st.stack.len() as int),
    ensures
        sp_run_from(st, sp_tokens_of(e)) == sp_attach(st, e),
        sp_attach(st, e).failed == st.failed,
        sp_attach(st, e).stack.len() == st.stack.len(),
    decreases e, 1int,
{
    reveal_with_fuel(sp_run_from, 3);
    match e {
        ElemV::Element { name, attributes, children } => {
            let start: Seq<TokenV> = seq![TokenV::StartElement { name, attributes }];
            let mid = sp_tokens_of_seq(children);
            let endt: Seq<TokenV> = seq![TokenV::EndElement { name }];
            lemma_run_from_concat(st, start + mid, endt);
            lemma_run_from_concat(st, start, mid);
            assert(start.drop_last() =~= Seq::<TokenV>::empty());
            let fresh = FrameV {
                kind: FrameKindV::Element { name, attributes },
                children: Seq::empty(),
            };
            let st1 = BuildStateV { stack: st.stack.push(fresh), ..st };
            assert(sp_run_from(st, start) == st1);
            lemma_build_seq(st1, children);
            let st2 = sp_attach_all(st1, children);
            lemma_attach_all_top(st1, children);
            assert(st1.stack.drop_last() =~= st.stack);
            assert(Seq::<ElemV>::empty() + children =~= children);
            assert(st2 == (BuildStateV {
                stack: st.stack.push(FrameV { kind: fresh.kind, children }),
                ..st
            }));
            assert(sp_tokens_of(e) =~= (start + mid) + endt);
            assert(st2.stack.last().kind == fresh.kind);
            assert(st2.stack.drop_last() =~= st.stack);
            assert(endt.drop_last() =~= Seq::<TokenV>::empty());
            assert(sp_run_from(st2, endt) == sp_step(st2, TokenV::EndElement { name }));
            assert(sp_close_frame(st2.stack.last()) == e);
            assert((BuildStateV { stack: st2.stack.drop_last(), ..st2 }) == st);
        },
        ElemV::Document { children } => {
            let start: Seq<TokenV> = seq![TokenV::StartDocument];
            let mid = sp_tokens_of_seq(children);
            let endt: Seq<TokenV> = seq![TokenV::EndDocument];
            lemma_run_from_concat(st, start + mid, endt);
            lemma_run_from_concat(st, start, mid);
            assert(start.drop_last() =~= Seq::<TokenV>::empty());
            let fresh = FrameV { kind: FrameKindV::Document, children: Seq::empty() };
            let st1 = BuildStateV { stack: st.stack.push(fresh), ..st };
            assert(sp_run_from(st, start) == st1);
            lemma_build_seq(st1, children);
            let st2 = sp_attach_all(st1, children);
            lemma_attach_all_top(st1, children);
            assert(st1.stack.drop_last() =~= st.stack);
            assert(Seq::<ElemV>::empty() + children =~= children);
            assert(st2 == (BuildStateV {
                stack: st.stack.push(FrameV { kind: fresh.kind, children }),
                ..st
            }));
            assert(sp_tokens_of(e) =~= (start + mid) + endt);
            assert(st2.stack.drop_last() =~= st.stack);
            assert(endt.drop_last() =~= Seq::<TokenV>::empty());
            assert(sp_run_from(st2, endt) == sp_step(st2, TokenV::EndDocument));
            assert(sp_close_frame(st2.stack.last()) == e);
            assert((BuildStateV { stack: st2.stack.drop_last(), ..st2 }) == st);
        },
        _ => {
            let ts = sp_tokens_of(e);
            assert(ts.drop_last() =~= Seq::<TokenV>::empty());
            assert(sp_run_from(st, ts) == sp_step(st, ts.last()));
        },
    }
}

/// Running the serialization of a forest attaches exactly those trees, in
/// document order.
pub proof fn lemma_build_seq(st: BuildStateV, s: Seq<ElemV>)
    requires
        !st.failed,
        sp_fits_seq(s, DEPTH_LIMIT as int - st.stack.len() as int),
    ensures
        sp_run_from(st, sp_tokens_of_seq(s)) == sp_attach_all(st, s),
        sp_attach_all(st, s).failed == st.failed,
        sp_attach_all(st, s).stack.len() == st.stack.len(),
    decreases s, 0int,
{
    if s.len() == 0 {
    } else {
        lemma_run_from_concat(st, sp_tokens_of(s.first()), sp_tokens_of_seq(s.drop_first()));
        lemma_build_one(st, s.first());
        let st1 = sp_attach(st, s.first());
        lemma_build_seq(st1, s.drop_first());
    }
}

/// The builder reproduces, in document order, exactly the forest that a
/// well-formed token stream describes: for every forest nested at most
/// `DEPTH_LIMIT` deep, folding its serialization closes every construct,
/// marks nothing malformed, and yields that forest back — child ordering
/// equals source document order at every nesting depth.
pub proof fn lemma_build_round_trip(forest: Seq<ElemV>)
    requires
        sp_fits_seq(forest, DEPTH_LIMIT as int),
    ensures
        sp_build(sp_tokens_of_seq(forest)) == forest,
        !sp_run(sp_tokens_of_seq(forest)).failed,
        sp_run(sp_tokens_of_seq(forest)).stack.len() == 0,
{
    lemma_run_is_run_from(sp_tokens_of_seq(forest));
    lemma_build_seq(sp_init(), forest);
    lemma_attach_all_root(sp_init(), forest);
    assert(Seq::<ElemV>::empty() + forest =~= forest);
}

/// The character data a token stream carries: its `Characters` and `CData`
/// payloads, concatenated in stream order.
pub open spec fn sp_char_data(ts: Seq<TokenV>) -> Seq<char>
    decreases ts.len(),
{
    if ts.len() == 0 {
        Seq::empty()
    } else {
        (match ts.first() {
            TokenV::Characters(s) => s,
            TokenV::CData(s) => s,
            _ => Seq::empty(),
        }) + sp_char_data(ts.drop_first())
    }
}

pub proof fn lemma_char_data_concat(a: Seq<TokenV>, b: Seq<TokenV>)
    ensures
        sp_char_data(a + b) == sp_char_data(a) + sp_char_data(b),
    decreases a.len(),
{
    if a.len() == 0 {
        assert(a + b =~= b);
        assert(sp_char_data(a) + sp_char_data(b) =~= sp_char_data(b));
    } else {
        assert((a + b).first() == a.first());
        assert((a + b).drop_first() =~= a.drop_first() + b);
        lemma_char_data_concat(a.drop_first(), b);
        assert((match a.first() {
            TokenV::Characters(s) => s,
            TokenV::CData(s) => s,
            _ => Seq::empty(),
        }) + (sp_char_data(a.drop_first()) + sp_char_data(b)) =~= sp_char_data(a) + sp_char_data(
            b,
        ));
    }
}

/// The text content of one tree equals the character data of its token
/// stream.
pub proof fn lemma_text_of_tokens(e: ElemV)
    ensures
        sp_char_data(sp_tokens_of(e)) == sp_text_contrib(e),
    decreases e, 1int,
{
    reveal_with_fuel(sp_char_data, 3);
    match e {
        ElemV::Element { name, attributes, children } => {
            let start: Seq<TokenV> = seq![TokenV::StartElement { name, attributes }];
            let mid = sp_tokens_of_seq(children);
            let endt: Seq<TokenV> = seq![TokenV::EndElement { name }];
            assert(sp_tokens_of(e) =~= (start + mid) + endt);
            lemma_char_data_concat(start + mid, endt);
            lemma_char_data_concat(start, mid);
            lemma_text_of_tokens_seq(children);
            assert(start.drop_first() =~= Seq::<TokenV>::empty());
            assert(endt.drop_first() =~= Seq::<TokenV>::empty());
            assert(sp_char_data(start) =~= Seq::<char>::empty());
            assert(sp_char_data(endt) =~= Seq::<char>::empty());
            assert((Seq::<char>::empty() + sp_inner_text_seq(children)) + Seq::<char>::empty()
                =~= sp_inner_text_seq(children));
        },
        ElemV::Document { children } => {
            let start: Seq<TokenV> = seq![TokenV::StartDocument];
            let mid = sp_tokens_of_seq(children);
            let endt: Seq<TokenV> = seq![TokenV::EndDocument];
            assert(sp_tokens_of(e) =~= (start + mid) + endt);
            lemma_char_data_concat(start + mid, endt);
            lemma_char_data_concat(start, mid);
            lemma_text_of_tokens_seq(children);
            assert(start.drop_first() =~= Seq::<TokenV>::empty());
            assert(endt.drop_first() =~= Seq::<TokenV>::empty());
            assert(sp_char_data(start) =~= Seq::<char>::empty());
            assert(sp_char_data(endt) =~= Seq::<char>::empty());
            assert((Seq::<char>::empty() + sp_inner_text_seq(children)) + Seq::<char>::empty()
                =~= sp_inner_text_seq(children));
        },
        _ => {
            let ts = sp_tokens_of(e);
            assert(ts.drop_first() =~= Seq::<TokenV>::empty());
            assert(sp_char_data(ts) =~= sp_text_contrib(e));
        },
    }
}

/// The text content of a forest equals the character data of its token
/// stream.
pub proof fn lemma_text_of_tokens_seq(s: Seq<ElemV>)
    ensures
        sp_char_data(sp_tokens_of_seq(s)) == sp_inner_text_seq(s),
    decreases s, 0int,
{
    if s.len() == 0 {
    } else {
        lemma_char_data_concat(sp_tokens_of(s.first()), sp_tokens_of_seq(s.drop_first()));
        lemma_text_of_tokens(s.first());
        lemma_text_of_tokens_seq(s.drop_first());
    }
}

/// For every well-formed token stream — the serialization of a forest nested
/// at most `DEPTH_LIMIT` deep — the concatenated text content of the built
/// forest equals the character data of the stream.
pub proof fn lemma_text_content(forest: Seq<ElemV>)
    requires
        sp_fits_seq(forest, DEPTH_LIMIT as int),
    ensures
        sp_inner_text_seq(sp_build(sp_tokens_of_seq(forest))) == sp_char_data(
            sp_tokens_of_seq(forest),
        ),
{
    lemma_build_round_trip(forest);
    lemma_text_of_tokens_seq(forest);
}


/// The children of a node: what an element or document construct nests;
/// leaves nest nothing.
pub open spec fn sp_children(e: ElemV) -> Seq<ElemV> {
    match e {
        ElemV::Element { children, .. } => children,
        ElemV::Document { children } => children,
        _ => Seq::empty(),
    }
}

/// The attributes of a node: what its start tag carried; only element
/// constructs carry any.
pub open spec fn sp_attrs(e: ElemV) -> Seq<AttributeV> {
    match e {
        ElemV::Element { attributes, .. } => attributes,
        _ => Seq::empty(),
    }
}

/// The first element among `cs`, in document order, whose local name is
/// `local`; unlike `sp_find`, this looks one level only.
pub open spec fn sp_find_section(cs: Seq<ElemV>, local: Seq<char>) -> Option<ElemV>
    decreases cs.len(),
{
    if cs.len() == 0 {
        None
    } else if cs.first() matches ElemV::Element { name, .. } && name.local_name == local {
        Some(cs.first())
    } else {
        sp_find_section(cs.drop_first(), local)
    }
}

/// Finds the first direct child element with the given local name, in
/// document order.
pub fn find_section<'a>(children: &'a Vec<XmlElement>, local: &str) -> (r: Option<
    &'a XmlElement,
>)
    ensures
        (match r {
            Some(x) => sp_find_section(elem_views(children@), local@) == Some(x@),
            None => sp_find_section(elem_views(children@), local@) is None,
        }),
{
    let ghost cs = elem_views(children@);
    proof {
        lemma_elem_views_len(children@);
        assert(cs.skip(0) =~= cs);
    }
    let n = children.len();
    for i in 0..n
        invariant
            n == children.len(),
            cs == elem_views(children@),
            sp_find_section(cs, local@) == sp_find_section(cs.skip(i as int), local@),
    {
        proof {
            lemma_elem_views_index(children@, i as int);
            assert(cs.skip(i as int).first() == cs[i as int]);
        }
        let c = &children[i];
        match &c.kind {
            NodeKind::Element { name, .. } => {
                if crate::markup::str_eq(name.local_name.as_str(), local) {
                    return Some(c);
                }
            },
            _ => {},
        }
        assert(cs.skip(i as int).drop_first() =~= cs.skip(i + 1 as int));
    }
    assert(cs.skip(n as int) =~= Seq::<ElemV>::empty());
    None
}

/// Copies a node's attribute list, preserving its model.
pub fn attributes_of(e: &XmlElement) -> (r: Vec<Attribute>)
    ensures
        attr_views(r@) == sp_attrs(e@),
{
    match &e.kind {
        NodeKind::Element { attributes, .. } => clone_attrs(attributes),
        _ => {
            let r: Vec<Attribute> = Vec::new();
            proof {
                assert(attr_views(r@) =~= Seq::<AttributeV>::empty());
            }
            r
        },
    }
}


/// Keeps, in order, the images under `f` of the nodes `f` accepts.
pub open spec fn sp_filter_map<B>(cs: Seq<ElemV>, f: spec_fn(ElemV) -> Option<B>) -> Seq<B>
    decreases cs.len(),
{
    if cs.len() == 0 {
        Seq::empty()
    } else {
        (match f(cs.first()) {
            Some(x) => seq![x],
            None => Seq::empty(),
        }) + sp_filter_map(cs.drop_first(), f)
    }
}


/// What `sp_find_section` returns is always an element with the local name
/// sought.
pub proof fn lemma_find_section_elem(cs: Seq<ElemV>, local: Seq<char>)
    ensures
        (match sp_find_section(cs, local) {
            Some(v) => v matches ElemV::Element { name, .. } && name.local_name == local,
            None => true,
        }),
    decreases cs.len(),
{
    if cs.len() > 0 {
        lemma_find_section_elem(cs.drop_first(), local);
    }
}


/// Locates a section: the first direct child element of `e` with the given
/// local name; a leaf node nests no sections.
pub fn section_of<'a>(e: &'a XmlElement, local: &str) -> (r: Option<&'a XmlElement>)
    ensures
        (match r {
            Some(x) => sp_find_section(sp_children(e@), local@) == Some(x@),
            None => sp_find_section(sp_children(e@), local@) is None,
        }),
{
    match &e.kind {
        NodeKind::Element { .. } => find_section(&e.children, local),
        NodeKind::Document => find_section(&e.children, local),
        _ => {
            proof {
                assert(sp_children(e@) =~= Seq::<ElemV>::empty());
            }
            None
        },
    }
}

/// The children of an element or document construct.
pub fn element_children<'a>(e: &'a XmlElement) -> (r: &'a Vec<XmlElement>)
    requires
        e@ is Element || e@ is Document,
    ensures
        elem_views(r@) == sp_children(e@),
{
    match &e.kind {
        NodeKind::Element { .. } => &e.children,
        NodeKind::Document => &e.children,
        _ => {
            proof {
                assert(false);
            }
            &e.children
        },
    }
}


/// What `sp_find` returns is always an element with the local name sought.
pub proof fn lemma_find_elem(e: ElemV, local: Seq<char>)
    ensures
        (match sp_find(e, local) {
            Some(v) => v matches ElemV::Element { name, .. } && name.local_name == local,
            None => true,
        }),
    decreases e, 1int,
{
    if !sp_found(e, local) {
        match e {
            ElemV::Element { children, .. } => {
                lemma_find_seq_elem(children, local);
            },
            ElemV::Document { children } => {
                lemma_find_seq_elem(children, local);
            },
            _ => {},
        }
    }
}

/// What `sp_find_seq` returns is always an element with the local name
/// sought.
pub proof fn lemma_find_seq_elem(s: Seq<ElemV>, local: Seq<char>)
    ensures
        (match sp_find_seq(s, local) {
            Some(v) => v matches ElemV::Element { name, .. } && name.local_name == local,
            None => true,
        }),
    decreases s, 0int,
{
    if s.len() > 0 {
        lemma_find_elem(s.first(), local);
        lemma_find_seq_elem(s.drop_first(), local);
    }
}

} // verus!
