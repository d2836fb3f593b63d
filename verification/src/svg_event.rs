//! The event iterator: a single-pass, depth-first traversal of a finalized
//! element tree, producing the flat sequence of markup events a streaming
//! writer would emit.

use vstd::prelude::*;
use vstd::string::StringExecFns;

use crate::namespace::NamespaceName;
use crate::namespace::ns_name_text;
use crate::svg_element::SvgElement;
use crate::svg_element::SvgElementType;

verus! {

/// One unit of the serialised output stream.
#[derive(Debug)]
pub enum XmlEvent<'a> {
    /// The start of the document
    StartDocument,
    /// The end of the document
    EndDocument,
    /// An element opens
    StartElement(&'a SvgElement),
    /// An element closes
    EndElement(&'a SvgElement),
    /// Character content of an element
    Characters(&'a SvgElement),
}

/// The markup name of an element.
pub open spec fn elem_name(e: SvgElement) -> Seq<char> {
    match e.ele_type {
        SvgElementType::Svg(_) => ("svg")@,
        SvgElementType::Group(_) => ("g")@,
        SvgElementType::Path(_) => ("path")@,
        SvgElementType::Grid(_) => ("path")@,
        SvgElementType::Defs => ("defs")@,
    }
}

/// The text of an attribute list: a space, the name, `="`, the value and a
/// closing quote for each attribute in order.
pub open spec fn attrs_text(s: Seq<(NamespaceName, String)>) -> Seq<char>
    decreases s.len(),
{
    if s.len() == 0 {
        Seq::empty()
    } else {
        attrs_text(s.drop_last()) + (" ")@ + ns_name_text(
            s.last().0.name@,
            match s.last().0.ns {
                Some(p) => Some(p@),
                None => None,
            },
        ) + ("=\"")@ + s.last().1@ + ("\"")@
    }
}

/// The markup text of an event.
pub open spec fn event_text(ev: XmlEvent) -> Seq<char> {
    match ev {
        XmlEvent::StartDocument => ("<?xml version=\"1.0\" encoding=\"utf8\"?>")@,
        XmlEvent::EndDocument => Seq::empty(),
        XmlEvent::StartElement(e) => ("<")@ + elem_name(*e) + attrs_text(e.attributes@) + (
        ">")@,
        XmlEvent::Characters(e) => e.characters@,
        XmlEvent::EndElement(e) => ("</")@ + elem_name(*e) + (">")@,
    }
}

impl<'a> XmlEvent<'a> {
    /// The event as markup text: a document header, an open tag with its
    /// attributes, character content, a close tag, or nothing for the end
    /// of the document.
    pub fn as_xml(&self) -> (s: String)
        ensures
            s@ == event_text(*self),
    {
        match self {
            XmlEvent::StartDocument => {
                ("<?xml version=\"1.0\" encoding=\"utf8\"?>").to_owned()
            },
            XmlEvent::EndDocument => String::new(),
            XmlEvent::StartElement(e) => {
                let mut r = String::new();
                r.append("<");
                push_elem_name(&mut r, e);
                let n = e.attributes.len();
                let mut i: usize = 0;
                while i < n
                    invariant
                        i <= n,
                        n == e.attributes@.len(),
                        r@ == ("<")@ + elem_name(**e) + attrs_text(e.attributes@.take(i as int)),
                    decreases n - i,
                {
                    proof {
                        assert(e.attributes@.take(i + 1).drop_last() =~= e.attributes@.take(
                            i as int,
                        ));
                        assert(e.attributes@.take(i + 1).last() == e.attributes@[i as int]);
                    }
                    let entry = vec_pair_at(&e.attributes, i);
                    r.append(" ");
                    let name_text = entry.0.display_string();
                    r.append(name_text.as_str());
                    r.append("=\"");
                    r.append(entry.1.as_str());
                    r.append("\"");
                    proof {
                        assert(r@ =~= ("<")@ + elem_name(**e) + attrs_text(
                            e.attributes@.take(i + 1),
                        ));
                    }
                    i = i + 1;
                }
                r.append(">");
                proof {
                    assert(e.attributes@.take(n as int) =~= e.attributes@);
                    assert(r@ =~= event_text(*self));
                }
                r
            },
            XmlEvent::Characters(e) => clone_string(&e.characters),
            XmlEvent::EndElement(e) => {
                let mut r = String::new();
                r.append("</");
                push_elem_name(&mut r, e);
                r.append(">");
                proof {
                    assert(r@ =~= event_text(*self));
                }
                r
            },
        }
    }
}

/// Copy a string.
fn clone_string(s: &String) -> (r: String)
    ensures
        r@ == s@,
{
    s.clone()
}

/// Borrow an attribute entry.
fn vec_pair_at<'a>(v: &'a Vec<(NamespaceName, String)>, i: usize) -> (r: &'a (
    NamespaceName,
    String,
))
    requires
        i < v@.len(),
    ensures
        *r == v@[i as int],
{
    &v[i]
}

/// Append the markup name of an element.
fn push_elem_name(out: &mut String, e: &SvgElement)
    ensures
        final(out)@ == old(out)@ + elem_name(*e),
{
    match &e.ele_type {
        SvgElementType::Svg(_) => out.append("svg"),
        SvgElementType::Group(_) => out.append("g"),
        SvgElementType::Path(_) => out.append("path"),
        SvgElementType::Grid(_) => out.append("path"),
        SvgElementType::Defs => out.append("defs"),
    }
}

/// How many events one element emits: its open and close, its character
/// event if it has characters, and everything its children emit.
pub open spec fn ev_count(e: SvgElement) -> nat
    decreases e,
{
    2 + (if e.characters@.len() > 0 {
        1nat
    } else {
        0nat
    }) + ev_count_seq(e.contents@)
}

/// How many events a sequence of elements emits.
pub open spec fn ev_count_seq(s: Seq<SvgElement>) -> nat
    decreases s,
{
    if s.len() == 0 {
        0
    } else {
        ev_count_seq(s.drop_last()) + ev_count(s.last())
    }
}

/// How many events the elements of a sequence from an index on emit.
pub open spec fn ev_count_from(s: Seq<SvgElement>, from: int) -> nat
    decreases s.len() - from,
{
    if from < 0 || from >= s.len() {
        0
    } else {
        ev_count(s[from]) + ev_count_from(s, from + 1)
    }
}

/// The suffix count from an index is that element's count plus the suffix
/// count after it, and the whole-sequence count is the suffix count from
/// zero.
pub proof fn lemma_ev_count_from(s: Seq<SvgElement>)
    ensures
        ev_count_seq(s) == ev_count_from(s, 0),
    decreases s.len(),
{
    if s.len() > 0 {
        lemma_ev_count_from(s.drop_last());
        lemma_ev_count_from_split(s, 0);
        assert(forall|i: int| 0 <= i < s.len() - 1 ==> s.drop_last()[i] == s[i]);
        lemma_ev_count_from_drop(s, 0);
    }
}

/// On a prefix-equal sequence the suffix counts match until the dropped
/// last element.
proof fn lemma_ev_count_from_drop(s: Seq<SvgElement>, from: int)
    requires
        s.len() > 0,
        0 <= from <= s.len(),
    ensures
        ev_count_from(s, from) == ev_count_from(s.drop_last(), from) + if from < s.len() {
            ev_count(s.last())
        } else {
            0nat
        },
    decreases s.len() - from,
{
    if from >= s.len() {
        assert(ev_count_from(s, from) == 0);
        assert(ev_count_from(s.drop_last(), from) == 0);
    } else if from == s.len() - 1 {
        assert(ev_count_from(s.drop_last(), from) == 0);
        assert(ev_count_from(s, from) == ev_count(s[from]) + ev_count_from(s, from + 1));
        assert(ev_count_from(s, from + 1) == 0);
        assert(s[from] == s.last());
    } else {
        assert(s.drop_last()[from] == s[from]);
        lemma_ev_count_from_drop(s, from + 1);
        assert(ev_count_from(s, from) == ev_count(s[from]) + ev_count_from(s, from + 1));
        assert(ev_count_from(s.drop_last(), from) == ev_count(s.drop_last()[from])
            + ev_count_from(s.drop_last(), from + 1));
    }
}

/// A suffix count splits into the element at the index and the rest.
pub proof fn lemma_ev_count_from_split(s: Seq<SvgElement>, i: int)
    requires
        0 <= i < s.len(),
    ensures
        ev_count_from(s, i) == ev_count(s[i]) + ev_count_from(s, i + 1),
{
}

/// How many elements a tree holds.
pub open spec fn node_count(e: SvgElement) -> nat
    decreases e,
{
    1 + node_count_seq(e.contents@)
}

/// How many elements a sequence of trees holds.
pub open spec fn node_count_seq(s: Seq<SvgElement>) -> nat
    decreases s,
{
    if s.len() == 0 {
        0
    } else {
        node_count_seq(s.drop_last()) + node_count(s.last())
    }
}

/// How many elements of a tree carry character content.
pub open spec fn chars_count(e: SvgElement) -> nat
    decreases e,
{
    (if e.characters@.len() > 0 {
        1nat
    } else {
        0nat
    }) + chars_count_seq(e.contents@)
}

/// How many elements of a sequence of trees carry character content.
pub open spec fn chars_count_seq(s: Seq<SvgElement>) -> nat
    decreases s,
{
    if s.len() == 0 {
        0
    } else {
        chars_count_seq(s.drop_last()) + chars_count(s.last())
    }
}

/// The iterator over a tree with `n` elements emits exactly one start of
/// document, one open and one close per element, one characters event per
/// element with character content, and one end of document: `2 + ev_count`
/// events in all, where `ev_count` is `2n` plus the number of elements with
/// characters.
pub proof fn lemma_event_total(e: SvgElement)
    ensures
        2 + ev_count(e) == 1 + node_count(e) + node_count(e) + chars_count(e) + 1,
    decreases e,
{
    lemma_event_total_seq(e.contents@);
}

/// The event count of a sequence of trees is twice its element count plus
/// its character-content count.
pub proof fn lemma_event_total_seq(s: Seq<SvgElement>)
    ensures
        ev_count_seq(s) == node_count_seq(s) + node_count_seq(s) + chars_count_seq(s),
    decreases s,
{
    if s.len() > 0 {
        lemma_event_total_seq(s.drop_last());
        lemma_event_total(s.last());
    }
}

/// The state of the traversal.
#[derive(Debug, Clone, Copy, PartialEq, Eq, Structural)]
pub enum IterState {
    /// Nothing emitted yet
    PreDocument,
    /// About to open the top element
    PreElement,
    /// About to emit the top element's characters, if any
    PreString,
    /// About to descend into the top element's children
    PreContent,
    /// About to close the top element
    PostContent,
    /// Looking for the next sibling, or closing the parent
    FindNextElement,
    /// About to emit the end of the document
    DocumentEnd,
    /// The sequence is exhausted
    Completed,
}

/// An iterator over the events of a finalized element tree: an explicit
/// stack of elements and child cursors, driven as a state machine.
///
/// The sequence it produces is lazy, finite and one-shot: a fresh iterator
/// must be constructed to traverse the same tree again.
pub struct ElementIter<'a> {
    /// The traversal state
    pub state: IterState,
    /// The stack of elements entered and the index of the child currently
    /// being visited in each
    pub elements: Vec<(&'a SvgElement, usize)>,
}

/// The events still to come for the ancestors on the stack (every entry but
/// the last): for each, its remaining children and its close event.
pub open spec fn anc_sum(s: Seq<(&SvgElement, usize)>) -> nat
    decreases s.len(),
{
    if s.len() == 0 {
        0
    } else {
        anc_sum(s.drop_last()) + ev_count_from(
            s.last().0.contents@,
            s.last().1 + 1,
        ) + 1
    }
}

/// The stack entries chain: each entry's cursor points at a child, and the
/// next entry is that child.
pub open spec fn stack_chained(s: Seq<(&SvgElement, usize)>) -> bool {
    forall|j: int| 0 <= j && j + 1 < s.len() ==> (#[trigger] s[j]).1 < s[j].0.contents@.len()
        && *s[j + 1].0 == s[j].0.contents@[s[j].1 as int]
}

/// A well-formed iterator: the stack chains, and the top entry's cursor
/// agrees with the state.
pub open spec fn iter_wf(it: ElementIter) -> bool {
    let s = it.elements@;
    &&& stack_chained(s)
    &&& match it.state {
        IterState::PreDocument => s.len() == 1 && s[0].1 == 0,
        IterState::PreElement => s.len() >= 1 && s.last().1 == 0,
        IterState::PreString => s.len() >= 1 && s.last().1 == 0,
        IterState::PreContent => s.len() >= 1 && s.last().1 == 0,
        IterState::PostContent => s.len() >= 1 && s.last().1 == s.last().0.contents@.len(),
        IterState::FindNextElement => s.len() >= 1 && s.last().1 == s.last().0.contents@.len(),
        IterState::DocumentEnd => true,
        IterState::Completed => true,
    }
}

/// How many events the iterator has still to produce.
pub open spec fn events_left(it: ElementIter) -> nat {
    let s = it.elements@;
    match it.state {
        IterState::PreDocument => 2 + ev_count(*s[0].0),
        IterState::PreElement => 1 + anc_sum(s.drop_last()) + ev_count(*s.last().0),
        IterState::PreString => 1 + anc_sum(s.drop_last()) + (ev_count(*s.last().0)
            - 1) as nat,
        IterState::PreContent => 1 + anc_sum(s.drop_last()) + 1 + ev_count_from(
            s.last().0.contents@,
            0,
        ),
        IterState::PostContent => 1 + anc_sum(s.drop_last()) + 1,
        IterState::FindNextElement => 1 + anc_sum(s.drop_last()),
        IterState::DocumentEnd => 1,
        IterState::Completed => 0,
    }
}

/// The loop rank of a state: how many silent transitions it can still make
/// before an event is produced.
spec fn state_rank(st: IterState) -> nat {
    match st {
        IterState::PreString => 3,
        IterState::PreContent => 2,
        IterState::FindNextElement => 2,
        _ => 1,
    }
}

impl<'a> ElementIter<'a> {
    /// A new iterator over the tree rooted at an element, before any event.
    pub fn new(e: &'a SvgElement) -> (r: ElementIter<'a>)
        ensures
            iter_wf(r),
            events_left(r) == 2 + ev_count(*e),
    {
        let mut elements: Vec<(&'a SvgElement, usize)> = Vec::new();
        elements.push((e, 0));
        ElementIter { state: IterState::PreDocument, elements }
    }

    /// The next event of the traversal, or `None` once the sequence is
    /// exhausted.
    ///
    /// Every call before exhaustion produces exactly one event, and the
    /// contract names it: the document opens first; each element emits its
    /// open tag, then its characters when it has any, then its children in
    /// order, then its close tag; after the last close the document ends;
    /// and after the terminal state every further call returns `None`.
    pub fn next(&mut self) -> (r: Option<XmlEvent<'a>>)
        requires
            iter_wf(*old(self)),
        ensures
            iter_wf(*final(self)),
            events_left(*old(self)) == 0 ==> r is None && events_left(*final(self)) == 0,
            events_left(*old(self)) > 0 ==> r is Some && events_left(*final(self))
                == events_left(*old(self)) - 1,
            old(self).state == IterState::PreDocument ==> r matches Some(
                XmlEvent::StartDocument,
            ),
            old(self).state == IterState::PreElement ==> r matches Some(
                XmlEvent::StartElement(_),
            ),
            old(self).state == IterState::PreString ==> ({
                let top = old(self).elements@.last().0;
                if top.characters@.len() > 0 {
                    r matches Some(XmlEvent::Characters(_))
                } else if top.contents@.len() > 0 {
                    r matches Some(XmlEvent::StartElement(_))
                } else {
                    r matches Some(XmlEvent::EndElement(_))
                }
            }),
            old(self).state == IterState::PreContent ==> ({
                let top = old(self).elements@.last().0;
                if top.contents@.len() > 0 {
                    r matches Some(XmlEvent::StartElement(_))
                } else {
                    r matches Some(XmlEvent::EndElement(_))
                }
            }),
            old(self).state == IterState::PostContent ==> r matches Some(
                XmlEvent::EndElement(_),
            ),
            old(self).state == IterState::FindNextElement ==> ({
                let s = old(self).elements@;
                if s.len() <= 1 {
                    r matches Some(XmlEvent::EndDocument)
                } else {
                    let parent = s[s.len() - 2];
                    if parent.1 + 1 < parent.0.contents@.len() {
                        r matches Some(XmlEvent::StartElement(_))
                    } else {
                        r matches Some(XmlEvent::EndElement(_))
                    }
                }
            }),
            old(self).state == IterState::DocumentEnd ==> r matches Some(
                XmlEvent::EndDocument,
            ),
            old(self).state == IterState::Completed ==> r is None,
            r matches Some(XmlEvent::StartElement(c)) ==> ({
                let s = old(self).elements@;
                &&& (old(self).state == IterState::PreElement ==> *c == *s.last().0)
                &&& (old(self).state == IterState::PreString || old(self).state
                    == IterState::PreContent ==> *c == s.last().0.contents@[0])
                &&& (old(self).state == IterState::FindNextElement && s.len() > 1 ==> *c
                    == s[s.len() - 2].0.contents@[s[s.len() - 2].1 + 1])
            }),
            r matches Some(XmlEvent::Characters(c)) ==> (old(self).state
                == IterState::PreString ==> *c == *old(self).elements@.last().0),
            r matches Some(XmlEvent::EndElement(c)) ==> ({
                let s = old(self).elements@;
                &&& (old(self).state == IterState::PreString || old(self).state
                    == IterState::PreContent || old(self).state == IterState::PostContent
                    ==> *c == *s.last().0)
                &&& (old(self).state == IterState::FindNextElement && s.len() > 1 ==> *c == *s[
                    s.len() - 2].0)
            }),
    {
        match self.state {
            IterState::PreDocument => {
                self.state = IterState::PreElement;
                proof {
                    assert(self.elements@.drop_last() =~= Seq::<(&SvgElement, usize)>::empty());
                }
                Some(XmlEvent::StartDocument)
            },
            IterState::PreElement => {
                let (ele, _n) = stack_top(&self.elements);
                self.state = IterState::PreString;
                Some(XmlEvent::StartElement(ele))
            },
            IterState::PreString => {
                let (ele, _n) = stack_top(&self.elements);
                self.state = IterState::PreContent;
                proof {
                    lemma_ev_count_from(ele.contents@);
                }
                if !ele.characters.as_str().is_empty() {
                    Some(XmlEvent::Characters(ele))
                } else {
                    self.step_into_contents()
                }
            },
            IterState::PreContent => {
                let (ele, _n) = stack_top(&self.elements);
                proof {
                    lemma_ev_count_from(ele.contents@);
                }
                self.step_into_contents()
            },
            IterState::PostContent => {
                let (ele, _n) = stack_top(&self.elements);
                self.state = IterState::FindNextElement;
                Some(XmlEvent::EndElement(ele))
            },
            IterState::FindNextElement => {
                if self.elements.len() > 1 {
                    let ghost s0 = self.elements@;
                    let _done = self.elements.pop();
                    let ghost mid = self.elements@;
                    let (ele, n) = stack_top(&self.elements);
                    proof {
                        assert(mid =~= s0.drop_last());
                        assert((ele, n) == s0[s0.len() - 2]);
                        assert(s0[s0.len() - 2].1 < s0[s0.len() - 2].0.contents@.len());
                    }
                    let n_children = element_child_count(ele);
                    if n + 1 < n_children {
                        let next_ele = element_child(ele, n + 1);
                        let _old_entry = self.elements.pop();
                        let ghost mid2 = self.elements@;
                        self.elements.push((ele, n + 1));
                        let ghost m3 = self.elements@;
                        self.elements.push((next_ele, 0));
                        self.state = IterState::PreString;
                        proof {
                            assert(mid2 =~= mid.drop_last());
                            assert(m3.drop_last() =~= mid2);
                            assert(self.elements@.drop_last() =~= m3);
                            lemma_ev_count_from_split(ele.contents@, n + 1);
                        }
                        Some(XmlEvent::StartElement(next_ele))
                    } else {
                        let _old_entry = self.elements.pop();
                        let ghost mid2 = self.elements@;
                        self.elements.push((ele, n + 1));
                        self.state = IterState::FindNextElement;
                        proof {
                            assert(mid2 =~= mid.drop_last());
                            assert(self.elements@.drop_last() =~= mid2);
                            assert(n + 1 == ele.contents@.len());
                            assert(ev_count_from(ele.contents@, n + 1) == 0);
                        }
                        Some(XmlEvent::EndElement(ele))
                    }
                } else {
                    self.state = IterState::Completed;
                    Some(XmlEvent::EndDocument)
                }
            },
            IterState::DocumentEnd => {
                self.state = IterState::Completed;
                Some(XmlEvent::EndDocument)
            },
            IterState::Completed => {
                None
            },
        }
    }

    /// Descend into the top element's children: open the first child when
    /// there is one, close the top element otherwise.
    fn step_into_contents(&mut self) -> (r: Option<XmlEvent<'a>>)
        requires
            iter_wf(*old(self)),
            old(self).state == IterState::PreContent,
        ensures
            iter_wf(*final(self)),
            events_left(*final(self)) + 1 == events_left(*old(self)),
            ({
                let top = old(self).elements@.last().0;
                if top.contents@.len() > 0 {
                    r matches Some(XmlEvent::StartElement(c)) && *c == top.contents@[0]
                } else {
                    r matches Some(XmlEvent::EndElement(c)) && *c == *top
                }
            }),
    {
        let (ele, n) = stack_top(&self.elements);
        let n_children = element_child_count(ele);
        if n < n_children {
            let next_ele = element_child(ele, n);
            let ghost pre = self.elements@;
            self.elements.push((next_ele, 0));
            self.state = IterState::PreString;
            proof {
                assert(self.elements@.drop_last() =~= pre);
                lemma_ev_count_from_split(ele.contents@, 0);
            }
            Some(XmlEvent::StartElement(next_ele))
        } else {
            self.state = IterState::FindNextElement;
            Some(XmlEvent::EndElement(ele))
        }
    }
}

/// Borrow the top entry of the stack.
fn stack_top<'a, 'b>(v: &'b Vec<(&'a SvgElement, usize)>, ) -> (r: (&'a SvgElement, usize))
    requires
        v@.len() >= 1,
    ensures
        r == v@.last(),
{
    let n = v.len();
    v[n - 1]
}

/// The number of children of an element.
fn element_child_count(e: &SvgElement) -> (r: usize)
    ensures
        r == e.contents@.len(),
{
    e.contents.len()
}

/// Borrow a child of an element.
fn element_child<'a>(e: &'a SvgElement, i: usize) -> (r: &'a SvgElement)
    requires
        i < e.contents@.len(),
    ensures
        *r == e.contents@[i as int],
{
    &e.contents[i]
}

} // verus!
