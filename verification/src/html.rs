//! A parsed HTML document as a flat arena of nodes.
//!
//! Nodes sit in one vector in document (preorder) order and point at
//! their parent by index, so the possibly-cyclic reference structure of a
//! real parse tree never appears: every parent index is strictly smaller
//! than its child's.  The parser that builds the arena lives outside;
//! this crate reads tags, attributes, text and the ancestor relation.

use vstd::prelude::*;
use vstd::string::*;
use crate::strutil::{split_on, split_spec, str_eq};

verus! {

/// One element node.
///
/// `text` holds the element's text content (its concatenated text
/// descendants), as the builder of the document collected it.
#[derive(Debug)]
pub struct HtmlNode {
    /// The element name, e.g. `form`.
    pub tag: String,
    /// The attributes, in document order.
    pub attrs: Vec<(String, String)>,
    /// The element's text content.
    pub text: String,
    /// The index of the enclosing element, strictly smaller; `None` at a
    /// root.
    pub parent: Option<usize>,
}

/// A document: element nodes in document order.
#[derive(Debug)]
pub struct HtmlDocument {
    /// The nodes, preorder.
    pub nodes: Vec<HtmlNode>,
}

/// The value of the first attribute named `name`, if any.
pub open spec fn attr_spec(attrs: Seq<(String, String)>, name: Seq<char>) -> Option<Seq<char>>
    decreases attrs.len(),
{
    if attrs.len() == 0 {
        None
    } else if attrs[0].0@ == name {
        Some(attrs[0].1@)
    } else {
        attr_spec(attrs.skip(1), name)
    }
}

/// The value of a node's attribute named `name`, if any.
pub open spec fn node_attr(n: HtmlNode, name: Seq<char>) -> Option<Seq<char>> {
    attr_spec(n.attrs@, name)
}

/// Whether a node's space-separated `class` attribute contains `cls`.
pub open spec fn has_class(n: HtmlNode, cls: Seq<char>) -> bool {
    match node_attr(n, "class"@) {
        Some(v) => split_spec(v, ' ').contains(cls),
        None => false,
    }
}

/// Every parent index points strictly backwards.
pub open spec fn doc_wf(doc: Seq<HtmlNode>) -> bool {
    forall|k: int|
        0 <= k < doc.len() ==> match (#[trigger] doc[k]).parent {
            Some(p) => p < k,
            None => true,
        }
}

/// Whether node `i` sits (at any depth) inside node `anc`.
pub open spec fn is_desc(doc: Seq<HtmlNode>, anc: int, i: int) -> bool
    decreases i,
    when doc_wf(doc) && 0 <= i < doc.len()
{
    match doc[i].parent {
        Some(p) => p == anc || is_desc(doc, anc, p as int),
        None => false,
    }
}

impl HtmlDocument {
    /// Every node's parent index points strictly backwards.
    pub open spec fn wf(&self) -> bool {
        doc_wf(self.nodes@)
    }

    /// An empty document.
    pub fn new() -> (r: Self)
        ensures
            r.nodes@.len() == 0,
            r.wf(),
    {
        HtmlDocument { nodes: Vec::new() }
    }

    /// Append one node and return its index.  A parent must already be
    /// in the document.
    pub fn add_node(
        &mut self,
        tag: String,
        attrs: Vec<(String, String)>,
        text: String,
        parent: Option<usize>,
    ) -> (idx: usize)
        requires
            old(self).wf(),
            match parent {
                Some(p) => p < old(self).nodes@.len(),
                None => true,
            },
        ensures
            final(self).wf(),
            idx == old(self).nodes@.len(),
            final(self).nodes@ == old(self).nodes@.push(
                (HtmlNode { tag, attrs, text, parent }),
            ),
    {
        let idx = self.nodes.len();
        self.nodes.push(HtmlNode { tag, attrs, text, parent });
        idx
    }

    /// How many nodes the document holds.
    pub fn len(&self) -> (r: usize)
        ensures
            r == self.nodes@.len(),
    {
        self.nodes.len()
    }
}

/// Look up a node's attribute by name (first occurrence).
pub fn get_attr(n: &HtmlNode, name: &str) -> (r: Option<String>)
    ensures
        match r {
            Some(v) => node_attr(*n, name@) == Some(v@),
            None => node_attr(*n, name@) is None,
        },
{
    let count = n.attrs.len();
    let mut i: usize = 0;
    proof {
        assert(n.attrs@.skip(0) =~= n.attrs@);
    }
    while i < count
        invariant
            i <= count,
            count == n.attrs@.len(),
            attr_spec(n.attrs@, name@) == attr_spec(n.attrs@.skip(i as int), name@),
        decreases count - i,
    {
        let ghost rest = n.attrs@.skip(i as int);
        proof {
            assert(rest[0] == n.attrs@[i as int]);
            assert(rest.skip(1) =~= n.attrs@.skip(i as int + 1));
        }
        if str_eq(n.attrs[i].0.as_str(), name) {
            return Some(n.attrs[i].1.clone());
        }
        i = i + 1;
    }
    None
}

/// Whether the node's `class` attribute contains the class `cls`.
pub fn node_has_class(n: &HtmlNode, cls: &str) -> (r: bool)
    ensures
        r == has_class(*n, cls@),
{
    match get_attr(n, "class") {
        Some(v) => {
            proof {
                reveal_strlit("class");
            }
            let parts = split_on(v.as_str(), ' ');
            let count = parts.len();
            let mut i: usize = 0;
            while i < count
                invariant
                    i <= count,
                    count == parts@.len(),
                    parts.deep_view() == split_spec(v@, ' '),
                    node_attr(*n, "class"@) == Some(v@),
                    forall|j: int| 0 <= j < i ==> parts.deep_view()[j] != cls@,
                decreases count - i,
            {
                proof {
                    assert(parts.deep_view()[i as int] == parts@[i as int]@);
                }
                if str_eq(parts[i].as_str(), cls) {
                    proof {
                        assert(split_spec(v@, ' ')[i as int] == cls@);
                        assert(split_spec(v@, ' ').contains(cls@));
                    }
                    return true;
                }
                i = i + 1;
            }
            proof {
                if split_spec(v@, ' ').contains(cls@) {
                    let w = choose|w: int|
                        0 <= w < split_spec(v@, ' ').len() && split_spec(v@, ' ')[w] == cls@;
                    assert(parts.deep_view()[w] == cls@);
                }
            }
            false
        },
        None => {
            proof {
                reveal_strlit("class");
            }
            false
        },
    }
}

/// Whether node `i` sits inside node `anc`.
pub fn is_descendant(doc: &HtmlDocument, anc: usize, i: usize) -> (r: bool)
    requires
        doc.wf(),
        i < doc.nodes@.len(),
        anc < doc.nodes@.len(),
    ensures
        r == is_desc(doc.nodes@, anc as int, i as int),
{
    let mut cur = i;
    loop
        invariant
            cur < doc.nodes@.len(),
            doc.wf(),
            is_desc(doc.nodes@, anc as int, i as int) == is_desc(
                doc.nodes@,
                anc as int,
                cur as int,
            ),
        decreases cur,
    {
        match doc.nodes[cur].parent {
            Some(p) => {
                if p == anc {
                    return true;
                }
                cur = p;
            },
            None => {
                return false;
            },
        }
    }
    false
}

} // verus!
