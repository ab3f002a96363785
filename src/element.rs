//! Geometry files name their record groups freely, and the names are not
//! consistent across tools. `Element` fixes the groups this library reads.

use vstd::prelude::*;

verus! {

/// A record group that the classifier understands.
#[derive(Clone, Copy, Debug, PartialEq, Eq, Hash, Structural)]
pub enum Element {
    /// One position record per vertex.
    Vertex,
    /// One index list per triangle or polygon.
    Facet,
}

/// The header label under which a group appears on disk.
pub open spec fn label_of(e: Element) -> Seq<char> {
    match e {
        Element::Vertex => seq!['v', 'e', 'r', 't', 'e', 'x'],
        Element::Facet => seq!['f', 'a', 'c', 'e'],
    }
}

/// The group that a header label stands for, if any.
pub open spec fn element_of(name: Seq<char>) -> Option<Element> {
    if name == label_of(Element::Vertex) {
        Some(Element::Vertex)
    } else if name == label_of(Element::Facet) {
        Some(Element::Facet)
    } else {
        None
    }
}

impl Element {
    /// Recognises a header label; unknown labels give `None`.
    pub fn from(e: &String) -> (r: Option<Element>)
        ensures
            r == element_of(e@),
    {
        let vertex = Element::Vertex.to_string();
        let facet = Element::Facet.to_string();
        if *e == vertex {
            Some(Element::Vertex)
        } else if *e == facet {
            Some(Element::Facet)
        } else {
            None
        }
    }

    /// The header label of this group.
    pub fn to_string(&self) -> (r: String)
        ensures
            r@ == label_of(*self),
    {
        match self {
            Element::Vertex => {
                let r = String::from_str("vertex");
                proof {
                    reveal_strlit("vertex");
                }
                r
            },
            Element::Facet => {
                let r = String::from_str("face");
                proof {
                    reveal_strlit("face");
                }
                r
            },
        }
    }
}

} // verus!
