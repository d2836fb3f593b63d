//! Element and attribute names with an optional namespace prefix.

use vstd::prelude::*;
use vstd::string::StringExecFns;

verus! {

/// A markup name with an optional namespace prefix.
#[derive(Debug, Clone)]
pub struct NamespaceName {
    /// The local part of the name
    pub name: String,
    /// The namespace prefix, if any
    pub ns: Option<String>,
}

/// The display text of a name: `prefix:name` when prefixed, the bare name
/// otherwise.
pub open spec fn ns_name_text(name: Seq<char>, ns: Option<Seq<char>>) -> Seq<char> {
    match ns {
        Some(p) => p + (":")@ + name,
        None => name,
    }
}

impl NamespaceName {
    /// A name with no namespace prefix.
    pub fn local(name: &str) -> (r: NamespaceName)
        ensures
            r.name@ == name@,
            r.ns is None,
    {
        NamespaceName { name: name.to_owned(), ns: None }
    }

    /// A name with an optional namespace prefix.
    pub fn new(name: &str, ns: Option<&str>) -> (r: NamespaceName)
        ensures
            r.name@ == name@,
            r.ns is Some <==> ns is Some,
            r.ns matches Some(p) ==> ns matches Some(q) && p@ == q@,
    {
        let ns = match ns {
            Some(p) => Some(p.to_owned()),
            None => None,
        };
        NamespaceName { name: name.to_owned(), ns }
    }

    /// The spec-level view of the optional prefix.
    pub open spec fn ns_view(&self) -> Option<Seq<char>> {
        match self.ns {
            Some(p) => Some(p@),
            None => None,
        }
    }

    /// The display text of the name: `prefix:name` when prefixed, the bare
    /// name otherwise.
    pub fn display_string(&self) -> (s: String)
        ensures
            s@ == ns_name_text(self.name@, self.ns_view()),
    {
        match &self.ns {
            Some(p) => {
                let mut s = String::new();
                s.append(p.as_str());
                s.append(":");
                s.append(self.name.as_str());
                proof {
                    assert(s@ =~= ns_name_text(self.name@, self.ns_view()));
                }
                s
            },
            None => self.name.as_str().to_owned(),
        }
    }
}

} // verus!
