//! The browsing history: the current URI and the back and forward stacks,
//! with the usual browser semantics.

use vstd::prelude::*;

verus! {

/// A session's history. Navigation appends to `back` and clears
/// `forward`; moving back and forward shuffles the current URI between
/// the two stacks.
pub struct History {
    pub uri: String,
    pub back: Vec<String>,
    pub forward: Vec<String>,
}

impl Default for History {
    /// A fresh history: current URI `about:blank`, both stacks empty.
    fn default() -> (r: Self)
        ensures
            r.uri@ == "about:blank"@,
            r.back@.len() == 0,
            r.forward@.len() == 0,
    {
        Self { uri: crate::outside::chars_to_string(&crate::strutil::str_chars("about:blank")), back: Vec::new(), forward: Vec::new() }
    }
}

impl History {
    /// Steps back: pops the most recent back entry into the current URI,
    /// pushing the old current URI onto the forward stack. `None`, with
    /// nothing changed, when there is nowhere to go back to.
    pub fn previous(&mut self) -> (r: Option<String>)
        ensures
            old(self).back@.len() == 0 ==> ({
                &&& r is None
                &&& final(self).uri@ == old(self).uri@
                &&& final(self).back.deep_view() == old(self).back.deep_view()
                &&& final(self).forward.deep_view() == old(self).forward.deep_view()
            }),
            old(self).back@.len() > 0 ==> ({
                let prev = old(self).back.deep_view().last();
                &&& r matches Some(u) && u@ == prev
                &&& final(self).uri@ == prev
                &&& final(self).back.deep_view() == old(self).back.deep_view().drop_last()
                &&& final(self).forward.deep_view() == old(self).forward.deep_view().push(
                    old(self).uri@)
            }),
    {
        let ghost ob = self.back.deep_view();
        let ghost of = self.forward.deep_view();
        match self.back.pop() {
            Some(prev) => {
                self.forward.push(self.uri.clone());
                self.uri = prev.clone();
                proof {
                    assert(self.back.deep_view() =~~= ob.drop_last());
                    assert(self.forward.deep_view() =~~= of.push(old(self).uri@));
                }
                Some(prev)
            },
            None => None,
        }
    }

    /// Steps forward: the mirror image of `previous`.
    pub fn next(&mut self) -> (r: Option<String>)
        ensures
            old(self).forward@.len() == 0 ==> ({
                &&& r is None
                &&& final(self).uri@ == old(self).uri@
                &&& final(self).back.deep_view() == old(self).back.deep_view()
                &&& final(self).forward.deep_view() == old(self).forward.deep_view()
            }),
            old(self).forward@.len() > 0 ==> ({
                let nxt = old(self).forward.deep_view().last();
                &&& r matches Some(u) && u@ == nxt
                &&& final(self).uri@ == nxt
                &&& final(self).forward.deep_view() == old(self).forward.deep_view().drop_last()
                &&& final(self).back.deep_view() == old(self).back.deep_view().push(
                    old(self).uri@)
            }),
    {
        let ghost ob = self.back.deep_view();
        let ghost of = self.forward.deep_view();
        match self.forward.pop() {
            Some(next) => {
                self.back.push(self.uri.clone());
                self.uri = next.clone();
                proof {
                    assert(self.forward.deep_view() =~~= of.drop_last());
                    assert(self.back.deep_view() =~~= ob.push(old(self).uri@));
                }
                Some(next)
            },
            None => None,
        }
    }

    /// Visits `uri`: pushes the current URI onto the back stack, makes
    /// `uri` current and clears the forward stack — unless `uri` already
    /// is the current URI, in which case nothing changes at all.
    pub fn append(&mut self, uri: String)
        ensures
            uri@ == old(self).uri@ ==> ({
                &&& final(self).uri@ == old(self).uri@
                &&& final(self).back.deep_view() == old(self).back.deep_view()
                &&& final(self).forward.deep_view() == old(self).forward.deep_view()
            }),
            uri@ != old(self).uri@ ==> ({
                &&& final(self).uri@ == uri@
                &&& final(self).back.deep_view() == old(self).back.deep_view().push(
                    old(self).uri@)
                &&& final(self).forward@.len() == 0
            }),
    {
        let ghost ob = self.back.deep_view();
        if uri == self.uri {
            return ;
        }
        self.back.push(self.uri.clone());
        self.uri = uri;
        self.forward = Vec::new();
        proof {
            assert(self.back.deep_view() =~~= ob.push(old(self).uri@));
        }
    }

    /// Whether there is a page to go back to.
    pub fn has_previous(&self) -> (r: bool)
        ensures
            r == (self.back@.len() > 0),
    {
        !self.back.is_empty()
    }

    /// Whether there is a page to go forward to.
    pub fn has_next(&self) -> (r: bool)
        ensures
            r == (self.forward@.len() > 0),
    {
        !self.forward.is_empty()
    }
}

} // verus!
