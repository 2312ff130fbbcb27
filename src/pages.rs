//! The directory that resolves a pipeline to the page it currently shows.
use vstd::prelude::*;
use crate::document::Document;
use crate::types::{DevtoolsError, PipelineId};

verus! {

/// One browsing context: its pipeline and its document, once one is active.
pub struct Page {
    pub id: PipelineId,
    pub document: Option<Document>,
}

impl Page {
    pub open spec fn wf(&self) -> bool {
        self.document matches Some(d) ==> d.wf()
    }

    pub fn new(id: PipelineId, document: Option<Document>) -> (r: Page)
        ensures
            r.id == id,
            r.document == document,
    {
        Page { id, document }
    }
}

/// The pages that the embedding browser currently shows, keyed by pipeline.
pub struct PageDirectory {
    pages: Vec<Page>,
}

impl PageDirectory {
    /// The registered pages, in order of registration.
    pub closed spec fn pages(&self) -> Seq<Page> {
        self.pages@
    }

    pub open spec fn wf(&self) -> bool {
        &&& forall|i: int| 0 <= i < self.pages().len() ==> (#[trigger] self.pages()[i]).wf()
        &&& forall|i: int, j: int|
            0 <= i < self.pages().len() && 0 <= j < self.pages().len() && i != j
                ==> #[trigger] self.pages()[i].id != #[trigger] self.pages()[j].id
    }

    pub open spec fn has_pipeline(&self, pipeline: PipelineId) -> bool {
        exists|i: int| 0 <= i < self.pages().len() && #[trigger] self.pages()[i].id == pipeline
    }

    /// The page registered for `pipeline` (meaningful when there is one).
    pub open spec fn page_of(&self, pipeline: PipelineId) -> Page {
        self.pages()[choose|i: int|
            0 <= i < self.pages().len() && #[trigger] self.pages()[i].id == pipeline]
    }

    /// The document that a command for `pipeline` works on: `NotFound` when no page
    /// is registered for it, `PageNotReady` when the page has no active document.
    pub open spec fn document_of(&self, pipeline: PipelineId) -> Result<Document, DevtoolsError> {
        if !self.has_pipeline(pipeline) {
            Err(DevtoolsError::NotFound)
        } else {
            match self.page_of(pipeline).document {
                Some(d) => Ok(d),
                None => Err(DevtoolsError::PageNotReady),
            }
        }
    }

    pub fn new() -> (r: PageDirectory)
        ensures
            r.wf(),
            r.pages().len() == 0,
    {
        PageDirectory { pages: Vec::new() }
    }

    /// Registers a page. A page already registered for the same pipeline keeps its
    /// place and the new one is handed back.
    pub fn add_page(&mut self, page: Page) -> (r: Option<Page>)
        requires
            old(self).wf(),
            page.wf(),
        ensures
            final(self).wf(),
            r is Some <==> old(self).has_pipeline(page.id),
            r is Some ==> r == Some(page) && final(self).pages() == old(self).pages(),
            r is None ==> final(self).pages() == old(self).pages().push(page),
    {
        match self.resolve(page.id) {
            Some(_) => Some(page),
            None => {
                self.pages.push(page);
                proof {
                    let s = self.pages@;
                    assert forall|i: int| 0 <= i < s.len() implies (#[trigger] s[i]).wf() by {
                        if i < s.len() - 1 {
                            assert(s[i] == old(self).pages()[i]);
                        }
                    }
                    assert forall|i: int, j: int|
                        0 <= i < s.len() && 0 <= j < s.len() && i != j implies #[trigger] s[i].id
                            != #[trigger] s[j].id by {
                        if i < s.len() - 1 {
                            assert(s[i] == old(self).pages()[i]);
                        }
                        if j < s.len() - 1 {
                            assert(s[j] == old(self).pages()[j]);
                        }
                    }
                }
                None
            },
        }
    }

    /// Takes the page registered for `pipeline` out of the directory, as when it is
    /// torn down or about to change.
    pub fn remove_page(&mut self, pipeline: PipelineId) -> (r: Option<Page>)
        requires
            old(self).wf(),
        ensures
            final(self).wf(),
            r is Some <==> old(self).has_pipeline(pipeline),
            r matches Some(p) ==> p == old(self).page_of(pipeline),
            !final(self).has_pipeline(pipeline),
            forall|q: PipelineId|
                q != pipeline ==> (#[trigger] final(self).has_pipeline(q) <==> old(self).has_pipeline(q)),
            forall|q: PipelineId|
                q != pipeline && old(self).has_pipeline(q) ==> #[trigger] final(self).page_of(q)
                    == old(self).page_of(q),
    {
        let ghost s = self.pages@;
        match self.resolve(pipeline) {
            Some(i) => {
                proof {
                    self.lemma_page_of(pipeline, i as int);
                }
                let page = self.pages.remove(i);
                proof {
                    let t = self.pages@;
                    assert forall|k: int| 0 <= k < t.len() implies #[trigger] t[k] == (if k < i { s[k] } else { s[k + 1] }) by {}
                    assert forall|k: int| 0 <= k < t.len() implies (#[trigger] t[k]).wf() && t[k].id != pipeline by {
                        let sk = if k < i { k } else { k + 1 };
                        assert(t[k] == s[sk]);
                    }
                    assert forall|a: int, b: int|
                        0 <= a < t.len() && 0 <= b < t.len() && a != b implies #[trigger] t[a].id
                            != #[trigger] t[b].id by {
                        let sa = if a < i { a } else { a + 1 };
                        let sb = if b < i { b } else { b + 1 };
                        assert(t[a] == s[sa]);
                        assert(t[b] == s[sb]);
                    }
                    assert(self.wf());
                    assert forall|q: PipelineId| q != pipeline implies (#[trigger] self.has_pipeline(q)
                        <==> old(self).has_pipeline(q)) && (old(self).has_pipeline(q)
                        ==> self.page_of(q) == old(self).page_of(q)) by {
                        if old(self).has_pipeline(q) {
                            let k = choose|k: int| 0 <= k < s.len() && #[trigger] s[k].id == q;
                            old(self).lemma_page_of(q, k);
                            let tk = if k < i { k } else { k - 1 };
                            assert(t[tk] == s[k]);
                            self.lemma_page_of(q, tk);
                        }
                        if self.has_pipeline(q) {
                            let k = choose|k: int| 0 <= k < t.len() && #[trigger] t[k].id == q;
                            let sk = if k < i { k } else { k + 1 };
                            assert(t[k] == s[sk]);
                        }
                    }
                    assert forall|q: PipelineId| q != pipeline && old(self).has_pipeline(q) implies #[trigger] self.page_of(q) == old(self).page_of(q) by {
                        assert(self.has_pipeline(q) <==> old(self).has_pipeline(q));
                    }
                }
                Some(page)
            },
            None => {
                assert(!self.has_pipeline(pipeline));
                assert(self.pages() == old(self).pages());
                None
            },
        }
    }

    /// The position of the page registered for `pipeline`, if any.
    pub fn resolve(&self, pipeline: PipelineId) -> (r: Option<usize>)
        requires
            self.wf(),
        ensures
            r is Some <==> self.has_pipeline(pipeline),
            r matches Some(i) ==> i < self.pages().len() && self.pages()[i as int].id == pipeline
                && self.page_of(pipeline) == self.pages()[i as int],
    {
        let mut i: usize = 0;
        while i < self.pages.len()
            invariant
                self.wf(),
                i <= self.pages@.len(),
                forall|k: int| 0 <= k < i ==> #[trigger] self.pages@[k].id != pipeline,
            decreases self.pages@.len() - i,
        {
            if self.pages[i].id == pipeline {
                proof {
                    self.lemma_page_of(pipeline, i as int);
                }
                return Some(i);
            }
            i = i + 1;
        }
        None
    }

    /// The page at position `i`.
    pub fn page(&self, i: usize) -> (r: &Page)
        requires
            i < self.pages().len(),
        ensures
            *r == self.pages()[i as int],
    {
        &self.pages[i]
    }

    /// With unique pipelines, the page found at a position is the page of its pipeline.
    pub proof fn lemma_page_of(&self, pipeline: PipelineId, i: int)
        requires
            self.wf(),
            0 <= i < self.pages().len(),
            self.pages()[i].id == pipeline,
        ensures
            self.has_pipeline(pipeline),
            self.page_of(pipeline) == self.pages()[i],
    {
        assert(self.has_pipeline(pipeline));
        let k = choose|k: int| 0 <= k < self.pages().len() && #[trigger] self.pages()[k].id == pipeline;
        assert(self.pages()[k].id == pipeline);
    }
}

} // verus!
