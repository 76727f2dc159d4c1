//! What a test does on entry: skip, or reserve and run.

use vstd::prelude::*;
use crate::builder::ResourceBuilder;
use crate::helpers::{skipped_line, skipped_text};
use crate::id::{ResourceId, ResourceIdView};
use crate::location::Location;
use crate::set::{Request, ResourceSet};
use crate::timeout::Timeout;
use crate::vecset;

verus! {

/// The configuration of one test.
pub struct TestOptions {
    /// Resources to share.
    pub uses: Vec<ResourceId>,
    /// Resources to hold exclusively.
    pub consumes: Vec<ResourceId>,
    /// Do not share the basic resource implicitly.
    pub no_default_uses: bool,
    /// Hold the basic resource exclusively, so that the test runs beside
    /// no other test that shares it.
    pub notparallel: bool,
    /// Longest time that the body may take.
    pub timeout: Option<Timeout>,
}

/// What to do with a test that was just entered.
pub enum Plan {
    /// Print the line and return the skip value. Nothing is reserved and
    /// no clock is started.
    Skip(String),
    /// Reserve `request`, where there is one, then run the body, under
    /// `deadline` where there is one, and release.
    Run { request: Option<ResourceSet>, deadline: Option<Timeout> },
}

impl TestOptions {
    /// The resources that the test shares: those it names, and the basic
    /// resource unless it opted out.
    pub open spec fn shared(&self) -> Set<ResourceIdView> {
        if self.no_default_uses {
            vecset::elements(self.uses@)
        } else {
            vecset::elements(self.uses@).insert(ResourceIdView::Basic)
        }
    }

    /// The resources that the test holds exclusively: those it names,
    /// and the basic resource if it must not run in parallel.
    pub open spec fn exclusive(&self) -> Set<ResourceIdView> {
        if self.notparallel {
            vecset::elements(self.consumes@).insert(ResourceIdView::Basic)
        } else {
            vecset::elements(self.consumes@)
        }
    }

    /// The request that the test makes.
    pub open spec fn request(&self) -> Request {
        Request::normalized(self.shared(), self.exclusive())
    }

    /// Options that name nothing: the test shares the basic resource and
    /// has no timeout.
    pub fn new() -> (r: Self)
        ensures
            r.uses@.len() == 0,
            r.consumes@.len() == 0,
            !r.no_default_uses,
            !r.notparallel,
            r.timeout is None,
    {
        TestOptions {
            uses: Vec::new(),
            consumes: Vec::new(),
            no_default_uses: false,
            notparallel: false,
            timeout: None,
        }
    }

    /// The normalized request of the test.
    pub fn resources(&self) -> (r: ResourceSet)
        ensures
            r.wf(),
            r@ == self.request(),
    {
        let mut builder = ResourceBuilder::new();
        let mut i: usize = 0;
        proof {
            vecset::lemma_elements_empty(self.uses@.subrange(0, 0));
        }
        while i < self.uses.len()
            invariant
                i <= self.uses.len(),
                builder.wf(),
                builder.uses_ids() == vecset::elements(self.uses@.subrange(0, i as int)),
                builder.consumes_ids() == Set::<ResourceIdView>::empty(),
            decreases self.uses.len() - i,
        {
            proof {
                assert(self.uses@.subrange(0, i + 1) =~= self.uses@.subrange(0, i as int).push(
                    self.uses@[i as int],
                ));
                vecset::lemma_elements_push(self.uses@.subrange(0, i as int), self.uses@[i as int]);
            }
            builder = builder.uses(self.uses[i].clone());
            i += 1;
        }
        assert(self.uses@.subrange(0, i as int) =~= self.uses@);
        if !self.no_default_uses {
            builder = builder.uses(ResourceId::Basic);
        }
        let mut j: usize = 0;
        proof {
            vecset::lemma_elements_empty(self.consumes@.subrange(0, 0));
        }
        while j < self.consumes.len()
            invariant
                j <= self.consumes.len(),
                builder.wf(),
                builder.uses_ids() == self.shared(),
                builder.consumes_ids() == vecset::elements(self.consumes@.subrange(0, j as int)),
            decreases self.consumes.len() - j,
        {
            proof {
                assert(self.consumes@.subrange(0, j + 1) =~= self.consumes@.subrange(
                    0,
                    j as int,
                ).push(self.consumes@[j as int]));
                vecset::lemma_elements_push(
                    self.consumes@.subrange(0, j as int),
                    self.consumes@[j as int],
                );
            }
            builder = builder.consumes(self.consumes[j].clone());
            j += 1;
        }
        assert(self.consumes@.subrange(0, j as int) =~= self.consumes@);
        if self.notparallel {
            builder = builder.consumes(ResourceId::Basic);
        }
        builder.finish()
    }

    /// Decides what the test entered at `loc` does, once its skip
    /// condition has been evaluated to `skip`. A skipped test gets the
    /// line to print and nothing else: no request and no deadline. A test
    /// that runs gets its request, unless that asks for nothing, and its
    /// timeout.
    pub fn plan(&self, loc: &Location, skip: bool) -> (p: Plan)
        ensures
            skip ==> (p matches Plan::Skip(line) && line@ == skipped_line(loc@)),
            !skip ==> (p matches Plan::Run { request, deadline } && deadline == self.timeout && (
            match request {
                Some(set) => set.wf() && set@ == self.request() && !set@.is_empty(),
                None => self.request().is_empty(),
            })),
    {
        if skip {
            Plan::Skip(skipped_text(loc))
        } else {
            let set = self.resources();
            let request = if set.is_empty() {
                None
            } else {
                Some(set)
            };
            Plan::Run { request, deadline: self.timeout }
        }
    }
}

} // verus!
