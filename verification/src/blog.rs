//! A blog post workflow: a draft accumulates text, goes through review, and
//! only an approved (published) post exposes its content.

use vstd::prelude::*;

verus! {

/// The review states a post moves through.
#[derive(Debug, Clone, Copy, PartialEq, Eq, Structural)]
pub enum StateImpl {
    Draft,
    PendingReview,
    Published,
}

/// Where a review request sends each state.
pub open spec fn after_request_review(s: StateImpl) -> StateImpl {
    StateImpl::PendingReview
}

/// Where an approval sends each state.
pub open spec fn after_approve(s: StateImpl) -> StateImpl {
    StateImpl::Published
}

/// A post: its accumulated text and its place in the review workflow.
pub struct Post {
    state: StateImpl,
    content: String,
}

impl Post {
    /// The post's current workflow state.
    pub closed spec fn state_of(self) -> StateImpl {
        self.state
    }

    /// The post's accumulated text, whether or not it is visible yet.
    pub closed spec fn text_of(self) -> Seq<char> {
        self.content@
    }

    /// A fresh draft post.
    pub fn using_oop() -> (r: Post)
        ensures
            r.state_of() == StateImpl::Draft,
            r.text_of() == Seq::<char>::empty(),
    {
        Post { state: StateImpl::Draft, content: String::new() }
    }

    /// A fresh draft post; behaves exactly like [`Post::using_oop`].
    pub fn using_enum() -> (r: Post)
        ensures
            r.state_of() == StateImpl::Draft,
            r.text_of() == Seq::<char>::empty(),
    {
        Post { state: StateImpl::Draft, content: String::new() }
    }

    /// Append text to the post body; the workflow state is untouched.
    pub fn add_text(&mut self, text: &str)
        ensures
            final(self).text_of() == old(self).text_of() + text@,
            final(self).state_of() == old(self).state_of(),
    {
        self.content.append(text);
    }

    /// The visible content: the accumulated text once published, and
    /// nothing before.
    pub fn content(&self) -> (r: &str)
        ensures
            self.state_of() == StateImpl::Published ==> r@ == self.text_of(),
            self.state_of() != StateImpl::Published ==> r@ == Seq::<char>::empty(),
    {
        match self.state {
            StateImpl::Published => self.content.as_str(),
            _ => {
                let r = "";
                proof {
                    reveal_strlit("");
                }
                r
            },
        }
    }

    /// Ask for a review: every state moves to pending review.
    pub fn request_review(&mut self)
        ensures
            final(self).state_of() == after_request_review(old(self).state_of()),
            final(self).text_of() == old(self).text_of(),
    {
        self.state = StateImpl::PendingReview;
    }

    /// Approve the post: every state moves to published.
    pub fn approve(&mut self)
        ensures
            final(self).state_of() == after_approve(old(self).state_of()),
            final(self).text_of() == old(self).text_of(),
    {
        self.state = StateImpl::Published;
    }
}

} // verus!
