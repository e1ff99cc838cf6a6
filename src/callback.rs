use vstd::prelude::*;

verus! {

/// The opaque unit of work carried by a scheduled entry: a short text that
/// names the task which becomes due.
#[derive(Clone, Debug, PartialEq, Eq)]
pub struct CallBack {
    content: String,
}

impl View for CallBack {
    type V = Seq<char>;

    /// A callback is modelled by the text it carries.
    closed spec fn view(&self) -> Seq<char> {
        self.content@
    }
}

impl CallBack {
    /// Wraps `content` as a callback payload.
    pub fn new(content: String) -> (r: CallBack)
        ensures
            r@ == content@,
    {
        CallBack { content: content }
    }

    /// The text carried by this callback.
    pub fn content(&self) -> (r: &String)
        ensures
            r@ == self@,
    {
        &self.content
    }
}

} // verus!
