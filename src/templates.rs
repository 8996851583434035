use vstd::prelude::*;

verus! {

/// One ignore-file template: its name and its text.
pub struct Template {
    pub name: String,
    pub content: String,
}

impl Template {
    pub fn new(name: String, content: String) -> (r: Template)
        ensures
            r.name@ == name@,
            r.content@ == content@,
    {
        Template { name, content }
    }
}

/// The failures of the pipeline that the library decides.
#[derive(Debug)]
pub enum FetchError {
    /// The directory listing answered with a status other than 200.
    ListingStatus { status: u16 },
    /// A template answered with a status other than 200.
    TemplateStatus { name: String, status: u16 },
    /// The picker returned an index outside the list it was shown.
    SelectionOutOfRange { index: usize, len: usize },
}

} // verus!
