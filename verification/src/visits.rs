//! A counter of visits to a page.

use vstd::prelude::*;

use crate::text::write_decimal;

verus! {

/// How often a page was visited.
#[derive(Debug)]
pub struct Visits {
    pub count: u32,
}

/// What a visitor is told.
pub open spec fn greeting(visits: nat) -> Seq<char> {
    "This site has been visited "@ + crate::text::decimal(visits) + " times"@
}

impl Visits {
    pub fn new() -> (visits: Visits)
        ensures
            visits.count == 0,
    {
        Visits { count: 0 }
    }

    /// Counts a visit, and greets the visitor with the number of visits so
    /// far, theirs included.
    pub fn visit(&mut self) -> (text: String)
        requires
            old(self).count < u32::MAX,
        ensures
            final(self).count == old(self).count + 1,
            text@ == greeting((old(self).count + 1) as nat),
    {
        self.count = self.count + 1;
        let mut text = "This site has been visited ".to_string();
        text.append(write_decimal(self.count).as_str());
        text.append(" times");
        text
    }
}

} // verus!
