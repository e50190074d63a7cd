use vstd::prelude::*;

verus! {

/// Something with a name for machines and a name for people.
pub trait HumanReadable {
    /// The name as it is stored.
    spec fn raw_name(&self) -> Seq<char>;

    /// The name as it is shown.
    spec fn human_readable_name(&self) -> Seq<char>;

    /// The name as it is stored.
    fn get_raw_name(&self) -> (name: String)
        ensures
            name@ == self.raw_name(),
    ;

    /// The name as it is shown.
    fn get_human_readable_name(&self) -> (name: String)
        ensures
            name@ == self.human_readable_name(),
    ;
}

} // verus!
