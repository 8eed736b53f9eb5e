use vstd::prelude::*;

verus! {

/// One partition of a speech corpus.
#[derive(Clone, Copy, Debug, PartialEq, Eq, Structural)]
pub enum Split {
    Dev,
    Train,
    Test,
    Validated,
}

impl Split {
    pub open spec fn name_spec(self) -> Seq<char> {
        match self {
            Split::Dev => seq!['d', 'e', 'v'],
            Split::Train => seq!['t', 'r', 'a', 'i', 'n'],
            Split::Test => seq!['t', 'e', 's', 't'],
            Split::Validated => seq!['v', 'a', 'l', 'i', 'd', 'a', 't', 'e', 'd'],
        }
    }

    /// The split's name, as used in manifest and output file names.
    pub fn name(&self) -> (r: &'static str)
        ensures
            r@ == self.name_spec(),
    {
        match self {
            Split::Dev => {
                proof { reveal_strlit("dev"); }
                "dev"
            },
            Split::Train => {
                proof { reveal_strlit("train"); }
                "train"
            },
            Split::Test => {
                proof { reveal_strlit("test"); }
                "test"
            },
            Split::Validated => {
                proof { reveal_strlit("validated"); }
                "validated"
            },
        }
    }
}

} // verus!
