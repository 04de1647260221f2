use vstd::prelude::*;

verus! {

/// The four bases of the diamond.
#[derive(Clone, Copy, PartialEq, Eq, Structural, Debug)]
pub enum Base {
    Home,
    First,
    Second,
    Third,
}

impl Base {
    /// Position of the base going round the diamond: home 0, first 1, second 2, third 3.
    pub open spec fn order(self) -> int {
        match self {
            Base::Home => 0,
            Base::First => 1,
            Base::Second => 2,
            Base::Third => 3,
        }
    }

    /// Key of the base's name in the message catalogue.
    pub fn message_key(&self) -> (key: &'static str)
        ensures
            key@ == self.spec_message_key(),
    {
        proof {
            reveal_strlit("home");
            reveal_strlit("first");
            reveal_strlit("second");
            reveal_strlit("third");
        }
        match self {
            Base::Home => "home",
            Base::First => "first",
            Base::Second => "second",
            Base::Third => "third",
        }
    }

    pub open spec fn spec_message_key(self) -> Seq<char> {
        match self {
            Base::Home => "home"@,
            Base::First => "first"@,
            Base::Second => "second"@,
            Base::Third => "third"@,
        }
    }
}

} // verus!
