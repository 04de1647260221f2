use vstd::prelude::*;

verus! {

/// A fielding position, or the designated hitter, in the older record format.
#[derive(Clone, Copy, PartialEq, Eq, Structural, Debug)]
pub enum Position {
    P,
    C,
    FB,
    SB,
    TB,
    SS,
    LF,
    CF,
    RF,
    DH,
}

/// Top or bottom half of an inning.
#[derive(Clone, Copy, PartialEq, Eq, Structural, Debug, Hash)]
pub enum InningType {
    Top,
    Bottom,
}

/// The coarse outcome of a plate appearance.
#[derive(Clone, Copy, PartialEq, Eq, Structural, Debug)]
pub enum BattingResult {
    Single,
    Double,
    Triple,
    HomeRun,
    Out,
}

impl Position {
    /// Key of the name in the message catalogue.
    pub fn message_key(&self) -> (key: &'static str)
        ensures
            key@ == spec_record_position_key(*self),
    {
        proof {
            reveal_strlit("P");
            reveal_strlit("C");
            reveal_strlit("FB");
            reveal_strlit("SB");
            reveal_strlit("TB");
            reveal_strlit("SS");
            reveal_strlit("LF");
            reveal_strlit("CF");
            reveal_strlit("RF");
            reveal_strlit("DH");
        }
        match self {
            Position::P => "P",
            Position::C => "C",
            Position::FB => "FB",
            Position::SB => "SB",
            Position::TB => "TB",
            Position::SS => "SS",
            Position::LF => "LF",
            Position::CF => "CF",
            Position::RF => "RF",
            Position::DH => "DH",
        }
    }
}

pub open spec fn spec_record_position_key(v: Position) -> Seq<char> {
    match v {
        Position::P => "P"@,
        Position::C => "C"@,
        Position::FB => "FB"@,
        Position::SB => "SB"@,
        Position::TB => "TB"@,
        Position::SS => "SS"@,
        Position::LF => "LF"@,
        Position::CF => "CF"@,
        Position::RF => "RF"@,
        Position::DH => "DH"@,
    }
}

impl InningType {
    /// Key of the name in the message catalogue.
    pub fn message_key(&self) -> (key: &'static str)
        ensures
            key@ == spec_inning_type_key(*self),
    {
        proof {
            reveal_strlit("inning_top");
            reveal_strlit("inning_bottom");
        }
        match self {
            InningType::Top => "inning_top",
            InningType::Bottom => "inning_bottom",
        }
    }
}

pub open spec fn spec_inning_type_key(v: InningType) -> Seq<char> {
    match v {
        InningType::Top => "inning_top"@,
        InningType::Bottom => "inning_bottom"@,
    }
}

impl BattingResult {
    /// Key of the name in the message catalogue.
    pub fn message_key(&self) -> (key: &'static str)
        ensures
            key@ == spec_record_batting_result_key(*self),
    {
        proof {
            reveal_strlit("single");
            reveal_strlit("double");
            reveal_strlit("triple");
            reveal_strlit("homerun");
            reveal_strlit("out");
        }
        match self {
            BattingResult::Single => "single",
            BattingResult::Double => "double",
            BattingResult::Triple => "triple",
            BattingResult::HomeRun => "homerun",
            BattingResult::Out => "out",
        }
    }
}

pub open spec fn spec_record_batting_result_key(v: BattingResult) -> Seq<char> {
    match v {
        BattingResult::Single => "single"@,
        BattingResult::Double => "double"@,
        BattingResult::Triple => "triple"@,
        BattingResult::HomeRun => "homerun"@,
        BattingResult::Out => "out"@,
    }
}

} // verus!
