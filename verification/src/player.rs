use vstd::prelude::*;
use crate::game_state::GameError;
use crate::i18n::I18nManager;

verus! {

/// A fielding position, or the designated hitter.
#[derive(Clone, Copy, PartialEq, Eq, Structural, Debug, Hash)]
pub enum Position {
    P,
    C,
    FB,
    SB,
    TB,
    SS,
    LF,
    CF,
    RF,
    DH,
}

impl Position {
    pub open spec fn spec_is_outfielder(self) -> bool {
        self == Position::LF || self == Position::CF || self == Position::RF
    }

    pub open spec fn spec_is_infielder(self) -> bool {
        self == Position::P || self == Position::C || self == Position::FB || self == Position::SB
            || self == Position::TB || self == Position::SS
    }

    pub open spec fn spec_is_middle_infielder(self) -> bool {
        self == Position::SB || self == Position::SS
    }

    pub open spec fn spec_is_corner_infielder(self) -> bool {
        self == Position::FB || self == Position::TB
    }

    /// Left, center or right field.
    #[verifier::when_used_as_spec(spec_is_outfielder)]
    pub fn is_outfielder(self) -> (b: bool)
        ensures
            b == self.spec_is_outfielder(),
    {
        match self {
            Position::LF | Position::CF | Position::RF => true,
            _ => false,
        }
    }

    /// Battery or infield: pitcher, catcher and the four infielders.
    #[verifier::when_used_as_spec(spec_is_infielder)]
    pub fn is_infielder(self) -> (b: bool)
        ensures
            b == self.spec_is_infielder(),
    {
        match self {
            Position::P | Position::C | Position::FB | Position::SB | Position::TB
            | Position::SS => true,
            _ => false,
        }
    }

    /// Second baseman or shortstop.
    #[verifier::when_used_as_spec(spec_is_middle_infielder)]
    pub fn is_middle_infielder(self) -> (b: bool)
        ensures
            b == self.spec_is_middle_infielder(),
    {
        match self {
            Position::SB | Position::SS => true,
            _ => false,
        }
    }

    /// First or third baseman.
    #[verifier::when_used_as_spec(spec_is_corner_infielder)]
    pub fn is_corner_infielder(self) -> (b: bool)
        ensures
            b == self.spec_is_corner_infielder(),
    {
        match self {
            Position::FB | Position::TB => true,
            _ => false,
        }
    }

    /// The long form of the position's name, e.g. "first baseman".
    pub fn short(&self) -> (f: LongPositionFormatter)
        ensures
            f.0 == *self,
    {
        LongPositionFormatter(*self)
    }

    /// Key of the position's abbreviated name in the message catalogue.
    pub fn message_key(&self) -> (key: &'static str)
        ensures
            key@ == spec_position_key(*self),
    {
        proof {
            reveal_strlit("p");
            reveal_strlit("c");
            reveal_strlit("fb");
            reveal_strlit("sb");
            reveal_strlit("tb");
            reveal_strlit("ss");
            reveal_strlit("lf");
            reveal_strlit("cf");
            reveal_strlit("rf");
            reveal_strlit("dh");
        }
        match self {
            Position::P => "p",
            Position::C => "c",
            Position::FB => "fb",
            Position::SB => "sb",
            Position::TB => "tb",
            Position::SS => "ss",
            Position::LF => "lf",
            Position::CF => "cf",
            Position::RF => "rf",
            Position::DH => "dh",
        }
    }
}

pub open spec fn spec_position_key(p: Position) -> Seq<char> {
    match p {
        Position::P => "p"@,
        Position::C => "c"@,
        Position::FB => "fb"@,
        Position::SB => "sb"@,
        Position::TB => "tb"@,
        Position::SS => "ss"@,
        Position::LF => "lf"@,
        Position::CF => "cf"@,
        Position::RF => "rf"@,
        Position::DH => "dh"@,
    }
}

pub open spec fn spec_long_position_key(p: Position) -> Seq<char> {
    match p {
        Position::P => "pitcher"@,
        Position::C => "catcher"@,
        Position::FB => "first_baseman"@,
        Position::SB => "second_baseman"@,
        Position::TB => "third_baseman"@,
        Position::SS => "shortstop"@,
        Position::LF => "left_fielder"@,
        Position::CF => "center_fielder"@,
        Position::RF => "right_fielder"@,
        Position::DH => "dh"@,
    }
}

/// Names a position in its long form.
#[derive(Clone, Copy, PartialEq, Eq, Structural, Debug)]
pub struct LongPositionFormatter(pub Position);

impl LongPositionFormatter {
    /// Key of the long name in the message catalogue.
    pub fn message_key(&self) -> (key: &'static str)
        ensures
            key@ == spec_long_position_key(self.0),
    {
        proof {
            reveal_strlit("pitcher");
            reveal_strlit("catcher");
            reveal_strlit("first_baseman");
            reveal_strlit("second_baseman");
            reveal_strlit("third_baseman");
            reveal_strlit("shortstop");
            reveal_strlit("left_fielder");
            reveal_strlit("center_fielder");
            reveal_strlit("right_fielder");
            reveal_strlit("dh");
        }
        match self.0 {
            Position::P => "pitcher",
            Position::C => "catcher",
            Position::FB => "first_baseman",
            Position::SB => "second_baseman",
            Position::TB => "third_baseman",
            Position::SS => "shortstop",
            Position::LF => "left_fielder",
            Position::CF => "center_fielder",
            Position::RF => "right_fielder",
            Position::DH => "dh",
        }
    }
}

/// The kind of fielder a player is trained as; the designated hitter is none.
#[derive(Clone, Copy, PartialEq, Eq, Structural, Debug, Hash)]
pub enum FielderType {
    Outfielder,
    MiddleInfielder,
    CornerInfielder,
    Pitcher,
    Catcher,
}

pub open spec fn spec_fielder_type_for_position(position: Position) -> FielderType {
    if position == Position::P {
        FielderType::Pitcher
    } else if position == Position::C {
        FielderType::Catcher
    } else if position.spec_is_corner_infielder() {
        FielderType::CornerInfielder
    } else if position.spec_is_middle_infielder() {
        FielderType::MiddleInfielder
    } else {
        FielderType::Outfielder
    }
}

/// The fielder type that plays `position`; outfield and the designated hitter map to outfielder.
pub fn fielder_type_for_position(position: Position) -> (t: FielderType)
    ensures
        t == spec_fielder_type_for_position(position),
{
    if position == Position::P {
        FielderType::Pitcher
    } else if position == Position::C {
        FielderType::Catcher
    } else if position.is_corner_infielder() {
        FielderType::CornerInfielder
    } else if position.is_middle_infielder() {
        FielderType::MiddleInfielder
    } else {
        FielderType::Outfielder
    }
}

/// Batting or throwing side.
#[derive(Clone, Copy, PartialEq, Eq, Structural, Debug)]
pub enum RL {
    Right,
    Left,
}

/// A batter's spray tendency.
#[derive(Clone, Copy, PartialEq, Eq, Structural, Debug, Hash)]
pub enum HitterTendency {
    Normal,
    Pull,
    Spray,
}

/// Pitch repertoire entries.
#[derive(Clone, Copy, PartialEq, Eq, Structural, Debug, Hash)]
pub enum PitchType {
    FourSeamFastball,
    TwoSeamFastball,
    Cutter,
    Curveball,
    Slider,
    Sweeper,
    Changeup,
    Forkball,
    SplitFingerFastball,
    Knuckleball,
}

/// A pitcher's overall style.
#[derive(Clone, Copy, PartialEq, Eq, Structural, Debug, Hash)]
pub enum PitcherStyle {
    PowerPitcher,
    FinessePitcher,
    BalancedPitcher,
}

/// A person's given and family name.
#[derive(Clone, Debug)]
pub struct FullName {
    pub first: String,
    pub last: String,
}

/// Identity of a player.
#[derive(Clone, Debug)]
pub struct PlayerInfo {
    pub id: i64,
    pub first_name: String,
    pub last_name: String,
    pub age: u8,
    pub uniform_number: u8,
}

impl PlayerInfo {
    /// A player not yet stored, so with id 0.
    pub fn new_unsaved(first_name: String, last_name: String, age: u8, uniform_number: u8) -> (p:
        Self)
        ensures
            p.id == 0,
            p.first_name == first_name,
            p.last_name == last_name,
            p.age == age,
            p.uniform_number == uniform_number,
    {
        Self { id: 0, first_name, last_name, age, uniform_number }
    }

    pub fn new(id: i64, first_name: String, last_name: String, age: u8, uniform_number: u8) -> (p:
        Self)
        ensures
            p.id == id,
            p.first_name == first_name,
            p.last_name == last_name,
            p.age == age,
            p.uniform_number == uniform_number,
    {
        Self { id, first_name, last_name, age, uniform_number }
    }

    /// A player known only by id and name; age and uniform number are 0.
    pub fn new_min(id: i64, first_name: String, last_name: String) -> (p: Self)
        ensures
            p.id == id,
            p.first_name == first_name,
            p.last_name == last_name,
            p.age == 0,
            p.uniform_number == 0,
    {
        Self { id, first_name, last_name, age: 0, uniform_number: 0 }
    }

    /// A copy of the record.
    pub fn duplicate(&self) -> (p: Self)
        ensures
            p == *self,
    {
        PlayerInfo {
            id: self.id,
            first_name: self.first_name.clone(),
            last_name: self.last_name.clone(),
            age: self.age,
            uniform_number: self.uniform_number,
        }
    }

    /// The player's name in the order the language writes it.
    pub fn full_name(&self, i18n: &I18nManager) -> (name: String)
        ensures
            name@ == i18n.spec_full_name(self.first_name@, self.last_name@),
    {
        i18n.full_name(self.first_name.as_str(), self.last_name.as_str())
    }
}

/// A rostered player, with what the lineup logic reads of them: the position they
/// are listed at, which skill records they carry, and, for a batter, the swing speed
/// as an order-preserving key (a higher key is a faster swing).
#[derive(Clone, Debug)]
pub struct Player {
    pub info: PlayerInfo,
    pub position: Position,
    pub batter: Option<u64>,
    pub has_pitcher: bool,
    pub has_catcher: bool,
    pub has_middle_infielder: bool,
    pub has_corner_infielder: bool,
    pub has_outfielder: bool,
}

/// The fielding record that applies to a player listed at `position`, if they carry it.
pub open spec fn spec_fielder_record(p: Player) -> Option<FielderType> {
    if p.position == Position::P {
        if p.has_pitcher { Some(FielderType::Pitcher) } else { None }
    } else if p.position == Position::C {
        if p.has_catcher { Some(FielderType::Catcher) } else { None }
    } else if p.position.spec_is_middle_infielder() {
        if p.has_middle_infielder { Some(FielderType::MiddleInfielder) } else { None }
    } else if p.position.spec_is_corner_infielder() {
        if p.has_corner_infielder { Some(FielderType::CornerInfielder) } else { None }
    } else if p.position.spec_is_outfielder() {
        if p.has_outfielder { Some(FielderType::Outfielder) } else { None }
    } else {
        None
    }
}

impl Player {
    /// A player with no skill records, listed as designated hitter.
    pub fn from_player_info(info: PlayerInfo) -> (p: Self)
        ensures
            p.info.id == info.id,
            p.info.first_name == info.first_name,
            p.info.last_name == info.last_name,
            p.info.age == info.age,
            p.info.uniform_number == info.uniform_number,
            p.position == Position::DH,
            p.batter is None,
            !p.has_pitcher && !p.has_catcher,
            !p.has_middle_infielder && !p.has_corner_infielder && !p.has_outfielder,
    {
        Player {
            info: PlayerInfo::new(info.id, info.first_name, info.last_name, info.age, info.uniform_number),
            position: Position::DH,
            batter: None,
            has_pitcher: false,
            has_catcher: false,
            has_middle_infielder: false,
            has_corner_infielder: false,
            has_outfielder: false,
        }
    }

    /// A copy of the player.
    pub fn duplicate(&self) -> (p: Self)
        ensures
            p == *self,
    {
        Player {
            info: self.info.duplicate(),
            position: self.position,
            batter: self.batter,
            has_pitcher: self.has_pitcher,
            has_catcher: self.has_catcher,
            has_middle_infielder: self.has_middle_infielder,
            has_corner_infielder: self.has_corner_infielder,
            has_outfielder: self.has_outfielder,
        }
    }

    pub fn is(&self, id: i64) -> (b: bool)
        ensures
            b == (self.info.id == id),
    {
        self.info.id == id
    }

    /// The batter record's swing-speed key.
    pub fn batter(&self) -> (res: Result<u64, GameError>)
        ensures
            match self.batter {
                Some(k) => res == Ok::<u64, GameError>(k),
                None => res matches Err(GameError::BatterInfo),
            },
    {
        match self.batter {
            Some(k) => Ok(k),
            None => Err(GameError::BatterInfo),
        }
    }

    /// Succeeds when the player carries a pitcher record.
    pub fn pitcher(&self) -> (res: Result<(), GameError>)
        ensures
            self.has_pitcher <==> res is Ok,
            res is Err ==> res matches Err(GameError::PitcherInfo),
    {
        if self.has_pitcher {
            Ok(())
        } else {
            Err(GameError::PitcherInfo)
        }
    }

    /// Succeeds when the player carries a catcher record; a missing one is reported as
    /// a missing pitcher record.
    pub fn catcher(&self) -> (res: Result<(), GameError>)
        ensures
            self.has_catcher <==> res is Ok,
            res is Err ==> res matches Err(GameError::PitcherInfo),
    {
        if self.has_catcher {
            Ok(())
        } else {
            Err(GameError::PitcherInfo)
        }
    }

    /// Which fielding record applies at the player's listed position: the pitcher's,
    /// the catcher's, or the middle-infield, corner-infield or outfield one. A designated
    /// hitter has none.
    pub fn fielder(&self) -> (res: Result<FielderType, GameError>)
        ensures
            match spec_fielder_record(*self) {
                Some(t) => res == Ok::<FielderType, GameError>(t),
                None => res matches Err(GameError::FielderInfo),
            },
    {
        if self.position == Position::P {
            if self.has_pitcher {
                Ok(FielderType::Pitcher)
            } else {
                Err(GameError::FielderInfo)
            }
        } else if self.position == Position::C {
            if self.has_catcher {
                Ok(FielderType::Catcher)
            } else {
                Err(GameError::FielderInfo)
            }
        } else if self.position.is_middle_infielder() {
            if self.has_middle_infielder {
                Ok(FielderType::MiddleInfielder)
            } else {
                Err(GameError::FielderInfo)
            }
        } else if self.position.is_corner_infielder() {
            if self.has_corner_infielder {
                Ok(FielderType::CornerInfielder)
            } else {
                Err(GameError::FielderInfo)
            }
        } else if self.position.is_outfielder() {
            if self.has_outfielder {
                Ok(FielderType::Outfielder)
            } else {
                Err(GameError::FielderInfo)
            }
        } else {
            Err(GameError::FielderInfo)
        }
    }
}

impl FielderType {
    /// Key of the name in the message catalogue.
    pub fn message_key(&self) -> (key: &'static str)
        ensures
            key@ == spec_fielder_type_key(*self),
    {
        proof {
            reveal_strlit("outfielder");
            reveal_strlit("middle_infielder");
            reveal_strlit("corner_infielder");
            reveal_strlit("pitcher");
            reveal_strlit("catcher");
        }
        match self {
            FielderType::Outfielder => "outfielder",
            FielderType::MiddleInfielder => "middle_infielder",
            FielderType::CornerInfielder => "corner_infielder",
            FielderType::Pitcher => "pitcher",
            FielderType::Catcher => "catcher",
        }
    }
}

pub open spec fn spec_fielder_type_key(v: FielderType) -> Seq<char> {
    match v {
        FielderType::Outfielder => "outfielder"@,
        FielderType::MiddleInfielder => "middle_infielder"@,
        FielderType::CornerInfielder => "corner_infielder"@,
        FielderType::Pitcher => "pitcher"@,
        FielderType::Catcher => "catcher"@,
    }
}

impl RL {
    /// Key of the name in the message catalogue.
    pub fn message_key(&self) -> (key: &'static str)
        ensures
            key@ == spec_rl_key(*self),
    {
        proof {
            reveal_strlit("right");
            reveal_strlit("left");
        }
        match self {
            RL::Right => "right",
            RL::Left => "left",
        }
    }
}

pub open spec fn spec_rl_key(v: RL) -> Seq<char> {
    match v {
        RL::Right => "right"@,
        RL::Left => "left"@,
    }
}

impl HitterTendency {
    /// Key of the name in the message catalogue.
    pub fn message_key(&self) -> (key: &'static str)
        ensures
            key@ == spec_hitter_tendency_key(*self),
    {
        proof {
            reveal_strlit("normal");
            reveal_strlit("pull");
            reveal_strlit("spray");
        }
        match self {
            HitterTendency::Normal => "normal",
            HitterTendency::Pull => "pull",
            HitterTendency::Spray => "spray",
        }
    }
}

pub open spec fn spec_hitter_tendency_key(v: HitterTendency) -> Seq<char> {
    match v {
        HitterTendency::Normal => "normal"@,
        HitterTendency::Pull => "pull"@,
        HitterTendency::Spray => "spray"@,
    }
}

impl PitchType {
    /// Key of the name in the message catalogue.
    pub fn message_key(&self) -> (key: &'static str)
        ensures
            key@ == spec_pitch_type_key(*self),
    {
        proof {
            reveal_strlit("four_seam_fastball");
            reveal_strlit("two_seam_fastball");
            reveal_strlit("cutter");
            reveal_strlit("curveball");
            reveal_strlit("slider");
            reveal_strlit("sweeper");
            reveal_strlit("changeup");
            reveal_strlit("forkball");
            reveal_strlit("split_finger_fastball");
            reveal_strlit("knuckleball");
        }
        match self {
            PitchType::FourSeamFastball => "four_seam_fastball",
            PitchType::TwoSeamFastball => "two_seam_fastball",
            PitchType::Cutter => "cutter",
            PitchType::Curveball => "curveball",
            PitchType::Slider => "slider",
            PitchType::Sweeper => "sweeper",
            PitchType::Changeup => "changeup",
            PitchType::Forkball => "forkball",
            PitchType::SplitFingerFastball => "split_finger_fastball",
            PitchType::Knuckleball => "knuckleball",
        }
    }
}

pub open spec fn spec_pitch_type_key(v: PitchType) -> Seq<char> {
    match v {
        PitchType::FourSeamFastball => "four_seam_fastball"@,
        PitchType::TwoSeamFastball => "two_seam_fastball"@,
        PitchType::Cutter => "cutter"@,
        PitchType::Curveball => "curveball"@,
        PitchType::Slider => "slider"@,
        PitchType::Sweeper => "sweeper"@,
        PitchType::Changeup => "changeup"@,
        PitchType::Forkball => "forkball"@,
        PitchType::SplitFingerFastball => "split_finger_fastball"@,
        PitchType::Knuckleball => "knuckleball"@,
    }
}

impl PitcherStyle {
    /// Key of the name in the message catalogue.
    pub fn message_key(&self) -> (key: &'static str)
        ensures
            key@ == spec_pitcher_style_key(*self),
    {
        proof {
            reveal_strlit("power_pitcher");
            reveal_strlit("finesse_pitcher");
            reveal_strlit("balanced_pitcher");
        }
        match self {
            PitcherStyle::PowerPitcher => "power_pitcher",
            PitcherStyle::FinessePitcher => "finesse_pitcher",
            PitcherStyle::BalancedPitcher => "balanced_pitcher",
        }
    }
}

pub open spec fn spec_pitcher_style_key(v: PitcherStyle) -> Seq<char> {
    match v {
        PitcherStyle::PowerPitcher => "power_pitcher"@,
        PitcherStyle::FinessePitcher => "finesse_pitcher"@,
        PitcherStyle::BalancedPitcher => "balanced_pitcher"@,
    }
}

} // verus!
