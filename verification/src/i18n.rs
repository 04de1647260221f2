use vstd::prelude::*;
use crate::game::TB;
use unic_langid::LanguageIdentifier;

verus! {

/// Canonical form of a language tag as the `unic_langid` crate writes it back,
/// or `None` where the crate does not parse the tag.
pub uninterp spec fn langid_canonical(tag: Seq<char>) -> Option<Seq<char>>;

/// Parses `tag` with `unic_langid`'s `LanguageIdentifier::from_str` and writes
/// the identifier back with its `Display`. The contract claims only that the
/// result is a function of the tag (named `langid_canonical`); what the crate
/// accepts and how it normalises case is left to its source.
#[verifier::external_body]
fn parse_language_tag(tag: &str) -> (canonical: Option<String>)
    ensures
        match canonical {
            Some(c) => langid_canonical(tag@) == Some(c@),
            None => langid_canonical(tag@) is None,
        },
{
    match tag.parse::<LanguageIdentifier>() {
        Ok(id) => Some(id.to_string()),
        Err(_) => None,
    }
}

pub open spec fn digit_char(d: nat) -> char {
    if d == 0 {
        '0'
    } else if d == 1 {
        '1'
    } else if d == 2 {
        '2'
    } else if d == 3 {
        '3'
    } else if d == 4 {
        '4'
    } else if d == 5 {
        '5'
    } else if d == 6 {
        '6'
    } else if d == 7 {
        '7'
    } else if d == 8 {
        '8'
    } else {
        '9'
    }
}

/// Decimal digits of `n`, most significant first, without leading zeros.
pub open spec fn spec_decimal(n: nat) -> Seq<char>
    decreases n,
{
    if n < 10 {
        seq![digit_char(n)]
    } else {
        spec_decimal(n / 10).push(digit_char(n % 10))
    }
}

fn digit_str(d: u16) -> (s: &'static str)
    requires
        d < 10,
    ensures
        s@ == seq![digit_char(d as nat)],
{
    proof {
        reveal_strlit("0");
        reveal_strlit("1");
        reveal_strlit("2");
        reveal_strlit("3");
        reveal_strlit("4");
        reveal_strlit("5");
        reveal_strlit("6");
        reveal_strlit("7");
        reveal_strlit("8");
        reveal_strlit("9");
    }
    if d == 0 {
        "0"
    } else if d == 1 {
        "1"
    } else if d == 2 {
        "2"
    } else if d == 3 {
        "3"
    } else if d == 4 {
        "4"
    } else if d == 5 {
        "5"
    } else if d == 6 {
        "6"
    } else if d == 7 {
        "7"
    } else if d == 8 {
        "8"
    } else {
        "9"
    }
}

/// Writes `n` in decimal.
pub fn decimal(n: u16) -> (s: String)
    ensures
        s@ == spec_decimal(n as nat),
    decreases n,
{
    if n < 10 {
        String::from_str(digit_str(n))
    } else {
        let mut s = decimal(n / 10);
        s.append(digit_str(n % 10));
        s
    }
}

/// English ordinal suffix of `n`.
pub open spec fn spec_ordinal_suffix(n: nat) -> Seq<char> {
    if 11 <= n % 100 <= 13 {
        "th"@
    } else if n % 10 == 1 {
        "st"@
    } else if n % 10 == 2 {
        "nd"@
    } else if n % 10 == 3 {
        "rd"@
    } else {
        "th"@
    }
}

pub open spec fn spec_ordinal(n: nat) -> Seq<char> {
    spec_decimal(n) + spec_ordinal_suffix(n)
}

/// Language settings of the user interface, holding the canonical language tag.
#[derive(Clone, Debug)]
pub struct I18nManager {
    pub lang: String,
}

impl I18nManager {
    pub open spec fn is_japanese(&self) -> bool {
        self.lang@ == "ja-JP"@
    }

    pub open spec fn writes_japanese_numbers(&self) -> bool {
        self.lang@ == "ja-JP"@ || self.lang@ == "jp-JN"@
    }

    /// Settings for the language named by `lang_str`; a tag that does not parse
    /// falls back to American English.
    pub fn new(lang_str: &str) -> (m: Self)
        ensures
            m.lang@ == match langid_canonical(lang_str@) {
                Some(c) => c,
                None => "en-US"@,
            },
    {
        I18nManager::from_canonical(parse_language_tag(lang_str))
    }

    /// Settings for a language tag already put in canonical form, or for American
    /// English where there is none.
    pub fn from_canonical(canonical: Option<String>) -> (m: Self)
        ensures
            m.lang@ == match canonical {
                Some(c) => c@,
                None => "en-US"@,
            },
    {
        match canonical {
            Some(c) => I18nManager { lang: c },
            None => I18nManager { lang: String::from_str("en-US") },
        }
    }

    /// Two-letter key of the player-name database for this language.
    pub fn lang_db(&self) -> (db: String)
        ensures
            db@ == if self.is_japanese() { "jp"@ } else { "us"@ },
    {
        if self.lang == String::from_str("ja-JP") {
            String::from_str("jp")
        } else {
            String::from_str("us")
        }
    }

    pub open spec fn spec_full_name(&self, first_name: Seq<char>, last_name: Seq<char>) -> Seq<
        char,
    > {
        if self.is_japanese() {
            last_name + " "@ + first_name
        } else {
            first_name + " "@ + last_name
        }
    }

    /// A person's name, family name first in Japanese.
    pub fn full_name(&self, first_name: &str, last_name: &str) -> (name: String)
        ensures
            name@ == self.spec_full_name(first_name@, last_name@),
    {
        if self.lang == String::from_str("ja-JP") {
            let mut s = String::from_str(last_name);
            s.append(" ");
            s.append(first_name);
            s
        } else {
            let mut s = String::from_str(first_name);
            s.append(" ");
            s.append(last_name);
            s
        }
    }

    pub open spec fn spec_inning(&self, inning_seq: u8, inning_tb: TB) -> Seq<char> {
        if self.writes_japanese_numbers() {
            spec_decimal(inning_seq as nat) + "回"@ + match inning_tb {
                TB::Top => "表"@,
                TB::Bottom => "裏"@,
            }
        } else {
            "the "@ + match inning_tb {
                TB::Top => "top"@,
                TB::Bottom => "bottom"@,
            } + " of the "@ + spec_ordinal(inning_seq as nat)
        }
    }

    /// Names a half inning, e.g. "the top of the 1st" or "1回表".
    pub fn inning(&self, inning_seq: u8, inning_tb: TB) -> (s: String)
        ensures
            s@ == self.spec_inning(inning_seq, inning_tb),
    {
        if self.lang == String::from_str("ja-JP") || self.lang == String::from_str("jp-JN") {
            let mut s = decimal(inning_seq as u16);
            s.append("回");
            match inning_tb {
                TB::Top => s.append("表"),
                TB::Bottom => s.append("裏"),
            }
            return s;
        }
        let mut s = String::from_str("the ");
        match inning_tb {
            TB::Top => s.append("top"),
            TB::Bottom => s.append("bottom"),
        }
        s.append(" of the ");
        let o = Self::ordinal(inning_seq as u16);
        s.append(o.as_str());
        s
    }

    pub open spec fn spec_homerun(&self, home_runs: u16) -> Seq<char> {
        if self.writes_japanese_numbers() {
            spec_decimal(home_runs as nat) + "号"@
        } else {
            spec_ordinal(home_runs as nat)
        }
    }

    /// Names a batter's n-th home run of the season, e.g. "22nd" or "22号".
    pub fn homerun(&self, home_runs: u16) -> (s: String)
        ensures
            s@ == self.spec_homerun(home_runs),
    {
        if self.lang == String::from_str("ja-JP") || self.lang == String::from_str("jp-JN") {
            let mut s = decimal(home_runs);
            s.append("号");
            return s;
        }
        Self::ordinal(home_runs)
    }

    /// English ordinal of `number`, e.g. "1st", "12th", "22nd".
    pub fn ordinal(number: u16) -> (s: String)
        ensures
            s@ == spec_ordinal(number as nat),
    {
        let m = number % 100;
        let mut s = decimal(number);
        if 11 <= m && m <= 13 {
            s.append("th");
        } else if number % 10 == 1 {
            s.append("st");
        } else if number % 10 == 2 {
            s.append("nd");
        } else if number % 10 == 3 {
            s.append("rd");
        } else {
            s.append("th");
        }
        s
    }
}

} // verus!
