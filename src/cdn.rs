use crate::error::OptError;
use vstd::prelude::*;

verus! {

/// The content delivery network that stream links are requested from.
#[derive(Debug, Clone, Copy, PartialEq, Eq, Structural)]
pub enum Cdn {
    Akc,
    L3c,
}

/// The canonical lowercase token of each selector.
pub open spec fn cdn_token(c: Cdn) -> Seq<char> {
    match c {
        Cdn::Akc => seq!['a', 'k', 'c'],
        Cdn::L3c => seq!['l', '3', 'c'],
    }
}

/// The selector whose token is exactly `t`, if any (case-sensitive).
pub open spec fn cdn_of(t: Seq<char>) -> Option<Cdn> {
    if t == cdn_token(Cdn::Akc) {
        Some(Cdn::Akc)
    } else if t == cdn_token(Cdn::L3c) {
        Some(Cdn::L3c)
    } else {
        None
    }
}

impl Cdn {
    /// Parses a selector from its exact token; anything else is `InvalidChoice`.
    pub fn from_str(s: &str) -> (r: Result<Cdn, OptError>)
        ensures
            r == (match cdn_of(s@) {
                Some(c) => Ok(c),
                None => Err(OptError::InvalidChoice),
            }),
    {
        let n = s.unicode_len();
        if n != 3 {
            return Err(OptError::InvalidChoice);
        }
        let c0 = s.get_char(0);
        let c1 = s.get_char(1);
        let c2 = s.get_char(2);
        if c0 == 'a' && c1 == 'k' && c2 == 'c' {
            assert(s@ =~= cdn_token(Cdn::Akc));
            Ok(Cdn::Akc)
        } else if c0 == 'l' && c1 == '3' && c2 == 'c' {
            assert(s@ =~= cdn_token(Cdn::L3c));
            Ok(Cdn::L3c)
        } else {
            assert(s@ != cdn_token(Cdn::Akc) && s@ != cdn_token(Cdn::L3c)) by {
                if s@ == cdn_token(Cdn::Akc) {
                    assert(s@[0] == 'a' && s@[1] == 'k' && s@[2] == 'c');
                }
                if s@ == cdn_token(Cdn::L3c) {
                    assert(s@[0] == 'l' && s@[1] == '3' && s@[2] == 'c');
                }
            }
            Err(OptError::InvalidChoice)
        }
    }

    /// The canonical token of this selector.
    pub fn as_str(&self) -> (r: &'static str)
        ensures
            r@ == cdn_token(*self),
    {
        match self {
            Cdn::Akc => {
                proof {
                    reveal_strlit("akc");
                }
                "akc"
            },
            Cdn::L3c => {
                proof {
                    reveal_strlit("l3c");
                }
                "l3c"
            },
        }
    }
}

impl Default for Cdn {
    /// `Akc` is the selector used when none is given.
    fn default() -> (r: Cdn)
        ensures
            r == Cdn::Akc,
    {
        Cdn::Akc
    }
}

impl std::str::FromStr for Cdn {
    type Err = OptError;

    fn from_str(s: &str) -> Result<Cdn, OptError> {
        Cdn::from_str(s)
    }
}

impl From<Cdn> for &'static str {
    fn from(cdn: Cdn) -> (r: &'static str)
        ensures
            r@ == cdn_token(cdn),
    {
        match cdn {
            Cdn::Akc => {
                proof {
                    reveal_strlit("akc");
                }
                "akc"
            },
            Cdn::L3c => {
                proof {
                    reveal_strlit("l3c");
                }
                "l3c"
            },
        }
    }
}

impl vstd::std_specs::convert::FromSpecImpl<Cdn> for &'static str {
    open spec fn obeys_from_spec() -> bool {
        true
    }

    open spec fn from_spec(cdn: Cdn) -> &'static str {
        match cdn {
            Cdn::Akc => "akc",
            Cdn::L3c => "l3c",
        }
    }
}

/// Parsing the token of a selector gives that selector back.
pub proof fn lemma_cdn_round_trip(c: Cdn)
    ensures
        cdn_of(cdn_token(c)) == Some(c),
{
    assert(cdn_token(Cdn::Akc) != cdn_token(Cdn::L3c)) by {
        assert(cdn_token(Cdn::Akc)[0] != cdn_token(Cdn::L3c)[0]);
    }
}

} // verus!
