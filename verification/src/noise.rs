//! The background-noise colours that can be mixed under the tone.
use vstd::prelude::*;
use crate::text::chars_of;
use crate::text::chars_eq;

verus! {

/// The kind of background noise mixed under the binaural tone.
#[derive(Clone, Copy, Debug, PartialEq, Eq, Structural)]
pub enum Noise {
    Off,
    White,
    Pink,
    Brown,
}

/// A noise name that is none of `off`, `white`, `pink`, `brown`.
#[derive(Clone, Copy, Debug, PartialEq, Eq, Structural)]
pub struct NoiseError;

impl NoiseError {
    /// The text shown to a user for this error.
    pub fn message(&self) -> (r: &'static str)
        ensures
            r@ == "noise must be off, white, pink, or brown"@,
    {
        "noise must be off, white, pink, or brown"
    }
}

/// The name under which each kind of noise is written.
pub open spec fn noise_name(n: Noise) -> Seq<char> {
    match n {
        Noise::Off => seq!['o', 'f', 'f'],
        Noise::White => seq!['w', 'h', 'i', 't', 'e'],
        Noise::Pink => seq!['p', 'i', 'n', 'k'],
        Noise::Brown => seq!['b', 'r', 'o', 'w', 'n'],
    }
}

/// The kind of noise written as `s`, if any (names are case-sensitive).
pub open spec fn noise_named(s: Seq<char>) -> Option<Noise> {
    if s == noise_name(Noise::Off) {
        Some(Noise::Off)
    } else if s == noise_name(Noise::White) {
        Some(Noise::White)
    } else if s == noise_name(Noise::Pink) {
        Some(Noise::Pink)
    } else if s == noise_name(Noise::Brown) {
        Some(Noise::Brown)
    } else {
        None
    }
}

impl Default for Noise {
    fn default() -> (r: Noise)
        ensures
            r == Noise::Off,
    {
        Noise::Off
    }
}

impl Noise {
    /// The name of this kind of noise.
    pub fn as_str(self) -> (r: &'static str)
        ensures
            r@ == noise_name(self),
    {
        proof {
            reveal_strlit("off");
            reveal_strlit("white");
            reveal_strlit("pink");
            reveal_strlit("brown");
        }
        match self {
            Noise::Off => "off",
            Noise::White => "white",
            Noise::Pink => "pink",
            Noise::Brown => "brown",
        }
    }

    /// The kind of noise named `s`; the names are exact and case-sensitive.
    pub fn parse(s: &str) -> (r: Result<Noise, NoiseError>)
        ensures
            r == (match noise_named(s@) {
                Some(n) => Ok(n),
                None => Err(NoiseError),
            }),
    {
        let cs = chars_of(s);
        let kinds = [Noise::Off, Noise::White, Noise::Pink, Noise::Brown];
        let mut i: usize = 0;
        while i < 4
            invariant
                cs@ == s@,
                i <= 4,
                kinds@ == seq![Noise::Off, Noise::White, Noise::Pink, Noise::Brown],
                forall|k: int| 0 <= k < i ==> s@ != noise_name(#[trigger] kinds@[k]),
            decreases 4 - i,
        {
            let name = chars_of(kinds[i].as_str());
            if chars_eq(cs.as_slice(), name.as_slice()) {
                return Ok(kinds[i]);
            }
            i = i + 1;
        }
        assert(s@ != noise_name(kinds@[0]));
        assert(s@ != noise_name(kinds@[1]));
        assert(s@ != noise_name(kinds@[2]));
        assert(s@ != noise_name(kinds@[3]));
        Err(NoiseError)
    }
}

/// Each kind of noise is read back from its own name, and no two kinds share
/// a name.
pub proof fn lemma_noise_name_roundtrip(n: Noise)
    ensures
        noise_named(noise_name(n)) == Some(n),
{
    assert(noise_name(Noise::Off) != noise_name(Noise::White));
    assert(noise_name(Noise::Off) != noise_name(Noise::Pink));
    assert(noise_name(Noise::Off) != noise_name(Noise::Brown));
    assert(noise_name(Noise::White) != noise_name(Noise::Pink));
    assert(noise_name(Noise::White) != noise_name(Noise::Brown));
    assert(noise_name(Noise::Pink) != noise_name(Noise::Brown));
}

/// A name that parses names exactly that kind of noise.
pub proof fn lemma_noise_named_exact(s: Seq<char>)
    ensures
        noise_named(s) matches Some(n) ==> noise_name(n) == s,
{
}

} // verus!
