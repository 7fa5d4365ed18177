//! Simulation setup: the reference text, its alphabet, and the random draw.

use vstd::prelude::*;
use crate::alphabet::parse_all_chars;

verus! {

/// Why the simulation could not be set up.
#[derive(Clone, Copy, PartialEq, Eq, Structural, Debug)]
pub enum SimError {
    /// The reference text is empty, so no alphabet exists to guess from.
    EmptyText,
}

/// The immutable setup shared by every worker: the reference text and the
/// alphabet of distinct characters appearing in it.  Computed once at startup
/// and never mutated afterwards.
pub struct Simulation {
    text: Vec<char>,
    alphabet: Vec<char>,
}

/// Relies on fastrand::usize: returns a value drawn uniformly from the given
/// range; panics when the range is empty, which the precondition rules out.
#[verifier::external_body]
fn random_index(n: usize) -> (r: usize)
    requires
        n >= 1,
    ensures
        r < n,
{
    fastrand::usize(0..n)
}

impl Simulation {
    /// The reference text as a sequence of characters.
    pub closed spec fn text(&self) -> Seq<char> {
        self.text@
    }

    /// The alphabet as a sequence of characters.
    pub closed spec fn alphabet(&self) -> Seq<char> {
        self.alphabet@
    }

    /// Well-formedness: the text is non-empty and the alphabet holds exactly
    /// its distinct characters, each once.
    pub open spec fn wf(&self) -> bool {
        &&& 0 < self.text().len() <= usize::MAX
        &&& self.alphabet().no_duplicates()
        &&& forall|c: char| self.alphabet().contains(c) <==> self.text().contains(c)
    }

    /// Builds the simulation from the reference text: fails exactly when the
    /// text is empty, and otherwise yields a well-formed setup whose alphabet
    /// size lies between 1 and the text length.
    pub fn new(text: &str) -> (r: Result<Simulation, SimError>)
        ensures
            r is Err <==> text@.len() == 0,
            r matches Err(e) ==> e == SimError::EmptyText,
            r matches Ok(s) ==> {
                &&& s.wf()
                &&& s.text() == text@
                &&& 1 <= s.alphabet().len() <= text@.len()
            },
    {
        if text.is_empty() {
            return Err(SimError::EmptyText);
        }
        let mut chars_v: Vec<char> = Vec::new();
        for c in it: text.chars()
            invariant
                it.seq() == text@,
                chars_v@ == it.seq().take(it.index() as int),
        {
            chars_v.push(c);
        }
        proof {
            assert(chars_v@ =~= text@);
        }
        // The vector's length witnesses that the text length fits in usize.
        let n = chars_v.len();
        proof {
            assert(text@.len() == n <= usize::MAX);
        }
        let alphabet = parse_all_chars(text);
        Ok(Simulation { text: chars_v, alphabet })
    }

    /// The length of the reference text in characters.
    pub fn text_len(&self) -> (n: usize)
        ensures
            n == self.text().len(),
    {
        self.text.len()
    }

    /// The number of distinct characters of the reference text.
    pub fn unique_count(&self) -> (n: usize)
        ensures
            n == self.alphabet().len(),
    {
        self.alphabet.len()
    }

    /// The character of the reference text at position `i`.
    pub fn char_at(&self, i: usize) -> (c: char)
        requires
            i < self.text().len(),
        ensures
            c == self.text()[i as int],
    {
        self.text[i]
    }

    /// One random guess: a character drawn from the alphabet.  Nothing more is
    /// known of which one, only that it belongs to the alphabet and hence
    /// occurs in the text.
    pub fn random_char(&self) -> (c: char)
        requires
            self.wf(),
        ensures
            self.alphabet().contains(c),
            self.text().contains(c),
    {
        proof {
            assert(self.text().contains(self.text()[0]));
            assert(self.alphabet().contains(self.text()[0]));
        }
        let i = random_index(self.alphabet.len());
        self.alphabet[i]
    }
}

} // verus!
