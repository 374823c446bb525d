//! Key pattern matching: a pattern is a string of literal characters
//! and `*` wildcards, each `*` matching zero or more non-separator
//! characters. A match covers the whole key (implicit anchors at both
//! ends). Every pattern string compiles; the absence of a pattern, and
//! an empty pattern list, count as matching everything.

use vstd::prelude::*;
use crate::text::chars_of;

verus! {

/// Whether the pattern matches the whole key: a literal character
/// matches itself, and `*` matches zero or more characters other than
/// `/`.
pub open spec fn glob_match(p: Seq<char>, s: Seq<char>) -> bool
    decreases p.len() + s.len(),
{
    if p.len() == 0 {
        s.len() == 0
    } else if p[0] == '*' {
        glob_match(p.skip(1), s) || (s.len() > 0 && s[0] != '/' && glob_match(p, s.skip(1)))
    } else {
        s.len() > 0 && s[0] == p[0] && glob_match(p.skip(1), s.skip(1))
    }
}

/// A compiled key pattern.
pub struct KeyPattern {
    pub chars: Vec<char>,
}

impl KeyPattern {
    /// The pattern string this matcher was compiled from.
    pub open spec fn pattern(self) -> Seq<char> {
        self.chars@
    }

    /// Compiles a pattern. Every string is a valid pattern, so
    /// compilation cannot fail.
    pub fn compile(pattern: &str) -> (r: KeyPattern)
        ensures
            r.pattern() == pattern@,
    {
        KeyPattern { chars: chars_of(pattern) }
    }

    /// Whether this pattern matches the whole of `key`.
    pub fn matches(&self, key: &str) -> (r: bool)
        ensures
            r == glob_match(self.pattern(), key@),
    {
        let k = chars_of(key);
        self.matches_chars(&k)
    }

    /// Whether this pattern matches the whole character sequence.
    pub fn matches_chars(&self, key: &Vec<char>) -> (r: bool)
        ensures
            r == glob_match(self.pattern(), key@),
    {
        proof {
            assert(self.chars@.skip(0) =~= self.chars@);
            assert(key@.skip(0) =~= key@);
        }
        glob_match_at(&self.chars, 0, key, 0)
    }
}

/// Matches the pattern suffix starting at `pi` against the key suffix
/// starting at `si`.
fn glob_match_at(p: &Vec<char>, pi: usize, s: &Vec<char>, si: usize) -> (r: bool)
    requires
        pi <= p.len(),
        si <= s.len(),
    ensures
        r == glob_match(p@.skip(pi as int), s@.skip(si as int)),
    decreases p@.len() - pi + s@.len() - si,
{
    if pi == p.len() {
        proof {
            assert(p@.skip(pi as int).len() == 0);
        }
        si == s.len()
    } else {
        proof {
            assert(p@.skip(pi as int)[0] == p@[pi as int]);
            assert(p@.skip(pi as int).skip(1) =~= p@.skip(pi + 1));
        }
        if p[pi] == '*' {
            if glob_match_at(p, pi + 1, s, si) {
                true
            } else if si < s.len() {
                proof {
                    assert(s@.skip(si as int)[0] == s@[si as int]);
                    assert(s@.skip(si as int).skip(1) =~= s@.skip(si + 1));
                }
                if s[si] != '/' {
                    glob_match_at(p, pi, s, si + 1)
                } else {
                    false
                }
            } else {
                proof {
                    assert(s@.skip(si as int).len() == 0);
                }
                false
            }
        } else {
            if si < s.len() {
                proof {
                    assert(s@.skip(si as int)[0] == s@[si as int]);
                    assert(s@.skip(si as int).skip(1) =~= s@.skip(si + 1));
                }
                if s[si] == p[pi] {
                    glob_match_at(p, pi + 1, s, si + 1)
                } else {
                    false
                }
            } else {
                proof {
                    assert(s@.skip(si as int).len() == 0);
                }
                false
            }
        }
    }
}

/// Whether the key matches under an optional pattern: no pattern
/// means every key matches.
pub open spec fn spec_key_selected(pat: Option<KeyPattern>, key: Seq<char>) -> bool {
    match pat {
        Option::None => true,
        Option::Some(p) => glob_match(p.pattern(), key),
    }
}

/// Whether any pattern of the list matches the key; an empty list
/// matches everything.
pub open spec fn spec_any_matches(pats: Seq<KeyPattern>, key: Seq<char>) -> bool {
    pats.len() == 0 || exists|i: int| 0 <= i < pats.len() && glob_match((#[trigger] pats[i]).pattern(), key)
}

/// Whether any pattern of the list matches the whole key; an empty
/// list matches everything.
pub fn any_matches(pats: &Vec<KeyPattern>, key: &str) -> (r: bool)
    ensures
        r == spec_any_matches(pats@, key@),
{
    if pats.len() == 0 {
        return true;
    }
    let k = chars_of(key);
    let mut i: usize = 0;
    while i < pats.len()
        invariant
            i <= pats@.len(),
            k@ == key@,
            forall|j: int| 0 <= j < i ==> !glob_match((#[trigger] pats@[j]).pattern(), key@),
        decreases pats@.len() - i,
    {
        if pats[i].matches_chars(&k) {
            return true;
        }
        i = i + 1;
    }
    false
}

} // verus!
