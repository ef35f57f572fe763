//! Splitting a string at the occurrences of a delimiter.
//!
//! The splitter hands back the piece before the first occurrence of the
//! delimiter, consumes the occurrence, and goes on with the rest; once no
//! occurrence is left it hands back whatever remains, in one final piece.
//! Positions and lengths are counted in characters, not bytes.

use vstd::prelude::*;

verus! {

/// Something that can find its first occurrence in a string.
pub trait Delimiter: Sized {
    /// An occurrence of this delimiter starts at position `at` of `s`.
    spec fn matches_at(&self, s: Seq<char>, at: int) -> bool;

    /// How many characters an occurrence spans.
    spec fn match_len(&self) -> int;

    /// Finds the first occurrence: the earliest position where this
    /// delimiter matches, together with the position just past it, or
    /// nothing when no occurrence exists.
    fn find_next(&self, s: &str) -> (r: Option<(usize, usize)>)
        ensures
            match r {
                Some(pair) => {
                    &&& pair.0 <= pair.1
                    &&& pair.0 + self.match_len() == pair.1
                    &&& pair.1 <= s@.len()
                    &&& self.matches_at(s@, pair.0 as int)
                    &&& (forall|k: int| 0 <= k < pair.0 ==> !self.matches_at(s@, k))
                },
                None => forall|k: int|
                    0 <= k && k + self.match_len() <= s@.len() ==> !self.matches_at(s@, k),
            },
    ;
}

/// The delimiter `d` occurs nowhere in `s`.
pub open spec fn no_match_in<D: Delimiter>(d: &D, s: Seq<char>) -> bool {
    forall|k: int| 0 <= k && k + d.match_len() <= s.len() ==> !d.matches_at(s, k)
}

/// The first occurrence of `d` in `s` starts at `at`.
pub open spec fn first_match_at<D: Delimiter>(d: &D, s: Seq<char>, at: int) -> bool {
    &&& 0 <= at
    &&& at + d.match_len() <= s.len()
    &&& d.matches_at(s, at)
    &&& (forall|k: int| 0 <= k < at ==> !d.matches_at(s, k))
}

/// Splits a borrowed string at the occurrences of a delimiter, one piece per
/// call of [`StrSplit::next`].
pub struct StrSplit<'haystack, D> {
    remainder: Option<&'haystack str>,
    delimiter: D,
}

impl<'haystack, D: Delimiter> StrSplit<'haystack, D> {
    /// What is still to be split: the unsplit tail of the haystack, or
    /// nothing once the final piece has been handed out.
    pub closed spec fn remaining(&self) -> Option<Seq<char>> {
        match self.remainder {
            Some(rem) => Some(rem@),
            None => None,
        }
    }

    /// The delimiter this splitter was built with.
    pub closed spec fn delim(&self) -> D {
        self.delimiter
    }

    /// A splitter over the whole of `haystack`.
    pub fn new(haystack: &'haystack str, delimiter: D) -> (r: Self)
        ensures
            r.remaining() == Some(haystack@),
            r.delim() == delimiter,
    {
        StrSplit { remainder: Some(haystack), delimiter }
    }

    /// The next piece: everything before the first occurrence of the
    /// delimiter in the remainder, with that occurrence consumed; the whole
    /// remainder as the final piece when no occurrence is left; nothing once
    /// the final piece is out.  An occurrence right at the start, or two
    /// adjacent ones, yield empty pieces, never a skipped position.
    pub fn next(&mut self) -> (r: Option<&'haystack str>)
        ensures
            final(self).delim() == old(self).delim(),
            old(self).remaining() is None ==> r is None && final(self).remaining() is None,
            old(self).remaining() matches Some(rem) ==> (match r {
                Some(piece) => {
                    ||| (exists|a: int|
                        #![auto]
                        {
                            &&& first_match_at(&old(self).delim(), rem, a)
                            &&& piece@ == rem.subrange(0, a)
                            &&& final(self).remaining() == Some(
                                rem.subrange(a + old(self).delim().match_len(), rem.len() as int),
                            )
                        })
                    ||| ({
                        &&& no_match_in(&old(self).delim(), rem)
                        &&& piece@ == rem
                        &&& final(self).remaining() is None
                    })
                },
                None => false,
            }),
    {
        match self.remainder {
            Some(remainder) => {
                match self.delimiter.find_next(remainder) {
                    Some(found) => {
                        let (delim_start, delim_end) = found;
                        let until_delimiter = remainder.substring_char(0, delim_start);
                        let rest = remainder.substring_char(delim_end, remainder.unicode_len());
                        self.remainder = Some(rest);
                        Some(until_delimiter)
                    },
                    None => {
                        self.remainder = None;
                        Some(remainder)
                    },
                }
            },
            None => None,
        }
    }
}

impl Delimiter for char {
    /// This character stands at position `at`.
    open spec fn matches_at(&self, s: Seq<char>, at: int) -> bool {
        0 <= at < s.len() && s[at] == *self
    }

    open spec fn match_len(&self) -> int {
        1
    }

    /// A left-to-right scan for the first position holding this character.
    fn find_next(&self, s: &str) -> (r: Option<(usize, usize)>) {
        let n = s.unicode_len();
        let mut i: usize = 0;
        while i < n
            invariant
                i <= n,
                n == s@.len(),
                forall|k: int| 0 <= k < i ==> s@[k] != *self,
            decreases n - i,
        {
            if s.get_char(i) == *self {
                return Some((i, i + 1));
            }
            i += 1;
        }
        None
    }
}

/// The characters of `d` stand at positions `at` up to `at + d@.len()` of `s`.
fn str_matches_at(s: &str, d: &str, at: usize) -> (r: bool)
    requires
        at + d@.len() <= s@.len(),
    ensures
        r == (s@.subrange(at as int, at + d@.len()) == d@),
{
    let n = s.unicode_len();
    let dl = d.unicode_len();
    let mut j: usize = 0;
    while j < dl
        invariant
            j <= dl,
            n == s@.len(),
            dl == d@.len(),
            at + dl <= n,
            forall|k: int| 0 <= k < j ==> s@[at + k] == d@[k],
        decreases dl - j,
    {
        let sc = s.get_char(at + j);
        let dc = d.get_char(j);
        if sc != dc {
            proof {
                assert(s@.subrange(at as int, at + d@.len())[j as int] != d@[j as int]);
            }
            return false;
        }
        j += 1;
    }
    proof {
        assert(s@.subrange(at as int, at + d@.len()) =~= d@);
    }
    true
}

impl<'delim> Delimiter for &'delim str {
    /// This string stands, character for character, at positions `at` up to
    /// `at` plus its length.
    open spec fn matches_at(&self, s: Seq<char>, at: int) -> bool {
        &&& 0 <= at
        &&& at + self@.len() <= s.len()
        &&& s.subrange(at, at + self@.len()) == self@
    }

    open spec fn match_len(&self) -> int {
        self@.len() as int
    }

    /// A left-to-right scan for the first position where every character of
    /// this string lines up.
    fn find_next(&self, s: &str) -> (r: Option<(usize, usize)>) {
        let n = s.unicode_len();
        let dl = self.unicode_len();
        if dl > n {
            return None;
        }
        if dl == 0 {
            proof {
                assert(s@.subrange(0, 0) =~= self@);
            }
            return Some((0, 0));
        }
        let mut start: usize = 0;
        while start <= n - dl
            invariant
                start <= n - dl + 1,
                1 <= dl <= n,
                n == s@.len(),
                dl == self@.len(),
                forall|k: int| 0 <= k < start ==> !self.matches_at(s@, k),
            decreases n + 1 - start,
        {
            if str_matches_at(s, self, start) {
                return Some((start, start + dl));
            }
            start += 1;
        }
        None
    }
}

/// Everything before the first occurrence of `c` in `s`: the piece handed
/// out first when splitting `s` at `c`, which is all of `s` when `c` does
/// not occur.
pub fn until_char<'a>(s: &'a str, c: char) -> (r: &'a str)
    ensures
        r@.len() <= s@.len(),
        r@ == s@.subrange(0, r@.len() as int),
        forall|k: int| 0 <= k < r@.len() ==> s@[k] != c,
        r@.len() < s@.len() ==> s@[r@.len() as int] == c,
{
    let mut split = StrSplit::new(s, c);
    let piece = split.next();
    proof {
        assert(piece is Some);
    }
    let p = piece.unwrap();
    proof {
        if no_match_in(&c, s@) && p@ == s@ {
            assert(s@.subrange(0, s@.len() as int) =~= s@);
            assert forall|k: int| 0 <= k < p@.len() implies s@[k] != c by {
                assert(!c.matches_at(s@, k));
            }
        } else {
            let a = choose|a: int|
                #![auto]
                {
                    &&& first_match_at(&c, s@, a)
                    &&& p@ == s@.subrange(0, a)
                    &&& split.remaining() == Some(
                        s@.subrange(a + c.match_len(), s@.len() as int),
                    )
                };
            assert(first_match_at(&c, s@, a));
            assert(p@.len() == a);
            assert(s@[a] == c);
            assert forall|k: int| 0 <= k < p@.len() implies s@[k] != c by {
                assert(!c.matches_at(s@, k));
            }
        }
    }
    p
}

} // verus!
