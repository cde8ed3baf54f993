//! Sets of sensor identifiers as a request spells them: a comma-separated
//! list of terms, each a single identifier or a range `from:to`.
//!
//! A term is read leniently. Its first run of decimal digits is the
//! identifier; if a colon and another run of digits follow directly, the
//! term is the range between the two numbers, in either order, both ends
//! included. Whatever else stands in the term is ignored.

use vstd::prelude::*;
use crate::text::{
    after_first_field, digits_value, digits_within, first_field, is_digit,
    lemma_comma_from_bounds, parse_plain_u32, split_first,
};

verus! {

/// Separator `:` between the two ends of a range.
pub const COLON: u8 = 0x3A;

/// Why a text is no set of identifiers.
#[derive(Clone, Copy, Debug, PartialEq, Eq, Structural)]
pub enum IdRangeError {
    /// A term holds no digit.
    MissingId,
    /// A number of a term does not fit in 32 bits.
    IdOutOfRange,
}

/// The index of the first decimal digit of `s` at or after `i`, or the
/// length of `s` if there is none.
pub open spec fn digit_from(s: Seq<u8>, i: int) -> int
    decreases s.len() - i,
{
    if i < 0 || i >= s.len() || is_digit(s[i]) {
        i
    } else {
        digit_from(s, i + 1)
    }
}

/// The index at which the run of decimal digits that starts at `i` ends: the
/// first index at or after `i` that holds no digit, or the length of `s`.
pub open spec fn digits_end(s: Seq<u8>, i: int) -> int
    decreases s.len() - i,
{
    if i < 0 || i >= s.len() || !is_digit(s[i]) {
        i
    } else {
        digits_end(s, i + 1)
    }
}

/// The numbers that a term spells, as text: the first, longest run of
/// decimal digits of the term, and the longest run of digits behind a colon
/// that directly follows it, if there is one. `None` if the term holds no
/// digit.
pub open spec fn term_match(term: Seq<u8>) -> Option<(Seq<u8>, Option<Seq<u8>>)> {
    let start = digit_from(term, 0);
    let end = digits_end(term, start);
    if start >= term.len() {
        None
    } else if end + 1 < term.len() && term[end] == COLON && is_digit(term[end + 1]) {
        Some((term.subrange(start, end), Some(term.subrange(end + 1, digits_end(term, end + 1)))))
    } else {
        Some((term.subrange(start, end), None))
    }
}

/// The 32-bit number that a run of decimal digits writes.
pub open spec fn plain_u32(d: Seq<u8>) -> Option<u32> {
    if digits_within(d, u32::MAX as nat) {
        Some(digits_value(d) as u32)
    } else {
        None
    }
}

/// The range that a term stands for, lower end first, or why it stands for
/// none. A single identifier is the range from itself to itself.
pub open spec fn term_range(term: Seq<u8>) -> Result<(u32, u32), IdRangeError> {
    match term_match(term) {
        None => Err(IdRangeError::MissingId),
        Some((from_text, to_text)) => match plain_u32(from_text) {
            None => Err(IdRangeError::IdOutOfRange),
            Some(from) => match to_text {
                None => Ok((from, from)),
                Some(text) => match plain_u32(text) {
                    None => Err(IdRangeError::IdOutOfRange),
                    Some(to) => if from <= to {
                        Ok((from, to))
                    } else {
                        Ok((to, from))
                    },
                },
            },
        },
    }
}

/// The ranges that the terms of a list stand for, in the order of the
/// terms, or the reason why the first term that stands for none does so.
pub open spec fn parsed_ranges(param: Seq<u8>) -> Result<Seq<(u32, u32)>, IdRangeError>
    decreases param.len(),
{
    match term_range(first_field(param)) {
        Err(e) => Err(e),
        Ok(range) => match after_first_field(param) {
            None => Ok(seq![range]),
            Some(rest) => {
                proof {
                    lemma_comma_from_bounds(param, 0);
                }
                match parsed_ranges(rest) {
                    Err(e) => Err(e),
                    Ok(ranges) => Ok(seq![range] + ranges),
                }
            },
        },
    }
}

/// Whether one of the ranges holds `id`.
pub open spec fn covers(ranges: Seq<(u32, u32)>, id: u32) -> bool {
    exists|k: int| 0 <= k < ranges.len() && (#[trigger] ranges[k]).0 <= id <= ranges[k].1
}

/// The first match of the pattern `(?P<from>[0-9]+)(?::(?P<to>[0-9]+))?` in
/// `term`, found by `regex::bytes::Regex::captures`: the text of the group
/// `from` and, if it took part in the match, of the group `to`.
///
/// The contract states what the leftmost-first search of the `regex` crate
/// finds for this pattern: the match starts at the first digit of the term,
/// the greedy `from` takes the whole run of digits, and the optional group
/// takes part exactly if a colon and a digit follow that run.
#[verifier::external_body]
fn match_term(term: &[u8]) -> (found: Option<(Vec<u8>, Option<Vec<u8>>)>)
    ensures
        match term_match(term@) {
            None => found is None,
            Some((from, to)) => found matches Some((f, t)) && f@ == from && match to {
                None => t is None,
                Some(text) => t matches Some(x) && x@ == text,
            },
        },
{
    let term_regex = regex::bytes::Regex::new("(?P<from>[0-9]+)(?::(?P<to>[0-9]+))?").expect(
        "invalid regex",
    );
    let caps = term_regex.captures(term)?;
    let from = caps.name("from")?.as_bytes().to_vec();
    let to = caps.name("to").map(|m| m.as_bytes().to_vec());
    Some((from, to))
}

/// Reads one term of a list.
fn parse_term(term: &[u8]) -> (res: Result<(u32, u32), IdRangeError>)
    ensures
        res == term_range(term@),
{
    let (from_text, to_text) = match match_term(term) {
        Some(found) => found,
        None => {
            return Err(IdRangeError::MissingId);
        },
    };
    let from = match parse_plain_u32(from_text.as_slice()) {
        Some(n) => n,
        None => {
            return Err(IdRangeError::IdOutOfRange);
        },
    };
    match to_text {
        None => Ok((from, from)),
        Some(text) => match parse_plain_u32(text.as_slice()) {
            None => Err(IdRangeError::IdOutOfRange),
            Some(to) => if from <= to {
                Ok((from, to))
            } else {
                Ok((to, from))
            },
        },
    }
}

/// A set of sensor identifiers, held as the ranges that a request named.
#[derive(Clone, Debug, PartialEq, Eq)]
pub struct IdRange {
    ranges: Vec<(u32, u32)>,
}

impl View for IdRange {
    type V = Seq<(u32, u32)>;

    closed spec fn view(&self) -> Seq<(u32, u32)> {
        self.ranges@
    }
}

impl IdRange {
    /// Reads a comma-separated list of identifiers and ranges.
    pub fn from_param(param: &[u8]) -> (res: Result<IdRange, IdRangeError>)
        ensures
            match parsed_ranges(param@) {
                Ok(ranges) => res matches Ok(r) && r@ == ranges,
                Err(e) => res matches Err(x) && x == e,
            },
    {
        let mut ranges: Vec<(u32, u32)> = Vec::new();
        let mut rest: &[u8] = param;
        loop
            invariant
                parsed_ranges(param@) == (match parsed_ranges(rest@) {
                    Ok(more) => Ok::<Seq<(u32, u32)>, IdRangeError>(ranges@ + more),
                    Err(e) => Err::<Seq<(u32, u32)>, IdRangeError>(e),
                }),
            decreases rest@.len(),
        {
            let (term, after) = split_first(rest);
            let range = match parse_term(term) {
                Ok(r) => r,
                Err(e) => {
                    return Err(e);
                },
            };
            let ghost before = ranges@;
            ranges.push(range);
            match after {
                None => {
                    assert(ranges@ =~= before + seq![range]);
                    return Ok(IdRange { ranges });
                },
                Some(next) => {
                    proof {
                        lemma_comma_from_bounds(rest@, 0);
                        match parsed_ranges(next@) {
                            Ok(more) => {
                                assert(ranges@ + more =~= before + (seq![range] + more));
                            },
                            Err(_) => {},
                        }
                    }
                    rest = next;
                },
            }
        }
    }

    /// Whether one of the first `count` ranges holds `id`.
    fn covered_by_first(&self, count: usize, id: u32) -> (covered: bool)
        requires
            count <= self@.len(),
        ensures
            covered == covers(self@.take(count as int), id),
    {
        let mut k: usize = 0;
        while k < count
            invariant
                k <= count <= self.ranges@.len(),
                !covers(self.ranges@.take(k as int), id),
            decreases count - k,
        {
            if self.ranges[k].0 <= id && id <= self.ranges[k].1 {
                assert(self.ranges@.take(count as int)[k as int] == self.ranges@[k as int]);
                return true;
            }
            assert forall|j: int| 0 <= j < k + 1 implies !((#[trigger] self.ranges@.take(
                k + 1,
            )[j]).0 <= id <= self.ranges@.take(k + 1)[j].1) by {
                if j < k {
                    assert(self.ranges@.take(k as int)[j] == self.ranges@.take(k + 1)[j]);
                }
            }
            k += 1;
        }
        false
    }

    /// Whether the set holds `id`.
    pub fn contains(&self, id: u32) -> (found: bool)
        ensures
            found == covers(self@, id),
    {
        assert(self@.take(self@.len() as int) =~= self@);
        self.covered_by_first(self.ranges.len(), id)
    }

    /// The identifiers of the set, each once, in the order in which the
    /// request named them.
    pub fn iter(&self) -> (ids: Vec<u32>)
        ensures
            ids@.no_duplicates(),
            forall|id: u32| ids@.contains(id) <==> covers(self@, id),
    {
        let mut ids: Vec<u32> = Vec::new();
        let mut k: usize = 0;
        while k < self.ranges.len()
            invariant
                k <= self.ranges@.len(),
                ids@.no_duplicates(),
                forall|id: u32| ids@.contains(id) <==> covers(self@.take(k as int), id),
            decreases self.ranges@.len() - k,
        {
            let (from, to) = self.ranges[k];
            let mut i: u64 = from as u64;
            while i <= to as u64
                invariant
                    k < self.ranges@.len(),
                    self.ranges@[k as int] == (from, to),
                    from <= i <= to + 1 || (to < from && i == from),
                    ids@.no_duplicates(),
                    forall|id: u32|
                        ids@.contains(id) <==> covers(self@.take(k as int), id) || from <= id < i,
                decreases to + 1 - i,
            {
                let next = i as u32;
                let ghost before = ids@;
                let covered = self.covered_by_first(k, next);
                if !covered {
                    ids.push(next);
                    assert(ids@[before.len() as int] == next);
                    assert(!before.contains(next));
                    assert forall|id: u32| ids@.contains(id) <==> before.contains(id) || id
                        == next by {
                        if before.contains(id) {
                            let w = choose|w: int| 0 <= w < before.len() && before[w] == id;
                            assert(ids@[w] == id);
                        }
                    }
                    assert forall|a: int, b: int|
                        0 <= a < ids@.len() && 0 <= b < ids@.len() && a != b implies ids@[a]
                        != ids@[b] by {
                        if a < before.len() {
                            assert(before.contains(ids@[a]));
                        }
                        if b < before.len() {
                            assert(before.contains(ids@[b]));
                        }
                    }
                }
                assert forall|id: u32|
                    ids@.contains(id) <==> covers(self@.take(k as int), id) || from <= id < i
                        + 1 by {
                    assert(before.contains(id) <==> covers(self@.take(k as int), id) || from <= id
                        < i);
                    if covered {
                        assert(ids@ == before);
                    } else {
                        assert(ids@.contains(id) <==> before.contains(id) || id == next);
                    }
                }
                i += 1;
            }
            proof {
                let shorter = self@.take(k as int);
                let longer = self@.take(k + 1);
                assert forall|id: u32| covers(longer, id) <==> covers(shorter, id) || from <= id
                    <= to by {
                    if covers(shorter, id) {
                        let w = choose|w: int|
                            0 <= w < shorter.len() && (#[trigger] shorter[w]).0 <= id
                                <= shorter[w].1;
                        assert(longer[w] == shorter[w]);
                    }
                    if from <= id <= to {
                        assert(longer[k as int] == (from, to));
                    }
                    if covers(longer, id) {
                        let w = choose|w: int|
                            0 <= w < longer.len() && (#[trigger] longer[w]).0 <= id <= longer[w].1;
                        if w < k {
                            assert(shorter[w] == longer[w]);
                        }
                    }
                }
            }
            k += 1;
        }
        assert(self@.take(k as int) =~= self@);
        ids
    }
}

} // verus!
