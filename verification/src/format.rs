//! The contract between the loader and a file format, and the position arithmetic of parse
//! errors.
use vstd::prelude::*;
use crate::text::{char_width, utf8_len, utf8_width, lemma_utf8_len_take_next, lemma_utf8_len_take_strict};
use crate::value::Value;

verus! {

/// A strategy that lowers source text into a [`Value`].
pub trait Format {
    /// The format's name, as parse errors print it.
    spec fn spec_name(&self) -> Seq<char>;

    /// Whether `r` is what parsing `source` gives.
    spec fn parses_to(&self, source: Seq<char>, r: Result<Value, ParseError>) -> bool;

    fn name(&self) -> (n: &'static str)
        ensures
            n@ == self.spec_name(),
    ;

    /// Returns a [`ParseError`] when `source` is not well-formed in this format.
    fn parse(&self, source: &str) -> (r: Result<Value, ParseError>)
        ensures
            self.parses_to(source@, r),
    ;
}

/// A parse failure, with the byte offset into the source when the parser reports one.
#[derive(Debug, PartialEq, Eq)]
pub struct ParseError {
    pub message: String,
    pub offset: Option<usize>,
}

/// The number of newlines in `s`.
pub open spec fn count_newlines(s: Seq<char>) -> nat
    decreases s.len(),
{
    if s.len() == 0 {
        0
    } else {
        count_newlines(s.drop_last()) + if s.last() == '\n' { 1nat } else { 0nat }
    }
}

/// The position just after the last newline of `s`, or 0 when it has none.
pub open spec fn line_start(s: Seq<char>) -> nat
    decreases s.len(),
{
    if s.len() == 0 {
        0
    } else if s.last() == '\n' {
        s.len()
    } else {
        line_start(s.drop_last())
    }
}

/// The number of chars whose UTF-8 encoding is exactly `offset` bytes long at the start of
/// `chars`, when the offset lands on a char boundary.
pub open spec fn chars_before(chars: Seq<char>, offset: int) -> Option<int> {
    if exists|k: int| 0 <= k <= chars.len() && utf8_len(chars.take(k)) == offset {
        Some(choose|k: int| 0 <= k <= chars.len() && utf8_len(chars.take(k)) == offset)
    } else {
        None
    }
}

/// `n + 1`, saturating at `usize::MAX`.
pub open spec fn succ_saturating(n: int) -> usize {
    if n < usize::MAX { (n + 1) as usize } else { usize::MAX }
}

/// The 1-based line and 1-based char column of byte `offset` in `chars`.
pub open spec fn line_col_of(chars: Seq<char>, offset: Option<usize>) -> Option<(usize, usize)> {
    match offset {
        None => None,
        Some(o) => match chars_before(chars, o as int) {
            None => None,
            Some(k) => {
                let before = chars.take(k);
                Some((succ_saturating(count_newlines(before) as int), succ_saturating(k - line_start(before))))
            },
        },
    }
}

proof fn lemma_line_start_bound(s: Seq<char>)
    ensures
        line_start(s) <= s.len(),
    decreases s.len(),
{
    if s.len() > 0 {
        lemma_line_start_bound(s.drop_last());
    }
}

proof fn lemma_count_newlines_bound(s: Seq<char>)
    ensures
        count_newlines(s) <= s.len(),
    decreases s.len(),
{
    if s.len() > 0 {
        lemma_count_newlines_bound(s.drop_last());
    }
}

/// A prefix of `k` chars is at least `k` bytes long.
proof fn lemma_utf8_len_at_least(chars: Seq<char>, k: int)
    requires
        0 <= k <= chars.len(),
    ensures
        utf8_len(chars.take(k)) >= k,
    decreases k,
{
    if k > 0 {
        lemma_utf8_len_take_next(chars, k - 1);
        lemma_utf8_len_at_least(chars, k - 1);
    } else {
        assert(chars.take(0) =~= Seq::<char>::empty());
    }
}

/// The byte offset of a char boundary maps back to the line and column of that char: for the
/// `k`th char of `chars`, the line counts the newlines before it and the column the chars since
/// the last of them, both from 1.
pub proof fn law_line_col_of_char_boundary(chars: Seq<char>, k: int)
    requires
        0 <= k <= chars.len(),
        utf8_len(chars.take(k)) <= usize::MAX,
    ensures
        line_col_of(chars, Some(utf8_len(chars.take(k)) as usize)) == Some((
            succ_saturating(count_newlines(chars.take(k)) as int),
            succ_saturating(k - line_start(chars.take(k))),
        )),
{
    let o = utf8_len(chars.take(k));
    let c = choose|j: int| 0 <= j <= chars.len() && utf8_len(chars.take(j)) == o;
    if c < k {
        lemma_utf8_len_take_strict(chars, c, k);
    } else if k < c {
        lemma_utf8_len_take_strict(chars, k, c);
    }
}

impl ParseError {
    /// 1-based `(line, column)` of the offset in `source`, with the column counted in chars;
    /// `None` when there is no offset or it does not land on a char boundary inside `source`.
    pub fn line_col(&self, source: &str) -> (r: Option<(usize, usize)>)
        ensures
            r == line_col_of(source@, self.offset),
    {
        let offset = match self.offset {
            Some(o) => o,
            None => return None,
        };
        let ghost chars = source@;
        let mut pos: usize = 0;
        let mut k: usize = 0;
        let mut newlines: usize = 0;
        let mut start: usize = 0;
        proof {
            assert(chars.take(0) =~= Seq::<char>::empty());
        }
        for c in it: source.chars()
            invariant
                chars == source@,
                it.seq() == chars,
                k == it.index(),
                0 <= k <= chars.len(),
                pos == utf8_len(chars.take(k as int)),
                pos <= offset,
                k <= pos,
                newlines <= k,
                newlines == count_newlines(chars.take(k as int)),
                start == line_start(chars.take(k as int)),
                offset == self.offset->0,
                self.offset is Some,
        {
            if pos == offset {
                proof { self.lemma_found(chars, k as int); }
                return Some(Self::position(k, newlines, start, Ghost(chars.take(k as int))));
            }
            let w = char_width(c);
            if offset - pos < w {
                proof { self.lemma_between(chars, k as int); }
                return None;
            }
            proof {
                lemma_utf8_len_take_next(chars, k as int);
                assert(chars.take(k + 1).drop_last() =~= chars.take(k as int));
                lemma_utf8_len_at_least(chars, k as int);
            }
            pos = pos + w;
            if c == '\n' {
                newlines = newlines + 1;
                start = k + 1;
            }
            k = k + 1;
        }
        if pos == offset {
            proof { self.lemma_found(chars, k as int); }
            Some(Self::position(k, newlines, start, Ghost(chars.take(k as int))))
        } else {
            proof { self.lemma_past_end(chars); }
            None
        }
    }

    fn position(k: usize, newlines: usize, start: usize, Ghost(before): Ghost<Seq<char>>) -> (r: (usize, usize))
        requires
            k == before.len(),
            newlines == count_newlines(before),
            start == line_start(before),
        ensures
            r == (succ_saturating(count_newlines(before) as int), succ_saturating(k - line_start(before))),
    {
        proof {
            lemma_line_start_bound(before);
        }
        let line = if newlines < usize::MAX { newlines + 1 } else { usize::MAX };
        let col = if k - start < usize::MAX { k - start + 1 } else { usize::MAX };
        (line, col)
    }

    proof fn lemma_found(&self, chars: Seq<char>, k: int)
        requires
            0 <= k <= chars.len(),
            self.offset is Some,
            utf8_len(chars.take(k)) == self.offset->0,
        ensures
            chars_before(chars, self.offset->0 as int) == Some(k),
    {
        let o = self.offset->0 as int;
        let j = choose|j: int| 0 <= j <= chars.len() && utf8_len(chars.take(j)) == o;
        if j < k {
            lemma_utf8_len_take_strict(chars, j, k);
        } else if k < j {
            lemma_utf8_len_take_strict(chars, k, j);
        }
    }

    proof fn lemma_between(&self, chars: Seq<char>, k: int)
        requires
            0 <= k < chars.len(),
            self.offset is Some,
            utf8_len(chars.take(k)) < self.offset->0,
            self.offset->0 < utf8_len(chars.take(k)) + utf8_width(chars[k]),
        ensures
            chars_before(chars, self.offset->0 as int) is None,
    {
        let o = self.offset->0 as int;
        lemma_utf8_len_take_next(chars, k);
        assert forall|j: int| 0 <= j <= chars.len() implies utf8_len(chars.take(j)) != o by {
            if j < k {
                lemma_utf8_len_take_strict(chars, j, k);
            } else if j > k + 1 {
                lemma_utf8_len_take_strict(chars, k + 1, j);
            }
        }
    }

    proof fn lemma_past_end(&self, chars: Seq<char>)
        requires
            self.offset is Some,
            utf8_len(chars.take(chars.len() as int)) < self.offset->0,
        ensures
            chars_before(chars, self.offset->0 as int) is None,
    {
        let o = self.offset->0 as int;
        assert forall|j: int| 0 <= j <= chars.len() implies utf8_len(chars.take(j)) != o by {
            if j < chars.len() {
                lemma_utf8_len_take_strict(chars, j, chars.len() as int);
            }
        }
    }
}

} // verus!
