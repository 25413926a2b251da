//! Byte strings: searching, splitting, lines, and decimal numerals.
//!
//! File contents, marker keys and output records are all handled as bytes;
//! whether a line is text is asked of it once, when it is read.

use vstd::prelude::*;
use vstd::slice::slice_subrange;
use vstd::slice::slice_to_vec;
use vstd::utf8::valid_utf8;

verus! {

/// The line terminator.
pub const NEWLINE: u8 = 10;

/// `key` stands in `line` at offset `at`.
pub open spec fn occurs_at(key: Seq<u8>, line: Seq<u8>, at: int) -> bool {
    0 <= at && at + key.len() <= line.len() && line.subrange(at, at + key.len()) == key
}

/// `key` is a substring of `line`. The empty key is a substring of every line.
pub open spec fn occurs_in(key: Seq<u8>, line: Seq<u8>) -> bool {
    exists|at: int| occurs_at(key, line, at)
}

/// The offset of the first `byte` in `s`, or the length of `s` if it holds none.
pub open spec fn index_of(s: Seq<u8>, byte: u8) -> int
    decreases s.len(),
{
    if s.len() == 0 || s[0] == byte {
        0
    } else {
        1 + index_of(s.skip(1), byte)
    }
}

/// The pieces of `s` between occurrences of `delim`. There is always at least
/// one piece, and a piece may be empty.
pub open spec fn split_on(s: Seq<u8>, delim: u8) -> Seq<Seq<u8>>
    decreases s.len(),
{
    let cut = index_of(s, delim);
    if 0 <= cut < s.len() {
        seq![s.take(cut)] + split_on(s.skip(cut + 1), delim)
    } else {
        seq![s]
    }
}

/// The length of the first line of `content`, its terminator included. The
/// last line of a file may lack the terminator.
pub open spec fn line_len(content: Seq<u8>) -> int {
    let cut = index_of(content, NEWLINE);
    if cut < content.len() {
        cut + 1
    } else {
        content.len() as int
    }
}

/// The lines of `content`, each with its terminator. Empty content has no
/// lines; joined together the lines give the content back.
pub open spec fn lines_of(content: Seq<u8>) -> Seq<Seq<u8>>
    decreases content.len(),
{
    let n = line_len(content);
    if 0 < n <= content.len() {
        seq![content.take(n)] + lines_of(content.skip(n))
    } else {
        Seq::empty()
    }
}

/// The byte strings held by a vector of byte vectors.
pub open spec fn byte_strings(v: Seq<Vec<u8>>) -> Seq<Seq<u8>> {
    Seq::new(v.len(), |i: int| v[i]@)
}

/// `line` without its terminator, if it has one.
pub open spec fn without_newline(line: Seq<u8>) -> Seq<u8> {
    if line.len() > 0 && line.last() == NEWLINE {
        line.drop_last()
    } else {
        line
    }
}

/// The decimal numeral of `n` in ASCII digits, without leading zeros.
pub open spec fn decimal(n: nat) -> Seq<u8>
    decreases n,
{
    if n < 10 {
        seq![(48 + n) as u8]
    } else {
        decimal(n / 10).push((48 + n % 10) as u8)
    }
}

/// `index_of` is where the first `byte` stands: nothing before it is `byte`,
/// and it is either the end or a `byte`.
pub proof fn lemma_index_of(s: Seq<u8>, byte: u8, at: int)
    requires
        0 <= at <= s.len(),
        forall|j: int| 0 <= j < at ==> s[j] != byte,
        at == s.len() || s[at] == byte,
    ensures
        index_of(s, byte) == at,
    decreases s.len(),
{
    if at > 0 {
        lemma_index_of(s.skip(1), byte, at - 1);
    }
}

/// `index_of` lies within the sequence, and no `byte` stands before it.
pub proof fn lemma_index_of_bounds(s: Seq<u8>, byte: u8)
    ensures
        0 <= index_of(s, byte) <= s.len(),
        forall|j: int| 0 <= j < index_of(s, byte) ==> s[j] != byte,
        index_of(s, byte) < s.len() ==> s[index_of(s, byte)] == byte,
    decreases s.len(),
{
    if !(s.len() == 0 || s[0] == byte) {
        lemma_index_of_bounds(s.skip(1), byte);
        assert forall|j: int| 0 <= j < index_of(s, byte) implies s[j] != byte by {
            if j > 0 {
                assert(s.skip(1)[j - 1] == s[j]);
            }
        }
    }
}

/// The lines of a file, joined in order.
pub open spec fn joined(lines: Seq<Seq<u8>>) -> Seq<u8>
    decreases lines.len(),
{
    if lines.len() == 0 {
        Seq::empty()
    } else {
        lines[0] + joined(lines.skip(1))
    }
}

/// The lines of a file cut it up without loss: joined they give the content
/// back. No line is empty; every line but the last ends with the terminator,
/// and no line holds a terminator anywhere else.
pub proof fn lemma_lines_of(content: Seq<u8>)
    ensures
        joined(lines_of(content)) == content,
        forall|k: int|
            0 <= k < lines_of(content).len() ==> {
                let line = #[trigger] lines_of(content)[k];
                &&& line.len() > 0
                &&& forall|j: int| 0 <= j < line.len() - 1 ==> line[j] != NEWLINE
                &&& (k < lines_of(content).len() - 1 ==> line.last() == NEWLINE)
            },
    decreases content.len(),
{
    lemma_index_of_bounds(content, NEWLINE);
    let n = line_len(content);
    if 0 < n <= content.len() {
        let rest = content.skip(n);
        lemma_lines_of(rest);
        let lines = lines_of(content);
        assert(lines.skip(1) =~= lines_of(rest));
        assert(content.take(n) + rest =~= content);
        assert forall|k: int| 0 <= k < lines.len() implies {
            let line = #[trigger] lines[k];
            &&& line.len() > 0
            &&& forall|j: int| 0 <= j < line.len() - 1 ==> line[j] != NEWLINE
            &&& (k < lines.len() - 1 ==> line.last() == NEWLINE)
        } by {
            if k > 0 {
                assert(lines[k] == lines_of(rest)[k - 1]);
            } else if lines.len() > 1 {
                assert(lines_of(rest).len() > 0);
                assert(rest.len() > 0);
            }
        }
    } else {
        assert(content.len() == 0);
    }
}

/// Whether `bytes` is UTF-8 text.
///
/// Trusted: calls `std::str::from_utf8`, which succeeds exactly on
/// well-formed UTF-8, and keeps only whether it succeeded.
#[verifier::external_body]
pub(crate) fn is_utf8(bytes: &[u8]) -> (ok: bool)
    ensures
        ok == valid_utf8(bytes@),
{
    std::str::from_utf8(bytes).is_ok()
}

/// Whether `key` stands in `line` at offset `at`.
fn matches_at(line: &[u8], key: &[u8], at: usize) -> (found: bool)
    requires
        at + key@.len() <= line@.len(),
    ensures
        found == occurs_at(key@, line@, at as int),
{
    let n: usize = line.len();
    let m: usize = key.len();
    let mut k: usize = 0;
    while k < m
        invariant
            n == line@.len(),
            m == key@.len(),
            at + m <= n,
            k <= m,
            forall|j: int| 0 <= j < k ==> line@[at + j] == key@[j],
        decreases m - k,
    {
        if line[at + k] != key[k] {
            proof {
                let sub = line@.subrange(at as int, at + m);
                assert(sub[k as int] == line@[at + k]);
            }
            return false;
        }
        k = k + 1;
    }
    proof {
        assert(line@.subrange(at as int, at + m) =~= key@);
    }
    true
}

/// Whether `key` is a substring of `line`.
pub fn contains(line: &[u8], key: &[u8]) -> (found: bool)
    ensures
        found == occurs_in(key@, line@),
{
    let n: usize = line.len();
    let m: usize = key.len();
    if m > n {
        return false;
    }
    let last: usize = n - m;
    let mut at: usize = 0;
    loop
        invariant
            n == line@.len(),
            m == key@.len(),
            last == n - m,
            at <= last,
            forall|j: int| 0 <= j < at ==> !occurs_at(key@, line@, j),
        decreases last - at,
    {
        if matches_at(line, key, at) {
            return true;
        }
        if at == last {
            return false;
        }
        at = at + 1;
    }
}

/// The offset of the first `byte` in `s` at or after `from`, or the length of
/// `s` if there is none.
pub fn find_byte(s: &[u8], from: usize, byte: u8) -> (at: usize)
    requires
        from <= s@.len(),
    ensures
        at == from + index_of(s@.skip(from as int), byte),
        from <= at <= s@.len(),
{
    let n: usize = s.len();
    let mut at: usize = from;
    while at < n && s[at] != byte
        invariant
            n == s@.len(),
            from <= at <= n,
            forall|j: int| from <= j < at ==> s@[j] != byte,
        decreases n - at,
    {
        at = at + 1;
    }
    proof {
        lemma_index_of(s@.skip(from as int), byte, at - from);
    }
    at
}

/// Splits `s` at every `delim`.
pub fn split(s: &[u8], delim: u8) -> (pieces: Vec<Vec<u8>>)
    ensures
        byte_strings(pieces@) == split_on(s@, delim),
{
    let n: usize = s.len();
    let mut pieces: Vec<Vec<u8>> = Vec::new();
    let mut from: usize = 0;
    proof {
        assert(s@.skip(0) =~= s@);
        assert(byte_strings(pieces@) + split_on(s@, delim) =~= split_on(s@, delim));
    }
    loop
        invariant
            n == s@.len(),
            from <= n,
            split_on(s@, delim) == byte_strings(pieces@) + split_on(s@.skip(from as int), delim),
        decreases n - from,
    {
        let cut: usize = find_byte(s, from, delim);
        let piece = slice_to_vec(slice_subrange(s, from, cut));
        let ghost rest = s@.skip(from as int);
        let ghost before = byte_strings(pieces@);
        pieces.push(piece);
        proof {
            assert(piece@ =~= rest.take(cut - from));
            assert(byte_strings(pieces@) =~= before.push(piece@));
        }
        if cut >= n {
            proof {
                assert(piece@ =~= rest);
                assert(split_on(rest, delim) =~= seq![rest]);
            }
            return pieces;
        }
        proof {
            assert(rest.skip(cut - from + 1) =~= s@.skip(cut + 1));
            assert(before + (seq![piece@] + split_on(s@.skip(cut + 1), delim))
                =~= before.push(piece@) + split_on(s@.skip(cut + 1), delim));
        }
        from = cut + 1;
    }
}

/// The decimal numeral of `n`.
pub fn decimal_digits(n: usize) -> (digits: Vec<u8>)
    ensures
        digits@ == decimal(n as nat),
    decreases n,
{
    if n < 10 {
        let mut digits: Vec<u8> = Vec::new();
        digits.push(48 + n as u8);
        proof {
            assert(digits@ =~= seq![(48 + n) as u8]);
        }
        digits
    } else {
        let mut digits = decimal_digits(n / 10);
        digits.push(48 + (n % 10) as u8);
        digits
    }
}

} // verus!
