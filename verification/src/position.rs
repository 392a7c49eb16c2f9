//! Position mapping: converts character offsets into the document text into
//! zero-based line/column pairs, and offset spans into position ranges.

use vstd::prelude::*;

verus! {

/// A zero-based (line, column) pair, both counted in characters.
#[derive(Clone, Copy, PartialEq, Eq, Structural, Debug)]
pub struct Position {
    pub line: usize,
    pub column: usize,
}

/// A half-open pair of character offsets into the document text, as reported
/// by the parser for each syntax node.
#[derive(Clone, Copy, PartialEq, Eq, Structural, Debug)]
pub struct Span {
    pub lo: usize,
    pub hi: usize,
}

/// A pair of positions: the editor-facing counterpart of a `Span`.
#[derive(Clone, Copy, PartialEq, Eq, Structural, Debug)]
pub struct Range {
    pub start: Position,
    pub end: Position,
}

/// Mathematical model of a `Position`.
pub struct PosView {
    pub line: nat,
    pub column: nat,
}

/// Mathematical model of a `Range`.
pub struct RangeView {
    pub start: PosView,
    pub end: PosView,
}

impl View for Position {
    type V = PosView;

    open spec fn view(&self) -> PosView {
        PosView { line: self.line as nat, column: self.column as nat }
    }
}

impl View for Range {
    type V = RangeView;

    open spec fn view(&self) -> RangeView {
        RangeView { start: self.start@, end: self.end@ }
    }
}

/// Number of newline characters in `s`.
pub open spec fn line_count(s: Seq<char>) -> nat
    decreases s.len(),
{
    if s.len() == 0 {
        0
    } else {
        line_count(s.drop_last()) + (if s.last() == '\n' {
            1nat
        } else {
            0nat
        })
    }
}

/// Number of characters of `s` after its last newline (all of `s` if it has
/// none).
pub open spec fn column_count(s: Seq<char>) -> nat
    decreases s.len(),
{
    if s.len() == 0 {
        0
    } else if s.last() == '\n' {
        0
    } else {
        column_count(s.drop_last()) + 1
    }
}

/// The prefix of `text` that precedes `offset`; an offset past the end of the
/// text takes the whole text.
pub open spec fn prefix_to(text: Seq<char>, offset: int) -> Seq<char> {
    if 0 <= offset <= text.len() {
        text.take(offset)
    } else {
        text
    }
}

/// The position of `offset` in `text`: its line is the number of newlines
/// before it, its column the number of characters since the last newline
/// before it.
pub open spec fn position_at(text: Seq<char>, offset: int) -> PosView {
    PosView {
        line: line_count(prefix_to(text, offset)),
        column: column_count(prefix_to(text, offset)),
    }
}

/// The range that maps both endpoints of `span` through `position_at`.
pub open spec fn range_at(text: Seq<char>, span: Span) -> RangeView {
    RangeView {
        start: position_at(text, span.lo as int),
        end: position_at(text, span.hi as int),
    }
}

/// Position-mapping law, the line half: the line of an offset is exactly the
/// number of newline characters in the text before it.
pub proof fn lemma_line_count_is_newline_count(s: Seq<char>)
    ensures
        line_count(s) == s.to_multiset().count('\n'),
    decreases s.len(),
{
    if s.len() == 0 {
        s.to_multiset_ensures();
        assert(!s.contains('\n'));
        assert(s.to_multiset().count('\n') == 0);
    } else {
        let t = s.drop_last();
        lemma_line_count_is_newline_count(t);
        t.to_multiset_ensures();
        assert(t.push(s.last()) =~= s);
        assert(s.to_multiset() =~= t.to_multiset().insert(s.last()));
    }
}

/// Position-mapping law, the column half: when the text before an offset
/// holds no newline, the column is the whole length of that prefix; when it
/// does, the column counts the characters after the last newline.
pub proof fn lemma_column_since_last_newline(s: Seq<char>)
    ensures
        (forall|j: int| 0 <= j < s.len() ==> s[j] != '\n') ==> column_count(s) == s.len(),
        forall|j: int|
            (0 <= j < s.len() && #[trigger] s[j] == '\n' && (forall|k: int|
                j < k < s.len() ==> s[k] != '\n')) ==> column_count(s) == s.len() - j - 1,
    decreases s.len(),
{
    if s.len() == 0 {
    } else {
        let t = s.drop_last();
        lemma_column_since_last_newline(t);
        if s.last() == '\n' {
            assert forall|j: int|
                (0 <= j < s.len() && #[trigger] s[j] == '\n' && (forall|k: int|
                    j < k < s.len() ==> s[k] != '\n')) implies column_count(s) == s.len() - j
                - 1 by {
                if j < s.len() - 1 {
                    assert(s[s.len() - 1] == '\n');
                }
            }
        } else {
            assert forall|j: int|
                (0 <= j < s.len() && #[trigger] s[j] == '\n' && (forall|k: int|
                    j < k < s.len() ==> s[k] != '\n')) implies column_count(s) == s.len() - j
                - 1 by {
                assert(j < s.len() - 1);
                assert(t[j] == '\n');
                assert(forall|k: int| j < k < t.len() ==> t[k] == s[k] && s[k] != '\n');
            }
        }
    }
}

/// A prefix of the text holds no more newlines than the whole text.
pub proof fn lemma_line_count_prefix_le(s: Seq<char>, k: int)
    requires
        0 <= k <= s.len(),
    ensures
        line_count(s.take(k)) <= line_count(s),
    decreases s.len(),
{
    if k == s.len() {
        assert(s.take(k) =~= s);
    } else {
        assert(s.drop_last().take(k) =~= s.take(k));
        lemma_line_count_prefix_le(s.drop_last(), k);
    }
}

/// A column never exceeds the length of the prefix it was counted in.
pub proof fn lemma_column_count_le_len(s: Seq<char>)
    ensures
        column_count(s) <= s.len(),
    decreases s.len(),
{
    if s.len() > 0 {
        lemma_column_count_le_len(s.drop_last());
    }
}

/// Every mapped range falls within the bounds of the document text: no line
/// beyond the text's newline count, no column beyond its length. This holds
/// for any offsets, because mapping clamps them to the end of the text.
pub proof fn lemma_range_in_bounds(text: Seq<char>, span: Span)
    ensures
        range_at(text, span).start.line <= line_count(text),
        range_at(text, span).start.column <= text.len(),
        range_at(text, span).end.line <= line_count(text),
        range_at(text, span).end.column <= text.len(),
{
    lemma_position_in_bounds(text, span.lo as int);
    lemma_position_in_bounds(text, span.hi as int);
}

/// Every mapped position falls within the bounds of the document text.
pub proof fn lemma_position_in_bounds(text: Seq<char>, offset: int)
    ensures
        position_at(text, offset).line <= line_count(text),
        position_at(text, offset).column <= text.len(),
{
    let p = prefix_to(text, offset);
    if 0 <= offset <= text.len() {
        lemma_line_count_prefix_le(text, offset);
    } else {
        assert(p =~= text);
    }
    lemma_column_count_le_len(p);
}

/// Scans `text` up to `i` (clamped to the text length), counting newlines for
/// the line and characters since the last newline for the column.
pub fn char_to_position(text: &Vec<char>, i: usize) -> (p: Position)
    ensures
        p@ == position_at(text@, i as int),
{
    let end: usize = if i <= text.len() {
        i
    } else {
        text.len()
    };
    let mut line: usize = 0;
    let mut column: usize = 0;
    let mut idx: usize = 0;
    while idx < end
        invariant
            idx <= end <= text.len(),
            line <= idx,
            column <= idx,
            line == line_count(text@.take(idx as int)),
            column == column_count(text@.take(idx as int)),
        decreases end - idx,
    {
        proof {
            assert(text@.take(idx as int + 1).drop_last() =~= text@.take(idx as int));
            assert(text@.take(idx as int + 1).last() == text@[idx as int]);
        }
        if text[idx] == '\n' {
            line = line + 1;
            column = 0;
        } else {
            column = column + 1;
        }
        idx = idx + 1;
    }
    proof {
        assert(text@.take(end as int) =~= prefix_to(text@, i as int));
    }
    Position { line, column }
}

/// Maps both endpoints of `span` against `text`.
pub fn span_to_range(text: &Vec<char>, span: &Span) -> (r: Range)
    ensures
        r@ == range_at(text@, *span),
{
    Range { start: char_to_position(text, span.lo), end: char_to_position(text, span.hi) }
}

/// The document text as a vector of characters, so that character offsets
/// index it directly.
pub fn chars_of(s: &str) -> (r: Vec<char>)
    ensures
        r@ == s@,
{
    let mut r: Vec<char> = Vec::new();
    for c in it: s.chars()
        invariant
            it.seq() == s@,
            r@ == it.seq().take(it.index() as int),
    {
        r.push(c);
    }
    proof {
        assert(r@ =~= s@);
    }
    r
}

} // verus!
