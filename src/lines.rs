use vstd::prelude::*;

verus! {

/// The byte that ends a line.
pub const NEWLINE: u8 = 10;

/// Whether `c` ends in the line delimiter.
pub open spec fn ends_line(c: Seq<u8>) -> bool {
    c.len() > 0 && c.last() == NEWLINE
}

/// A chunk as a line reader hands it over: if it holds a delimiter, that
/// delimiter is its last byte.
pub open spec fn well_formed_chunk(c: Seq<u8>) -> bool {
    forall|i: int| 0 <= i < c.len() - 1 ==> c[i] != NEWLINE
}

/// Whether `c` holds no delimiter at all.
pub open spec fn no_delimiter(c: Seq<u8>) -> bool {
    forall|i: int| 0 <= i < c.len() ==> c[i] != NEWLINE
}

/// Splits `s` into its complete lines, delimiters removed, and the partial
/// line that follows the last delimiter.
pub open spec fn split_lines(s: Seq<u8>) -> (Seq<Seq<u8>>, Seq<u8>)
    decreases s.len(),
{
    if s.len() == 0 {
        (seq![], seq![])
    } else {
        let (lines, rest) = split_lines(s.drop_last());
        if s.last() == NEWLINE {
            (lines.push(rest), seq![])
        } else {
            (lines, rest.push(s.last()))
        }
    }
}

/// The complete lines of `s`, in order, without their delimiters.
pub open spec fn complete_lines(s: Seq<u8>) -> Seq<Seq<u8>> {
    split_lines(s).0
}

/// The bytes of `s` after its last delimiter.
pub open spec fn partial_line(s: Seq<u8>) -> Seq<u8> {
    split_lines(s).1
}

/// Bytes without a delimiter only extend the partial line.
pub proof fn lemma_split_no_delimiter(s: Seq<u8>, c: Seq<u8>)
    requires
        no_delimiter(c),
    ensures
        complete_lines(s + c) == complete_lines(s),
        partial_line(s + c) == partial_line(s) + c,
    decreases c.len(),
{
    if c.len() == 0 {
        assert(s + c =~= s);
        assert(partial_line(s) + c =~= partial_line(s));
    } else {
        let d = c.drop_last();
        lemma_split_no_delimiter(s, d);
        assert((s + c).drop_last() =~= s + d);
        assert((s + c).last() == c.last());
        assert(c.last() != NEWLINE);
        assert(partial_line(s) + c =~= (partial_line(s) + d).push(c.last()));
    }
}

/// What reading one well-formed chunk does to the lines of the content read.
pub proof fn lemma_split_chunk(s: Seq<u8>, c: Seq<u8>)
    requires
        well_formed_chunk(c),
    ensures
        ends_line(c) ==> complete_lines(s + c) == complete_lines(s).push(
            partial_line(s) + c.drop_last(),
        ) && partial_line(s + c) == Seq::<u8>::empty(),
        !ends_line(c) ==> complete_lines(s + c) == complete_lines(s) && partial_line(s + c)
            == partial_line(s) + c,
{
    if ends_line(c) {
        let d = c.drop_last();
        assert(no_delimiter(d));
        lemma_split_no_delimiter(s, d);
        assert((s + c).drop_last() =~= s + d);
        assert((s + c).last() == NEWLINE);
    } else {
        if c.len() > 0 {
            assert(c[c.len() - 1] != NEWLINE);
        }
        assert(no_delimiter(c));
        lemma_split_no_delimiter(s, c);
    }
}

/// The text that `String::from_utf8` makes of the bytes `b`, or `None` where
/// they are not valid UTF-8.
pub uninterp spec fn utf8_text(b: Seq<u8>) -> Option<Seq<char>>;

/// Relies on `String::from_utf8`: it returns the text when `b` is valid UTF-8
/// and an error otherwise, and the outcome depends on the bytes alone.
#[verifier::external_body]
pub(crate) fn decode_utf8(b: Vec<u8>) -> (r: Option<String>)
    ensures
        r matches Some(t) ==> utf8_text(b@) == Some(t@),
        r is None ==> utf8_text(b@) is None,
{
    String::from_utf8(b).ok()
}

} // verus!
