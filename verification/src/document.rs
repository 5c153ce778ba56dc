//! The document model: an ordered sequence of lines, each an ordered
//! sequence of codepoints with no embedded line break, split from and
//! joined back into flat text.

use vstd::prelude::*;

verus! {

/// Glyph the view layer shows in place of an empty line so the cursor has
/// something visible to sit on. It is never part of stored content; the
/// save path defensively strips it (see [`crate::session::Session::save_text`]).
pub const PLACEHOLDER: char = '\u{2B1E}';

/// The segments of `s` delimited by `'\n'`: every `'\n'` ends a segment,
/// and the (possibly empty) run after the last `'\n'` is a segment too, so
/// there is always at least one segment.
pub open spec fn segments(s: Seq<char>) -> Seq<Seq<char>>
    decreases s.len(),
{
    if s.len() == 0 {
        seq![Seq::<char>::empty()]
    } else if s[0] == '\n' {
        seq![Seq::<char>::empty()] + segments(s.drop_first())
    } else {
        let rest = segments(s.drop_first());
        seq![seq![s[0]] + rest[0]] + rest.drop_first()
    }
}

/// Flat text of a document: every line, including the last, is followed by
/// exactly one line-break character.
pub open spec fn join_lines(lines: Seq<Seq<char>>) -> Seq<char>
    decreases lines.len(),
{
    if lines.len() == 0 {
        Seq::<char>::empty()
    } else {
        lines.first() + seq!['\n'] + join_lines(lines.drop_first())
    }
}

pub open spec fn ends_with_newline(s: Seq<char>) -> bool {
    s.len() > 0 && s.last() == '\n'
}

/// The lines read from flat text: each `'\n'` ends a line, a nonempty
/// trailing run is a final line of its own, and empty text is one empty
/// line. A final line break therefore leaves no phantom empty line behind,
/// which is what lets line-break-terminated text round-trip byte for byte.
pub open spec fn parse_lines(s: Seq<char>) -> Seq<Seq<char>> {
    if ends_with_newline(s) {
        segments(s).drop_last()
    } else {
        segments(s)
    }
}

pub proof fn lemma_segments_len(s: Seq<char>)
    ensures
        segments(s).len() >= 1,
    decreases s.len(),
{
    if s.len() > 0 {
        lemma_segments_len(s.drop_first());
    }
}

/// Appending one character extends the final segment, or, for a line
/// break, seals it and opens a fresh empty one.
pub proof fn lemma_segments_push(t: Seq<char>, c: char)
    ensures
        c == '\n' ==> segments(t.push(c)) == segments(t).push(Seq::<char>::empty()),
        c != '\n' ==> segments(t.push(c)) == segments(t).update(
            segments(t).len() - 1,
            segments(t).last().push(c),
        ),
    decreases t.len(),
{
    lemma_segments_len(t);
    if t.len() == 0 {
        assert(t.push(c).drop_first() =~= t);
        if c == '\n' {
            assert(segments(t.push(c)) =~~= segments(t).push(Seq::<char>::empty()));
        } else {
            assert(seq![t.push(c)[0]] + segments(t)[0] =~= seq![c]);
            assert(segments(t.push(c)) =~~= segments(t).update(0, segments(t).last().push(c)));
        }
    } else {
        let u = t.drop_first();
        lemma_segments_len(u);
        lemma_segments_push(u, c);
        assert(t.push(c).drop_first() =~= u.push(c));
        assert(t.push(c)[0] == t[0]);
        if t[0] == '\n' {
            if c == '\n' {
                assert(segments(t.push(c)) =~~= segments(t).push(Seq::<char>::empty()));
            } else {
                assert(segments(u).len() >= 1);
                assert(segments(t).last() == segments(u).last());
                assert(segments(t.push(c)) =~~= segments(t).update(
                    segments(t).len() - 1,
                    segments(t).last().push(c),
                ));
            }
        } else {
            let rest = segments(u);
            let rest2 = segments(u.push(c));
            if c == '\n' {
                assert(rest2 == rest.push(Seq::<char>::empty()));
                assert(rest2[0] == rest[0]);
                assert(rest2.drop_first() =~~= rest.drop_first().push(Seq::<char>::empty()));
                assert(segments(t.push(c)) =~~= segments(t).push(Seq::<char>::empty()));
            } else {
                assert(rest2 == rest.update(rest.len() - 1, rest.last().push(c)));
                if rest.len() == 1 {
                    assert(rest2[0] == rest[0].push(c));
                    assert(segments(t) =~~= seq![seq![t[0]] + rest[0]]);
                    assert(seq![t[0]] + rest[0].push(c) =~= (seq![t[0]] + rest[0]).push(c));
                    assert(segments(t.push(c)) =~~= segments(t).update(
                        segments(t).len() - 1,
                        segments(t).last().push(c),
                    ));
                } else {
                    assert(rest2[0] == rest[0]);
                    assert(rest2.drop_first() =~~= rest.drop_first().update(
                        rest.drop_first().len() - 1,
                        rest.drop_first().last().push(c),
                    ));
                    assert(segments(t).last() == rest.last());
                    assert(segments(t.push(c)) =~~= segments(t).update(
                        segments(t).len() - 1,
                        segments(t).last().push(c),
                    ));
                }
            }
        }
    }
}

/// Joining the segments of `s` reproduces `s` with one extra final line break.
pub proof fn lemma_join_segments(s: Seq<char>)
    ensures
        join_lines(segments(s)) == s.push('\n'),
    decreases s.len(),
{
    lemma_segments_len(s);
    if s.len() == 0 {
        let one = segments(s);
        assert(one.len() == 1);
        let tail = one.drop_first();
        assert(tail =~~= Seq::<Seq<char>>::empty());
        assert(tail.len() == 0);
        assert(join_lines(tail) == Seq::<char>::empty());
        assert(join_lines(one) == one.first() + seq!['\n'] + join_lines(tail));
        assert(one.first() =~= Seq::<char>::empty());
        assert(join_lines(one) =~= s.push('\n'));
    } else {
        let r = s.drop_first();
        lemma_segments_len(r);
        lemma_join_segments(r);
        if s[0] == '\n' {
            assert(s =~= seq!['\n'] + r);
            assert(segments(s).first() =~= Seq::<char>::empty());
            assert(segments(s).drop_first() =~~= segments(r));
            assert(join_lines(segments(s)) == Seq::<char>::empty() + seq!['\n'] + r.push('\n'));
            assert(join_lines(segments(s)) =~= s.push('\n'));
        } else {
            let rest = segments(r);
            assert(s =~= seq![s[0]] + r);
            assert(segments(s).first() == seq![s[0]] + rest[0]);
            assert(segments(s).drop_first() =~~= rest.drop_first());
            // join of `rest` unfolds to its first line, a break, and the rest
            assert(join_lines(rest) == rest.first() + seq!['\n'] + join_lines(rest.drop_first()));
            assert(join_lines(segments(s)) == (seq![s[0]] + rest[0]) + seq!['\n'] + join_lines(
                rest.drop_first(),
            ));
            assert(join_lines(segments(s)) =~= seq![s[0]] + join_lines(rest));
            assert(seq![s[0]] + r.push('\n') =~= s.push('\n'));
        }
    }
}

/// The final segment is empty exactly when the text ends in a line break.
pub proof fn lemma_segments_last(s: Seq<char>)
    requires
        s.len() > 0,
    ensures
        s.last() == '\n' ==> segments(s) == segments(s.drop_last()).push(Seq::<char>::empty()),
        s.last() != '\n' ==> segments(s).last().len() > 0,
{
    let t = s.drop_last();
    lemma_segments_len(t);
    lemma_segments_push(t, s.last());
    assert(t.push(s.last()) =~= s);
    if s.last() != '\n' {
        assert(segments(s).last() == segments(t).last().push(s.last()));
    }
}

/// Round-trip law for flat text: parsing yields at least one line, and
/// re-joining gives the text back unchanged when it already ended in a
/// line break, and with exactly one line break appended when it did not.
pub proof fn lemma_parse_join_round_trip(s: Seq<char>)
    ensures
        parse_lines(s).len() >= 1,
        ends_with_newline(s) ==> join_lines(parse_lines(s)) == s,
        !ends_with_newline(s) ==> join_lines(parse_lines(s)) == s.push('\n'),
{
    lemma_segments_len(s);
    if ends_with_newline(s) {
        let t = s.drop_last();
        lemma_segments_len(t);
        lemma_segments_last(s);
        assert(segments(s).drop_last() =~~= segments(t));
        lemma_join_segments(t);
        assert(t.push('\n') =~= s);
    } else {
        lemma_join_segments(s);
    }
}

/// No segment contains a character that the text itself does not contain,
/// and none contains a line break.
pub proof fn lemma_segments_exclude(s: Seq<char>, c: char)
    requires
        c == '\n' || !s.contains(c),
    ensures
        forall|i: int| 0 <= i < segments(s).len() ==> !(#[trigger] segments(s)[i]).contains(c),
    decreases s.len(),
{
    lemma_segments_len(s);
    if s.len() == 0 {
        assert forall|i: int| 0 <= i < segments(s).len() implies !(#[trigger] segments(s)[i]).contains(
            c,
        ) by {
            assert(segments(s)[i] =~= Seq::<char>::empty());
        }
    } else {
        let r = s.drop_first();
        assert(c != '\n' ==> !r.contains(c)) by {
            if c != '\n' && r.contains(c) {
                let k = choose|k: int| 0 <= k < r.len() && r[k] == c;
                assert(s[k + 1] == c);
            }
        }
        lemma_segments_exclude(r, c);
        let rest = segments(r);
        if s[0] == '\n' {
            assert forall|i: int| 0 <= i < segments(s).len() implies !(
            #[trigger] segments(s)[i]).contains(c) by {
                if i > 0 {
                    assert(segments(s)[i] == rest[i - 1]);
                }
            }
        } else {
            assert(s[0] != c);
            assert forall|i: int| 0 <= i < segments(s).len() implies !(
            #[trigger] segments(s)[i]).contains(c) by {
                if i == 0 {
                    let head = seq![s[0]] + rest[0];
                    assert(!rest[0].contains(c));
                    if head.contains(c) {
                        let k = choose|k: int| 0 <= k < head.len() && head[k] == c;
                        if k > 0 {
                            assert(rest[0][k - 1] == c);
                        }
                    }
                } else {
                    assert(segments(s)[i] == rest.drop_first()[i - 1]);
                    assert(rest.drop_first()[i - 1] == rest[i]);
                }
            }
        }
    }
}

/// Parsed lines hold no embedded line break.
pub proof fn lemma_parse_lines_no_newline(s: Seq<char>)
    ensures
        forall|i: int|
            0 <= i < parse_lines(s).len() ==> !(#[trigger] parse_lines(s)[i]).contains('\n'),
{
    lemma_segments_exclude(s, '\n');
    assert forall|i: int|
        0 <= i < parse_lines(s).len() implies !(#[trigger] parse_lines(s)[i]).contains('\n') by {
        assert(parse_lines(s)[i] == segments(s)[i]);
    }
}

/// Relies on `String::from_iter` (through `collect`): the string holds
/// exactly the characters of the vector, in order.
#[verifier::external_body]
pub(crate) fn chars_to_string(v: Vec<char>) -> (result: String)
    ensures
        result@ == v@,
{
    v.into_iter().collect()
}

/// Splits flat text into lines at every line break; the trailing run after
/// the last break forms a final line when it is nonempty, and empty input
/// gives one empty line.
#[allow(non_snake_case)]
pub fn strToArray(input: &str) -> (result: Vec<Vec<char>>)
    ensures
        result.deep_view() == parse_lines(input@),
        result.deep_view().len() >= 1,
{
    let n = input.unicode_len();
    let mut result: Vec<Vec<char>> = Vec::new();
    let mut temp: Vec<char> = Vec::new();
    let mut i: usize = 0;
    while i < n
        invariant
            n == input@.len(),
            i <= n,
            result.deep_view().push(temp@) == segments(input@.take(i as int)),
        decreases n - i,
    {
        let ghost prefix = input@.take(i as int);
        let c = input.get_char(i);
        proof {
            assert(prefix.push(c) =~= input@.take(i + 1 as int));
            lemma_segments_push(prefix, c);
            lemma_segments_len(prefix);
        }
        if c == '\n' {
            let ghost old_result = result.deep_view();
            let ghost old_temp = temp@;
            result.push(temp);
            temp = Vec::new();
            proof {
                assert(result.deep_view() =~~= old_result.push(old_temp));
                assert(result.deep_view().push(temp@) =~~= segments(input@.take(i + 1 as int)));
            }
        } else {
            let ghost old_temp = temp@;
            temp.push(c);
            proof {
                let segs = segments(prefix);
                assert(segs.last() == old_temp);
                assert(result.deep_view().push(temp@) =~~= segs.update(
                    segs.len() - 1,
                    segs.last().push(c),
                ));
            }
        }
        i += 1;
    }
    proof {
        assert(input@.take(n as int) =~= input@);
        lemma_segments_len(input@);
    }
    if temp.len() > 0 || result.len() == 0 {
        // the text did not end in a line break (or was empty): the trailing
        // run is a line of its own
        proof {
            if ends_with_newline(input@) {
                lemma_segments_last(input@);
                lemma_segments_len(input@.drop_last());
                assert(segments(input@).last() == temp@);
                assert(segments(input@).len() == result.deep_view().len() + 1);
            }
            assert(!ends_with_newline(input@));
        }
        let ghost old_result = result.deep_view();
        let ghost old_temp = temp@;
        result.push(temp);
        proof {
            assert(result.deep_view() =~~= old_result.push(old_temp));
        }
    } else {
        // the text ended in a line break: every line is already sealed
        proof {
            assert(segments(input@).last() == temp@);
            if input@.len() == 0 {
                assert(segments(input@).len() == 1);
            }
            assert(input@.len() > 0);
            if input@.last() != '\n' {
                lemma_segments_last(input@);
            }
            assert(ends_with_newline(input@));
            lemma_segments_last(input@);
            assert(result.deep_view() =~~= segments(input@).drop_last());
        }
    }
    result
}

/// Appending one more line to a join appends that line and a line break.
pub proof fn lemma_join_push(lines: Seq<Seq<char>>, l: Seq<char>)
    ensures
        join_lines(lines.push(l)) == join_lines(lines) + l + seq!['\n'],
    decreases lines.len(),
{
    if lines.len() == 0 {
        let one = lines.push(l);
        let tail = one.drop_first();
        assert(tail =~~= Seq::<Seq<char>>::empty());
        assert(tail.len() == 0);
        assert(join_lines(tail) == Seq::<char>::empty());
        assert(join_lines(one) == one.first() + seq!['\n'] + join_lines(tail));
        assert(one.first() == l);
        assert(join_lines(lines) == Seq::<char>::empty());
        assert(join_lines(one) =~= join_lines(lines) + l + seq!['\n']);
    } else {
        lemma_join_push(lines.drop_first(), l);
        assert(lines.push(l).drop_first() =~~= lines.drop_first().push(l));
        assert(lines.push(l).first() == lines.first());
        assert(join_lines(lines.push(l)) =~= join_lines(lines) + l + seq!['\n']);
    }
}

/// Joins lines into flat text, placing a line break after every line,
/// including the last.
#[allow(non_snake_case)]
pub fn arrayToStr(input: Vec<Vec<char>>) -> (result: String)
    ensures
        result@ == join_lines(input.deep_view()),
{
    let doc = Document { lines: input };
    doc.serialize()
}

/// The document being edited: at least one line, none of which embeds a
/// line break.
pub struct Document {
    pub lines: Vec<Vec<char>>,
}

impl View for Document {
    type V = Seq<Seq<char>>;

    open spec fn view(&self) -> Seq<Seq<char>> {
        self.lines.deep_view()
    }
}

impl Document {
    pub open spec fn wf(&self) -> bool {
        &&& self@.len() >= 1
        &&& forall|i: int| 0 <= i < self@.len() ==> !(#[trigger] self@[i]).contains('\n')
    }

    /// Builds the document for loaded (or empty) flat text.
    pub fn parse(text: &str) -> (doc: Document)
        ensures
            doc@ == parse_lines(text@),
            doc.wf(),
    {
        let lines = strToArray(text);
        proof {
            lemma_parse_lines_no_newline(text@);
        }
        Document { lines }
    }

    /// Flattens the document back into the text that saving writes out:
    /// every line followed by one line break.
    pub fn serialize(&self) -> (result: String)
        ensures
            result@ == join_lines(self@),
    {
        let mut out: Vec<char> = Vec::new();
        let mut i: usize = 0;
        while i < self.lines.len()
            invariant
                i <= self.lines.len(),
                out@ == join_lines(self@.take(i as int)),
            decreases self.lines.len() - i,
        {
            let ghost out0 = out@;
            let line = &self.lines[i];
            let mut j: usize = 0;
            while j < line.len()
                invariant
                    j <= line.len(),
                    out@ == out0 + line@.take(j as int),
                decreases line.len() - j,
            {
                out.push(line[j]);
                proof {
                    assert(out@ =~= out0 + line@.take(j + 1 as int));
                }
                j += 1;
            }
            out.push('\n');
            proof {
                let dv = self@;
                lemma_join_push(dv.take(i as int), dv[i as int]);
                assert(dv.take(i + 1 as int) =~~= dv.take(i as int).push(dv[i as int]));
                assert(line@.take(line@.len() as int) =~= line@);
                assert(dv[i as int] =~= line@);
                assert(out@ =~= join_lines(dv.take(i as int)) + dv[i as int] + seq!['\n']);
            }
            i += 1;
        }
        proof {
            assert(self@.take(self.lines@.len() as int) =~~= self@);
        }
        chars_to_string(out)
    }

    pub fn line_count(&self) -> (n: usize)
        ensures
            n == self@.len(),
    {
        self.lines.len()
    }

    pub fn line_length(&self, i: usize) -> (n: usize)
        requires
            i < self@.len(),
        ensures
            n == self@[i as int].len(),
    {
        self.lines[i].len()
    }

    pub fn char_at(&self, line: usize, col: usize) -> (c: char)
        requires
            line < self@.len(),
            col < self@[line as int].len(),
        ensures
            c == self@[line as int][col as int],
    {
        self.lines[line][col]
    }
}

} // verus!
