//! The one-line description of the source tree that goes with a benchmark result.
use vstd::prelude::*;
use vstd::string::{StrSliceExecFns, StringExecFns};
use vstd::utf8::{decode_utf8, valid_utf8};

verus! {

/// The text that [`String::from_utf8_lossy`] makes of bytes.
pub uninterp spec fn utf8_lossy(bytes: Seq<u8>) -> Seq<char>;

/// Whether a character has the Unicode property `White_Space`.
pub open spec fn is_white(c: char) -> bool {
    ||| '\u{9}' <= c <= '\u{d}'
    ||| c == ' '
    ||| c == '\u{85}'
    ||| c == '\u{a0}'
    ||| c == '\u{1680}'
    ||| '\u{2000}' <= c <= '\u{200a}'
    ||| c == '\u{2028}'
    ||| c == '\u{2029}'
    ||| c == '\u{202f}'
    ||| c == '\u{205f}'
    ||| c == '\u{3000}'
}

/// Decodes bytes with [`String::from_utf8_lossy`]: valid UTF-8 is decoded as it is; what stands for
/// the rest is not stated further.
#[verifier::external_body]
fn decode_lossy(bytes: &[u8]) -> (text: String)
    ensures
        text@ == utf8_lossy(bytes@),
        valid_utf8(bytes@) ==> text@ == decode_utf8(bytes@),
{
    String::from_utf8_lossy(bytes).into_owned()
}

/// [`char::is_whitespace`]: whether a character has the Unicode property `White_Space`.
pub assume_specification[ char::is_whitespace ](c: char) -> (white: bool)
    ensures
        white == is_white(c),
;

/// A text without the white space at its end.
pub open spec fn trimmed_end(s: Seq<char>) -> Seq<char>
    decreases s.len(),
{
    if s.len() > 0 && is_white(s.last()) {
        trimmed_end(s.drop_last())
    } else {
        s
    }
}

/// A text with a semicolon and a space in place of each line feed.
pub open spec fn joined_lines(s: Seq<char>) -> Seq<char>
    decreases s.len(),
{
    if s.len() == 0 {
        s
    } else if s.last() == '\n' {
        joined_lines(s.drop_last()) + seq![';', ' ']
    } else {
        joined_lines(s.drop_last()).push(s.last())
    }
}

/// Where the text without the white space at its end ends.
fn end_of_text(text: &str) -> (end: usize)
    ensures
        end <= text@.len(),
        text@.take(end as int) == trimmed_end(text@),
{
    let mut end: usize = text.unicode_len();
    assert(text@.take(end as int) =~= text@);
    while end > 0 && text.get_char(end - 1).is_whitespace()
        invariant
            end <= text@.len(),
            trimmed_end(text@.take(end as int)) == trimmed_end(text@),
        ensures
            end == 0 || !is_white(text@[end - 1]),
        decreases end,
    {
        assert(text@.take(end as int).drop_last() =~= text@.take(end - 1));
        end -= 1;
    }
    end
}

/// Puts a text on one line: white space at its end is dropped, and the remaining lines are joined
/// with semicolons.
pub fn on_one_line(text: &str) -> (line: String)
    ensures
        line@ == joined_lines(trimmed_end(text@)),
{
    let end = end_of_text(text);
    let ghost body = trimmed_end(text@);
    let mut line = String::new();
    let mut i: usize = 0;
    while i < end
        invariant
            i <= end <= text@.len(),
            body == text@.take(end as int),
            line@ == joined_lines(body.take(i as int)),
        decreases end - i,
    {
        let c = text.get_char(i);
        assert(body.take(i + 1).drop_last() =~= body.take(i as int));
        if c == '\n' {
            line.append("; ");
            proof {
                reveal_strlit("; ");
                assert("; "@ =~= seq![';', ' ']);
            }
        } else {
            let rest = text.substring_char(i, i + 1);
            line.append(rest);
            assert(rest@ =~= seq![c]);
            assert(line@ =~= joined_lines(body.take(i as int)).push(c));
        }
        i += 1;
    }
    assert(body.take(i as int) =~= body);
    line
}

/// The description of the source tree, from what the version control program printed.
pub fn git_info(stdout: &[u8]) -> (info: String)
    ensures
        info@ == joined_lines(trimmed_end(utf8_lossy(stdout@))),
        valid_utf8(stdout@) ==> info@ == joined_lines(trimmed_end(decode_utf8(stdout@))),
{
    let text = decode_lossy(stdout);
    on_one_line(text.as_str())
}

/// The description has no line feed in it.
pub proof fn law_joined_lines_are_one_line(s: Seq<char>)
    ensures
        !joined_lines(s).contains('\n'),
    decreases s.len(),
{
    if s.len() > 0 {
        law_joined_lines_are_one_line(s.drop_last());
        let front = joined_lines(s.drop_last());
        assert forall|i: int| 0 <= i < joined_lines(s).len() implies joined_lines(s)[i] != '\n' by {
            if i < front.len() {
                assert(joined_lines(s)[i] == front[i]);
                assert(front.contains(front[i]));
            }
        }
    }
}

/// A text that is already on one line, and does not end in white space, stays as it is.
pub proof fn law_one_line_is_kept(s: Seq<char>)
    requires
        !s.contains('\n'),
    ensures
        joined_lines(s) == s,
        s.len() == 0 || !is_white(s.last()) ==> joined_lines(trimmed_end(s)) == s,
    decreases s.len(),
{
    if s.len() > 0 {
        assert forall|i: int| 0 <= i < s.len() - 1 implies s.drop_last()[i] != '\n' by {
            assert(s.contains(s[i]));
        }
        law_one_line_is_kept(s.drop_last());
        assert(s.contains(s.last()));
        assert(s.drop_last().push(s.last()) =~= s);
    }
}

/// White space is taken off the end of a text, all of it and nothing else.
pub proof fn law_trimming_takes_off_white_space(s: Seq<char>)
    ensures
        trimmed_end(s).len() <= s.len(),
        s.take(trimmed_end(s).len() as int) == trimmed_end(s),
        forall|i: int| trimmed_end(s).len() <= i < s.len() ==> is_white(#[trigger] s[i]),
        trimmed_end(s).len() > 0 ==> !is_white(trimmed_end(s).last()),
    decreases s.len(),
{
    if s.len() > 0 && is_white(s.last()) {
        let front = s.drop_last();
        law_trimming_takes_off_white_space(front);
        let n = trimmed_end(s).len() as int;
        assert(s.take(n) =~= front.take(n));
        assert forall|i: int| n <= i < s.len() implies is_white(#[trigger] s[i]) by {
            if i < front.len() {
                assert(front[i] == s[i]);
            }
        }
    } else {
        assert(s.take(s.len() as int) =~= s);
    }
}

/// Lines are joined one by one: each line feed becomes a semicolon and a space, and every other
/// character stays as it is.
pub proof fn law_lines_are_joined_one_by_one(a: Seq<char>, b: Seq<char>, c: char)
    ensures
        joined_lines(a + b) == joined_lines(a) + joined_lines(b),
        joined_lines(seq!['\n']) == seq![';', ' '],
        c != '\n' ==> joined_lines(seq![c]) == seq![c],
    decreases b.len(),
{
    reveal_with_fuel(joined_lines, 2);
    assert(seq!['\n'].drop_last() =~= Seq::<char>::empty());
    assert(seq![c].drop_last() =~= Seq::<char>::empty());
    assert(joined_lines(seq!['\n']) =~= seq![';', ' ']);
    assert(c != '\n' ==> joined_lines(seq![c]) =~= seq![c]);
    if b.len() == 0 {
        assert(a + b =~= a);
        assert(joined_lines(a) + joined_lines(b) =~= joined_lines(a));
    } else {
        law_lines_are_joined_one_by_one(a, b.drop_last(), c);
        assert((a + b).drop_last() =~= a + b.drop_last());
        assert(joined_lines(a + b) =~= joined_lines(a) + joined_lines(b));
    }
}

} // verus!
