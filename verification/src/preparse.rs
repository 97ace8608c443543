use vstd::prelude::*;
use vstd::string::StrSliceExecFns;
use vstd::string::StringExecFns;
use crate::errors::LoadError;
use crate::errors::LoadErrorKind;
use crate::position::Position;
use crate::textutil::ends_with_char;
use crate::textutil::push_char;
use crate::textutil::strip_last;
use crate::textutil::substring;

verus! {

/// The whitespace characters on which a raw line is split into words.
pub open spec fn is_space(c: char) -> bool {
    c == ' ' || c == '\t' || c == '\r' || c == '\n' || c == '\u{b}' || c == '\u{c}'
}

/// Executable test for `is_space`.
pub fn space_char(c: char) -> (r: bool)
    ensures
        r == is_space(c),
{
    c == ' ' || c == '\t' || c == '\r' || c == '\n' || c == '\u{b}' || c == '\u{c}'
}

/// The length of the run of non-space characters at the front of `s`.
pub open spec fn word_len(s: Seq<char>) -> nat
    decreases s.len(),
{
    if s.len() == 0 || is_space(s.first()) {
        0
    } else {
        (1 + word_len(s.drop_first())) as nat
    }
}

pub proof fn lemma_word_len_le(s: Seq<char>)
    ensures
        word_len(s) <= s.len(),
    decreases s.len(),
{
    if s.len() > 0 && !is_space(s.first()) {
        lemma_word_len_le(s.drop_first());
    }
}

/// `word_len` is pinned by any witness index `k`: all characters before `k`
/// non-space, and `k` either the end of the string or a space.
pub proof fn lemma_word_len_at(s: Seq<char>, k: int)
    requires
        0 <= k <= s.len(),
        forall|t: int| 0 <= t < k ==> !is_space(s[t]),
        k == s.len() || is_space(s[k]),
    ensures
        word_len(s) == k,
    decreases k,
{
    if k == 0 {
    } else {
        assert(!is_space(s.first()));
        let d = s.drop_first();
        assert forall|t: int| 0 <= t < k - 1 implies !is_space(d[t]) by {
            assert(d[t] == s[t + 1]);
        }
        if k - 1 < d.len() {
            assert(d[k - 1] == s[k]);
        }
        lemma_word_len_at(d, k - 1);
    }
}

/// The words of line `s` from character `i` on, each with a `Position`
/// holding the 1-based line number `ln` and an approximate column: `acc`,
/// the accumulated length of the words already emitted on the line plus
/// their count, not the word's exact character offset.
pub open spec fn line_words_from(ln: usize, s: Seq<char>, i: int, acc: int) -> Seq<
    (Position, Seq<char>),
>
    decreases s.len() - i,
    via line_words_from_dec
{
    if i < 0 || i >= s.len() {
        Seq::empty()
    } else if is_space(s[i]) {
        line_words_from(ln, s, i + 1, acc)
    } else {
        let wl = word_len(s.skip(i)) as int;
        let head = seq![(Position { line: ln, index: acc as usize }, s.subrange(i, i + wl))];
        if i + wl >= s.len() {
            head
        } else {
            head + line_words_from(ln, s, i + wl, acc + wl + 1)
        }
    }
}

#[via_fn]
proof fn line_words_from_dec(ln: usize, s: Seq<char>, i: int, acc: int) {
    if 0 <= i < s.len() && !is_space(s[i]) {
        assert(s.skip(i).first() == s[i]);
        assert(word_len(s.skip(i)) >= 1);
        lemma_word_len_le(s.skip(i));
    }
}

/// Split one raw line into positioned words, starting at character `i`
/// with `acc` the accumulated weight (length plus one) of the words
/// already emitted on the line.
fn split_line(ln: usize, s: &str, i: usize, acc: usize) -> (r: Vec<(Position, String)>)
    requires
        i <= s@.len(),
        acc <= i + 1,
        i < s@.len() && !is_space(s@[i as int]) ==> acc <= i,
    ensures
        r.deep_view() == line_words_from(ln, s@, i as int, acc as int),
    decreases s@.len() - i,
{
    let len = s.unicode_len();
    if i >= len {
        let r: Vec<(Position, String)> = Vec::new();
        proof {
            assert(r.deep_view() =~= line_words_from(ln, s@, i as int, acc as int));
        }
        return r;
    }
    let c = s.get_char(i);
    if space_char(c) {
        split_line(ln, s, i + 1, acc)
    } else {
        let mut j: usize = i + 1;
        while j < len && !space_char(s.get_char(j))
            invariant
                i < j <= len,
                len == s@.len(),
                forall|t: int| i <= t < j ==> !is_space(s@[t]),
            decreases len - j,
        {
            j += 1;
        }
        proof {
            let tail = s@.skip(i as int);
            assert forall|t: int| 0 <= t < j - i implies !is_space(tail[t]) by {
                assert(tail[t] == s@[t + i]);
            }
            if j < len {
                assert(tail[j - i] == s@[j as int]);
            }
            lemma_word_len_at(tail, j - i);
            assert(s@.subrange(i as int, j as int) =~= tail.subrange(0, j - i));
        }
        let w = substring(s, i, j);
        let mut r: Vec<(Position, String)> = Vec::new();
        r.push((Position::new(ln, acc), w));
        if j < len {
            let mut rest = split_line(ln, s, j, acc + (j - i) + 1);
            r.append(&mut rest);
        }
        proof {
            assert(s@.subrange(i as int, i + word_len(s@.skip(i as int))) == w@);
            assert(r.deep_view() =~= line_words_from(ln, s@, i as int, acc as int));
        }
        r
    }
}

/// All positioned words of the input, line by line, lines numbered from 1.
pub open spec fn all_words(lines: Seq<Seq<char>>) -> Seq<(Position, Seq<char>)>
    decreases lines.len(),
{
    if lines.len() == 0 {
        Seq::empty()
    } else {
        all_words(lines.drop_last()) + line_words_from(lines.len() as usize, lines.last(), 0, 0)
    }
}

/// The string-fusion state: whether a quoted literal is being fused, the
/// text gathered so far, the position of its opening word, and the finished
/// output items.
pub struct FuseS {
    pub in_string: bool,
    pub buf: Seq<char>,
    pub start: Position,
    pub out: Seq<(Position, Seq<char>)>,
}

pub open spec fn init_fuse() -> FuseS {
    FuseS {
        in_string: false,
        buf: Seq::empty(),
        start: Position { line: 0, index: 0 },
        out: Seq::empty(),
    }
}

/// One word of the fusion pass.
///
/// A word that begins a quoted literal without ending it enters fusing mode;
/// fused words are space-joined; the word that closes the quote finishes one
/// output item.  A trailing `;` is kept as a suffix, outside the closing
/// quote on the closing word.  Words outside any quoted literal pass through
/// unchanged.
pub open spec fn fuse_step(st: FuseS, item: (Position, Seq<char>)) -> FuseS {
    let pos = item.0;
    let w0 = item.1;
    let semi = w0.len() > 0 && w0.last() == ';';
    let w = if semi {
        w0.drop_last()
    } else {
        w0
    };
    let semi_suffix = if semi {
        seq![';']
    } else {
        Seq::<char>::empty()
    };
    if st.in_string {
        if w.len() > 0 && w.last() == '"' {
            FuseS {
                in_string: false,
                buf: Seq::empty(),
                start: st.start,
                out: st.out.push((st.start, st.buf + w + semi_suffix)),
            }
        } else {
            FuseS {
                in_string: true,
                buf: st.buf + w + semi_suffix + seq![' '],
                start: st.start,
                out: st.out,
            }
        }
    } else {
        if w.len() > 0 && w.first() == '"' {
            let w1 = w.drop_first();
            if w1.len() > 0 && w1.last() == '"' {
                FuseS {
                    in_string: false,
                    buf: st.buf,
                    start: st.start,
                    out: st.out.push((pos, seq!['"'] + w1 + semi_suffix)),
                }
            } else {
                FuseS {
                    in_string: true,
                    buf: seq!['"'] + w1 + semi_suffix + seq![' '],
                    start: pos,
                    out: st.out,
                }
            }
        } else {
            FuseS {
                in_string: false,
                buf: st.buf,
                start: st.start,
                out: st.out.push((pos, w0)),
            }
        }
    }
}

/// The fusion pass folded over a word stream.
pub open spec fn fuse_run(st: FuseS, items: Seq<(Position, Seq<char>)>) -> FuseS
    decreases items.len(),
{
    if items.len() == 0 {
        st
    } else {
        fuse_step(fuse_run(st, items.drop_last()), items.last())
    }
}

/// What the pre-parser returns for a whole input: its positioned
/// instructions, or `UnterminatedString` at the opening word's position if
/// the input ends while a quoted literal is still being fused.
pub open spec fn preparse_spec(lines: Seq<Seq<char>>) -> Result<
    Seq<(Position, Seq<char>)>,
    LoadError,
> {
    let st = fuse_run(init_fuse(), all_words(lines));
    if st.in_string {
        Err(LoadError { kind: LoadErrorKind::UnterminatedString, pos: Some(st.start) })
    } else {
        Ok(st.out)
    }
}

/// Split raw lines into whitespace-separated words, fuse quoted string
/// literals back together across words, and attach a source position to
/// every resulting instruction.
pub fn pre_parse(lines: Vec<String>) -> (r: Result<Vec<(Position, String)>, LoadError>)
    ensures
        match r {
            Ok(items) => preparse_spec(lines.deep_view()) == Ok::<_, LoadError>(
                items.deep_view(),
            ),
            Err(e) => preparse_spec(lines.deep_view()) == Err::<
                Seq<(Position, Seq<char>)>,
                _,
            >(e),
        },
{
    let mut words: Vec<(Position, String)> = Vec::new();
    let mut li: usize = 0;
    while li < lines.len()
        invariant
            li <= lines.len(),
            words.deep_view() == all_words(lines.deep_view().take(li as int)),
        decreases lines.len() - li,
    {
        let mut line_items = split_line(li + 1, lines[li].as_str(), 0, 0);
        words.append(&mut line_items);
        proof {
            let taken = lines.deep_view().take(li + 1 as int);
            assert(taken.drop_last() =~= lines.deep_view().take(li as int));
            assert(taken.last() == lines.deep_view()[li as int]);
            assert(taken.len() as usize == li + 1);
            assert(words.deep_view() =~= all_words(taken));
        }
        li += 1;
    }
    proof {
        assert(lines.deep_view().take(li as int) =~= lines.deep_view());
    }
    let ghost stream = all_words(lines.deep_view());

    let mut in_string: bool = false;
    let mut buf: String = String::new();
    let mut start: Position = Position::new(0, 0);
    let mut out: Vec<(Position, String)> = Vec::new();
    let mut i: usize = 0;
    while i < words.len()
        invariant
            i <= words.len(),
            words.deep_view() == stream,
            ({
                let st = fuse_run(init_fuse(), stream.take(i as int));
                in_string == st.in_string && buf@ == st.buf && start == st.start
                    && out.deep_view() == st.out
            }),
        decreases words.len() - i,
    {
        let ghost pre = fuse_run(init_fuse(), stream.take(i as int));
        let ghost item = stream[i as int];
        proof {
            assert(stream.take(i + 1 as int).drop_last() =~= stream.take(i as int));
            assert(stream.take(i + 1 as int).last() == item);
        }
        let pos: Position = words[i].0;
        let w0: &String = &words[i].1;
        let semi = ends_with_char(w0.as_str(), ';');
        let w: String = if semi {
            strip_last(w0.as_str())
        } else {
            w0.clone()
        };
        if in_string {
            if ends_with_char(w.as_str(), '"') {
                buf.append(w.as_str());
                if semi {
                    buf = push_char(buf, ';');
                }
                out.push((start, buf));
                buf = String::new();
                in_string = false;
            } else {
                buf.append(w.as_str());
                if semi {
                    buf = push_char(buf, ';');
                }
                buf = push_char(buf, ' ');
            }
        } else {
            if starts_quote(w.as_str()) {
                let w1 = crate::textutil::strip_first(w.as_str());
                if ends_with_char(w1.as_str(), '"') {
                    let mut piece: String = quote_str().to_owned();
                    piece.append(w1.as_str());
                    if semi {
                        piece = push_char(piece, ';');
                    }
                    out.push((pos, piece));
                } else {
                    in_string = true;
                    start = pos;
                    buf = quote_str().to_owned();
                    buf.append(w1.as_str());
                    if semi {
                        buf = push_char(buf, ';');
                    }
                    buf = push_char(buf, ' ');
                }
            } else {
                out.push((pos, w0.clone()));
            }
        }
        proof {
            let post = fuse_step(pre, item);
            assert(buf@ =~= post.buf);
            assert(out.deep_view() =~~= post.out);
        }
        i += 1;
    }
    proof {
        assert(stream.take(i as int) =~= stream);
    }
    if in_string {
        Err(LoadError::at(LoadErrorKind::UnterminatedString, start))
    } else {
        Ok(out)
    }
}

/// Whether `s` begins with a double quote.
fn starts_quote(s: &str) -> (r: bool)
    ensures
        r == (s@.len() > 0 && s@.first() == '"'),
{
    crate::textutil::starts_with_char(s, '"')
}

/// The one-character string slice holding a double quote.
fn quote_str() -> (r: &'static str)
    ensures
        r@ =~= seq!['"'],
{
    proof {
        reveal_strlit("\"");
    }
    "\""
}

} // verus!
