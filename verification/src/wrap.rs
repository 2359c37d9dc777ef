//! Text wrapping for display, and normalisation of code operators.

use vstd::prelude::*;

use crate::chars::{
    contains, find_exec, find_from, lemma_find_from, occurs_at, push_char, str_chars, string_of,
    utf8_len, utf8_width,
};

verus! {

/// What `textwrap::wrap(text, width)` returns, line by line, for the default options.
pub uninterp spec fn textwrap_wrap(text: Seq<char>, width: usize) -> Seq<Seq<char>>;

/// `s` without its trailing ' ' characters (`str::trim_end_matches(' ')`).
pub open spec fn trim_end_spaces(s: Seq<char>) -> Seq<char>
    decreases s.len(),
{
    if s.len() > 0 && s.last() == ' ' {
        trim_end_spaces(s.drop_last())
    } else {
        s
    }
}

/// Wraps `text` to `width` columns with `textwrap::wrap` (default options).
/// The contract names the result; from the crate's source it also states the case that
/// takes no wrapping (a text without line break whose byte length is below `width` comes
/// back as one line, its trailing spaces removed), that there is at least one line (each
/// piece between line breaks gives one or more), and that no line holds a line break
/// (the text is split at them and each line is cut from one piece).
#[verifier::external_body]
fn textwrap_lines(text: &str, width: usize) -> (r: Vec<String>)
    ensures
        r@.map_values(|l: String| l@) == textwrap_wrap(text@, width),
        r@.len() >= 1,
        forall|k: int| 0 <= k < r@.len() ==> !contains(#[trigger] r@[k]@, seq!['\n']),
        !contains(text@, seq!['\n']) && utf8_len(text@) < width ==> r@.map_values(
            |l: String| l@,
        ) == seq![trim_end_spaces(text@)],
{
    textwrap::wrap(text, width).into_iter().map(|cow| cow.into_owned()).collect()
}

/// The display lines of one message line: unchanged for width 0, else textwrap's lines.
pub open spec fn wrapped(line: Seq<char>, width: usize) -> Seq<Seq<char>> {
    if width == 0 {
        seq![line]
    } else {
        textwrap_wrap(line, width)
    }
}

/// Split text into lines of max width (columns). Uses textwrap for correct UTF-8 handling.
pub fn wrap_text(s: &str, width: usize) -> (r: Vec<String>)
    ensures
        r@.map_values(|l: String| l@) == wrapped(s@, width),
        r@.len() >= 1,
        width > 0 || !contains(s@, seq!['\n']) ==> forall|k: int|
            0 <= k < r@.len() ==> !contains(#[trigger] r@[k]@, seq!['\n']),
        !contains(s@, seq!['\n']) && utf8_len(s@) < width ==> r@.map_values(|l: String| l@)
            == seq![trim_end_spaces(s@)],
{
    if width == 0 {
        let v = str_chars(s);
        let line = string_of(&v, 0, v.len());
        assert(v@.subrange(0, v@.len() as int) == v@);
        let mut out: Vec<String> = Vec::new();
        out.push(line);
        assert(out@.map_values(|l: String| l@) =~= seq![s@]);
        return out;
    }
    textwrap_lines(s, width)
}

/// The pieces of `s[i..]` between '\n' characters (`str::split('\n')`).
pub open spec fn lines_from(s: Seq<char>, i: int) -> Seq<Seq<char>>
    decreases s.len() - i,
{
    if i < 0 || i > s.len() {
        seq![]
    } else {
        proof {
            lemma_find_from(s, seq!['\n'], i);
        }
        match find_from(s, seq!['\n'], i) {
            Some(k) => seq![s.subrange(i, k)] + lines_from(s, k + 1),
            None => seq![s.subrange(i, s.len() as int)],
        }
    }
}

/// The lines of `s`, split at '\n'.
pub open spec fn lines_of(s: Seq<char>) -> Seq<Seq<char>> {
    lines_from(s, 0)
}

/// Display lines for a list of message lines: an empty line stays one empty line,
/// others are wrapped to `width`.
pub open spec fn wrap_lines(lines: Seq<Seq<char>>, width: usize) -> Seq<Seq<char>>
    decreases lines.len(),
{
    if lines.len() == 0 {
        seq![]
    } else {
        let last = lines.last();
        wrap_lines(lines.drop_last(), width) + if last.len() == 0 {
            seq![Seq::<char>::empty()]
        } else {
            wrapped(last, width)
        }
    }
}

/// Each line trimmed of trailing spaces (what wrapping does to lines that fit).
pub open spec fn trim_lines(lines: Seq<Seq<char>>) -> Seq<Seq<char>>
    decreases lines.len(),
{
    if lines.len() == 0 {
        seq![]
    } else {
        trim_lines(lines.drop_last()).push(trim_end_spaces(lines.last()))
    }
}

/// Every line has fewer than `width` bytes.
pub open spec fn lines_fit(lines: Seq<Seq<char>>, width: usize) -> bool {
    forall|k: int| 0 <= k < lines.len() ==> utf8_len(#[trigger] lines[k]) < width
}

proof fn lemma_lines_have_no_newline(s: Seq<char>, i: int)
    requires
        0 <= i <= s.len(),
    ensures
        forall|k: int|
            0 <= k < lines_from(s, i).len() ==> !contains(#[trigger] lines_from(s, i)[k], seq!['\n']),
    decreases s.len() - i,
{
    lemma_find_from(s, seq!['\n'], i);
    let end = match find_from(s, seq!['\n'], i) {
        Some(k) => k,
        None => s.len() as int,
    };
    let piece = s.subrange(i, end);
    assert forall|j: int| !occurs_at(piece, seq!['\n'], j) by {
        if occurs_at(piece, seq!['\n'], j) {
            assert(piece.subrange(j, j + 1)[0] == s[i + j]);
            assert(s.subrange(i + j, i + j + 1) =~= seq!['\n']);
            assert(occurs_at(s, seq!['\n'], i + j));
        }
    }
    match find_from(s, seq!['\n'], i) {
        Some(k) => {
            lemma_lines_have_no_newline(s, k + 1);
            let rest = lines_from(s, k + 1);
            assert(lines_from(s, i) == seq![piece] + rest);
            assert forall|m: int| 0 <= m < lines_from(s, i).len() implies !contains(
                #[trigger] lines_from(s, i)[m],
                seq!['\n'],
            ) by {
                if m > 0 {
                    assert(lines_from(s, i)[m] == rest[m - 1]);
                }
            }
        },
        None => {
            assert(lines_from(s, i) == seq![piece]);
        },
    }
}

/// Split a message into display lines respecting message newlines, then wrap to `width`.
/// A message whose lines all have fewer than `width` bytes is only split at its newlines
/// (each line losing its trailing spaces).
pub fn wrap_message(msg: &str, width: usize) -> (r: Vec<String>)
    ensures
        r@.map_values(|l: String| l@) == wrap_lines(lines_of(msg@), width),
        r@.len() >= lines_of(msg@).len(),
        forall|k: int| 0 <= k < r@.len() ==> !contains(#[trigger] r@[k]@, seq!['\n']),
        width > 0 && lines_fit(lines_of(msg@), width) ==> r@.map_values(|l: String| l@)
            == trim_lines(lines_of(msg@)),
{
    let v = str_chars(msg);
    let nl: [char; 1] = ['\n'];
    assert(nl@ == seq!['\n']);
    let ghost all = lines_of(v@);
    proof {
        lemma_lines_have_no_newline(v@, 0);
    }
    let mut out: Vec<String> = Vec::new();
    let mut i: usize = 0;
    let ghost mut done: Seq<Seq<char>> = seq![];
    loop
        invariant
            i <= v@.len(),
            nl@ == seq!['\n'],
            all == lines_of(v@),
            v@ == msg@,
            done + lines_from(v@, i as int) == all,
            out@.map_values(|l: String| l@) == wrap_lines(done, width),
            width > 0 && lines_fit(all, width) ==> out@.map_values(|l: String| l@) == trim_lines(
                done,
            ),
            forall|k: int| 0 <= k < all.len() ==> !contains(#[trigger] all[k], seq!['\n']),
            out@.len() >= done.len(),
            forall|k: int| 0 <= k < out@.len() ==> !contains(#[trigger] out@[k]@, seq!['\n']),
        decreases v@.len() - i,
    {
        proof {
            lemma_find_from(v@, seq!['\n'], i as int);
        }
        let found = find_exec(&v, &nl, i);
        let end = match found {
            Some(k) => k,
            None => v.len(),
        };
        let ghost piece = v@.subrange(i as int, end as int);
        let ghost before = out@;
        assert(all[done.len() as int] == piece);
        let ghost fits = width > 0 && lines_fit(all, width);
        assert(fits ==> utf8_len(all[done.len() as int]) < width);
        assert(!contains(all[done.len() as int], seq!['\n']));
        if end == i {
            out.push(String::new());
            assert(!contains(Seq::<char>::empty(), seq!['\n']));
            assert(out@[out@.len() - 1]@ == Seq::<char>::empty());
            assert(piece =~= Seq::<char>::empty());
            assert(trim_end_spaces(piece) == piece);
            assert(out@.map_values(|l: String| l@) =~= before.map_values(|l: String| l@).push(
                trim_end_spaces(piece),
            ));
        } else {
            let line = string_of(&v, i, end);
            let mut chunks = wrap_text(line.as_str(), width);
            let ghost cview = chunks@;
            assert(fits ==> cview.map_values(|l: String| l@) == seq![trim_end_spaces(piece)]);
            assert(fits ==> cview.map_values(|l: String| l@).len() == 1 && cview.map_values(
                |l: String| l@,
            )[0] == trim_end_spaces(piece));
            assert(line@ == piece) by {
                assert(v@.subrange(i as int, end as int) == piece);
            }
            out.append(&mut chunks);
            assert(out@ == before + cview);
            assert forall|k: int| 0 <= k < out@.len() implies !contains(#[trigger] out@[k]@, seq!['\n']) by {
                if k >= before.len() {
                    assert(out@[k] == cview[k - before.len()]);
                }
            }
            assert(fits ==> out@.map_values(|l: String| l@) =~= before.map_values(|l: String| l@).push(
                trim_end_spaces(piece),
            ));
        }
        assert(fits ==> out@.map_values(|l: String| l@) =~= before.map_values(|l: String| l@).push(
            trim_end_spaces(piece),
        ));
        assert(out@.map_values(|l: String| l@) =~= before.map_values(|l: String| l@) + (
        if piece.len() == 0 {
            seq![Seq::<char>::empty()]
        } else {
            wrapped(piece, width)
        }));
        proof {
            let nd = done.push(piece);
            assert(nd.drop_last() == done);
            assert(nd.last() == piece);
            assert(trim_lines(nd) == trim_lines(done).push(trim_end_spaces(piece)));
            done = nd;
        }
        match found {
            Some(k) => {
                assert(occurs_at(v@, seq!['\n'], k as int));
                assert(k + 1 <= v.len());
                i = k + 1;
            },
            None => {
                assert(done == all);
                return out;
            },
        }
    }
}

/// `c` with the Unicode comparison signs ≠, ≥, ≤ spelled as ASCII operators.
pub open spec fn ascii_operator(c: char) -> Seq<char> {
    if c == '\u{2260}' {
        seq!['!', '=']
    } else if c == '\u{2265}' {
        seq!['>', '=']
    } else if c == '\u{2264}' {
        seq!['<', '=']
    } else {
        seq![c]
    }
}

/// `s` with every ≠, ≥, ≤ replaced by !=, >=, <=.
pub open spec fn normalized(s: Seq<char>) -> Seq<char>
    decreases s.len(),
{
    if s.len() == 0 {
        seq![]
    } else {
        normalized(s.drop_last()) + ascii_operator(s.last())
    }
}

/// Normalize Unicode symbols to ASCII equivalents in code blocks.
/// LLMs sometimes output ≠, ≥, ≤ etc. instead of !=, >=, <= — this restores valid syntax.
pub fn normalize_code_operators(s: &str) -> (r: String)
    ensures
        r@ == normalized(s@),
{
    let v = str_chars(s);
    let mut r = String::new();
    let mut i: usize = 0;
    while i < v.len()
        invariant
            i <= v@.len(),
            r@ == normalized(v@.take(i as int)),
        decreases v@.len() - i,
    {
        let c = v[i];
        if c == '\u{2260}' {
            push_char(&mut r, '!');
            push_char(&mut r, '=');
        } else if c == '\u{2265}' {
            push_char(&mut r, '>');
            push_char(&mut r, '=');
        } else if c == '\u{2264}' {
            push_char(&mut r, '<');
            push_char(&mut r, '=');
        } else {
            push_char(&mut r, c);
        }
        assert(v@.take(i + 1).drop_last() == v@.take(i as int));
        assert(r@ =~= normalized(v@.take(i + 1)));
        i = i + 1;
    }
    assert(v@.take(v@.len() as int) == v@);
    r
}

} // verus!
