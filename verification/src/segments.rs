//! Message segmentation: split content into plain text and fenced code blocks.

use vstd::prelude::*;
use vstd::string::StrSliceExecFns;

use crate::chars::{occurs_at, find_exec, find_from, lemma_find_from, str_chars, trim, trim_bounds};

verus! {

/// Segment of a message: either plain text or a fenced code block.
#[derive(Debug, Clone)]
pub enum MessageSegment<'a> {
    Text(&'a str),
    CodeBlock { lang: &'a str, code: &'a str },
}

/// The characters a segment holds.
pub enum SegmentView {
    Text(Seq<char>),
    CodeBlock { lang: Seq<char>, code: Seq<char> },
}

impl<'a> View for MessageSegment<'a> {
    type V = SegmentView;

    open spec fn view(&self) -> SegmentView {
        match self {
            MessageSegment::Text(t) => SegmentView::Text(t@),
            MessageSegment::CodeBlock { lang, code } => SegmentView::CodeBlock {
                lang: lang@,
                code: code@,
            },
        }
    }
}

/// The opening or closing fence "```".
pub open spec fn fence() -> Seq<char> {
    seq!['`', '`', '`']
}

/// A closing fence on a line of its own: "\n```".
pub open spec fn line_fence() -> Seq<char> {
    seq!['\n', '`', '`', '`']
}

/// A line break.
pub open spec fn newline() -> Seq<char> {
    seq!['\n']
}

/// End (exclusive) of the language tag that starts at `a`: the next line break, or the end.
pub open spec fn lang_end(s: Seq<char>, a: int) -> int {
    match find_from(s, newline(), a) {
        Some(e) => e,
        None => s.len() as int,
    }
}

/// Start of the code of a block whose fence ends at `a`: just past the tag's line break.
pub open spec fn code_start(s: Seq<char>, a: int) -> int {
    if lang_end(s, a) < s.len() {
        lang_end(s, a) + 1
    } else {
        s.len() as int
    }
}

/// The segments of `s[i..]`: text up to the next "```", then a code block whose
/// language is the trimmed rest of the fence line and whose code runs up to the next
/// "\n```" (or, if there is none, the next "```"; or, if there is none, the end).
pub open spec fn segments_from(s: Seq<char>, i: int) -> Seq<SegmentView>
    decreases s.len() - i,
{
    if i < 0 || i > s.len() {
        seq![]
    } else {
        match find_from(s, fence(), i) {
            None => if i < s.len() {
                seq![SegmentView::Text(s.subrange(i, s.len() as int))]
            } else {
                seq![]
            },
            Some(idx) => {
                let pre = if idx > i {
                    seq![SegmentView::Text(s.subrange(i, idx))]
                } else {
                    seq![]
                };
                let a = idx + 3;
                let lang = trim(s.subrange(a, lang_end(s, a)));
                let b = code_start(s, a);
                proof {
                    lemma_find_from(s, fence(), i);
                    lemma_find_from(s, newline(), a);
                    lemma_find_from(s, line_fence(), b);
                    lemma_find_from(s, fence(), b);
                }
                match find_from(s, line_fence(), b) {
                    Some(p) => pre + seq![
                        SegmentView::CodeBlock { lang: lang, code: s.subrange(b, p) },
                    ] + segments_from(s, p + 4),
                    None => match find_from(s, fence(), b) {
                        Some(p) => pre + seq![
                            SegmentView::CodeBlock { lang: lang, code: s.subrange(b, p) },
                        ] + segments_from(s, p + 3),
                        None => pre + seq![
                            SegmentView::CodeBlock { lang: lang, code: s.subrange(b, s.len() as int) },
                        ],
                    },
                }
            },
        }
    }
}

/// Parse message content into text and code block segments.
/// Matches ```lang ... ``` or ``` ... ``` patterns.
pub fn parse_message_segments(content: &str) -> (r: Vec<MessageSegment<'_>>)
    ensures
        r@.map_values(|m: MessageSegment| m@) == segments_from(content@, 0),
{
    let v = str_chars(content);
    let fence_pat: [char; 3] = ['`', '`', '`'];
    let line_fence_pat: [char; 4] = ['\n', '`', '`', '`'];
    let newline_pat: [char; 1] = ['\n'];
    assert(fence_pat@ == fence());
    assert(line_fence_pat@ == line_fence());
    assert(newline_pat@ == newline());
    let mut segments: Vec<MessageSegment<'_>> = Vec::new();
    let mut i: usize = 0;
    loop
        invariant
            v@ == content@,
            fence_pat@ == fence(),
            line_fence_pat@ == line_fence(),
            newline_pat@ == newline(),
            i <= v@.len(),
            segments@.map_values(|m: MessageSegment| m@) + segments_from(v@, i as int)
                == segments_from(v@, 0),
        decreases v@.len() - i,
    {
        let ghost s = v@;
        let ghost before = segments@;
        proof {
            lemma_find_from(s, fence(), i as int);
        }
        match find_exec(&v, &fence_pat, i) {
            None => {
                if i < v.len() {
                    segments.push(MessageSegment::Text(content.substring_char(i, v.len())));
                    assert(segments@.map_values(|m: MessageSegment| m@) == before.map_values(
                        |m: MessageSegment| m@,
                    ) + segments_from(s, i as int));
                } else {
                    assert(segments@.map_values(|m: MessageSegment| m@) == before.map_values(
                        |m: MessageSegment| m@,
                    ) + segments_from(s, i as int));
                }
                return segments;
            },
            Some(idx) => {
                let ghost pre_len = segments@.len();
                if idx > i {
                    segments.push(MessageSegment::Text(content.substring_char(i, idx)));
                }
                assert(fence().len() == 3);
                assert(occurs_at(s, fence(), idx as int));
                assert(idx + 3 <= s.len());
                assert(s.len() == v.len());
                let a = idx + 3;
                proof {
                    lemma_find_from(s, newline(), a as int);
                }
                let le = match find_exec(&v, &newline_pat, a) {
                    Some(e) => e,
                    None => v.len(),
                };
                let (x, y) = trim_bounds(&v, a, le);
                let lang = content.substring_char(x, y);
                let b = if le < v.len() {
                    le + 1
                } else {
                    v.len()
                };
                proof {
                    lemma_find_from(s, line_fence(), b as int);
                    lemma_find_from(s, fence(), b as int);
                }
                match find_exec(&v, &line_fence_pat, b) {
                    Some(p) => {
                        segments.push(
                            MessageSegment::CodeBlock { lang, code: content.substring_char(b, p) },
                        );
                        assert(segments@.map_values(|m: MessageSegment| m@) + segments_from(
                            s,
                            p + 4,
                        ) == before.map_values(|m: MessageSegment| m@) + segments_from(
                            s,
                            i as int,
                        ));
                        i = p + 4;
                    },
                    None => {
                        match find_exec(&v, &fence_pat, b) {
                            Some(p) => {
                                segments.push(
                                    MessageSegment::CodeBlock {
                                        lang,
                                        code: content.substring_char(b, p),
                                    },
                                );
                                assert(segments@.map_values(|m: MessageSegment| m@)
                                    + segments_from(s, p + 3) == before.map_values(
                                    |m: MessageSegment| m@,
                                ) + segments_from(s, i as int));
                                i = p + 3;
                            },
                            None => {
                                segments.push(
                                    MessageSegment::CodeBlock {
                                        lang,
                                        code: content.substring_char(b, v.len()),
                                    },
                                );
                                assert(segments@.map_values(|m: MessageSegment| m@)
                                    == before.map_values(|m: MessageSegment| m@)
                                    + segments_from(s, i as int));
                                return segments;
                            },
                        }
                    },
                }
            },
        }
    }
}

} // verus!
