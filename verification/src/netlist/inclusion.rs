//! The text of a netlist with the files that it includes put in.
//!
//! Reading files is not done here. An `IncludeReader` says what it needs next, a file
//! to be read or the path of an included file to be worked out, and is told the
//! outcome; it keeps the files that are being read, the paths that were met, the text
//! put together so far and the errors.

use crate::names::{differs_from, distinct, find_name, position_of};
use crate::netlist::ast::{ParseError, ParseErrorView};
use crate::netlist::parse::{error_at, push_error};
use crate::span::{lemma_span, lemma_span_back, lemma_span_props, span, span_back};
use crate::text::{
    chars_are, chars_of, concat2, lines, lowercase, split_lines, split_tokens, string_of,
    to_lowercase, tokens, trim, trim_slice,
};
use vstd::prelude::*;

verus! {

/// Whether a line includes a file: trimmed and in lower case it starts with `.include`.
pub open spec fn is_include(line: Seq<char>) -> bool {
    let t = lowercase(trim(line));
    t.len() >= 8 && t.take(8) == ".include"@
}

/// `t` without the double quotes at its start and at its end.
pub open spec fn strip_quotes(t: Seq<char>) -> Seq<char> {
    let inner = t.skip(span(t, |c: char| c == '"') as int);
    inner.take(inner.len() - span_back(inner, |c: char| c == '"'))
}

/// The file that an include line names: its second word without quotes, or nothing
/// where it has no second word.
pub open spec fn include_target(line: Seq<char>) -> Seq<char> {
    let words = tokens(trim(line));
    if words.len() >= 2 {
        strip_quotes(words[1])
    } else {
        Seq::empty()
    }
}

fn strip_quotes_slice<'a>(t: &'a [char]) -> (out: &'a [char])
    ensures
        out@ == strip_quotes(t@),
{
    let mut a: usize = 0;
    while a < t.len() && t[a] == '"'
        invariant
            a <= t.len(),
            forall|k: int| 0 <= k < a ==> #[trigger] t@[k] == '"',
        decreases t.len() - a,
    {
        a += 1;
    }
    let mut b: usize = t.len();
    while b > a && t[b - 1] == '"'
        invariant
            a <= b <= t.len(),
            forall|k: int| b <= k < t.len() ==> #[trigger] t@[k] == '"',
        decreases b,
    {
        b -= 1;
    }
    proof {
        let quote = |c: char| c == '"';
        lemma_span(t@, quote, a as int);
        let inner = t@.skip(a as int);
        lemma_span_back(inner, quote, t.len() - b);
    }
    &t[a..b]
}

fn line_is_include(line: &[char]) -> (r: bool)
    ensures
        r == is_include(line@),
{
    let low = to_lowercase(trim_slice(line));
    if low.len() < 8 {
        return false;
    }
    let head = &low.as_slice()[0..8];
    chars_are(head, ".include")
}

fn target_of(line: &[char]) -> (out: String)
    ensures
        out@ == include_target(line@),
{
    let words = split_tokens(trim_slice(line));
    if words.len() >= 2 {
        string_of(strip_quotes_slice(words[1]))
    } else {
        String::new()
    }
}

/// A file that is being read: its path, its lines, and how many of them are done.
#[derive(Debug)]
pub struct Frame {
    pub path: String,
    pub lines: Vec<Vec<char>>,
    pub next: usize,
}

/// The view of `Frame`.
pub struct FrameView {
    pub path: Seq<char>,
    pub lines: Seq<Seq<char>>,
    pub next: nat,
}

impl View for Frame {
    type V = FrameView;

    open spec fn view(&self) -> FrameView {
        FrameView { path: self.path@, lines: self.lines.deep_view(), next: self.next as nat }
    }
}

impl DeepView for Frame {
    type V = FrameView;

    open spec fn deep_view(&self) -> FrameView {
        self@
    }
}

/// What the reader needs next.
#[derive(Debug)]
pub enum Request {
    /// The content of the file at this path.
    Read(String),
    /// The path of the file that the file at `from` includes as `target`.
    Resolve { from: String, target: String },
    /// Nothing: the text is complete.
    Done,
}

/// The view of `Request`.
pub enum RequestView {
    Read(Seq<char>),
    Resolve { from: Seq<char>, target: Seq<char> },
    Done,
}

impl View for Request {
    type V = RequestView;

    open spec fn view(&self) -> RequestView {
        match self {
            Request::Read(p) => RequestView::Read(p@),
            Request::Resolve { from, target } => RequestView::Resolve {
                from: from@,
                target: target@,
            },
            Request::Done => RequestView::Done,
        }
    }
}

/// The state of reading a netlist with its includes. The innermost file is the last
/// of `stack`.
#[derive(Debug)]
pub struct IncludeReader {
    pub stack: Vec<Frame>,
    pub visited: Vec<String>,
    pub errors: Vec<ParseError>,
    pub text: Vec<char>,
}

/// The view of `IncludeReader`.
pub struct ReaderView {
    pub stack: Seq<FrameView>,
    pub visited: Seq<Seq<char>>,
    pub errors: Seq<ParseErrorView>,
    pub text: Seq<char>,
}

impl View for IncludeReader {
    type V = ReaderView;

    open spec fn view(&self) -> ReaderView {
        ReaderView {
            stack: self.stack.deep_view(),
            visited: self.visited.deep_view(),
            errors: self.errors.deep_view(),
            text: self.text@,
        }
    }
}

/// How much is left to do of the files being read: their lines not yet done, and the
/// files themselves.
pub open spec fn remaining(stack: Seq<FrameView>) -> nat
    decreases stack.len(),
{
    if stack.len() == 0 {
        0
    } else {
        let top = stack.last();
        remaining(stack.drop_last()) + 1 + (if top.next < top.lines.len() {
            (top.lines.len() - top.next) as nat
        } else {
            0
        })
    }
}

/// The stack with one more line of its innermost file done.
pub open spec fn advanced(stack: Seq<FrameView>) -> Seq<FrameView> {
    stack.drop_last().push(FrameView { next: stack.last().next + 1, ..stack.last() })
}

/// Goes on with the files being read until something is needed from outside.
///
/// A line that is no include goes to the text, followed by a line feed. An include
/// line without a file name is an error. An include line with one asks for the path of
/// that file. Where the innermost file is done, the file that included it goes on
/// behind a line feed; where the outermost file is done, the text is complete.
pub open spec fn settle(st: ReaderView) -> (ReaderView, RequestView)
    decreases remaining(st.stack),
    via settle_decreases
{
    if st.stack.len() == 0 {
        (st, RequestView::Done)
    } else {
        let top = st.stack.last();
        if top.next >= top.lines.len() {
            let outer = st.stack.drop_last();
            if outer.len() == 0 {
                (ReaderView { stack: outer, ..st }, RequestView::Done)
            } else {
                settle(ReaderView { stack: outer, text: st.text.push('\n'), ..st })
            }
        } else {
            let line = top.lines[top.next as int];
            let stack = advanced(st.stack);
            if !is_include(line) {
                settle(ReaderView { stack, text: (st.text + line).push('\n'), ..st })
            } else if include_target(line).len() == 0 {
                settle(
                    ReaderView {
                        stack,
                        errors: st.errors.push(error_at(0, "include 语句缺少路径: "@ + top.path)),
                        ..st
                    },
                )
            } else {
                (
                    ReaderView { stack, ..st },
                    RequestView::Resolve { from: top.path, target: include_target(line) },
                )
            }
        }
    }
}

#[via_fn]
proof fn settle_decreases(st: ReaderView) {
    if st.stack.len() > 0 {
        let top = st.stack.last();
        if top.next < top.lines.len() {
            assert(advanced(st.stack).drop_last() =~= st.stack.drop_last());
        }
    }
}

/// The state after the file at `path` was read, or could not be read.
pub open spec fn with_file(st: ReaderView, path: Seq<char>, content: Option<Seq<char>>) -> ReaderView {
    match content {
        Some(text) => ReaderView {
            stack: st.stack.push(FrameView { path, lines: lines(text), next: 0 }),
            ..st
        },
        None => ReaderView {
            stack: st.stack.push(FrameView { path, lines: Seq::empty(), next: 0 }),
            errors: st.errors.push(error_at(0, "无法读取文件: "@ + path)),
            ..st
        },
    }
}

/// The state and the request after the path of an included file was worked out. A
/// path that was met before is an error, and nothing is included for it; a new path
/// is noted and its file asked for.
pub open spec fn with_path(st: ReaderView, path: Seq<char>) -> (ReaderView, RequestView) {
    if position_of(st.visited, path) < st.visited.len() {
        settle(
            ReaderView {
                errors: st.errors.push(error_at(0, "include 循环引用: "@ + path)),
                text: st.text.push('\n'),
                ..st
            },
        )
    } else {
        (ReaderView { visited: st.visited.push(path), ..st }, RequestView::Read(path))
    }
}

fn owned_lines(content: &str) -> (out: Vec<Vec<char>>)
    ensures
        out.deep_view() == lines(content@),
{
    let chars = chars_of(content);
    let parts = split_lines(chars.as_slice());
    let mut out: Vec<Vec<char>> = Vec::new();
    let mut i: usize = 0;
    while i < parts.len()
        invariant
            i <= parts.len(),
            out.len() == i,
            forall|k: int| 0 <= k < i ==> #[trigger] out@[k]@ == parts@[k]@,
        decreases parts.len() - i,
    {
        out.push(vstd::slice::slice_to_vec(parts[i]));
        i += 1;
    }
    proof {
        assert forall|k: int| 0 <= k < out.len() implies #[trigger] out.deep_view()[k]
            == parts@[k]@ by {
        }
    }
    out
}

fn append_line(text: &mut Vec<char>, line: &Vec<char>)
    ensures
        final(text)@ == (old(text)@ + line@).push('\n'),
{
    let mut i: usize = 0;
    while i < line.len()
        invariant
            i <= line.len(),
            text@ == old(text)@ + line@.take(i as int),
        decreases line.len() - i,
    {
        text.push(line[i]);
        i += 1;
    }
    text.push('\n');
}

impl IncludeReader {
    /// No path stands twice among those met.
    pub open spec fn wf(&self) -> bool {
        distinct(self@.visited)
    }

    /// Starts reading the netlist at `path`, and asks for that file.
    pub fn new(path: &str) -> (out: (Self, Request))
        ensures
            out.0@ == (ReaderView {
                stack: Seq::empty(),
                visited: seq![path@],
                errors: Seq::empty(),
                text: Seq::empty(),
            }),
            out.1@ == RequestView::Read(path@),
            out.0.wf(),
    {
        let mut visited: Vec<String> = Vec::new();
        visited.push(String::from_str(path));
        let reader = IncludeReader {
            stack: Vec::new(),
            visited: visited,
            errors: Vec::new(),
            text: Vec::new(),
        };
        proof {
            assert(reader@.stack =~= Seq::<FrameView>::empty());
            assert(reader@.visited =~= seq![path@]);
            assert(reader@.errors =~= Seq::<ParseErrorView>::empty());
        }
        (reader, Request::Read(String::from_str(path)))
    }

    /// Takes the content of the file at `path`, or `None` where it could not be read,
    /// which is an error and stands for an empty file. Says what is needed next.
    pub fn file(&mut self, path: &str, content: Option<&str>) -> (request: Request)
        ensures
            (final(self)@, request@) == settle(
                with_file(
                    old(self)@,
                    path@,
                    match content {
                        Some(text) => Some(text@),
                        None => None,
                    },
                ),
            ),
            final(self)@.visited == old(self)@.visited,
    {
        let ghost before = self.stack.deep_view();
        match content {
            Some(text) => {
                let frame = Frame { path: String::from_str(path), lines: owned_lines(text), next: 0 };
                let ghost fv = frame@;
                self.stack.push(frame);
                assert(self.stack.deep_view() =~= before.push(fv));
            },
            None => {
                push_error(&mut self.errors, 0, concat2("无法读取文件: ", path));
                let frame = Frame { path: String::from_str(path), lines: Vec::new(), next: 0 };
                let ghost fv = frame@;
                assert(fv.lines =~= Seq::<Seq<char>>::empty());
                self.stack.push(frame);
                assert(self.stack.deep_view() =~= before.push(fv));
            },
        }
        self.go_on()
    }

    /// Takes the path of the included file that was asked about. Says what is needed
    /// next. A file is asked for once only: its path is new among those met.
    pub fn resolved(&mut self, path: &str) -> (request: Request)
        ensures
            (final(self)@, request@) == with_path(old(self)@, path@),
            old(self).wf() ==> final(self).wf(),
            request@ is Read ==> request@ == RequestView::Read(path@),
            request@ is Read ==> !old(self)@.visited.contains(path@),
    {
        proof {
            lemma_span_props(self@.visited, differs_from(path@));
        }
        match find_name(&self.visited, path) {
            Some(_) => {
                push_error(&mut self.errors, 0, concat2("include 循环引用: ", path));
                self.text.push('\n');
                self.go_on()
            },
            None => {
                let ghost before = self.visited.deep_view();
                self.visited.push(String::from_str(path));
                proof {
                    let after = self.visited.deep_view();
                    assert(after =~= before.push(path@));
                    if distinct(before) {
                        assert forall|i: int, j: int| 0 <= i < j < after.len() implies after[i]
                            != after[j] by {
                        }
                    }
                }
                Request::Read(String::from_str(path))
            },
        }
    }

    /// The text put together so far.
    pub fn text(&self) -> (out: String)
        ensures
            out@ == self@.text,
    {
        string_of(self.text.as_slice())
    }

    fn go_on(&mut self) -> (request: Request)
        ensures
            (final(self)@, request@) == settle(old(self)@),
            final(self)@.visited == old(self)@.visited,
            !(request@ is Read),
    {
        loop
            invariant
                settle(self@) == settle(old(self)@),
                self@.visited == old(self)@.visited,
            decreases remaining(self@.stack),
        {
            let depth = self.stack.len();
            if depth == 0 {
                return Request::Done;
            }
            let ghost here = self@;
            let ghost top = here.stack.last();
            if self.stack[depth - 1].next >= self.stack[depth - 1].lines.len() {
                self.stack.pop();
                proof {
                    assert(self.stack.deep_view() =~= here.stack.drop_last());
                }
                if self.stack.len() == 0 {
                    return Request::Done;
                }
                self.text.push('\n');
            } else {
                let at = self.stack[depth - 1].next;
                let is_inc = line_is_include(self.stack[depth - 1].lines[at].as_slice());
                let ghost line = top.lines[at as int];
                proof {
                    assert(line == self.stack@[depth - 1].lines@[at as int]@);
                }
                if !is_inc {
                    append_line(&mut self.text, &self.stack[depth - 1].lines[at]);
                    self.stack[depth - 1].next = at + 1;
                    proof {
                        assert(self.stack.deep_view() =~= advanced(here.stack));
                        assert(advanced(here.stack).drop_last() =~= here.stack.drop_last());
                    }
                } else {
                    let target = target_of(self.stack[depth - 1].lines[at].as_slice());
                    let from = self.stack[depth - 1].path.clone();
                    self.stack[depth - 1].next = at + 1;
                    proof {
                        assert(self.stack.deep_view() =~= advanced(here.stack));
                        assert(advanced(here.stack).drop_last() =~= here.stack.drop_last());
                    }
                    if target.as_str().unicode_len() == 0 {
                        push_error(
                            &mut self.errors,
                            0,
                            concat2("include 语句缺少路径: ", from.as_str()),
                        );
                    } else {
                        return Request::Resolve { from: from, target: target };
                    }
                }
            }
        }
    }
}

} // verus!
