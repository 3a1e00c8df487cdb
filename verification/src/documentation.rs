//! The documentation pane.
//!
//! The pane owns the command's reference text and a line offset: the number
//! of leading lines hidden above the viewport.  Scrolling moves the offset
//! in steps of five lines, clamped at both ends: it never goes below zero
//! and never past the last line, so at least one line of content stays
//! reachable.

use vstd::prelude::*;

use crate::editor::Key;
use crate::editor::KeyModifier;

verus! {

/// Number of newline characters in the text; the text has one line more
/// than it has newlines.
pub open spec fn newline_count(s: Seq<char>) -> nat
    decreases s.len(),
{
    if s.len() == 0 {
        0
    } else {
        newline_count(s.drop_last()) + if s.last() == '\n' {
            1nat
        } else {
            0nat
        }
    }
}

/// The text with its first `n` lines removed.  Asking for more lines than
/// there are newlines leaves nothing.
pub open spec fn drop_lines(s: Seq<char>, n: nat) -> Seq<char>
    decreases s.len(),
{
    if n == 0 || s.len() == 0 {
        s
    } else if s[0] == '\n' {
        drop_lines(s.drop_first(), (n - 1) as nat)
    } else {
        drop_lines(s.drop_first(), n)
    }
}

/// The offset after one step down: five lines further, taken only when the
/// new offset would still lie strictly before the index of the last line;
/// otherwise nothing moves.
pub open spec fn scrolled_down(offset: int, newlines: nat) -> int {
    if offset + 5 < newlines {
        offset + 5
    } else {
        offset
    }
}

/// The offset after one step up: five lines back, floored at zero.
pub open spec fn scrolled_up(offset: int) -> int {
    if offset >= 5 {
        offset - 5
    } else {
        0
    }
}

/// The pane's state as the contracts speak of it.
#[verifier::ext_equal]
pub ghost struct DocView {
    pub text: Seq<char>,
    pub offset: int,
}

/// The pane's invariant: the offset is a multiple of five and never points
/// past the last line.
pub open spec fn doc_wf(v: DocView) -> bool {
    &&& v.offset % 5 == 0
    &&& 0 <= v.offset <= newline_count(v.text)
}

/// The documentation pane: the reference text and the scroll offset.
pub struct Documentation {
    pub text: String,
    pub offset: usize,
}

impl View for Documentation {
    type V = DocView;

    open spec fn view(&self) -> DocView {
        DocView { text: self.text@, offset: self.offset as int }
    }
}

/// Counts the newline characters of a string.
fn count_newlines(s: &String) -> (count: usize)
    ensures
        count == newline_count(s@),
{
    let st: &str = s.as_str();
    let n = st.unicode_len();
    let mut count: usize = 0;
    let mut i: usize = 0;
    proof {
        assert(s@.subrange(0, 0) =~= Seq::<char>::empty());
    }
    while i < n
        invariant
            n == s@.len(),
            st@ == s@,
            i <= n,
            count <= i,
            count == newline_count(s@.subrange(0, i as int)),
        decreases n - i,
    {
        let c = st.get_char(i);
        proof {
            let prefix = s@.subrange(0, i + 1);
            assert(prefix.drop_last() =~= s@.subrange(0, i as int));
            assert(prefix.last() == c);
        }
        if c == '\n' {
            count = count + 1;
        }
        i = i + 1;
    }
    proof {
        assert(s@.subrange(0, n as int) =~= s@);
    }
    count
}

impl Documentation {
    /// A fresh pane over the fetched reference text, scrolled to the top.
    /// Empty text is replaced by a visible sentinel, so the pane never
    /// shows blank content.
    pub fn new(text: String) -> (r: Documentation)
        ensures
            r@.text == if text@.len() == 0 {
                "No Documentation Available"@
            } else {
                text@
            },
            r@.offset == 0,
            doc_wf(r@),
    {
        let text = if text.as_str().is_empty() {
            String::from_str("No Documentation Available")
        } else {
            text
        };
        Documentation { text, offset: 0 }
    }

    /// The scroll offset: how many leading lines are hidden.
    pub fn offset(&self) -> (r: usize)
        ensures
            r == self@.offset,
    {
        self.offset
    }

    /// Scrolls five lines further into the text.  The step is taken only
    /// when the new offset would still lie strictly before the index of the
    /// last line; otherwise nothing moves.
    pub fn scroll_down(&mut self)
        requires
            doc_wf(old(self)@),
        ensures
            final(self)@.text == old(self)@.text,
            final(self)@.offset == scrolled_down(old(self)@.offset, newline_count(old(self)@.text)),
            doc_wf(final(self)@),
    {
        let newlines = count_newlines(&self.text);
        if self.offset < newlines && newlines - self.offset > 5 {
            self.offset = self.offset + 5;
        }
    }

    /// Scrolls five lines back, floored at the top of the text.
    pub fn scroll_up(&mut self)
        requires
            doc_wf(old(self)@),
        ensures
            final(self)@.text == old(self)@.text,
            final(self)@.offset == scrolled_up(old(self)@.offset),
            doc_wf(final(self)@),
    {
        if self.offset >= 5 {
            self.offset = self.offset - 5;
        } else {
            self.offset = 0;
        }
    }

    /// The text from the first visible line to the end.
    pub fn visible_text(&self) -> (r: String)
        requires
            doc_wf(self@),
        ensures
            r@ == drop_lines(self@.text, self@.offset as nat),
    {
        let st: &str = self.text.as_str();
        let n = st.unicode_len();
        let mut i: usize = 0;
        let mut seen: usize = 0;
        proof {
            assert(self.text@.subrange(0, n as int) =~= self.text@);
        }
        while i < n && seen < self.offset
            invariant
                n == self.text@.len(),
                st@ == self.text@,
                i <= n,
                seen <= self.offset,
                self.offset <= newline_count(self.text@),
                drop_lines(self.text@, self.offset as nat) == drop_lines(
                    self.text@.subrange(i as int, n as int),
                    (self.offset - seen) as nat,
                ),
            decreases n - i,
        {
            let ghost rest = self.text@.subrange(i as int, n as int);
            let c = st.get_char(i);
            proof {
                assert(rest[0] == c);
                assert(rest.drop_first() =~= self.text@.subrange(i + 1, n as int));
            }
            if c == '\n' {
                seen = seen + 1;
            }
            i = i + 1;
        }
        proof {
            if i == n && seen < self.offset {
                assert(self.text@.subrange(n as int, n as int) =~= Seq::<char>::empty());
            }
        }
        let tail: &str = st.substring_char(i, n);
        String::from_str(tail)
    }

    /// Answers one key press: control-d scrolls down, control-u scrolls up,
    /// anything else is ignored.
    pub fn handle_event(&mut self, key: Key, m: KeyModifier)
        requires
            doc_wf(old(self)@),
        ensures
            final(self)@.text == old(self)@.text,
            final(self)@.offset == doc_step(old(self)@, key, m),
            doc_wf(final(self)@),
    {
        match (key, m) {
            (Key::Char(c), KeyModifier::Control) => {
                if c == 'd' {
                    self.scroll_down();
                } else if c == 'u' {
                    self.scroll_up();
                }
            },
            _ => {},
        }
    }
}

/// The offset after one key press at the documentation pane.
pub open spec fn doc_step(v: DocView, key: Key, m: KeyModifier) -> int {
    match (key, m) {
        (Key::Char(c), KeyModifier::Control) => {
            if c == 'd' {
                scrolled_down(v.offset, newline_count(v.text))
            } else if c == 'u' {
                scrolled_up(v.offset)
            } else {
                v.offset
            }
        },
        _ => v.offset,
    }
}

/// Scrolling never leaves the text: every scroll step keeps the offset a
/// multiple of five between zero and the index of the last line, so any
/// sequence of scroll steps does too.
pub proof fn lemma_scroll_preserves_wf(v: DocView, key: Key, m: KeyModifier)
    requires
        doc_wf(v),
    ensures
        doc_wf(DocView { text: v.text, offset: doc_step(v, key, m) }),
{
}

} // verus!
