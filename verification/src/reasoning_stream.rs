//! Reasoning as it streams in: deltas gather in a buffer, a section break
//! closes the buffer as one part, and the end of the reasoning hands all
//! parts over as one summary block. The first bold text of the current
//! section becomes the status header.

use vstd::prelude::*;
use crate::chat_helpers::{extract_first_bold, first_bold};
use crate::status::TerminalTitleStatusKind;
use crate::text::push_str_chars;

verus! {

/// The reasoning of the running turn that has not gone to the history.
#[derive(Debug)]
pub struct ReasoningStream {
    /// The current section.
    pub buffer: String,
    /// The closed sections.
    pub summary_parts: Vec<String>,
    /// The header of the current section, once found.
    pub header: Option<String>,
}

/// The texts of parts, joined.
pub open spec fn joined_parts(parts: Seq<String>) -> Seq<char>
    decreases parts.len(),
{
    if parts.len() == 0 {
        Seq::empty()
    } else {
        joined_parts(parts.drop_last()) + parts.last()@
    }
}

/// The optional header as characters.
pub open spec fn header_view(h: Option<String>) -> Option<Seq<char>> {
    match h {
        Some(s) => Some(s@),
        None => None,
    }
}

impl ReasoningStream {
    /// No part is empty.
    pub open spec fn wf(&self) -> bool {
        forall|i: int| 0 <= i < self.summary_parts@.len() ==> (#[trigger] self.summary_parts@[i])@.len() > 0
    }

    /// All reasoning text not yet handed over, in order.
    pub open spec fn text(&self) -> Seq<char> {
        joined_parts(self.summary_parts@) + self.buffer@
    }

    /// No reasoning yet.
    pub fn new() -> (s: Self)
        ensures
            s.wf(),
            s.buffer@.len() == 0,
            s.summary_parts@.len() == 0,
            s.text().len() == 0,
            s.header is None,
    {
        let s = ReasoningStream { buffer: String::new(), summary_parts: Vec::new(), header: None };
        proof {
            assert(s.text() =~= Seq::<char>::empty());
        }
        s
    }

    /// Adds a reasoning delta. Unless something else holds the status header
    /// (a safety hold, a wait on a background terminal), the section's
    /// header is looked for once more and returned where known.
    pub fn on_agent_reasoning_delta(&mut self, delta: &str, header_held: bool) -> (shown: Option<String>)
        requires
            old(self).wf(),
        ensures
            final(self).wf(),
            final(self).buffer@ == old(self).buffer@ + delta@,
            final(self).summary_parts@ == old(self).summary_parts@,
            final(self).text() == old(self).text() + delta@,
            header_held ==> shown is None && final(self).header == old(self).header,
            !header_held ==> {
                &&& header_view(final(self).header) == (if old(self).header is Some {
                    header_view(old(self).header)
                } else {
                    first_bold(final(self).buffer@)
                })
                &&& header_view(shown) == header_view(final(self).header)
            },
    {
        push_str_chars(&mut self.buffer, delta);
        proof {
            assert(self.text() =~= old(self).text() + delta@);
        }
        if header_held {
            return None;
        }
        if self.header.is_none() {
            self.header = extract_first_bold(self.buffer.as_str());
        }
        match &self.header {
            Some(h) => Some(h.clone()),
            None => None,
        }
    }

    /// Closes the current section: its text becomes a part, and the next
    /// section looks for its own header.
    pub fn on_reasoning_section_break(&mut self)
        requires
            old(self).wf(),
        ensures
            final(self).wf(),
            final(self).text() == old(self).text(),
            final(self).buffer@.len() == 0,
            final(self).summary_parts@.len() == old(self).summary_parts@.len() + if old(self).buffer@.len() > 0 { 1int } else { 0 },
            final(self).header is None,
    {
        if self.buffer.as_str().unicode_len() > 0 {
            let mut part = String::new();
            std::mem::swap(&mut part, &mut self.buffer);
            let ghost before = self.summary_parts@;
            self.summary_parts.push(part);
            proof {
                assert(self.summary_parts@.drop_last() =~= before);
            }
        }
        proof {
            assert(self.text() =~= old(self).text());
        }
        self.header = None;
    }

    /// Ends the reasoning: the parts for the summary block, where there is
    /// any text, and a fresh stream.
    pub fn on_agent_reasoning_final(&mut self) -> (block: Option<Vec<String>>)
        requires
            old(self).wf(),
        ensures
            final(self).wf(),
            final(self).text().len() == 0,
            final(self).header is None,
            match block {
                Some(parts) => old(self).text().len() > 0 && joined_parts(parts@) == old(self).text(),
                None => old(self).text().len() == 0,
            },
    {
        self.on_reasoning_section_break();
        proof {
            lemma_joined_parts_empty(self.summary_parts@);
        }
        let mut parts: Vec<String> = Vec::new();
        std::mem::swap(&mut parts, &mut self.summary_parts);
        proof {
            assert(self.text() =~= Seq::<char>::empty());
        }
        if parts.len() > 0 {
            Some(parts)
        } else {
            None
        }
    }

    /// The status header to restore after other output: the section's
    /// header (looked for once more) while thinking, else `Working` while a
    /// task runs.
    pub fn restore_reasoning_status_header(&mut self, task_running: bool) -> (r: Option<(TerminalTitleStatusKind, String)>)
        requires
            old(self).wf(),
        ensures
            final(self).wf(),
            final(self).buffer == old(self).buffer,
            final(self).summary_parts == old(self).summary_parts,
            header_view(final(self).header) == (if old(self).header is Some {
                header_view(old(self).header)
            } else {
                first_bold(old(self).buffer@)
            }),
            match r {
                Some((kind, h)) => match header_view(final(self).header) {
                    Some(t) => kind == TerminalTitleStatusKind::Thinking && h@ == t,
                    None => task_running && kind == TerminalTitleStatusKind::Working && h@ == "Working"@,
                },
                None => final(self).header is None && !task_running,
            },
    {
        proof {
            reveal_strlit("Working");
        }
        if self.header.is_none() {
            self.header = extract_first_bold(self.buffer.as_str());
        }
        match &self.header {
            Some(h) => Some((TerminalTitleStatusKind::Thinking, h.clone())),
            None => if task_running {
                Some((TerminalTitleStatusKind::Working, String::from_str("Working")))
            } else {
                None
            },
        }
    }
}

/// Parts none of which is empty join to empty text only when there are
/// none.
proof fn lemma_joined_parts_empty(parts: Seq<String>)
    requires
        forall|i: int| 0 <= i < parts.len() ==> (#[trigger] parts[i])@.len() > 0,
    ensures
        joined_parts(parts).len() == 0 <==> parts.len() == 0,
    decreases parts.len(),
{
    if parts.len() > 0 {
        lemma_joined_parts_empty(parts.drop_last());
    }
}

} // verus!
