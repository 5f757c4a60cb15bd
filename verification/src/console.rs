//! The server console buffer behind `GetConsoleBuffer` and `print`.
//!
//! `GetConsoleBuffer` returns what the *server* printed, not what the calling resource
//! printed, so every runtime writes into the same buffer.
use crate::text::joined3;
use vstd::prelude::*;
use vstd::string::StringExecFns;

verus! {

/// Lines retained for `GetConsoleBuffer`. Bounded: the buffer is a debugging
/// convenience, and a chatty resource must not turn it into a memory leak.
pub const CONSOLE_BUFFER_LINES: usize = 512;

/// One line of a resource's output.
pub open spec fn console_line(resource: Seq<char>, msg: Seq<char>) -> Seq<char> {
    "["@ + resource + "] "@ + msg
}

/// The lines after one more; the oldest makes room.
pub open spec fn logged(lines: Seq<Seq<char>>, line: Seq<char>) -> Seq<Seq<char>> {
    (if lines.len() == CONSOLE_BUFFER_LINES {
        lines.skip(1)
    } else {
        lines
    }).push(line)
}

/// Lines with line feeds between them.
pub open spec fn lines_text(lines: Seq<Seq<char>>) -> Seq<char>
    decreases lines.len(),
{
    if lines.len() == 0 {
        Seq::empty()
    } else if lines.len() == 1 {
        lines[0]
    } else {
        lines_text(lines.drop_last()) + "\n"@ + lines.last()
    }
}

/// Recent console output, oldest first.
#[derive(Debug)]
pub struct ConsoleBuffer {
    lines: Vec<String>,
}

impl View for ConsoleBuffer {
    type V = Seq<Seq<char>>;

    closed spec fn view(&self) -> Seq<Seq<char>> {
        crate::engine::texts(self.lines@)
    }
}

impl ConsoleBuffer {
    pub closed spec fn wf(&self) -> bool {
        self.lines@.len() <= CONSOLE_BUFFER_LINES
    }

    pub fn new() -> (buffer: Self)
        ensures
            buffer.wf(),
            buffer@ == Seq::<Seq<char>>::empty(),
    {
        let buffer = ConsoleBuffer { lines: Vec::new() };
        assert(buffer@ =~= Seq::<Seq<char>>::empty());
        buffer
    }

    /// Record one line of resource output.
    pub fn log(&mut self, resource: &str, msg: &str)
        requires
            old(self).wf(),
        ensures
            final(self).wf(),
            final(self)@ == logged(old(self)@, console_line(resource@, msg@)),
    {
        let mut line = joined3("[", resource, "] ");
        line.append(msg);
        let ghost text = line@;
        let ghost before = self@;
        if self.lines.len() == CONSOLE_BUFFER_LINES {
            self.lines.remove(0);
            assert(self@ =~= before.skip(1));
        }
        let ghost room = self@;
        self.lines.push(line);
        assert(self@ =~= room.push(text));
    }

    /// The retained console output as one text.
    pub fn text(&self) -> (text: String)
        ensures
            text@ == lines_text(self@),
    {
        let ghost all = self@;
        let mut text = String::new();
        let mut i: usize = 0;
        assert(text@ =~= lines_text(all.take(0)));
        while i < self.lines.len()
            invariant
                i <= self.lines@.len() == all.len(),
                all == self@,
                text@ == lines_text(all.take(i as int)),
            decreases self.lines@.len() - i,
        {
            let ghost before = text@;
            if i > 0 {
                text.append("\n");
            }
            text.append(self.lines[i].as_str());
            proof {
                assert(all.take(i + 1).drop_last() =~= all.take(i as int));
                assert(all.take(i + 1).last() == self.lines@[i as int]@);
                if i == 0 {
                    assert(before =~= Seq::empty());
                    assert(text@ =~= all.take(1)[0]);
                }
            }
            i = i + 1;
        }
        assert(all.take(i as int) =~= all);
        text
    }
}

/// The buffer stays bounded.
pub proof fn console_stays_bounded(lines: Seq<Seq<char>>, line: Seq<char>)
    requires
        lines.len() <= CONSOLE_BUFFER_LINES,
    ensures
        logged(lines, line).len() <= CONSOLE_BUFFER_LINES,
        logged(lines, line).last() == line,
{
}

} // verus!
