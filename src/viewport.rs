//! The cursor and the scroll offset over a document of a known length.

use vstd::prelude::*;

verus! {

/// A navigation command or a change of the document's size.
#[derive(Debug, Clone, Copy, PartialEq, Eq)]
pub enum NavCommand {
    Down(usize),
    Up(usize),
    HalfPageDown,
    HalfPageUp,
    PageDown,
    PageUp,
    Start,
    End,
    SetLines(usize),
    SetHeight(usize),
}

/// The cursor line, the first visible line, whether the view follows the
/// bottom, and the document and viewport heights it was last told.
#[derive(Debug, Clone, Copy, PartialEq, Eq)]
pub struct Viewport {
    pub cursor_line: usize,
    pub scroll: usize,
    pub follow_bottom: bool,
    pub total_lines: usize,
    pub height: usize,
}

/// The largest scroll offset: `max(0, total - height)`.
pub open spec fn max_scroll(total: nat, height: nat) -> nat {
    if total > height {
        (total - height) as nat
    } else {
        0
    }
}

/// The last line, or 0 in an empty document.
pub open spec fn last_line(total: nat) -> nat {
    if total > 0 {
        (total - 1) as nat
    } else {
        0
    }
}

/// `c` brought into the document's lines.
pub open spec fn clamp_line(c: int, total: nat) -> nat {
    if c <= 0 {
        0
    } else if c >= total {
        last_line(total)
    } else {
        c as nat
    }
}

pub open spec fn half_page(height: nat) -> nat {
    if height / 2 > 0 {
        height / 2
    } else {
        1
    }
}

pub open spec fn full_page(height: nat) -> nat {
    if height > 0 {
        height
    } else {
        1
    }
}

impl Viewport {
    /// The cursor is on a line of the document (0 when it is empty), the
    /// scroll offset is at most the largest, and following the bottom keeps
    /// both at the end.
    pub open spec fn wf(self) -> bool {
        &&& (if self.total_lines > 0 {
            self.cursor_line < self.total_lines
        } else {
            self.cursor_line == 0
        })
        &&& self.scroll <= max_scroll(self.total_lines as nat, self.height as nat)
        &&& self.follow_bottom ==> self.scroll == max_scroll(
            self.total_lines as nat,
            self.height as nat,
        ) && self.cursor_line == last_line(self.total_lines as nat)
    }

    /// The view after moving the cursor to `c`: the scroll offset moves just
    /// enough to show it, and the view stops following the bottom.
    pub open spec fn moved_to(self, c: nat) -> Viewport {
        let t = self.total_lines as nat;
        let h = self.height as nat;
        let s = if c < self.scroll {
            c
        } else if h > 0 && c >= self.scroll + h {
            (c + 1 - h) as nat
        } else {
            self.scroll as nat
        };
        let s2 = if s > max_scroll(t, h) {
            max_scroll(t, h)
        } else {
            s
        };
        Viewport { cursor_line: c as usize, scroll: s2 as usize, follow_bottom: false, ..self }
    }

    /// The view once the document or viewport has new heights: a following
    /// view stays at the bottom; another keeps its scroll offset where it can,
    /// and scrolls only as far as it takes to keep the cursor in view.
    pub open spec fn resized(self, total: nat, height: nat) -> Viewport {
        let m = max_scroll(total, height);
        if self.follow_bottom {
            Viewport {
                cursor_line: last_line(total) as usize,
                scroll: m as usize,
                follow_bottom: true,
                total_lines: total as usize,
                height: height as usize,
            }
        } else {
            let c = clamp_line(self.cursor_line as int, total);
            let s1 = if self.scroll > m {
                m
            } else {
                self.scroll as nat
            };
            let s2 = if c < s1 {
                c
            } else if height > 0 && c >= s1 + height {
                (c + 1 - height) as nat
            } else {
                s1
            };
            Viewport {
                cursor_line: c as usize,
                scroll: s2 as usize,
                follow_bottom: false,
                total_lines: total as usize,
                height: height as usize,
            }
        }
    }

    /// The cursor line is on screen: within `height` lines from the scroll offset.
    pub open spec fn cursor_visible(self) -> bool {
        self.total_lines > 0 && self.height > 0 ==> self.scroll <= self.cursor_line < self.scroll
            + self.height
    }

    /// What each command does.
    pub open spec fn step(self, cmd: NavCommand) -> Viewport {
        let t = self.total_lines as nat;
        let h = self.height as nat;
        let c = self.cursor_line as int;
        match cmd {
            NavCommand::Down(n) => self.moved_to(clamp_line(c + n, t)),
            NavCommand::Up(n) => self.moved_to(clamp_line(c - n, t)),
            NavCommand::HalfPageDown => self.moved_to(clamp_line(c + half_page(h), t)),
            NavCommand::HalfPageUp => self.moved_to(clamp_line(c - half_page(h), t)),
            NavCommand::PageDown => self.moved_to(clamp_line(c + full_page(h), t)),
            NavCommand::PageUp => self.moved_to(clamp_line(c - full_page(h), t)),
            NavCommand::Start => self.moved_to(0),
            NavCommand::End => Viewport {
                cursor_line: last_line(t) as usize,
                scroll: max_scroll(t, h) as usize,
                follow_bottom: true,
                ..self
            },
            NavCommand::SetLines(n) => self.resized(n as nat, h),
            NavCommand::SetHeight(n) => self.resized(t, n as nat),
        }
    }

    /// An empty document that follows the bottom.
    pub fn new(height: usize) -> (r: Viewport)
        ensures
            r == (Viewport { cursor_line: 0, scroll: 0, follow_bottom: true, total_lines: 0, height }),
            r.wf(),
    {
        Viewport { cursor_line: 0, scroll: 0, follow_bottom: true, total_lines: 0, height }
    }

    pub fn max_scroll(&self) -> (r: usize)
        ensures
            r == max_scroll(self.total_lines as nat, self.height as nat),
    {
        if self.total_lines > self.height {
            self.total_lines - self.height
        } else {
            0
        }
    }

    fn last_line(total: usize) -> (r: usize)
        ensures
            r == last_line(total as nat),
    {
        if total > 0 {
            total - 1
        } else {
            0
        }
    }

    fn move_to(&mut self, c: usize)
        requires
            c <= last_line(old(self).total_lines as nat),
        ensures
            *final(self) == old(self).moved_to(c as nat),
    {
        let m = self.max_scroll();
        let s = if c < self.scroll {
            c
        } else if self.height > 0 && c - self.scroll >= self.height {
            c + 1 - self.height
        } else {
            self.scroll
        };
        self.cursor_line = c;
        self.scroll = if s > m {
            m
        } else {
            s
        };
        self.follow_bottom = false;
    }

    fn target_down(&self, n: usize) -> (r: usize)
        ensures
            r == clamp_line(self.cursor_line + n, self.total_lines as nat),
    {
        if self.total_lines == 0 {
            0
        } else if n >= self.total_lines || self.cursor_line >= self.total_lines - n {
            self.total_lines - 1
        } else {
            self.cursor_line + n
        }
    }

    fn target_up(&self, n: usize) -> (r: usize)
        ensures
            r == clamp_line(self.cursor_line - n, self.total_lines as nat),
    {
        if n >= self.cursor_line {
            0
        } else if self.cursor_line - n >= self.total_lines {
            Self::last_line(self.total_lines)
        } else {
            self.cursor_line - n
        }
    }

    /// Applies one command.
    pub fn apply(&mut self, cmd: NavCommand)
        ensures
            *final(self) == old(self).step(cmd),
    {
        let half = if self.height / 2 > 0 {
            self.height / 2
        } else {
            1
        };
        let page = if self.height > 0 {
            self.height
        } else {
            1
        };
        match cmd {
            NavCommand::Down(n) => {
                let c = self.target_down(n);
                self.move_to(c);
            },
            NavCommand::Up(n) => {
                let c = self.target_up(n);
                self.move_to(c);
            },
            NavCommand::HalfPageDown => {
                let c = self.target_down(half);
                self.move_to(c);
            },
            NavCommand::HalfPageUp => {
                let c = self.target_up(half);
                self.move_to(c);
            },
            NavCommand::PageDown => {
                let c = self.target_down(page);
                self.move_to(c);
            },
            NavCommand::PageUp => {
                let c = self.target_up(page);
                self.move_to(c);
            },
            NavCommand::Start => self.move_to(0),
            NavCommand::End => {
                self.cursor_line = Self::last_line(self.total_lines);
                self.scroll = self.max_scroll();
                self.follow_bottom = true;
            },
            NavCommand::SetLines(n) => self.resize(n, self.height),
            NavCommand::SetHeight(n) => self.resize(self.total_lines, n),
        }
    }

    fn resize(&mut self, total: usize, height: usize)
        ensures
            *final(self) == old(self).resized(total as nat, height as nat),
    {
        self.total_lines = total;
        self.height = height;
        let m = self.max_scroll();
        if self.follow_bottom {
            self.cursor_line = Self::last_line(total);
            self.scroll = m;
        } else {
            if self.cursor_line >= total {
                self.cursor_line = Self::last_line(total);
            }
            if self.scroll > m {
                self.scroll = m;
            }
            let c = self.cursor_line;
            if c < self.scroll {
                self.scroll = c;
            } else if height > 0 && c - self.scroll >= height {
                self.scroll = c + 1 - height;
            }
        }
    }
}

/// A resized view is well formed and shows its cursor, whatever it was before.
pub proof fn lemma_resized_visible(v: Viewport, total: usize, height: usize)
    ensures
        v.resized(total as nat, height as nat).wf(),
        v.resized(total as nat, height as nat).cursor_visible(),
{
}

/// The views that a run of commands passes through, the first one included.
pub open spec fn run(v: Viewport, cmds: Seq<NavCommand>) -> Viewport
    decreases cmds.len(),
{
    if cmds.len() == 0 {
        v
    } else {
        run(v, cmds.drop_last()).step(cmds.last())
    }
}

proof fn lemma_moved_wf(v: Viewport, c: nat)
    requires
        v.wf(),
        c <= last_line(v.total_lines as nat),
    ensures
        v.moved_to(c).wf(),
{
}

proof fn lemma_resized_wf(v: Viewport, total: usize, height: usize)
    requires
        v.wf(),
    ensures
        v.resized(total as nat, height as nat).wf(),
{
}

proof fn lemma_clamp_line(c: int, total: nat)
    ensures
        clamp_line(c, total) <= last_line(total),
{
}

/// Every command keeps a well-formed view well formed.
pub proof fn lemma_step_wf(v: Viewport, cmd: NavCommand)
    requires
        v.wf(),
    ensures
        v.step(cmd).wf(),
{
    let t = v.total_lines as nat;
    let h = v.height as nat;
    let c = v.cursor_line as int;
    match cmd {
        NavCommand::Down(n) => {
            lemma_clamp_line(c + n, t);
            lemma_moved_wf(v, clamp_line(c + n, t));
        },
        NavCommand::Up(n) => {
            lemma_clamp_line(c - n, t);
            lemma_moved_wf(v, clamp_line(c - n, t));
        },
        NavCommand::HalfPageDown => {
            lemma_clamp_line(c + half_page(h), t);
            lemma_moved_wf(v, clamp_line(c + half_page(h), t));
        },
        NavCommand::HalfPageUp => {
            lemma_clamp_line(c - half_page(h), t);
            lemma_moved_wf(v, clamp_line(c - half_page(h), t));
        },
        NavCommand::PageDown => {
            lemma_clamp_line(c + full_page(h), t);
            lemma_moved_wf(v, clamp_line(c + full_page(h), t));
        },
        NavCommand::PageUp => {
            lemma_clamp_line(c - full_page(h), t);
            lemma_moved_wf(v, clamp_line(c - full_page(h), t));
        },
        NavCommand::Start => lemma_moved_wf(v, 0),
        NavCommand::End => {},
        NavCommand::SetLines(n) => lemma_resized_wf(v, n, v.height),
        NavCommand::SetHeight(n) => lemma_resized_wf(v, v.total_lines, n),
    }
}

/// Cursor invariant: after any sequence of navigation commands and changes of
/// the document's size, the cursor stays on a line of the document (on line 0
/// of an empty one) and the scroll offset within its bounds.
pub proof fn lemma_cursor_invariant(v: Viewport, cmds: Seq<NavCommand>)
    requires
        v.wf(),
    ensures
        forall|i: int| 0 <= i <= cmds.len() ==> (#[trigger] run(v, cmds.take(i))).wf(),
    decreases cmds.len(),
{
    if cmds.len() > 0 {
        let init = cmds.drop_last();
        lemma_cursor_invariant(v, init);
        assert forall|i: int| 0 <= i <= cmds.len() implies (#[trigger] run(v, cmds.take(i))).wf() by {
            if i < cmds.len() {
                assert(cmds.take(i) =~= init.take(i));
            } else {
                assert(cmds.take(i) =~= cmds);
                assert(init.take(init.len() as int) =~= init);
                lemma_step_wf(run(v, init), cmds.last());
            }
        }
    } else {
        assert(cmds.take(0) =~= cmds);
    }
}

} // verus!
