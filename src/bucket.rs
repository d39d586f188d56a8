use vstd::prelude::*;

use crate::line::Line;

verus! {

/// A counter that stops at the largest `usize` instead of wrapping.
pub open spec fn bump(n: nat) -> nat {
    if n < usize::MAX {
        n + 1
    } else {
        n
    }
}

/// The mathematical content of a [`Bucket`].
pub struct BucketView {
    pub lines: Seq<Line>,
    pub new_messages: nat,
    pub new_errors: nat,
    pub scroll: Option<nat>,
}

impl BucketView {
    pub open spec fn empty() -> BucketView {
        BucketView { lines: Seq::empty(), new_messages: 0, new_errors: 0, scroll: None }
    }

    pub open spec fn appended(self, l: Line) -> BucketView {
        BucketView {
            lines: self.lines.push(l),
            new_messages: bump(self.new_messages),
            new_errors: if l.has_error {
                bump(self.new_errors)
            } else {
                self.new_errors
            },
            scroll: self.scroll,
        }
    }

    /// Index of the first line of a window of `count` lines.
    pub open spec fn window_start(self, count: nat) -> nat {
        match self.scroll {
            Some(s) => s,
            None => if self.lines.len() >= count {
                (self.lines.len() - count) as nat
            } else {
                0
            },
        }
    }

    /// The lines that a read of `count` lines returns, oldest first.
    pub open spec fn window(self, count: nat) -> Seq<Line> {
        let len = self.lines.len();
        let skip = self.window_start(count);
        let start = if skip < len {
            skip
        } else {
            len
        };
        let end = if skip + count < len {
            skip + count
        } else {
            len
        };
        self.lines.subrange(start as int, end as int)
    }

    /// The state after a read: both unread counters are zero.
    pub open spec fn acknowledged(self) -> BucketView {
        BucketView { lines: self.lines, new_messages: 0, new_errors: 0, scroll: self.scroll }
    }

    /// The number of lines above a window of `height` lines.
    pub open spec fn older(self, height: nat) -> nat {
        match self.scroll {
            Some(s) => if self.lines.len() > s + height {
                (self.lines.len() - s - height) as nat
            } else {
                0
            },
            None => 0,
        }
    }

    pub open spec fn scrolled_up(self, height: nat) -> BucketView {
        if self.lines.len() < height + 1 {
            self
        } else {
            BucketView {
                lines: self.lines,
                new_messages: self.new_messages,
                new_errors: self.new_errors,
                scroll: Some(
                    match self.scroll {
                        Some(s) => if s == 0 {
                            0
                        } else {
                            (s - 1) as nat
                        },
                        None => (self.lines.len() - height - 1) as nat,
                    },
                ),
            }
        }
    }

    pub open spec fn scrolled_down(self, height: nat) -> BucketView {
        BucketView {
            lines: self.lines,
            new_messages: self.new_messages,
            new_errors: self.new_errors,
            scroll: match self.scroll {
                Some(s) => if s + 1 + height >= self.lines.len() {
                    None
                } else {
                    Some(s + 1)
                },
                None => None,
            },
        }
    }

    pub open spec fn with_lines(self, lines: Seq<Line>) -> BucketView {
        BucketView {
            lines,
            new_messages: self.new_messages,
            new_errors: self.new_errors,
            scroll: self.scroll,
        }
    }

    pub open spec fn with_scroll(self, scroll: Option<nat>) -> BucketView {
        BucketView {
            lines: self.lines,
            new_messages: self.new_messages,
            new_errors: self.new_errors,
            scroll,
        }
    }
}

/// An append-only log of lines with a scrollable read window and counters of
/// the lines that arrived since the window was last read.
#[derive(Clone, Debug)]
pub struct Bucket {
    pub messages: Vec<Line>,
    pub new_messages: usize,
    pub new_errors: usize,
    pub scroll: Option<usize>,
}

impl View for Bucket {
    type V = BucketView;

    open spec fn view(&self) -> BucketView {
        BucketView {
            lines: self.messages@,
            new_messages: self.new_messages as nat,
            new_errors: self.new_errors as nat,
            scroll: match self.scroll {
                Some(s) => Some(s as nat),
                None => None,
            },
        }
    }
}

impl Bucket {
    pub fn new() -> (r: Bucket)
        ensures
            r@ == BucketView::empty(),
    {
        Bucket { messages: Vec::new(), new_messages: 0, new_errors: 0, scroll: None }
    }

    pub fn from_messages(messages: Vec<Line>) -> (r: Bucket)
        ensures
            r@ == BucketView::empty().with_lines(messages@),
    {
        Bucket { messages, new_messages: 0, new_errors: 0, scroll: None }
    }

    pub fn get_all_messages(&self) -> (r: &Vec<Line>)
        ensures
            r@ == self@.lines,
    {
        &self.messages
    }

    pub fn add_message(&mut self, message: Line)
        ensures
            final(self)@ == old(self)@.appended(message),
    {
        if message.has_error && self.new_errors < usize::MAX {
            self.new_errors = self.new_errors + 1;
        }
        if self.new_messages < usize::MAX {
            self.new_messages = self.new_messages + 1;
        }
        self.messages.push(message);
    }

    pub fn get_older(&self, height: usize) -> (r: usize)
        ensures
            r as nat == self@.older(height as nat),
    {
        match self.scroll {
            Some(s) => {
                let len = self.messages.len();
                if s < len && len - s > height {
                    len - s - height
                } else {
                    0
                }
            },
            None => 0,
        }
    }

    /// Returns the current window of at most `count` lines and acknowledges
    /// the bucket: both unread counters drop to zero.
    pub fn get_messages(&mut self, count: usize) -> (r: Vec<Line>)
        ensures
            r@ == old(self)@.window(count as nat),
            final(self)@ == old(self)@.acknowledged(),
    {
        self.new_messages = 0;
        self.new_errors = 0;
        let len = self.messages.len();
        let skip: usize = match self.scroll {
            Some(s) => s,
            None => if len >= count {
                len - count
            } else {
                0
            },
        };
        let start: usize = if skip < len {
            skip
        } else {
            len
        };
        let end: usize = if skip < len && count < len - skip {
            skip + count
        } else {
            len
        };
        let mut out: Vec<Line> = Vec::new();
        let mut i: usize = start;
        while i < end
            invariant
                start <= i <= end <= self.messages@.len(),
                out@ == self.messages@.subrange(start as int, i as int),
            decreases end - i,
        {
            out.push(self.messages[i].duplicate());
            i = i + 1;
        }
        assert(out@ =~= self.messages@.subrange(start as int, end as int));
        out
    }

    pub fn scroll_up(&mut self, height: usize)
        ensures
            final(self)@ == old(self)@.scrolled_up(height as nat),
    {
        let len = self.messages.len();
        if len <= height {
            return;
        }
        self.scroll = match self.scroll {
            Some(s) => if s == 0 {
                Some(0)
            } else {
                Some(s - 1)
            },
            None => Some(len - height - 1),
        };
    }

    pub fn scroll_down(&mut self, height: usize)
        ensures
            final(self)@ == old(self)@.scrolled_down(height as nat),
    {
        let len = self.messages.len();
        self.scroll = match self.scroll {
            Some(s) => if height >= len || s >= len - height - 1 {
                None
            } else {
                Some(s + 1)
            },
            None => None,
        };
    }

    pub fn scroll_reset(&mut self)
        ensures
            final(self)@ == old(self)@.with_scroll(None),
    {
        self.scroll = None;
    }

    /// Drops every line and zeroes both counters; the window returns to the
    /// newest lines.
    pub fn clear_all_messages(&mut self)
        ensures
            final(self)@ == BucketView::empty(),
    {
        self.messages.clear();
        self.new_messages = 0;
        self.new_errors = 0;
        self.scroll = None;
    }
}

/// The bucket after appending `lines` in order.
pub open spec fn appended_all(b: BucketView, lines: Seq<Line>) -> BucketView
    decreases lines.len(),
{
    if lines.len() == 0 {
        b
    } else {
        appended_all(b, lines.drop_last()).appended(lines.last())
    }
}

/// How many of `lines` are flagged as error-like.
pub open spec fn error_count(lines: Seq<Line>) -> nat
    decreases lines.len(),
{
    if lines.len() == 0 {
        0
    } else {
        error_count(lines.drop_last()) + if lines.last().has_error {
            1nat
        } else {
            0nat
        }
    }
}

/// `k` successive upward scrolls.
pub open spec fn scrolled_up_times(b: BucketView, height: nat, k: nat) -> BucketView
    decreases k,
{
    if k == 0 {
        b
    } else {
        scrolled_up_times(b, height, (k - 1) as nat).scrolled_up(height)
    }
}

/// `k` successive downward scrolls.
pub open spec fn scrolled_down_times(b: BucketView, height: nat, k: nat) -> BucketView
    decreases k,
{
    if k == 0 {
        b
    } else {
        scrolled_down_times(b, height, (k - 1) as nat).scrolled_down(height)
    }
}

/// After any sequence of appends to an acknowledged bucket, the unread
/// counter equals the number of lines appended and the error counter the
/// number of error-like ones among them; a read then zeroes both.
pub proof fn lemma_unread_counts(b: BucketView, lines: Seq<Line>)
    requires
        b.new_messages == 0,
        b.new_errors == 0,
        lines.len() <= usize::MAX,
    ensures
        appended_all(b, lines).new_messages == lines.len(),
        appended_all(b, lines).new_errors == error_count(lines),
        appended_all(b, lines).lines == b.lines + lines,
        appended_all(b, lines).acknowledged().new_messages == 0,
        appended_all(b, lines).acknowledged().new_errors == 0,
    decreases lines.len(),
{
    if lines.len() > 0 {
        lemma_unread_counts(b, lines.drop_last());
        lemma_error_count_bounded(lines.drop_last());
        assert(b.lines + lines.drop_last().push(lines.last()) =~= b.lines + lines);
        assert(lines.drop_last().push(lines.last()) =~= lines);
    } else {
        assert(b.lines + lines =~= b.lines);
    }
}

/// Never more error-like lines than lines.
pub proof fn lemma_error_count_bounded(lines: Seq<Line>)
    ensures
        error_count(lines) <= lines.len(),
    decreases lines.len(),
{
    if lines.len() > 0 {
        lemma_error_count_bounded(lines.drop_last());
    }
}

/// With no more lines than the viewport holds, scrolling up changes nothing.
pub proof fn lemma_scroll_up_short(b: BucketView, height: nat)
    requires
        b.lines.len() <= height,
    ensures
        b.scrolled_up(height) == b,
{
}

/// From the live tail of a bucket longer than the viewport, `k` upward
/// scrolls leave the offset `len - height - 1` lowered by `k - 1`, never
/// below zero: the offset falls one step at a time to exactly zero and stays
/// there.
pub proof fn lemma_scroll_up_to_top(b: BucketView, height: nat, k: nat)
    requires
        b.scroll is None,
        b.lines.len() > height,
        k >= 1,
    ensures
        scrolled_up_times(b, height, k).lines == b.lines,
        scrolled_up_times(b, height, k).scroll == Some(
            if k - 1 <= b.lines.len() - height - 1 {
                (b.lines.len() - height - 1 - (k - 1)) as nat
            } else {
                0nat
            },
        ),
    decreases k,
{
    if k > 1 {
        lemma_scroll_up_to_top(b, height, (k - 1) as nat);
    } else {
        assert(scrolled_up_times(b, height, 0) == b);
    }
}

/// From offset zero, `k` downward scrolls give offset `k` while
/// `k + height` stays below the length, and the live tail (no offset) from
/// the first scroll whose new offset `o` has `o + height >= len`: the bucket
/// is never left scrolled at such an offset.
pub proof fn lemma_scroll_down_to_tail(b: BucketView, height: nat, k: nat)
    requires
        b.scroll == Some(0nat),
        k >= 1,
    ensures
        scrolled_down_times(b, height, k).lines == b.lines,
        scrolled_down_times(b, height, k).scroll == if k + height < b.lines.len() {
            Some(k)
        } else {
            None
        },
    decreases k,
{
    if k > 1 {
        lemma_scroll_down_to_tail(b, height, (k - 1) as nat);
    } else {
        assert(scrolled_down_times(b, height, 0) == b);
    }
}

} // verus!
