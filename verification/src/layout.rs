//! Which side panels are shown, and the line numbers beside a preview.
use crate::text::{chars_of, push_char, push_decimal, decimal};
use vstd::prelude::*;

verus! {

/// Which side panels are shown, and whether the window was last laid out
/// as narrow (`None` before the first layout).
pub struct PanelLayout {
    pub show_left_panel: bool,
    pub show_right_panel: bool,
    pub is_compact_mode: Option<bool>,
}

impl PanelLayout {
    /// Both panels shown, no layout yet.
    pub fn new() -> (res: Self)
        ensures
            res.show_left_panel,
            res.show_right_panel,
            res.is_compact_mode is None,
    {
        PanelLayout { show_left_panel: true, show_right_panel: true, is_compact_mode: None }
    }

    /// Lays the window out as narrow or wide. When that changes, narrow
    /// windows hide both panels and wide ones show both; otherwise the
    /// panels stay as the user left them.
    pub fn apply_width(&mut self, is_compact: bool)
        ensures
            final(self).is_compact_mode == Some(is_compact),
            old(self).is_compact_mode != Some(is_compact) ==> final(self).show_left_panel
                == !is_compact && final(self).show_right_panel == !is_compact,
            old(self).is_compact_mode == Some(is_compact) ==> final(self).show_left_panel
                == old(self).show_left_panel && final(self).show_right_panel
                == old(self).show_right_panel,
    {
        let changed = match self.is_compact_mode {
            Some(c) => c != is_compact,
            None => true,
        };
        if changed {
            self.is_compact_mode = Some(is_compact);
            self.show_left_panel = !is_compact;
            self.show_right_panel = !is_compact;
        }
    }

    /// After the tree toggle was clicked: in a narrow window, showing the
    /// tree hides the list.
    pub fn tree_toggled(&mut self, is_compact: bool)
        ensures
            final(self).show_left_panel == old(self).show_left_panel,
            final(self).is_compact_mode == old(self).is_compact_mode,
            final(self).show_right_panel == if is_compact && old(self).show_left_panel {
                false
            } else {
                old(self).show_right_panel
            },
    {
        if is_compact && self.show_left_panel {
            self.show_right_panel = false;
        }
    }

    /// After the list toggle was clicked: in a narrow window, showing the
    /// list hides the tree.
    pub fn list_toggled(&mut self, is_compact: bool)
        ensures
            final(self).show_right_panel == old(self).show_right_panel,
            final(self).is_compact_mode == old(self).is_compact_mode,
            final(self).show_left_panel == if is_compact && old(self).show_right_panel {
                false
            } else {
                old(self).show_left_panel
            },
    {
        if is_compact && self.show_right_panel {
            self.show_left_panel = false;
        }
    }
}

/// The number of lines `str::lines` yields for `s`: one for each position
/// that starts a line, the first one and each one right after a line break.
pub open spec fn line_count(s: Seq<char>) -> nat
    decreases s.len(),
{
    if s.len() == 0 {
        0
    } else {
        let before = s.drop_last();
        line_count(before) + if before.len() == 0 || before.last() == '\n' {
            1nat
        } else {
            0nat
        }
    }
}

/// The numbers `1` to `n`, one per line.
pub open spec fn numbered_lines(n: nat) -> Seq<char>
    decreases n,
{
    if n <= 1 {
        decimal(1)
    } else {
        numbered_lines((n - 1) as nat) + seq!['\n'] + decimal(n)
    }
}

/// The line numbers shown beside a preview that is not highlighted yet:
/// `1` to the number of lines of `text`, at least `1`, one per line.
pub fn line_numbers_text(text: &str) -> (res: String)
    ensures
        res@ == numbered_lines(line_count(text@)),
{
    let cs = chars_of(text);
    let mut count: u64 = 0;
    let n = cs.len();
    for i in 0..n
        invariant
            n == cs@.len(),
            count == line_count(cs@.take(i as int)),
            count <= i,
    {
        proof {
            assert(cs@.take(i + 1).drop_last() =~= cs@.take(i as int));
            assert(cs@.take(i + 1).last() == cs@[i as int]);
        }
        let starts_line = i == 0 || cs[i - 1] == '\n';
        proof {
            if i > 0 {
                assert(cs@.take(i as int).last() == cs@[i - 1]);
            }
        }
        if starts_line {
            count = count + 1;
        }
    }
    assert(cs@.take(n as int) =~= cs@);
    let total = if count == 0 {
        1
    } else {
        count
    };
    let mut res = String::new();
    push_decimal(&mut res, 1);
    let mut k: u64 = 1;
    while k < total
        invariant
            1 <= k <= total,
            res@ == numbered_lines(k as nat),
        decreases total - k,
    {
        k = k + 1;
        push_char(&mut res, '\n');
        push_decimal(&mut res, k);
    }
    proof {
        if count == 0 {
            assert(numbered_lines(1) == numbered_lines(0));
        }
    }
    res
}

} // verus!
