//! The console panel's log.

use vstd::prelude::*;
use vstd::string::*;
use crate::text::{
    join, join_seq, keep_last, lemma_lines_newline_free, lemma_lines_of_join, lines, lines_seq,
    no_newline,
};

verus! {

/// How many lines the console keeps.
pub const MAX_LINES: usize = 500;

/// The console panel: one text log.
pub struct ConsoleWindow {
    pub log: String,
}

/// The log after `entry` is added to `log`: the lines of the log, then the
/// entry, of which only the last `MAX_LINES` are kept, joined with `'\n'`.
pub open spec fn log_after(log: Seq<char>, entry: Seq<char>) -> Seq<char> {
    join_seq(keep_last(lines_seq(log).push(entry), MAX_LINES as nat), seq!['\n'])
}

impl ConsoleWindow {
    pub fn new() -> (r: Self)
        ensures
            r.log@ == "Console ready.\n"@,
    {
        ConsoleWindow { log: String::from_str("Console ready.\n") }
    }

    /// Adds `entry` to the log, keeping its last `MAX_LINES` lines.
    pub fn push_entry(&mut self, entry: &str)
        ensures
            final(self).log@ == log_after(old(self).log@, entry@),
    {
        let mut all = lines(self.log.as_str());
        all.push(String::from_str(entry));
        let ghost full = lines_seq(old(self).log@).push(entry@);
        assert(all.deep_view() =~= full);
        let mut kept: Vec<String> = Vec::new();
        let start: usize = if all.len() > MAX_LINES {
            all.len() - MAX_LINES
        } else {
            0
        };
        let mut i = start;
        while i < all.len()
            invariant
                start <= i <= all.len(),
                all.deep_view() == full,
                kept.deep_view() == full.subrange(start as int, i as int),
            decreases all.len() - i,
        {
            let ghost before = kept.deep_view();
            let item = all[i].clone();
            assert(item@ == full[i as int]);
            kept.push(item);
            assert(kept.deep_view() =~= before.push(item@));
            assert(kept.deep_view() =~= full.subrange(start as int, i + 1));
            i += 1;
        }
        assert(keep_last(full, MAX_LINES as nat) =~= full.subrange(start as int, i as int));
        let sep = "\n";
        proof {
            reveal_strlit("\n");
        }
        assert(sep@ =~= seq!['\n']);
        self.log = join(&kept, sep);
    }
}


/// The console holds at most `MAX_LINES` lines once an entry is added,
/// when the entry holds no line feed or a single one at its end (as the
/// console's own entries do).
pub proof fn lemma_log_bounded(log: Seq<char>, entry: Seq<char>)
    requires
        no_newline(entry) || (entry.len() > 0 && entry.last() == '\n' && no_newline(
            entry.drop_last(),
        )),
    ensures
        lines_seq(log_after(log, entry)).len() <= MAX_LINES,
{
    let full = lines_seq(log).push(entry);
    let kept = keep_last(full, MAX_LINES as nat);
    lemma_lines_newline_free(log);
    let start = full.len() - kept.len();
    assert forall|k: int| 0 <= k < kept.len() - 1 implies no_newline(#[trigger] kept[k]) by {
        assert(kept[k] == full[start + k]);
        assert(full[start + k] == lines_seq(log)[start + k]);
    }
    assert(kept.last() == entry);
    lemma_lines_of_join(kept);
}

} // verus!
