use vstd::prelude::*;

use crate::text::char_len;
use crate::text::last_non_ws_index;
use crate::text::lemma_filter_take_step;
use crate::text::non_ws_pred;
use crate::text::spec_last_where;
use crate::text::spec_starts_with;
use crate::text::starts_with;
use crate::text::substring;
use crate::text::ws_pred;

verus! {

/// Command completion for the interactive shell: the candidate words, and
/// the completions each partially typed line admits.
pub struct MyHelper {
    commands: Vec<String>,
}

impl View for MyHelper {
    type V = Seq<Seq<char>>;

    closed spec fn view(&self) -> Seq<Seq<char>> {
        self.commands@.map_values(|c: String| c@)
    }
}

/// The word being completed: the last whitespace-delimited token of the
/// line, ignoring trailing whitespace; empty when the line is blank.
pub open spec fn spec_last_word(s: Seq<char>) -> Seq<char> {
    let t = s.take(spec_last_where(s, non_ws_pred()) + 1);
    t.skip(spec_last_where(t, ws_pred()) + 1)
}

/// The prefix test against a word, as one shared value.
pub open spec fn prefix_pred(w: Seq<char>) -> spec_fn(Seq<char>) -> bool {
    |c: Seq<char>| spec_starts_with(c, w)
}

impl MyHelper {
    /// A helper that completes to the given candidate words.
    pub fn new(commands: Vec<String>) -> (h: MyHelper)
        ensures
            h@ == commands@.map_values(|c: String| c@),
    {
        MyHelper { commands }
    }

    /// The completions of the line at cursor position `pos`: every
    /// candidate that begins with the line's last word, in candidate
    /// order, and the position at which the replacement starts — the
    /// cursor moved back over the word. The cursor never sits inside the
    /// word being completed.
    pub fn complete(&self, line: &str, pos: usize) -> (r: (usize, Vec<String>))
        requires
            spec_last_word(line@).len() <= pos,
        ensures
            r.0 == pos - spec_last_word(line@).len(),
            r.1@.map_values(|c: String| c@) == self@.filter(prefix_pred(spec_last_word(line@))),
    {
        let n = char_len(line);
        let word_end: usize = match last_non_ws_index(line) {
            Some(e) => e + 1,
            None => 0,
        };
        let ghost t = line@.take(spec_last_where(line@, non_ws_pred()) + 1);
        proof {
            assert(t =~= line@.subrange(0, word_end as int));
        }
        let b: usize = match crate::text::last_ws_index_before(line, word_end) {
            Some(i) => i + 1,
            None => 0,
        };
        proof {
            assert(spec_last_word(line@) == t.skip(spec_last_where(t, ws_pred()) + 1));
        }
        let word = substring(line, b, word_end);
        proof {
            assert(word@ =~= spec_last_word(line@));
        }
        let mut found: Vec<String> = Vec::new();
        let mut i: usize = 0;
        proof {
            reveal(Seq::filter);
            assert(self@.take(0) =~= Seq::<Seq<char>>::empty());
            assert(found@.map_values(|c: String| c@) =~= self@.take(0).filter(
                prefix_pred(word@),
            ));
        }
        while i < self.commands.len()
            invariant
                i <= self.commands@.len(),
                word@ == spec_last_word(line@),
                found@.map_values(|c: String| c@) == self@.take(i as int).filter(
                    prefix_pred(word@),
                ),
            decreases self.commands@.len() - i,
        {
            proof {
                assert(self@[i as int] == self.commands@[i as int]@);
                lemma_filter_take_step(self@, prefix_pred(word@), i as int);
            }
            if starts_with(self.commands[i].as_str(), word.as_str()) {
                let ghost found0 = found@;
                let hit = self.commands[i].clone();
                proof {
                    assert(hit@ == self.commands@[i as int]@);
                }
                found.push(hit);
                proof {
                    assert((prefix_pred(word@))(self@[i as int]));
                    assert(found@.map_values(|c: String| c@) =~~= found0.map_values(
                        |c: String| c@,
                    ).push(self@[i as int]));
                    assert(found@.map_values(|c: String| c@) =~~= self@.take(i as int + 1).filter(
                        prefix_pred(word@),
                    ));
                }
            } else {
                proof {
                    assert(!(prefix_pred(word@))(self@[i as int]));
                    assert(found@.map_values(|c: String| c@) =~~= self@.take(i as int + 1).filter(
                        prefix_pred(word@),
                    ));
                }
            }
            i = i + 1;
        }
        proof {
            assert(self@.take(self.commands@.len() as int) =~= self@);
        }
        let word_len = char_len(word.as_str());
        (pos - word_len, found)
    }
}

} // verus!
