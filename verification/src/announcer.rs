//! The announcer's lines, taken from the text the announcer program printed.
use vstd::prelude::*;
use crate::piet::token_views;
use crate::text::{capitalize, capitalized, chars_of, lossy_utf8, string_from_chars, trim, trim_chars, utf8_lossy};
use crate::track::{lines_of, text_lines};

verus! {

/// The announcer lines among printed lines: each trimmed, blank ones
/// dropped, the rest capitalized, in order.
pub open spec fn kept_lines(lines: Seq<Seq<char>>) -> Seq<Seq<char>>
    decreases lines.len(),
{
    if lines.len() == 0 {
        seq![]
    } else {
        let rest = kept_lines(lines.drop_last());
        let t = trim(lines.last());
        if t.len() == 0 {
            rest
        } else {
            rest.push(capitalized(t))
        }
    }
}

/// The announcer lines in the bytes the announcer printed, or `None` when
/// there are none.
pub open spec fn announcements_in(output: Seq<u8>) -> Option<Seq<Seq<char>>> {
    let lines = kept_lines(text_lines(lossy_utf8(output)));
    if lines.len() == 0 {
        None
    } else {
        Some(lines)
    }
}

/// Reads the announcer lines from the program's output (decoded leniently
/// as UTF-8); an output without a single non-blank line is refused.
pub fn announcements_from_output(output: &[u8]) -> (r: Result<Vec<String>, String>)
    ensures
        match announcements_in(output@) {
            Some(ls) => r matches Ok(v) && v@.len() == ls.len() && forall|i: int|
                0 <= i < ls.len() ==> #[trigger] v@[i]@ == ls[i],
            None => r matches Err(m) && m@ == "interpreter produced no announcements"@,
        },
{
    let text = utf8_lossy(output);
    let cs = chars_of(text.as_str());
    let lines = lines_of(cs.as_slice());
    let ghost all = token_views(lines@);
    let mut kept: Vec<String> = Vec::new();
    let mut i: usize = 0;
    while i < lines.len()
        invariant
            i <= lines@.len(),
            all == token_views(lines@),
            kept@.len() == kept_lines(all.take(i as int)).len(),
            forall|k: int|
                0 <= k < kept@.len() ==> #[trigger] kept@[k]@ == kept_lines(all.take(i as int))[k],
        decreases lines.len() - i,
    {
        assert(all.take(i + 1).drop_last() == all.take(i as int));
        assert(all.take(i + 1).last() == lines@[i as int]@);
        let t = trim_chars(lines[i].as_slice());
        if t.len() > 0 {
            let s = string_from_chars(t.as_slice());
            let c = capitalize(s.as_str());
            kept.push(c);
        }
        i = i + 1;
    }
    assert(all.take(lines@.len() as int) == all);
    if kept.len() == 0 {
        return Err("interpreter produced no announcements".to_owned());
    }
    Ok(kept)
}

} // verus!
