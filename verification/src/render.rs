//! The fixed-format text report of a cached run.
//!
//! One header line: the chest count as repeated `+`, the level, ` - `, the
//! dungeon name. A blank line. Then one tab-separated line per roster
//! entry, in the roster's stored order, each ending in a newline.

use vstd::prelude::*;
use crate::numtext::{int_rep, push_dec_i64};
use crate::summary::{role_string, RosterEntryView, RunSummary, RunSummaryView};
use vstd::string::StringExecFns;

verus! {

/// `n` repetitions of '+' (none if `n` is negative).
pub open spec fn plus_rep(n: int) -> Seq<char> {
    Seq::new(if n < 0 { 0 } else { n as nat }, |i: int| '+')
}

/// One roster line: role, item level and name, tab-separated.
pub open spec fn entry_line(e: RosterEntryView) -> Seq<char> {
    e.role + seq!['\t'] + int_rep(e.item_level) + seq!['\t'] + e.character_name + seq!['\n']
}

/// The roster block: one line per entry, in stored order.
pub open spec fn roster_lines(es: Seq<RosterEntryView>) -> Seq<char>
    decreases es.len(),
{
    if es.len() == 0 {
        Seq::empty()
    } else {
        entry_line(es[0]) + roster_lines(es.drop_first())
    }
}

proof fn lemma_roster_lines_snoc(es: Seq<RosterEntryView>, e: RosterEntryView)
    ensures
        roster_lines(es.push(e)) == roster_lines(es) + entry_line(e),
    decreases es.len(),
{
    if es.len() == 0 {
        assert(es.push(e)[0] == e);
        assert(es.push(e).drop_first() =~= es);
        assert(roster_lines(es.push(e)) == entry_line(e) + roster_lines(es));
        assert(roster_lines(es) == Seq::<char>::empty());
        assert(entry_line(e) + Seq::<char>::empty() =~= Seq::<char>::empty() + entry_line(e));
    } else {
        assert(es.push(e).drop_first() =~= es.drop_first().push(e));
        lemma_roster_lines_snoc(es.drop_first(), e);
        assert(es.push(e)[0] == es[0]);
        assert(entry_line(es[0]) + (roster_lines(es.drop_first()) + entry_line(e)) =~= (entry_line(
            es[0],
        ) + roster_lines(es.drop_first())) + entry_line(e));
    }
}

/// The whole report.
pub open spec fn render_spec(s: RunSummaryView) -> Seq<char> {
    plus_rep(s.num_chests) + int_rep(s.level) + " - "@ + s.dungeon_name + seq!['\n', '\n']
        + roster_lines(s.roster)
}

/// Renders the report text of a summary; a spec-level function of the
/// summary's view, so equal summaries render to identical text.
#[verifier::loop_isolation(false)]
pub fn render(s: &RunSummary) -> (out: String)
    ensures
        out@ == render_spec(s@),
{
    let mut out = String::new();
    let mut k: i64 = 0;
    while k < s.num_chests
        invariant
            0 <= k,
            k <= if s.num_chests > 0 { s.num_chests as int } else { 0 },
            out@ =~= plus_rep(k as int),
        decreases s.num_chests - k,
    {
        out.append("+");
        proof {
            reveal_strlit("+");
            assert(out@ =~= plus_rep(k + 1));
        }
        k += 1;
    }
    proof {
        assert(out@ =~= plus_rep(s.num_chests as int));
    }
    let ghost header0 = plus_rep(s@.num_chests);
    push_dec_i64(&mut out, s.level);
    out.append(" - ");
    out.append(s.dungeon_name.as_str());
    out.append("\n\n");
    proof {
        reveal_strlit("\n\n");
        assert("\n\n"@ =~= seq!['\n', '\n']);
        assert(out@ =~= header0 + int_rep(s@.level) + " - "@ + s@.dungeon_name
            + seq!['\n', '\n']);
    }
    let ghost head = out@;
    let mut i: usize = 0;
    while i < s.roster.len()
        invariant
            0 <= i <= s.roster.len(),
            out@ == head + roster_lines(s@.roster.take(i as int)),
        decreases s.roster.len() - i,
    {
        let e = &s.roster[i];
        proof {
            assert(e@ == s@.roster[i as int]);
        }
        let role_text = role_string(&e.role);
        out.append(role_text.as_str());
        out.append("\t");
        push_dec_i64(&mut out, e.item_level);
        out.append("\t");
        out.append(e.character_name.as_str());
        out.append("\n");
        proof {
            reveal_strlit("\t");
            reveal_strlit("\n");
            assert("\t"@ =~= seq!['\t']);
            assert("\n"@ =~= seq!['\n']);
            assert(s@.roster.take(i + 1) =~= s@.roster.take(i as int).push(s@.roster[i as int]));
            lemma_roster_lines_snoc(s@.roster.take(i as int), s@.roster[i as int]);
            assert(out@ =~= head + roster_lines(s@.roster.take(i + 1)));
        }
        i += 1;
    }
    proof {
        assert(s@.roster.take(s.roster.len() as int) =~= s@.roster);
        assert(out@ =~= render_spec(s@));
    }
    out
}

} // verus!
