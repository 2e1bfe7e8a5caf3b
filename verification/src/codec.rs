//! The persisted form of the cache and its codec.
//!
//! The cache file is line-oriented structured text with length-prefixed
//! strings: first the number of records and a newline, then each record as
//! `id num_chests level dungeon_name roster_len` on one line (strings
//! written as `length:text`), followed by one `role item_level name` line
//! per roster entry. Length prefixes make the format unambiguous for
//! arbitrary text in names and roles, and decoding is proved to invert
//! encoding exactly, so a written cache reads back field for field and in
//! order. Content that does not parse — a truncated file, a stray byte,
//! anything else — is reported as no cache at all, which the store layer
//! treats as an empty cache (the recovery policy: the bad file is
//! discarded whole, not salvaged record by record).

use vstd::prelude::*;
use crate::numtext::{
    dec_rep, exec_parse_int, exec_parse_lit, exec_parse_nat, int_rep, is_digit,
    lemma_parse_int_rep, lemma_parse_nat_rep, parse_int, parse_lit, parse_nat, push_dec_i64,
    push_dec_u64,
};
use crate::summary::{
    cache_view_bounded, entry_view_bounded, role_of_string, role_string, summary_view_bounded,
    RosterEntry, RosterEntryView, RunSummary, RunSummaryView,
};
use vstd::string::StrSliceExecFns;
use vstd::string::StringExecFns;

verus! {

// ---------------------------------------------------------------------------
// The written form.
// ---------------------------------------------------------------------------

/// A string field: its length, a colon, then the text itself, verbatim.
pub open spec fn string_rep(s: Seq<char>) -> Seq<char> {
    dec_rep(s.len() as int) + seq![':'] + s
}

/// One roster entry line.
pub open spec fn entry_rep(e: RosterEntryView) -> Seq<char> {
    string_rep(e.role) + seq![' '] + int_rep(e.item_level) + seq![' '] + string_rep(
        e.character_name,
    ) + seq!['\n']
}

pub open spec fn entries_rep(es: Seq<RosterEntryView>) -> Seq<char>
    decreases es.len(),
{
    if es.len() == 0 {
        Seq::empty()
    } else {
        entry_rep(es[0]) + entries_rep(es.drop_first())
    }
}

/// One record: the scalar fields and the roster length on a line, then the
/// roster entry lines.
pub open spec fn summary_rep(s: RunSummaryView) -> Seq<char> {
    int_rep(s.id) + seq![' '] + int_rep(s.num_chests) + seq![' '] + int_rep(s.level) + seq![' ']
        + string_rep(s.dungeon_name) + seq![' '] + dec_rep(s.roster.len() as int) + seq!['\n']
        + entries_rep(s.roster)
}

pub open spec fn summaries_rep(c: Seq<RunSummaryView>) -> Seq<char>
    decreases c.len(),
{
    if c.len() == 0 {
        Seq::empty()
    } else {
        summary_rep(c[0]) + summaries_rep(c.drop_first())
    }
}

/// The whole file: the record count and a newline, then the records.
pub open spec fn cache_rep(c: Seq<RunSummaryView>) -> Seq<char> {
    dec_rep(c.len() as int) + seq!['\n'] + summaries_rep(c)
}

// ---------------------------------------------------------------------------
// What decoding yields, on any text at all.
// ---------------------------------------------------------------------------

/// A length-prefixed string field.
pub open spec fn parse_string(s: Seq<char>) -> Option<(Seq<char>, Seq<char>)> {
    match parse_nat(s) {
        Some((n, rest)) => match parse_lit(rest, ':') {
            Some(rest2) => if n <= rest2.len() {
                Some((rest2.take(n), rest2.skip(n)))
            } else {
                None
            },
            None => None,
        },
        None => None,
    }
}

pub open spec fn parse_entry(s: Seq<char>) -> Option<(RosterEntryView, Seq<char>)> {
    match parse_string(s) {
        Some((role, r1)) => match parse_lit(r1, ' ') {
            Some(r2) => match parse_int(r2) {
                Some((il, r3)) => match parse_lit(r3, ' ') {
                    Some(r4) => match parse_string(r4) {
                        Some((name, r5)) => match parse_lit(r5, '\n') {
                            Some(r6) => Some(
                                (
                                    RosterEntryView {
                                        role,
                                        item_level: il,
                                        character_name: name,
                                    },
                                    r6,
                                ),
                            ),
                            None => None,
                        },
                        None => None,
                    },
                    None => None,
                },
                None => None,
            },
            None => None,
        },
        None => None,
    }
}

pub open spec fn parse_entries(s: Seq<char>, k: int) -> Option<(Seq<RosterEntryView>, Seq<char>)>
    decreases k,
{
    if k <= 0 {
        Some((Seq::empty(), s))
    } else {
        match parse_entry(s) {
            Some((e, r1)) => match parse_entries(r1, k - 1) {
                Some((es, r2)) => Some((seq![e] + es, r2)),
                None => None,
            },
            None => None,
        }
    }
}

pub open spec fn parse_summary(s: Seq<char>) -> Option<(RunSummaryView, Seq<char>)> {
    match parse_int(s) {
        Some((id, r1)) => match parse_lit(r1, ' ') {
            Some(r2) => match parse_int(r2) {
                Some((nc, r3)) => match parse_lit(r3, ' ') {
                    Some(r4) => match parse_int(r4) {
                        Some((lvl, r5)) => match parse_lit(r5, ' ') {
                            Some(r6) => match parse_string(r6) {
                                Some((dn, r7)) => match parse_lit(r7, ' ') {
                                    Some(r8) => match parse_nat(r8) {
                                        Some((cnt, r9)) => match parse_lit(r9, '\n') {
                                            Some(r10) => match parse_entries(r10, cnt) {
                                                Some((es, r11)) => Some(
                                                    (
                                                        RunSummaryView {
                                                            id,
                                                            num_chests: nc,
                                                            level: lvl,
                                                            dungeon_name: dn,
                                                            roster: es,
                                                        },
                                                        r11,
                                                    ),
                                                ),
                                                None => None,
                                            },
                                            None => None,
                                        },
                                        None => None,
                                    },
                                    None => None,
                                },
                                None => None,
                            },
                            None => None,
                        },
                        None => None,
                    },
                    None => None,
                },
                None => None,
            },
            None => None,
        },
        None => None,
    }
}

pub open spec fn parse_summaries(s: Seq<char>, k: int) -> Option<(Seq<RunSummaryView>, Seq<char>)>
    decreases k,
{
    if k <= 0 {
        Some((Seq::empty(), s))
    } else {
        match parse_summary(s) {
            Some((r, r1)) => match parse_summaries(r1, k - 1) {
                Some((c, r2)) => Some((seq![r] + c, r2)),
                None => None,
            },
            None => None,
        }
    }
}

/// Decoding of a whole file: the record count, the records, and nothing
/// after them, or no cache at all.
pub open spec fn parse_cache_spec(s: Seq<char>) -> Option<Seq<RunSummaryView>> {
    match parse_nat(s) {
        Some((cnt, r1)) => match parse_lit(r1, '\n') {
            Some(r2) => match parse_summaries(r2, cnt) {
                Some((c, r3)) => if r3.len() == 0 {
                    Some(c)
                } else {
                    None
                },
                None => None,
            },
            None => None,
        },
        None => None,
    }
}

// ---------------------------------------------------------------------------
// The round trip: decoding inverts encoding.
// ---------------------------------------------------------------------------

proof fn lemma_string_rep_rt(s: Seq<char>, rest: Seq<char>)
    requires
        s.len() <= u64::MAX,
    ensures
        parse_string(string_rep(s) + rest) == Some((s, rest)),
{
    let tail = seq![':'] + s + rest;
    assert(string_rep(s) + rest =~= dec_rep(s.len() as int) + tail);
    assert(tail[0] == ':');
    assert(!is_digit(':'));
    lemma_parse_nat_rep(s.len() as int, tail);
    assert(tail.drop_first() =~= s + rest);
    assert((s + rest).take(s.len() as int) =~= s);
    assert((s + rest).skip(s.len() as int) =~= rest);
}

proof fn lemma_entry_rep_rt(e: RosterEntryView, rest: Seq<char>)
    requires
        entry_view_bounded(e),
    ensures
        parse_entry(entry_rep(e) + rest) == Some((e, rest)),
{
    let t1 = seq![' '] + int_rep(e.item_level) + seq![' '] + string_rep(e.character_name)
        + seq!['\n'] + rest;
    assert(entry_rep(e) + rest =~= string_rep(e.role) + t1);
    lemma_string_rep_rt(e.role, t1);
    assert(t1[0] == ' ');
    let t2 = int_rep(e.item_level) + (seq![' '] + string_rep(e.character_name) + seq!['\n']
        + rest);
    assert(t1.drop_first() =~= t2);
    let t3 = seq![' '] + string_rep(e.character_name) + seq!['\n'] + rest;
    assert(t3[0] == ' ');
    assert(!is_digit(' '));
    lemma_parse_int_rep(e.item_level, t3);
    let t4 = string_rep(e.character_name) + (seq!['\n'] + rest);
    assert(t3.drop_first() =~= t4);
    lemma_string_rep_rt(e.character_name, seq!['\n'] + rest);
    assert((seq!['\n'] + rest)[0] == '\n');
    assert((seq!['\n'] + rest).drop_first() =~= rest);
    assert(parse_entry(entry_rep(e) + rest) == Some(
        (RosterEntryView { role: e.role, item_level: e.item_level, character_name: e.character_name }, rest),
    ));
    assert(RosterEntryView {
        role: e.role,
        item_level: e.item_level,
        character_name: e.character_name,
    } =~= e);
}

proof fn lemma_entries_rep_rt(es: Seq<RosterEntryView>, rest: Seq<char>)
    requires
        forall|i: int| 0 <= i < es.len() ==> entry_view_bounded(#[trigger] es[i]),
    ensures
        parse_entries(entries_rep(es) + rest, es.len() as int) == Some((es, rest)),
    decreases es.len(),
{
    if es.len() == 0 {
        assert(entries_rep(es) + rest =~= rest);
        assert(Seq::<RosterEntryView>::empty() =~= es);
    } else {
        let e = es[0];
        let tail = es.drop_first();
        assert(entries_rep(es) + rest =~= entry_rep(e) + (entries_rep(tail) + rest));
        lemma_entry_rep_rt(e, entries_rep(tail) + rest);
        assert(forall|i: int| 0 <= i < tail.len() ==> entry_view_bounded(#[trigger] tail[i]));
        lemma_entries_rep_rt(tail, rest);
        assert(seq![e] + tail =~= es);
    }
}

#[verifier::rlimit(60)]
proof fn lemma_summary_rep_rt(s: RunSummaryView, rest: Seq<char>)
    requires
        summary_view_bounded(s),
    ensures
        parse_summary(summary_rep(s) + rest) == Some((s, rest)),
{
    let k = s.roster.len() as int;
    let a5 = dec_rep(k) + seq!['\n'] + entries_rep(s.roster) + rest;
    let a4 = string_rep(s.dungeon_name) + seq![' '] + a5;
    let a3 = int_rep(s.level) + seq![' '] + a4;
    let a2 = int_rep(s.num_chests) + seq![' '] + a3;
    assert(summary_rep(s) + rest =~= int_rep(s.id) + (seq![' '] + a2));
    let b1 = seq![' '] + a2;
    assert(b1[0] == ' ');
    assert(!is_digit(' '));
    lemma_parse_int_rep(s.id, b1);
    assert(b1.drop_first() =~= a2);
    assert(a2 =~= int_rep(s.num_chests) + (seq![' '] + a3));
    let b2 = seq![' '] + a3;
    assert(b2[0] == ' ');
    lemma_parse_int_rep(s.num_chests, b2);
    assert(b2.drop_first() =~= a3);
    assert(a3 =~= int_rep(s.level) + (seq![' '] + a4));
    let b3 = seq![' '] + a4;
    assert(b3[0] == ' ');
    lemma_parse_int_rep(s.level, b3);
    assert(b3.drop_first() =~= a4);
    assert(a4 =~= string_rep(s.dungeon_name) + (seq![' '] + a5));
    lemma_string_rep_rt(s.dungeon_name, seq![' '] + a5);
    let b4 = seq![' '] + a5;
    assert(b4[0] == ' ');
    assert(b4.drop_first() =~= a5);
    assert(a5 =~= dec_rep(k) + (seq!['\n'] + (entries_rep(s.roster) + rest)));
    let b5 = seq!['\n'] + (entries_rep(s.roster) + rest);
    assert(b5[0] == '\n');
    assert(!is_digit('\n'));
    lemma_parse_nat_rep(k, b5);
    assert(b5.drop_first() =~= entries_rep(s.roster) + rest);
    lemma_entries_rep_rt(s.roster, rest);
    let rebuilt = RunSummaryView {
        id: s.id,
        num_chests: s.num_chests,
        level: s.level,
        dungeon_name: s.dungeon_name,
        roster: s.roster,
    };
    assert(rebuilt =~= s);
}

proof fn lemma_summaries_rep_rt(c: Seq<RunSummaryView>, rest: Seq<char>)
    requires
        forall|i: int| 0 <= i < c.len() ==> summary_view_bounded(#[trigger] c[i]),
    ensures
        parse_summaries(summaries_rep(c) + rest, c.len() as int) == Some((c, rest)),
    decreases c.len(),
{
    if c.len() == 0 {
        assert(summaries_rep(c) + rest =~= rest);
        assert(Seq::<RunSummaryView>::empty() =~= c);
    } else {
        let s0 = c[0];
        let tail = c.drop_first();
        assert(summaries_rep(c) + rest =~= summary_rep(s0) + (summaries_rep(tail) + rest));
        lemma_summary_rep_rt(s0, summaries_rep(tail) + rest);
        assert(forall|i: int| 0 <= i < tail.len() ==> summary_view_bounded(#[trigger] tail[i]));
        lemma_summaries_rep_rt(tail, rest);
        assert(seq![s0] + tail =~= c);
    }
}

/// Decoding a written cache yields the cache, record for record, field for
/// field, in order.
pub proof fn lemma_cache_round_trip(c: Seq<RunSummaryView>)
    requires
        cache_view_bounded(c),
    ensures
        parse_cache_spec(cache_rep(c)) == Some(c),
{
    let body = seq!['\n'] + summaries_rep(c);
    assert(cache_rep(c) =~= dec_rep(c.len() as int) + body);
    assert(body[0] == '\n');
    assert(!is_digit('\n'));
    lemma_parse_nat_rep(c.len() as int, body);
    assert(body.drop_first() =~= summaries_rep(c) + Seq::<char>::empty());
    lemma_summaries_rep_rt(c, Seq::<char>::empty());
}

// ---------------------------------------------------------------------------
// Encoding.
// ---------------------------------------------------------------------------

proof fn lemma_entries_rep_snoc(es: Seq<RosterEntryView>, e: RosterEntryView)
    ensures
        entries_rep(es.push(e)) == entries_rep(es) + entry_rep(e),
    decreases es.len(),
{
    if es.len() == 0 {
        assert(es.push(e)[0] == e);
        assert(es.push(e).drop_first() =~= es);
        assert(entries_rep(es) == Seq::<char>::empty());
        assert(entry_rep(e) + Seq::<char>::empty() =~= Seq::<char>::empty() + entry_rep(e));
    } else {
        assert(es.push(e).drop_first() =~= es.drop_first().push(e));
        lemma_entries_rep_snoc(es.drop_first(), e);
        assert(es.push(e)[0] == es[0]);
        assert(entry_rep(es[0]) + (entries_rep(es.drop_first()) + entry_rep(e)) =~= (entry_rep(
            es[0],
        ) + entries_rep(es.drop_first())) + entry_rep(e));
    }
}

proof fn lemma_summaries_rep_snoc(c: Seq<RunSummaryView>, s: RunSummaryView)
    ensures
        summaries_rep(c.push(s)) == summaries_rep(c) + summary_rep(s),
    decreases c.len(),
{
    if c.len() == 0 {
        assert(c.push(s)[0] == s);
        assert(c.push(s).drop_first() =~= c);
        assert(summaries_rep(c) == Seq::<char>::empty());
        assert(summary_rep(s) + Seq::<char>::empty() =~= Seq::<char>::empty() + summary_rep(s));
    } else {
        assert(c.push(s).drop_first() =~= c.drop_first().push(s));
        lemma_summaries_rep_snoc(c.drop_first(), s);
        assert(c.push(s)[0] == c[0]);
        assert(summary_rep(c[0]) + (summaries_rep(c.drop_first()) + summary_rep(s)) =~= (
        summary_rep(c[0]) + summaries_rep(c.drop_first())) + summary_rep(s));
    }
}

fn push_string_field(out: &mut String, s: &str)
    ensures
        final(out)@ == old(out)@ + string_rep(s@),
{
    let n = s.unicode_len();
    push_dec_u64(out, n as u64);
    out.append(":");
    out.append(s);
    proof {
        reveal_strlit(":");
        assert(":"@ =~= seq![':']);
        assert(old(out)@ + dec_rep(n as int) + ":"@ + s@ =~= old(out)@ + string_rep(s@));
    }
}

fn push_entry_rep(out: &mut String, e: &RosterEntry)
    ensures
        final(out)@ == old(out)@ + entry_rep(e@),
{
    let role_text = role_string(&e.role);
    push_string_field(out, role_text.as_str());
    out.append(" ");
    push_dec_i64(out, e.item_level);
    out.append(" ");
    push_string_field(out, e.character_name.as_str());
    out.append("\n");
    proof {
        reveal_strlit(" ");
        reveal_strlit("\n");
        assert(" "@ =~= seq![' ']);
        assert("\n"@ =~= seq!['\n']);
        assert(old(out)@ + string_rep(e.role@) + " "@ + int_rep(e.item_level as int) + " "@
            + string_rep(e.character_name@) + "\n"@ =~= old(out)@ + entry_rep(e@));
    }
}

#[verifier::loop_isolation(false)]
fn push_summary_rep(out: &mut String, s: &RunSummary)
    ensures
        final(out)@ == old(out)@ + summary_rep(s@),
{
    push_dec_i64(out, s.id);
    out.append(" ");
    push_dec_i64(out, s.num_chests);
    out.append(" ");
    push_dec_i64(out, s.level);
    out.append(" ");
    push_string_field(out, s.dungeon_name.as_str());
    out.append(" ");
    push_dec_u64(out, s.roster.len() as u64);
    out.append("\n");
    proof {
        reveal_strlit(" ");
        reveal_strlit("\n");
        assert(" "@ =~= seq![' ']);
        assert("\n"@ =~= seq!['\n']);
        assert(out@ =~= old(out)@ + (int_rep(s@.id) + seq![' '] + int_rep(s@.num_chests)
            + seq![' '] + int_rep(s@.level) + seq![' '] + string_rep(s@.dungeon_name) + seq![' ']
            + dec_rep(s@.roster.len() as int) + seq!['\n']));
    }
    let ghost head = out@;
    let mut i: usize = 0;
    while i < s.roster.len()
        invariant
            0 <= i <= s.roster.len(),
            out@ == head + entries_rep(s@.roster.take(i as int)),
        decreases s.roster.len() - i,
    {
        proof {
            assert(s.roster[i as int]@ == s@.roster[i as int]);
        }
        push_entry_rep(out, &s.roster[i]);
        proof {
            assert(s@.roster.take(i + 1) =~= s@.roster.take(i as int).push(s@.roster[i as int]));
            lemma_entries_rep_snoc(s@.roster.take(i as int), s@.roster[i as int]);
            assert(out@ =~= head + entries_rep(s@.roster.take(i + 1)));
        }
        i += 1;
    }
    proof {
        assert(s@.roster.take(s.roster.len() as int) =~= s@.roster);
        assert(out@ =~= old(out)@ + summary_rep(s@));
    }
}

/// Encodes a cache for persisting; the text is exactly `cache_rep` of the
/// cache's view.
#[verifier::loop_isolation(false)]
pub fn write_cache(cache: &Vec<RunSummary>) -> (out: String)
    ensures
        out@ == cache_rep(cache.deep_view()),
{
    let ghost c = cache.deep_view();
    let mut out = String::new();
    push_dec_u64(&mut out, cache.len() as u64);
    out.append("\n");
    proof {
        reveal_strlit("\n");
        assert("\n"@ =~= seq!['\n']);
        assert(out@ =~= dec_rep(c.len() as int) + seq!['\n']);
    }
    let ghost head = out@;
    let mut i: usize = 0;
    while i < cache.len()
        invariant
            0 <= i <= cache.len(),
            out@ == head + summaries_rep(c.take(i as int)),
        decreases cache.len() - i,
    {
        proof {
            assert(cache[i as int]@ == c[i as int]);
        }
        push_summary_rep(&mut out, &cache[i]);
        proof {
            assert(c.take(i + 1) =~= c.take(i as int).push(c[i as int]));
            lemma_summaries_rep_snoc(c.take(i as int), c[i as int]);
            assert(out@ =~= head + summaries_rep(c.take(i + 1)));
        }
        i += 1;
    }
    proof {
        assert(c.take(cache.len() as int) =~= c);
        assert(out@ =~= cache_rep(c));
    }
    out
}

// ---------------------------------------------------------------------------
// Decoding.
// ---------------------------------------------------------------------------

fn exec_parse_string(text: &str, pos: usize) -> (r: Option<(String, usize)>)
    requires
        pos <= text@.len(),
    ensures
        match r {
            Some(pr) => pos <= pr.1 <= text@.len() && parse_string(text@.skip(pos as int))
                == Some((pr.0@, text@.skip(pr.1 as int))),
            None => parse_string(text@.skip(pos as int)) is None,
        },
{
    let len = text.unicode_len();
    match exec_parse_nat(text, pos) {
        Some((n, p1)) => match exec_parse_lit(text, p1, ':') {
            Some(p2) => {
                let remaining = len - p2;
                if n <= remaining as u64 {
                    let nn = n as usize;
                    let sub = text.substring_char(p2, p2 + nn);
                    let owned = String::from_str(sub);
                    proof {
                        let r2 = text@.skip(p2 as int);
                        assert(r2.take(n as int) =~= text@.subrange(p2 as int, p2 + n));
                        assert(r2.skip(n as int) =~= text@.skip(p2 + n));
                    }
                    Some((owned, p2 + nn))
                } else {
                    proof {
                        assert(text@.skip(p2 as int).len() == len - p2);
                    }
                    None
                }
            },
            None => None,
        },
        None => None,
    }
}

fn exec_parse_entry(text: &str, pos: usize) -> (r: Option<(RosterEntry, usize)>)
    requires
        pos <= text@.len(),
    ensures
        match r {
            Some(pr) => pos <= pr.1 <= text@.len() && parse_entry(text@.skip(pos as int))
                == Some((pr.0@, text@.skip(pr.1 as int))),
            None => parse_entry(text@.skip(pos as int)) is None,
        },
{
    match exec_parse_string(text, pos) {
        Some((role_text, p1)) => match exec_parse_lit(text, p1, ' ') {
            Some(p2) => match exec_parse_int(text, p2) {
                Some((il, p3)) => match exec_parse_lit(text, p3, ' ') {
                    Some(p4) => match exec_parse_string(text, p4) {
                        Some((name, p5)) => match exec_parse_lit(text, p5, '\n') {
                            Some(p6) => {
                                let e = RosterEntry {
                                    role: role_of_string(role_text),
                                    item_level: il,
                                    character_name: name,
                                };
                                proof {
                                    assert(e@ =~= RosterEntryView {
                                        role: e.role@,
                                        item_level: il as int,
                                        character_name: e.character_name@,
                                    });
                                }
                                Some((e, p6))
                            },
                            None => None,
                        },
                        None => None,
                    },
                    None => None,
                },
                None => None,
            },
            None => None,
        },
        None => None,
    }
}

#[verifier::loop_isolation(false)]
fn exec_parse_entries(text: &str, pos: usize, k: u64) -> (r: Option<(Vec<RosterEntry>, usize)>)
    requires
        pos <= text@.len(),
    ensures
        match r {
            Some(pr) => pos <= pr.1 <= text@.len() && parse_entries(
                text@.skip(pos as int),
                k as int,
            ) == Some((pr.0.deep_view(), text@.skip(pr.1 as int))),
            None => parse_entries(text@.skip(pos as int), k as int) is None,
        },
    decreases k,
{
    if k == 0 {
        let empty: Vec<RosterEntry> = Vec::new();
        proof {
            assert(empty.deep_view() =~= Seq::<RosterEntryView>::empty());
        }
        return Some((empty, pos));
    }
    match exec_parse_entry(text, pos) {
        Some((e, p1)) => match exec_parse_entries(text, p1, k - 1) {
            Some((mut es, p2)) => {
                let ghost tail = es.deep_view();
                let ghost ev = e@;
                let ghost v0 = es@;
                proof {
                    assert(forall|j: int| 0 <= j < v0.len() ==> (#[trigger] v0[j])@ == tail[j]);
                }
                es.insert(0, e);
                proof {
                    assert forall|j: int| 0 <= j < v0.len() + 1 implies es.deep_view()[j] == (
                    seq![ev] + tail)[j] by {
                        if j == 0 {
                            assert(es@[0] == e);
                        } else {
                            assert(es@[j] == v0[j - 1]);
                        }
                    }
                    assert(es.deep_view() =~= seq![ev] + tail);
                }
                Some((es, p2))
            },
            None => None,
        },
        None => None,
    }
}

fn exec_parse_summary(text: &str, pos: usize) -> (r: Option<(RunSummary, usize)>)
    requires
        pos <= text@.len(),
    ensures
        match r {
            Some(pr) => pos <= pr.1 <= text@.len() && parse_summary(text@.skip(pos as int))
                == Some((pr.0@, text@.skip(pr.1 as int))),
            None => parse_summary(text@.skip(pos as int)) is None,
        },
{
    match exec_parse_int(text, pos) {
        Some((id, p1)) => match exec_parse_lit(text, p1, ' ') {
            Some(p2) => match exec_parse_int(text, p2) {
                Some((nc, p3)) => match exec_parse_lit(text, p3, ' ') {
                    Some(p4) => match exec_parse_int(text, p4) {
                        Some((lvl, p5)) => match exec_parse_lit(text, p5, ' ') {
                            Some(p6) => match exec_parse_string(text, p6) {
                                Some((dn, p7)) => match exec_parse_lit(text, p7, ' ') {
                                    Some(p8) => match exec_parse_nat(text, p8) {
                                        Some((cnt, p9)) => match exec_parse_lit(text, p9, '\n') {
                                            Some(p10) => match exec_parse_entries(
                                                text,
                                                p10,
                                                cnt,
                                            ) {
                                                Some((es, p11)) => {
                                                    let s = RunSummary {
                                                        id,
                                                        num_chests: nc,
                                                        level: lvl,
                                                        dungeon_name: dn,
                                                        roster: es,
                                                    };
                                                    proof {
                                                        assert(s@ =~= RunSummaryView {
                                                            id: id as int,
                                                            num_chests: nc as int,
                                                            level: lvl as int,
                                                            dungeon_name: s.dungeon_name@,
                                                            roster: s.roster.deep_view(),
                                                        });
                                                    }
                                                    Some((s, p11))
                                                },
                                                None => None,
                                            },
                                            None => None,
                                        },
                                        None => None,
                                    },
                                    None => None,
                                },
                                None => None,
                            },
                            None => None,
                        },
                        None => None,
                    },
                    None => None,
                },
                None => None,
            },
            None => None,
        },
        None => None,
    }
}

#[verifier::loop_isolation(false)]
fn exec_parse_summaries(text: &str, pos: usize, k: u64) -> (r: Option<(Vec<RunSummary>, usize)>)
    requires
        pos <= text@.len(),
    ensures
        match r {
            Some(pr) => pos <= pr.1 <= text@.len() && parse_summaries(
                text@.skip(pos as int),
                k as int,
            ) == Some((pr.0.deep_view(), text@.skip(pr.1 as int))),
            None => parse_summaries(text@.skip(pos as int), k as int) is None,
        },
    decreases k,
{
    if k == 0 {
        let empty: Vec<RunSummary> = Vec::new();
        proof {
            assert(empty.deep_view() =~= Seq::<RunSummaryView>::empty());
        }
        return Some((empty, pos));
    }
    match exec_parse_summary(text, pos) {
        Some((s, p1)) => match exec_parse_summaries(text, p1, k - 1) {
            Some((mut c, p2)) => {
                let ghost tail = c.deep_view();
                let ghost sv = s@;
                let ghost v0 = c@;
                proof {
                    assert(forall|j: int| 0 <= j < v0.len() ==> (#[trigger] v0[j])@ == tail[j]);
                }
                c.insert(0, s);
                proof {
                    assert forall|j: int| 0 <= j < v0.len() + 1 implies c.deep_view()[j] == (
                    seq![sv] + tail)[j] by {
                        if j == 0 {
                            assert(c@[0] == s);
                        } else {
                            assert(c@[j] == v0[j - 1]);
                        }
                    }
                    assert(c.deep_view() =~= seq![sv] + tail);
                }
                Some((c, p2))
            },
            None => None,
        },
        None => None,
    }
}

/// Decodes a cache file's text; `None` means the content is not a valid
/// cache, whatever the reason.
pub fn read_cache(text: &str) -> (r: Option<Vec<RunSummary>>)
    ensures
        match r {
            Some(c) => parse_cache_spec(text@) == Some(c.deep_view()),
            None => parse_cache_spec(text@) is None,
        },
{
    proof {
        assert(text@.skip(0) =~= text@);
    }
    let len = text.unicode_len();
    match exec_parse_nat(text, 0) {
        Some((cnt, p1)) => match exec_parse_lit(text, p1, '\n') {
            Some(p2) => match exec_parse_summaries(text, p2, cnt) {
                Some((c, p3)) => {
                    if p3 == len {
                        proof {
                            assert(text@.skip(p3 as int).len() == 0);
                        }
                        Some(c)
                    } else {
                        proof {
                            assert(text@.skip(p3 as int).len() > 0);
                        }
                        None
                    }
                },
                None => None,
            },
            None => None,
        },
        None => None,
    }
}

} // verus!
