//! The cumulative key-frequency table and its ranking.
//!
//! The table is an association list from key symbol to occurrence count,
//! kept in first-seen order.  Ranking sorts a snapshot of it by count,
//! descending, with a stable insertion sort, so entries with equal counts
//! keep their first-seen order: the deterministic tie-break the snapshot
//! format calls for.

use vstd::prelude::*;
use vstd::string::StringExecFns;
use crate::numfmt::dec_rep;

verus! {

/// No key symbol occurs twice in the table.
pub open spec fn keys_unique(s: Seq<(String, u32)>) -> bool {
    forall|i: int, j: int| 0 <= i < j < s.len() ==> s[i].0@ != s[j].0@
}

/// Some entry of the table carries the symbol `sym`.
pub open spec fn has_key(s: Seq<(String, u32)>, sym: Seq<char>) -> bool {
    exists|i: int| 0 <= i < s.len() && s[i].0@ == sym
}

/// The index of the entry carrying `sym` (meaningful when `has_key` holds
/// and the keys are unique).
pub open spec fn key_index(s: Seq<(String, u32)>, sym: Seq<char>) -> int {
    choose|i: int| 0 <= i < s.len() && s[i].0@ == sym
}

/// The count recorded for `sym`: 0 when the symbol was never seen.
pub open spec fn count_of(s: Seq<(String, u32)>, sym: Seq<char>) -> int {
    if has_key(s, sym) {
        s[key_index(s, sym)].1 as int
    } else {
        0
    }
}

/// One more occurrence; the count sticks at its ceiling rather than wrap.
pub open spec fn inc_count(c: u32) -> u32 {
    if c == u32::MAX {
        c
    } else {
        (c + 1) as u32
    }
}

/// The table after one more occurrence of `key`: the entry's count rises
/// by one if the symbol is present, otherwise the entry `(key, 1)` is
/// appended.
pub open spec fn bumped(s: Seq<(String, u32)>, key: String) -> Seq<(String, u32)> {
    if has_key(s, key@) {
        let i = key_index(s, key@);
        s.update(i, (s[i].0, inc_count(s[i].1)))
    } else {
        s.push((key, 1u32))
    }
}

/// Record one more occurrence of `key` in the table.
pub fn bump(table: &mut Vec<(String, u32)>, key: &String)
    requires
        keys_unique(old(table)@),
    ensures
        final(table)@ == bumped(old(table)@, *key),
        keys_unique(final(table)@),
        has_key(final(table)@, key@),
{
    let n: usize = table.len();
    let mut i: usize = 0;
    while i < n
        invariant
            n == table.len(),
            keys_unique(table@),
            i <= n,
            table@ == old(table)@,
            forall|k: int| 0 <= k < i ==> table@[k].0@ != key@,
        decreases n - i,
    {
        if table[i].0 == *key {
            proof {
                assert(has_key(table@, key@));
                let j = key_index(table@, key@);
                assert(0 <= j < table@.len() && table@[j].0@ == key@);
                assert(j == i);
            }
            let c: u32 = table[i].1;
            let c2: u32 = if c == u32::MAX {
                c
            } else {
                c + 1
            };
            let sym: String = table[i].0.clone();
            table[i] = (sym, c2);
            proof {
                assert(forall|k: int|
                    0 <= k < table@.len() ==> table@[k].0@ == old(table)@[k].0@);
            }
            return ;
        }
        i = i + 1;
    }
    table.push((key.clone(), 1));
    proof {
        assert(!has_key(old(table)@, key@));
        assert(table@[table@.len() - 1].0@ == key@);
        assert(has_key(table@, key@));
    }
}

/// Counts appear in descending order.
pub open spec fn sorted_desc(s: Seq<(String, u32)>) -> bool {
    forall|i: int, j: int| 0 <= i < j < s.len() ==> s[i].1 >= s[j].1
}

/// `x` placed after every entry with an equal or greater count, before the
/// first with a smaller one.
pub open spec fn insert_sorted(x: (String, u32), s: Seq<(String, u32)>) -> Seq<(String, u32)>
    decreases s.len(),
{
    if s.len() == 0 {
        seq![x]
    } else if s[0].1 >= x.1 {
        seq![s[0]] + insert_sorted(x, s.drop_first())
    } else {
        seq![x] + s
    }
}

/// The table in ranked order: sorted by count descending, entries with
/// equal counts in their original order.
pub open spec fn ranked(s: Seq<(String, u32)>) -> Seq<(String, u32)>
    decreases s.len(),
{
    if s.len() == 0 {
        Seq::empty()
    } else {
        insert_sorted(s.last(), ranked(s.drop_last()))
    }
}

/// Where `insert_sorted` puts `x`: the length of the prefix of entries
/// with an equal or greater count.
pub open spec fn ins_pos(s: Seq<(String, u32)>, x: (String, u32)) -> int
    decreases s.len(),
{
    if s.len() == 0 {
        0
    } else if s[0].1 >= x.1 {
        1 + ins_pos(s.drop_first(), x)
    } else {
        0
    }
}

/// `insert_sorted` splits the sequence at `ins_pos`.
proof fn lemma_insert_sorted_split(x: (String, u32), s: Seq<(String, u32)>)
    ensures
        0 <= ins_pos(s, x) <= s.len(),
        insert_sorted(x, s) == s.insert(ins_pos(s, x), x),
        forall|k: int| 0 <= k < ins_pos(s, x) ==> s[k].1 >= x.1,
        ins_pos(s, x) < s.len() ==> s[ins_pos(s, x)].1 < x.1,
    decreases s.len(),
{
    let p = ins_pos(s, x);
    if s.len() == 0 {
        assert(insert_sorted(x, s) =~= s.insert(0, x));
    } else if s[0].1 >= x.1 {
        let t = s.drop_first();
        lemma_insert_sorted_split(x, t);
        assert(forall|k: int| 0 <= k < p - 1 ==> t[k].1 >= x.1);
        assert(forall|k: int| 1 <= k < p ==> s[k] == t[k - 1]);
        assert(insert_sorted(x, s) =~= s.insert(p, x));
    } else {
        assert(insert_sorted(x, s) =~= s.insert(0, x));
    }
}

/// `ins_pos` is characterised by its prefix: any cut with equal-or-greater
/// counts before it and a smaller count (or the end) at it is `ins_pos`.
proof fn lemma_ins_pos_unique(x: (String, u32), s: Seq<(String, u32)>, p: int)
    requires
        0 <= p <= s.len(),
        forall|k: int| 0 <= k < p ==> s[k].1 >= x.1,
        p < s.len() ==> s[p].1 < x.1,
    ensures
        p == ins_pos(s, x),
    decreases s.len(),
{
    if s.len() == 0 {
    } else if s[0].1 >= x.1 {
        let t = s.drop_first();
        assert(forall|k: int| 0 <= k < p - 1 ==> t[k].1 == s[k + 1].1);
        lemma_ins_pos_unique(x, t, p - 1);
    } else {
        assert(p == 0);
    }
}

/// Inserting into a descending sequence keeps it descending.
proof fn lemma_insert_sorted_keeps_sorted(x: (String, u32), s: Seq<(String, u32)>)
    requires
        sorted_desc(s),
    ensures
        sorted_desc(insert_sorted(x, s)),
{
    lemma_insert_sorted_split(x, s);
    let p = ins_pos(s, x);
    let r = insert_sorted(x, s);
    assert forall|i: int, j: int| 0 <= i < j < r.len() implies r[i].1 >= r[j].1 by {
        assert(r == s.insert(p, x));
        assert(forall|k: int| 0 <= k < p ==> r[k] == s[k]);
        assert(forall|k: int| p < k < r.len() ==> r[k] == s[k - 1]);
        assert(r[p] == x);
        assert(forall|k: int| p <= k < s.len() ==> s[k].1 <= x.1);
    }
}

/// Ranking sorts: the output is in descending count order.
pub proof fn lemma_ranked_sorted(s: Seq<(String, u32)>)
    ensures
        sorted_desc(ranked(s)),
    decreases s.len(),
{
    if s.len() > 0 {
        lemma_ranked_sorted(s.drop_last());
        lemma_insert_sorted_keeps_sorted(s.last(), ranked(s.drop_last()));
    }
}

/// A table already in descending order ranks to itself.
pub proof fn lemma_ranked_fixpoint(s: Seq<(String, u32)>)
    requires
        sorted_desc(s),
    ensures
        ranked(s) == s,
    decreases s.len(),
{
    if s.len() > 0 {
        let t = s.drop_last();
        assert(forall|i: int, j: int| 0 <= i < j < t.len() ==> t[i].1 >= t[j].1);
        lemma_ranked_fixpoint(t);
        lemma_insert_sorted_split(s.last(), t);
        assert(forall|k: int| 0 <= k < t.len() ==> t[k].1 >= s.last().1);
        lemma_ins_pos_unique(s.last(), t, t.len() as int);
        assert(t.insert(t.len() as int, s.last()) =~= s);
    }
}

/// Law: ranking is idempotent — re-sorting an already-ranked snapshot
/// returns it unchanged.
pub proof fn lemma_ranked_idempotent(s: Seq<(String, u32)>)
    ensures
        ranked(ranked(s)) == ranked(s),
{
    lemma_ranked_sorted(s);
    lemma_ranked_fixpoint(ranked(s));
}

/// A ranked snapshot of the table: sorted by count descending, stable.
pub fn rank_table(table: &Vec<(String, u32)>) -> (r: Vec<(String, u32)>)
    ensures
        r@ == ranked(table@),
        sorted_desc(r@),
{
    let n: usize = table.len();
    let mut r: Vec<(String, u32)> = Vec::new();
    proof {
        assert(table@.take(0) =~= Seq::<(String, u32)>::empty());
    }
    for idx in 0..n
        invariant
            n == table.len(),
            r@ == ranked(table@.take(idx as int)),
        decreases n - idx,
    {
        let x_count: u32 = table[idx].1;
        let mut p: usize = 0;
        while p < r.len() && r[p].1 >= x_count
            invariant
                p <= r.len(),
                forall|k: int| 0 <= k < p ==> r@[k].1 >= x_count,
            decreases r.len() - p,
        {
            p = p + 1;
        }
        let ghost r_old = r@;
        let ghost x = table@[idx as int];
        let sym: String = table[idx].0.clone();
        r.insert(p, (sym, x_count));
        proof {
            lemma_ins_pos_unique(x, r_old, p as int);
            lemma_insert_sorted_split(x, r_old);
            assert(r@ == insert_sorted(x, r_old));
            let t = table@.take(idx + 1);
            assert(t.drop_last() =~= table@.take(idx as int));
            assert(t.last() == x);
        }
    }
    proof {
        assert(table@.take(n as int) =~= table@);
        lemma_ranked_sorted(table@);
    }
    r
}

/// The persisted form of a table: one `"<symbol>: <count>"` line per
/// entry, in table order.
pub open spec fn stats_rep(s: Seq<(String, u32)>) -> Seq<char>
    decreases s.len(),
{
    if s.len() == 0 {
        Seq::empty()
    } else {
        s[0].0@ + ": "@ + dec_rep(s[0].1 as nat) + "\n"@ + stats_rep(s.drop_first())
    }
}

/// Render a table in its persisted form.
pub fn format_stats(table: &Vec<(String, u32)>) -> (out: String)
    ensures
        out@ == stats_rep(table@),
{
    let n: usize = table.len();
    let mut out: String = String::new();
    proof {
        assert(table@.skip(0) =~= table@);
        assert(out@ + stats_rep(table@.skip(0)) =~= stats_rep(table@));
    }
    for i in 0..n
        invariant
            n == table.len(),
            out@ + stats_rep(table@.skip(i as int)) == stats_rep(table@),
        decreases n - i,
    {
        let ghost before = out@;
        let count: String = crate::numfmt::u64_to_string(table[i].1 as u64);
        out.append(table[i].0.as_str());
        out.append(": ");
        out.append(count.as_str());
        out.append("\n");
        proof {
            let rest = table@.skip(i as int);
            assert(rest[0] == table@[i as int]);
            assert(rest.drop_first() =~= table@.skip(i + 1));
            assert(stats_rep(rest) == rest[0].0@ + ": "@ + dec_rep(rest[0].1 as nat) + "\n"@
                + stats_rep(rest.drop_first()));
            assert(out@ =~= before + rest[0].0@ + ": "@ + dec_rep(rest[0].1 as nat) + "\n"@);
            assert(out@ + stats_rep(table@.skip(i + 1)) =~= stats_rep(table@));
        }
    }
    out
}

} // verus!
