//! The scoreboard: check-in history in, ranked and formatted leaderboard out.
//!
//! Failed check-ins are left out, the successful ones are summed per user,
//! users are ranked by total score, highest first, with ties broken by user id
//! in ascending order, and each entry becomes a line `<name>\t\t<score>`.
use crate::slackinfo::User;
use crate::text::{decimal, id_less, id_precedes, lemma_id_less_order, push_decimal};
use crate::types::Deng;
use vstd::prelude::*;

verus! {

/// What the scoreboard says when nobody has scored yet.
pub const NO_SCORES: &'static str = "No scores yet!";

/// The name shown for a user missing from the directory.
pub const UNKNOWN_USER: &'static str = "Unknown";

/// A user's entry on the scoreboard.
pub struct RankedEntry {
    pub user_id: String,
    pub score: u64,
}

/// The model of a scoreboard entry: user id and total score.
pub type EntryView = (Seq<char>, int);

pub open spec fn entries_view(v: Seq<RankedEntry>) -> Seq<EntryView> {
    v.map_values(|e: RankedEntry| (e.user_id@, e.score as int))
}

/// Total score of `user` over the history `h`: failed records count nothing.
pub open spec fn score_of(h: Seq<Deng>, user: Seq<char>) -> int
    decreases h.len(),
{
    if h.len() == 0 {
        0
    } else {
        score_of(h.drop_last(), user) + (if h.last().user_id@ == user {
            h.last().spec_value()
        } else {
            0
        })
    }
}

/// Whether `user` has a successful record in `h`.
pub open spec fn has_scored(h: Seq<Deng>, user: Seq<char>) -> bool
    decreases h.len(),
{
    if h.len() == 0 {
        false
    } else {
        has_scored(h.drop_last(), user) || (h.last().successful && h.last().user_id@ == user)
    }
}

/// Sum of the values of all records of `h`.
pub open spec fn total_value(h: Seq<Deng>) -> int
    decreases h.len(),
{
    if h.len() == 0 {
        0
    } else {
        total_value(h.drop_last()) + h.last().spec_value()
    }
}

/// Sum of the scores of the entries.
pub open spec fn sum_scores(e: Seq<EntryView>) -> int
    decreases e.len(),
{
    if e.len() == 0 {
        0
    } else {
        sum_scores(e.drop_last()) + e.last().1
    }
}

/// Entry `a` is ranked above entry `b`.
pub open spec fn ranks_before(a: EntryView, b: EntryView) -> bool {
    a.1 > b.1 || (a.1 == b.1 && id_less(a.0, b.0))
}

pub open spec fn strictly_ranked(e: Seq<EntryView>) -> bool {
    forall|i: int, j: int| 0 <= i < j < e.len() ==> ranks_before(#[trigger] e[i], #[trigger] e[j])
}

/// Each entry is a scoring user with the total score, and each scoring user
/// has an entry.
pub open spec fn tallies(h: Seq<Deng>, e: Seq<EntryView>) -> bool {
    &&& forall|i: int| 0 <= i < e.len() ==> has_scored(h, (#[trigger] e[i]).0) && e[i].1 == score_of(h, e[i].0)
    &&& forall|u: Seq<char>| #[trigger] has_scored(h, u) ==> exists|i: int| 0 <= i < e.len() && (#[trigger] e[i]).0 == u
}

/// `e` is the scoreboard of `h`: every scoring user once, with the total
/// score, highest score first and ties in ascending order of user id.
pub open spec fn is_ranking(h: Seq<Deng>, e: Seq<EntryView>) -> bool {
    tallies(h, e) && strictly_ranked(e)
}

/// The name under which `id` is shown: the display name of the first
/// directory entry with that id.
pub open spec fn name_in(dir: Seq<User>, id: Seq<char>) -> Seq<char>
    decreases dir.len(),
{
    if dir.len() == 0 {
        UNKNOWN_USER@
    } else if dir[0].id@ == id {
        dir[0].display_name@
    } else {
        name_in(dir.drop_first(), id)
    }
}

pub open spec fn score_line(dir: Seq<User>, e: EntryView) -> Seq<char> {
    name_in(dir, e.0) + "\t\t"@ + decimal(e.1 as nat)
}

/// The lines of the entries, joined by newlines.
pub open spec fn score_lines(dir: Seq<User>, e: Seq<EntryView>) -> Seq<char>
    decreases e.len(),
{
    if e.len() == 0 {
        Seq::empty()
    } else if e.len() == 1 {
        score_line(dir, e[0])
    } else {
        score_lines(dir, e.drop_last()) + "\n"@ + score_line(dir, e.last())
    }
}

/// The text of a scoreboard: its lines, or the placeholder when it is empty.
pub open spec fn scoreboard_text(dir: Seq<User>, e: Seq<EntryView>) -> Seq<char> {
    if e.len() == 0 {
        NO_SCORES@
    } else {
        score_lines(dir, e)
    }
}

proof fn lemma_score_bounds(h: Seq<Deng>, u: Seq<char>)
    ensures
        0 <= score_of(h, u) <= 3 * h.len(),
        !has_scored(h, u) ==> score_of(h, u) == 0,
    decreases h.len(),
{
    if h.len() > 0 {
        lemma_score_bounds(h.drop_last(), u);
    }
}

proof fn lemma_take_step(h: Seq<Deng>, i: int)
    requires
        0 <= i < h.len(),
    ensures
        forall|u: Seq<char>| #[trigger] score_of(h.take(i + 1), u) == score_of(h.take(i), u) + (if h[i].user_id@ == u {
            h[i].spec_value()
        } else {
            0
        }),
        forall|u: Seq<char>| #[trigger] has_scored(h.take(i + 1), u) == (has_scored(h.take(i), u) || (h[i].successful && h[i].user_id@ == u)),
{
    assert(h.take(i + 1).drop_last() =~= h.take(i));
}

/// Each user's total over the successful records of `dengs`, one entry per
/// scoring user, in no particular order.
fn tally(dengs: &[Deng]) -> (v: Vec<RankedEntry>)
    requires
        dengs@.len() * 3 <= u64::MAX,
    ensures
        tallies(dengs@, entries_view(v@)),
        forall|i: int, j: int| 0 <= i < j < v@.len() ==> (#[trigger] v@[i]).user_id@ != (#[trigger] v@[j]).user_id@,
{
    let ghost h = dengs@;
    let mut v: Vec<RankedEntry> = Vec::new();
    let mut i: usize = 0;
    assert(h.take(0) =~= Seq::<Deng>::empty());
    while i < dengs.len()
        invariant
            h == dengs@,
            h.len() * 3 <= u64::MAX,
            i <= h.len(),
            tallies(h.take(i as int), entries_view(v@)),
            forall|a: int, b: int| 0 <= a < b < v@.len() ==> (#[trigger] v@[a]).user_id@ != (#[trigger] v@[b]).user_id@,
        decreases h.len() - i,
    {
        proof {
            lemma_take_step(h, i as int);
        }
        let d = &dengs[i];
        let ghost before = entries_view(v@);
        if d.successful {
            let mut j: usize = 0;
            while j < v.len() && !(v[j].user_id == d.user_id)
                invariant
                    j <= v@.len(),
                    forall|a: int| 0 <= a < j ==> v@[a].user_id@ != d.user_id@,
                decreases v@.len() - j,
            {
                j += 1;
            }
            let add = d.value() as u64;
            if j < v.len() {
                proof {
                    lemma_score_bounds(h.take(i as int), d.user_id@);
                    assert(before[j as int].0 == d.user_id@);
                }
                v[j].score = v[j].score + add;
                proof {
                    let after = entries_view(v@);
                    assert forall|k: int| 0 <= k < after.len() implies has_scored(h.take(i + 1), (#[trigger] after[k]).0)
                        && after[k].1 == score_of(h.take(i + 1), after[k].0) by {
                        if k != j {
                            assert(after[k] == before[k]);
                            assert(has_scored(h.take(i as int), before[k].0));
                        }
                    }
                    assert forall|u: Seq<char>| #[trigger] has_scored(h.take(i + 1), u) implies exists|k: int|
                        0 <= k < after.len() && (#[trigger] after[k]).0 == u by {
                        if u == d.user_id@ {
                            assert(after[j as int].0 == u);
                        } else {
                            let k = choose|k: int| 0 <= k < before.len() && (#[trigger] before[k]).0 == u;
                            assert(after[k].0 == u);
                        }
                    }
                }
            } else {
                proof {
                    if has_scored(h.take(i as int), d.user_id@) {
                        let k = choose|k: int| 0 <= k < before.len() && (#[trigger] before[k]).0 == d.user_id@;
                        assert(v@[k].user_id@ == d.user_id@);
                    }
                    lemma_score_bounds(h.take(i as int), d.user_id@);
                }
                v.push(RankedEntry { user_id: d.user_id.clone(), score: add });
                proof {
                    let after = entries_view(v@);
                    assert(after.drop_last() =~= before);
                    assert forall|k: int| 0 <= k < after.len() implies has_scored(h.take(i + 1), (#[trigger] after[k]).0)
                        && after[k].1 == score_of(h.take(i + 1), after[k].0) by {
                        if k < before.len() {
                            assert(after[k] == before[k]);
                            assert(has_scored(h.take(i as int), before[k].0));
                        }
                    }
                    assert forall|u: Seq<char>| #[trigger] has_scored(h.take(i + 1), u) implies exists|k: int|
                        0 <= k < after.len() && (#[trigger] after[k]).0 == u by {
                        if u == d.user_id@ {
                            assert(after[before.len() as int].0 == u);
                        } else {
                            let k = choose|k: int| 0 <= k < before.len() && (#[trigger] before[k]).0 == u;
                            assert(after[k].0 == u);
                        }
                    }
                }
            }
        } else {
            proof {
                assert forall|k: int| 0 <= k < before.len() implies has_scored(h.take(i + 1), (#[trigger] before[k]).0)
                    && before[k].1 == score_of(h.take(i + 1), before[k].0) by {
                    assert(has_scored(h.take(i as int), before[k].0));
                }
                assert forall|u: Seq<char>| #[trigger] has_scored(h.take(i + 1), u) implies exists|k: int|
                    0 <= k < before.len() && (#[trigger] before[k]).0 == u by {
                    assert(has_scored(h.take(i as int), u));
                }
            }
        }
        i += 1;
    }
    assert(h.take(h.len() as int) =~= h);
    v
}

/// `ranks_before` is a strict order, total on entries of distinct users.
proof fn lemma_ranks_before_order(a: EntryView, b: EntryView, c: EntryView)
    ensures
        !ranks_before(a, a),
        ranks_before(a, b) && ranks_before(b, c) ==> ranks_before(a, c),
        a.0 != b.0 ==> ranks_before(a, b) || ranks_before(b, a),
{
    lemma_id_less_order(a.0, b.0, c.0);
}

proof fn lemma_insert_keeps_ranked(n: Seq<EntryView>, p: int, xv: EntryView)
    requires
        strictly_ranked(n),
        0 <= p <= n.len(),
        forall|a: int| 0 <= a < p ==> !ranks_before(xv, #[trigger] n[a]),
        p < n.len() ==> ranks_before(xv, n[p]),
        forall|a: int| 0 <= a < n.len() ==> (#[trigger] n[a]).0 != xv.0,
    ensures
        strictly_ranked(n.insert(p, xv)),
{
    let m = n.insert(p, xv);
    assert forall|i: int, j: int| 0 <= i < j < m.len() implies ranks_before(#[trigger] m[i], #[trigger] m[j]) by {
        if j < p {
            assert(m[i] == n[i] && m[j] == n[j]);
        } else if j == p {
            lemma_ranks_before_order(n[i], xv, xv);
            assert(m[i] == n[i]);
        } else if i < p {
            assert(m[i] == n[i] && m[j] == n[j - 1]);
        } else if i == p {
            if j - 1 > p {
                lemma_ranks_before_order(xv, n[p], n[j - 1]);
            }
        } else {
            assert(m[i] == n[i - 1] && m[j] == n[j - 1]);
        }
    }
}

/// Every entry of `n` is one of the first `k` entries of `vv`.
#[verifier::opaque]
spec fn drawn_from(n: Seq<EntryView>, vv: Seq<EntryView>, k: int) -> bool {
    forall|a: int| 0 <= a < n.len() ==> exists|b: int| 0 <= b < k && #[trigger] n[a] == vv[b]
}

/// Each of the first `k` entries of `vv` is in `n`.
#[verifier::opaque]
spec fn all_placed(n: Seq<EntryView>, vv: Seq<EntryView>, k: int) -> bool {
    forall|b: int| 0 <= b < k ==> exists|a: int| 0 <= a < n.len() && n[a] == #[trigger] vv[b]
}

proof fn lemma_insert_keeps_contents(n: Seq<EntryView>, p: int, vv: Seq<EntryView>, k: int)
    requires
        0 <= p <= n.len(),
        0 <= k < vv.len(),
        drawn_from(n, vv, k),
        all_placed(n, vv, k),
    ensures
        drawn_from(n.insert(p, vv[k]), vv, k + 1),
        all_placed(n.insert(p, vv[k]), vv, k + 1),
{
    reveal(drawn_from);
    reveal(all_placed);
    let m = n.insert(p, vv[k]);
    assert forall|a: int| 0 <= a < m.len() implies exists|b: int| 0 <= b < k + 1 && #[trigger] m[a] == vv[b] by {
        if a < p {
            let b = choose|b: int| 0 <= b < k && n[a] == vv[b];
            assert(m[a] == vv[b]);
        } else if a == p {
            assert(m[a] == vv[k]);
        } else {
            let b = choose|b: int| 0 <= b < k && n[a - 1] == vv[b];
            assert(m[a] == vv[b]);
        }
    }
    assert forall|b: int| 0 <= b < k + 1 implies exists|a: int| 0 <= a < m.len() && m[a] == #[trigger] vv[b] by {
        if b == k {
            assert(m[p] == vv[b]);
        } else {
            let a = choose|a: int| 0 <= a < n.len() && n[a] == vv[b];
            if a < p {
                assert(m[a] == vv[b]);
            } else {
                assert(m[a + 1] == vv[b]);
            }
        }
    }
}

fn entry_precedes(a: &RankedEntry, b: &RankedEntry) -> (r: bool)
    ensures
        r == ranks_before((a.user_id@, a.score as int), (b.user_id@, b.score as int)),
{
    a.score > b.score || (a.score == b.score && id_precedes(a.user_id.as_str(), b.user_id.as_str()))
}

/// The scoreboard entries of the history `dengs`: every user with a
/// successful check-in once, with the sum of the values of their records,
/// highest score first and ties in ascending order of user id.
pub fn rank_scores(dengs: &[Deng]) -> (r: Vec<RankedEntry>)
    requires
        dengs@.len() * 3 <= u64::MAX,
    ensures
        is_ranking(dengs@, entries_view(r@)),
{
    let v = tally(dengs);
    let ghost vv = entries_view(v@);
    let mut r: Vec<RankedEntry> = Vec::new();
    let mut k: usize = 0;
    proof {
        reveal(drawn_from);
        reveal(all_placed);
    }
    while k < v.len()
        invariant
            vv == entries_view(v@),
            tallies(dengs@, vv),
            forall|i: int, j: int| 0 <= i < j < v@.len() ==> (#[trigger] v@[i]).user_id@ != (#[trigger] v@[j]).user_id@,
            k <= v@.len(),
            strictly_ranked(entries_view(r@)),
            drawn_from(entries_view(r@), vv, k as int),
            all_placed(entries_view(r@), vv, k as int),
        decreases v@.len() - k,
    {
        let x = RankedEntry { user_id: v[k].user_id.clone(), score: v[k].score };
        let ghost xv = (x.user_id@, x.score as int);
        let ghost n = entries_view(r@);
        assert(xv == vv[k as int]);
        let mut p: usize = 0;
        while p < r.len() && !entry_precedes(&x, &r[p])
            invariant
                n == entries_view(r@),
                xv == (x.user_id@, x.score as int),
                p <= r@.len(),
                forall|a: int| 0 <= a < p ==> !ranks_before(xv, #[trigger] n[a]),
            decreases r@.len() - p,
        {
            p += 1;
        }
        proof {
            reveal(drawn_from);
            assert forall|a: int| 0 <= a < n.len() implies (#[trigger] n[a]).0 != xv.0 by {
                let b = choose|b: int| 0 <= b < k && n[a] == vv[b];
                assert(v@[b].user_id@ != v@[k as int].user_id@);
            }
        }
        proof {
            lemma_insert_keeps_ranked(n, p as int, xv);
            lemma_insert_keeps_contents(n, p as int, vv, k as int);
        }
        r.insert(p, x);
        assert(entries_view(r@) =~= n.insert(p as int, xv));
        k += 1;
    }
    proof {
        reveal(drawn_from);
        reveal(all_placed);
        let rv = entries_view(r@);
        let h = dengs@;
        assert forall|a: int| 0 <= a < rv.len() implies has_scored(h, (#[trigger] rv[a]).0) && rv[a].1 == score_of(h, rv[a].0) by {
            let b = choose|b: int| 0 <= b < k && rv[a] == vv[b];
        }
        assert forall|u: Seq<char>| #[trigger] has_scored(h, u) implies exists|a: int| 0 <= a < rv.len() && (#[trigger] rv[a]).0 == u by {
            let b = choose|b: int| 0 <= b < vv.len() && (#[trigger] vv[b]).0 == u;
            let a = choose|a: int| 0 <= a < rv.len() && rv[a] == vv[b];
        }
    }
    r
}

/// The name shown for `id`: the display name of the first directory entry
/// with that id, or `UNKNOWN_USER`.
fn display_name_of<'a>(directory: &'a [User], id: &String) -> (r: &'a str)
    ensures
        r@ == name_in(directory@, id@),
{
    let ghost dir = directory@;
    let mut j: usize = 0;
    assert(dir.subrange(0, dir.len() as int) =~= dir);
    while j < directory.len()
        invariant
            dir == directory@,
            j <= dir.len(),
            name_in(dir, id@) == name_in(dir.subrange(j as int, dir.len() as int), id@),
        decreases dir.len() - j,
    {
        let ghost rest = dir.subrange(j as int, dir.len() as int);
        assert(rest[0] == dir[j as int]);
        if directory[j].id == *id {
            return directory[j].display_name.as_str();
        }
        assert(rest.drop_first() =~= dir.subrange(j + 1, dir.len() as int));
        j += 1;
    }
    assert(dir.subrange(j as int, dir.len() as int) =~= Seq::<User>::empty());
    UNKNOWN_USER
}

/// The text of the scoreboard `entries`: one line `<name>\t\t<score>` per
/// entry, in order, joined by newlines; `NO_SCORES` when there is no entry.
pub fn render_scoreboard(entries: &[RankedEntry], directory: &[User]) -> (r: String)
    ensures
        r@ == scoreboard_text(directory@, entries_view(entries@)),
{
    if entries.len() == 0 {
        return NO_SCORES.to_owned();
    }
    let ghost ev = entries_view(entries@);
    let mut out = String::new();
    let mut i: usize = 0;
    assert(ev.take(0) =~= Seq::<EntryView>::empty());
    while i < entries.len()
        invariant
            ev == entries_view(entries@),
            i <= ev.len(),
            out@ == score_lines(directory@, ev.take(i as int)),
        decreases ev.len() - i,
    {
        let ghost prev = out@;
        if i > 0 {
            out.append("\n");
        }
        out.append(display_name_of(directory, &entries[i].user_id));
        out.append("\t\t");
        push_decimal(&mut out, entries[i].score);
        proof {
            let t = ev.take(i + 1);
            assert(t.drop_last() =~= ev.take(i as int));
            assert(t.last() == ev[i as int]);
            if i == 0 {
                assert(prev =~= Seq::<char>::empty());
                assert(out@ =~= score_line(directory@, t[0]));
            } else {
                assert(out@ =~= prev + "\n"@ + score_line(directory@, t.last()));
            }
        }
        i += 1;
    }
    assert(ev.take(ev.len() as int) =~= ev);
    out
}

/// The leaderboard text of the history `dengs`, with names from `directory`:
/// the rendering of its ranking (see `rank_scores`), or `NO_SCORES` when
/// nobody has a successful check-in.
pub fn format_scoreboard(dengs: &[Deng], directory: &[User]) -> (r: String)
    requires
        dengs@.len() * 3 <= u64::MAX,
    ensures
        exists|e: Seq<EntryView>| is_ranking(dengs@, e) && r@ == scoreboard_text(directory@, e),
        forall|e: Seq<EntryView>| is_ranking(dengs@, e) ==> r@ == scoreboard_text(directory@, e),
{
    let entries = rank_scores(dengs);
    let r = render_scoreboard(entries.as_slice(), directory);
    proof {
        let ev = entries_view(entries@);
        assert forall|e: Seq<EntryView>| is_ranking(dengs@, e) implies r@ == scoreboard_text(directory@, e) by {
            lemma_ranking_is_unique(dengs@, ev, e);
        }
    }
    r
}

proof fn lemma_strictly_ranked_unique(e1: Seq<EntryView>, e2: Seq<EntryView>)
    requires
        strictly_ranked(e1),
        strictly_ranked(e2),
        forall|x: EntryView| e1.contains(x) <==> e2.contains(x),
    ensures
        e1 == e2,
    decreases e1.len(),
{
    if e1.len() == 0 {
        if e2.len() > 0 {
            assert(e2.contains(e2[0]));
        }
        assert(e1 =~= e2);
    } else {
        assert(e1.contains(e1[0]));
        let j = choose|j: int| 0 <= j < e2.len() && e2[j] == e1[0];
        assert(e2.contains(e2[0]));
        let k = choose|k: int| 0 <= k < e1.len() && e1[k] == e2[0];
        lemma_ranks_before_order(e1[0], e1[k], e1[0]);
        if j > 0 {
            assert(ranks_before(e2[0], e2[j]));
            assert(false);
        }
        let t1 = e1.drop_first();
        let t2 = e2.drop_first();
        assert forall|x: EntryView| t1.contains(x) <==> t2.contains(x) by {
            if t1.contains(x) {
                let i = choose|i: int| 0 <= i < t1.len() && t1[i] == x;
                assert(ranks_before(e1[0], e1[i + 1]));
                lemma_ranks_before_order(x, x, x);
                assert(e2.contains(x));
                let m = choose|m: int| 0 <= m < e2.len() && e2[m] == x;
                assert(t2[m - 1] == x);
            }
            if t2.contains(x) {
                let i = choose|i: int| 0 <= i < t2.len() && t2[i] == x;
                assert(ranks_before(e2[0], e2[i + 1]));
                lemma_ranks_before_order(x, x, x);
                assert(e1.contains(x));
                let m = choose|m: int| 0 <= m < e1.len() && e1[m] == x;
                assert(t1[m - 1] == x);
            }
        }
        lemma_strictly_ranked_unique(t1, t2);
        assert(e1 =~= e2) by {
            assert forall|i: int| 0 < i < e1.len() implies e1[i] == e2[i] by {
                assert(e1[i] == t1[i - 1]);
            }
        }
    }
}

/// A history has one scoreboard: the tie-break by user id leaves no choice.
pub proof fn lemma_ranking_is_unique(h: Seq<Deng>, e1: Seq<EntryView>, e2: Seq<EntryView>)
    requires
        is_ranking(h, e1),
        is_ranking(h, e2),
    ensures
        e1 == e2,
{
    assert forall|x: EntryView| e1.contains(x) implies e2.contains(x) by {
        let i = choose|i: int| 0 <= i < e1.len() && e1[i] == x;
        assert(has_scored(h, e1[i].0));
        let j = choose|j: int| 0 <= j < e2.len() && (#[trigger] e2[j]).0 == x.0;
        assert(e2[j] == x);
    }
    assert forall|x: EntryView| e2.contains(x) implies e1.contains(x) by {
        let i = choose|i: int| 0 <= i < e2.len() && e2[i] == x;
        assert(has_scored(h, e2[i].0));
        let j = choose|j: int| 0 <= j < e1.len() && (#[trigger] e1[j]).0 == x.0;
        assert(e1[j] == x);
    }
    lemma_strictly_ranked_unique(e1, e2);
}

/// Sum over the entries of their users' scores in `h`.
spec fn sum_over(e: Seq<EntryView>, h: Seq<Deng>) -> int
    decreases e.len(),
{
    if e.len() == 0 {
        0
    } else {
        sum_over(e.drop_last(), h) + score_of(h, e.last().0)
    }
}

/// What the record `d` adds to the entries' scores.
spec fn share_of(e: Seq<EntryView>, d: Deng) -> int
    decreases e.len(),
{
    if e.len() == 0 {
        0
    } else {
        share_of(e.drop_last(), d) + (if e.last().0 == d.user_id@ {
            d.spec_value()
        } else {
            0
        })
    }
}

spec fn distinct_users(e: Seq<EntryView>) -> bool {
    forall|i: int, j: int| 0 <= i < j < e.len() ==> (#[trigger] e[i]).0 != (#[trigger] e[j]).0
}

proof fn lemma_sum_over_empty(e: Seq<EntryView>, h: Seq<Deng>)
    requires
        h.len() == 0,
    ensures
        sum_over(e, h) == 0,
    decreases e.len(),
{
    if e.len() > 0 {
        lemma_sum_over_empty(e.drop_last(), h);
    }
}

proof fn lemma_sum_over_step(e: Seq<EntryView>, h: Seq<Deng>)
    requires
        h.len() > 0,
    ensures
        sum_over(e, h) == sum_over(e, h.drop_last()) + share_of(e, h.last()),
    decreases e.len(),
{
    if e.len() > 0 {
        lemma_sum_over_step(e.drop_last(), h);
    }
}

proof fn lemma_share_absent(e: Seq<EntryView>, d: Deng)
    requires
        forall|i: int| 0 <= i < e.len() ==> (#[trigger] e[i]).0 != d.user_id@,
    ensures
        share_of(e, d) == 0,
    decreases e.len(),
{
    if e.len() > 0 {
        lemma_share_absent(e.drop_last(), d);
    }
}

proof fn lemma_share_failed(e: Seq<EntryView>, d: Deng)
    requires
        !d.successful,
    ensures
        share_of(e, d) == 0,
    decreases e.len(),
{
    if e.len() > 0 {
        lemma_share_failed(e.drop_last(), d);
    }
}

proof fn lemma_share_once(e: Seq<EntryView>, d: Deng, i: int)
    requires
        distinct_users(e),
        0 <= i < e.len(),
        e[i].0 == d.user_id@,
    ensures
        share_of(e, d) == d.spec_value(),
    decreases e.len(),
{
    let n = e.len() - 1;
    if i == n {
        assert forall|k: int| 0 <= k < n implies (#[trigger] e.drop_last()[k]).0 != d.user_id@ by {
            assert(e[k].0 != e[n].0);
        }
        lemma_share_absent(e.drop_last(), d);
    } else {
        assert(e[n].0 != e[i].0);
        lemma_share_once(e.drop_last(), d, i);
    }
}

proof fn lemma_has_scored_prefix(h: Seq<Deng>, u: Seq<char>)
    requires
        h.len() > 0,
        has_scored(h.drop_last(), u),
    ensures
        has_scored(h, u),
{
}

proof fn lemma_sum_over_total(e: Seq<EntryView>, h: Seq<Deng>)
    requires
        distinct_users(e),
        forall|u: Seq<char>| #[trigger] has_scored(h, u) ==> exists|i: int| 0 <= i < e.len() && (#[trigger] e[i]).0 == u,
    ensures
        sum_over(e, h) == total_value(h),
    decreases h.len(),
{
    if h.len() == 0 {
        lemma_sum_over_empty(e, h);
    } else {
        let p = h.drop_last();
        let d = h.last();
        assert forall|u: Seq<char>| #[trigger] has_scored(p, u) implies exists|i: int| 0 <= i < e.len() && (#[trigger] e[i]).0 == u by {
            lemma_has_scored_prefix(h, u);
        }
        lemma_sum_over_total(e, p);
        lemma_sum_over_step(e, h);
        if d.successful {
            assert(has_scored(h, d.user_id@));
            let i = choose|i: int| 0 <= i < e.len() && (#[trigger] e[i]).0 == d.user_id@;
            lemma_share_once(e, d, i);
        } else {
            lemma_share_failed(e, d);
        }
    }
}

proof fn lemma_sum_scores_is_sum_over(e: Seq<EntryView>, h: Seq<Deng>)
    requires
        forall|i: int| 0 <= i < e.len() ==> (#[trigger] e[i]).1 == score_of(h, e[i].0),
    ensures
        sum_scores(e) == sum_over(e, h),
    decreases e.len(),
{
    if e.len() > 0 {
        let p = e.drop_last();
        assert forall|i: int| 0 <= i < p.len() implies (#[trigger] p[i]).1 == score_of(h, p[i].0) by {
            assert(p[i] == e[i]);
        }
        lemma_sum_scores_is_sum_over(p, h);
    }
}

/// The scores on the scoreboard add up to the sum of the values of the
/// successful records of the history.
pub proof fn lemma_scoreboard_sums_to_history(h: Seq<Deng>, e: Seq<EntryView>)
    requires
        is_ranking(h, e),
    ensures
        sum_scores(e) == total_value(h),
{
    assert forall|i: int, j: int| 0 <= i < j < e.len() implies (#[trigger] e[i]).0 != (#[trigger] e[j]).0 by {
        assert(ranks_before(e[i], e[j]));
        lemma_ranks_before_order(e[i], e[i], e[i]);
    }
    lemma_sum_scores_is_sum_over(e, h);
    lemma_sum_over_total(e, h);
}

/// A failed record changes no user's score, nor who has scored, nor the
/// scoreboard.
pub proof fn lemma_failed_record_changes_nothing(h: Seq<Deng>, d: Deng, e: Seq<EntryView>)
    requires
        !d.successful,
    ensures
        forall|u: Seq<char>| #[trigger] score_of(h.push(d), u) == score_of(h, u),
        forall|u: Seq<char>| #[trigger] has_scored(h.push(d), u) == has_scored(h, u),
        total_value(h.push(d)) == total_value(h),
        is_ranking(h.push(d), e) == is_ranking(h, e),
{
    let g = h.push(d);
    assert(g.drop_last() =~= h);
    assert forall|u: Seq<char>| #[trigger] has_scored(g, u) == has_scored(h, u) && score_of(g, u) == score_of(h, u) by {}
    if tallies(h, e) {
        assert forall|u: Seq<char>| #[trigger] has_scored(g, u) implies exists|i: int| 0 <= i < e.len() && (#[trigger] e[i]).0 == u by {
            assert(has_scored(h, u));
        }
    }
    if tallies(g, e) {
        assert forall|u: Seq<char>| #[trigger] has_scored(h, u) implies exists|i: int| 0 <= i < e.len() && (#[trigger] e[i]).0 == u by {
            assert(has_scored(g, u));
        }
    }
}

proof fn lemma_nobody_scored(h: Seq<Deng>, u: Seq<char>)
    requires
        forall|i: int| 0 <= i < h.len() ==> !(#[trigger] h[i]).successful,
    ensures
        !has_scored(h, u),
    decreases h.len(),
{
    if h.len() > 0 {
        let p = h.drop_last();
        assert forall|i: int| 0 <= i < p.len() implies !(#[trigger] p[i]).successful by {
            assert(p[i] == h[i]);
        }
        lemma_nobody_scored(p, u);
    }
}

/// Without a successful record the scoreboard is empty, and its text is the
/// placeholder.
pub proof fn lemma_placeholder_when_nobody_scored(h: Seq<Deng>, e: Seq<EntryView>, directory: Seq<User>)
    requires
        forall|i: int| 0 <= i < h.len() ==> !(#[trigger] h[i]).successful,
        is_ranking(h, e),
    ensures
        e.len() == 0,
        scoreboard_text(directory, e) == NO_SCORES@,
{
    if e.len() > 0 {
        lemma_nobody_scored(h, e[0].0);
    }
}

} // verus!
