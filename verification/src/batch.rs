//! Event batching: deriving the key prefix of a notification and
//! grouping notifications into deduplicated, order-stable units of
//! work keyed by (bucket, prefix).

use vstd::prelude::*;
use crate::text::chars_lt;
use crate::text::chars_eq;
use crate::text::lemma_chars_lt_trichotomy;
use crate::text::lemma_chars_lt_transitive;
use crate::text::lex_lt;
use crate::text::chars_of;
use crate::text::string_of;
use crate::text::push_char;
use crate::pattern::KeyPattern;
use crate::pattern::spec_key_selected;

verus! {

/// A storage-change notification as delivered: the bucket name and
/// the object key may each be missing.
pub struct Notification {
    pub bucket_name: Option<String>,
    pub object_key: Option<String>,
}

/// A unit of work: pull everything under `prefix` in `bucket`, run
/// the handler there, and push the changed files back.
#[derive(Debug)]
pub struct EventBatch {
    pub bucket: String,
    pub prefix: String,
}

/// The (bucket, prefix) pair a unit of work stands for.
pub open spec fn unit_pair(u: EventBatch) -> (Seq<char>, Seq<char>) {
    (u.bucket@, u.prefix@)
}

/// The (bucket, prefix) pairs of a unit list, in order.
pub open spec fn unit_pairs(units: Seq<EventBatch>) -> Seq<(Seq<char>, Seq<char>)> {
    units.map_values(|u: EventBatch| unit_pair(u))
}

/// Strict order on (bucket, prefix) pairs: by bucket first, then by
/// prefix.
pub open spec fn pair_lt(a: (Seq<char>, Seq<char>), b: (Seq<char>, Seq<char>)) -> bool {
    chars_lt(a.0, b.0) || (a.0 == b.0 && chars_lt(a.1, b.1))
}

/// Whether the pairs are in strictly ascending order.
pub open spec fn pairs_sorted(s: Seq<(Seq<char>, Seq<char>)>) -> bool {
    forall|i: int, j: int| 0 <= i < j < s.len() ==> pair_lt(#[trigger] s[i], #[trigger] s[j])
}

/// Of two distinct pairs, exactly one sorts below the other.
pub proof fn lemma_pair_lt_trichotomy(a: (Seq<char>, Seq<char>), b: (Seq<char>, Seq<char>))
    ensures
        pair_lt(a, b) || pair_lt(b, a) || a == b,
        pair_lt(a, b) ==> !pair_lt(b, a) && a != b,
{
    lemma_chars_lt_trichotomy(a.0, b.0);
    lemma_chars_lt_trichotomy(a.1, b.1);
}

/// The order on pairs is transitive.
pub proof fn lemma_pair_lt_transitive(
    a: (Seq<char>, Seq<char>),
    b: (Seq<char>, Seq<char>),
    c: (Seq<char>, Seq<char>),
)
    requires
        pair_lt(a, b),
        pair_lt(b, c),
    ensures
        pair_lt(a, c),
{
    if chars_lt(a.0, b.0) && chars_lt(b.0, c.0) {
        lemma_chars_lt_transitive(a.0, b.0, c.0);
    } else if a.0 == b.0 && a.1 != b.1 && b.0 == c.0 {
        lemma_chars_lt_transitive(a.1, b.1, c.1);
    }
}

/// Whether a notification is taken up: both fields present and the
/// key selected by the configured pattern (no pattern selects all).
pub open spec fn notification_accepted(n: Notification, pat: Option<KeyPattern>, depth: int) -> bool {
    &&& n.object_key is Some
    &&& n.bucket_name is Some
    &&& spec_key_selected(pat, (n.object_key->0)@)
}

/// The (bucket, prefix) pair an accepted notification determines.
pub open spec fn notification_pair(n: Notification, depth: int) -> (Seq<char>, Seq<char>) {
    ((n.bucket_name->0)@, spec_derive_prefix((n.object_key->0)@, depth))
}

/// The set of (bucket, prefix) pairs that the accepted notifications
/// of a sequence determine.
pub open spec fn accepted_pairs(
    records: Seq<Notification>,
    pat: Option<KeyPattern>,
    depth: int,
) -> Set<(Seq<char>, Seq<char>)> {
    Set::new(
        |p: (Seq<char>, Seq<char>)|
            exists|i: int|
                0 <= i < records.len() && notification_accepted(#[trigger] records[i], pat, depth)
                    && notification_pair(records[i], depth) == p,
    )
}

/// What batching guarantees: the units are strictly ascending by
/// (bucket, prefix), and their pairs are exactly those of the
/// accepted notifications.
pub open spec fn batch_result_ok(
    units: Seq<EventBatch>,
    records: Seq<Notification>,
    pat: Option<KeyPattern>,
    depth: int,
) -> bool {
    &&& pairs_sorted(unit_pairs(units))
    &&& unit_pairs(units).to_set() == accepted_pairs(records, pat, depth)
}

/// The segments of a character sequence split on `/`, as `str::split`
/// yields them: an empty input gives one empty segment, and each
/// separator opens a new segment.
pub open spec fn split_slash(s: Seq<char>) -> Seq<Seq<char>>
    decreases s.len(),
{
    if s.len() == 0 {
        seq![Seq::<char>::empty()]
    } else if s[0] == '/' {
        seq![Seq::<char>::empty()] + split_slash(s.skip(1))
    } else {
        let rest = split_slash(s.skip(1));
        seq![seq![s[0]] + rest[0]] + rest.skip(1)
    }
}

/// Splitting always yields at least one segment.
pub proof fn lemma_split_nonempty(s: Seq<char>)
    ensures
        split_slash(s).len() >= 1,
    decreases s.len(),
{
    if s.len() > 0 {
        lemma_split_nonempty(s.skip(1));
    }
}

/// How the split grows when one character is appended: a separator
/// opens a fresh empty segment, any other character extends the last
/// segment.
proof fn lemma_split_push(s: Seq<char>, c: char)
    ensures
        split_slash(s.push(c)) == if c == '/' {
            split_slash(s).push(Seq::<char>::empty())
        } else {
            split_slash(s).update(
                split_slash(s).len() - 1,
                split_slash(s).last().push(c),
            )
        },
    decreases s.len(),
{
    lemma_split_nonempty(s);
    let u = s.push(c);
    if s.len() == 0 {
        assert(u.len() == 1 && u[0] == c);
        if c == '/' {
            assert(u.skip(1) =~= Seq::<char>::empty());
            assert(split_slash(Seq::<char>::empty()) == seq![Seq::<char>::empty()]);
            assert(split_slash(u) =~= split_slash(s).push(Seq::<char>::empty()));
        } else {
            assert(u.skip(1) =~= Seq::<char>::empty());
            let rest = split_slash(u.skip(1));
            assert(split_slash(u) == seq![seq![c] + rest[0]] + rest.skip(1));
            assert(seq![c] + rest[0] =~= Seq::<char>::empty().push(c));
            assert(rest.skip(1) =~= Seq::<Seq<char>>::empty());
            assert(split_slash(u) =~= split_slash(s).update(0, split_slash(s).last().push(c)));
        }
    } else {
        assert(u[0] == s[0]);
        assert(u.skip(1) =~= s.skip(1).push(c));
        lemma_split_push(s.skip(1), c);
        lemma_split_nonempty(s.skip(1));
        let rest = split_slash(s.skip(1));
        let rest_u = split_slash(u.skip(1));
        if s[0] == '/' {
            if c == '/' {
                assert(split_slash(u) =~= split_slash(s).push(Seq::<char>::empty()));
            } else {
                assert(split_slash(s).len() - 1 == rest.len());
                assert(split_slash(s).last() == rest.last());
                assert(split_slash(u) =~= split_slash(s).update(
                    split_slash(s).len() - 1,
                    split_slash(s).last().push(c),
                ));
            }
        } else {
            if c == '/' {
                assert(rest_u == rest.push(Seq::<char>::empty()));
                assert(rest_u[0] == rest[0]);
                assert(rest_u.skip(1) =~= rest.skip(1).push(Seq::<char>::empty()));
                assert(split_slash(u) =~= split_slash(s).push(Seq::<char>::empty()));
            } else {
                assert(rest_u == rest.update(rest.len() - 1, rest.last().push(c)));
                if rest.len() == 1 {
                    assert(rest_u[0] == rest[0].push(c));
                    assert(rest_u.skip(1) =~= rest.skip(1));
                    assert(seq![s[0]] + rest[0].push(c) =~= (seq![s[0]] + rest[0]).push(c));
                    assert(split_slash(u) =~= split_slash(s).update(
                        split_slash(s).len() - 1,
                        split_slash(s).last().push(c),
                    ));
                } else {
                    assert(rest_u[0] == rest[0]);
                    assert(rest_u.skip(1) =~= rest.skip(1).update(
                        rest.len() - 2,
                        rest.last().push(c),
                    ));
                    assert(split_slash(s).last() == rest.last());
                    assert(split_slash(u) =~= split_slash(s).update(
                        split_slash(s).len() - 1,
                        split_slash(s).last().push(c),
                    ));
                }
            }
        }
    }
}

/// The segments joined with `/` between each two.
pub open spec fn join_slash(parts: Seq<Seq<char>>) -> Seq<char>
    decreases parts.len(),
{
    if parts.len() == 0 {
        Seq::empty()
    } else if parts.len() == 1 {
        parts[0]
    } else {
        parts[0] + seq!['/'] + join_slash(parts.skip(1))
    }
}

/// How the join grows when one segment is appended.
proof fn lemma_join_push(parts: Seq<Seq<char>>, q: Seq<char>)
    ensures
        join_slash(parts.push(q)) == if parts.len() == 0 {
            q
        } else {
            join_slash(parts) + seq!['/'] + q
        },
    decreases parts.len(),
{
    let u = parts.push(q);
    if parts.len() == 0 {
        assert(u.len() == 1 && u[0] == q);
    } else if parts.len() == 1 {
        assert(u.len() == 2);
        assert(u[0] == parts[0]);
        assert(u.skip(1) =~= seq![q]);
        assert(join_slash(u.skip(1)) == q);
    } else {
        assert(u[0] == parts[0]);
        assert(u.skip(1) =~= parts.skip(1).push(q));
        lemma_join_push(parts.skip(1), q);
        assert(parts[0] + seq!['/'] + (join_slash(parts.skip(1)) + seq!['/'] + q) =~= (parts[0]
            + seq!['/'] + join_slash(parts.skip(1))) + seq!['/'] + q);
    }
}

/// The key prefix that a notification's object key determines: the
/// key is split on `/`, the last `depth + 1` segments are dropped,
/// and the rest are re-joined; a non-empty prefix ends in `/`. A
/// negative depth, or one at or beyond the number of segments, gives
/// the empty prefix.
pub open spec fn spec_derive_prefix(key: Seq<char>, depth: int) -> Seq<char> {
    if depth < 0 {
        Seq::empty()
    } else {
        let parts = split_slash(key);
        let keep = if parts.len() >= depth + 1 {
            parts.len() - (depth + 1)
        } else {
            0
        };
        let joined = join_slash(parts.take(keep as int));
        if joined.len() == 0 {
            joined
        } else {
            joined.push('/')
        }
    }
}

/// Splits a character sequence on `/`.
pub fn split_slash_exec(s: &Vec<char>) -> (r: Vec<Vec<char>>)
    ensures
        r@.map_values(|seg: Vec<char>| seg@) == split_slash(s@),
{
    let mut parts: Vec<Vec<char>> = Vec::new();
    let mut cur: Vec<char> = Vec::new();
    let mut i: usize = 0;
    proof {
        assert(s@.take(0) =~= Seq::<char>::empty());
        assert(parts@.map_values(|seg: Vec<char>| seg@).push(cur@) =~= split_slash(s@.take(0)));
    }
    while i < s.len()
        invariant
            i <= s@.len(),
            parts@.map_values(|seg: Vec<char>| seg@).push(cur@) == split_slash(s@.take(i as int)),
        decreases s@.len() - i,
    {
        let c = s[i];
        proof {
            assert(s@.take(i + 1) =~= s@.take(i as int).push(s@[i as int]));
            lemma_split_push(s@.take(i as int), s@[i as int]);
        }
        let ghost pv = parts@.map_values(|seg: Vec<char>| seg@);
        if c == '/' {
            let done = cur;
            cur = Vec::new();
            parts.push(done);
            proof {
                assert(parts@.map_values(|seg: Vec<char>| seg@) =~= pv.push(done@));
                assert(parts@.map_values(|seg: Vec<char>| seg@).push(cur@) =~= split_slash(
                    s@.take(i as int),
                ).push(Seq::<char>::empty()));
            }
        } else {
            cur.push(c);
            proof {
                let old_split = split_slash(s@.take(i as int));
                assert(old_split.len() - 1 == pv.len());
                assert(old_split.last() == cur@.drop_last());
                assert(cur@ =~= old_split.last().push(c));
                assert(pv.push(cur@) =~= old_split.update(old_split.len() - 1, cur@));
            }
        }
        i = i + 1;
    }
    proof {
        assert(s@.take(s@.len() as int) =~= s@);
    }
    parts.push(cur);
    proof {
        assert(parts@.map_values(|seg: Vec<char>| seg@) =~= split_slash(s@));
    }
    parts
}

/// Joins the first `keep` of the given segments with `/`.
fn join_first_exec(parts: &Vec<Vec<char>>, keep: usize) -> (r: Vec<char>)
    requires
        keep <= parts@.len(),
    ensures
        r@ == join_slash(parts@.map_values(|seg: Vec<char>| seg@).take(keep as int)),
{
    let ghost pv = parts@.map_values(|seg: Vec<char>| seg@);
    let mut out: Vec<char> = Vec::new();
    let mut i: usize = 0;
    proof {
        assert(pv.take(0) =~= Seq::<Seq<char>>::empty());
    }
    while i < keep
        invariant
            i <= keep,
            keep <= parts@.len(),
            pv == parts@.map_values(|seg: Vec<char>| seg@),
            out@ == join_slash(pv.take(i as int)),
        decreases keep - i,
    {
        proof {
            assert(pv.take(i + 1) =~= pv.take(i as int).push(pv[i as int]));
            lemma_join_push(pv.take(i as int), pv[i as int]);
        }
        if i > 0 {
            out.push('/');
        }
        let mut j: usize = 0;
        let ghost base = out@;
        while j < parts[i].len()
            invariant
                j <= parts@[i as int]@.len(),
                i < parts@.len(),
                out@ == base + parts@[i as int]@.take(j as int),
            decreases parts@[i as int]@.len() - j,
        {
            let c = parts[i][j];
            out.push(c);
            j = j + 1;
            proof {
                assert(base + parts@[i as int]@.take(j as int) =~= (base + parts@[i as int]@.take(
                    j - 1,
                )).push(parts@[i as int]@[j - 1]));
            }
        }
        proof {
            assert(parts@[i as int]@.take(parts@[i as int]@.len() as int) =~= parts@[i as int]@);
            assert(pv[i as int] == parts@[i as int]@);
            if i == 0 {
                assert(out@ =~= join_slash(pv.take(i + 1)));
            } else {
                assert(out@ =~= join_slash(pv.take(i as int)) + seq!['/'] + pv[i as int]);
            }
        }
        i = i + 1;
    }
    out
}

/// Derives the pull prefix from an object key: the last
/// `pull_parent_dirs + 1` path segments are dropped and the remainder
/// is re-joined, ending in `/` when non-empty. A negative depth pulls
/// the whole bucket (empty prefix).
pub fn derive_prefix(key: &str, pull_parent_dirs: i32) -> (r: String)
    ensures
        r@ == spec_derive_prefix(key@, pull_parent_dirs as int),
{
    if pull_parent_dirs < 0 {
        let empty: Vec<char> = Vec::new();
        return string_of(&empty);
    }
    let k = chars_of(key);
    let parts = split_slash_exec(&k);
    let depth = pull_parent_dirs as usize;
    let keep = if parts.len() >= depth + 1 {
        parts.len() - (depth + 1)
    } else {
        0
    };
    let joined = join_first_exec(&parts, keep);
    if joined.len() == 0 {
        string_of(&joined)
    } else {
        let mut s = string_of(&joined);
        push_char(&mut s, '/');
        s
    }
}

/// Whether `a` sorts strictly below `b` by (bucket, prefix).
fn batch_lt(a: &EventBatch, b: &EventBatch) -> (r: bool)
    ensures
        r == pair_lt(unit_pair(*a), unit_pair(*b)),
{
    let ab = chars_of(a.bucket.as_str());
    let bb = chars_of(b.bucket.as_str());
    if lex_lt(&ab, &bb) {
        true
    } else if chars_eq(&ab, &bb) {
        let ap = chars_of(a.prefix.as_str());
        let bp = chars_of(b.prefix.as_str());
        lex_lt(&ap, &bp)
    } else {
        false
    }
}

/// Whether the two units carry the same (bucket, prefix) pair.
fn batch_same_pair(a: &EventBatch, b: &EventBatch) -> (r: bool)
    ensures
        r == (unit_pair(*a) == unit_pair(*b)),
{
    a.bucket.eq(&b.bucket) && a.prefix.eq(&b.prefix)
}

/// Inserts a unit into a strictly sorted list, keeping it sorted and
/// deduplicated: a unit with the same pair is dropped.
fn insert_unit(units: &mut Vec<EventBatch>, u: EventBatch)
    requires
        pairs_sorted(unit_pairs(old(units)@)),
    ensures
        pairs_sorted(unit_pairs(final(units)@)),
        unit_pairs(final(units)@).to_set() == unit_pairs(old(units)@).to_set().insert(
            unit_pair(u),
        ),
{
    let mut pos: usize = 0;
    while pos < units.len() && batch_lt(&units[pos], &u)
        invariant
            pos <= units@.len(),
            units@ == old(units)@,
            forall|j: int| 0 <= j < pos ==> pair_lt(unit_pair(#[trigger] units@[j]), unit_pair(u)),
        decreases units@.len() - pos,
    {
        pos = pos + 1;
    }
    if pos < units.len() && batch_same_pair(&units[pos], &u) {
        proof {
            let up = unit_pairs(units@);
            assert(up[pos as int] == unit_pair(u));
            assert(up.to_set().contains(unit_pair(u)));
            assert(up.to_set() =~= up.to_set().insert(unit_pair(u)));
        }
        return;
    }
    proof {
        assert forall|k: int| pos <= k < units@.len() implies pair_lt(
            unit_pair(u),
            unit_pair(#[trigger] units@[k]),
        ) by {
            lemma_pair_lt_trichotomy(unit_pair(units@[pos as int]), unit_pair(u));
            if k > pos {
                assert(unit_pairs(units@)[pos as int] == unit_pair(units@[pos as int]));
                assert(unit_pairs(units@)[k] == unit_pair(units@[k]));
                assert(pair_lt(unit_pairs(units@)[pos as int], unit_pairs(units@)[k]));
                lemma_pair_lt_transitive(
                    unit_pair(u),
                    unit_pair(units@[pos as int]),
                    unit_pair(units@[k]),
                );
            }
        }
    }
    let ghost before = units@;
    units.insert(pos, u);
    proof {
        let up0 = unit_pairs(before);
        let up1 = unit_pairs(units@);
        assert(up1 =~= up0.insert(pos as int, unit_pair(u))) by {
            assert(units@ == before.insert(pos as int, u));
            assert forall|k: int| 0 <= k < up1.len() implies up1[k] == up0.insert(
                pos as int,
                unit_pair(u),
            )[k] by {
                if k < pos {
                    assert(units@[k] == before[k]);
                } else if k == pos {
                    assert(units@[k] == u);
                } else {
                    assert(units@[k] == before[k - 1]);
                }
            }
        }
        assert(pairs_sorted(up1)) by {
            assert forall|i: int, j: int| 0 <= i < j < up1.len() implies pair_lt(
                #[trigger] up1[i],
                #[trigger] up1[j],
            ) by {
                if j < pos {
                    assert(up1[i] == up0[i] && up1[j] == up0[j]);
                } else if i < pos && j == pos {
                    assert(up1[i] == up0[i]);
                } else if i < pos && j > pos {
                    assert(up1[i] == up0[i] && up1[j] == up0[j - 1]);
                    if j - 1 == pos as int - 1 {
                        // impossible: j > pos means j - 1 >= pos
                    }
                    if i < pos <= j - 1 {
                        if pos as int <= j - 1 {
                            assert(pair_lt(unit_pair(u), up0[j - 1]));
                            lemma_pair_lt_transitive(up0[i], unit_pair(u), up0[j - 1]);
                        }
                    }
                } else if i == pos {
                    assert(up1[j] == up0[j - 1]);
                } else {
                    assert(up1[i] == up0[i - 1] && up1[j] == up0[j - 1]);
                }
            }
        }
        assert(up1.to_set() =~= up0.to_set().insert(unit_pair(u))) by {
            assert forall|p: (Seq<char>, Seq<char>)| up1.to_set().contains(p) implies
                up0.to_set().insert(unit_pair(u)).contains(p) by {
                let k = choose|k: int| 0 <= k < up1.len() && up1[k] == p;
                if k < pos {
                    assert(up0[k] == p);
                } else if k > pos {
                    assert(up0[k - 1] == p);
                }
            }
            assert forall|p: (Seq<char>, Seq<char>)| up0.to_set().insert(unit_pair(u)).contains(
                p,
            ) implies up1.to_set().contains(p) by {
                if p == unit_pair(u) {
                    assert(up1[pos as int] == p);
                } else {
                    let k = choose|k: int| 0 <= k < up0.len() && up0[k] == p;
                    if k < pos {
                        assert(up1[k] == p);
                    } else {
                        assert(up1[k + 1] == p);
                    }
                }
            }
        }
    }
}

/// How the accepted-pair set grows from one notification to the next.
proof fn lemma_accepted_pairs_take_step(
    records: Seq<Notification>,
    pat: Option<KeyPattern>,
    depth: int,
    i: int,
)
    requires
        0 <= i < records.len(),
    ensures
        accepted_pairs(records.take(i + 1), pat, depth) == if notification_accepted(
            records[i],
            pat,
            depth,
        ) {
            accepted_pairs(records.take(i), pat, depth).insert(notification_pair(records[i], depth))
        } else {
            accepted_pairs(records.take(i), pat, depth)
        },
{
    let s0 = accepted_pairs(records.take(i), pat, depth);
    let s1 = accepted_pairs(records.take(i + 1), pat, depth);
    if notification_accepted(records[i], pat, depth) {
        let rhs = s0.insert(notification_pair(records[i], depth));
        assert forall|p: (Seq<char>, Seq<char>)| s1.contains(p) implies rhs.contains(p) by {
            let j = choose|j: int|
                0 <= j < records.take(i + 1).len() && notification_accepted(
                    #[trigger] records.take(i + 1)[j],
                    pat,
                    depth,
                ) && notification_pair(records.take(i + 1)[j], depth) == p;
            if j < i {
                assert(records.take(i)[j] == records[j]);
            }
        }
        assert forall|p: (Seq<char>, Seq<char>)| rhs.contains(p) implies s1.contains(p) by {
            if p == notification_pair(records[i], depth) {
                assert(records.take(i + 1)[i] == records[i]);
            } else {
                let j = choose|j: int|
                    0 <= j < records.take(i).len() && notification_accepted(
                        #[trigger] records.take(i)[j],
                        pat,
                        depth,
                    ) && notification_pair(records.take(i)[j], depth) == p;
                assert(records.take(i + 1)[j] == records[j]);
            }
        }
        assert(s1 =~= rhs);
    } else {
        assert forall|p: (Seq<char>, Seq<char>)| s1.contains(p) implies s0.contains(p) by {
            let j = choose|j: int|
                0 <= j < records.take(i + 1).len() && notification_accepted(
                    #[trigger] records.take(i + 1)[j],
                    pat,
                    depth,
                ) && notification_pair(records.take(i + 1)[j], depth) == p;
            assert(records.take(i + 1)[j] == records[j]);
            if j == i {
                // contradicts: records[i] is not accepted
            } else {
                assert(records.take(i)[j] == records[j]);
            }
        }
        assert forall|p: (Seq<char>, Seq<char>)| s0.contains(p) implies s1.contains(p) by {
            let j = choose|j: int|
                0 <= j < records.take(i).len() && notification_accepted(
                    #[trigger] records.take(i)[j],
                    pat,
                    depth,
                ) && notification_pair(records.take(i)[j], depth) == p;
            assert(records.take(i + 1)[j] == records[j]);
        }
        assert(s1 =~= s0);
    }
}

/// Groups notifications into deduplicated units of work: one unit per
/// distinct (bucket, prefix) pair of the accepted notifications, in
/// ascending pair order. Malformed or unselected notifications are
/// dropped; this function never fails.
pub fn batch_units(records: &Vec<Notification>, pat: &Option<KeyPattern>, depth: i32) -> (r: Vec<
    EventBatch,
>)
    ensures
        batch_result_ok(r@, records@, *pat, depth as int),
{
    let mut units: Vec<EventBatch> = Vec::new();
    proof {
        assert(unit_pairs(units@) =~= Seq::<(Seq<char>, Seq<char>)>::empty());
        assert(unit_pairs(units@).to_set() =~= accepted_pairs(records@.take(0), *pat, depth as int));
    }
    let mut i: usize = 0;
    while i < records.len()
        invariant
            i <= records@.len(),
            pairs_sorted(unit_pairs(units@)),
            unit_pairs(units@).to_set() == accepted_pairs(records@.take(i as int), *pat, depth as int),
        decreases records@.len() - i,
    {
        let rec = &records[i];
        let mut accepted = false;
        let mut bucket = String::new();
        let mut prefix = String::new();
        if let Some(k) = &rec.object_key {
            if let Some(b) = &rec.bucket_name {
                let selected = match pat {
                    Option::None => true,
                    Option::Some(p) => p.matches(k.as_str()),
                };
                if selected {
                    accepted = true;
                    bucket = b.clone();
                    prefix = derive_prefix(k.as_str(), depth);
                }
            }
        }
        proof {
            assert(accepted == notification_accepted(records@[i as int], *pat, depth as int));
            lemma_accepted_pairs_take_step(records@, *pat, depth as int, i as int);
        }
        if accepted {
            proof {
                assert((bucket@, prefix@) == notification_pair(records@[i as int], depth as int));
            }
            insert_unit(&mut units, EventBatch { bucket, prefix });
        }
        i = i + 1;
    }
    proof {
        assert(records@.take(records@.len() as int) =~= records@);
    }
    units
}

/// Two strictly sorted pair lists with the same pair set are equal.
pub proof fn lemma_sorted_pairs_unique(s1: Seq<(Seq<char>, Seq<char>)>, s2: Seq<(Seq<char>, Seq<char>)>)
    requires
        pairs_sorted(s1),
        pairs_sorted(s2),
        s1.to_set() == s2.to_set(),
    ensures
        s1 == s2,
    decreases s1.len(),
{
    if s1.len() == 0 {
        if s2.len() > 0 {
            assert(s2.to_set().contains(s2[0]));
            assert(s1.to_set().contains(s2[0]));
            assert(false);
        }
        assert(s1 =~= s2);
    } else if s2.len() == 0 {
        assert(s1.to_set().contains(s1[0]));
        assert(s2.to_set().contains(s1[0]));
        assert(false);
    } else {
        // the heads are each list's least pair, so they coincide
        assert(s1.to_set().contains(s1[0]));
        assert(s2.to_set().contains(s1[0]));
        let j = choose|j: int| 0 <= j < s2.len() && s2[j] == s1[0];
        assert(s2.to_set().contains(s2[0]));
        assert(s1.to_set().contains(s2[0]));
        let k = choose|k: int| 0 <= k < s1.len() && s1[k] == s2[0];
        if j > 0 && k > 0 {
            assert(pair_lt(s2[0], s2[j]));
            assert(pair_lt(s1[0], s1[k]));
            lemma_pair_lt_trichotomy(s1[0], s2[0]);
            assert(false);
        }
        assert(s1[0] == s2[0]);
        let t1 = s1.skip(1);
        let t2 = s2.skip(1);
        assert forall|a: int, b: int| 0 <= a < b < t1.len() implies pair_lt(
            #[trigger] t1[a],
            #[trigger] t1[b],
        ) by {
            assert(t1[a] == s1[a + 1] && t1[b] == s1[b + 1]);
        }
        assert forall|a: int, b: int| 0 <= a < b < t2.len() implies pair_lt(
            #[trigger] t2[a],
            #[trigger] t2[b],
        ) by {
            assert(t2[a] == s2[a + 1] && t2[b] == s2[b + 1]);
        }
        assert(t1.to_set() =~= t2.to_set()) by {
            assert forall|p: (Seq<char>, Seq<char>)| t1.to_set().contains(p) implies
                t2.to_set().contains(p) by {
                let a = choose|a: int| 0 <= a < t1.len() && t1[a] == p;
                assert(s1[a + 1] == p);
                assert(pair_lt(s1[0], p));
                lemma_pair_lt_trichotomy(s1[0], p);
                assert(s1.to_set().contains(p));
                assert(s2.to_set().contains(p));
                let b = choose|b: int| 0 <= b < s2.len() && s2[b] == p;
                assert(b != 0);
                assert(t2[b - 1] == p);
            }
            assert forall|p: (Seq<char>, Seq<char>)| t2.to_set().contains(p) implies
                t1.to_set().contains(p) by {
                let a = choose|a: int| 0 <= a < t2.len() && t2[a] == p;
                assert(s2[a + 1] == p);
                assert(pair_lt(s2[0], p));
                lemma_pair_lt_trichotomy(s2[0], p);
                assert(s2.to_set().contains(p));
                assert(s1.to_set().contains(p));
                let b = choose|b: int| 0 <= b < s1.len() && s1[b] == p;
                assert(b != 0);
                assert(t1[b - 1] == p);
            }
        }
        lemma_sorted_pairs_unique(t1, t2);
        assert forall|m: int| 0 <= m < s1.len() implies s1[m] == s2[m] by {
            if m > 0 {
                assert(s1[m] == t1[m - 1] && s2[m] == t2[m - 1]);
            }
        }
        assert(s1 =~= s2);
    }
}

/// The Event Batcher is idempotent and order-stable: for one and the
/// same notification sequence, any two unit lists that meet the
/// batcher's contract carry the same (bucket, prefix) pairs in the
/// same order, so a second application yields the same deduplicated
/// set of units of work.
pub proof fn lemma_batching_stable(
    units1: Seq<EventBatch>,
    units2: Seq<EventBatch>,
    records: Seq<Notification>,
    pat: Option<KeyPattern>,
    depth: int,
)
    requires
        batch_result_ok(units1, records, pat, depth),
        batch_result_ok(units2, records, pat, depth),
    ensures
        unit_pairs(units1) == unit_pairs(units2),
{
    lemma_sorted_pairs_unique(unit_pairs(units1), unit_pairs(units2));
}

} // verus!
