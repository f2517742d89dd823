//! The line-based synchronization protocol: a payload is a sequence of
//! lines, read as key/value pairs; keys are decimal indices into a table of
//! tracked variables.
//!
//! The table itself is explicit data. Reading a variable's live value out of
//! the target and writing one back are the caller's edge operations; every
//! decision — which pair addresses which variable, whether a write happens,
//! and which variables are reported back — is made here.

use vstd::prelude::*;

use crate::text;

verus! {

/// One tracked variable: the value it had when last synchronized, and
/// whether a local change is waiting to be reported.
pub struct TrackedVariable {
    pub old_val: Vec<u8>,
    pub changed: bool,
}

/// The payload split at newline bytes; a final line ending is optional.
pub open spec fn spec_lines(s: Seq<u8>) -> Seq<Seq<u8>>
    decreases s.len(),
{
    if s.len() == 0 {
        Seq::empty()
    } else {
        let k = text::spec_find_byte(s, 0x0a) as int;
        if k >= s.len() {
            seq![s]
        } else {
            seq![s.subrange(0, k)] + spec_lines(s.subrange(k + 1, s.len() as int))
        }
    }
}

/// Lines read as key/value pairs: an empty line in key position is skipped,
/// and a trailing key without a value is dropped.
pub open spec fn spec_pairs(lines: Seq<Seq<u8>>) -> Seq<(Seq<u8>, Seq<u8>)>
    decreases lines.len(),
{
    if lines.len() == 0 {
        Seq::empty()
    } else if lines[0].len() == 0 {
        spec_pairs(lines.drop_first())
    } else if lines.len() == 1 {
        Seq::empty()
    } else {
        seq![(lines[0], lines[1])] + spec_pairs(lines.subrange(2, lines.len() as int))
    }
}

/// The pairs of a payload.
pub open spec fn spec_payload_pairs(s: Seq<u8>) -> Seq<(Seq<u8>, Seq<u8>)> {
    spec_pairs(spec_lines(s))
}

/// Reads the line starting at `pos`: its bytes, and the position right
/// after its line ending (or the payload's end).
fn read_line(data: &Vec<u8>, pos: usize) -> (r: (Vec<u8>, usize))
    requires
        pos < data@.len(),
    ensures
        pos < r.1 <= data@.len(),
        spec_lines(data@.subrange(pos as int, data@.len() as int)) == seq![r.0@] + spec_lines(
            data@.subrange(r.1 as int, data@.len() as int),
        ),
{
    let n = data.len();
    let k = text::find_byte_from(data, 0x0a, pos);
    proof {
        text::lemma_find_byte(data@.subrange(pos as int, n as int), 0x0a);
    }
    let mut line: Vec<u8> = Vec::new();
    let mut i: usize = pos;
    while i < k
        invariant
            pos <= i <= k,
            k <= n,
            n == data@.len(),
            line@ == data@.subrange(pos as int, i as int),
        decreases k - i,
    {
        line.push(data[i]);
        assert(line@ =~= data@.subrange(pos as int, i as int + 1));
        i = i + 1;
    }
    let next_pos: usize = if k < n {
        k + 1
    } else {
        n
    };
    proof {
        let remaining = data@.subrange(pos as int, n as int);
        let kk = text::spec_find_byte(remaining, 0x0a) as int;
        assert(line@ =~= data@.subrange(pos as int, k as int));
        assert(kk == k - pos);
        assert(remaining.subrange(0, kk) =~= data@.subrange(pos as int, k as int));
        assert(remaining.len() > 0);
        let next_lines = spec_lines(data@.subrange(next_pos as int, n as int));
        if kk == remaining.len() {
            assert(next_pos == n);
            assert(data@.subrange(n as int, n as int) =~= Seq::<u8>::empty());
            assert(next_lines =~= Seq::<Seq<u8>>::empty());
            assert(spec_lines(remaining) =~= seq![remaining]);
            assert(remaining =~= line@);
            assert(spec_lines(remaining) =~= seq![line@] + next_lines);
        } else {
            assert(remaining.subrange(kk + 1, remaining.len() as int) =~= data@.subrange(
                k as int + 1,
                n as int,
            ));
            assert(spec_lines(remaining) =~= seq![line@] + next_lines);
        }
    }
    (line, next_pos)
}

/// Splits a payload into key/value pairs of raw lines.
pub fn parse_line_pairs(data: &Vec<u8>) -> (r: Vec<(Vec<u8>, Vec<u8>)>)
    ensures
        r@.len() == spec_payload_pairs(data@).len(),
        forall|i: int|
            0 <= i < r@.len() ==> #[trigger] r@[i].0@ == spec_payload_pairs(data@)[i].0 && r@[i].1@
                == spec_payload_pairs(data@)[i].1,
{
    let n = data.len();
    let mut r: Vec<(Vec<u8>, Vec<u8>)> = Vec::new();
    let mut pos: usize = 0;
    let ghost full = spec_payload_pairs(data@);
    proof {
        assert(data@.subrange(0, n as int) =~= data@);
    }
    while pos < n
        invariant
            pos <= n,
            n == data@.len(),
            full == spec_payload_pairs(data@),
            ({
                let rest_pairs = spec_pairs(spec_lines(data@.subrange(pos as int, n as int)));
                &&& full.len() == r@.len() + rest_pairs.len()
                &&& (forall|i: int|
                    0 <= i < r@.len() ==> #[trigger] r@[i].0@ == full[i].0 && r@[i].1@ == full[i].1)
                &&& (forall|i: int|
                    0 <= i < rest_pairs.len() ==> #[trigger] rest_pairs[i] == full[r@.len() + i])
            }),
        decreases n - pos,
    {
        let ghost r0 = r@;
        let ghost rest_lines = spec_lines(data@.subrange(pos as int, n as int));
        let ghost rest_pairs = spec_pairs(rest_lines);
        let (key, next1) = read_line(data, pos);
        let ghost mid_lines = spec_lines(data@.subrange(next1 as int, n as int));
        if key.len() == 0 {
            proof {
                assert(rest_lines[0].len() == 0);
                assert(rest_lines.drop_first() =~= mid_lines);
                assert(spec_pairs(rest_lines) == spec_pairs(mid_lines));
            }
            pos = next1;
        } else if next1 >= n {
            proof {
                assert(data@.subrange(n as int, n as int) =~= Seq::<u8>::empty());
                assert(mid_lines =~= Seq::<Seq<u8>>::empty());
                assert(rest_lines =~= seq![key@]);
                assert(rest_lines.len() == 1 && rest_lines[0].len() > 0);
                assert(rest_pairs == Seq::<(Seq<u8>, Seq<u8>)>::empty());
            }
            pos = n;
        } else {
            let ghost gkey = key@;
            let (value, next2) = read_line(data, next1);
            let ghost after_lines = spec_lines(data@.subrange(next2 as int, n as int));
            r.push((key, value));
            proof {
                assert(rest_lines == seq![gkey] + (seq![value@] + after_lines));
                assert(rest_lines.len() >= 2);
                assert(rest_lines[0] == gkey && rest_lines[1] == value@);
                assert(rest_lines[0].len() > 0);
                assert(rest_lines.subrange(2, rest_lines.len() as int) =~= after_lines);
                assert(rest_pairs == seq![(gkey, value@)] + spec_pairs(after_lines));
                assert(rest_pairs.len() >= 1);
                assert(rest_pairs[0] == full[r0.len() as int]);
                assert(r@[r0.len() as int].0@ == gkey && r@[r0.len() as int].1@ == value@);
                assert forall|x: int|
                    0 <= x < r@.len() implies #[trigger] r@[x].0@ == full[x].0 && r@[x].1@
                    == full[x].1 by {
                    if x < r0.len() {
                        assert(r@[x] == r0[x]);
                    } else {
                        assert(full[r0.len() as int].0 == gkey && full[r0.len() as int].1
                            == value@);
                    }
                }
                assert forall|i2: int|
                    0 <= i2 < spec_pairs(after_lines).len() implies #[trigger] spec_pairs(
                    after_lines,
                )[i2] == full[r@.len() + i2] by {
                    assert(rest_pairs[i2 + 1] == spec_pairs(after_lines)[i2]);
                    assert(rest_pairs[i2 + 1] == full[r0.len() + i2 + 1]);
                }
            }
            pos = next2;
        }
    }
    proof {
        assert(data@.subrange(n as int, n as int) =~= Seq::<u8>::empty());
    }
    r
}

/// What one key/value pair contributes to the assignment list: nothing
/// unless its key is a non-empty decimal index that fits the table.
pub open spec fn spec_one_assignment(p: (Seq<u8>, Seq<u8>)) -> Seq<(int, Seq<u8>)> {
    if p.0.len() == 0 {
        Seq::empty()
    } else {
        match text::spec_dec_value(p.0) {
            Some(v) => if v <= usize::MAX {
                seq![(v as int, p.1)]
            } else {
                Seq::empty()
            },
            None => Seq::empty(),
        }
    }
}

/// The pairs whose key is a decimal index, as table assignments in payload
/// order; pairs with an empty, non-numeric or oversized key are dropped.
pub open spec fn spec_assignments(pairs: Seq<(Seq<u8>, Seq<u8>)>) -> Seq<(int, Seq<u8>)>
    decreases pairs.len(),
{
    if pairs.len() == 0 {
        Seq::empty()
    } else {
        spec_one_assignment(pairs[0]) + spec_assignments(pairs.drop_first())
    }
}

/// Decodes parsed pairs into table assignments.
pub fn decode_assignments(pairs: &Vec<(Vec<u8>, Vec<u8>)>) -> (r: Vec<(usize, Vec<u8>)>)
    ensures
        ({
            let expected = spec_assignments(
                pairs@.map_values(|p: (Vec<u8>, Vec<u8>)| (p.0@, p.1@)),
            );
            &&& r@.len() == expected.len()
            &&& (forall|i: int|
                0 <= i < r@.len() ==> #[trigger] r@[i].0 == expected[i].0 && r@[i].1@
                    == expected[i].1)
        }),
{
    let ghost pview = pairs@.map_values(|p: (Vec<u8>, Vec<u8>)| (p.0@, p.1@));
    let mut r: Vec<(usize, Vec<u8>)> = Vec::new();
    let n = pairs.len();
    let mut i: usize = 0;
    while i < n
        invariant
            i <= n,
            n == pairs@.len(),
            pview == pairs@.map_values(|p: (Vec<u8>, Vec<u8>)| (p.0@, p.1@)),
            r@.len() == spec_assignments(pview.subrange(0, i as int)).len(),
            forall|x: int|
                0 <= x < r@.len() ==> #[trigger] r@[x].0 == spec_assignments(
                    pview.subrange(0, i as int),
                )[x].0 && r@[x].1@ == spec_assignments(pview.subrange(0, i as int))[x].1,
        decreases n - i,
    {
        let ghost done_before = spec_assignments(pview.subrange(0, i as int));
        proof {
            lemma_assignments_snoc(pview, i as int);
            assert(pview[i as int].0 == pairs@[i as int].0@);
            assert(pview[i as int].1 == pairs@[i as int].1@);
        }
        let ghost done_after = spec_assignments(pview.subrange(0, i as int + 1));
        let key_value = text::parse_dec_u64(pairs[i].0.as_slice());
        match key_value {
            Some(v) => {
                if v <= (usize::MAX as u64) {
                    let value = pairs[i].1.clone();
                    proof {
                        assert(value@ =~= pairs@[i as int].1@);
                    }
                    let ghost rpre = r@;
                    r.push((v as usize, value));
                    proof {
                        assert(spec_one_assignment(pview[i as int]) =~= seq![
                            (v as int, pview[i as int].1),
                        ]);
                        assert(done_after =~= done_before + seq![(v as int, pview[i as int].1)]);
                        assert(r@[r@.len() - 1].0 == v as usize);
                        assert forall|x: int|
                            0 <= x < r@.len() implies #[trigger] r@[x].0 == done_after[x].0
                            && r@[x].1@ == done_after[x].1 by {
                            if x < rpre.len() {
                                assert(r@[x] == rpre[x]);
                                assert(done_after[x] == done_before[x]);
                            } else {
                                assert(done_after[x] == (v as int, pview[i as int].1));
                            }
                        }
                    }
                } else {
                    proof {
                        assert(spec_one_assignment(pview[i as int]) =~= Seq::<
                            (int, Seq<u8>),
                        >::empty());
                        assert(done_after =~= done_before);
                        assert forall|x: int|
                            0 <= x < r@.len() implies #[trigger] r@[x].0 == done_after[x].0
                            && r@[x].1@ == done_after[x].1 by {
                            assert(done_after[x] == done_before[x]);
                            assert(r@[x].0 == done_before[x].0 && r@[x].1@ == done_before[x].1);
                        }
                    }
                }
            },
            None => {
                proof {
                    assert(usize::MAX <= u64::MAX);
                    assert(spec_one_assignment(pview[i as int]) =~= Seq::<(int, Seq<u8>)>::empty());
                    assert(done_after =~= done_before);
                        assert forall|x: int|
                            0 <= x < r@.len() implies #[trigger] r@[x].0 == done_after[x].0
                            && r@[x].1@ == done_after[x].1 by {
                            assert(done_after[x] == done_before[x]);
                            assert(r@[x].0 == done_before[x].0 && r@[x].1@ == done_before[x].1);
                        }
                }
            },
        }
        proof {
            assert(r@.len() == done_after.len());
            assert forall|x: int|
                0 <= x < r@.len() implies #[trigger] r@[x].0 == spec_assignments(
                pview.subrange(0, i as int + 1),
            )[x].0 && r@[x].1@ == spec_assignments(pview.subrange(0, i as int + 1))[x].1 by {
                assert(r@[x].0 == done_after[x].0 && r@[x].1@ == done_after[x].1);
            }
        }
        i = i + 1;
    }
    proof {
        assert(pview.subrange(0, n as int) =~= pview);
    }
    r
}

/// Extending the decoded prefix by one pair appends that pair's
/// contribution.
proof fn lemma_assignments_snoc(pairs: Seq<(Seq<u8>, Seq<u8>)>, i: int)
    requires
        0 <= i < pairs.len(),
    ensures
        spec_assignments(pairs.subrange(0, i + 1)) == spec_assignments(pairs.subrange(0, i))
            + spec_one_assignment(pairs[i]),
    decreases i,
{
    if i == 0 {
        let p = pairs.subrange(0, 1);
        assert(p.drop_first() =~= Seq::<(Seq<u8>, Seq<u8>)>::empty());
        assert(pairs.subrange(0, 0) =~= Seq::<(Seq<u8>, Seq<u8>)>::empty());
        assert(p[0] == pairs[0]);
        assert(p.drop_first() == Seq::<(Seq<u8>, Seq<u8>)>::empty());
        assert(spec_assignments(Seq::<(Seq<u8>, Seq<u8>)>::empty()) == Seq::<
            (int, Seq<u8>),
        >::empty());
        assert(spec_assignments(p) == spec_one_assignment(pairs[0]) + Seq::<
            (int, Seq<u8>),
        >::empty());
        assert(spec_one_assignment(pairs[0]) + Seq::<(int, Seq<u8>)>::empty()
            =~= Seq::<(int, Seq<u8>)>::empty() + spec_one_assignment(pairs[0]));
    } else {
        let p1 = pairs.subrange(0, i + 1);
        let p0 = pairs.subrange(0, i);
        let tail = pairs.subrange(1, pairs.len() as int);
        lemma_assignments_snoc(tail, i - 1);
        assert(p1.drop_first() =~= tail.subrange(0, i));
        assert(p0.drop_first() =~= tail.subrange(0, i - 1));
        assert(tail[i - 1] == pairs[i]);
        assert(p1[0] == pairs[0] && p0[0] == pairs[0]);
        assert(spec_assignments(p1) == spec_one_assignment(pairs[0]) + spec_assignments(
            tail.subrange(0, i),
        ));
        assert(spec_assignments(tail.subrange(0, i)) == spec_assignments(tail.subrange(0, i - 1))
            + spec_one_assignment(pairs[i]));
        assert(spec_assignments(p1) =~= spec_assignments(p0) + spec_one_assignment(pairs[i]));
    }
}

/// Decides one incoming assignment against a variable's live value.
///
/// The write happens only when the variable is in sync — its last
/// synchronized value equals the live one — and the incoming value differs;
/// a variable that drifted locally is flagged to be reported instead.
pub fn apply_incoming(var: &mut TrackedVariable, current: &Vec<u8>, incoming: &Vec<u8>) -> (write:
    bool)
    ensures
        write <==> (old(var).old_val@ == current@ && incoming@ != current@),
        final(var).changed == (old(var).old_val@ != current@),
        final(var).old_val@ == old(var).old_val@,
{
    let in_sync = crate::bytes::bytes_eq(&var.old_val, current);
    if in_sync {
        var.changed = false;
        let same = crate::bytes::bytes_eq(incoming, current);
        !same
    } else {
        var.changed = true;
        false
    }
}

/// Records the live value read back after an assignment was applied.
pub fn note_current(var: &mut TrackedVariable, fresh: Vec<u8>)
    ensures
        final(var).old_val@ == fresh@,
        final(var).changed == old(var).changed,
{
    var.old_val = fresh;
}

/// Entry `x` of a change report is sound: it names a table slot that was
/// flagged, and carries that slot's live value.
pub open spec fn spec_report_entry_ok(
    r: Seq<(usize, Vec<u8>)>,
    table: Seq<TrackedVariable>,
    currents: Seq<Vec<u8>>,
    x: int,
) -> bool {
    &&& r[x].0 < table.len()
    &&& table[r[x].0 as int].changed
    &&& r[x].1@ == currents[r[x].0 as int]@
}

/// Collects the report of locally changed variables: each flagged variable's
/// index and live value, in table order, clearing every flag.
pub fn collect_changed(vars: &mut Vec<TrackedVariable>, currents: &Vec<Vec<u8>>) -> (r: Vec<
    (usize, Vec<u8>),
>)
    requires
        currents@.len() == old(vars)@.len(),
    ensures
        final(vars)@.len() == old(vars)@.len(),
        forall|i: int|
            0 <= i < final(vars)@.len() ==> !(#[trigger] final(vars)@[i]).changed
                && final(vars)@[i].old_val@ == old(vars)@[i].old_val@,
        forall|x: int, y: int| 0 <= x < y < r@.len() ==> r@[x].0 < r@[y].0,
        forall|x: int|
            0 <= x < r@.len() ==> #[trigger] spec_report_entry_ok(r@, old(vars)@, currents@, x),
        forall|i: int|
            0 <= i < old(vars)@.len() && (#[trigger] old(vars)@[i]).changed ==> exists|x: int|
                0 <= x < r@.len() && r@[x].0 == i,
{
    let ghost orig = vars@;
    let n = vars.len();
    let mut r: Vec<(usize, Vec<u8>)> = Vec::new();
    let mut i: usize = 0;
    while i < n
        invariant
            i <= n,
            n == orig.len(),
            n == vars@.len(),
            currents@.len() == n,
            forall|j: int|
                i <= j < n ==> (#[trigger] vars@[j]).changed == orig[j].changed
                    && vars@[j].old_val@ == orig[j].old_val@,
            forall|j: int|
                0 <= j < i ==> !(#[trigger] vars@[j]).changed && vars@[j].old_val@
                    == orig[j].old_val@,
            forall|x: int, y: int| 0 <= x < y < r@.len() ==> r@[x].0 < r@[y].0,
            forall|x: int| 0 <= x < r@.len() ==> r@[x].0 < i,
            forall|x: int|
                0 <= x < r@.len() ==> #[trigger] spec_report_entry_ok(r@, orig, currents@, x),
            forall|j: int|
                0 <= j < i && (#[trigger] orig[j]).changed ==> exists|x: int|
                    0 <= x < r@.len() && r@[x].0 == j,
        decreases n - i,
    {
        let ghost pre = r@;
        let ghost vars0 = vars@;
        if vars[i].changed {
            let value = currents[i].clone();
            proof {
                assert(value@ =~= currents@[i as int]@);
            }
            r.push((i, value));
            let old_val = vars[i].old_val.clone();
            proof {
                assert(old_val@ =~= vars@[i as int].old_val@);
            }
            vars.set(i, TrackedVariable { old_val, changed: false });
            proof {
                assert(r@[r@.len() - 1].0 == i);
                assert(vars0[i as int].changed == orig[i as int].changed);
                assert(orig[i as int].changed);
                assert forall|x: int|
                    0 <= x < r@.len() implies #[trigger] spec_report_entry_ok(
                    r@,
                    orig,
                    currents@,
                    x,
                ) by {
                    if x < pre.len() {
                        assert(r@[x] == pre[x]);
                        assert(spec_report_entry_ok(pre, orig, currents@, x));
                    } else {
                        assert(r@[x].0 == i && r@[x].1@ == currents@[i as int]@);
                        assert(orig[i as int].changed);
                    }
                }
            }
        }
        proof {
            assert forall|j: int| 0 <= j < i + 1 && (#[trigger] orig[j]).changed implies exists|
                x: int,
            | 0 <= x < r@.len() && r@[x].0 == j by {
                if j < i {
                    let x = choose|x: int| 0 <= x < pre.len() && pre[x].0 == j;
                    assert(r@[x].0 == j);
                } else {
                    assert(r@[r@.len() - 1].0 == i);
                }
            }
        }
        i = i + 1;
    }
    r
}

} // verus!
