//! The instance filter resolver.
//!
//! The inventory lookup answers a label filter with newline-separated
//! instance identifiers.  This module turns that raw text into the derived
//! filter expression `resource.labels.instance_id=ID1 OR
//! resource.labels.instance_id=ID2 ...` that scopes every log query.  When no
//! instance matches, the expression is empty, which is a valid result and not
//! an error.  It also builds the time-ranged variant used for bounded
//! historical slices.

use vstd::prelude::*;

verus! {

/// The byte that separates lines of the inventory output.
pub open spec fn newline() -> u8 {
    10u8
}

/// Split a byte sequence on newline bytes: n separators make n + 1 parts.
pub open spec fn split_lines(raw: Seq<u8>) -> Seq<Seq<u8>>
    decreases raw.len(),
{
    if raw.len() == 0 {
        seq![Seq::<u8>::empty()]
    } else {
        let parts = split_lines(raw.drop_last());
        if raw.last() == newline() {
            parts.push(Seq::<u8>::empty())
        } else {
            parts.update(parts.len() as int - 1, parts.last().push(raw.last()))
        }
    }
}

/// Keep only the parts that actually hold an identifier.
pub open spec fn keep_nonempty() -> spec_fn(Seq<u8>) -> bool {
    |part: Seq<u8>| part.len() > 0
}

/// The instance identifiers of the raw inventory output: its non-empty lines.
pub open spec fn instance_ids(raw: Seq<u8>) -> Seq<Seq<u8>> {
    split_lines(raw).filter(keep_nonempty())
}

/// The bytes of `resource.labels.instance_id=`.
pub open spec fn clause_prefix() -> Seq<u8> {
    seq![
        114u8, 101, 115, 111, 117, 114, 99, 101, 46, 108, 97, 98, 101, 108, 115, 46, 105, 110, 115,
        116, 97, 110, 99, 101, 95, 105, 100, 61,
    ]
}

/// The bytes of ` OR `.
pub open spec fn or_separator() -> Seq<u8> {
    seq![32u8, 79, 82, 32]
}

/// The sub-filter that scopes one instance identifier.
pub open spec fn clause_of(id: Seq<u8>) -> Seq<u8> {
    clause_prefix() + id
}

pub open spec fn clause_map() -> spec_fn(Seq<u8>) -> Seq<u8> {
    |id: Seq<u8>| clause_of(id)
}

/// Join clauses with ` OR `; empty input joins to the empty expression.
pub open spec fn join_or(clauses: Seq<Seq<u8>>) -> Seq<u8>
    decreases clauses.len(),
{
    if clauses.len() == 0 {
        Seq::<u8>::empty()
    } else if clauses.len() == 1 {
        clauses[0]
    } else {
        join_or(clauses.drop_last()) + or_separator() + clauses.last()
    }
}

/// The filter expression derived from the raw inventory output.
pub open spec fn expression_of(raw: Seq<u8>) -> Seq<u8> {
    join_or(instance_ids(raw).map_values(clause_map()))
}

/// A label filter that resolves to zero instances yields the empty
/// expression, which callers must treat as "no instances currently match".
pub proof fn lemma_no_instances_empty_expression(raw: Seq<u8>)
    requires
        instance_ids(raw).len() == 0,
    ensures
        expression_of(raw).len() == 0,
{
    assert(instance_ids(raw).map_values(clause_map()).len() == 0);
}

/// The executable clause prefix, `resource.labels.instance_id=`.
fn clause_prefix_bytes() -> (prefix: Vec<u8>)
    ensures
        prefix@ == clause_prefix(),
{
    let mut prefix: Vec<u8> = Vec::new();
    prefix.push(114);
    prefix.push(101);
    prefix.push(115);
    prefix.push(111);
    prefix.push(117);
    prefix.push(114);
    prefix.push(99);
    prefix.push(101);
    prefix.push(46);
    prefix.push(108);
    prefix.push(97);
    prefix.push(98);
    prefix.push(101);
    prefix.push(108);
    prefix.push(115);
    prefix.push(46);
    prefix.push(105);
    prefix.push(110);
    prefix.push(115);
    prefix.push(116);
    prefix.push(97);
    prefix.push(110);
    prefix.push(99);
    prefix.push(101);
    prefix.push(95);
    prefix.push(105);
    prefix.push(100);
    prefix.push(61);
    proof {
        assert(prefix@ =~= clause_prefix());
    }
    prefix
}

/// Collect the non-empty lines of the raw inventory output.
fn collect_instance_ids(raw: &Vec<u8>) -> (ids: Vec<Vec<u8>>)
    ensures
        ids.deep_view() == instance_ids(raw@),
{
    let mut ids: Vec<Vec<u8>> = Vec::new();
    let mut current: Vec<u8> = Vec::new();
    let mut i: usize = 0;
    proof {
        assert(raw@.take(0) =~= Seq::<u8>::empty());
        reveal(Seq::filter);
        assert(split_lines(raw@.take(0)).drop_last() =~= Seq::<Seq<u8>>::empty());
    }
    while i < raw.len()
        invariant
            i <= raw.len(),
            split_lines(raw@.take(i as int)).len() >= 1,
            current@ == split_lines(raw@.take(i as int)).last(),
            ids.deep_view() == split_lines(raw@.take(i as int)).drop_last().filter(keep_nonempty()),
        decreases raw.len() - i,
    {
        let ghost before = split_lines(raw@.take(i as int));
        let ghost ids_before = ids.deep_view();
        proof {
            assert(raw@.take(i + 1).drop_last() =~= raw@.take(i as int));
            assert(raw@.take(i + 1).last() == raw@[i as int]);
        }
        if raw[i] == 10 {
            let ghost after = split_lines(raw@.take(i + 1));
            proof {
                assert(after == before.push(Seq::<u8>::empty()));
                assert(after.drop_last() =~= before);
                assert(before =~= before.drop_last() + seq![before.last()]);
                Seq::filter_distributes_over_add(
                    before.drop_last(),
                    seq![before.last()],
                    keep_nonempty(),
                );
                reveal(Seq::filter);
                assert(seq![before.last()].drop_last() =~= Seq::<Seq<u8>>::empty());
                assert(seq![before.last()].filter(keep_nonempty()) == if keep_nonempty()(
                    before.last(),
                ) {
                    seq![before.last()]
                } else {
                    Seq::<Seq<u8>>::empty()
                });
            }
            if current.len() > 0 {
                ids.push(current);
                proof {
                    assert(ids.deep_view() =~= ids_before.push(before.last())) by {
                        assert forall|j: int| 0 <= j < ids@.len() implies ids.deep_view()[j]
                            == ids_before.push(before.last())[j] by {
                            assert(ids@[j].deep_view() =~= ids@[j]@);
                        }
                    }
                    assert(ids_before.push(before.last()) =~= ids_before + seq![before.last()]);
                    assert(ids.deep_view() =~= before.filter(keep_nonempty()));
                }
                current = Vec::new();
            } else {
                proof {
                    assert(!keep_nonempty()(before.last()));
                    assert(ids.deep_view() =~= before.filter(keep_nonempty()));
                }
                current = Vec::new();
            }
        } else {
            let ghost after = split_lines(raw@.take(i + 1));
            current.push(raw[i]);
            proof {
                assert(after == before.update(
                    before.len() as int - 1,
                    before.last().push(raw@[i as int]),
                ));
                assert(after.last() == before.last().push(raw@[i as int]));
                assert(after.drop_last() =~= before.drop_last());
            }
        }
        i += 1;
    }
    proof {
        assert(raw@.take(raw@.len() as int) =~= raw@);
    }
    let ghost whole = split_lines(raw@);
    proof {
        assert(whole =~= whole.drop_last() + seq![whole.last()]);
        Seq::filter_distributes_over_add(whole.drop_last(), seq![whole.last()], keep_nonempty());
        reveal(Seq::filter);
        assert(seq![whole.last()].drop_last() =~= Seq::<Seq<u8>>::empty());
        assert(seq![whole.last()].filter(keep_nonempty()) == if keep_nonempty()(whole.last()) {
            seq![whole.last()]
        } else {
            Seq::<Seq<u8>>::empty()
        });
    }
    let ghost ids_before = ids.deep_view();
    if current.len() > 0 {
        ids.push(current);
        proof {
            assert(ids.deep_view() =~= ids_before.push(whole.last())) by {
                assert forall|j: int| 0 <= j < ids@.len() implies ids.deep_view()[j]
                    == ids_before.push(whole.last())[j] by {
                    assert(ids@[j].deep_view() =~= ids@[j]@);
                }
            }
            assert(ids_before.push(whole.last()) =~= ids_before + seq![whole.last()]);
            assert(ids.deep_view() =~= whole.filter(keep_nonempty()));
        }
    } else {
        proof {
            assert(!keep_nonempty()(whole.last()));
            assert(ids.deep_view() =~= whole.filter(keep_nonempty()));
        }
    }
    ids
}

/// Join the collected identifiers into the boolean-OR filter expression.
fn join_clauses(ids: &Vec<Vec<u8>>) -> (expression: Vec<u8>)
    ensures
        expression@ == join_or(ids.deep_view().map_values(clause_map())),
{
    let ghost mapped = ids.deep_view().map_values(clause_map());
    let mut expression: Vec<u8> = Vec::new();
    let mut j: usize = 0;
    proof {
        assert(mapped.take(0) =~= Seq::<Seq<u8>>::empty());
    }
    while j < ids.len()
        invariant
            j <= ids.len(),
            mapped == ids.deep_view().map_values(clause_map()),
            mapped.len() == ids@.len(),
            expression@ == join_or(mapped.take(j as int)),
        decreases ids.len() - j,
    {
        proof {
            assert(ids@[j as int].deep_view() =~= ids@[j as int]@);
            assert(mapped[j as int] == clause_of(ids@[j as int]@));
            assert(mapped.take(j + 1).drop_last() =~= mapped.take(j as int));
            assert(mapped.take(j + 1).last() == mapped[j as int]);
        }
        if j > 0 {
            expression.push(32);
            expression.push(79);
            expression.push(82);
            expression.push(32);
            proof {
                assert(expression@ =~= join_or(mapped.take(j as int)) + or_separator());
            }
        }
        let prefix = clause_prefix_bytes();
        expression = crate::bytes::push_all(expression, &prefix);
        expression = crate::bytes::push_all(expression, &ids[j]);
        proof {
            if j == 0 {
                assert(expression@ =~= clause_of(ids@[0]@));
                assert(join_or(mapped.take(1)) == mapped.take(1)[0]);
                assert(mapped.take(1)[0] == mapped[0]);
            } else {
                assert(expression@ =~= join_or(mapped.take(j as int)) + or_separator() + clause_of(
                    ids@[j as int]@,
                ));
                assert(join_or(mapped.take(j + 1)) == join_or(mapped.take(j + 1).drop_last())
                    + or_separator() + mapped.take(j + 1).last());
            }
        }
        j += 1;
    }
    proof {
        assert(mapped.take(mapped.len() as int) =~= mapped);
    }
    expression
}

/// Derive the boolean-OR filter expression from the raw inventory output:
/// each non-empty line, an instance identifier, becomes one
/// `resource.labels.instance_id=` clause, joined with ` OR `.
pub fn build_filter_expression(raw: &Vec<u8>) -> (expression: Vec<u8>)
    ensures
        expression@ == expression_of(raw@),
{
    let ids = collect_instance_ids(raw);
    join_clauses(&ids)
}

/// The bytes of `) AND timestamp<="`.
pub open spec fn stop_marker() -> Seq<u8> {
    seq![41u8, 32, 65, 78, 68, 32, 116, 105, 109, 101, 115, 116, 97, 109, 112, 60, 61, 34]
}

/// The bytes of `" AND timestamp>="`.
pub open spec fn start_marker() -> Seq<u8> {
    seq![34u8, 32, 65, 78, 68, 32, 116, 105, 109, 101, 115, 116, 97, 109, 112, 62, 61, 34]
}

/// The time-ranged filter for a bounded historical slice:
/// `(EXPR) AND timestamp<="STOP" AND timestamp>="START"`.
pub open spec fn slice_filter_of(expression: Seq<u8>, start: Seq<u8>, stop: Seq<u8>) -> Seq<u8> {
    seq![40u8] + expression + stop_marker() + stop + start_marker() + start + seq![34u8]
}

fn stop_marker_bytes() -> (marker: Vec<u8>)
    ensures
        marker@ == stop_marker(),
{
    let mut marker: Vec<u8> = Vec::new();
    marker.push(41);
    marker.push(32);
    marker.push(65);
    marker.push(78);
    marker.push(68);
    marker.push(32);
    marker.push(116);
    marker.push(105);
    marker.push(109);
    marker.push(101);
    marker.push(115);
    marker.push(116);
    marker.push(97);
    marker.push(109);
    marker.push(112);
    marker.push(60);
    marker.push(61);
    marker.push(34);
    proof {
        assert(marker@ =~= stop_marker());
    }
    marker
}

fn start_marker_bytes() -> (marker: Vec<u8>)
    ensures
        marker@ == start_marker(),
{
    let mut marker: Vec<u8> = Vec::new();
    marker.push(34);
    marker.push(32);
    marker.push(65);
    marker.push(78);
    marker.push(68);
    marker.push(32);
    marker.push(116);
    marker.push(105);
    marker.push(109);
    marker.push(101);
    marker.push(115);
    marker.push(116);
    marker.push(97);
    marker.push(109);
    marker.push(112);
    marker.push(62);
    marker.push(61);
    marker.push(34);
    proof {
        assert(marker@ =~= start_marker());
    }
    marker
}

/// Build the time-ranged filter for a bounded slice from the instance filter
/// expression and the two rendered timestamps of the inclusive range.
pub fn build_slice_filter(expression: &Vec<u8>, start: &Vec<u8>, stop: &Vec<u8>) -> (filter_text:
    Vec<u8>)
    ensures
        filter_text@ == slice_filter_of(expression@, start@, stop@),
{
    let mut filter_text: Vec<u8> = Vec::new();
    filter_text.push(40);
    proof {
        assert(filter_text@ =~= seq![40u8]);
    }
    filter_text = crate::bytes::push_all(filter_text, expression);
    let stop_mark = stop_marker_bytes();
    filter_text = crate::bytes::push_all(filter_text, &stop_mark);
    filter_text = crate::bytes::push_all(filter_text, stop);
    let start_mark = start_marker_bytes();
    filter_text = crate::bytes::push_all(filter_text, &start_mark);
    filter_text = crate::bytes::push_all(filter_text, start);
    filter_text.push(34);
    proof {
        assert(filter_text@ =~= slice_filter_of(expression@, start@, stop@));
    }
    filter_text
}

} // verus!
