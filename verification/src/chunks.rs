//! The mathematical model of the split: how a sequence of records is
//! partitioned into chunks of a fixed capacity, what bytes each chunk
//! file holds, and the laws that a whole run obeys.

use vstd::prelude::*;
use vstd::arithmetic::div_mod::lemma_fundamental_div_mod_converse;
use vstd::seq_lib::lemma_flatten_concat;

verus! {

/// The chunk partition of `s` with capacity `c`: groups of exactly `c`
/// consecutive records, and a final group of the `1..c` records left
/// over, if any.
pub open spec fn chunks_of(s: Seq<Seq<u8>>, c: nat) -> Seq<Seq<Seq<u8>>>
    decreases s.len() when c >= 1
{
    if s.len() == 0 {
        Seq::empty()
    } else if s.len() <= c {
        seq![s]
    } else {
        seq![s.take(c as int)] + chunks_of(s.skip(c as int), c)
    }
}

/// One record as it stands in a chunk file: its bytes followed by a
/// single newline byte.
pub open spec fn record_line(r: Seq<u8>) -> Seq<u8> {
    r.push(10u8)
}

/// The bytes of a chunk file holding the records `rs`, in order, each
/// terminated by a newline.
pub open spec fn file_bytes(rs: Seq<Seq<u8>>) -> Seq<u8>
    decreases rs.len(),
{
    if rs.len() == 0 {
        Seq::empty()
    } else {
        record_line(rs.first()) + file_bytes(rs.drop_first())
    }
}

/// The bytes of the files `ss` concatenated in index order.
pub open spec fn all_files_bytes(ss: Seq<Seq<Seq<u8>>>) -> Seq<u8>
    decreases ss.len(),
{
    if ss.len() == 0 {
        Seq::empty()
    } else {
        file_bytes(ss.first()) + all_files_bytes(ss.drop_first())
    }
}

/// One record arrives while `files` are committed and `cur` fills the
/// open file: the record joins the open file, which is committed the
/// moment it reaches the capacity `c`.
pub open spec fn feed_record(
    files: Seq<Seq<Seq<u8>>>,
    cur: Seq<Seq<u8>>,
    r: Seq<u8>,
    c: nat,
) -> (Seq<Seq<Seq<u8>>>, Seq<Seq<u8>>) {
    if cur.len() + 1 < c {
        (files, cur.push(r))
    } else {
        (files.push(cur.push(r)), Seq::empty())
    }
}

/// The source ends: a partially filled open file is committed; an empty
/// one is discarded and commits nothing.
pub open spec fn feed_end(files: Seq<Seq<Seq<u8>>>, cur: Seq<Seq<u8>>) -> Seq<Seq<Seq<u8>>> {
    if cur.len() == 0 {
        files
    } else {
        files.push(cur)
    }
}

/// Feeds the records of `s`, in order, starting from `files` committed
/// and `cur` filling the open file.
pub open spec fn feed_records(
    files: Seq<Seq<Seq<u8>>>,
    cur: Seq<Seq<u8>>,
    s: Seq<Seq<u8>>,
    c: nat,
) -> (Seq<Seq<Seq<u8>>>, Seq<Seq<u8>>)
    decreases s.len(),
{
    if s.len() == 0 {
        (files, cur)
    } else {
        let stepped = feed_record(files, cur, s.first(), c);
        feed_records(stepped.0, stepped.1, s.drop_first(), c)
    }
}

/// The files committed by a complete run over the records of `s`:
/// everything fed in order, then the end of the source.
pub open spec fn run_files(s: Seq<Seq<u8>>, c: nat) -> Seq<Seq<Seq<u8>>> {
    let fed = feed_records(Seq::empty(), Seq::empty(), s, c);
    feed_end(fed.0, fed.1)
}

/// Law: feeding records one at a time commits exactly the chunk
/// partition, whatever committed files and partial chunk it starts from.
proof fn lemma_feed_records_chunks(
    files: Seq<Seq<Seq<u8>>>,
    cur: Seq<Seq<u8>>,
    s: Seq<Seq<u8>>,
    c: nat,
)
    requires
        c >= 1,
        cur.len() < c,
    ensures
        ({
            let fed = feed_records(files, cur, s, c);
            feed_end(fed.0, fed.1) == files + chunks_of(cur + s, c)
        }),
    decreases s.len(),
{
    if s.len() == 0 {
        assert(cur + s =~= cur);
        if cur.len() == 0 {
            assert(files + chunks_of(cur, c) =~= files);
        } else {
            assert(files + chunks_of(cur, c) =~= files.push(cur));
        }
    } else {
        let r = s.first();
        let rest = s.drop_first();
        if cur.len() + 1 < c {
            lemma_feed_records_chunks(files, cur.push(r), rest, c);
            assert(cur.push(r) + rest =~= cur + s);
        } else {
            let chunk = cur.push(r);
            lemma_feed_records_chunks(files.push(chunk), Seq::empty(), rest, c);
            assert(Seq::<Seq<u8>>::empty() + rest =~= rest);
            let t = cur + s;
            assert(t.len() == c + rest.len());
            if rest.len() == 0 {
                assert(t =~= chunk);
                assert(chunks_of(t, c) == seq![chunk]);
            } else {
                assert(t.len() > c);
                assert(t.take(c as int) =~= chunk);
                assert(t.skip(c as int) =~= rest);
                assert(chunks_of(t, c) == seq![chunk] + chunks_of(rest, c));
            }
            assert(files.push(chunk) + chunks_of(rest, c) =~= files + chunks_of(t, c));
        }
    }
}

/// Law: a complete run over the records of `s` commits exactly the chunk
/// partition of `s`.
pub proof fn lemma_run_files_is_chunks(s: Seq<Seq<u8>>, c: nat)
    requires
        c >= 1,
    ensures
        run_files(s, c) == chunks_of(s, c),
{
    lemma_feed_records_chunks(Seq::empty(), Seq::empty(), s, c);
    assert(Seq::<Seq<u8>>::empty() + s =~= s);
    assert(Seq::<Seq<Seq<u8>>>::empty() + chunks_of(s, c) =~= chunks_of(s, c));
}

/// Law: with `n` records and capacity `c >= 1` the partition holds
/// `ceil(n / c)` chunks — none for an empty source — and the last chunk
/// holds `n mod c` records when that is not zero, else exactly `c`.
pub proof fn lemma_chunks_count(s: Seq<Seq<u8>>, c: nat)
    requires
        c >= 1,
    ensures
        chunks_of(s, c).len() == (s.len() + c - 1) / (c as int),
        s.len() == 0 ==> chunks_of(s, c).len() == 0,
        s.len() > 0 ==> chunks_of(s, c).last().len() == (if s.len() % c == 0 {
            c as int
        } else {
            (s.len() % c) as int
        }),
    decreases s.len(),
{
    let n = s.len() as int;
    let ci = c as int;
    if s.len() == 0 {
        assert(chunks_of(s, c).len() == 0);
        lemma_fundamental_div_mod_converse(n + ci - 1, ci, 0, ci - 1);
    } else if s.len() <= c {
        assert(chunks_of(s, c) == seq![s]);
        lemma_fundamental_div_mod_converse(n + ci - 1, ci, 1, n - 1);
        if s.len() == c {
            lemma_fundamental_div_mod_converse(n, ci, 1, 0);
        } else {
            lemma_fundamental_div_mod_converse(n, ci, 0, n);
        }
    } else {
        let rest = s.skip(ci);
        lemma_chunks_count(rest, c);
        let m = rest.len() as int;
        assert(m == n - ci);
        assert(chunks_of(s, c).len() == 1 + chunks_of(rest, c).len());
        let y = m + ci - 1;
        let q = y / ci;
        let r = y % ci;
        vstd::arithmetic::div_mod::lemma_fundamental_div_mod(y, ci);
        assert((q + 1) * ci == ci * q + ci) by (nonlinear_arith);
        lemma_fundamental_div_mod_converse(n + ci - 1, ci, q + 1, r);
        vstd::arithmetic::div_mod::lemma_mod_add_multiples_vanish(m, ci);
        assert(s.len() % c == rest.len() % c);
        assert(chunks_of(s, c).last() == chunks_of(rest, c).last());
    }
}

/// Law: no chunk is empty and no chunk exceeds the capacity; every chunk
/// but the last holds exactly `c` records.
pub proof fn lemma_chunks_sizes(s: Seq<Seq<u8>>, c: nat)
    requires
        c >= 1,
    ensures
        forall|i: int|
            0 <= i < chunks_of(s, c).len() ==> 1 <= (#[trigger] chunks_of(s, c)[i]).len() <= c,
        forall|i: int|
            0 <= i < chunks_of(s, c).len() - 1 ==> (#[trigger] chunks_of(s, c)[i]).len() == c,
    decreases s.len(),
{
    if s.len() == 0 {
    } else if s.len() <= c {
    } else {
        lemma_chunks_sizes(s.skip(c as int), c);
        assert forall|i: int| 0 <= i < chunks_of(s, c).len() implies 1 <= (#[trigger] chunks_of(
            s,
            c,
        )[i]).len() <= c by {
            if i > 0 {
                assert(chunks_of(s, c)[i] == chunks_of(s.skip(c as int), c)[i - 1]);
            }
        }
        assert forall|i: int| 0 <= i < chunks_of(s, c).len() - 1 implies (#[trigger] chunks_of(
            s,
            c,
        )[i]).len() == c by {
            if i > 0 {
                assert(chunks_of(s, c)[i] == chunks_of(s.skip(c as int), c)[i - 1]);
            }
        }
    }
}

/// Law: the chunks concatenated in index order reproduce the record
/// sequence exactly.
pub proof fn lemma_chunks_flatten(s: Seq<Seq<u8>>, c: nat)
    requires
        c >= 1,
    ensures
        chunks_of(s, c).flatten() == s,
    decreases s.len(),
{
    if s.len() == 0 {
        assert(chunks_of(s, c).flatten() =~= s);
    } else if s.len() <= c {
        assert(chunks_of(s, c) == seq![s]);
        seq![s].lemma_flatten_one_element();
    } else {
        let head = seq![s.take(c as int)];
        let tail = chunks_of(s.skip(c as int), c);
        lemma_chunks_flatten(s.skip(c as int), c);
        lemma_flatten_concat(head, tail);
        head.lemma_flatten_one_element();
        assert(s.take(c as int) + s.skip(c as int) =~= s);
    }
}

/// Law: file bytes distribute over concatenation of record sequences.
pub proof fn lemma_file_bytes_append(x: Seq<Seq<u8>>, y: Seq<Seq<u8>>)
    ensures
        file_bytes(x + y) == file_bytes(x) + file_bytes(y),
    decreases x.len(),
{
    if x.len() == 0 {
        assert(x + y =~= y);
        assert(file_bytes(x) + file_bytes(y) =~= file_bytes(y));
    } else {
        lemma_file_bytes_append(x.drop_first(), y);
        assert((x + y).first() == x.first());
        assert((x + y).drop_first() =~= x.drop_first() + y);
        assert(record_line(x.first()) + (file_bytes(x.drop_first()) + file_bytes(y)) =~= (
        record_line(x.first()) + file_bytes(x.drop_first())) + file_bytes(y));
    }
}

/// Law: appending one record to a file appends exactly that record's
/// bytes and one newline to the file's bytes.
pub proof fn lemma_file_bytes_push(rs: Seq<Seq<u8>>, r: Seq<u8>)
    ensures
        file_bytes(rs.push(r)) == file_bytes(rs) + record_line(r),
{
    assert(rs.push(r) =~= rs + seq![r]);
    lemma_file_bytes_append(rs, seq![r]);
    let one = seq![r];
    assert(one.drop_first() =~= Seq::<Seq<u8>>::empty());
    assert(file_bytes(one.drop_first()) == Seq::<u8>::empty());
    assert(file_bytes(one) == record_line(r) + Seq::<u8>::empty());
    assert(record_line(r) + Seq::<u8>::empty() =~= record_line(r));
}

/// Law: the bytes of a list of files, concatenated in index order, are
/// the bytes of all their records in order.
pub proof fn lemma_all_files_bytes(ss: Seq<Seq<Seq<u8>>>)
    ensures
        all_files_bytes(ss) == file_bytes(ss.flatten()),
    decreases ss.len(),
{
    if ss.len() == 0 {
        assert(ss.flatten() =~= Seq::<Seq<u8>>::empty());
    } else {
        lemma_all_files_bytes(ss.drop_first());
        lemma_file_bytes_append(ss.first(), ss.drop_first().flatten());
    }
}

/// Law: concatenating the committed files of a run in index order yields
/// one line per source record, in source order — stripping the one
/// trailing newline of each line reproduces the records exactly.
pub proof fn lemma_run_bytes(s: Seq<Seq<u8>>, c: nat)
    requires
        c >= 1,
    ensures
        all_files_bytes(chunks_of(s, c)) == file_bytes(s),
{
    lemma_chunks_flatten(s, c);
    lemma_all_files_bytes(chunks_of(s, c));
}

/// Law: everything a complete error-free run guarantees, in one place.
/// A run over `n` records with capacity `c >= 1` commits `ceil(n / c)`
/// files — none when the source is empty; no committed file is empty or
/// exceeds `c` records, all but the last hold exactly `c`, and the last
/// holds `n mod c` when that is not zero, else `c`; the files
/// concatenated in index order reproduce the records, and their bytes
/// are exactly the records' bytes, each record followed by one newline.
pub proof fn lemma_split_run(s: Seq<Seq<u8>>, c: nat)
    requires
        c >= 1,
    ensures
        run_files(s, c) == chunks_of(s, c),
        run_files(s, c).len() == (s.len() + c - 1) / (c as int),
        s.len() == 0 ==> run_files(s, c).len() == 0,
        s.len() > 0 ==> run_files(s, c).last().len() == (if s.len() % c == 0 {
            c as int
        } else {
            (s.len() % c) as int
        }),
        forall|i: int|
            0 <= i < run_files(s, c).len() ==> 1 <= (#[trigger] run_files(s, c)[i]).len() <= c,
        forall|i: int|
            0 <= i < run_files(s, c).len() - 1 ==> (#[trigger] run_files(s, c)[i]).len() == c,
        run_files(s, c).flatten() == s,
        all_files_bytes(run_files(s, c)) == file_bytes(s),
{
    lemma_run_files_is_chunks(s, c);
    lemma_chunks_count(s, c);
    lemma_chunks_sizes(s, c);
    lemma_chunks_flatten(s, c);
    lemma_run_bytes(s, c);
}

} // verus!
