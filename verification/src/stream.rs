//! Cutting an outbound stream into the fragments that go out one packet each.
//!
//! A stream is sent as consecutive fragments of at most `max_data_size`
//! bytes, each tagged with the stream's id, the stream's total length and a
//! fragment number.

use vstd::prelude::*;

verus! {

/// One fragment of a stream.
pub struct StreamFragment {
    pub stream_id: u32,
    /// The length of the whole stream, in bytes, as a 32-bit count.
    pub total_length_bytes: u64,
    pub fragment_number: u32,
    pub payload: Vec<u8>,
}

/// The number of fragments of a stream of `len` bytes: the whole chunks of
/// `max` bytes, and one more for a shorter rest.
pub open spec fn fragment_count(len: int, max: int) -> int {
    len / max + if len % max == 0 {
        0int
    } else {
        1int
    }
}

/// The bytes of the `i`-th fragment (counting from zero) of `stream`.
pub open spec fn chunk(stream: Seq<u8>, i: int, max: int) -> Seq<u8> {
    let start = i * max;
    let end = if (i + 1) * max < stream.len() {
        (i + 1) * max
    } else {
        stream.len() as int
    };
    stream.subrange(start, end)
}

/// The payloads of `fragments` joined in order, as the receiver reassembles them.
pub open spec fn reassembled(fragments: Seq<StreamFragment>) -> Seq<u8>
    decreases fragments.len(),
{
    if fragments.len() == 0 {
        Seq::<u8>::empty()
    } else {
        reassembled(fragments.drop_last()) + fragments.last().payload@
    }
}

proof fn lemma_fragment_arith(len: int, max: int, sent: int)
    requires
        max > 0,
        len >= 0,
        sent >= 0,
    ensures
        fragment_count(len, max) >= 0,
        sent < fragment_count(len, max) ==> sent * max < len,
        sent == fragment_count(len, max) ==> sent * max >= len,
        (sent + 1) * max == sent * max + max,
        sent * max >= 0,
{
    vstd::arithmetic::div_mod::lemma_fundamental_div_mod(len, max);
    vstd::arithmetic::div_mod::lemma_mod_bound(len, max);
    let q = len / max;
    let r = len % max;
    assert(q >= 0) by (nonlinear_arith)
        requires
            len == max * q + r,
            0 <= r < max,
            len >= 0,
            max > 0,
    ;
    assert(sent < q + (if r == 0 {
        0int
    } else {
        1int
    }) ==> sent * max < len) by (nonlinear_arith)
        requires
            len == max * q + r,
            0 <= r < max,
            max > 0,
            sent >= 0,
    ;
    assert(sent == q + (if r == 0 {
        0int
    } else {
        1int
    }) ==> sent * max >= len) by (nonlinear_arith)
        requires
            len == max * q + r,
            0 <= r < max,
            max > 0,
    ;
    assert((sent + 1) * max == sent * max + max) by (nonlinear_arith);
    assert(sent * max >= 0) by (nonlinear_arith)
        requires
            sent >= 0,
            max > 0,
    ;
}

/// Cuts `stream_to_send` into its fragments, in order: all but the last carry
/// `max_data_size` bytes, the last the rest. Fragments are numbered from one.
/// An empty stream has no fragments.
pub fn fragment_stream(stream_id: u32, stream_to_send: Vec<u8>, max_data_size: usize) -> (fragments:
    Vec<StreamFragment>)
    requires
        max_data_size > 0,
        fragment_count(stream_to_send@.len() as int, max_data_size as int) + 1 <= u32::MAX,
    ensures
        fragments@.len() == fragment_count(stream_to_send@.len() as int, max_data_size as int),
        forall|i: int|
            0 <= i < fragments@.len() ==> {
                &&& (#[trigger] fragments@[i]).stream_id == stream_id
                &&& fragments@[i].total_length_bytes == (stream_to_send@.len() as u32) as u64
                &&& fragments@[i].fragment_number == i + 1
                &&& fragments@[i].payload@ == chunk(stream_to_send@, i, max_data_size as int)
            },
        reassembled(fragments@) == stream_to_send@,
{
    let ghost original = stream_to_send@;
    let ghost max = max_data_size as int;
    let mut remaining = stream_to_send;
    let total_length_bytes = #[verifier::truncate] (remaining.len() as u32);
    let mut total_packets = remaining.len() / max_data_size;
    total_packets = total_packets + if remaining.len() % max_data_size == 0 {
        0
    } else {
        1
    };
    let mut sent_so_far: usize = 0;
    let mut next_fragment_number: u32 = 1;
    let mut fragments: Vec<StreamFragment> = Vec::new();
    proof {
        lemma_fragment_arith(original.len() as int, max, 0);
        assert(original.subrange(0, original.len() as int) =~= original);
        assert(original.subrange(0, 0) =~= Seq::<u8>::empty());
    }
    loop
        invariant
            max == max_data_size,
            max > 0,
            total_packets == fragment_count(original.len() as int, max),
            total_packets + 1 <= u32::MAX,
            total_length_bytes == original.len() as u32,
            sent_so_far <= total_packets,
            next_fragment_number == sent_so_far + 1,
            fragments@.len() == sent_so_far,
            sent_so_far * max < original.len() ==> remaining@ == original.subrange(
                sent_so_far * max,
                original.len() as int,
            ),
            forall|i: int|
                0 <= i < fragments@.len() ==> {
                    &&& (#[trigger] fragments@[i]).stream_id == stream_id
                    &&& fragments@[i].total_length_bytes == total_length_bytes as u64
                    &&& fragments@[i].fragment_number == i + 1
                    &&& fragments@[i].payload@ == chunk(original, i, max)
                },
            reassembled(fragments@) == original.subrange(
                0,
                if sent_so_far * max < original.len() {
                    sent_so_far * max
                } else {
                    original.len() as int
                },
            ),
        ensures
            sent_so_far == total_packets,
            fragments@.len() == sent_so_far,
            forall|i: int|
                0 <= i < fragments@.len() ==> {
                    &&& (#[trigger] fragments@[i]).stream_id == stream_id
                    &&& fragments@[i].total_length_bytes == total_length_bytes as u64
                    &&& fragments@[i].fragment_number == i + 1
                    &&& fragments@[i].payload@ == chunk(original, i, max)
                },
            reassembled(fragments@) == original,
        decreases total_packets - sent_so_far,
    {
        proof {
            lemma_fragment_arith(original.len() as int, max, sent_so_far as int);
        }
        if sent_so_far == total_packets {
            break;
        }
        let ghost start = sent_so_far * max;
        assert(remaining@ == original.subrange(start, original.len() as int));
        let mut payload: Vec<u8> = Vec::new();
        if remaining.len() > max_data_size {
            let mut rest = remaining.split_off(max_data_size);
            std::mem::swap(&mut remaining, &mut rest);
            std::mem::swap(&mut payload, &mut rest);
        } else {
            std::mem::swap(&mut payload, &mut remaining);
        }
        proof {
            lemma_fragment_arith(original.len() as int, max, sent_so_far as int);
            if start + max < original.len() {
                assert(payload@ =~= original.subrange(start, start + max));
                assert(remaining@ =~= original.subrange(start + max, original.len() as int));
            } else {
                assert(payload@ =~= original.subrange(start, original.len() as int));
            }
        }
        let fragment = StreamFragment {
            stream_id,
            total_length_bytes: total_length_bytes as u64,
            fragment_number: next_fragment_number,
            payload,
        };
        let ghost old_fragments = fragments@;
        fragments.push(fragment);
        next_fragment_number = next_fragment_number + 1;
        sent_so_far = sent_so_far + 1;
        proof {
            let end = if sent_so_far * max < original.len() {
                sent_so_far * max
            } else {
                original.len() as int
            };
            assert(sent_so_far * max == start + max);
            if start + max < original.len() {
                assert(end == start + max);
            } else {
                assert(end == original.len());
            }
            assert(fragments@[sent_so_far - 1].payload@ =~= original.subrange(start, end));
            assert(fragments@.drop_last() =~= old_fragments);
            assert(original.subrange(0, start) + original.subrange(start, end) =~= original.subrange(
                0,
                end,
            ));
            if sent_so_far * max < original.len() {
                assert(remaining@ =~= original.subrange(sent_so_far * max, original.len() as int));
            }
        }
    }
    fragments
}

} // verus!
