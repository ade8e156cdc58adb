//! What to send for a request on a resource of known length: the status, the headers, where
//! to seek, and how many bytes to pass on as the resource is read chunk by chunk.

use vstd::prelude::*;
use crate::range::{
    lemma_parse_closed_range, parse_range, parse_range_spec, range_prefix, ByteRange, RangeError,
};
use crate::text::{decimal_of, decimal_string, push_char};

verus! {

/// `Whole` answers 200 with the entire resource, `Partial` answers 206 with one range of it.
#[derive(Clone, Copy, Debug, PartialEq, Eq, Structural)]
pub enum StreamStatus {
    Whole,
    Partial,
}

/// The response for one request: the body is the `length` bytes of the resource that start
/// at `offset`.
#[derive(Clone, Copy, Debug, PartialEq, Eq, Structural)]
pub struct StreamPlan {
    pub status: StreamStatus,
    pub offset: u64,
    pub length: u64,
    pub total_length: u64,
}

pub open spec fn plan_spec(range: Option<ByteRange>, total_length: u64) -> StreamPlan {
    match range {
        None => StreamPlan {
            status: StreamStatus::Whole,
            offset: 0,
            length: total_length,
            total_length,
        },
        Some(r) => StreamPlan {
            status: StreamStatus::Partial,
            offset: r.start,
            length: (r.end - r.start + 1) as u64,
            total_length,
        },
    }
}

/// The bytes of `content` that the plan sends.
pub open spec fn body_spec(content: Seq<u8>, plan: StreamPlan) -> Seq<u8> {
    content.subrange(plan.offset as int, plan.offset + plan.length)
}

/// `bytes {start}-{end}/{total}`, the `Content-Range` of a partial answer.
pub open spec fn content_range_spec(start: nat, end: nat, total: nat) -> Seq<char> {
    seq!['b', 'y', 't', 'e', 's', ' '] + decimal_of(start) + seq!['-'] + decimal_of(end) + seq![
        '/',
    ] + decimal_of(total)
}

/// The plan for an optional parsed range on a resource of `total_length` bytes.
pub fn plan_stream(range: Option<ByteRange>, total_length: u64) -> (p: StreamPlan)
    requires
        range matches Some(r) ==> r.valid_for(total_length),
    ensures
        p == plan_spec(range, total_length),
{
    match range {
        None => StreamPlan { status: StreamStatus::Whole, offset: 0, length: total_length, total_length },
        Some(r) => StreamPlan {
            status: StreamStatus::Partial,
            offset: r.start,
            length: r.end - r.start + 1,
            total_length,
        },
    }
}

/// The plan for a request with an optional raw `Range` header value: the whole resource when
/// there is none, the parsed range when it is valid, and the parse error otherwise.
pub fn plan_for_header(header: Option<&str>, total_length: u64) -> (r: Result<StreamPlan, RangeError>)
    ensures
        header is None ==> r == Ok::<StreamPlan, RangeError>(plan_spec(None, total_length)),
        header matches Some(h) ==> match parse_range_spec(h@, total_length) {
            Ok(range) => r == Ok::<StreamPlan, RangeError>(plan_spec(Some(range), total_length)),
            Err(e) => r == Err::<StreamPlan, RangeError>(e),
        },
        r matches Ok(p) ==> p.well_formed(),
{
    match header {
        None => Ok(plan_stream(None, total_length)),
        Some(h) => match parse_range(h, total_length) {
            Ok(range) => Ok(plan_stream(Some(range), total_length)),
            Err(e) => Err(e),
        },
    }
}

impl StreamPlan {
    /// The plan sends bytes that exist in a resource of its total length.
    pub open spec fn well_formed(self) -> bool {
        &&& self.offset + self.length <= self.total_length
        &&& self.status == StreamStatus::Partial ==> self.length > 0
    }

    /// The last byte that a partial answer sends.
    pub open spec fn last_byte(self) -> nat {
        (self.offset + self.length - 1) as nat
    }

    /// 200 for the whole resource, 206 for a range.
    pub fn status_code(&self) -> (r: u16)
        ensures
            self.status == StreamStatus::Whole ==> r == 200,
            self.status == StreamStatus::Partial ==> r == 206,
    {
        match self.status {
            StreamStatus::Whole => 200,
            StreamStatus::Partial => 206,
        }
    }

    /// The `Content-Length` header value: the number of bytes sent.
    pub fn content_length(&self) -> (r: String)
        ensures
            r@ == decimal_of(self.length as nat),
    {
        decimal_string(self.length)
    }

    /// The `Accept-Ranges` header value, sent with both kinds of answer.
    pub fn accept_ranges(&self) -> (r: String)
        ensures
            r@ == seq!['b', 'y', 't', 'e', 's'],
    {
        let mut s = String::new();
        push_char(&mut s, 'b');
        push_char(&mut s, 'y');
        push_char(&mut s, 't');
        push_char(&mut s, 'e');
        push_char(&mut s, 's');
        s
    }

    /// The `Content-Range` header value: none for the whole resource,
    /// `bytes {start}-{end}/{total}` for a range.
    pub fn content_range(&self) -> (r: Option<String>)
        requires
            self.well_formed(),
        ensures
            self.status == StreamStatus::Whole ==> r is None,
            self.status == StreamStatus::Partial ==> (r matches Some(s) && s@ == content_range_spec(
                self.offset as nat,
                self.last_byte(),
                self.total_length as nat,
            )),
    {
        match self.status {
            StreamStatus::Whole => None,
            StreamStatus::Partial => {
                let mut s = String::new();
                push_char(&mut s, 'b');
                push_char(&mut s, 'y');
                push_char(&mut s, 't');
                push_char(&mut s, 'e');
                push_char(&mut s, 's');
                push_char(&mut s, ' ');
                let start = decimal_string(self.offset);
                s.append(start.as_str());
                push_char(&mut s, '-');
                let end = decimal_string(self.offset + self.length - 1);
                s.append(end.as_str());
                push_char(&mut s, '/');
                let total = decimal_string(self.total_length);
                s.append(total.as_str());
                assert(s@ =~= content_range_spec(
                    self.offset as nat,
                    self.last_byte(),
                    self.total_length as nat,
                ));
                Some(s)
            },
        }
    }
}

/// How many of the bytes read so far may still be passed on. The caller seeks the resource
/// to the plan's offset, reads chunks of any size, hands each one to `pass_on`, sends what comes
/// back, and stops once `is_done`.
pub struct ChunkBudget {
    remaining: u64,
}

/// The bytes that a budget of `remaining` passes on from `chunks`, read in order.
pub open spec fn passed_on(remaining: nat, chunks: Seq<Seq<u8>>) -> Seq<u8>
    decreases chunks.len(),
{
    if chunks.len() == 0 {
        Seq::empty()
    } else {
        let c = chunks[0];
        let k = if c.len() <= remaining {
            c.len()
        } else {
            remaining
        };
        c.take(k as int) + passed_on((remaining - k) as nat, chunks.drop_first())
    }
}

impl ChunkBudget {
    pub closed spec fn spec_remaining(&self) -> nat {
        self.remaining as nat
    }

    /// A budget for the body of `plan`.
    pub fn new(plan: &StreamPlan) -> (r: Self)
        ensures
            r.spec_remaining() == plan.length,
    {
        ChunkBudget { remaining: plan.length }
    }

    pub fn remaining(&self) -> (r: u64)
        ensures
            r == self.spec_remaining(),
    {
        self.remaining
    }

    /// No more bytes may be sent.
    pub fn is_done(&self) -> (r: bool)
        ensures
            r == (self.spec_remaining() == 0),
    {
        self.remaining == 0
    }

    /// Passes on the part of `chunk` that still belongs to the body and counts it.
    pub fn pass_on(&mut self, chunk: Vec<u8>) -> (out: Vec<u8>)
        ensures
            out@ == passed_on(old(self).spec_remaining(), seq![chunk@]),
            final(self).spec_remaining() == old(self).spec_remaining() - out@.len(),
    {
        let mut chunk = chunk;
        let ghost c = chunk@;
        let ghost rem = self.remaining as nat;
        let keep: usize = if (chunk.len() as u64) <= self.remaining {
            chunk.len()
        } else {
            self.remaining as usize
        };
        chunk.truncate(keep);
        self.remaining = self.remaining - keep as u64;
        assert(seq![c].drop_first() =~= Seq::<Seq<u8>>::empty());
        assert(seq![c][0] == c);
        assert(passed_on((rem - keep) as nat, Seq::<Seq<u8>>::empty()) == Seq::<u8>::empty());
        assert(chunk@ =~= c.take(keep as int) + Seq::<u8>::empty());
        chunk
    }
}

/// Passing chunks through a budget of `remaining` yields the first `remaining` bytes of what
/// was read (all of it, when less was read).
pub proof fn lemma_passed_on_is_prefix(remaining: nat, chunks: Seq<Seq<u8>>)
    ensures
        passed_on(remaining, chunks) == chunks.flatten().take(
            if chunks.flatten().len() <= remaining {
                chunks.flatten().len() as int
            } else {
                remaining as int
            },
        ),
    decreases chunks.len(),
{
    if chunks.len() == 0 {
        assert(chunks.flatten().take(0) =~= Seq::<u8>::empty());
    } else {
        let c = chunks[0];
        let rest = chunks.drop_first();
        lemma_passed_on_is_prefix(
            if c.len() <= remaining {
                (remaining - c.len()) as nat
            } else {
                0
            },
            rest,
        );
        let f = chunks.flatten();
        assert(f == c + rest.flatten());
        if c.len() <= remaining {
            assert(passed_on(remaining, chunks) =~= f.take(
                if f.len() <= remaining {
                    f.len() as int
                } else {
                    remaining as int
                },
            ));
        } else {
            assert(rest.flatten().take(0) =~= Seq::<u8>::empty());
            assert(passed_on(remaining, chunks) =~= f.take(remaining as int));
        }
    }
}

/// Reading the resource from the plan's offset, in chunks of any sizes, and passing them
/// through the plan's budget sends exactly the plan's body.
pub proof fn lemma_stream_sends_body(content: Seq<u8>, plan: StreamPlan, chunks: Seq<Seq<u8>>)
    requires
        plan.offset + plan.length <= content.len(),
        chunks.flatten() == content.skip(plan.offset as int),
    ensures
        passed_on(plan.length as nat, chunks) == body_spec(content, plan),
        passed_on(plan.length as nat, chunks).len() == plan.length,
{
    lemma_passed_on_is_prefix(plan.length as nat, chunks);
    assert(passed_on(plan.length as nat, chunks) =~= body_spec(content, plan));
}

/// The whole resource and the range `bytes=0-{L-1}` send the same `L` bytes; the first
/// answers 200 and the second 206 with `Content-Range: bytes 0-{L-1}/{L}`.
pub proof fn lemma_whole_equals_full_range(content: Seq<u8>, total_length: u64)
    requires
        total_length > 0,
        content.len() == total_length,
    ensures
        ({
            let whole = plan_spec(None, total_length);
            let header = range_prefix() + decimal_of(0) + seq!['-'] + decimal_of(
                (total_length - 1) as nat,
            );
            let parsed = parse_range_spec(header, total_length);
            &&& whole.status == StreamStatus::Whole
            &&& body_spec(content, whole) == content
            &&& parsed == Ok::<ByteRange, RangeError>(
                ByteRange { start: 0, end: (total_length - 1) as u64 },
            )
            &&& plan_spec(Some(parsed->Ok_0), total_length).status == StreamStatus::Partial
            &&& body_spec(content, plan_spec(Some(parsed->Ok_0), total_length)) == content
            &&& content_range_spec(
                plan_spec(Some(parsed->Ok_0), total_length).offset as nat,
                plan_spec(Some(parsed->Ok_0), total_length).last_byte(),
                total_length as nat,
            ) == content_range_spec(0, (total_length - 1) as nat, total_length as nat)
        }),
{
    lemma_parse_closed_range(0, (total_length - 1) as u64, total_length);
    assert(content.subrange(0, total_length as int) =~= content);
}

} // verus!
