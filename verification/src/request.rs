//! Tasks, requests, and the fixed-capacity request queue.
//!
//! Everything here is a fixed-width little-endian codec: a `Task` always
//! encodes to [`TASK_LEN`] bytes, a `Request` to [`REQUEST_LEN`] bytes, and a
//! queue buffer is exactly [`REQUEST_QUEUE_SIZE`] request slots laid out back
//! to back.  A slot counts as empty when its first eight bytes are all zero.

use vstd::prelude::*;
use vstd::slice::slice_subrange;

use crate::bytes::{append_bytes, append_zeros, read_array, write_bytes_at, zero_bytes,
    zero_bytes_at};
use crate::error::{DecodeError, OracleError};
use crate::Pubkey;

verus! {

/// How many pipeline steps a request carries: fetch, parse, coerce.
pub const TASK_ARRAY_SIZE: usize = 3;

/// How many request slots one oracle account holds.
pub const REQUEST_QUEUE_SIZE: usize = 10;

/// Width of the slot-index field of a request.
pub const REQUEST_INDEX_SIZE: usize = 1;

/// Width of the URL buffer of an HTTP fetch step.
pub const GET_PARAMS_LEN: usize = 34;

/// Width of the JSON path buffer of a parse step.
pub const JSON_PARSE_ARGS_LEN: usize = 12;

/// Encoded width of one task: a two-byte variant tag plus a 34-byte payload
/// window.
pub const TASK_LEN: usize = 36;

/// Encoded width of one request: three tasks, the callback program
/// identifier, and the slot index byte.
pub const REQUEST_LEN: usize = TASK_LEN * TASK_ARRAY_SIZE + crate::PUBLIC_KEY_LEN
    + REQUEST_INDEX_SIZE;

/// Width of a whole queue buffer: ten request slots back to back.
pub const REQUEST_QUEUE_LEN: usize = REQUEST_LEN * REQUEST_QUEUE_SIZE;

/// The slot index of a request inside its queue.
pub type RequestIndex = u8;

/// The URL of an HTTP fetch step, as a fixed 34-byte UTF-8 buffer.
#[derive(Clone, Copy, Debug, PartialEq, Eq)]
pub struct GetParams {
    pub get: [u8; 34],
}

/// Arguments of an HTTP fetch step.
#[derive(Clone, Copy, Debug, PartialEq, Eq)]
pub struct GetArgs {
    pub params: GetParams,
}

/// Arguments of a JSON-path extraction step, as a fixed 12-byte UTF-8 buffer.
#[derive(Clone, Copy, Debug, PartialEq, Eq)]
pub struct JsonParseArgs {
    pub path: [u8; 12],
}

impl GetParams {
    /// Write the 34 URL bytes into `dst` at `offset`.
    pub fn pack_into_slice(&self, dst: &mut Vec<u8>, offset: usize)
        requires
            offset + GET_PARAMS_LEN <= old(dst)@.len(),
        ensures
            final(dst)@.len() == old(dst)@.len(),
            final(dst)@.subrange(offset as int, offset + GET_PARAMS_LEN) == self.get@,
            forall|k: int|
                0 <= k < final(dst)@.len() && !(offset <= k < offset + GET_PARAMS_LEN)
                    ==> final(dst)@[k] == old(dst)@[k],
    {
        write_bytes_at(dst, offset, self.get.as_slice());
        proof {
            assert(dst@.subrange(offset as int, offset + GET_PARAMS_LEN) =~= self.get@);
        }
    }

    /// Read back 34 URL bytes from `src` at `offset`.
    ///
    /// Fails with [`DecodeError::Truncated`] when fewer than 34 bytes are
    /// there to read.
    pub fn unpack_from_slice(src: &[u8], offset: usize) -> (r: Result<GetParams, DecodeError>)
        ensures
            match r {
                Ok(p) => {
                    &&& offset + GET_PARAMS_LEN <= src@.len()
                    &&& p.get@ == src@.subrange(offset as int, offset + GET_PARAMS_LEN)
                },
                Err(e) => {
                    &&& e == DecodeError::Truncated
                    &&& offset + GET_PARAMS_LEN > src@.len()
                },
            },
    {
        if src.len() < GET_PARAMS_LEN || src.len() - GET_PARAMS_LEN < offset {
            return Err(DecodeError::Truncated);
        }
        let get: [u8; 34] = read_array(src, offset);
        Ok(GetParams { get })
    }
}

impl GetArgs {
    /// Write the fetch arguments into `dst` at `offset`.
    pub fn pack_into_slice(&self, dst: &mut Vec<u8>, offset: usize)
        requires
            offset + GET_PARAMS_LEN <= old(dst)@.len(),
        ensures
            final(dst)@.len() == old(dst)@.len(),
            final(dst)@.subrange(offset as int, offset + GET_PARAMS_LEN) == self.params.get@,
            forall|k: int|
                0 <= k < final(dst)@.len() && !(offset <= k < offset + GET_PARAMS_LEN)
                    ==> final(dst)@[k] == old(dst)@[k],
    {
        self.params.pack_into_slice(dst, offset);
    }

    /// Read the fetch arguments back from `src` at `offset`.
    pub fn unpack_from_slice(src: &[u8], offset: usize) -> (r: Result<GetArgs, DecodeError>)
        ensures
            match r {
                Ok(a) => {
                    &&& offset + GET_PARAMS_LEN <= src@.len()
                    &&& a.params.get@ == src@.subrange(offset as int, offset + GET_PARAMS_LEN)
                },
                Err(e) => {
                    &&& e == DecodeError::Truncated
                    &&& offset + GET_PARAMS_LEN > src@.len()
                },
            },
    {
        let params = GetParams::unpack_from_slice(src, offset)?;
        Ok(GetArgs { params })
    }
}

impl JsonParseArgs {
    /// Write the 12 path bytes into `dst` at `offset`.
    pub fn pack_into_slice(&self, dst: &mut Vec<u8>, offset: usize)
        requires
            offset + JSON_PARSE_ARGS_LEN <= old(dst)@.len(),
        ensures
            final(dst)@.len() == old(dst)@.len(),
            final(dst)@.subrange(offset as int, offset + JSON_PARSE_ARGS_LEN) == self.path@,
            forall|k: int|
                0 <= k < final(dst)@.len() && !(offset <= k < offset + JSON_PARSE_ARGS_LEN)
                    ==> final(dst)@[k] == old(dst)@[k],
    {
        write_bytes_at(dst, offset, self.path.as_slice());
        proof {
            assert(dst@.subrange(offset as int, offset + JSON_PARSE_ARGS_LEN) =~= self.path@);
        }
    }

    /// Read back 12 path bytes from `src` at `offset`.
    pub fn unpack_from_slice(src: &[u8], offset: usize) -> (r: Result<JsonParseArgs, DecodeError>)
        ensures
            match r {
                Ok(a) => {
                    &&& offset + JSON_PARSE_ARGS_LEN <= src@.len()
                    &&& a.path@ == src@.subrange(offset as int, offset + JSON_PARSE_ARGS_LEN)
                },
                Err(e) => {
                    &&& e == DecodeError::Truncated
                    &&& offset + JSON_PARSE_ARGS_LEN > src@.len()
                },
            },
    {
        if src.len() < JSON_PARSE_ARGS_LEN || src.len() - JSON_PARSE_ARGS_LEN < offset {
            return Err(DecodeError::Truncated);
        }
        let path: [u8; 12] = read_array(src, offset);
        Ok(JsonParseArgs { path })
    }
}

/// One step of the off-chain pipeline.
///
/// On the wire a task is a two-byte little-endian variant tag followed by a
/// 34-byte payload window, zero-padded when the variant's natural payload is
/// shorter.
#[derive(Clone, Copy, Debug, PartialEq, Eq)]
pub enum Task {
    /// Fetch the given URL.
    HttpGet(GetArgs),
    /// Extract the value at the given JSON path from the fetched body.
    JsonParse(JsonParseArgs),
    /// Coerce the extracted value to a 32-bit integer; the terminal step.
    Uint32,
}

/// The first tag byte of a task's encoding.
pub open spec fn task_tag(t: Task) -> u8 {
    match t {
        Task::HttpGet(_) => 0u8,
        Task::JsonParse(_) => 1u8,
        Task::Uint32 => 2u8,
    }
}

/// The 34-byte payload window of a task's encoding.
pub open spec fn spec_task_payload(t: Task) -> Seq<u8> {
    match t {
        Task::HttpGet(args) => args.params.get@,
        Task::JsonParse(args) => args.path@ + zero_bytes(22),
        Task::Uint32 => zero_bytes(34),
    }
}

/// The 36-byte encoding of a task.
pub open spec fn spec_encode_task(t: Task) -> Seq<u8> {
    seq![task_tag(t), 0u8] + spec_task_payload(t)
}

/// Does decoding the 36-byte buffer `s` give back `t`?
///
/// Decoding only reads the fields a variant has, so bytes after a short
/// payload are ignored: every `t` that matches `s` agrees with `s` on the tag
/// and on the payload bytes of its own variant.
pub open spec fn task_matches_bytes(t: Task, s: Seq<u8>) -> bool
    recommends
        s.len() == TASK_LEN,
{
    match t {
        Task::HttpGet(args) => s[0] == 0u8 && s[1] == 0u8 && args.params.get@ == s.subrange(
            2,
            36,
        ),
        Task::JsonParse(args) => s[0] == 1u8 && s[1] == 0u8 && args.path@ == s.subrange(2, 14),
        Task::Uint32 => s[0] == 2u8 && s[1] == 0u8,
    }
}

/// The task a 36-byte buffer decodes to, if any.
pub open spec fn spec_decode_task(s: Seq<u8>) -> Option<Task> {
    if exists|t: Task| task_matches_bytes(t, s) {
        Some(choose|t: Task| task_matches_bytes(t, s))
    } else {
        None
    }
}

/// At most one task decodes from a given buffer.
pub proof fn lemma_task_matches_unique(t1: Task, t2: Task, s: Seq<u8>)
    requires
        task_matches_bytes(t1, s),
        task_matches_bytes(t2, s),
    ensures
        t1 == t2,
{
    match (t1, t2) {
        (Task::HttpGet(a1), Task::HttpGet(a2)) => {
            assert(a1.params.get =~= a2.params.get);
        },
        (Task::JsonParse(a1), Task::JsonParse(a2)) => {
            assert(a1.path =~= a2.path);
        },
        _ => {},
    }
}

/// Encoding a task gives a buffer that decodes back to it.
pub proof fn lemma_encode_task_matches(t: Task)
    ensures
        spec_encode_task(t).len() == TASK_LEN,
        task_matches_bytes(t, spec_encode_task(t)),
{
    let s = spec_encode_task(t);
    match t {
        Task::HttpGet(args) => {
            assert(args.params.get@ =~= s.subrange(2, 36));
        },
        Task::JsonParse(args) => {
            assert(args.path@ =~= s.subrange(2, 14));
        },
        Task::Uint32 => {},
    }
}

/// Round trip: decoding the encoding of any task gives that task back.
pub proof fn lemma_task_round_trip(t: Task)
    ensures
        spec_decode_task(spec_encode_task(t)) == Some(t),
{
    let s = spec_encode_task(t);
    lemma_encode_task_matches(t);
    let x = choose|x: Task| task_matches_bytes(x, s);
    lemma_task_matches_unique(x, t, s);
}

impl Task {
    /// Decode one task from a 2-byte tag and its 34-byte payload window.
    ///
    /// An unrecognized tag fails with [`DecodeError::UnknownVariant`].
    pub fn decode_task(kind: &[u8], data: &[u8]) -> (r: Result<Task, DecodeError>)
        requires
            kind@.len() == 2,
            data@.len() == 34,
        ensures
            match r {
                Ok(t) => {
                    &&& task_matches_bytes(t, kind@ + data@)
                    &&& Some(t) == spec_decode_task(kind@ + data@)
                },
                Err(e) => {
                    &&& e == DecodeError::UnknownVariant
                    &&& spec_decode_task(kind@ + data@) == None::<Task>
                },
            },
    {
        let s = Ghost(kind@ + data@);
        if kind[1] != 0 {
            proof {
                assert(forall|t: Task| !task_matches_bytes(t, s@));
            }
            return Err(DecodeError::UnknownVariant);
        }
        let tag = kind[0];
        if tag == 0 {
            let get: [u8; 34] = read_array(data, 0);
            let t = Task::HttpGet(GetArgs { params: GetParams { get } });
            proof {
                assert(get@ =~= s@.subrange(2, 36));
                assert(task_matches_bytes(t, s@));
                lemma_task_matches_unique(
                    choose|x: Task| task_matches_bytes(x, s@),
                    t,
                    s@,
                );
            }
            Ok(t)
        } else if tag == 1 {
            let path: [u8; 12] = read_array(data, 0);
            let t = Task::JsonParse(JsonParseArgs { path });
            proof {
                assert(path@ =~= s@.subrange(2, 14));
                assert(task_matches_bytes(t, s@));
                lemma_task_matches_unique(
                    choose|x: Task| task_matches_bytes(x, s@),
                    t,
                    s@,
                );
            }
            Ok(t)
        } else if tag == 2 {
            let t = Task::Uint32;
            proof {
                assert(task_matches_bytes(t, s@));
                lemma_task_matches_unique(
                    choose|x: Task| task_matches_bytes(x, s@),
                    t,
                    s@,
                );
            }
            Ok(t)
        } else {
            proof {
                assert(forall|t: Task| !task_matches_bytes(t, s@));
            }
            Err(DecodeError::UnknownVariant)
        }
    }

    /// Encode one pipeline step as its 36-byte wire form.
    pub fn encode_task(&self) -> (r: Vec<u8>)
        ensures
            r@ == spec_encode_task(*self),
            r@.len() == TASK_LEN,
    {
        let mut out: Vec<u8> = Vec::new();
        match self {
            Task::HttpGet(args) => {
                out.push(0u8);
                out.push(0u8);
                append_bytes(&mut out, args.params.get.as_slice());
            },
            Task::JsonParse(args) => {
                out.push(1u8);
                out.push(0u8);
                append_bytes(&mut out, args.path.as_slice());
                append_zeros(&mut out, 22);
            },
            Task::Uint32 => {
                out.push(2u8);
                out.push(0u8);
                append_zeros(&mut out, 34);
            },
        }
        proof {
            assert(out@ =~= spec_encode_task(*self));
        }
        out
    }

    /// Read one task from `src`, which must start with its 36 encoded bytes.
    pub fn unpack_from_slice(src: &[u8]) -> (r: Result<Task, DecodeError>)
        ensures
            match r {
                Ok(t) => {
                    &&& src@.len() >= TASK_LEN
                    &&& task_matches_bytes(t, src@.subrange(0, TASK_LEN as int))
                    &&& Some(t) == spec_decode_task(src@.subrange(0, TASK_LEN as int))
                },
                Err(DecodeError::Truncated) => src@.len() < TASK_LEN,
                Err(DecodeError::UnknownVariant) => {
                    &&& src@.len() >= TASK_LEN
                    &&& spec_decode_task(src@.subrange(0, TASK_LEN as int)) == None::<Task>
                },
            },
    {
        if src.len() < TASK_LEN {
            return Err(DecodeError::Truncated);
        }
        let kind = slice_subrange(src, 0, 2);
        let data = slice_subrange(src, 2, TASK_LEN);
        proof {
            assert(kind@ + data@ =~= src@.subrange(0, TASK_LEN as int));
        }
        Task::decode_task(kind, data)
    }

    /// Write one pipeline step's 36 encoded bytes into `dst` at `offset`.
    pub fn pack_into_slice(&self, dst: &mut Vec<u8>, offset: usize)
        requires
            offset + TASK_LEN <= old(dst)@.len(),
        ensures
            final(dst)@.len() == old(dst)@.len(),
            final(dst)@.subrange(offset as int, offset + TASK_LEN) == spec_encode_task(*self),
            forall|k: int|
                0 <= k < final(dst)@.len() && !(offset <= k < offset + TASK_LEN)
                    ==> final(dst)@[k] == old(dst)@[k],
    {
        let encoded = self.encode_task();
        write_bytes_at(dst, offset, encoded.as_slice());
        proof {
            assert(dst@.subrange(offset as int, offset + TASK_LEN) =~= encoded@);
        }
    }
}

/// A full pipeline: three tasks in order, the program to call back with the
/// result, and the queue slot the request occupies.
#[derive(Clone, Copy, Debug, PartialEq, Eq)]
pub struct Request {
    /// The pipeline steps, run in order: fetch, parse, coerce.
    pub tasks: [Task; TASK_ARRAY_SIZE],
    /// The program notified when the pipeline's result arrives.
    pub call_back_program: Pubkey,
    /// Which slot of its queue this request lives in.
    pub index: RequestIndex,
}

/// The 141-byte encoding of a request: three tasks, the callback program
/// identifier, the slot index byte.
pub open spec fn spec_encode_request(r: Request) -> Seq<u8> {
    spec_encode_task(r.tasks@[0]) + spec_encode_task(r.tasks@[1]) + spec_encode_task(r.tasks@[2])
        + r.call_back_program.bytes@ + seq![r.index]
}

/// Does decoding the 141-byte buffer `s` give back `r`?
pub open spec fn request_matches_bytes(r: Request, s: Seq<u8>) -> bool
    recommends
        s.len() == REQUEST_LEN,
{
    &&& task_matches_bytes(r.tasks@[0], s.subrange(0, 36))
    &&& task_matches_bytes(r.tasks@[1], s.subrange(36, 72))
    &&& task_matches_bytes(r.tasks@[2], s.subrange(72, 108))
    &&& r.call_back_program.bytes@ == s.subrange(108, 140)
    &&& r.index == s[140]
}

/// The request a 141-byte buffer decodes to, if any.
pub open spec fn spec_decode_request(s: Seq<u8>) -> Option<Request> {
    if exists|r: Request| request_matches_bytes(r, s) {
        Some(choose|r: Request| request_matches_bytes(r, s))
    } else {
        None
    }
}

/// At most one request decodes from a given buffer.
pub proof fn lemma_request_matches_unique(r1: Request, r2: Request, s: Seq<u8>)
    requires
        request_matches_bytes(r1, s),
        request_matches_bytes(r2, s),
    ensures
        r1 == r2,
{
    lemma_task_matches_unique(r1.tasks@[0], r2.tasks@[0], s.subrange(0, 36));
    lemma_task_matches_unique(r1.tasks@[1], r2.tasks@[1], s.subrange(36, 72));
    lemma_task_matches_unique(r1.tasks@[2], r2.tasks@[2], s.subrange(72, 108));
    assert(r1.tasks =~= r2.tasks);
    assert(r1.call_back_program.bytes =~= r2.call_back_program.bytes);
}

/// Encoding a request gives a buffer that decodes back to it.
pub proof fn lemma_encode_request_matches(r: Request)
    ensures
        spec_encode_request(r).len() == REQUEST_LEN,
        request_matches_bytes(r, spec_encode_request(r)),
{
    let s = spec_encode_request(r);
    lemma_encode_task_matches(r.tasks@[0]);
    lemma_encode_task_matches(r.tasks@[1]);
    lemma_encode_task_matches(r.tasks@[2]);
    assert(s.subrange(0, 36) =~= spec_encode_task(r.tasks@[0]));
    assert(s.subrange(36, 72) =~= spec_encode_task(r.tasks@[1]));
    assert(s.subrange(72, 108) =~= spec_encode_task(r.tasks@[2]));
    assert(s.subrange(108, 140) =~= r.call_back_program.bytes@);
}

/// Round trip: decoding the encoding of any request gives that request back.
pub proof fn lemma_request_round_trip(r: Request)
    ensures
        spec_decode_request(spec_encode_request(r)) == Some(r),
{
    let s = spec_encode_request(r);
    lemma_encode_request_matches(r);
    let x = choose|x: Request| request_matches_bytes(x, s);
    lemma_request_matches_unique(x, r, s);
}

/// Is the first word of a slot all zero?  That is the whole occupancy rule: a
/// queue slot with a zero prefix counts as empty.
pub open spec fn spec_empty_prefix(s: Seq<u8>) -> bool {
    forall|j: int| 0 <= j < 8 ==> s[j] == 0u8
}

impl Request {
    /// Check the first 8 bytes of a request buffer.  If they are all 0 the
    /// slot holding the buffer is counted empty.
    ///
    /// At least the first 3 bytes must take part, since the first two could
    /// be 0 as the leading task's tag.
    pub fn is_empty_buffer(buf: &[u8]) -> (r: bool)
        requires
            buf@.len() >= 8,
        ensures
            r == spec_empty_prefix(buf@),
    {
        let mut j: usize = 0;
        while j < 8
            invariant
                buf@.len() >= 8,
                j <= 8,
                forall|k: int| 0 <= k < j ==> buf@[k] == 0u8,
            decreases 8 - j,
        {
            if buf[j] != 0 {
                return false;
            }
            j += 1;
        }
        true
    }

    /// Encode this request as its 141-byte wire form.
    pub fn encode(&self) -> (r: Vec<u8>)
        ensures
            r@ == spec_encode_request(*self),
            r@.len() == REQUEST_LEN,
    {
        let mut out: Vec<u8> = Vec::new();
        let e0 = self.tasks[0].encode_task();
        append_bytes(&mut out, e0.as_slice());
        let e1 = self.tasks[1].encode_task();
        append_bytes(&mut out, e1.as_slice());
        let e2 = self.tasks[2].encode_task();
        append_bytes(&mut out, e2.as_slice());
        append_bytes(&mut out, self.call_back_program.bytes.as_slice());
        out.push(self.index);
        proof {
            assert(out@ =~= spec_encode_request(*self));
        }
        out
    }

    /// Write this request's 141 encoded bytes into `dst` at `offset`.
    pub fn pack_into_slice(&self, dst: &mut Vec<u8>, offset: usize)
        requires
            offset + REQUEST_LEN <= old(dst)@.len(),
        ensures
            final(dst)@.len() == old(dst)@.len(),
            final(dst)@.subrange(offset as int, offset + REQUEST_LEN) == spec_encode_request(
                *self,
            ),
            forall|k: int|
                0 <= k < final(dst)@.len() && !(offset <= k < offset + REQUEST_LEN)
                    ==> final(dst)@[k] == old(dst)@[k],
    {
        let encoded = self.encode();
        write_bytes_at(dst, offset, encoded.as_slice());
        proof {
            assert(dst@.subrange(offset as int, offset + REQUEST_LEN) =~= encoded@);
        }
    }

    /// Read one request from `src`, which must start with its 141 encoded
    /// bytes.
    pub fn unpack_from_slice(src: &[u8]) -> (r: Result<Request, DecodeError>)
        ensures
            match r {
                Ok(req) => {
                    &&& src@.len() >= REQUEST_LEN
                    &&& request_matches_bytes(req, src@.subrange(0, REQUEST_LEN as int))
                    &&& Some(req) == spec_decode_request(src@.subrange(0, REQUEST_LEN as int))
                },
                Err(DecodeError::Truncated) => src@.len() < REQUEST_LEN,
                Err(DecodeError::UnknownVariant) => {
                    &&& src@.len() >= REQUEST_LEN
                    &&& spec_decode_request(src@.subrange(0, REQUEST_LEN as int)) == None::<
                        Request,
                    >
                },
            },
    {
        if src.len() < REQUEST_LEN {
            return Err(DecodeError::Truncated);
        }
        let ghost sub = src@.subrange(0, REQUEST_LEN as int);
        let sl0 = slice_subrange(src, 0, TASK_LEN);
        proof {
            assert(sl0@.subrange(0, TASK_LEN as int) =~= src@.subrange((36 * 0) as int, (36 * 0 + 36) as int));
        }
        let t0 = match Task::unpack_from_slice(sl0) {
            Ok(t) => t,
            Err(_) => {
                proof {
                    lemma_no_request_when_task_fails(src@, 0);
                }
                return Err(DecodeError::UnknownVariant);
            },
        };
        let sl1 = slice_subrange(src, TASK_LEN, 2 * TASK_LEN);
        proof {
            assert(sl1@.subrange(0, TASK_LEN as int) =~= src@.subrange((36 * 1) as int, (36 * 1 + 36) as int));
        }
        let t1 = match Task::unpack_from_slice(sl1) {
            Ok(t) => t,
            Err(_) => {
                proof {
                    lemma_no_request_when_task_fails(src@, 1);
                }
                return Err(DecodeError::UnknownVariant);
            },
        };
        let sl2 = slice_subrange(src, 2 * TASK_LEN, 3 * TASK_LEN);
        proof {
            assert(sl2@.subrange(0, TASK_LEN as int) =~= src@.subrange((36 * 2) as int, (36 * 2 + 36) as int));
        }
        let t2 = match Task::unpack_from_slice(sl2) {
            Ok(t) => t,
            Err(_) => {
                proof {
                    lemma_no_request_when_task_fails(src@, 2);
                }
                return Err(DecodeError::UnknownVariant);
            },
        };
        let program_id_bytes: [u8; 32] = read_array(src, 3 * TASK_LEN);
        let index = src[REQUEST_LEN - 1];
        let req = Request {
            tasks: [t0, t1, t2],
            call_back_program: Pubkey { bytes: program_id_bytes },
            index,
        };
        proof {
            assert(sub.subrange(0, 36) =~= src@.subrange(0, 36));
            assert(sub.subrange(36, 72) =~= src@.subrange(36, 72));
            assert(sub.subrange(72, 108) =~= src@.subrange(72, 108));
            assert(sub.subrange(108, 140) =~= src@.subrange(108, 140));
            assert(req.tasks@[0] == t0 && req.tasks@[1] == t1 && req.tasks@[2] == t2);
            assert(request_matches_bytes(req, sub));
            let x = choose|x: Request| request_matches_bytes(x, sub);
            lemma_request_matches_unique(x, req, sub);
        }
        Ok(req)
    }
}

/// When one of the three task windows of `s` decodes to nothing, no request
/// decodes from `s` either.
proof fn lemma_no_request_when_task_fails(src: Seq<u8>, which: int)
    requires
        src.len() >= REQUEST_LEN,
        0 <= which < 3,
        spec_decode_task(src.subrange(36 * which, 36 * which + 36)) == None::<Task>,
    ensures
        spec_decode_request(src.subrange(0, REQUEST_LEN as int)) == None::<Request>,
{
    let sub = src.subrange(0, REQUEST_LEN as int);
    assert forall|rq: Request| !request_matches_bytes(rq, sub) by {
        if request_matches_bytes(rq, sub) {
            assert(sub.subrange(36 * which, 36 * which + 36) =~= src.subrange(
                36 * which,
                36 * which + 36,
            ));
            let t = if which == 0 {
                rq.tasks@[0]
            } else if which == 1 {
                rq.tasks@[1]
            } else {
                rq.tasks@[2]
            };
            assert(task_matches_bytes(t, src.subrange(36 * which, 36 * which + 36)));
        }
    }
}

/// The 141 bytes of slot `i` inside a queue buffer.
pub open spec fn slot_bytes(s: Seq<u8>, i: int) -> Seq<u8>
    recommends
        s.len() == REQUEST_QUEUE_LEN,
        0 <= i < REQUEST_QUEUE_SIZE,
{
    s.subrange(141 * i, 141 * i + 141)
}

/// Is slot `i` of the queue buffer empty under the zero-prefix rule?
pub open spec fn spec_slot_empty(s: Seq<u8>, i: int) -> bool {
    spec_empty_prefix(slot_bytes(s, i))
}

/// Does slot `i` read back as something: either empty, or an occupied slot
/// whose bytes decode to a request?
pub open spec fn slot_decodes(s: Seq<u8>, i: int) -> bool {
    spec_slot_empty(s, i) || spec_decode_request(slot_bytes(s, i)) is Some
}

/// Can the whole buffer be read back as a queue?
pub open spec fn queue_bytes_valid(s: Seq<u8>) -> bool {
    &&& s.len() == REQUEST_QUEUE_LEN
    &&& forall|i: int| 0 <= i < REQUEST_QUEUE_SIZE ==> slot_decodes(s, i)
}

/// The first empty slot at or after `i`, scanning upward.
pub open spec fn spec_first_empty_from(s: Seq<u8>, i: int) -> Option<int>
    decreases REQUEST_QUEUE_SIZE as int - i,
{
    if i < 0 || i >= REQUEST_QUEUE_SIZE as int {
        None
    } else if spec_slot_empty(s, i) {
        Some(i)
    } else {
        spec_first_empty_from(s, i + 1)
    }
}

/// The first empty slot of the queue buffer, if any.
pub open spec fn spec_first_empty(s: Seq<u8>) -> Option<int> {
    spec_first_empty_from(s, 0)
}

proof fn lemma_first_empty_from_characterization(s: Seq<u8>, i: int)
    requires
        0 <= i,
    ensures
        match spec_first_empty_from(s, i) {
            Some(k) => {
                &&& i <= k < REQUEST_QUEUE_SIZE
                &&& spec_slot_empty(s, k)
                &&& forall|j: int| i <= j < k ==> !spec_slot_empty(s, j)
            },
            None => forall|j: int| i <= j < REQUEST_QUEUE_SIZE ==> !spec_slot_empty(s, j),
        },
    decreases REQUEST_QUEUE_SIZE as int - i,
{
    if i < REQUEST_QUEUE_SIZE as int && !spec_slot_empty(s, i) {
        lemma_first_empty_from_characterization(s, i + 1);
    }
}

/// The first empty slot really is the least empty slot: every slot below it
/// is occupied, and when there is none, every slot is occupied.
pub proof fn lemma_first_empty_is_least(s: Seq<u8>)
    ensures
        match spec_first_empty(s) {
            Some(k) => {
                &&& 0 <= k < REQUEST_QUEUE_SIZE
                &&& spec_slot_empty(s, k)
                &&& forall|j: int| 0 <= j < k ==> !spec_slot_empty(s, j)
            },
            None => forall|j: int| 0 <= j < REQUEST_QUEUE_SIZE ==> !spec_slot_empty(s, j),
        },
{
    lemma_first_empty_from_characterization(s, 0);
}

/// Allocation into a wholly empty queue lands in slot 0.
pub proof fn lemma_first_empty_all_empty(s: Seq<u8>)
    requires
        spec_slot_empty(s, 0),
    ensures
        spec_first_empty(s) == Some(0int),
{
}

/// The buffer after slot `i` is overwritten with the 141 bytes `bytes`.
pub open spec fn spec_store_slot(s: Seq<u8>, i: int, bytes: Seq<u8>) -> Seq<u8>
    recommends
        s.len() == REQUEST_QUEUE_LEN,
        0 <= i < REQUEST_QUEUE_SIZE,
        bytes.len() == REQUEST_LEN,
{
    s.subrange(0, 141 * i) + bytes + s.subrange(141 * i + 141, s.len() as int)
}

/// The buffer after slot `i` is overwritten with zeros.
pub open spec fn spec_clear_slot(s: Seq<u8>, i: int) -> Seq<u8> {
    spec_store_slot(s, i, zero_bytes(REQUEST_LEN as nat))
}

/// Clearing a slot is idempotent: clearing it twice leaves the very same
/// buffer as clearing it once.
pub proof fn lemma_clear_slot_idempotent(s: Seq<u8>, i: int)
    requires
        s.len() == REQUEST_QUEUE_LEN,
        0 <= i < REQUEST_QUEUE_SIZE,
    ensures
        spec_clear_slot(spec_clear_slot(s, i), i) == spec_clear_slot(s, i),
{
    let z = zero_bytes(REQUEST_LEN as nat);
    let lo = 141 * i;
    let hi = 141 * i + 141;
    let s1 = spec_clear_slot(s, i);
    assert(s1.len() == REQUEST_QUEUE_LEN);
    assert(s1.subrange(0, lo) =~= s.subrange(0, lo));
    assert(s1.subrange(hi, s1.len() as int) =~= s.subrange(hi, s.len() as int));
    assert(spec_clear_slot(s1, i) == s1.subrange(0, lo) + z + s1.subrange(hi, s1.len() as int));
}

/// Slot recycling: right after slot `i` is cleared, the first empty slot is
/// at `i` or below.
pub proof fn lemma_clear_slot_recycles(s: Seq<u8>, i: int)
    requires
        s.len() == REQUEST_QUEUE_LEN,
        0 <= i < REQUEST_QUEUE_SIZE,
    ensures
        spec_first_empty(spec_clear_slot(s, i)) matches Some(k) && k <= i,
{
    let s2 = spec_clear_slot(s, i);
    assert(s2.len() == REQUEST_QUEUE_LEN);
    assert(spec_slot_empty(s2, i)) by {
        assert(slot_bytes(s2, i) =~= zero_bytes(REQUEST_LEN as nat));
    }
    lemma_first_empty_is_least(s2);
    match spec_first_empty(s2) {
        Some(k) => {
            if k > i {
                assert(!spec_slot_empty(s2, i));
            }
        },
        None => {
            assert(!spec_slot_empty(s2, i));
        },
    }
}

/// Does the queue entry `entry` read back from slot `i` of the buffer `s`?
/// An empty slot reads back as `None`, an occupied one as its decoded
/// request.
pub open spec fn slot_entry_matches(s: Seq<u8>, i: int, entry: Option<Request>) -> bool {
    match entry {
        Some(r) => !spec_slot_empty(s, i) && request_matches_bytes(r, slot_bytes(s, i)),
        None => spec_slot_empty(s, i),
    }
}

/// Does the pair `p` describe slot `i` of the buffer `s`: does it carry the
/// slot's own index and the entry the slot reads back as?
pub open spec fn indexed_entry_matches(s: Seq<u8>, i: int, p: (u8, Option<Request>)) -> bool {
    p.0 == i && slot_entry_matches(s, i, p.1)
}

/// After a queue value is written over a buffer, slot `i` of the new buffer
/// `s_new` holds the encoding of the slot's request, or its bytes from the
/// old buffer `s_old` when the slot is empty.
pub open spec fn slot_packed(entry: Option<Request>, s_old: Seq<u8>, s_new: Seq<u8>, i: int) -> bool {
    match entry {
        Some(r) => slot_bytes(s_new, i) == spec_encode_request(r),
        None => slot_bytes(s_new, i) == slot_bytes(s_old, i),
    }
}

/// The decoded view of one queue buffer: ten optional requests, one per
/// slot, in slot order.
#[derive(Clone, Debug, PartialEq, Eq)]
pub struct RequestQueue {
    pub requests: Vec<Option<Request>>,
}

impl RequestQueue {
    /// A queue value always holds exactly one entry per slot.
    pub open spec fn wf(self) -> bool {
        self.requests@.len() == REQUEST_QUEUE_SIZE
    }

    /// Does this queue value read back from the buffer `s`, slot by slot?
    pub open spec fn matches_bytes(self, s: Seq<u8>) -> bool {
        &&& self.wf()
        &&& s.len() == REQUEST_QUEUE_LEN
        &&& forall|i: int|
            0 <= i < REQUEST_QUEUE_SIZE ==> slot_entry_matches(s, i, self.requests@[i])
    }

    /// Decode a whole queue buffer, slot by slot.
    ///
    /// A slot whose first eight bytes are zero reads back as `None`; any
    /// occupied slot that does not decode makes the whole buffer unreadable,
    /// as does a buffer of the wrong length.
    pub fn unpack_from_slice(src: &[u8]) -> (r: Result<RequestQueue, OracleError>)
        ensures
            match r {
                Ok(q) => queue_bytes_valid(src@) && q.matches_bytes(src@),
                Err(e) => e == OracleError::InvalidAccountData && !queue_bytes_valid(src@),
            },
    {
        if src.len() != REQUEST_QUEUE_LEN {
            return Err(OracleError::InvalidAccountData);
        }
        let mut requests: Vec<Option<Request>> = Vec::new();
        let mut i: usize = 0;
        let mut offset: usize = 0;
        while i < REQUEST_QUEUE_SIZE
            invariant
                src@.len() == REQUEST_QUEUE_LEN,
                i <= REQUEST_QUEUE_SIZE,
                offset == 141 * i,
                requests@.len() == i,
                forall|j: int| 0 <= j < i ==> slot_entry_matches(src@, j, requests@[j]),
                forall|j: int| 0 <= j < i ==> slot_decodes(src@, j),
            decreases REQUEST_QUEUE_SIZE - i,
        {
            let slot = slice_subrange(src, offset, offset + REQUEST_LEN);
            proof {
                assert(slot@ =~= slot_bytes(src@, i as int));
            }
            if Request::is_empty_buffer(slot) {
                requests.push(None);
            } else {
                match Request::unpack_from_slice(slot) {
                    Ok(r) => {
                        proof {
                            assert(slot@.subrange(0, REQUEST_LEN as int) =~= slot@);
                        }
                        requests.push(Some(r));
                    },
                    Err(_) => {
                        proof {
                            assert(slot@.subrange(0, REQUEST_LEN as int) =~= slot@);
                            assert(!slot_decodes(src@, i as int));
                        }
                        return Err(OracleError::InvalidAccountData);
                    },
                }
            }
            i += 1;
            offset += REQUEST_LEN;
        }
        Ok(RequestQueue { requests })
    }

    /// Decode a whole queue buffer into `(slot index, entry)` pairs, one per
    /// slot, in slot order.
    pub fn decode_all(src: &[u8]) -> (r: Result<Vec<(u8, Option<Request>)>, OracleError>)
        ensures
            match r {
                Ok(v) => {
                    &&& queue_bytes_valid(src@)
                    &&& v@.len() == REQUEST_QUEUE_SIZE
                    &&& forall|i: int|
                        0 <= i < REQUEST_QUEUE_SIZE ==> #[trigger] indexed_entry_matches(
                            src@,
                            i,
                            v@.index(i),
                        )
                },
                Err(e) => e == OracleError::InvalidAccountData && !queue_bytes_valid(src@),
            },
    {
        let q = RequestQueue::unpack_from_slice(src)?;
        let mut out: Vec<(u8, Option<Request>)> = Vec::new();
        let mut i: usize = 0;
        while i < REQUEST_QUEUE_SIZE
            invariant
                q.wf(),
                q.matches_bytes(src@),
                i <= REQUEST_QUEUE_SIZE,
                out@.len() == i,
                forall|j: int|
                    0 <= j < i ==> #[trigger] out@.index(j) == (j as u8, q.requests@.index(j)),
            decreases REQUEST_QUEUE_SIZE - i,
        {
            out.push((i as u8, q.requests[i]));
            i += 1;
        }
        Ok(out)
    }

    /// Write this queue value over the buffer `dst`: each occupied slot gets
    /// its request's encoding, each empty slot keeps the bytes it had.
    pub fn pack_into_slice(&self, dst: &mut Vec<u8>)
        requires
            self.wf(),
            old(dst)@.len() == REQUEST_QUEUE_LEN,
        ensures
            final(dst)@.len() == REQUEST_QUEUE_LEN,
            forall|i: int|
                0 <= i < REQUEST_QUEUE_SIZE ==> #[trigger] slot_packed(
                    self.requests@.index(i),
                    old(dst)@,
                    final(dst)@,
                    i,
                ),
    {
        let mut i: usize = 0;
        let mut offset: usize = 0;
        while i < REQUEST_QUEUE_SIZE
            invariant
                self.wf(),
                dst@.len() == REQUEST_QUEUE_LEN,
                old(dst)@.len() == REQUEST_QUEUE_LEN,
                i <= REQUEST_QUEUE_SIZE,
                offset == 141 * i,
                forall|j: int|
                    0 <= j < i ==> #[trigger] slot_packed(
                        self.requests@.index(j),
                        old(dst)@,
                        dst@,
                        j,
                    ),
                forall|k: int| 141 * i <= k < REQUEST_QUEUE_LEN ==> dst@[k] == old(dst)@[k],
            decreases REQUEST_QUEUE_SIZE - i,
        {
            let ghost prev = dst@;
            let entry = self.requests[i];
            match entry {
                Some(r) => {
                    r.pack_into_slice(dst, offset);
                },
                None => {},
            }
            proof {
                assert forall|j: int| 0 <= j < i + 1 implies #[trigger] slot_packed(
                    self.requests@.index(j),
                    old(dst)@,
                    dst@,
                    j,
                ) by {
                    if j < i {
                        assert(slot_packed(self.requests@.index(j), old(dst)@, prev, j));
                        assert(slot_bytes(dst@, j) =~= slot_bytes(prev, j));
                    } else {
                        match self.requests@[j] {
                            Some(r) => {
                                assert(slot_bytes(dst@, j) =~= dst@.subrange(
                                    offset as int,
                                    offset + REQUEST_LEN,
                                ));
                            },
                            None => {
                                assert(slot_bytes(dst@, j) =~= slot_bytes(old(dst)@, j));
                            },
                        }
                    }
                }
            }
            i += 1;
            offset += REQUEST_LEN;
        }
    }

    /// Scan the slots from 0 upward and report the first empty one, or
    /// `None` when every slot is occupied.
    pub fn find_first_empty_slot(src: &[u8]) -> (r: Option<usize>)
        requires
            src@.len() == REQUEST_QUEUE_LEN,
        ensures
            match r {
                Some(i) => i < REQUEST_QUEUE_SIZE && spec_first_empty(src@) == Some(i as int),
                None => spec_first_empty(src@) == None::<int>,
            },
    {
        let mut i: usize = 0;
        let mut offset: usize = 0;
        while i < REQUEST_QUEUE_SIZE
            invariant
                src@.len() == REQUEST_QUEUE_LEN,
                i <= REQUEST_QUEUE_SIZE,
                offset == 141 * i,
                spec_first_empty(src@) == spec_first_empty_from(src@, i as int),
            decreases REQUEST_QUEUE_SIZE - i,
        {
            let slot = slice_subrange(src, offset, offset + REQUEST_LEN);
            proof {
                assert(slot@ =~= slot_bytes(src@, i as int));
            }
            if Request::is_empty_buffer(slot) {
                return Some(i);
            }
            i += 1;
            offset += REQUEST_LEN;
        }
        None
    }

    /// Put `request` into the first empty slot: stamp its index field with
    /// that slot and write its encoding over the slot's byte range.  Nothing
    /// else in the buffer moves.  A full queue fails with
    /// [`OracleError::QueueFull`] and leaves the buffer untouched.
    pub fn insert(dst: &mut Vec<u8>, request: Request) -> (r: Result<u8, OracleError>)
        requires
            old(dst)@.len() == REQUEST_QUEUE_LEN,
        ensures
            match r {
                Ok(i) => {
                    &&& i < REQUEST_QUEUE_SIZE
                    &&& spec_first_empty(old(dst)@) == Some(i as int)
                    &&& final(dst)@ == spec_store_slot(
                        old(dst)@,
                        i as int,
                        spec_encode_request(Request { index: i, ..request }),
                    )
                },
                Err(e) => {
                    &&& e == OracleError::QueueFull
                    &&& spec_first_empty(old(dst)@) == None::<int>
                    &&& final(dst)@ == old(dst)@
                },
            },
    {
        let slot = match RequestQueue::find_first_empty_slot(dst.as_slice()) {
            Some(i) => i,
            None => {
                return Err(OracleError::QueueFull);
            },
        };
        let stamped = Request { index: slot as u8, ..request };
        proof {
            // expose the constant's value, so the slot-offset product below
            // stays linear for the solver
            assert(REQUEST_LEN == 141);
        }
        let offset = slot * REQUEST_LEN;
        stamped.pack_into_slice(dst, offset);
        proof {
            assert(dst@ =~= spec_store_slot(
                old(dst)@,
                slot as int,
                spec_encode_request(stamped),
            ));
        }
        Ok(slot as u8)
    }

    /// Clear slot `slot_index`: overwrite its whole byte range with zeros.
    /// Clearing an already clear slot changes nothing.
    pub fn remove(dst: &mut Vec<u8>, slot_index: usize)
        requires
            old(dst)@.len() == REQUEST_QUEUE_LEN,
            slot_index < REQUEST_QUEUE_SIZE,
        ensures
            final(dst)@ == spec_clear_slot(old(dst)@, slot_index as int),
    {
        proof {
            // expose the constant's value, so the slot-offset product below
            // stays linear for the solver
            assert(REQUEST_LEN == 141);
        }
        let offset = slot_index * REQUEST_LEN;
        zero_bytes_at(dst, offset, REQUEST_LEN);
        proof {
            assert(dst@ =~= spec_clear_slot(old(dst)@, slot_index as int));
        }
    }
}

} // verus!
