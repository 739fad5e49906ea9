//! The SMC key protocol, over a transport that carries one encoded
//! [`SmcParam`] to the SMC user client and brings its 80-byte reply back.
//!
//! The transport is the one part that talks to the machine (an IOKit struct
//! call on a connection to `AppleSMC`); it is handed in by the program. What
//! it returns depends on the hardware, so the connection keeps a ghost log,
//! extended by [`Smc::call`] (the one function that calls the transport) with
//! the bytes it sent and the raw reply the transport gave. Each method states
//! which requests it appends to the log, in which order, and what it makes of
//! the replies.

use vstd::prelude::*;
use crate::fourcc::{be32, KEY_COUNT_KEY};
use crate::smc_param::{
    decodes_to, encode_param, get_le32, key_at_index_request, key_info_request, read_key_request,
    SmcKeyInfo, SmcParam, SMC_PARAM_LEN,
};

verus! {

/// One exchange with the SMC: the bytes sent and the raw reply, if any.
pub type Exchange = (Vec<u8>, Option<Vec<u8>>);

/// The raw reply is a whole block whose result byte reports success.
pub open spec fn reply_ok(raw: Option<Vec<u8>>) -> bool {
    match raw {
        Some(v) => v@.len() == SMC_PARAM_LEN && v@[40] == 0,
        None => false,
    }
}

/// What `call` makes of the raw reply `raw`: nothing when the transport
/// failed, when the reply is not a whole block or when the SMC reports an
/// error in the result byte; otherwise the decoded block.
pub open spec fn reply_accepted(raw: Option<Vec<u8>>, out: Option<SmcParam>) -> bool {
    if reply_ok(raw) {
        out matches Some(p) && decodes_to(raw.unwrap()@, p)
    } else {
        out is None
    }
}

/// The key info carried by an accepted reply.
pub open spec fn reply_key_info(raw: Option<Vec<u8>>) -> Option<SmcKeyInfo> {
    if reply_ok(raw) {
        let v = raw.unwrap()@;
        Some(
            SmcKeyInfo {
                data_size: get_le32(v, 28),
                data_type: get_le32(v, 32),
                data_attributes: v[36],
            },
        )
    } else {
        None
    }
}

/// The key carried by an accepted reply.
pub open spec fn reply_key(raw: Option<Vec<u8>>) -> Option<u32> {
    if reply_ok(raw) {
        Some(get_le32(raw.unwrap()@, 0))
    } else {
        None
    }
}

/// The 32 value bytes carried by an accepted reply.
pub open spec fn reply_value(raw: Option<Vec<u8>>) -> Option<Seq<u8>> {
    if reply_ok(raw) {
        Some(raw.unwrap()@.subrange(48, 80))
    } else {
        None
    }
}

/// `res` holds the bytes `value`, or nothing when there is no value.
pub open spec fn bytes_match(res: Option<[u8; 32]>, value: Option<Seq<u8>>) -> bool {
    match (res, value) {
        (Some(b), Some(v)) => b@ == v,
        (None, None) => true,
        _ => false,
    }
}

/// What reading a key gives from its exchanges: its info and value, when both
/// replies were accepted.
pub open spec fn read_key_result(ex: Seq<Exchange>) -> Option<(SmcKeyInfo, Seq<u8>)> {
    match reply_key_info(ex[0].1) {
        Some(info) => match reply_value(ex[1].1) {
            Some(v) => Some((info, v)),
            None => None,
        },
        None => None,
    }
}

/// The key count held in the value of `#KEY`, or zero when it could not be read.
pub open spec fn count_of(r: Option<(SmcKeyInfo, Seq<u8>)>) -> u32 {
    match r {
        Some((_, value)) => be32(value),
        None => 0,
    }
}

/// A connection to the SMC through `transport`, with the log of its exchanges.
pub struct Smc<F: Fn(&Vec<u8>) -> Option<Vec<u8>>> {
    transport: F,
    log: Ghost<Seq<Exchange>>,
}

impl<F: Fn(&Vec<u8>) -> Option<Vec<u8>>> Smc<F> {
    /// The transport accepts every request.
    #[verifier::type_invariant]
    spec fn transport_total(self) -> bool {
        forall|req: Vec<u8>| #[trigger] call_requires(self.transport, (&req,))
    }

    pub closed spec fn transport(self) -> F {
        self.transport
    }

    /// The exchanges made through `call`, oldest first.
    pub closed spec fn log(self) -> Seq<Exchange> {
        self.log@
    }

    /// The transport gave the raw reply `e.1` to the bytes `e.0`.
    pub open spec fn made(self, e: Exchange) -> bool {
        call_ensures(self.transport(), (&e.0,), e.1)
    }

    /// `e` is an exchange of this transport sending `request`.
    pub open spec fn sends(self, e: Exchange, request: SmcParam) -> bool {
        e.0@ == encode_param(request) && self.made(e)
    }

    /// `ex` are exchanges of this transport sending exactly `requests`, in order.
    pub open spec fn sent(self, ex: Seq<Exchange>, requests: Seq<SmcParam>) -> bool {
        &&& ex.len() == requests.len()
        &&& forall|i: int|
            0 <= i < ex.len() ==> (#[trigger] ex[i]).0@ == encode_param(requests[i]) && self.made(
                ex[i],
            )
    }

    /// `self` is `old` after the exchanges `ex` and nothing else.
    pub open spec fn appended(self, old: Self, ex: Seq<Exchange>) -> bool {
        &&& self.transport() == old.transport()
        &&& self.log() == old.log() + ex
    }

    /// The exchanges of reading `key`: its info, then, only when that reply was
    /// accepted, its value with the info received.
    pub open spec fn read_key_sent(self, key: u32, ex: Seq<Exchange>) -> bool {
        &&& ex.len() >= 1
        &&& self.sends(ex[0], key_info_request(key))
        &&& match reply_key_info(ex[0].1) {
            None => ex.len() == 1,
            Some(info) => ex.len() == 2 && self.sends(ex[1], read_key_request(key, info)),
        }
    }

    /// Law: reading a key sends one or two requests, and no value request
    /// follows a key-info request whose reply was not accepted.
    pub proof fn lemma_read_key_at_most_two_requests(self, key: u32, ex: Seq<Exchange>)
        requires
            self.read_key_sent(key, ex),
        ensures
            1 <= ex.len() <= 2,
            reply_key_info(ex[0].1) is None ==> ex.len() == 1,
            ex.len() == 2 ==> ex[1].0@ == encode_param(
                read_key_request(key, reply_key_info(ex[0].1).unwrap()),
            ),
    {
    }

    /// Opens the protocol over a transport that accepts every request.
    pub fn new(transport: F) -> (smc: Self)
        requires
            forall|req: Vec<u8>| #[trigger] call_requires(transport, (&req,)),
        ensures
            smc.transport() == transport,
            smc.log() == Seq::<Exchange>::empty(),
    {
        Smc { transport, log: Ghost(Seq::empty()) }
    }

    /// Sends `input` (one exchange) and returns the SMC's reply, if the
    /// transport delivered a whole block and its result byte reports success.
    pub fn call(&mut self, input: &SmcParam) -> (out: Option<SmcParam>)
        ensures
            ({
                let e = final(self).log().last();
                &&& final(self).appended(*old(self), seq![e])
                &&& final(self).sends(e, *input)
                &&& reply_accepted(e.1, out)
            }),
    {
        proof {
            use_type_invariant(&*self);
        }
        let req = input.encode();
        let raw = (self.transport)(&req);
        let ghost e: Exchange = (req, raw);
        let out = match &raw {
            Some(v) => {
                if v.len() == SMC_PARAM_LEN {
                    let output = SmcParam::decode(v.as_slice());
                    if output.result == 0 {
                        Some(output)
                    } else {
                        None
                    }
                } else {
                    None
                }
            },
            None => None,
        };
        self.log = Ghost(self.log@.push(e));
        proof {
            assert(self.made(e));
            assert(self.log() =~= old(self).log() + seq![e]);
        }
        out
    }

    /// The type and size of `key`: one key-info request.
    pub fn get_key_info(&mut self, key: u32) -> (res: Option<SmcKeyInfo>)
        ensures
            ({
                let e = final(self).log().last();
                &&& final(self).appended(*old(self), seq![e])
                &&& final(self).sends(e, key_info_request(key))
                &&& res == reply_key_info(e.1)
            }),
    {
        let input = SmcParam::for_key_info(key);
        let out = self.call(&input);
        match out {
            Some(o) => Some(o.key_info),
            None => None,
        }
    }

    /// The value bytes of `key`, whose type and size are `info`: one value request.
    pub fn read_key_bytes(&mut self, key: u32, info: SmcKeyInfo) -> (res: Option<[u8; 32]>)
        ensures
            ({
                let e = final(self).log().last();
                &&& final(self).appended(*old(self), seq![e])
                &&& final(self).sends(e, read_key_request(key, info))
                &&& bytes_match(res, reply_value(e.1))
            }),
    {
        let input = SmcParam::for_read_key(key, info);
        let out = self.call(&input);
        match out {
            Some(o) => Some(o.bytes),
            None => None,
        }
    }

    /// The type and value of `key`: two requests, the second only when the
    /// first succeeded.
    pub fn read_key(&mut self, key: u32) -> (res: Option<(SmcKeyInfo, [u8; 32])>)
        ensures
            ({
                let ex = final(self).log().skip(old(self).log().len() as int);
                &&& final(self).appended(*old(self), ex)
                &&& final(self).read_key_sent(key, ex)
                &&& match (res, read_key_result(ex)) {
                    (Some((i, b)), Some((info, v))) => i == info && b@ == v,
                    (None, None) => true,
                    _ => false,
                }
            }),
    {
        let ghost start = self.log();
        let info = match self.get_key_info(key) {
            Some(info) => info,
            None => {
                proof {
                    let ex = self.log().skip(start.len() as int);
                    assert(ex =~= seq![self.log().last()]);
                }
                return None;
            },
        };
        let ghost mid = self.log();
        let bytes = self.read_key_bytes(key, info);
        proof {
            let ex = self.log().skip(start.len() as int);
            assert(ex =~= seq![mid.last(), self.log().last()]);
            assert(self.log() =~= start + ex);
        }
        match bytes {
            Some(bytes) => Some((info, bytes)),
            None => None,
        }
    }

    /// The number of keys the SMC holds (the big-endian value of `#KEY`),
    /// zero when it cannot be read; no other key is read.
    pub fn key_count(&mut self) -> (count: u32)
        ensures
            ({
                let ex = final(self).log().skip(old(self).log().len() as int);
                &&& final(self).appended(*old(self), ex)
                &&& final(self).read_key_sent(KEY_COUNT_KEY, ex)
                &&& count == count_of(read_key_result(ex))
            }),
    {
        let r = self.read_key(KEY_COUNT_KEY);
        match r {
            Some((_, bytes)) => {
                let b = [bytes[0], bytes[1], bytes[2], bytes[3]];
                crate::fourcc::fourcc(b)
            },
            None => 0,
        }
    }

    /// The key stored at `index`: one key-at-index request.
    pub fn key_at_index(&mut self, index: u32) -> (res: Option<u32>)
        ensures
            ({
                let e = final(self).log().last();
                &&& final(self).appended(*old(self), seq![e])
                &&& final(self).sends(e, key_at_index_request(index))
                &&& res == reply_key(e.1)
            }),
    {
        let input = SmcParam::for_key_at_index(index);
        let out = self.call(&input);
        match out {
            Some(o) => Some(o.key),
            None => None,
        }
    }
}


/// Law: a raw reply is accepted exactly when it is a whole block whose
/// decoded result field is zero, and then the key, key info and value bytes
/// taken from it are the decoded block's fields.
pub proof fn lemma_reply_fields(v: Vec<u8>, p: SmcParam)
    requires
        decodes_to(v@, p),
    ensures
        reply_ok(Some(v)) <==> p.result == 0,
        p.result == 0 ==> reply_key(Some(v)) == Some(p.key),
        p.result == 0 ==> reply_key_info(Some(v)) == Some(p.key_info),
        p.result == 0 ==> reply_value(Some(v)) == Some(p.bytes@),
        p.result == 0 ==> reply_accepted(Some(v), Some(p)),
        reply_ok(None) == false,
{
}

/// Law: the key count is the first four value bytes of `#KEY` read as a
/// base-256 number, most significant first, and zero when `#KEY` could not be
/// read.
pub proof fn lemma_count_value(info: SmcKeyInfo, value: Seq<u8>)
    requires
        value.len() >= 4,
    ensures
        count_of(Some((info, value))) as int == value[0] * 0x100_0000 + value[1] * 0x1_0000 + value[2]
            * 0x100 + value[3],
        count_of(None) == 0,
{
    crate::fourcc::lemma_be32_value(value[0], value[1], value[2], value[3]);
    assert(be32(value) == be32(seq![value[0], value[1], value[2], value[3]]));
}

} // verus!
