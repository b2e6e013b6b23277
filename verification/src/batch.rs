//! The pending batch of the proposing side.
//!
//! A batch gathers the operations of several client requests that share a
//! header, together with the channels on which those requests are answered.
//! It lives until it is encoded and handed to the log, or rejected.

use vstd::prelude::*;
use crate::channel::ResponseChannel;
use crate::metadata::WriteHeader;
use crate::request::WriteRequest;
use crate::size::{lemma_enc_header_len, ops_size, sat, sat_add};
use crate::parse::parse_batch;
use crate::roundtrip::{
    law_decode_inverts_encode,
    lemma_enc_ops_concat,
    lemma_enc_u64_len,
    lemma_held_ops_fit,
};
use crate::wire::{COUNT_LEN, HEADER_LEN, enc_batch, put_header, put_ops, put_u64};
use crate::write_op::WriteOpView;

verus! {

/// Two headers name the same partition at the same epoch in the same term.
pub open spec fn headers_match(a: WriteHeader, b: WriteHeader) -> bool {
    a.region_id == b.region_id && a.epoch == b.epoch && a.term == b.term
}

/// Encoded size of a batch with the operations `ops`: the header, the count
/// and the operations.
pub open spec fn batch_size(ops: Seq<WriteOpView>) -> nat {
    (HEADER_LEN + COUNT_LEN + ops_size(ops)) as nat
}

/// The pending batch: a header, the operations of the requests that have
/// joined, in the order in which they joined, and the channels of those
/// requests.
pub struct WriteBatch {
    header: WriteHeader,
    body: WriteRequest,
    channels: Vec<ResponseChannel>,
    size_limit: usize,
    notify_proposed: bool,
}

/// Mathematical value of a [`WriteBatch`].
pub struct WriteBatchView {
    pub header: WriteHeader,
    pub ops: Seq<WriteOpView>,
    pub channels: Seq<ResponseChannel>,
    pub size_limit: usize,
    pub notify_proposed: bool,
}

impl View for WriteBatch {
    type V = WriteBatchView;

    closed spec fn view(&self) -> WriteBatchView {
        WriteBatchView {
            header: self.header,
            ops: self.body@,
            channels: self.channels@,
            size_limit: self.size_limit,
            notify_proposed: self.notify_proposed,
        }
    }
}

impl WriteBatch {
    /// A batch that holds the operations of `data` and no channel yet.
    ///
    /// With `notify_proposed`, each channel is told that its request was
    /// proposed as soon as it joins the batch.
    pub fn new(
        header: WriteHeader,
        data: WriteRequest,
        size_limit: usize,
        notify_proposed: bool,
    ) -> (batch: WriteBatch)
        ensures
            batch@ == (WriteBatchView {
                header,
                ops: data@,
                channels: Seq::empty(),
                size_limit,
                notify_proposed,
            }),
    {
        WriteBatch { header, body: data, channels: Vec::new(), size_limit, notify_proposed }
    }

    /// Takes the operations of `data` into the batch, behind those that are
    /// there, if `header` matches the header of the batch and the batch stays
    /// under its size limit. Otherwise nothing changes, and the caller has to
    /// flush the batch and start another.
    pub fn amend(&mut self, header: &WriteHeader, data: &WriteRequest) -> (accepted: bool)
        ensures
            accepted == (headers_match(old(self)@.header, *header) && batch_size(old(self)@.ops)
                + ops_size(data@) < old(self)@.size_limit),
            accepted ==> final(self)@ == (WriteBatchView {
                ops: old(self)@.ops + data@,
                ..old(self)@
            }),
            accepted ==> batch_size(final(self)@.ops) < final(self)@.size_limit,
            !accepted ==> *final(self) == *old(self),
    {
        proof {
            lemma_enc_ops_concat(self@.ops, data@);
        }
        if self.header.region_id != header.region_id || self.header.epoch.conf_ver
            != header.epoch.conf_ver || self.header.epoch.version != header.epoch.version
            || self.header.term != header.term {
            return false;
        }
        if sat_add(self.data_size(), data.data_size()) < self.size_limit {
            self.body.append(data);
            true
        } else {
            false
        }
    }

    /// Registers the channel of a request whose operations are in the batch.
    /// Returns whether the channel is to be told now that its request was
    /// proposed.
    pub fn add_response_channel(&mut self, ch: ResponseChannel) -> (notify: bool)
        ensures
            notify == old(self)@.notify_proposed,
            final(self)@ == (WriteBatchView {
                channels: old(self)@.channels.push(ch),
                ..old(self)@
            }),
    {
        self.channels.push(ch);
        self.notify_proposed
    }

    /// Encoded size of the batch as it stands, saturating.
    pub fn data_size(&self) -> (n: usize)
        ensures
            n == sat(batch_size(self@.ops) as int),
    {
        sat_add(HEADER_LEN + COUNT_LEN, self.body.data_size())
    }

    /// Whether channels are told of the proposal when they join.
    pub fn notify_proposed(&self) -> (flag: bool)
        ensures
            flag == self@.notify_proposed,
    {
        self.notify_proposed
    }

    /// The header that the batch was begun with.
    pub fn header(&self) -> (header: &WriteHeader)
        ensures
            *header == self@.header,
    {
        &self.header
    }

    /// The size that the batch has to stay under when it takes more in.
    pub fn size_limit(&self) -> (limit: usize)
        ensures
            limit == self@.size_limit,
    {
        self.size_limit
    }

    /// The request whose operations the batch holds.
    pub fn body(&self) -> (body: &WriteRequest)
        ensures
            body@ == self@.ops,
    {
        &self.body
    }

    /// The channels that were registered, in the order of their requests.
    pub fn channels(&self) -> (channels: &Vec<ResponseChannel>)
        ensures
            channels@ == self@.channels,
    {
        &self.channels
    }

    /// Ends the batch: gives the payload for the log and the channels to
    /// answer once the entry is applied. The payload decodes to the header
    /// and the operations of the batch, in their order.
    pub fn encode(self) -> (out: (Vec<u8>, Vec<ResponseChannel>))
        ensures
            out.0@ == enc_batch(self@.header, self@.ops),
            out.0@.len() == batch_size(self@.ops),
            parse_batch(out.0@) == Some((self@.header, self@.ops)),
            out.1@ == self@.channels,
    {
        let WriteBatch { header, body, channels, size_limit, notify_proposed } = self;
        let mut buf: Vec<u8> = Vec::new();
        put_header(&mut buf, &header);
        put_u64(&mut buf, body.len() as u64);
        let ops = body.ops();
        put_ops(&mut buf, ops);
        proof {
            assert(buf@ == enc_batch(header, body@));
            lemma_held_ops_fit(ops@);
            law_decode_inverts_encode(header, body@);
            law_batch_size_is_payload_length(header, body@);
        }
        (buf, channels)
    }
}

/// The size that is counted for a batch is the length of its payload.
pub proof fn law_batch_size_is_payload_length(header: WriteHeader, ops: Seq<WriteOpView>)
    ensures
        enc_batch(header, ops).len() == batch_size(ops),
{
    lemma_enc_header_len(header);
    lemma_enc_u64_len(ops.len() as u64);
}

} // verus!
