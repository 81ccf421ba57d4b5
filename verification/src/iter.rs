use vstd::prelude::*;
use crate::Error;
use crate::framing::read_block;
use crate::framing::read_file_header;
use crate::framing::spec_file_header;
use crate::framing::spec_read_block;
use crate::framing::BlockOutcome;
use crate::framing::HeaderOutcome;
use crate::stream::ByteStream;
use crate::translate::features_model;
use crate::translate::read_body;
use crate::translate::spec_read_body;
use crate::translate::unique_keys;
use crate::translate::Feature;
use crate::translate::FeatureModel;

verus! {

/// What one pull on a byte stream comes to: a fatal error, the end of the
/// stream, or the features of the first block that carries any, together
/// with the bytes that follow that block.
pub enum PullModel {
    Failed(Error),
    Finished,
    Produced(Seq<FeatureModel>, Seq<u8>),
}

/// The outcome of pulling on the byte sequence `s`: blocks are read in
/// order, a block that translates to no features is passed over, and the
/// first block with features — or the sentinel, or an error — decides.
pub open spec fn spec_pull(s: Seq<u8>) -> PullModel
    decreases s.len(),
    via spec_pull_dec
{
    match spec_read_block(s) {
        BlockOutcome::ShortRead => PullModel::Failed(Error::Io),
        BlockOutcome::BadHeader => PullModel::Failed(Error::Format),
        BlockOutcome::End => PullModel::Finished,
        BlockOutcome::Payload(b) => match spec_read_body(b) {
            None => PullModel::Failed(Error::Format),
            Some(fms) => {
                if fms.len() > 0 {
                    PullModel::Produced(fms, s.skip(8 + b.len() as int))
                } else {
                    spec_pull(s.skip(8 + b.len() as int))
                }
            },
        },
    }
}

#[via_fn]
proof fn spec_pull_dec(s: Seq<u8>) {
    match spec_read_block(s) {
        BlockOutcome::Payload(b) => {
            assert(8 + b.len() <= s.len());
        },
        _ => {},
    }
}

/// A pull-based lazy pass over the features of one container stream.  The
/// stream is read block by block; the features of the current block wait in
/// a queue, and once the sentinel or an error is reached the iterator is
/// exhausted for good.
pub struct FeatureIterator {
    pub stream: ByteStream,
    pub queue: Vec<Feature>,
    pub exhausted: bool,
}

impl FeatureIterator {
    /// The iterator's stream position is sound and every buffered feature
    /// has unique tag keys.
    pub open spec fn wf(self) -> bool {
        &&& self.stream.wf()
        &&& forall|i: int| 0 <= i < self.queue@.len() ==> unique_keys(
            #[trigger] self.queue@[i].tags@,
        )
    }

    /// The bytes not yet consumed.
    pub open spec fn remaining(self) -> Seq<u8> {
        self.stream.remaining()
    }

    /// Open an iterator over a whole container: the 8-byte file header is
    /// validated and consumed at once, so a stream that is not a container
    /// is rejected before any block is touched.
    pub fn new(data: Vec<u8>) -> (r: Result<FeatureIterator, Error>)
        ensures
            match spec_file_header(data@) {
                HeaderOutcome::ShortRead => r == Err::<FeatureIterator, Error>(Error::Io),
                HeaderOutcome::Mismatch => r == Err::<FeatureIterator, Error>(Error::Format),
                HeaderOutcome::Valid => r matches Ok(it) && it.wf() && it.remaining()
                    == data@.skip(8) && it.queue@.len() == 0 && !it.exhausted,
            },
    {
        let mut stream = ByteStream::new(data);
        match read_file_header(&mut stream) {
            Err(e) => Err(e),
            Ok(()) => Ok(FeatureIterator { stream, queue: Vec::new(), exhausted: false }),
        }
    }

    /// Pull the next feature.
    ///
    /// An exhausted iterator answers `Ok(None)` at once, untouched, without
    /// reading: exhaustion is sticky.  A buffered feature is handed out in
    /// first-in-first-out order without reading.  Otherwise blocks are read
    /// until one yields features — a block with none is passed over, not
    /// mistaken for the end — and the sentinel or any framing, message or
    /// translation error ends the iteration for good.
    pub fn next(&mut self) -> (r: Result<Option<Feature>, Error>)
        requires
            old(self).wf(),
        ensures
            final(self).wf(),
            old(self).exhausted ==> r == Ok::<Option<Feature>, Error>(None) && *final(self)
                == *old(self),
            !old(self).exhausted && old(self).queue@.len() > 0 ==> {
                &&& r matches Ok(f) && f == Some(old(self).queue@[0])
                &&& final(self).queue@ == old(self).queue@.remove(0)
                &&& final(self).stream == old(self).stream
                &&& !final(self).exhausted
            },
            !old(self).exhausted && old(self).queue@.len() == 0 ==> match spec_pull(
                old(self).remaining(),
            ) {
                PullModel::Failed(e) => r == Err::<Option<Feature>, Error>(e)
                    && final(self).exhausted,
                PullModel::Finished => r == Ok::<Option<Feature>, Error>(None)
                    && final(self).exhausted,
                PullModel::Produced(fms, rest) => {
                    &&& r matches Ok(f) && f matches Some(x) && x@ == fms[0]
                    &&& features_model(final(self).queue@) == fms.remove(0)
                    &&& final(self).remaining() == rest
                    &&& !final(self).exhausted
                },
            },
        decreases old(self).remaining().len(),
    {
        if self.exhausted {
            return Ok(None);
        }
        if self.queue.len() > 0 {
            let f = self.queue.remove(0);
            return Ok(Some(f));
        }
        match read_block(&mut self.stream) {
            Err(e) => {
                self.exhausted = true;
                Err(e)
            },
            Ok(None) => {
                self.exhausted = true;
                Ok(None)
            },
            Ok(Some(body)) => {
                let ghost b = body@;
                match read_body(body) {
                    Err(e) => {
                        self.exhausted = true;
                        Err(e)
                    },
                    Ok(features) => {
                        if features.len() > 0 {
                            let ghost fms = features_model(features@);
                            self.queue = features;
                            let f = self.queue.remove(0);
                            proof {
                                assert(features_model(self.queue@) =~= fms.remove(0));
                            }
                            Ok(Some(f))
                        } else {
                            proof {
                                assert(features_model(features@) =~= Seq::<FeatureModel>::empty());
                            }
                            self.next()
                        }
                    },
                }
            },
        }
    }
}

} // verus!
