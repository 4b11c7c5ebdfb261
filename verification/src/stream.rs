//! A block stream: a forward-only cursor over the blocks of one source.

use vstd::prelude::*;
use crate::error::ErrorKind;
use crate::segment::{blocks_of, segment};

verus! {

/// The blocks of one source that have not been handed out yet.
pub struct BlockStream {
    blocks: Vec<String>,
    cursor: usize,
}

impl View for BlockStream {
    type V = Seq<Seq<char>>;

    /// The blocks still to come, in source order.
    closed spec fn view(&self) -> Seq<Seq<char>> {
        self.blocks.deep_view().skip(self.cursor as int)
    }
}

/// The entry of a stream at a position: the block there, or nothing once the
/// stream is exhausted.
pub open spec fn entry_at(blocks: Seq<Seq<char>>, pos: int) -> Option<Seq<char>> {
    if 0 <= pos < blocks.len() {
        Some(blocks[pos])
    } else {
        None
    }
}

/// The view of an entry.
pub open spec fn entry_view(e: Option<String>) -> Option<Seq<char>> {
    match e {
        Some(s) => Some(s@),
        None => None,
    }
}

impl BlockStream {
    #[verifier::type_invariant]
    spec fn in_range(self) -> bool {
        self.cursor <= self.blocks@.len()
    }

    /// The stream of the blocks of `source`, cut at runs of `k` blank lines,
    /// with the lines that are comments under `comments` left out.
    pub fn new(k: usize, source: &str, comments: &Vec<String>) -> (stream: BlockStream)
        requires
            k >= 1,
        ensures
            stream@ == blocks_of(source@, k as int, comments.deep_view()),
    {
        let blocks = segment(source, k, comments);
        assert(blocks.deep_view().skip(0) =~= blocks.deep_view());
        BlockStream { blocks, cursor: 0 }
    }

    /// The stream of the blocks of a source that was read, where `read` holds
    /// its text. Where it holds the cause for which the source could not be
    /// read there is no stream, and the run fails.
    pub fn open(k: usize, read: &Result<String, String>, comments: &Vec<String>) -> (made: Result<
        BlockStream,
        ErrorKind,
    >)
        requires
            k >= 1,
        ensures
            match *read {
                Ok(text) => made matches Ok(stream) && stream@ == blocks_of(
                    text@,
                    k as int,
                    comments.deep_view(),
                ),
                Err(_) => made matches Err(kind) && kind == ErrorKind::SourceIo,
            },
    {
        match read {
            Ok(text) => Ok(BlockStream::new(k, text.as_str(), comments)),
            Err(_) => Err(ErrorKind::SourceIo),
        }
    }

    /// The stream that hands out `blocks`, the first first.
    pub fn from_blocks(blocks: Vec<String>) -> (stream: BlockStream)
        ensures
            stream@ == blocks.deep_view(),
    {
        assert(blocks.deep_view().skip(0) =~= blocks.deep_view());
        BlockStream { blocks, cursor: 0 }
    }

    /// Number of blocks still to come.
    pub fn remaining(&self) -> (n: usize)
        ensures
            n == self@.len(),
    {
        proof {
            use_type_invariant(self);
        }
        self.blocks.len() - self.cursor
    }

    /// Skips `n` blocks and hands out the one after them. A stream with no
    /// more than `n` blocks left is exhausted by the call and hands out
    /// nothing, now and ever after.
    pub fn nth(&mut self, n: usize) -> (block: Option<String>)
        ensures
            entry_view(block) == entry_at(old(self)@, n as int),
            final(self)@ == if n < old(self)@.len() {
                old(self)@.skip(n + 1)
            } else {
                Seq::<Seq<char>>::empty()
            },
    {
        proof {
            use_type_invariant(&*self);
        }
        let left = self.blocks.len() - self.cursor;
        if n < left {
            let at = self.cursor + n;
            let block = self.blocks[at].clone();
            self.cursor = at + 1;
            proof {
                let all = self.blocks.deep_view();
                assert(all.skip(old(self).cursor as int)[n as int] == block@);
                assert(all.skip(self.cursor as int) =~= all.skip(old(self).cursor as int).skip(
                    n + 1,
                ));
            }
            Some(block)
        } else {
            self.cursor = self.blocks.len();
            assert(self.blocks.deep_view().skip(self.cursor as int) =~= Seq::<Seq<char>>::empty());
            None
        }
    }

    /// Hands out the next block, if one is left.
    pub fn next(&mut self) -> (block: Option<String>)
        ensures
            entry_view(block) == entry_at(old(self)@, 0),
            final(self)@ == if 0 < old(self)@.len() {
                old(self)@.skip(1)
            } else {
                Seq::<Seq<char>>::empty()
            },
    {
        self.nth(0)
    }
}

} // verus!
