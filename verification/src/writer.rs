//! The content of an output file under scattered writes.
//!
//! A file is allocated at its full size, all zeros, and each segment is
//! written at its own offset, in any order. The functions here say what the
//! file holds after a write; [`FileImage`] carries a file out in memory.

use vstd::prelude::*;

verus! {

/// A file of `size` zero bytes: what allocation leaves.
pub open spec fn zeros(size: nat) -> Seq<u8> {
    Seq::new(size, |i: int| 0u8)
}

/// The content of a file after `data` was written at `offset`: the data in
/// its range, what was there before outside it, and zeros where the write
/// begins beyond the old end.
pub open spec fn written(file: Seq<u8>, offset: int, data: Seq<u8>) -> Seq<u8> {
    let end = offset + data.len();
    let len = if end > file.len() && data.len() > 0 {
        end
    } else {
        file.len() as int
    };
    Seq::new(
        len as nat,
        |i: int|
            if offset <= i < end {
                data[i - offset]
            } else if i < file.len() {
                file[i]
            } else {
                0u8
            },
    )
}

/// A write inside the file leaves its size as it is.
pub proof fn lemma_write_keeps_size(file: Seq<u8>, offset: int, data: Seq<u8>)
    requires
        0 <= offset,
        offset + data.len() <= file.len(),
    ensures
        written(file, offset, data).len() == file.len(),
{
}

/// After a write the range written holds the data, byte for byte, and every
/// byte outside it is what it was.
pub proof fn lemma_write_reads_back(file: Seq<u8>, offset: int, data: Seq<u8>)
    requires
        0 <= offset,
        offset + data.len() <= file.len(),
    ensures
        written(file, offset, data).subrange(offset, offset + data.len()) == data,
        forall|i: int|
            0 <= i < file.len() && !(offset <= i < offset + data.len()) ==> written(
                file,
                offset,
                data,
            )[i] == file[i],
{
    assert(written(file, offset, data).subrange(offset, offset + data.len()) =~= data);
}

/// Two writes that share no byte give the same file in either order.
pub proof fn lemma_writes_commute(
    file: Seq<u8>,
    first_offset: int,
    first: Seq<u8>,
    second_offset: int,
    second: Seq<u8>,
)
    requires
        0 <= first_offset,
        0 <= second_offset,
        first_offset + first.len() <= second_offset || second_offset + second.len()
            <= first_offset,
    ensures
        written(written(file, first_offset, first), second_offset, second) == written(
            written(file, second_offset, second),
            first_offset,
            first,
        ),
{
    assert(written(written(file, first_offset, first), second_offset, second) =~= written(
        written(file, second_offset, second),
        first_offset,
        first,
    ));
}

/// A segment that is never written leaves its slot as allocation left it:
/// all zeros.
pub proof fn lemma_unwritten_stays_zero(size: nat, offset: int, data: Seq<u8>, i: int)
    requires
        0 <= offset,
        offset + data.len() <= size,
        0 <= i < size,
        !(offset <= i < offset + data.len()),
    ensures
        written(zeros(size), offset, data)[i] == 0,
{
}

/// A file of one segment whose data fills it holds exactly that data.
pub proof fn lemma_single_write_fills(data: Seq<u8>)
    ensures
        written(zeros(data.len()), 0, data) == data,
{
    assert(written(zeros(data.len()), 0, data) =~= data);
}

/// An output file held in memory.
#[derive(Debug)]
pub struct FileImage {
    pub bytes: Vec<u8>,
}

impl FileImage {
    /// A file of `size` bytes, all zeros.
    pub fn allocate(size: usize) -> (image: FileImage)
        ensures
            image.bytes@ == zeros(size as nat),
    {
        let mut bytes: Vec<u8> = Vec::new();
        while bytes.len() < size
            invariant
                bytes@.len() <= size,
                forall|i: int| 0 <= i < bytes@.len() ==> bytes@[i] == 0,
            decreases size - bytes.len(),
        {
            bytes.push(0);
        }
        assert(bytes@ =~= zeros(size as nat));
        FileImage { bytes }
    }

    /// Writes `data` at `offset`. Returns `false`, and writes nothing, where
    /// the end of the write cannot be addressed.
    pub fn write_at(&mut self, offset: usize, data: &[u8]) -> (done: bool)
        ensures
            done == (offset + data@.len() <= usize::MAX),
            done ==> final(self).bytes@ == written(old(self).bytes@, offset as int, data@),
            !done ==> final(self).bytes@ == old(self).bytes@,
    {
        let end: usize = match offset.checked_add(data.len()) {
            Some(end) => end,
            None => {
                return false;
            },
        };
        let ghost before = self.bytes@;
        if data.len() > 0 {
            while self.bytes.len() < end
                invariant
                    before.len() <= self.bytes@.len(),
                    self.bytes@.len() <= end || self.bytes@.len() == before.len(),
                    forall|i: int| 0 <= i < before.len() ==> self.bytes@[i] == before[i],
                    forall|i: int| before.len() <= i < self.bytes@.len() ==> self.bytes@[i] == 0,
                decreases end - self.bytes.len(),
            {
                self.bytes.push(0);
            }
        }
        let ghost padded = self.bytes@;
        let mut k: usize = 0;
        while k < data.len()
            invariant
                k <= data.len(),
                end == offset + data.len(),
                data.len() > 0 ==> end <= self.bytes@.len(),
                self.bytes@.len() == padded.len(),
                padded.len() == (if end > before.len() && data.len() > 0 {
                    end as int
                } else {
                    before.len() as int
                }),
                forall|i: int| 0 <= i < before.len() ==> padded[i] == before[i],
                forall|i: int| before.len() <= i < padded.len() ==> padded[i] == 0,
                forall|j: int| offset <= j < offset + k ==> self.bytes@[j] == data@[j - offset],
                forall|i: int|
                    0 <= i < padded.len() && !(offset <= i < offset + k) ==> self.bytes@[i]
                        == padded[i],
            decreases data.len() - k,
        {
            self.bytes[offset + k] = data[k];
            k = k + 1;
        }
        proof {
            let target = written(before, offset as int, data@);
            assert(self.bytes@.len() == target.len());
            assert forall|i: int| 0 <= i < target.len() implies self.bytes@[i] == target[i] by {
                if offset <= i < offset + data@.len() {
                    assert(self.bytes@[i] == data@[i - offset]);
                } else {
                    assert(self.bytes@[i] == padded[i]);
                }
            }
            assert(self.bytes@ =~= target);
        }
        true
    }

    /// The size of the file.
    pub fn len(&self) -> (size: usize)
        ensures
            size == self.bytes@.len(),
    {
        self.bytes.len()
    }
}

/// The first `k` pieces of data, one after the other.
pub open spec fn joined(pieces: Seq<Seq<u8>>, k: int) -> Seq<u8>
    decreases k,
{
    if k <= 0 {
        Seq::empty()
    } else {
        joined(pieces, k - 1) + pieces[k - 1]
    }
}

/// The file after the first `k` pieces were written, piece `i` at the end
/// of the pieces before it.
pub open spec fn written_in_order(file: Seq<u8>, pieces: Seq<Seq<u8>>, k: int) -> Seq<u8>
    decreases k,
{
    if k <= 0 {
        file
    } else {
        written(written_in_order(file, pieces, k - 1), joined(pieces, k - 1).len() as int, pieces[k - 1])
    }
}

/// A file allocated at the size of all its segments, into which every
/// segment is written at its offset with data that fills its slot, holds
/// the data of the segments one after the other: after `k` segments the
/// first `k` slots hold their data and the rest is still zero.
pub proof fn lemma_assembled_file(pieces: Seq<Seq<u8>>, k: int)
    requires
        0 <= k <= pieces.len(),
    ensures
        written_in_order(zeros(joined(pieces, pieces.len() as int).len()), pieces, k) == joined(
            pieces,
            k,
        ) + zeros((joined(pieces, pieces.len() as int).len() - joined(pieces, k).len()) as nat),
        joined(pieces, k).len() <= joined(pieces, pieces.len() as int).len(),
    decreases k,
{
    let total = joined(pieces, pieces.len() as int).len();
    lemma_joined_grows(pieces, k, pieces.len() as int);
    if k == 0 {
        assert(joined(pieces, 0) + zeros(total) =~= zeros(total));
    } else {
        lemma_assembled_file(pieces, k - 1);
        lemma_joined_grows(pieces, k - 1, k);
        let before = written_in_order(zeros(total), pieces, k - 1);
        let at = joined(pieces, k - 1).len() as int;
        assert(written(before, at, pieces[k - 1]) =~= joined(pieces, k) + zeros(
            (total - joined(pieces, k).len()) as nat,
        ));
    }
}

/// More pieces are never shorter than fewer.
pub proof fn lemma_joined_grows(pieces: Seq<Seq<u8>>, i: int, j: int)
    requires
        0 <= i <= j,
    ensures
        joined(pieces, i).len() <= joined(pieces, j).len(),
    decreases j - i,
{
    if i < j {
        lemma_joined_grows(pieces, i, j - 1);
    }
}

/// A file whose every segment was written holds exactly the data of its
/// segments, one after the other.
pub proof fn lemma_assembled_whole(pieces: Seq<Seq<u8>>)
    ensures
        written_in_order(
            zeros(joined(pieces, pieces.len() as int).len()),
            pieces,
            pieces.len() as int,
        ) == joined(pieces, pieces.len() as int),
{
    lemma_assembled_file(pieces, pieces.len() as int);
    let all = joined(pieces, pieces.len() as int);
    assert(all + zeros(0) =~= all);
}

} // verus!
