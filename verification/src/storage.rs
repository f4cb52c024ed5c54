//! Builder of the flat-file storage image.
//!
//! The image is the fixed-size content of the storage region: a
//! directory block of fixed-size records — occupied flag, starting
//! block, size in blocks, up-to-8-byte name — followed by 256-byte data
//! blocks. The host writes the finished image wholesale into the storage
//! region before execution starts; the machine only ever performs byte
//! reads and writes against it.

use vstd::prelude::*;
use crate::mem::STORAGE_SIZE;

verus! {

/// Bytes in one storage block; the directory is block 0.
pub const BLOCK_SIZE: u16 = 256;

/// Bytes in one directory record.
pub const RECORD_SIZE: u16 = 16;

/// Longest file name a directory record holds.
pub const MAX_NAME_LEN: u16 = 8;

/// Blocks in the storage region.
pub const STORAGE_BLOCKS: u16 = 64;

/// Directory records the directory block holds.
pub const MAX_FILES: u16 = 16;

/// Everything the image builder can reject.
#[derive(Debug, Clone, Copy, PartialEq, Eq, Structural)]
pub enum StorageError {
    /// A file name longer than a directory record's name field.
    NameTooLong,
    /// More files than the directory block holds records.
    TooManyFiles,
    /// More data blocks than the storage region holds.
    ImageFull,
}

/// `img` with `data` written over the bytes starting at `at`.
pub open spec fn splice(img: Seq<u8>, at: int, data: Seq<u8>) -> Seq<u8> {
    img.take(at) + data + img.skip(at + data.len())
}

/// The blocks a file's data occupies: its full blocks and one more for
/// the remainder.
pub open spec fn blocks_of(data_len: int) -> int {
    data_len / 256 + 1
}

/// The image after adding the files from `idx` on: for each file, a
/// directory record (occupied flag 1, starting block, size in blocks,
/// name) at the next record slot, and the file's bytes at the start of
/// its first block.
pub open spec fn spec_build(
    files: Seq<(Seq<u8>, Seq<u8>)>,
    idx: int,
    img: Seq<u8>,
    next_block: int,
) -> Result<Seq<u8>, StorageError>
    decreases files.len() - idx,
{
    if idx >= files.len() {
        Ok(img)
    } else {
        let name = files[idx].0;
        let data = files[idx].1;
        if name.len() > MAX_NAME_LEN {
            Err(StorageError::NameTooLong)
        } else if idx >= MAX_FILES {
            Err(StorageError::TooManyFiles)
        } else if next_block + blocks_of(data.len() as int) > STORAGE_BLOCKS {
            Err(StorageError::ImageFull)
        } else {
            let record = seq![1u8, next_block as u8, blocks_of(data.len() as int) as u8] + name;
            let img1 = splice(img, idx * RECORD_SIZE, record);
            let img2 = splice(img1, next_block * BLOCK_SIZE, data);
            spec_build(files, idx + 1, img2, next_block + blocks_of(data.len() as int))
        }
    }
}

/// The storage image of a file list: zeroed, then every file added in
/// order, data blocks allocated from block 1 up.
pub open spec fn spec_storage_image(files: Seq<(Seq<u8>, Seq<u8>)>) -> Result<
    Seq<u8>,
    StorageError,
> {
    spec_build(files, 0, Seq::new(STORAGE_SIZE as nat, |i: int| 0u8), 1)
}

/// The file list a vector of (name, data) pairs stands for.
pub open spec fn files_view(files: Seq<(Vec<u8>, Vec<u8>)>) -> Seq<(Seq<u8>, Seq<u8>)> {
    files.map_values(|f: (Vec<u8>, Vec<u8>)| (f.0@, f.1@))
}

/// The abstract value of a built image.
pub open spec fn image_result_view(r: Result<Vec<u8>, StorageError>) -> Result<
    Seq<u8>,
    StorageError,
> {
    match r {
        Ok(v) => Ok(v@),
        Err(e) => Err(e),
    }
}

/// Write `data` over the bytes of `img` starting at `at`.
fn write_bytes(img: &mut Vec<u8>, at: usize, data: &[u8])
    requires
        at + data@.len() <= old(img)@.len(),
    ensures
        final(img)@ == splice(old(img)@, at as int, data@),
        final(img)@.len() == old(img)@.len(),
{
    let img_len = img.len();
    let mut j: usize = 0;
    while j < data.len()
        invariant
            j <= data@.len(),
            at + data@.len() <= old(img)@.len(),
            img@.len() == old(img)@.len(),
            img@.len() == img_len,
            img@ == splice(old(img)@, at as int, data@.take(j as int)),
        decreases data@.len() - j,
    {
        proof {
            assert(at + j < img_len);
        }
        img[at + j] = data[j];
        proof {
            assert(img@ =~= splice(old(img)@, at as int, data@.take(j + 1)));
        }
        j = j + 1;
    }
    proof {
        assert(data@.take(data@.len() as int) =~= data@);
    }
}

/// Build the storage image of a file list: a zeroed image, then for each
/// file a directory record and its data blocks, allocated in order from
/// block 1.
pub fn build_storage_image(files: &Vec<(Vec<u8>, Vec<u8>)>) -> (r: Result<Vec<u8>, StorageError>)
    ensures
        image_result_view(r) == spec_storage_image(files_view(files@)),
        r is Ok ==> r.unwrap()@.len() == STORAGE_SIZE,
{
    let ghost fv = files_view(files@);
    let mut img: Vec<u8> = Vec::new();
    let mut k: usize = 0;
    while k < STORAGE_SIZE as usize
        invariant
            k <= STORAGE_SIZE,
            img@.len() == k,
            forall|i: int| 0 <= i < k ==> img@[i] == 0,
        decreases STORAGE_SIZE - k,
    {
        img.push(0);
        k = k + 1;
    }
    proof {
        assert(img@ =~= Seq::new(STORAGE_SIZE as nat, |i: int| 0u8));
    }
    let mut next_block: usize = 1;
    let mut idx: usize = 0;
    while idx < files.len()
        invariant
            idx <= files@.len(),
            fv == files_view(files@),
            1 <= next_block <= STORAGE_BLOCKS,
            img@.len() == STORAGE_SIZE,
            spec_storage_image(fv) == spec_build(fv, idx as int, img@, next_block as int),
        decreases files@.len() - idx,
    {
        let name = &files[idx].0;
        let data = &files[idx].1;
        proof {
            assert(fv[idx as int] == (name@, data@));
        }
        if name.len() > MAX_NAME_LEN as usize {
            return Err(StorageError::NameTooLong);
        }
        if idx >= MAX_FILES as usize {
            return Err(StorageError::TooManyFiles);
        }
        if data.len() / 256 >= STORAGE_BLOCKS as usize - next_block {
            proof {
                assert(next_block + blocks_of(data@.len() as int) > STORAGE_BLOCKS);
            }
            return Err(StorageError::ImageFull);
        }
        let size = data.len() / 256 + 1;
        proof {
            assert(size == blocks_of(data@.len() as int));
            assert(next_block + size <= STORAGE_BLOCKS);
            assert(data@.len() < size * 256) by {
                assert(data@.len() == 256 * (data@.len() as int / 256) + data@.len() as int % 256);
            };
        }
        let mut record: Vec<u8> = Vec::new();
        record.push(1);
        record.push(next_block as u8);
        record.push(size as u8);
        let mut n: usize = 0;
        while n < name.len()
            invariant
                n <= name@.len(),
                record@ == seq![1u8, next_block as u8, size as u8] + name@.take(n as int),
            decreases name@.len() - n,
        {
            record.push(name[n]);
            proof {
                assert(record@ =~= seq![1u8, next_block as u8, size as u8] + name@.take(n + 1));
            }
            n = n + 1;
        }
        proof {
            assert(name@.take(name@.len() as int) =~= name@);
        }
        write_bytes(&mut img, idx * RECORD_SIZE as usize, record.as_slice());
        write_bytes(&mut img, next_block * BLOCK_SIZE as usize, data.as_slice());
        next_block = next_block + size;
        idx = idx + 1;
    }
    proof {
        assert(spec_build(fv, idx as int, img@, next_block as int) == Ok::<Seq<u8>, StorageError>(
            img@,
        ));
    }
    Ok(img)
}

} // verus!
