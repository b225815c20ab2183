//! The budget of images that go with one message.
use vstd::prelude::*;
use vstd::string::*;
use crate::arguments::{hinted, usage};
use crate::errors::RsiError;
use crate::number;
use crate::number::decimal;
use crate::text::cat3;

verus! {

/// Bytes that all images of one message may have together.
pub const MAXIMUM_CLI_IMAGE_BYTES: usize = 67108864;

/// Why images are not accepted.
#[derive(Clone, Copy, Debug, PartialEq, Eq, Structural)]
pub enum ImageError {
    /// More images than the message has blocks beside its task.
    Count,
    /// More bytes than all images may have together.
    Bytes,
    /// An image without bytes.
    Empty,
    /// Not a regular file.
    NotAFile,
}

/// Whether a message with at most `blocks` blocks can hold its task and `images` images.
pub fn check_count(images: usize, blocks: usize) -> (r: Result<(), ImageError>)
    ensures
        r is Ok <==> images + 1 <= blocks,
        r is Err ==> r == Err::<(), ImageError>(ImageError::Count),
{
    if images.saturating_add(1) > blocks || images == usize::MAX {
        Err(ImageError::Count)
    } else {
        Ok(())
    }
}

/// The bytes of the images that were read so far.
#[derive(Clone, Copy, Debug, PartialEq, Eq, Structural)]
pub struct ImageBudget {
    total: usize,
}

impl ImageBudget {
    pub closed spec fn used(self) -> int {
        self.total as int
    }

    /// No more than the limit was accepted.
    pub open spec fn wf(self) -> bool {
        0 <= self.used() <= MAXIMUM_CLI_IMAGE_BYTES
    }

    pub fn new() -> (r: ImageBudget)
        ensures
            r.used() == 0,
            r.wf(),
    {
        ImageBudget { total: 0 }
    }

    /// Bytes that the next image may have.
    pub fn remaining(&self) -> (n: usize)
        requires
            self.wf(),
        ensures
            n == MAXIMUM_CLI_IMAGE_BYTES - self.used(),
    {
        MAXIMUM_CLI_IMAGE_BYTES - self.total
    }

    /// Bytes to read of the next image at most: one more than it may have, so that one that
    /// grew since its size was read is noticed.
    pub fn read_limit(&self) -> (n: u64)
        requires
            self.wf(),
        ensures
            n == MAXIMUM_CLI_IMAGE_BYTES - self.used() + 1,
    {
        (MAXIMUM_CLI_IMAGE_BYTES - self.total) as u64 + 1
    }

    /// Judges an image by what its file says of itself, before anything is read.
    pub fn judge(&self, is_file: bool, size: u64) -> (r: Result<(), ImageError>)
        requires
            self.wf(),
        ensures
            r == (if !is_file {
                Err(ImageError::NotAFile)
            } else if size > MAXIMUM_CLI_IMAGE_BYTES - self.used() {
                Err(ImageError::Bytes)
            } else {
                Ok(())
            }),
    {
        if !is_file {
            Err(ImageError::NotAFile)
        } else if size > self.remaining() as u64 {
            Err(ImageError::Bytes)
        } else {
            Ok(())
        }
    }

    /// Accepts an image by the bytes that were read of it.
    pub fn accept(&mut self, length: usize) -> (r: Result<(), ImageError>)
        requires
            old(self).wf(),
        ensures
            final(self).wf(),
            r == (if length == 0 {
                Err(ImageError::Empty)
            } else if length > MAXIMUM_CLI_IMAGE_BYTES - old(self).used() {
                Err(ImageError::Bytes)
            } else {
                Ok(())
            }),
            final(self).used() == old(self).used() + (if r is Ok {
                length as int
            } else {
                0
            }),
    {
        if length == 0 {
            return Err(ImageError::Empty);
        }
        if length > self.remaining() {
            return Err(ImageError::Bytes);
        }
        self.total = self.total + length;
        Ok(())
    }
}

/// What is told of images that are not accepted. `name` is the image that was looked at, and
/// `blocks` what a message may hold.
pub fn refusal(e: ImageError, name: &str, blocks: usize) -> (r: RsiError)
    ensures
        r matches RsiError::Boot(s) && s@ == hinted(match e {
            ImageError::Count => "one message may contain at most "@ + number::digits(
                if blocks > 0 {
                    (blocks - 1) as nat
                } else {
                    0
                },
            ) + " images alongside its task"@,
            ImageError::Bytes => "input images exceed "@ + number::digits(
                MAXIMUM_CLI_IMAGE_BYTES as nat,
            ) + " aggregate bytes"@,
            ImageError::Empty => "image `"@ + name@ + "` is empty"@,
            ImageError::NotAFile => "image `"@ + name@ + "` is not a regular file"@,
        }),
{
    let told = match e {
        ImageError::Count => cat3(
            "one message may contain at most ",
            decimal(blocks.saturating_sub(1) as u64).as_str(),
            " images alongside its task",
        ),
        ImageError::Bytes => cat3(
            "input images exceed ",
            decimal(MAXIMUM_CLI_IMAGE_BYTES as u64).as_str(),
            " aggregate bytes",
        ),
        ImageError::Empty => cat3("image `", name, "` is empty"),
        ImageError::NotAFile => cat3("image `", name, "` is not a regular file"),
    };
    usage(told.as_str())
}

} // verus!
