//! The state that is built once for a binary and then only read: the bytes
//! of the file and the baseline image made of them.

use crate::arch::Arch;
use crate::engine::EngineError;
use crate::hooks::{span_or_error, write_hook_span, write_span};
use crate::image::{all_wf, image_of_buffer, mem_image, LoadError, MemImage};
use crate::lookup::{read_static_mem, static_read};
use crate::mapping::{init_plan, plan_of, plan_view, InitPlan};
use crate::segment::SegView;
use vstd::prelude::*;

verus! {

/// The bytes of a binary together with its baseline image. A value is made
/// by `build` only and never changes, so the image it holds is always the
/// image of its bytes.
pub struct Context {
    buffer: Vec<u8>,
    image: MemImage,
}

/// A context as a mathematical value.
pub struct ContextView {
    /// The bytes of the binary.
    pub bytes: Seq<u8>,
    /// The segments of the image.
    pub image: Seq<SegView>,
}

impl View for Context {
    type V = ContextView;

    closed spec fn view(&self) -> ContextView {
        ContextView { bytes: self.buffer@, image: self.image.deep_view() }
    }
}

impl Context {

    #[verifier::type_invariant]
    spec fn inv(&self) -> bool {
        &&& all_wf(self.image.deep_view())
        &&& image_of_buffer(self.buffer@) == Ok::<Seq<SegView>, LoadError>(self.image.deep_view())
    }

    /// Builds the image of the bytes of a binary, once. The bytes are
    /// refused with the error that building their image gives.
    pub fn build(buffer: Vec<u8>) -> (r: Result<Context, LoadError>)
        ensures
            match r {
                Ok(context) => image_of_buffer(buffer@) == Ok::<Seq<SegView>, LoadError>(
                    context@.image,
                ) && context@.bytes == buffer@,
                Err(e) => image_of_buffer(buffer@) == Err::<Seq<SegView>, LoadError>(e),
            },
    {
        match mem_image(buffer.as_slice()) {
            Ok(image) => Ok(Context { buffer, image }),
            Err(e) => Err(e),
        }
    }

    /// The image: the image of the bytes, every segment well formed.
    pub fn image(&self) -> (r: &MemImage)
        ensures
            r.deep_view() == self@.image,
            all_wf(r.deep_view()),
            image_of_buffer(self@.bytes) == Ok::<Seq<SegView>, LoadError>(self@.image),
    {
        proof {
            use_type_invariant(self);
        }
        &self.image
    }

    /// The bytes of the binary.
    pub fn buffer(&self) -> (r: &Vec<u8>)
        ensures
            r@ == self@.bytes,
    {
        &self.buffer
    }

    /// A copy of the `size` bytes that the image holds for the addresses
    /// from `address` on, out of the last segment whose aligned range holds
    /// `address`; `None` where there is no such segment or where a part of
    /// the range lies outside its content: never fewer bytes than asked for.
    pub fn read_static_mem(&self, address: u64, size: usize) -> (r: Option<Vec<u8>>)
        ensures
            match r {
                Some(bytes) => static_read(self@.image, address, size as nat) == Some(bytes@),
                None => static_read(self@.image, address, size as nat).is_none(),
            },
    {
        proof {
            use_type_invariant(self);
        }
        read_static_mem(&self.image, address, size)
    }

    /// The range over which a memory-write hook is installed: the span of
    /// the writeable segments of the image.
    pub fn write_hook_span(&self) -> (r: Result<(u64, u64), EngineError>)
        ensures
            r == span_or_error(write_span(self@.image)),
    {
        proof {
            use_type_invariant(self);
        }
        write_hook_span(&self.image)
    }

    /// What the initializer asks of a fresh engine for an architecture.
    pub fn init_plan(&self, archmode: &Arch) -> (r: Result<InitPlan, EngineError>)
        ensures
            plan_view(r) == plan_of(*archmode, self@.image),
    {
        proof {
            use_type_invariant(self);
        }
        init_plan(archmode, &self.image)
    }
}

} // verus!
